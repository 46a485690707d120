use freshrss_reader::screen::{line_area, touch_point, touch_reported, LineArea, ScreenPoint, SCR_HEIGHT, SCR_WIDTH};

#[test]
fn display_size() {
    assert_eq!(SCR_WIDTH, 320);
    assert_eq!(SCR_HEIGHT, 240);
}

#[test]
fn touch_status_decides_whether_to_read_coordinates() {
    assert!(!touch_reported(0));
    assert!(touch_reported(1));
    assert!(touch_reported(2));
    assert!(touch_reported(254));
    assert!(!touch_reported(255));
}

#[test]
fn touches_are_turned_a_quarter_turn() {
    assert_eq!(touch_point((10, 20)), Some(ScreenPoint { x: 300, y: 10 }));
    assert_eq!(touch_point((0, 0)), Some(ScreenPoint { x: 320, y: 0 }));
    assert_eq!(touch_point((240, 320)), Some(ScreenPoint { x: 0, y: 240 }));
}

#[test]
fn touches_off_the_display_are_ignored() {
    assert_eq!(touch_point((241, 0)), None);
    assert_eq!(touch_point((0, 321)), None);
    assert_eq!(touch_point((u16::MAX, u16::MAX)), None);
}

#[test]
fn distinct_touches_give_distinct_points() {
    let mut seen = std::collections::HashSet::new();
    for y in (0..=240u16).step_by(7) {
        for x in (0..=320u16).step_by(11) {
            let p = touch_point((y, x)).unwrap();
            assert!(p.x >= 0 && p.x <= 320 && p.y >= 0 && p.y <= 240);
            assert!(seen.insert((p.x, p.y)));
        }
    }
}

#[test]
fn line_area_covers_the_rendered_range() {
    assert_eq!(line_area(5, 10, 30), LineArea { x: 10, y: 5, width: 20, height: 1 });
    assert_eq!(line_area(0, 0, 320), LineArea { x: 0, y: 0, width: 320, height: 1 });
    assert_eq!(line_area(3, 30, 10), LineArea { x: 30, y: 3, width: 0, height: 1 });
}
