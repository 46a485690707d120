# freshrss_reader

Firmware logic of an ESP32 FreshRSS reader with an ILI9341 touch display.

- `src/` is the verified library: the Google Reader API requests
  (`freshrss`), UTF-8 decoding of response chunks (`utf8`), decimal
  rendering for error texts (`decimal`), the reading-list data model
  (`serde_rss`), and the display geometry and touch mapping (`screen`).
- `app/` is the firmware around it: HTTP over ESP-IDF, the display and
  touch drivers, the Slint UI, and serde copies of the data model.
- `tests/` exercises the library on concrete values.
