//! The reading list that the FreshRSS API returns, as plain data.
//! Field names follow the JSON ones (in snake case; `type_field` is `type`).
//! Two values are equal when their contents, seen through `deep_view`, are.
use vstd::prelude::*;
use vstd::std_specs::cmp::PartialEqSpec;
use vstd::std_specs::cmp::PartialEqSpecImpl;

verus! {

/// The list of the newest entries of the reading list.
#[derive(Debug, Clone)]
pub struct RssReadingList {
    pub id: String,
    pub updated: i64,
    pub items: Vec<RssItem>,
    pub continuation: String,
}

/// The content of a reading list.
#[verifier::ext_equal]
pub struct RssReadingListModel {
    pub id: Seq<char>,
    pub updated: i64,
    pub items: Seq<RssItemModel>,
    pub continuation: Seq<char>,
}

impl DeepView for RssReadingList {
    type V = RssReadingListModel;

    open spec fn deep_view(&self) -> RssReadingListModel {
        RssReadingListModel {
            id: self.id@,
            updated: self.updated,
            items: self.items.deep_view(),
            continuation: self.continuation@,
        }
    }
}

impl Default for RssReadingList {
    fn default() -> (r: Self)
        ensures
            r.id@ == Seq::<char>::empty(),
            r.updated == 0,
            r.items@ == Seq::<RssItem>::empty(),
            r.continuation@ == Seq::<char>::empty(),
    {
        RssReadingList { id: String::new(), updated: 0, items: Vec::new(), continuation: String::new() }
    }
}

impl PartialEq for RssReadingList {
    fn eq(&self, other: &Self) -> (r: bool) {
        let r = self.id == other.id && self.updated == other.updated && items_eq(&self.items, &other.items)
            && self.continuation == other.continuation;
        proof {
            if self.id@ == other.id@ && self.updated == other.updated
                && self.items.deep_view() == other.items.deep_view()
                && self.continuation@ == other.continuation@ {
                assert(self.deep_view() =~= other.deep_view());
            }
        }
        r
    }
}

impl PartialEqSpecImpl for RssReadingList {
    open spec fn obeys_eq_spec() -> bool {
        true
    }

    open spec fn eq_spec(&self, other: &Self) -> bool {
        self.deep_view() == other.deep_view()
    }
}

/// One entry of the reading list.
#[derive(Debug, Clone)]
pub struct RssItem {
    pub id: String,
    pub crawl_time_msec: String,
    pub timestamp_usec: String,
    pub published: i64,
    pub title: String,
    pub canonical: Vec<Canonical>,
    pub alternate: Vec<Alternate>,
    pub categories: Vec<String>,
    pub origin: Origin,
    pub summary: Summary,
    /// Absent from the JSON when the entry has no enclosure.
    pub enclosure: Vec<Enclosure>,
    pub author: Option<String>,
}

/// The content of an entry.
#[verifier::ext_equal]
pub struct RssItemModel {
    pub id: Seq<char>,
    pub crawl_time_msec: Seq<char>,
    pub timestamp_usec: Seq<char>,
    pub published: i64,
    pub title: Seq<char>,
    pub canonical: Seq<Seq<char>>,
    pub alternate: Seq<Seq<char>>,
    pub categories: Seq<Seq<char>>,
    pub origin: OriginModel,
    pub summary: Seq<char>,
    pub enclosure: Seq<EnclosureModel>,
    pub author: Option<Seq<char>>,
}

impl DeepView for RssItem {
    type V = RssItemModel;

    open spec fn deep_view(&self) -> RssItemModel {
        RssItemModel {
            id: self.id@,
            crawl_time_msec: self.crawl_time_msec@,
            timestamp_usec: self.timestamp_usec@,
            published: self.published,
            title: self.title@,
            canonical: self.canonical.deep_view(),
            alternate: self.alternate.deep_view(),
            categories: self.categories.deep_view(),
            origin: self.origin.deep_view(),
            summary: self.summary.deep_view(),
            enclosure: self.enclosure.deep_view(),
            author: self.author.deep_view(),
        }
    }
}

impl Default for RssItem {
    fn default() -> (r: Self)
        ensures
            r.id@ == Seq::<char>::empty(),
            r.crawl_time_msec@ == Seq::<char>::empty(),
            r.timestamp_usec@ == Seq::<char>::empty(),
            r.published == 0,
            r.title@ == Seq::<char>::empty(),
            r.canonical@ == Seq::<Canonical>::empty(),
            r.alternate@ == Seq::<Alternate>::empty(),
            r.categories@ == Seq::<String>::empty(),
            r.origin.deep_view() == (OriginModel {
                stream_id: Seq::empty(),
                html_url: Seq::empty(),
                title: Seq::empty(),
            }),
            r.summary.content@ == Seq::<char>::empty(),
            r.enclosure@ == Seq::<Enclosure>::empty(),
            r.author is None,
    {
        RssItem {
            id: String::new(),
            crawl_time_msec: String::new(),
            timestamp_usec: String::new(),
            published: 0,
            title: String::new(),
            canonical: Vec::new(),
            alternate: Vec::new(),
            categories: Vec::new(),
            origin: Origin::default(),
            summary: Summary::default(),
            enclosure: Vec::new(),
            author: None,
        }
    }
}

impl PartialEq for RssItem {
    fn eq(&self, other: &Self) -> (r: bool) {
        let authors_eq = optional_strings_eq(&self.author, &other.author);
        let r = self.id == other.id && self.crawl_time_msec == other.crawl_time_msec
            && self.timestamp_usec == other.timestamp_usec && self.published == other.published
            && self.title == other.title && items_eq(&self.canonical, &other.canonical)
            && items_eq(&self.alternate, &other.alternate)
            && strings_eq(&self.categories, &other.categories) && self.origin == other.origin
            && self.summary == other.summary && items_eq(&self.enclosure, &other.enclosure)
            && authors_eq;
        proof {
            if self.deep_view() == other.deep_view() {
                assert(self.deep_view().origin == other.deep_view().origin);
            }
            if r {
                assert(self.deep_view() =~= other.deep_view());
            }
        }
        r
    }
}

impl PartialEqSpecImpl for RssItem {
    open spec fn obeys_eq_spec() -> bool {
        true
    }

    open spec fn eq_spec(&self, other: &Self) -> bool {
        self.deep_view() == other.deep_view()
    }
}

/// A link to the canonical page of an entry.
#[derive(Debug, Clone)]
pub struct Canonical {
    pub href: String,
}

impl DeepView for Canonical {
    /// The characters of the link.
    type V = Seq<char>;

    open spec fn deep_view(&self) -> Seq<char> {
        self.href@
    }
}

impl Default for Canonical {
    fn default() -> (r: Self)
        ensures
            r.href@ == Seq::<char>::empty(),
    {
        Canonical { href: String::new() }
    }
}

impl PartialEq for Canonical {
    fn eq(&self, other: &Self) -> (r: bool) {
        self.href == other.href
    }
}

impl PartialEqSpecImpl for Canonical {
    open spec fn obeys_eq_spec() -> bool {
        true
    }

    open spec fn eq_spec(&self, other: &Self) -> bool {
        self.href@ == other.href@
    }
}

/// A link to another form of an entry.
#[derive(Debug, Clone)]
pub struct Alternate {
    pub href: String,
}

impl DeepView for Alternate {
    /// The characters of the link.
    type V = Seq<char>;

    open spec fn deep_view(&self) -> Seq<char> {
        self.href@
    }
}

impl Default for Alternate {
    fn default() -> (r: Self)
        ensures
            r.href@ == Seq::<char>::empty(),
    {
        Alternate { href: String::new() }
    }
}

impl PartialEq for Alternate {
    fn eq(&self, other: &Self) -> (r: bool) {
        self.href == other.href
    }
}

impl PartialEqSpecImpl for Alternate {
    open spec fn obeys_eq_spec() -> bool {
        true
    }

    open spec fn eq_spec(&self, other: &Self) -> bool {
        self.href@ == other.href@
    }
}

/// The feed that an entry comes from.
#[derive(Debug, Clone)]
pub struct Origin {
    pub stream_id: String,
    pub html_url: String,
    pub title: String,
}

/// The content of an origin.
#[verifier::ext_equal]
pub struct OriginModel {
    pub stream_id: Seq<char>,
    pub html_url: Seq<char>,
    pub title: Seq<char>,
}

impl DeepView for Origin {
    type V = OriginModel;

    open spec fn deep_view(&self) -> OriginModel {
        OriginModel { stream_id: self.stream_id@, html_url: self.html_url@, title: self.title@ }
    }
}

impl Default for Origin {
    fn default() -> (r: Self)
        ensures
            r.stream_id@ == Seq::<char>::empty(),
            r.html_url@ == Seq::<char>::empty(),
            r.title@ == Seq::<char>::empty(),
    {
        Origin { stream_id: String::new(), html_url: String::new(), title: String::new() }
    }
}

impl PartialEq for Origin {
    fn eq(&self, other: &Self) -> (r: bool) {
        let r = self.stream_id == other.stream_id && self.html_url == other.html_url
            && self.title == other.title;
        proof {
            if r {
                assert(self.deep_view() =~= other.deep_view());
            }
        }
        r
    }
}

impl PartialEqSpecImpl for Origin {
    open spec fn obeys_eq_spec() -> bool {
        true
    }

    open spec fn eq_spec(&self, other: &Self) -> bool {
        self.deep_view() == other.deep_view()
    }
}

/// The text of an entry.
#[derive(Debug, Clone)]
pub struct Summary {
    pub content: String,
}

impl DeepView for Summary {
    /// The characters of the text.
    type V = Seq<char>;

    open spec fn deep_view(&self) -> Seq<char> {
        self.content@
    }
}

impl Default for Summary {
    fn default() -> (r: Self)
        ensures
            r.content@ == Seq::<char>::empty(),
    {
        Summary { content: String::new() }
    }
}

impl PartialEq for Summary {
    fn eq(&self, other: &Self) -> (r: bool) {
        self.content == other.content
    }
}

impl PartialEqSpecImpl for Summary {
    open spec fn obeys_eq_spec() -> bool {
        true
    }

    open spec fn eq_spec(&self, other: &Self) -> bool {
        self.content@ == other.content@
    }
}

/// A file attached to an entry.
#[derive(Debug, Clone)]
pub struct Enclosure {
    pub href: String,
    /// The media type (`type` in the JSON).
    pub type_field: String,
    pub length: Option<i64>,
}

/// The content of an enclosure.
#[verifier::ext_equal]
pub struct EnclosureModel {
    pub href: Seq<char>,
    pub type_field: Seq<char>,
    pub length: Option<i64>,
}

impl DeepView for Enclosure {
    type V = EnclosureModel;

    open spec fn deep_view(&self) -> EnclosureModel {
        EnclosureModel { href: self.href@, type_field: self.type_field@, length: self.length }
    }
}

impl Default for Enclosure {
    fn default() -> (r: Self)
        ensures
            r.href@ == Seq::<char>::empty(),
            r.type_field@ == Seq::<char>::empty(),
            r.length is None,
    {
        Enclosure { href: String::new(), type_field: String::new(), length: None }
    }
}

impl PartialEq for Enclosure {
    fn eq(&self, other: &Self) -> (r: bool) {
        let lengths_eq = match (self.length, other.length) {
            (Some(a), Some(b)) => a == b,
            (None, None) => true,
            _ => false,
        };
        let r = self.href == other.href && self.type_field == other.type_field && lengths_eq;
        proof {
            if r {
                assert(self.deep_view() =~= other.deep_view());
            }
        }
        r
    }
}

impl PartialEqSpecImpl for Enclosure {
    open spec fn obeys_eq_spec() -> bool {
        true
    }

    open spec fn eq_spec(&self, other: &Self) -> bool {
        self.deep_view() == other.deep_view()
    }
}

/// Whether two vectors hold, in order, items of equal content.
fn items_eq<T: PartialEq + DeepView>(a: &Vec<T>, b: &Vec<T>) -> (r: bool)
    requires
        <T as PartialEqSpec>::obeys_eq_spec(),
        forall|x: T, y: T| #[trigger] x.eq_spec(&y) <==> x.deep_view() == y.deep_view(),
    ensures
        r == (a.deep_view() == b.deep_view()),
{
    if a.len() != b.len() {
        proof {
            assert(a.deep_view().len() != b.deep_view().len());
        }
        return false;
    }
    let n = a.len();
    let mut i: usize = 0;
    while i < n
        invariant
            n == a.len(),
            n == b.len(),
            i <= n,
            <T as PartialEqSpec>::obeys_eq_spec(),
            forall|x: T, y: T| #[trigger] x.eq_spec(&y) <==> x.deep_view() == y.deep_view(),
            forall|j: int| 0 <= j < i ==> (#[trigger] a@[j]).deep_view() == b@[j].deep_view(),
        decreases n - i,
    {
        if !(a[i] == b[i]) {
            proof {
                assert(a.deep_view()[i as int] != b.deep_view()[i as int]);
            }
            return false;
        }
        i = i + 1;
    }
    proof {
        assert(a.deep_view() =~= b.deep_view());
    }
    true
}

/// Whether two optional strings are both absent or both present with the same text.
fn optional_strings_eq(a: &Option<String>, b: &Option<String>) -> (r: bool)
    ensures
        r == (a.deep_view() == b.deep_view()),
{
    match a {
        Some(x) => match b {
            Some(y) => {
                let r = *x == *y;
                proof {
                    assert(a.deep_view() == Some(x@));
                    assert(b.deep_view() == Some(y@));
                }
                r
            },
            None => false,
        },
        None => b.is_none(),
    }
}

/// Whether two vectors of strings hold, in order, the same texts.
fn strings_eq(a: &Vec<String>, b: &Vec<String>) -> (r: bool)
    ensures
        r == (a.deep_view() == b.deep_view()),
{
    if a.len() != b.len() {
        proof {
            assert(a.deep_view().len() != b.deep_view().len());
        }
        return false;
    }
    let n = a.len();
    let mut i: usize = 0;
    while i < n
        invariant
            n == a.len(),
            n == b.len(),
            i <= n,
            forall|j: int| 0 <= j < i ==> (#[trigger] a@[j])@ == b@[j]@,
        decreases n - i,
    {
        if !(a[i] == b[i]) {
            proof {
                assert(a.deep_view()[i as int] != b.deep_view()[i as int]);
            }
            return false;
        }
        i = i + 1;
    }
    proof {
        assert(a.deep_view() =~= b.deep_view());
    }
    true
}

/// Law: two reading lists are equal exactly when their ids, update times,
/// entries (taken in order) and continuation tokens are.
pub proof fn lemma_reading_list_eq(a: RssReadingList, b: RssReadingList)
    ensures
        PartialEqSpec::eq_spec(&a, &b) <==> {
            &&& a.id@ == b.id@
            &&& a.updated == b.updated
            &&& a.items@.len() == b.items@.len()
            &&& forall|i: int| 0 <= i < a.items@.len() ==> PartialEqSpec::eq_spec(&(#[trigger] a.items@[i]), &b.items@[i])
            &&& a.continuation@ == b.continuation@
        },
{
    if a.id@ == b.id@ && a.updated == b.updated && a.items@.len() == b.items@.len()
        && (forall|i: int| 0 <= i < a.items@.len() ==> PartialEqSpec::eq_spec(&(#[trigger] a.items@[i]), &b.items@[i]))
        && a.continuation@ == b.continuation@ {
        assert forall|i: int| 0 <= i < a.items@.len() implies
            #[trigger] a.items.deep_view()[i] == b.items.deep_view()[i] by {
            assert(PartialEqSpec::eq_spec(&a.items@[i], &b.items@[i]));
            assert(a.items@[i].deep_view() == b.items@[i].deep_view());
        }
        assert(a.items.deep_view() =~= b.items.deep_view());
        assert(a.deep_view() =~= b.deep_view());
    }
    if PartialEqSpec::eq_spec(&a, &b) {
        assert(a.deep_view().items == b.deep_view().items);
        assert(a.items.deep_view() == b.items.deep_view());
        assert(a.items.deep_view().len() == a.items@.len());
        assert forall|i: int| 0 <= i < a.items@.len() implies PartialEqSpec::eq_spec(&(#[trigger] a.items@[i]), &b.items@[i]) by {
            assert(a.items.deep_view()[i] == b.items.deep_view()[i]);
            assert(a.items@[i].deep_view() == b.items@[i].deep_view());
        }
    }
}

/// Law: two entries are equal exactly when every one of their fields is:
/// the texts, the publication time, the links, categories and enclosures
/// (in order), the origin, the summary and the author.
pub proof fn lemma_item_eq(a: RssItem, b: RssItem)
    ensures
        PartialEqSpec::eq_spec(&a, &b) <==> {
            &&& a.id@ == b.id@
            &&& a.crawl_time_msec@ == b.crawl_time_msec@
            &&& a.timestamp_usec@ == b.timestamp_usec@
            &&& a.published == b.published
            &&& a.title@ == b.title@
            &&& a.canonical.deep_view() == b.canonical.deep_view()
            &&& a.alternate.deep_view() == b.alternate.deep_view()
            &&& a.categories.deep_view() == b.categories.deep_view()
            &&& a.origin.stream_id@ == b.origin.stream_id@
            &&& a.origin.html_url@ == b.origin.html_url@
            &&& a.origin.title@ == b.origin.title@
            &&& a.summary.content@ == b.summary.content@
            &&& a.enclosure.deep_view() == b.enclosure.deep_view()
            &&& a.author.deep_view() == b.author.deep_view()
        },
{
    if PartialEqSpec::eq_spec(&a, &b) {
        assert(a.deep_view().origin == b.deep_view().origin);
    } else {
        if a.id@ == b.id@ && a.crawl_time_msec@ == b.crawl_time_msec@
            && a.timestamp_usec@ == b.timestamp_usec@ && a.published == b.published
            && a.title@ == b.title@ && a.canonical.deep_view() == b.canonical.deep_view()
            && a.alternate.deep_view() == b.alternate.deep_view()
            && a.categories.deep_view() == b.categories.deep_view()
            && a.origin.stream_id@ == b.origin.stream_id@ && a.origin.html_url@ == b.origin.html_url@
            && a.origin.title@ == b.origin.title@ && a.summary.content@ == b.summary.content@
            && a.enclosure.deep_view() == b.enclosure.deep_view()
            && a.author.deep_view() == b.author.deep_view() {
            assert(a.origin.deep_view() =~= b.origin.deep_view());
            assert(a.deep_view() =~= b.deep_view());
        }
    }
}

/// Law: two origins are equal exactly when their stream ids, page URLs and titles are.
pub proof fn lemma_origin_eq(a: Origin, b: Origin)
    ensures
        PartialEqSpec::eq_spec(&a, &b) <==> (a.stream_id@ == b.stream_id@ && a.html_url@ == b.html_url@
            && a.title@ == b.title@),
{
    if a.stream_id@ == b.stream_id@ && a.html_url@ == b.html_url@ && a.title@ == b.title@ {
        assert(a.deep_view() =~= b.deep_view());
    }
}

/// Law: two enclosures are equal exactly when their links, media types and lengths are.
pub proof fn lemma_enclosure_eq(a: Enclosure, b: Enclosure)
    ensures
        PartialEqSpec::eq_spec(&a, &b) <==> (a.href@ == b.href@ && a.type_field@ == b.type_field@
            && a.length == b.length),
{
    if a.href@ == b.href@ && a.type_field@ == b.type_field@ && a.length == b.length {
        assert(a.deep_view() =~= b.deep_view());
    }
}

/// Law: links and summaries are equal exactly when their texts are.
pub proof fn lemma_text_eq(a: Canonical, b: Canonical, c: Alternate, d: Alternate, e: Summary, f: Summary)
    ensures
        PartialEqSpec::eq_spec(&a, &b) <==> a.href@ == b.href@,
        PartialEqSpec::eq_spec(&c, &d) <==> c.href@ == d.href@,
        PartialEqSpec::eq_spec(&e, &f) <==> e.content@ == f.content@,
{
}

} // verus!
