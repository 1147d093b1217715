//! The entry model and its identity digest.

use vstd::prelude::*;
use vstd::utf8::encode_utf8;
use chrono::{DateTime, Utc};
use md5::{Digest, Md5};
use rss::Channel;

verus! {

/// Earliest second (Unix time) that chrono can represent: -262143-01-01T00:00:00Z.
pub const MIN_UNIX_SECS: i64 = -8334601228800;

/// Latest second (Unix time) that chrono can represent: 262142-12-31T23:59:59Z.
pub const MAX_UNIX_SECS: i64 = 8210266876799;

/// Whether `(secs, nanos)` names an instant: a second within the representable
/// range, and a sub-second part below one second, or below two seconds for a
/// leap second, which only the last second of a minute may carry.
pub open spec fn valid_instant(secs: int, nanos: int) -> bool {
    &&& MIN_UNIX_SECS <= secs <= MAX_UNIX_SECS
    &&& 0 <= nanos
    &&& (nanos < 1_000_000_000 || (nanos < 2_000_000_000 && secs % 60 == 59))
}

/// The RFC 3339 text that chrono renders for an instant in UTC.
pub uninterp spec fn rfc3339_of(secs: int, nanos: int) -> Seq<char>;

/// The MD5 digest of a byte sequence.
pub uninterp spec fn md5_of(data: Seq<u8>) -> [u8; 16];

/// A point in time in UTC, as Unix seconds and a sub-second part in nanoseconds.
#[derive(Clone, Copy, Debug, PartialEq, Eq, Hash)]
pub struct Timestamp {
    secs: i64,
    nanos: u32,
}

impl Timestamp {
    #[verifier::type_invariant]
    spec fn inv(self) -> bool {
        valid_instant(self.secs as int, self.nanos as int)
    }

    /// Seconds since 1970-01-01T00:00:00Z.
    pub closed spec fn unix_secs(self) -> int {
        self.secs as int
    }

    /// Nanoseconds past `unix_secs`.
    pub closed spec fn subsec_nanos(self) -> int {
        self.nanos as int
    }

    /// The instant `secs` seconds and `nanos` nanoseconds after the Unix epoch,
    /// if it is one.
    pub fn from_unix(secs: i64, nanos: u32) -> (r: Option<Timestamp>)
        ensures
            r is Some <==> valid_instant(secs as int, nanos as int),
            r matches Some(t) ==> t.unix_secs() == secs && t.subsec_nanos() == nanos,
    {
        // the last second of a minute, counted from the epoch in either direction
        let last_of_minute = if secs >= 0 {
            secs % 60 == 59
        } else {
            (-(secs + 1)) % 60 == 0
        };
        if MIN_UNIX_SECS <= secs && secs <= MAX_UNIX_SECS && (nanos < 1_000_000_000 || (nanos
            < 2_000_000_000 && last_of_minute)) {
            Some(Timestamp { secs, nanos })
        } else {
            None
        }
    }

    /// Seconds since the Unix epoch.
    pub fn secs(&self) -> (r: i64)
        ensures
            r == self.unix_secs(),
    {
        self.secs
    }

    /// Nanoseconds past `secs`; a leap second carries one second more.
    pub fn nanos(&self) -> (r: u32)
        ensures
            r == self.subsec_nanos(),
    {
        self.nanos
    }
}

/// Relies on chrono's `DateTime::<Utc>::from_timestamp`, which accepts every
/// valid instant, and `DateTime::to_rfc3339`, which renders it.
#[verifier::external_body]
fn rfc3339(t: &Timestamp) -> (r: String)
    ensures
        r@ == rfc3339_of(t.unix_secs(), t.subsec_nanos()),
{
    match DateTime::<Utc>::from_timestamp(t.secs, t.nanos) {
        Some(d) => d.to_rfc3339(),
        None => String::new(),
    }
}

/// Relies on the `md-5` crate's `Md5::digest`: the 16-byte MD5 hash of `data`.
#[verifier::external_body]
fn md5_digest(data: &[u8]) -> (r: [u8; 16])
    ensures
        r == md5_of(data@),
{
    Md5::digest(data).into()
}

/// One feed item.
#[derive(Debug, Hash)]
pub struct Entry {
    pub title: String,
    pub body: String,
    pub timestamp: Timestamp,
}

/// What an entry holds, as mathematical values.
pub ghost struct EntryView {
    pub title: Seq<char>,
    pub body: Seq<char>,
    pub timestamp: Timestamp,
}

impl View for Entry {
    type V = EntryView;

    open spec fn view(&self) -> EntryView {
        EntryView { title: self.title@, body: self.body@, timestamp: self.timestamp }
    }
}

/// The bytes an entry's digest is computed over: the UTF-8 title followed by
/// the UTF-8 RFC 3339 rendering of its timestamp.
pub open spec fn identity_bytes(e: EntryView) -> Seq<u8> {
    encode_utf8(e.title) + encode_utf8(
        rfc3339_of(e.timestamp.unix_secs(), e.timestamp.subsec_nanos()),
    )
}

/// The 16-byte fingerprint that identifies an entry for read tracking.
pub open spec fn entry_digest(e: EntryView) -> Seq<u8> {
    md5_of(identity_bytes(e))@
}

/// Every digest is 16 bytes long.
pub proof fn lemma_digest_len(e: EntryView)
    ensures
        entry_digest(e).len() == 16,
{
    vstd::array::array_len_matches_n(&md5_of(identity_bytes(e)));
}

/// The digests of a sequence of entries, in order.
pub open spec fn digests_of(es: Seq<EntryView>) -> Seq<Seq<u8>> {
    es.map_values(|e: EntryView| entry_digest(e))
}

/// The views of a sequence of entries.
pub open spec fn views_of(es: Seq<Entry>) -> Seq<EntryView> {
    es.map_values(|e: Entry| e@)
}

impl Clone for Entry {
    fn clone(&self) -> (r: Entry)
        ensures
            r@ == self@,
    {
        Entry { title: self.title.clone(), body: self.body.clone(), timestamp: self.timestamp }
    }
}

/// Appends `src` to `dst`.
fn append_bytes(dst: &mut Vec<u8>, src: &[u8])
    ensures
        final(dst)@ == old(dst)@ + src@,
{
    let mut i: usize = 0;
    while i < src.len()
        invariant
            i <= src@.len(),
            dst@ == old(dst)@ + src@.subrange(0, i as int),
        decreases src@.len() - i,
    {
        dst.push(src[i]);
        i = i + 1;
        assert(src@.subrange(0, i as int) == src@.subrange(0, i - 1) + seq![src@[i - 1]]);
    }
    assert(src@.subrange(0, src@.len() as int) == src@);
}

impl Entry {
    /// The entry with the given fields.
    pub fn new(title: String, body: String, timestamp: Timestamp) -> (r: Entry)
        ensures
            r@ == (EntryView { title: title@, body: body@, timestamp }),
    {
        Entry { title, body, timestamp }
    }

    /// The entry's fingerprint; it depends on the title and the timestamp alone.
    pub fn digest(&self) -> (r: [u8; 16])
        ensures
            r@ == entry_digest(self@),
    {
        let mut bytes: Vec<u8> = Vec::new();
        append_bytes(&mut bytes, self.title.as_str().as_bytes());
        let ts = rfc3339(&self.timestamp);
        append_bytes(&mut bytes, ts.as_str().as_bytes());
        md5_digest(bytes.as_slice())
    }
}

/// Entries that agree in title and timestamp have the same digest, whatever
/// their bodies; the digest is a function of those two fields, the same in
/// every call and every process.
pub proof fn lemma_digest_determined(a: EntryView, b: EntryView)
    requires
        a.title == b.title,
        a.timestamp == b.timestamp,
    ensures
        entry_digest(a) == entry_digest(b),
{
}

/// rss's `Error`, why a document could not be read as a channel.
#[verifier::external_type_specification]
#[verifier::external_body]
pub struct ExRssError(rss::Error);

/// chrono's `ParseError`, why a text could not be read as a date.
#[verifier::external_type_specification]
#[verifier::external_body]
pub struct ExParseError(chrono::ParseError);

/// The instant, as Unix seconds and nanoseconds, that chrono reads from an
/// RFC 2822 date, if it reads one.
pub uninterp spec fn rfc2822_instant(s: Seq<char>) -> Option<(int, int)>;

/// Relies on chrono's `DateTime::parse_from_rfc2822`, converted to UTC by
/// `with_timezone`, and read back by `timestamp` and `timestamp_subsec_nanos`;
/// a chrono `DateTime` always lies in the range that `valid_instant` states.
#[verifier::external_body]
fn parse_rfc2822(s: &str) -> (r: Result<Timestamp, chrono::ParseError>)
    ensures
        r is Ok <==> rfc2822_instant(s@) is Some,
        r matches Ok(t) ==> rfc2822_instant(s@) == Some((t.unix_secs(), t.subsec_nanos()))
            && valid_instant(t.unix_secs(), t.subsec_nanos()),
{
    DateTime::parse_from_rfc2822(s).map(
        |d| {
            let u = d.with_timezone(&Utc);
            Timestamp { secs: u.timestamp(), nanos: u.timestamp_subsec_nanos() }
        },
    )
}

/// One item of a feed, with the fields that an entry is made from, each as
/// the feed wrote it, if it wrote it.
#[derive(Clone, Debug)]
pub struct FeedItem {
    pub title: Option<String>,
    pub description: Option<String>,
    pub pub_date: Option<String>,
}

/// What a feed item holds, as mathematical values.
pub ghost struct FeedItemView {
    pub title: Option<Seq<char>>,
    pub description: Option<Seq<char>>,
    pub pub_date: Option<Seq<char>>,
}

/// The characters of an optional text.
pub open spec fn text_of(o: Option<String>) -> Option<Seq<char>> {
    match o {
        Some(s) => Some(s@),
        None => None,
    }
}

/// The characters of an optional borrowed text.
pub open spec fn str_text_of(o: Option<&str>) -> Option<Seq<char>> {
    match o {
        Some(s) => Some(s@),
        None => None,
    }
}

impl View for FeedItem {
    type V = FeedItemView;

    open spec fn view(&self) -> FeedItemView {
        FeedItemView {
            title: text_of(self.title),
            description: text_of(self.description),
            pub_date: text_of(self.pub_date),
        }
    }
}

/// The views of a sequence of feed items.
pub open spec fn item_views(items: Seq<FeedItem>) -> Seq<FeedItemView> {
    items.map_values(|i: FeedItem| i@)
}

/// The items that rss reads from an RSS document, in document order, if it
/// reads the document as a channel.
pub uninterp spec fn items_of(body: Seq<u8>) -> Option<Seq<FeedItemView>>;

/// Relies on rss's `Channel::read_from`, which parses an RSS document, and
/// `Channel::items` with `Item::title`, `Item::description` and
/// `Item::pub_date`, which hand out its items in order and their fields as
/// written; the outcome depends on the bytes alone.
#[verifier::external_body]
fn read_items(body: &[u8]) -> (r: Result<Vec<FeedItem>, rss::Error>)
    ensures
        r is Err <==> items_of(body@) is None,
        r matches Ok(v) ==> items_of(body@) == Some(item_views(v@)),
{
    Channel::read_from(body).map(
        |c|
            c.items().iter().map(
                |i|
                    FeedItem {
                        title: i.title().map(str::to_owned),
                        description: i.description().map(str::to_owned),
                        pub_date: i.pub_date().map(str::to_owned),
                    },
            ).collect(),
    )
}

/// Why a feed could not be turned into entries.
#[derive(Debug)]
pub enum FeedError {
    /// The document is not a readable RSS channel.
    Malformed(rss::Error),
    /// An item has no title.
    MissingTitle,
    /// An item has no description.
    MissingBody,
    /// An item has no publish date.
    MissingDate,
    /// An item's publish date is not an RFC 2822 date; chrono says why.
    BadDate(chrono::ParseError),
}

/// The title, body, Unix seconds and nanoseconds of the entry that a feed
/// item makes: all three fields must be present and the date must read as
/// RFC 2822.
pub open spec fn entry_fields_of(it: FeedItemView) -> Option<(Seq<char>, Seq<char>, int, int)> {
    match (it.title, it.description, it.pub_date) {
        (Some(t), Some(b), Some(d)) => match rfc2822_instant(d) {
            Some((secs, nanos)) => Some((t, b, secs, nanos)),
            None => None,
        },
        _ => None,
    }
}

/// Whether an entry has the given title, body, seconds and nanoseconds.
pub open spec fn has_fields(e: EntryView, f: (Seq<char>, Seq<char>, int, int)) -> bool {
    &&& e.title == f.0
    &&& e.body == f.1
    &&& e.timestamp.unix_secs() == f.2
    &&& e.timestamp.subsec_nanos() == f.3
}

/// Whether `e` is the error that reading the item gives: the first missing
/// field, in the order title, description, date, or else a date that does
/// not read.
pub open spec fn item_error(it: FeedItemView, e: FeedError) -> bool {
    if it.title is None {
        e is MissingTitle
    } else if it.description is None {
        e is MissingBody
    } else if it.pub_date is None {
        e is MissingDate
    } else if rfc2822_instant(it.pub_date.unwrap()) is None {
        e is BadDate
    } else {
        false
    }
}

/// Whether `r` is what reading the item gives: the entry it makes, or the
/// error it fails with.
pub open spec fn reads_item(it: FeedItemView, r: Result<Entry, FeedError>) -> bool {
    match entry_fields_of(it) {
        Some(f) => (r matches Ok(e) && has_fields(e@, f)),
        None => (r matches Err(e) && item_error(it, e)),
    }
}

/// Whether `r` is what reading the items gives: one entry per item, in their
/// order, when every item makes one; else the error of the first item that
/// fails, and no entries.
pub open spec fn reads_items(its: Seq<FeedItemView>, r: Result<Vec<Entry>, FeedError>) -> bool {
    &&& (r is Ok <==> forall|i: int| 0 <= i < its.len() ==> (#[trigger] entry_fields_of(its[i])) is Some)
    &&& (r matches Ok(es) ==> es@.len() == its.len() && forall|i: int|
        0 <= i < its.len() ==> has_fields(es@[i]@, #[trigger] entry_fields_of(its[i]).unwrap()))
    &&& (r matches Err(e) ==> exists|i: int|
        0 <= i < its.len() && #[trigger] item_error(its[i], e) && forall|j: int|
            0 <= j < i ==> (#[trigger] entry_fields_of(its[j])) is Some)
}

impl Entry {
    /// The entry for a feed item with the given title, description and
    /// publish date. Each must be present, checked in that order, and the
    /// date must read as RFC 2822.
    pub fn from_fields(title: Option<&str>, body: Option<&str>, date: Option<&str>) -> (r: Result<
        Entry,
        FeedError,
    >)
        ensures
            reads_item(
                FeedItemView {
                    title: str_text_of(title),
                    description: str_text_of(body),
                    pub_date: str_text_of(date),
                },
                r,
            ),
    {
        let title = match title {
            Some(t) => t,
            None => return Err(FeedError::MissingTitle),
        };
        let body = match body {
            Some(b) => b,
            None => return Err(FeedError::MissingBody),
        };
        let date = match date {
            Some(d) => d,
            None => return Err(FeedError::MissingDate),
        };
        match parse_rfc2822(date) {
            Ok(timestamp) => Ok(Entry::new(title.to_owned(), body.to_owned(), timestamp)),
            Err(e) => Err(FeedError::BadDate(e)),
        }
    }

    /// The entry for a feed item; see `from_fields`.
    pub fn from_rss_item(item: &FeedItem) -> (r: Result<Entry, FeedError>)
        ensures
            reads_item(item@, r),
    {
        let title = match &item.title {
            Some(t) => Some(t.as_str()),
            None => None,
        };
        let body = match &item.description {
            Some(b) => Some(b.as_str()),
            None => None,
        };
        let date = match &item.pub_date {
            Some(d) => Some(d.as_str()),
            None => None,
        };
        Entry::from_fields(title, body, date)
    }
}

/// The entries that feed items make, in their order; the first item that
/// cannot be read makes the whole list fail.
pub fn entries_from_items(items: &Vec<FeedItem>) -> (r: Result<Vec<Entry>, FeedError>)
    ensures
        reads_items(item_views(items@), r),
{
    let ghost its = item_views(items@);
    let mut entries: Vec<Entry> = Vec::new();
    let mut i: usize = 0;
    while i < items.len()
        invariant
            i <= items@.len(),
            its == item_views(items@),
            entries@.len() == i,
            forall|j: int| 0 <= j < i ==> (#[trigger] entry_fields_of(its[j])) is Some,
            forall|j: int|
                0 <= j < i ==> has_fields(entries@[j]@, #[trigger] entry_fields_of(its[j]).unwrap()),
        decreases items@.len() - i,
    {
        assert(its[i as int] == items@[i as int]@);
        match Entry::from_rss_item(&items[i]) {
            Ok(e) => entries.push(e),
            Err(e) => {
                assert(item_error(its[i as int], e));
                return Err(e);
            },
        }
        i = i + 1;
    }
    Ok(entries)
}

/// The entries of an RSS document, in the channel's order. A document that is
/// not an RSS channel is `Malformed`; otherwise the result is that of
/// `entries_from_items` on its items.
pub fn parse_entries(body: &[u8]) -> (r: Result<Vec<Entry>, FeedError>)
    ensures
        r matches Err(FeedError::Malformed(_)) <==> items_of(body@) is None,
        items_of(body@) matches Some(its) ==> reads_items(its, r),
{
    match read_items(body) {
        Ok(items) => entries_from_items(&items),
        Err(e) => Err(FeedError::Malformed(e)),
    }
}

} // verus!
