//! What the reader's commands decide, given the feed's entries and the read
//! list; showing entries, prompting and saving are left to the caller.

use vstd::prelude::*;
use crate::feed::{Entry, EntryView, entry_digest, views_of};
use crate::read_list::{add_to_read_list, get_unread_entries, recorded, unread_of, with_digest};

verus! {

/// What a check for unread entries found.
pub enum CheckOutcome {
    /// No entry is unread.
    AllRead,
    /// One entry is unread. It is to be shown, and the read list that records
    /// it is to be saved; `blocked` says whether the upgrade is held back.
    ShowOne { entry: Entry, read_list: Vec<u8>, blocked: bool },
    /// `count` entries, two or more, are unread; `blocked` says whether the
    /// upgrade is held back until they are read.
    Pending { count: usize, blocked: bool },
}

/// Checks for unread entries; `hook` says whether this runs as a package
/// manager's upgrade hook, where unread entries hold the upgrade back.
pub fn check_entries(entries: &Vec<Entry>, read_list: Vec<u8>, hook: bool) -> (r: CheckOutcome)
    ensures
        ({
            let u = unread_of(views_of(entries@), read_list@);
            &&& (r is AllRead <==> u.len() == 0)
            &&& (r is ShowOne <==> u.len() == 1)
            &&& (r is Pending <==> u.len() >= 2)
            &&& (r matches CheckOutcome::ShowOne { entry, read_list: updated, blocked } ==> {
                &&& entry@ == u[0]
                &&& updated@ == with_digest(read_list@, entry_digest(u[0]))
                &&& blocked == hook
            })
            &&& (r matches CheckOutcome::Pending { count, blocked } ==> count == u.len()
                && blocked == hook)
        }),
{
    let mut unread = get_unread_entries(entries, &read_list);
    if unread.len() == 0 {
        CheckOutcome::AllRead
    } else if unread.len() == 1 {
        let mut updated = read_list;
        let ghost listed = unread@;
        let entry = unread.remove(0);
        assert(entry@ == views_of(listed)[0]);
        add_to_read_list(&mut updated, &entry);
        CheckOutcome::ShowOne { entry, read_list: updated, blocked: hook }
    } else {
        CheckOutcome::Pending { count: unread.len(), blocked: hook }
    }
}

/// There is no entry at the index asked for.
#[derive(Clone, Copy, Debug, PartialEq, Eq)]
pub struct NoSuchItem {
    pub index: usize,
}

/// Marks the entry at `read_item` as read in the in-memory read list; an
/// index past the last entry is an error and changes nothing.
pub fn read_entries(entries: &Vec<Entry>, read_item: usize, read_list: &mut Vec<u8>) -> (r: Result<
    (),
    NoSuchItem,
>)
    ensures
        r is Ok <==> read_item < entries@.len(),
        r is Ok ==> final(read_list)@ == with_digest(
            old(read_list)@,
            entry_digest(entries@[read_item as int]@),
        ),
        r matches Err(e) ==> e.index == read_item && final(read_list)@ == old(read_list)@,
{
    if read_item < entries.len() {
        add_to_read_list(read_list, &entries[read_item]);
        Ok(())
    } else {
        Err(NoSuchItem { index: read_item })
    }
}

/// The positions in which a list of `len` entries is listed: from the first
/// to the last, or from the last to the first when `reverse` is set.
pub fn listing_order(len: usize, reverse: bool) -> (r: Vec<usize>)
    ensures
        r@.len() == len,
        forall|i: int|
            0 <= i < len ==> #[trigger] r@[i] == if reverse {
                len - 1 - i
            } else {
                i
            },
{
    let mut r: Vec<usize> = Vec::new();
    let mut i: usize = 0;
    while i < len
        invariant
            i <= len,
            r@.len() == i,
            forall|k: int|
                0 <= k < i ==> #[trigger] r@[k] == if reverse {
                    len - 1 - k
                } else {
                    k
                },
        decreases len - i,
    {
        if reverse {
            r.push(len - 1 - i);
        } else {
            r.push(i);
        }
        i = i + 1;
    }
    r
}

/// Reading the unread entries one after another. The caller shows
/// `current`, calls `mark_current_read`, and, while more remain, asks whether
/// to go on; at the end it saves `read_list`.
pub struct ReadSession {
    /// The entries that were unread when the session began, in feed order.
    pub unread: Vec<Entry>,
    /// How many of them have been shown and recorded.
    pub shown: usize,
    /// The read list, with every shown entry recorded.
    pub read_list: Vec<u8>,
}

impl ReadSession {
    /// The state once the session has recorded the first `shown` unread
    /// entries, having started from the read list `start`.
    pub open spec fn records(self, start: Seq<u8>) -> bool {
        &&& self.shown <= self.unread@.len()
        &&& self.read_list@ == recorded(start, views_of(self.unread@), self.shown as int)
    }

    /// Starts a session over the entries that the read list does not hold.
    pub fn begin(entries: &Vec<Entry>, read_list: Vec<u8>) -> (r: ReadSession)
        ensures
            views_of(r.unread@) == unread_of(views_of(entries@), read_list@),
            r.shown == 0,
            r.records(read_list@),
    {
        let unread = get_unread_entries(entries, &read_list);
        ReadSession { unread, shown: 0, read_list }
    }

    /// The entry to show next, if any remains.
    pub fn current(&self) -> (r: Option<&Entry>)
        ensures
            self.shown < self.unread@.len() ==> r == Some(&self.unread@[self.shown as int]),
            self.shown >= self.unread@.len() ==> r is None,
    {
        if self.shown < self.unread.len() {
            Some(&self.unread[self.shown])
        } else {
            None
        }
    }

    /// Records the current entry as read and moves past it; returns whether
    /// another entry remains. Once all are shown it changes nothing.
    pub fn mark_current_read(&mut self) -> (more: bool)
        ensures
            final(self).unread@ == old(self).unread@,
            old(self).shown < old(self).unread@.len() ==> {
                &&& final(self).shown == old(self).shown + 1
                &&& final(self).read_list@ == with_digest(
                    old(self).read_list@,
                    entry_digest(old(self).unread@[old(self).shown as int]@),
                )
            },
            old(self).shown >= old(self).unread@.len() ==> final(self).shown == old(self).shown
                && final(self).read_list@ == old(self).read_list@,
            more == (final(self).shown < final(self).unread@.len()),
            forall|start: Seq<u8>| old(self).records(start) ==> final(self).records(start),
    {
        if self.shown < self.unread.len() {
            add_to_read_list(&mut self.read_list, &self.unread[self.shown]);
            assert(views_of(self.unread@)[self.shown as int] == self.unread@[self.shown as int]@);
            self.shown = self.shown + 1;
        }
        self.shown < self.unread.len()
    }
}

/// Unicode's White_Space property, which `char::is_whitespace` tests.
pub open spec fn is_white_space(c: char) -> bool {
    let u = c as u32;
    ||| 0x09 <= u <= 0x0d
    ||| u == 0x20
    ||| u == 0x85
    ||| u == 0xa0
    ||| u == 0x1680
    ||| 0x2000 <= u <= 0x200a
    ||| u == 0x2028
    ||| u == 0x2029
    ||| u == 0x202f
    ||| u == 0x205f
    ||| u == 0x3000
}

/// `s` without its leading white space.
pub open spec fn trim_start_of(s: Seq<char>) -> Seq<char>
    decreases s.len(),
{
    if s.len() > 0 && is_white_space(s[0]) {
        trim_start_of(s.drop_first())
    } else {
        s
    }
}

/// `s` without its trailing white space.
pub open spec fn trim_end_of(s: Seq<char>) -> Seq<char>
    decreases s.len(),
{
    if s.len() > 0 && is_white_space(s.last()) {
        trim_end_of(s.drop_last())
    } else {
        s
    }
}

/// The lower-case text that `str::to_lowercase` gives.
pub uninterp spec fn lower_of(s: Seq<char>) -> Seq<char>;

/// Relies on `str::trim`: the text without leading and trailing white space.
#[verifier::external_body]
fn trim(s: &str) -> (r: &str)
    ensures
        r@ == trim_end_of(trim_start_of(s@)),
{
    s.trim()
}

/// Relies on `str::to_lowercase`, whose result depends on the text alone.
#[verifier::external_body]
fn lowercase(s: &str) -> (r: String)
    ensures
        r@ == lower_of(s@),
{
    s.to_lowercase()
}

/// Whether two texts are the same.
fn same_text(a: &str, b: &str) -> (r: bool)
    ensures
        r == (a@ == b@),
{
    a.to_owned() == b.to_owned()
}

/// What a normalised answer to a yes/no question means: yes for `y`, `yes`
/// or nothing, no for `n` or `no`, and nothing for anything else.
pub open spec fn answer_of(s: Seq<char>) -> Option<bool> {
    if s == "y"@ || s == "yes"@ || s == ""@ {
        Some(true)
    } else if s == "n"@ || s == "no"@ {
        Some(false)
    } else {
        None
    }
}

/// What an answer already trimmed and lower-cased means; see `answer_of`.
pub fn normalised_answer(l: &str) -> (r: Option<bool>)
    ensures
        r == answer_of(l@),
{
    if same_text(l, "y") || same_text(l, "yes") || same_text(l, "") {
        Some(true)
    } else if same_text(l, "n") || same_text(l, "no") {
        Some(false)
    } else {
        None
    }
}

/// Reads a typed answer to a yes/no question, ignoring surrounding white
/// space and case; `None` means the answer must be asked for again.
pub fn parse_answer(line: &str) -> (r: Option<bool>)
    ensures
        r == answer_of(lower_of(trim_end_of(trim_start_of(line@)))),
{
    let lowered = lowercase(trim(line));
    normalised_answer(lowered.as_str())
}

} // verus!
