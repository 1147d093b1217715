//! The read list: a flat log of 16-byte digests of the entries already seen.
//!
//! The buffer is read as consecutive 16-byte blocks from its start; a shorter
//! fragment at its end belongs to no block and never matches a digest.

use vstd::prelude::*;
use crate::feed::{Entry, EntryView, entry_digest, views_of, digests_of, lemma_digest_len};

verus! {

/// Width of one digest in the log.
pub const HASH_SIZE: usize = 16;

/// Number of whole blocks in a buffer.
pub open spec fn num_blocks(buf: Seq<u8>) -> int {
    buf.len() as int / 16
}

/// The `i`-th 16-byte block of a buffer.
pub open spec fn block(buf: Seq<u8>, i: int) -> Seq<u8> {
    buf.subrange(16 * i, 16 * i + 16)
}

/// The whole blocks of a buffer, in order.
pub open spec fn blocks(buf: Seq<u8>) -> Seq<Seq<u8>> {
    Seq::new(num_blocks(buf) as nat, |i: int| block(buf, i))
}

/// Whether some whole block of the buffer equals `d`.
pub open spec fn holds(buf: Seq<u8>, d: Seq<u8>) -> bool {
    blocks(buf).contains(d)
}

/// How many whole blocks of the buffer equal `d`.
pub open spec fn occurrences(buf: Seq<u8>, d: Seq<u8>) -> nat {
    blocks(buf).to_multiset().count(d)
}

/// The buffer without a trailing fragment shorter than a block.
pub open spec fn whole_blocks(buf: Seq<u8>) -> Seq<u8> {
    buf.subrange(0, 16 * num_blocks(buf))
}

/// The buffer after `d` is recorded: unchanged if it already holds `d`,
/// else with any trailing fragment dropped and `d` appended as a new block.
pub open spec fn with_digest(buf: Seq<u8>, d: Seq<u8>) -> Seq<u8> {
    if holds(buf, d) {
        buf
    } else {
        whole_blocks(buf) + d
    }
}

/// The read list `start` after the digests of the first `n` of the entries
/// `es` are recorded, one after another.
pub open spec fn recorded(start: Seq<u8>, es: Seq<EntryView>, n: int) -> Seq<u8>
    decreases n,
{
    if n <= 0 {
        start
    } else {
        with_digest(recorded(start, es, n - 1), entry_digest(es[n - 1]))
    }
}

/// Whether the bytes of `buf` from `start` on begin with `d`.
fn block_matches(buf: &Vec<u8>, start: usize, d: &[u8; 16]) -> (r: bool)
    requires
        start + 16 <= buf@.len(),
    ensures
        r == (buf@.subrange(start as int, start + 16) == d@),
{
    let len = buf.len();
    let mut j: usize = 0;
    while j < HASH_SIZE
        invariant
            len == buf@.len(),
            start + 16 <= buf@.len(),
            j <= 16,
            d@.len() == 16,
            forall|k: int| 0 <= k < j ==> buf@[start + k] == d@[k],
        decreases 16 - j,
    {
        if buf[start + j] != d[j] {
            assert(buf@.subrange(start as int, start + 16)[j as int] != d@[j as int]);
            return false;
        }
        j = j + 1;
    }
    assert(buf@.subrange(start as int, start + 16) == d@);
    true
}

/// Whether the read list holds `digest` in one of its whole blocks.
pub fn is_member(read_list: &Vec<u8>, digest: &[u8; 16]) -> (r: bool)
    ensures
        r == holds(read_list@, digest@),
{
    let len = read_list.len();
    let n = len / HASH_SIZE;
    let mut i: usize = 0;
    while i < n
        invariant
            len == read_list@.len(),
            n == num_blocks(read_list@),
            i <= n,
            forall|k: int| 0 <= k < i ==> block(read_list@, k) != digest@,
        decreases n - i,
    {
        assert(i * 16 + 16 <= len) by (nonlinear_arith)
            requires
                i < n,
                n == len / 16,
        ;
        if block_matches(read_list, i * HASH_SIZE, digest) {
            assert(blocks(read_list@)[i as int] == digest@);
            return true;
        }
        i = i + 1;
    }
    assert forall|k: int| 0 <= k < blocks(read_list@).len() implies blocks(read_list@)[k]
        != digest@ by {
        assert(blocks(read_list@)[k] == block(read_list@, k));
    }
    false
}

/// The concatenation of a sequence of digests, in order.
pub open spec fn concat_digests(ds: Seq<Seq<u8>>) -> Seq<u8>
    decreases ds.len(),
{
    if ds.len() == 0 {
        Seq::empty()
    } else {
        concat_digests(ds.drop_last()) + ds.last()
    }
}

/// The entries of `es` whose digest the buffer does not hold, in their order.
pub open spec fn unread_of(es: Seq<EntryView>, buf: Seq<u8>) -> Seq<EntryView> {
    es.filter(|e: EntryView| !holds(buf, entry_digest(e)))
}

/// Appending one 16-byte block to a buffer of whole blocks adds it as the
/// last block.
pub proof fn lemma_blocks_push(buf: Seq<u8>, d: Seq<u8>)
    requires
        buf.len() % 16 == 0,
        d.len() == 16,
    ensures
        blocks(buf + d) == blocks(buf).push(d),
{
    let n = num_blocks(buf);
    assert(num_blocks(buf + d) == n + 1);
    assert forall|i: int| 0 <= i < n + 1 implies #[trigger] blocks(buf + d)[i] == blocks(buf).push(
        d,
    )[i] by {
        if i < n {
            assert(16 * i + 16 <= buf.len()) by (nonlinear_arith)
                requires
                    i < n,
                    n == buf.len() / 16,
            ;
            assert(block(buf + d, i) == block(buf, i));
        } else {
            assert(16 * n == buf.len());
            assert(block(buf + d, i) == d);
        }
    }
    assert(blocks(buf + d) == blocks(buf).push(d));
}

/// Records `digest` in the read list unless one of its whole blocks already
/// equals it.
pub fn add_if_absent(read_list: &mut Vec<u8>, digest: &[u8; 16])
    ensures
        final(read_list)@ == with_digest(old(read_list)@, digest@),
{
    if !is_member(read_list, digest) {
        let whole = read_list.len() / HASH_SIZE * HASH_SIZE;
        read_list.truncate(whole);
        assert(read_list@ == whole_blocks(old(read_list)@));
        let ghost kept = read_list@;
        let mut j: usize = 0;
        while j < HASH_SIZE
            invariant
                j <= 16,
                digest@.len() == 16,
                read_list@ == kept + digest@.subrange(0, j as int),
            decreases 16 - j,
        {
            read_list.push(digest[j]);
            j = j + 1;
            assert(digest@.subrange(0, j as int) == digest@.subrange(0, j - 1) + seq![
                digest@[j - 1],
            ]);
        }
        assert(digest@.subrange(0, 16) == digest@);
    }
}

/// Whether the read list holds the entry's digest.
pub fn check_read(read_list: &Vec<u8>, entry: &Entry) -> (r: bool)
    ensures
        r == holds(read_list@, entry_digest(entry@)),
{
    let d = entry.digest();
    is_member(read_list, &d)
}

/// Marks the entry as read in the in-memory read list.
pub fn add_to_read_list(read_list: &mut Vec<u8>, entry: &Entry)
    ensures
        final(read_list)@ == with_digest(old(read_list)@, entry_digest(entry@)),
{
    let d = entry.digest();
    add_if_absent(read_list, &d);
}

/// The entries whose digest the read list does not hold, in their order.
pub fn get_unread_entries(entries: &Vec<Entry>, read_list: &Vec<u8>) -> (r: Vec<Entry>)
    ensures
        views_of(r@) == unread_of(views_of(entries@), read_list@),
{
    let mut r: Vec<Entry> = Vec::new();
    let mut i: usize = 0;
    while i < entries.len()
        invariant
            i <= entries@.len(),
            views_of(r@) == unread_of(views_of(entries@).subrange(0, i as int), read_list@),
        decreases entries@.len() - i,
    {
        let ghost before = views_of(entries@).subrange(0, i as int);
        let ghost after = views_of(entries@).subrange(0, i + 1);
        assert(after.drop_last() == before);
        assert(after.last() == entries@[i as int]@);
        proof {
            reveal(Seq::filter);
        }
        if !check_read(read_list, &entries[i]) {
            r.push(entries[i].clone());
            assert(views_of(r@) == views_of(r@).drop_last().push(entries@[i as int]@));
        } else {
            assert(views_of(r@) == unread_of(after, read_list@));
        }
        i = i + 1;
    }
    assert(views_of(entries@).subrange(0, entries@.len() as int) == views_of(entries@));
    r
}

/// The read list that marks all the given entries read, built afresh: the
/// digest of each entry is recorded in turn, so every digest is held in
/// exactly one block, and each block is the digest of one of the entries.
pub fn all_read_list(entries: &Vec<Entry>) -> (r: Vec<u8>)
    ensures
        r@ == recorded(Seq::empty(), views_of(entries@), entries@.len() as int),
        r@.len() == 16 * blocks(r@).len(),
        blocks(r@).no_duplicates(),
        forall|i: int| 0 <= i < entries@.len() ==> holds(r@, entry_digest(#[trigger] entries@[i]@)),
        forall|k: int|
            0 <= k < blocks(r@).len() ==> exists|i: int|
                0 <= i < entries@.len() && #[trigger] blocks(r@)[k] == entry_digest(entries@[i]@),
{
    let ghost es = views_of(entries@);
    let mut r: Vec<u8> = Vec::new();
    assert(blocks(r@).len() == 0);
    let mut i: usize = 0;
    while i < entries.len()
        invariant
            i <= entries@.len(),
            es == views_of(entries@),
            r@ == recorded(Seq::empty(), es, i as int),
            r@.len() == 16 * blocks(r@).len(),
            blocks(r@).no_duplicates(),
            forall|j: int| 0 <= j < i ==> holds(r@, entry_digest(#[trigger] entries@[j]@)),
            forall|k: int|
                0 <= k < blocks(r@).len() ==> exists|j: int|
                    0 <= j < i && #[trigger] blocks(r@)[k] == entry_digest(entries@[j]@),
        decreases entries@.len() - i,
    {
        let ghost before = r@;
        let d = entries[i].digest();
        proof {
            lemma_digest_len(entries@[i as int]@);
            assert(es[i as int] == entries@[i as int]@);
            lemma_with_digest(before, d@);
        }
        add_if_absent(&mut r, &d);
        proof {
            assert forall|j: int| 0 <= j < i + 1 implies holds(
                r@,
                entry_digest(#[trigger] entries@[j]@),
            ) by {
                if j < i {
                    lemma_with_digest(before, d@);
                }
            }
            assert forall|k: int| 0 <= k < blocks(r@).len() implies exists|j: int|
                0 <= j < i + 1 && #[trigger] blocks(r@)[k] == entry_digest(entries@[j]@) by {
                if k < blocks(before).len() {
                    assert(blocks(r@)[k] == blocks(before)[k]);
                    let j = choose|j: int|
                        0 <= j < i && #[trigger] blocks(before)[k] == entry_digest(
                            entries@[j]@,
                        );
                    assert(blocks(r@)[k] == entry_digest(entries@[j]@));
                } else {
                    assert(blocks(r@)[k] == entry_digest(entries@[i as int]@));
                }
            }
        }
        i = i + 1;
    }
    r
}

/// Recording a 16-byte digest: afterwards the buffer holds it, still holds
/// whatever it held, and if the digest was new, it became the last block
/// after the buffer's former whole blocks.
pub proof fn lemma_with_digest(buf: Seq<u8>, d: Seq<u8>)
    requires
        d.len() == 16,
    ensures
        holds(with_digest(buf, d), d),
        forall|x: Seq<u8>| holds(buf, x) ==> holds(with_digest(buf, d), x),
        !holds(buf, d) ==> blocks(with_digest(buf, d)) == blocks(buf).push(d),
        !holds(buf, d) ==> with_digest(buf, d).len() == 16 * (blocks(buf).len() + 1),
{
    if !holds(buf, d) {
        let k = num_blocks(buf) as nat;
        lemma_fragment_ignored(buf, k, d);
        assert(whole_blocks(buf).len() == 16 * k);
        lemma_blocks_push(whole_blocks(buf), d);
        assert(blocks(with_digest(buf, d))[k as int] == d);
        assert forall|x: Seq<u8>| holds(buf, x) implies holds(with_digest(buf, d), x) by {
            let i = choose|i: int| 0 <= i < blocks(buf).len() && blocks(buf)[i] == x;
            assert(blocks(with_digest(buf, d))[i] == x);
        }
    }
}

/// After the digests of the first `n` entries are recorded, the read list
/// holds each of them.
pub proof fn lemma_recorded_holds(start: Seq<u8>, es: Seq<EntryView>, n: int)
    requires
        0 <= n <= es.len(),
    ensures
        forall|j: int| 0 <= j < n ==> holds(recorded(start, es, n), entry_digest(#[trigger] es[j])),
    decreases n,
{
    if n > 0 {
        lemma_recorded_holds(start, es, n - 1);
        lemma_digest_len(es[n - 1]);
        lemma_with_digest(recorded(start, es, n - 1), entry_digest(es[n - 1]));
    }
}

/// The read list an invocation starts from. It is empty when the store is to
/// be cleared, or when there was no store file (`stored` is `None`); else it
/// is the file's bytes as they are, a trailing fragment included.
pub fn initial_read_list(overwrite: bool, stored: Option<Vec<u8>>) -> (r: Vec<u8>)
    ensures
        overwrite ==> r@.len() == 0,
        !overwrite ==> r@ == match stored {
            Some(b) => b@,
            None => Seq::<u8>::empty(),
        },
{
    if overwrite {
        Vec::new()
    } else {
        match stored {
            Some(b) => b,
            None => Vec::new(),
        }
    }
}

/// Recording a digest twice has the effect of recording it once: the second
/// recording leaves the buffer, and so its length, unchanged. On a buffer that
/// held the digest at most once, the result holds it in exactly one block.
pub proof fn lemma_add_idempotent(buf: Seq<u8>, d: Seq<u8>)
    requires
        d.len() == 16,
        occurrences(buf, d) <= 1,
    ensures
        with_digest(with_digest(buf, d), d) == with_digest(buf, d),
        with_digest(with_digest(buf, d), d).len() == with_digest(buf, d).len(),
        occurrences(with_digest(with_digest(buf, d), d), d) == 1,
{
    blocks(buf).to_multiset_ensures();
    lemma_with_digest(buf, d);
}

/// The blocks of a log built by appending 16-byte digests are those digests.
pub proof fn lemma_blocks_of_concat(ds: Seq<Seq<u8>>)
    requires
        forall|i: int| 0 <= i < ds.len() ==> (#[trigger] ds[i]).len() == 16,
    ensures
        concat_digests(ds).len() == 16 * ds.len(),
        blocks(concat_digests(ds)) == ds,
    decreases ds.len(),
{
    if ds.len() > 0 {
        let init = ds.drop_last();
        lemma_blocks_of_concat(init);
        assert(ds.last().len() == 16);
        lemma_blocks_push(concat_digests(init), ds.last());
        assert(init.push(ds.last()) == ds);
    } else {
        assert(blocks(concat_digests(ds)) == ds);
    }
}

/// Membership after appending digests `d1..dn`: the log holds each `di`, and
/// no digest outside that list.
pub proof fn lemma_round_trip(ds: Seq<Seq<u8>>, d: Seq<u8>)
    requires
        forall|i: int| 0 <= i < ds.len() ==> (#[trigger] ds[i]).len() == 16,
    ensures
        holds(concat_digests(ds), d) <==> ds.contains(d),
{
    lemma_blocks_of_concat(ds);
}

/// For entries `es` and a read list built from the digests of some of them,
/// `sub`, the unread entries are the entries of `es` that are not in `sub`
/// (an entry being identified by its digest), in the order of `es`.
pub proof fn lemma_unread_of_subset(es: Seq<EntryView>, sub: Seq<EntryView>)
    requires
        forall|i: int| 0 <= i < sub.len() ==> es.contains(#[trigger] sub[i]),
    ensures
        unread_of(es, concat_digests(digests_of(sub))) == es.filter(
            |e: EntryView| !digests_of(sub).contains(entry_digest(e)),
        ),
{
    let ds = digests_of(sub);
    assert forall|i: int| 0 <= i < ds.len() implies (#[trigger] ds[i]).len() == 16 by {
        lemma_digest_len(sub[i]);
    }
    lemma_blocks_of_concat(ds);
    let p1 = |e: EntryView| !holds(concat_digests(ds), entry_digest(e));
    let p2 = |e: EntryView| !ds.contains(entry_digest(e));
    assert(p1 =~= p2);
}

/// Once every entry's digest is recorded, in the way that marks them all
/// read, none of them is unread.
pub proof fn lemma_all_read(es: Seq<EntryView>)
    ensures
        unread_of(es, recorded(Seq::empty(), es, es.len() as int)).len() == 0,
{
    let buf = recorded(Seq::empty(), es, es.len() as int);
    lemma_recorded_holds(Seq::empty(), es, es.len() as int);
    let u = unread_of(es, buf);
    if u.len() > 0 {
        let p = |e: EntryView| !holds(buf, entry_digest(e));
        broadcast use vstd::seq_lib::group_filter_ensures;
        es.lemma_filter_contains_rev(p, u[0]);
        let i = choose|i: int| 0 <= i < es.len() && es[i] == u[0];
        assert(holds(buf, entry_digest(es[i])));
    }
}

/// A fragment shorter than a block at the end of a buffer is ignored: the
/// buffer has the blocks, and holds the digests, of its whole-block prefix.
pub proof fn lemma_fragment_ignored(buf: Seq<u8>, k: nat, d: Seq<u8>)
    requires
        16 * k <= buf.len() < 16 * k + 16,
    ensures
        blocks(buf) == blocks(buf.subrange(0, 16 * k as int)),
        holds(buf, d) <==> holds(buf.subrange(0, 16 * k as int), d),
{
    let pre = buf.subrange(0, 16 * k as int);
    assert(num_blocks(buf) == k);
    assert(num_blocks(pre) == k);
    assert forall|i: int| 0 <= i < k implies #[trigger] blocks(buf)[i] == blocks(pre)[i] by {
        assert(16 * i + 16 <= 16 * k) by (nonlinear_arith)
            requires
                i < k,
        ;
        assert(block(buf, i) == block(pre, i));
    }
    assert(blocks(buf) == blocks(pre));
}

} // verus!
