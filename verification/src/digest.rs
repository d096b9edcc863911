//! Change detection: a 64-bit digest of the names and sizes of a tree's
//! regular files, taken in the order of their paths. Modification times take
//! no part in it, and neither does the order in which the tree was listed.

use crate::naming::{last_index_of, lemma_last_index_of};
use crate::order::{lex_le, path_le};
use std::hash::Hasher;
use vstd::prelude::*;

verus! {

/// The seed every digest is made with.
pub const DIGEST_SEED: u64 = 42;

/// The XXH64 hash of `data` under `seed`, as `twox_hash::XxHash64` computes it.
pub uninterp spec fn xxh64(seed: u64, data: Seq<u8>) -> u64;

/// Makes a hasher with `twox_hash::XxHash64::with_seed`, feeds it `data` in
/// one `Hasher::write` and takes the hash with `Hasher::finish`. The result
/// depends on the seed and the bytes alone.
#[verifier::external_body]
fn xxh64_of(seed: u64, data: &Vec<u8>) -> (r: u64)
    ensures
        r == xxh64(seed, data@),
{
    let mut hasher = twox_hash::XxHash64::with_seed(seed);
    hasher.write(data.as_slice());
    hasher.finish()
}

/// What kind of thing a walk of the tree met.
#[derive(Clone, Copy, Debug, PartialEq, Eq, Structural)]
pub enum EntryKind {
    /// A regular file.
    File,
    /// A directory.
    Directory,
    /// Anything else: a link, a device, a socket.
    Other,
    /// An entry whose kind or size could not be read.
    Unreadable,
}

/// One entry of a tree, as a walk of it reports it.
#[derive(Clone, Debug, PartialEq, Eq)]
pub struct Entry {
    /// The entry's path, with `/` between its components.
    pub path: Vec<u8>,
    /// What the entry is.
    pub kind: EntryKind,
    /// Its length in bytes.
    pub size: u64,
    /// When it was last modified, in seconds since the epoch.
    pub modified: u64,
}

/// An `Entry` as contracts speak of it.
pub struct EntryView {
    pub path: Seq<u8>,
    pub kind: EntryKind,
    pub size: u64,
    pub modified: u64,
}

impl View for Entry {
    type V = EntryView;

    open spec fn view(&self) -> EntryView {
        EntryView { path: self.path@, kind: self.kind, size: self.size, modified: self.modified }
    }
}

/// A listing as contracts speak of it.
pub open spec fn views(entries: Seq<Entry>) -> Seq<EntryView> {
    Seq::new(entries.len(), |i: int| entries[i]@)
}

/// Only regular files count towards a digest.
pub open spec fn counted(e: EntryView) -> bool {
    e.kind == EntryKind::File
}

/// The byte that parts the components of a path.
pub const SEPARATOR: u8 = 0x2f;

/// The name of the file at `path`: what follows its last separator.
pub open spec fn file_name(path: Seq<u8>) -> Seq<u8> {
    path.skip(last_index_of(path, SEPARATOR) + 1)
}

/// The eight bytes of `x`, least significant first.
pub open spec fn le_bytes(x: u64) -> Seq<u8> {
    Seq::new(8, |i: int| ((x >> ((8 * i) as u64)) & 0xff) as u8)
}

/// What one file adds to the digest's input: the length of its name, the
/// name, and the file's size; both numbers in eight bytes.
pub open spec fn record(e: EntryView) -> Seq<u8> {
    le_bytes(file_name(e.path).len() as u64) + file_name(e.path) + le_bytes(e.size)
}

/// The records of `files`, one after another.
pub open spec fn digest_input(files: Seq<EntryView>) -> Seq<u8>
    decreases files.len(),
{
    if files.len() == 0 {
        Seq::empty()
    } else {
        record(files[0]) + digest_input(files.drop_first())
    }
}

/// `sorted` with `e` put behind the last entry whose path comes no later
/// than that of `e`.
pub open spec fn insert_sorted(sorted: Seq<EntryView>, e: EntryView) -> Seq<EntryView>
    decreases sorted.len(),
{
    if sorted.len() == 0 {
        seq![e]
    } else if lex_le(sorted.last().path, e.path) {
        sorted.push(e)
    } else {
        insert_sorted(sorted.drop_last(), e).push(sorted.last())
    }
}

/// The regular files of a listing in the order of their paths.
pub open spec fn canonical(entries: Seq<EntryView>) -> Seq<EntryView>
    decreases entries.len(),
{
    if entries.len() == 0 {
        Seq::empty()
    } else if counted(entries.last()) {
        insert_sorted(canonical(entries.drop_last()), entries.last())
    } else {
        canonical(entries.drop_last())
    }
}

/// The digest of a tree, from a listing of its entries in any order.
pub open spec fn tree_digest(entries: Seq<EntryView>) -> u64 {
    xxh64(DIGEST_SEED, digest_input(canonical(entries)))
}

/// The digest of a walk: that of the tree it listed, none where the root of
/// the tree could not be walked.
pub open spec fn walk_digest(walk: Option<Seq<EntryView>>) -> Option<u64> {
    match walk {
        Some(entries) => Some(tree_digest(entries)),
        None => None,
    }
}

/// A walk as contracts speak of it.
pub open spec fn walked(walk: Option<Vec<Entry>>) -> Option<Seq<EntryView>> {
    match walk {
        Some(entries) => Some(views(entries@)),
        None => None,
    }
}

/// Where `insert_sorted` puts an entry: at the position behind which every
/// path comes later than its own.
pub proof fn lemma_insert_position(sorted: Seq<EntryView>, e: EntryView, j: int)
    requires
        0 <= j <= sorted.len(),
        forall|k: int| j <= k < sorted.len() ==> !lex_le(sorted[k].path, e.path),
        j > 0 ==> lex_le(sorted[j - 1].path, e.path),
    ensures
        insert_sorted(sorted, e) == sorted.insert(j, e),
    decreases sorted.len(),
{
    if sorted.len() == 0 {
        assert(sorted.insert(j, e) =~= seq![e]);
    } else if j == sorted.len() {
        assert(sorted.insert(j, e) =~= sorted.push(e));
    } else {
        let init = sorted.drop_last();
        lemma_insert_position(init, e, j);
        assert(init.insert(j, e).push(sorted.last()) =~= sorted.insert(j, e));
    }
}

/// The input grows by one record with each file appended.
pub proof fn lemma_digest_input_push(files: Seq<EntryView>, e: EntryView)
    ensures
        digest_input(files.push(e)) == digest_input(files) + record(e),
    decreases files.len(),
{
    if files.len() == 0 {
        let one = files.push(e);
        assert(one.drop_first() =~= Seq::<EntryView>::empty());
        assert(one[0] == e);
        assert(digest_input(one.drop_first()) =~= Seq::<u8>::empty());
        assert(digest_input(one) == record(e) + digest_input(one.drop_first()));
        assert(digest_input(one) =~= digest_input(files) + record(e));
    } else {
        lemma_digest_input_push(files.drop_first(), e);
        let longer = files.push(e);
        assert(longer.drop_first() =~= files.drop_first().push(e));
        assert(longer[0] == files[0]);
        assert(digest_input(longer) == record(files[0]) + digest_input(longer.drop_first()));
        assert(digest_input(longer) =~= digest_input(files) + record(e));
    }
}

/// The entries that `order` picks out of a listing, one for each index.
pub open spec fn picked(entries: Seq<Entry>, order: Seq<usize>) -> Seq<EntryView> {
    Seq::new(order.len(), |k: int| entries[order[k] as int]@)
}

/// Appends the eight bytes of `x`, least significant first.
fn push_le(buf: &mut Vec<u8>, x: u64)
    ensures
        final(buf)@ == old(buf)@ + le_bytes(x),
{
    let mut i: usize = 0;
    while i < 8
        invariant
            i <= 8,
            buf@.len() == old(buf)@.len() + i,
            forall|k: int| 0 <= k < old(buf)@.len() ==> buf@[k] == old(buf)@[k],
            forall|k: int| 0 <= k < i ==> buf@[old(buf)@.len() + k] == le_bytes(x)[k],
        decreases 8 - i,
    {
        let shift: u64 = (8 * i) as u64;
        let b: u8 = ((x >> shift) & 0xff) as u8;
        buf.push(b);
        i = i + 1;
    }
    assert(buf@ =~= old(buf)@ + le_bytes(x));
}

/// Finds where the name of the file at `path` begins.
fn name_start(path: &Vec<u8>) -> (start: usize)
    ensures
        start as int == last_index_of(path@, SEPARATOR) + 1,
        start <= path@.len(),
{
    let mut i: usize = path.len();
    assert(path@.take(i as int) =~= path@);
    proof {
        lemma_last_index_of(path@, SEPARATOR);
    }
    while i > 0
        invariant
            i <= path@.len(),
            last_index_of(path@, SEPARATOR) == last_index_of(path@.take(i as int), SEPARATOR),
        decreases i,
    {
        assert(path@.take(i as int).last() == path@[i - 1]);
        if path[i - 1] == SEPARATOR {
            return i;
        }
        assert(path@.take(i as int).drop_last() =~= path@.take(i - 1));
        i = i - 1;
    }
    0
}

/// Appends the record of one file.
fn push_record(buf: &mut Vec<u8>, e: &Entry)
    ensures
        final(buf)@ == old(buf)@ + record(e@),
{
    let start: usize = name_start(&e.path);
    let n: usize = e.path.len() - start;
    let ghost name = file_name(e@.path);
    push_le(buf, n as u64);
    let ghost before = buf@;
    let mut i: usize = start;
    while i < e.path.len()
        invariant
            start <= i <= e.path@.len(),
            start as int == last_index_of(e.path@, SEPARATOR) + 1,
            buf@ == before + e.path@.subrange(start as int, i as int),
        decreases e.path@.len() - i,
    {
        buf.push(e.path[i]);
        assert(e.path@.subrange(start as int, i as int).push(e.path@[i as int])
            =~= e.path@.subrange(start as int, i + 1));
        i = i + 1;
    }
    assert(e.path@.subrange(start as int, i as int) =~= name);
    push_le(buf, e.size);
    assert(buf@ =~= old(buf)@ + record(e@));
}

/// Puts the regular files of a listing in the order of their paths, each
/// given by its index in the listing.
fn canonical_order(entries: &Vec<Entry>) -> (order: Vec<usize>)
    ensures
        forall|k: int| 0 <= k < order@.len() ==> order@[k] < entries@.len(),
        picked(entries@, order@) == canonical(views(entries@)),
{
    let mut order: Vec<usize> = Vec::new();
    let mut i: usize = 0;
    assert(views(entries@).take(0) =~= Seq::<EntryView>::empty());
    assert(picked(entries@, order@) =~= Seq::<EntryView>::empty());
    while i < entries.len()
        invariant
            i <= entries@.len(),
            forall|k: int| 0 <= k < order@.len() ==> order@[k] < entries@.len(),
            picked(entries@, order@) == canonical(views(entries@).take(i as int)),
        decreases entries@.len() - i,
    {
        let ghost seen = views(entries@).take(i as int);
        let ghost next = views(entries@).take(i + 1);
        let ghost e = entries@[i as int]@;
        assert(next.drop_last() =~= seen);
        assert(next.last() == e);
        if matches!(entries[i].kind, EntryKind::File) {
            let ghost sorted = picked(entries@, order@);
            let mut j: usize = order.len();
            let mut found: bool = false;
            while j > 0 && !found
                invariant
                    j <= order@.len(),
                    i < entries@.len(),
                    e == entries@[i as int]@,
                    sorted == picked(entries@, order@),
                    forall|k: int| 0 <= k < order@.len() ==> order@[k] < entries@.len(),
                    forall|k: int| j <= k < sorted.len() ==> !lex_le(sorted[k].path, e.path),
                    found ==> j > 0 && lex_le(sorted[j - 1].path, e.path),
                decreases j + (if found { 0int } else { 1int }),
            {
                let at: usize = order[j - 1];
                assert(sorted[j - 1] == entries@[at as int]@);
                if path_le(&entries[at].path, &entries[i].path) {
                    found = true;
                } else {
                    j = j - 1;
                }
            }
            order.insert(j, i);
            proof {
                lemma_insert_position(sorted, e, j as int);
                assert(picked(entries@, order@) =~= sorted.insert(j as int, e));
            }
        }
        i = i + 1;
    }
    assert(views(entries@).take(i as int) =~= views(entries@));
    order
}

/// Computes the digest of a tree from a listing of its entries. Directories,
/// other non-files and unreadable entries take no part in it; neither do
/// modification times, nor the order of the listing.
pub fn hash_metadata(entries: &Vec<Entry>) -> (digest: u64)
    ensures
        digest == tree_digest(views(entries@)),
{
    let order = canonical_order(entries);
    let ghost files = canonical(views(entries@));
    let mut buf: Vec<u8> = Vec::new();
    let mut k: usize = 0;
    assert(files.take(0) =~= Seq::<EntryView>::empty());
    while k < order.len()
        invariant
            k <= order@.len(),
            forall|n: int| 0 <= n < order@.len() ==> order@[n] < entries@.len(),
            files == picked(entries@, order@),
            buf@ == digest_input(files.take(k as int)),
        decreases order@.len() - k,
    {
        let at: usize = order[k];
        push_record(&mut buf, &entries[at]);
        proof {
            lemma_digest_input_push(files.take(k as int), files[k as int]);
            assert(files.take(k as int).push(files[k as int]) =~= files.take(k + 1));
        }
        k = k + 1;
    }
    assert(files.take(k as int) =~= files);
    xxh64_of(DIGEST_SEED, &buf)
}

/// Computes the digest of what a walk brought. There is none only where the
/// root of the tree could not be walked.
pub fn digest_walk(walk: &Option<Vec<Entry>>) -> (digest: Option<u64>)
    ensures
        digest == walk_digest(walked(*walk)),
{
    match walk {
        Some(entries) => Some(hash_metadata(entries)),
        None => None,
    }
}

} // verus!
