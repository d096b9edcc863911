//! What a digest depends on, and what it does not: not on modification
//! times, not on the order of the listing; and its input tells apart any two
//! runs of files that differ in a name or a size.

use crate::digest::{
    canonical, counted, digest_input, file_name, insert_sorted, le_bytes, lemma_insert_position,
    record, tree_digest, EntryView,
};
use crate::order::{lemma_lex_antisymmetric, lemma_lex_total, lemma_lex_transitive, lex_le};
use vstd::multiset::*;
use vstd::prelude::*;
use vstd::seq_lib::*;

verus! {

/// Two entries that agree in all but their modification times.
pub open spec fn same_but_time(x: EntryView, y: EntryView) -> bool {
    x.path == y.path && x.kind == y.kind && x.size == y.size
}

/// Two listings that agree entry by entry in all but modification times.
pub open spec fn same_but_times(a: Seq<EntryView>, b: Seq<EntryView>) -> bool {
    &&& a.len() == b.len()
    &&& forall|i: int| 0 <= i < a.len() ==> same_but_time(#[trigger] a[i], b[i])
}

proof fn lemma_same_but_times_shrinks(a: Seq<EntryView>, b: Seq<EntryView>)
    requires
        same_but_times(a, b),
        a.len() > 0,
    ensures
        same_but_times(a.drop_last(), b.drop_last()),
        same_but_times(a.drop_first(), b.drop_first()),
        same_but_time(a.last(), b.last()),
        same_but_time(a[0], b[0]),
{
    assert forall|i: int| 0 <= i < a.len() - 1 implies same_but_time(
        #[trigger] a.drop_last()[i],
        b.drop_last()[i],
    ) by {
        assert(same_but_time(a[i], b[i]));
    }
    assert forall|i: int| 0 <= i < a.len() - 1 implies same_but_time(
        #[trigger] a.drop_first()[i],
        b.drop_first()[i],
    ) by {
        assert(same_but_time(a[i + 1], b[i + 1]));
    }
    assert(same_but_time(a[a.len() - 1], b[a.len() - 1]));
}

proof fn lemma_same_but_times_grows(
    a: Seq<EntryView>,
    b: Seq<EntryView>,
    x: EntryView,
    y: EntryView,
)
    requires
        same_but_times(a, b),
        same_but_time(x, y),
    ensures
        same_but_times(a.push(x), b.push(y)),
{
    assert forall|i: int| 0 <= i < a.len() + 1 implies same_but_time(
        #[trigger] a.push(x)[i],
        b.push(y)[i],
    ) by {
        if i < a.len() {
            assert(same_but_time(a[i], b[i]));
        }
    }
}

proof fn lemma_insert_same_but_times(
    a: Seq<EntryView>,
    b: Seq<EntryView>,
    x: EntryView,
    y: EntryView,
)
    requires
        same_but_times(a, b),
        same_but_time(x, y),
    ensures
        same_but_times(insert_sorted(a, x), insert_sorted(b, y)),
    decreases a.len(),
{
    if a.len() > 0 {
        lemma_same_but_times_shrinks(a, b);
        if lex_le(a.last().path, x.path) {
            lemma_same_but_times_grows(a, b, x, y);
        } else {
            lemma_insert_same_but_times(a.drop_last(), b.drop_last(), x, y);
            lemma_same_but_times_grows(
                insert_sorted(a.drop_last(), x),
                insert_sorted(b.drop_last(), y),
                a.last(),
                b.last(),
            );
        }
    } else {
        lemma_same_but_times_grows(a, b, x, y);
    }
}

proof fn lemma_canonical_same_but_times(a: Seq<EntryView>, b: Seq<EntryView>)
    requires
        same_but_times(a, b),
    ensures
        same_but_times(canonical(a), canonical(b)),
    decreases a.len(),
{
    if a.len() > 0 {
        lemma_same_but_times_shrinks(a, b);
        lemma_canonical_same_but_times(a.drop_last(), b.drop_last());
        if counted(a.last()) {
            lemma_insert_same_but_times(
                canonical(a.drop_last()),
                canonical(b.drop_last()),
                a.last(),
                b.last(),
            );
        }
    }
}

proof fn lemma_input_same_but_times(a: Seq<EntryView>, b: Seq<EntryView>)
    requires
        same_but_times(a, b),
    ensures
        digest_input(a) == digest_input(b),
    decreases a.len(),
{
    if a.len() > 0 {
        lemma_same_but_times_shrinks(a, b);
        lemma_input_same_but_times(a.drop_first(), b.drop_first());
    }
}

/// Modification times take no part in a digest: two listings that agree in
/// every path, kind and size have one digest.
pub proof fn lemma_digest_ignores_times(a: Seq<EntryView>, b: Seq<EntryView>)
    requires
        same_but_times(a, b),
    ensures
        tree_digest(a) == tree_digest(b),
{
    lemma_canonical_same_but_times(a, b);
    lemma_input_same_but_times(canonical(a), canonical(b));
}

/// The name and the size of a file: all that a digest takes of it.
pub open spec fn content(e: EntryView) -> (Seq<u8>, u64) {
    (file_name(e.path), e.size)
}

/// Every name is short enough for its length to be written in eight bytes.
pub open spec fn names_fit(files: Seq<EntryView>) -> bool {
    forall|i: int| 0 <= i < files.len() ==> file_name((#[trigger] files[i]).path).len() <= u64::MAX
}

proof fn lemma_le_bytes_injective(x: u64, y: u64)
    requires
        le_bytes(x) == le_bytes(y),
    ensures
        x == y,
{
    let s = le_bytes(x);
    let t = le_bytes(y);
    assert(s[0] == t[0] && s[1] == t[1] && s[2] == t[2] && s[3] == t[3] && s[4] == t[4] && s[5]
        == t[5] && s[6] == t[6] && s[7] == t[7]);
    assert(x == y) by (bit_vector)
        requires
            ((x >> 0u64) & 0xff) as u8 == ((y >> 0u64) & 0xff) as u8,
            ((x >> 8u64) & 0xff) as u8 == ((y >> 8u64) & 0xff) as u8,
            ((x >> 16u64) & 0xff) as u8 == ((y >> 16u64) & 0xff) as u8,
            ((x >> 24u64) & 0xff) as u8 == ((y >> 24u64) & 0xff) as u8,
            ((x >> 32u64) & 0xff) as u8 == ((y >> 32u64) & 0xff) as u8,
            ((x >> 40u64) & 0xff) as u8 == ((y >> 40u64) & 0xff) as u8,
            ((x >> 48u64) & 0xff) as u8 == ((y >> 48u64) & 0xff) as u8,
            ((x >> 56u64) & 0xff) as u8 == ((y >> 56u64) & 0xff) as u8,
    ;
}

proof fn lemma_record_prefix(x: EntryView, y: EntryView, p: Seq<u8>, q: Seq<u8>)
    requires
        file_name(x.path).len() <= u64::MAX,
        file_name(y.path).len() <= u64::MAX,
        record(x) + p == record(y) + q,
    ensures
        content(x) == content(y),
        p == q,
{
    let nx = file_name(x.path);
    let ny = file_name(y.path);
    let l = record(x) + p;
    let r = record(y) + q;
    assert(l.subrange(0, 8) =~= le_bytes(nx.len() as u64));
    assert(r.subrange(0, 8) =~= le_bytes(ny.len() as u64));
    lemma_le_bytes_injective(nx.len() as u64, ny.len() as u64);
    let n = nx.len() as int;
    assert(l.subrange(8, 8 + n) =~= nx);
    assert(r.subrange(8, 8 + n) =~= ny);
    assert(l.subrange(8 + n, 16 + n) =~= le_bytes(x.size));
    assert(r.subrange(8 + n, 16 + n) =~= le_bytes(y.size));
    lemma_le_bytes_injective(x.size, y.size);
    assert(l.skip(16 + n) =~= p);
    assert(r.skip(16 + n) =~= q);
}

/// The input of a digest tells runs of files apart: two runs with one input
/// hold the same names and sizes, one by one. Digests of different inputs
/// differ unless the hash collides.
pub proof fn lemma_input_tells_files_apart(a: Seq<EntryView>, b: Seq<EntryView>)
    requires
        names_fit(a),
        names_fit(b),
        digest_input(a) == digest_input(b),
    ensures
        a.len() == b.len(),
        forall|i: int| 0 <= i < a.len() ==> content(#[trigger] a[i]) == content(b[i]),
    decreases a.len(),
{
    if a.len() == 0 {
        if b.len() > 0 {
            assert(digest_input(b).len() >= record(b[0]).len() >= 16);
        }
    } else if b.len() == 0 {
        assert(digest_input(a).len() >= record(a[0]).len() >= 16);
    } else {
        let ta = a.drop_first();
        let tb = b.drop_first();
        assert(file_name(a[0].path).len() <= u64::MAX);
        assert(file_name(b[0].path).len() <= u64::MAX);
        lemma_record_prefix(a[0], b[0], digest_input(ta), digest_input(tb));
        assert forall|i: int| 0 <= i < ta.len() implies file_name((#[trigger] ta[i]).path).len()
            <= u64::MAX by {
            assert(ta[i] == a[i + 1]);
        }
        assert forall|i: int| 0 <= i < tb.len() implies file_name((#[trigger] tb[i]).path).len()
            <= u64::MAX by {
            assert(tb[i] == b[i + 1]);
        }
        lemma_input_tells_files_apart(ta, tb);
        assert forall|i: int| 0 <= i < a.len() implies content(#[trigger] a[i]) == content(
            b[i],
        ) by {
            if i > 0 {
                assert(ta[i - 1] == a[i]);
                assert(tb[i - 1] == b[i]);
                assert(content(ta[i - 1]) == content(tb[i - 1]));
            }
        }
    }
}

/// Every entry stands before those whose paths come later.
pub open spec fn in_path_order(s: Seq<EntryView>) -> bool {
    forall|i: int, j: int| 0 <= i < j < s.len() ==> lex_le(s[i].path, s[j].path)
}

/// No two entries share a path.
pub open spec fn distinct_paths(s: Seq<EntryView>) -> bool {
    forall|i: int, j: int| 0 <= i < j < s.len() ==> s[i].path != s[j].path
}

/// No two regular files of a listing share a path.
pub open spec fn distinct_files(s: Seq<EntryView>) -> bool {
    forall|i: int, j: int|
        0 <= i < j < s.len() && counted(s[i]) && counted(s[j]) ==> s[i].path != s[j].path
}

/// The position at which `insert_sorted` puts an entry.
pub open spec fn insert_index(sorted: Seq<EntryView>, e: EntryView) -> int
    decreases sorted.len(),
{
    if sorted.len() == 0 {
        0
    } else if lex_le(sorted.last().path, e.path) {
        sorted.len() as int
    } else {
        insert_index(sorted.drop_last(), e)
    }
}

proof fn lemma_insert_index(sorted: Seq<EntryView>, e: EntryView)
    ensures
        0 <= insert_index(sorted, e) <= sorted.len(),
        forall|k: int|
            insert_index(sorted, e) <= k < sorted.len() ==> !lex_le(
                (#[trigger] sorted[k]).path,
                e.path,
            ),
        insert_index(sorted, e) > 0 ==> lex_le(sorted[insert_index(sorted, e) - 1].path, e.path),
        insert_sorted(sorted, e) == sorted.insert(insert_index(sorted, e), e),
    decreases sorted.len(),
{
    if sorted.len() > 0 && !lex_le(sorted.last().path, e.path) {
        let init = sorted.drop_last();
        lemma_insert_index(init, e);
        assert forall|k: int| insert_index(sorted, e) <= k < sorted.len() implies !lex_le(
            (#[trigger] sorted[k]).path,
            e.path,
        ) by {
            if k < init.len() {
                assert(init[k] == sorted[k]);
            }
        }
        if insert_index(sorted, e) > 0 {
            assert(init[insert_index(sorted, e) - 1] == sorted[insert_index(sorted, e) - 1]);
        }
    }
    lemma_insert_position(sorted, e, insert_index(sorted, e));
}

proof fn lemma_insert_keeps_order(sorted: Seq<EntryView>, e: EntryView)
    requires
        in_path_order(sorted),
    ensures
        in_path_order(insert_sorted(sorted, e)),
{
    let at = insert_index(sorted, e);
    lemma_insert_index(sorted, e);
    let r = sorted.insert(at, e);
    assert forall|i: int, j: int| 0 <= i < j < r.len() implies lex_le(r[i].path, r[j].path) by {
        if j < at {
            assert(r[i] == sorted[i] && r[j] == sorted[j]);
        } else if j == at {
            assert(r[i] == sorted[i] && r[j] == e);
            if i < at - 1 {
                lemma_lex_transitive(sorted[i].path, sorted[at - 1].path, e.path);
            }
        } else if i < at {
            assert(r[i] == sorted[i] && r[j] == sorted[j - 1]);
        } else if i == at {
            assert(r[i] == e && r[j] == sorted[j - 1]);
            lemma_lex_total(e.path, sorted[j - 1].path);
        } else {
            assert(r[i] == sorted[i - 1] && r[j] == sorted[j - 1]);
        }
    }
}

/// The regular files come out of `canonical` in the order of their paths.
pub proof fn lemma_canonical_in_order(entries: Seq<EntryView>)
    ensures
        in_path_order(canonical(entries)),
    decreases entries.len(),
{
    if entries.len() > 0 {
        lemma_canonical_in_order(entries.drop_last());
        if counted(entries.last()) {
            lemma_insert_keeps_order(canonical(entries.drop_last()), entries.last());
        }
    }
}

/// The test by which a listing's entries count.
pub open spec fn counts() -> spec_fn(EntryView) -> bool {
    |e: EntryView| counted(e)
}

/// `canonical` holds the regular files of a listing, each as often as the
/// listing does, and nothing else.
pub proof fn lemma_canonical_holds_files(entries: Seq<EntryView>)
    ensures
        canonical(entries).to_multiset() == entries.to_multiset().filter(counts()),
    decreases entries.len(),
{
    broadcast use group_multiset_axioms;

    if entries.len() == 0 {
        assert(entries.to_multiset().len() == 0) by {
            to_multiset_len(entries);
        }
        assert(canonical(entries).to_multiset().len() == 0) by {
            to_multiset_len(canonical(entries));
        }
        assert forall|v: EntryView| canonical(entries).to_multiset().count(v) == 0 by {
            axiom_count_le_len(canonical(entries).to_multiset(), v);
        }
        assert forall|v: EntryView| entries.to_multiset().count(v) == 0 by {
            axiom_count_le_len(entries.to_multiset(), v);
        }
        assert(canonical(entries).to_multiset() =~= entries.to_multiset().filter(counts()));
    } else {
        let init = entries.drop_last();
        let last = entries.last();
        lemma_canonical_holds_files(init);
        assert(entries =~= init.push(last));
        to_multiset_build(init, last);
        assert(entries.to_multiset() =~= init.to_multiset().insert(last));
        if counted(last) {
            lemma_insert_index(canonical(init), last);
            to_multiset_insert(canonical(init), insert_index(canonical(init), last), last);
        }
        assert(canonical(entries).to_multiset() =~= entries.to_multiset().filter(counts()));
    }
}

proof fn lemma_canonical_members(entries: Seq<EntryView>)
    ensures
        forall|k: int|
            0 <= k < canonical(entries).len() ==> entries.contains(
                #[trigger] canonical(entries)[k],
            ) && counted(canonical(entries)[k]),
    decreases entries.len(),
{
    if entries.len() > 0 {
        let init = entries.drop_last();
        let last = entries.last();
        lemma_canonical_members(init);
        assert forall|k: int| 0 <= k < canonical(init).len() implies entries.contains(
            #[trigger] canonical(init)[k],
        ) by {
            let i = choose|i: int| 0 <= i < init.len() && init[i] == canonical(init)[k];
            assert(entries[i] == canonical(init)[k]);
        }
        if counted(last) {
            let at = insert_index(canonical(init), last);
            lemma_insert_index(canonical(init), last);
            assert forall|k: int| 0 <= k < canonical(entries).len() implies entries.contains(
                #[trigger] canonical(entries)[k],
            ) && counted(canonical(entries)[k]) by {
                if k < at {
                    assert(canonical(entries)[k] == canonical(init)[k]);
                } else if k == at {
                    assert(entries[entries.len() - 1] == last);
                } else {
                    assert(canonical(entries)[k] == canonical(init)[k - 1]);
                }
            }
        }
    }
}

proof fn lemma_canonical_distinct(entries: Seq<EntryView>)
    requires
        distinct_files(entries),
    ensures
        distinct_paths(canonical(entries)),
    decreases entries.len(),
{
    if entries.len() > 0 {
        let init = entries.drop_last();
        let last = entries.last();
        assert(distinct_files(init)) by {
            assert forall|i: int, j: int|
                0 <= i < j < init.len() && counted(init[i]) && counted(init[j]) implies init[i].path
                != init[j].path by {
                assert(entries[i] == init[i] && entries[j] == init[j]);
            }
        }
        lemma_canonical_distinct(init);
        if counted(last) {
            let c = canonical(init);
            let at = insert_index(c, last);
            lemma_insert_index(c, last);
            lemma_canonical_members(init);
            let r = c.insert(at, last);
            assert forall|k: int| 0 <= k < c.len() implies (#[trigger] c[k]).path
                != last.path by {
                assert(init.contains(c[k]));
                let i = choose|i: int| 0 <= i < init.len() && init[i] == c[k];
                assert(entries[i] == c[k] && entries[entries.len() - 1] == last);
            }
            assert forall|i: int, j: int| 0 <= i < j < r.len() implies r[i].path
                != r[j].path by {
                let x = if i < at {
                    i
                } else {
                    i - 1
                };
                let y = if j < at {
                    j
                } else {
                    j - 1
                };
                if i == at {
                    assert(r[i] == last && r[j] == c[y]);
                } else if j == at {
                    assert(r[j] == last && r[i] == c[x]);
                } else {
                    assert(r[i] == c[x] && r[j] == c[y]);
                }
            }
        }
    }
}

proof fn lemma_ordered_unique(s: Seq<EntryView>, t: Seq<EntryView>)
    requires
        in_path_order(s),
        in_path_order(t),
        distinct_paths(s),
        s.to_multiset() == t.to_multiset(),
    ensures
        s == t,
    decreases s.len(),
{
    broadcast use group_multiset_axioms;

    to_multiset_len(s);
    to_multiset_len(t);
    if s.len() == 0 {
        assert(s =~= t);
    } else {
        let n = s.len() - 1;
        let x = s[n];
        let y = t[n];
        s.to_multiset_ensures();
        t.to_multiset_ensures();
        assert(s.contains(x));
        assert(t.contains(y));
        assert(s.to_multiset().count(x) > 0 && t.to_multiset().count(x) > 0);
        assert(t.to_multiset().count(y) > 0 && s.to_multiset().count(y) > 0);
        assert(t.contains(x));
        assert(s.contains(y));
        let k = choose|k: int| 0 <= k < t.len() && t[k] == x;
        let m = choose|m: int| 0 <= m < s.len() && s[m] == y;
        if m != n {
            assert(lex_le(s[m].path, s[n].path));
            if k != n {
                assert(lex_le(t[k].path, t[n].path));
                lemma_lex_antisymmetric(x.path, y.path);
            }
            assert(s[m].path != s[n].path);
            assert(k == n);
            assert(false);
        }
        assert(x == y);
        let si = s.drop_last();
        let ti = t.drop_last();
        assert(s.remove(n) =~= si);
        assert(t.remove(n) =~= ti);
        to_multiset_remove(s, n);
        to_multiset_remove(t, n);
        assert(si.to_multiset() == ti.to_multiset());
        assert(in_path_order(si)) by {
            assert forall|i: int, j: int| 0 <= i < j < si.len() implies lex_le(
                si[i].path,
                si[j].path,
            ) by {
                assert(si[i] == s[i] && si[j] == s[j]);
            }
        }
        assert(in_path_order(ti)) by {
            assert forall|i: int, j: int| 0 <= i < j < ti.len() implies lex_le(
                ti[i].path,
                ti[j].path,
            ) by {
                assert(ti[i] == t[i] && ti[j] == t[j]);
            }
        }
        assert(distinct_paths(si)) by {
            assert forall|i: int, j: int| 0 <= i < j < si.len() implies si[i].path
                != si[j].path by {
                assert(si[i] == s[i] && si[j] == s[j]);
            }
        }
        lemma_ordered_unique(si, ti);
        assert(s =~= si.push(x));
        assert(t =~= ti.push(y));
    }
}

/// The order of a listing takes no part in a digest: two listings that hold
/// the same entries, in whatever order, have one digest, provided that no
/// two regular files share a path.
pub proof fn lemma_digest_ignores_order(a: Seq<EntryView>, b: Seq<EntryView>)
    requires
        a.to_multiset() == b.to_multiset(),
        distinct_files(a),
    ensures
        canonical(a) == canonical(b),
        tree_digest(a) == tree_digest(b),
{
    lemma_canonical_in_order(a);
    lemma_canonical_in_order(b);
    lemma_canonical_holds_files(a);
    lemma_canonical_holds_files(b);
    lemma_canonical_distinct(a);
    lemma_ordered_unique(canonical(a), canonical(b));
}

} // verus!
