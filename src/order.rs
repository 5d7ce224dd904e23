//! Sorting a listing under a sort mode, and what the order guarantees.
use vstd::prelude::*;
use vstd::seq_lib::{to_multiset_build, to_multiset_contains, to_multiset_insert};
use vstd::multiset::{Multiset, group_multiset_axioms};
use crate::entry::{FileEntry, SortMode, goes_before, goes_before_exec, entry_name};
use crate::text::{text_le, lemma_text_le_antisym, lemma_text_le_total, lemma_text_le_trans};

verus! {

/// Every entry may stand before every later one under mode `m`.
pub open spec fn sorted_by(m: SortMode, s: Seq<FileEntry>) -> bool {
    forall|i: int, j: int| 0 <= i < j < s.len() ==> goes_before(m, #[trigger] s[i], #[trigger] s[j])
}

pub proof fn lemma_goes_before_total(m: SortMode, a: FileEntry, b: FileEntry)
    ensures
        goes_before(m, a, b) || goes_before(m, b, a),
{
    lemma_text_le_total(entry_name(a), entry_name(b));
}

pub proof fn lemma_goes_before_trans(m: SortMode, a: FileEntry, b: FileEntry, c: FileEntry)
    requires
        goes_before(m, a, b),
        goes_before(m, b, c),
    ensures
        goes_before(m, a, c),
{
    let (na, nb, nc) = (entry_name(a), entry_name(b), entry_name(c));
    if a.is_dir == b.is_dir && b.is_dir == c.is_dir {
        match m {
            SortMode::NameDesc => lemma_text_le_trans(nc, nb, na),
            SortMode::NameAsc => lemma_text_le_trans(na, nb, nc),
            SortMode::SizeAsc | SortMode::SizeDesc => {
                if a.is_dir {
                    lemma_text_le_trans(na, nb, nc);
                }
            },
            _ => {},
        }
    }
}

/// Putting `x` before the first entry that it may stand before, and after
/// all those it may not, keeps a sorted sequence sorted.
proof fn lemma_insert_sorted(m: SortMode, s: Seq<FileEntry>, p: int, x: FileEntry)
    requires
        sorted_by(m, s),
        0 <= p <= s.len(),
        forall|k: int| 0 <= k < p ==> !goes_before(m, x, #[trigger] s[k]),
        p < s.len() ==> goes_before(m, x, s[p]),
    ensures
        sorted_by(m, s.insert(p, x)),
{
    let t = s.insert(p, x);
    assert forall|k: int| 0 <= k < p implies goes_before(m, #[trigger] s[k], x) by {
        lemma_goes_before_total(m, s[k], x);
    }
    assert forall|i: int, j: int| 0 <= i < j < t.len() implies goes_before(m, #[trigger] t[i], #[trigger] t[j]) by {
        if j < p {
        } else if j == p {
        } else if i < p {
        } else if i == p {
            if j - 1 > p {
                lemma_goes_before_trans(m, x, s[p], s[j - 1]);
            }
        } else {
        }
    }
}

proof fn lemma_empty_to_multiset(s: Seq<FileEntry>)
    requires
        s.len() == 0,
    ensures
        s.to_multiset() == Multiset::<FileEntry>::empty(),
{
    broadcast use group_multiset_axioms;

    assert forall|a: FileEntry| s.to_multiset().count(a) == 0 by {
        to_multiset_contains(s, a);
    }
    assert(s.to_multiset() =~= Multiset::<FileEntry>::empty());
}

/// The entries of `v` reordered so that directories come first and each
/// group follows the key of `m`. A listing that is already sorted under `m`
/// comes back unchanged.
pub fn sort_entries_by(m: SortMode, v: Vec<FileEntry>) -> (r: Vec<FileEntry>)
    ensures
        r@.to_multiset() == v@.to_multiset(),
        sorted_by(m, r@),
        sorted_by(m, v@) ==> r@ == v@,
{
    broadcast use group_multiset_axioms;

    let ghost orig = v@;
    let mut src = v;
    let mut res: Vec<FileEntry> = Vec::new();
    proof {
        lemma_empty_to_multiset(res@);
    }
    assert(src@ =~= orig.subrange(0, orig.len() as int));
    while src.len() > 0
        invariant
            sorted_by(m, res@),
            res@.to_multiset().add(src@.to_multiset()) == orig.to_multiset(),
            src@.len() <= orig.len(),
            src@ == orig.subrange(0, src@.len() as int),
            sorted_by(m, orig) ==> res@ == orig.subrange(src@.len() as int, orig.len() as int),
        decreases src@.len(),
    {
        let ghost before = src@;
        let x = src.pop().unwrap();
        proof {
            assert(before =~= src@.push(x));
            to_multiset_build(src@, x);
        }
        assert(src@ =~= orig.subrange(0, src@.len() as int));
        assert(x == orig[src@.len() as int]);
        let mut p: usize = 0;
        while p < res.len() && !goes_before_exec(m, &x, &res[p])
            invariant
                p <= res@.len(),
                forall|k: int| 0 <= k < p ==> !goes_before(m, x, #[trigger] res@[k]),
                sorted_by(m, orig) ==> p == 0,
                sorted_by(m, orig) ==> res@ == orig.subrange(src@.len() as int + 1, orig.len() as int),
                x == orig[src@.len() as int],
                src@.len() < orig.len(),
            decreases res@.len() - p,
        {
            proof {
                if sorted_by(m, orig) {
                    assert(res@[0] == orig[src@.len() as int + 1]);
                }
            }
            p = p + 1;
        }
        proof {
            lemma_insert_sorted(m, res@, p as int, x);
            to_multiset_insert(res@, p as int, x);
        }
        let ghost old_res = res@;
        res.insert(p, x);
        assert(res@.to_multiset().add(src@.to_multiset()) =~= orig.to_multiset());
        proof {
            if sorted_by(m, orig) {
                assert(res@ =~= orig.subrange(src@.len() as int, orig.len() as int));
            }
        }
    }
    proof {
        lemma_empty_to_multiset(src@);
    }
    assert(res@.to_multiset() =~= orig.to_multiset());
    proof {
        if sorted_by(m, orig) {
            assert(res@ =~= orig);
        }
    }
    res
}

/// Under every mode a directory stands before every file.
pub proof fn lemma_directories_first(m: SortMode, s: Seq<FileEntry>, i: int, j: int)
    requires
        sorted_by(m, s),
        0 <= i < s.len(),
        0 <= j < s.len(),
        s[i].is_dir,
        !s[j].is_dir,
    ensures
        i < j,
{
    if j < i {
        assert(goes_before(m, s[j], s[i]));
    }
}

/// In the size modes, of either direction, directories among themselves stand
/// in ascending order of name.
pub proof fn lemma_size_modes_keep_directories_by_name(m: SortMode, s: Seq<FileEntry>, i: int, j: int)
    requires
        m == SortMode::SizeAsc || m == SortMode::SizeDesc,
        sorted_by(m, s),
        0 <= i < j < s.len(),
        s[i].is_dir,
        s[j].is_dir,
    ensures
        text_le(entry_name(s[i]), entry_name(s[j])),
{
    assert(goes_before(m, s[i], s[j]));
}

/// The directories of a listing, in the order they stand there.
pub open spec fn directory_block(s: Seq<FileEntry>) -> Seq<FileEntry> {
    s.filter(|e: FileEntry| e.is_dir)
}

/// No two directories of the listing share a name.
pub open spec fn distinct_directory_names(s: Seq<FileEntry>) -> bool {
    forall|i: int, j: int|
        0 <= i < j < s.len() && s[i].is_dir && s[j].is_dir ==> entry_name(#[trigger] s[i])
            != entry_name(#[trigger] s[j])
}

/// Each later entry has a strictly greater name.
pub open spec fn strictly_by_name(s: Seq<FileEntry>) -> bool {
    forall|i: int, j: int|
        0 <= i < j < s.len() ==> text_le(entry_name(#[trigger] s[i]), entry_name(#[trigger] s[j]))
            && entry_name(s[i]) != entry_name(s[j])
}

proof fn lemma_block_from(s: Seq<FileEntry>)
    ensures
        forall|i: int|
            0 <= i < directory_block(s).len() ==> exists|k: int|
                0 <= k < s.len() && s[k] == #[trigger] directory_block(s)[i],
    decreases s.len(),
{
    reveal(Seq::filter);
    if s.len() > 0 {
        let t = s.drop_last();
        lemma_block_from(t);
        let b = directory_block(s);
        let bt = directory_block(t);
        assert forall|i: int| 0 <= i < b.len() implies exists|k: int|
            0 <= k < s.len() && s[k] == #[trigger] b[i] by {
            if i < bt.len() {
                assert(b[i] == bt[i]);
                let k = choose|k: int| 0 <= k < t.len() && t[k] == bt[i];
                assert(s[k] == t[k]);
            } else {
                assert(b[i] == s[s.len() - 1]);
            }
        }
    }
}

proof fn lemma_block_by_name(m: SortMode, s: Seq<FileEntry>)
    requires
        m == SortMode::SizeAsc || m == SortMode::SizeDesc,
        sorted_by(m, s),
        distinct_directory_names(s),
    ensures
        strictly_by_name(directory_block(s)),
    decreases s.len(),
{
    reveal(Seq::filter);
    if s.len() > 0 {
        let n = s.len() - 1;
        let t = s.drop_last();
        assert forall|i: int, j: int| 0 <= i < j < t.len() implies goes_before(
            m,
            #[trigger] t[i],
            #[trigger] t[j],
        ) by {
            assert(t[i] == s[i] && t[j] == s[j]);
        }
        assert forall|i: int, j: int|
            0 <= i < j < t.len() && t[i].is_dir && t[j].is_dir implies entry_name(#[trigger] t[i])
            != entry_name(#[trigger] t[j]) by {
            assert(t[i] == s[i] && t[j] == s[j]);
        }
        lemma_block_by_name(m, t);
        lemma_block_from(t);
        let b = directory_block(s);
        let bt = directory_block(t);
        if s[n].is_dir {
            assert(b == bt.push(s[n]));
            assert forall|i: int, j: int| 0 <= i < j < b.len() implies text_le(
                entry_name(#[trigger] b[i]),
                entry_name(#[trigger] b[j]),
            ) && entry_name(b[i]) != entry_name(b[j]) by {
                assert(b[i] == bt[i]);
                if j < bt.len() {
                    assert(b[j] == bt[j]);
                } else {
                    let k = choose|k: int| 0 <= k < t.len() && t[k] == #[trigger] bt[i];
                    assert(s[k] == t[k]);
                    assert(goes_before(m, s[k], s[n]));
                    bt.filter_lemma(|e: FileEntry| e.is_dir);
                    t.filter_lemma(|e: FileEntry| e.is_dir);
                    assert(s[k].is_dir);
                }
            }
        } else {
            assert(b == bt);
        }
    }
}

proof fn lemma_same_members_same_sequence(a: Seq<FileEntry>, b: Seq<FileEntry>)
    requires
        strictly_by_name(a),
        strictly_by_name(b),
        forall|e: FileEntry| a.contains(e) <==> b.contains(e),
    ensures
        a == b,
    decreases a.len(),
{
    if a.len() == 0 {
        if b.len() > 0 {
            assert(b.contains(b[0]));
        }
        assert(a =~= b);
    } else {
        assert(a.contains(a[0]));
        assert(b.len() > 0);
        assert(b.contains(b[0]));
        let j = choose|j: int| 0 <= j < b.len() && b[j] == a[0];
        let i = choose|i: int| 0 <= i < a.len() && a[i] == b[0];
        if i > 0 && j > 0 {
            assert(text_le(entry_name(a[0]), entry_name(a[i])));
            assert(text_le(entry_name(b[0]), entry_name(b[j])));
            lemma_text_le_antisym(entry_name(a[0]), entry_name(b[0]));
            assert(false);
        }
        assert(a[0] == b[0]);
        let (ta, tb) = (a.drop_first(), b.drop_first());
        assert forall|e: FileEntry| ta.contains(e) <==> tb.contains(e) by {
            if ta.contains(e) {
                let k = choose|k: int| 0 <= k < ta.len() && ta[k] == e;
                assert(a[k + 1] == e);
                assert(b.contains(e));
                let l = choose|l: int| 0 <= l < b.len() && b[l] == e;
                if l == 0 {
                    assert(entry_name(a[0]) != entry_name(a[k + 1]));
                }
                assert(tb[l - 1] == e);
            }
            if tb.contains(e) {
                let k = choose|k: int| 0 <= k < tb.len() && tb[k] == e;
                assert(b[k + 1] == e);
                assert(a.contains(e));
                let l = choose|l: int| 0 <= l < a.len() && a[l] == e;
                if l == 0 {
                    assert(entry_name(b[0]) != entry_name(b[k + 1]));
                }
                assert(ta[l - 1] == e);
            }
        }
        assert forall|x: int, y: int| 0 <= x < y < ta.len() implies text_le(
            entry_name(#[trigger] ta[x]),
            entry_name(#[trigger] ta[y]),
        ) && entry_name(ta[x]) != entry_name(ta[y]) by {
            assert(ta[x] == a[x + 1] && ta[y] == a[y + 1]);
        }
        assert forall|x: int, y: int| 0 <= x < y < tb.len() implies text_le(
            entry_name(#[trigger] tb[x]),
            entry_name(#[trigger] tb[y]),
        ) && entry_name(tb[x]) != entry_name(tb[y]) by {
            assert(tb[x] == b[x + 1] && tb[y] == b[y + 1]);
        }
        lemma_same_members_same_sequence(ta, tb);
        assert(a =~= seq![a[0]] + ta);
        assert(b =~= seq![b[0]] + tb);
    }
}

/// The two size modes, ascending and descending, put the same directories in
/// the same order: sorting one listing both ways gives one directory block,
/// where no two directories share a name.
pub proof fn lemma_size_modes_same_directory_block(
    m1: SortMode,
    m2: SortMode,
    r1: Seq<FileEntry>,
    r2: Seq<FileEntry>,
)
    requires
        m1 == SortMode::SizeAsc || m1 == SortMode::SizeDesc,
        m2 == SortMode::SizeAsc || m2 == SortMode::SizeDesc,
        sorted_by(m1, r1),
        sorted_by(m2, r2),
        r1.to_multiset() == r2.to_multiset(),
        distinct_directory_names(r1),
        distinct_directory_names(r2),
    ensures
        directory_block(r1) == directory_block(r2),
{
    let (b1, b2) = (directory_block(r1), directory_block(r2));
    lemma_block_by_name(m1, r1);
    lemma_block_by_name(m2, r2);
    lemma_block_from(r1);
    lemma_block_from(r2);
    r1.filter_lemma(|e: FileEntry| e.is_dir);
    r2.filter_lemma(|e: FileEntry| e.is_dir);
    assert forall|e: FileEntry| b1.contains(e) <==> b2.contains(e) by {
        to_multiset_contains(r1, e);
        to_multiset_contains(r2, e);
        if b1.contains(e) {
            let i = choose|i: int| 0 <= i < b1.len() && b1[i] == e;
            let k = choose|k: int| 0 <= k < r1.len() && r1[k] == b1[i];
            assert(r2.contains(e));
            let l = choose|l: int| 0 <= l < r2.len() && r2[l] == e;
            assert(b2.contains(r2[l]));
        }
        if b2.contains(e) {
            let i = choose|i: int| 0 <= i < b2.len() && b2[i] == e;
            let k = choose|k: int| 0 <= k < r2.len() && r2[k] == b2[i];
            assert(r1.contains(e));
            let l = choose|l: int| 0 <= l < r1.len() && r1[l] == e;
            assert(b1.contains(r1[l]));
        }
    }
    lemma_same_members_same_sequence(b1, b2);
}

} // verus!
