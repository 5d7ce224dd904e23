//! From the children that a directory read produced to the entries that a
//! listing shows: the directory itself left out, hidden names and the search
//! query applied, missing metadata filled in.
use vstd::prelude::*;
use crate::entry::{FileEntry, entry_name};
use crate::path::{DirPath, last_name};
use crate::text::{contains_text, dotted, lower_of, lowercase, starts_with_dot, text_contains};

verus! {

/// Metadata of one child, as far as it could be read.
#[derive(Clone, Copy, Debug)]
pub struct ChildMeta {
    /// Length in bytes.
    pub size: u64,
    /// Last modification in nanoseconds since the Unix epoch, where the
    /// platform reports it.
    pub modified: Option<i128>,
}

/// One path that a directory read produced.
#[derive(Clone, Debug)]
pub struct ChildInfo {
    pub path: DirPath,
    pub is_dir: bool,
    /// `None` where the metadata could not be read at all.
    pub meta: Option<ChildMeta>,
}

/// A name passes the filter for `query`, given the lowercase forms of both:
/// a dotted name only when the query is dotted too, and, for a non-empty
/// query, only when the lowercase name contains the lowercase query.
pub open spec fn admitted(
    name: Seq<char>,
    query: Seq<char>,
    folded_name: Seq<char>,
    folded_query: Seq<char>,
) -> bool {
    &&& (!dotted(name) || dotted(query))
    &&& (query.len() == 0 || text_contains(folded_name, folded_query))
}

/// A name passes the filter for `query`, matching without regard to case.
pub open spec fn visible(name: Seq<char>, query: Seq<char>) -> bool {
    admitted(name, query, lower_of(name), lower_of(query))
}

/// The child is listed: it is not the directory itself and its name passes.
pub open spec fn kept(dir: Seq<Seq<char>>, c: ChildInfo, query: Seq<char>) -> bool {
    c.path@ != dir && visible(last_name(c.path@), query)
}

/// The entry shown for a child: unreadable metadata gives size 0, and a
/// missing modification time gives `now`.
pub open spec fn entry_of(c: ChildInfo, now: i128) -> FileEntry {
    FileEntry {
        path: c.path,
        is_dir: c.is_dir,
        size: match c.meta {
            Some(m) => m.size,
            None => 0,
        },
        modified: match c.meta {
            Some(m) => match m.modified {
                Some(t) => t,
                None => now,
            },
            None => now,
        },
    }
}

/// The entries listed for children `cs` of `dir`, in the order read.
pub open spec fn listing(dir: Seq<Seq<char>>, cs: Seq<ChildInfo>, query: Seq<char>, now: i128) -> Seq<
    FileEntry,
>
    decreases cs.len(),
{
    if cs.len() == 0 {
        Seq::empty()
    } else {
        let rest = listing(dir, cs.drop_last(), query, now);
        if kept(dir, cs.last(), query) {
            rest.push(entry_of(cs.last(), now))
        } else {
            rest
        }
    }
}

/// Whether a name is hidden: it begins with a dot.
pub fn is_hidden(name: &str) -> (r: bool)
    ensures
        r == dotted(name@),
{
    starts_with_dot(name)
}

/// Whether `name` passes the filter for `query`, given the lowercase forms
/// `folded_name` and `folded_query` of both.
pub fn passes_filter_folded(name: &str, query: &str, folded_name: &str, folded_query: &str) -> (r:
    bool)
    ensures
        r == admitted(name@, query@, folded_name@, folded_query@),
{
    if is_hidden(name) && !starts_with_dot(query) {
        return false;
    }
    if query.unicode_len() == 0 {
        return true;
    }
    contains_text(folded_name, folded_query)
}

/// Whether `name` passes the filter for `query`, without regard to case.
pub fn passes_filter(name: &str, query: &str) -> (r: bool)
    ensures
        r == visible(name@, query@),
{
    let folded_name = lowercase(name);
    let folded_query = lowercase(query);
    passes_filter_folded(name, query, folded_name.as_str(), folded_query.as_str())
}

/// The entry shown for `c`.
pub fn entry_from(c: ChildInfo, now: i128) -> (r: FileEntry)
    ensures
        r == entry_of(c, now),
{
    let (size, modified) = match c.meta {
        Some(m) => (
            m.size,
            match m.modified {
                Some(t) => t,
                None => now,
            },
        ),
        None => (0, now),
    };
    FileEntry { path: c.path, is_dir: c.is_dir, size, modified }
}

/// The entries for the children that a read of `dir` produced, before any
/// ordering: `dir` itself is left out, and so is each child whose name does
/// not pass the filter for `query`. `now` stands in for missing times.
pub fn list_children(dir: &DirPath, children: Vec<ChildInfo>, query: &str, now: i128) -> (r: Vec<
    FileEntry,
>)
    ensures
        r@ == listing(dir@, children@, query@, now),
{
    let ghost all = children@;
    let mut src = children;
    let mut out: Vec<FileEntry> = Vec::new();
    assert(out@ =~= Seq::<FileEntry>::empty());
    assert(listing(dir@, all, query@, now) =~= listing(dir@, src@, query@, now) + out@);
    while src.len() > 0
        invariant
            listing(dir@, all, query@, now) == listing(dir@, src@, query@, now) + out@,
        decreases src@.len(),
    {
        let ghost before = src@;
        let c = src.pop().unwrap();
        assert(src@ == before.drop_last());
        let keep = !c.path.same_as(dir) && passes_filter(c.path.name().as_str(), query);
        if keep {
            let e = entry_from(c, now);
            let ghost old_out = out@;
            out.insert(0, e);
            assert(out@ =~= seq![e] + old_out);
            assert(listing(dir@, before, query@, now) =~= listing(dir@, src@, query@, now) + seq![e]);
            assert(listing(dir@, all, query@, now) =~= listing(dir@, src@, query@, now) + out@);
        }
    }
    assert(listing(dir@, all, query@, now) =~= out@);
    out
}

/// No listing holds the directory it lists; every entry in it passes the
/// filter for its query; and every child that is not the directory and
/// passes the filter has its entry there.
pub proof fn lemma_listing_members(dir: Seq<Seq<char>>, cs: Seq<ChildInfo>, query: Seq<char>, now: i128)
    ensures
        forall|i: int|
            0 <= i < listing(dir, cs, query, now).len() ==> {
                let e = #[trigger] listing(dir, cs, query, now)[i];
                e.path@ != dir && visible(entry_name(e), query)
            },
        forall|k: int|
            0 <= k < cs.len() && kept(dir, #[trigger] cs[k], query) ==> listing(
                dir,
                cs,
                query,
                now,
            ).contains(entry_of(cs[k], now)),
    decreases cs.len(),
{
    if cs.len() > 0 {
        let rest = cs.drop_last();
        lemma_listing_members(dir, rest, query, now);
        let l = listing(dir, cs, query, now);
        let lr = listing(dir, rest, query, now);
        assert forall|k: int| 0 <= k < cs.len() && kept(dir, #[trigger] cs[k], query) implies l.contains(
            entry_of(cs[k], now),
        ) by {
            if k < cs.len() - 1 {
                assert(rest[k] == cs[k]);
                let j = choose|j: int| 0 <= j < lr.len() && lr[j] == entry_of(cs[k], now);
                assert(l[j] == lr[j]);
            } else {
                assert(l[l.len() - 1] == entry_of(cs[k], now));
            }
        }
    }
}

/// A listing reflects what the read found: a child created as `name` in
/// `dir` whose name passes the filter is listed after the next read, and a
/// path that the read no longer finds is not.
pub proof fn lemma_listing_reflects_children(
    dir: Seq<Seq<char>>,
    name: Seq<char>,
    cs: Seq<ChildInfo>,
    query: Seq<char>,
    now: i128,
)
    ensures
        (exists|k: int| 0 <= k < cs.len() && #[trigger] cs[k].path@ == dir.push(name))
            && visible(name, query) ==> exists|i: int|
            0 <= i < listing(dir, cs, query, now).len() && #[trigger] listing(
                dir,
                cs,
                query,
                now,
            )[i].path@ == dir.push(name),
        (forall|k: int| 0 <= k < cs.len() ==> #[trigger] cs[k].path@ != dir.push(name))
            ==> forall|i: int|
            0 <= i < listing(dir, cs, query, now).len() ==> #[trigger] listing(
                dir,
                cs,
                query,
                now,
            )[i].path@ != dir.push(name),
{
    lemma_listing_members(dir, cs, query, now);
    lemma_listing_from_children(dir, cs, query, now);
    let l = listing(dir, cs, query, now);
    let p = dir.push(name);
    if (exists|k: int| 0 <= k < cs.len() && #[trigger] cs[k].path@ == p) && visible(name, query) {
        let k = choose|k: int| 0 <= k < cs.len() && #[trigger] cs[k].path@ == p;
        assert(p.len() != dir.len());
        assert(last_name(p) == name);
        assert(kept(dir, cs[k], query));
        let i = choose|i: int| 0 <= i < l.len() && l[i] == entry_of(cs[k], now);
        assert(l[i].path@ == p);
    }
}

/// Each listed entry is the entry of one of the children.
proof fn lemma_listing_from_children(dir: Seq<Seq<char>>, cs: Seq<ChildInfo>, query: Seq<char>, now: i128)
    ensures
        forall|i: int|
            0 <= i < listing(dir, cs, query, now).len() ==> exists|k: int|
                0 <= k < cs.len() && #[trigger] listing(dir, cs, query, now)[i] == entry_of(
                    #[trigger] cs[k],
                    now,
                ),
    decreases cs.len(),
{
    if cs.len() > 0 {
        let rest = cs.drop_last();
        lemma_listing_from_children(dir, rest, query, now);
        let l = listing(dir, cs, query, now);
        let lr = listing(dir, rest, query, now);
        assert forall|i: int| 0 <= i < l.len() implies exists|k: int|
            0 <= k < cs.len() && #[trigger] l[i] == entry_of(#[trigger] cs[k], now) by {
            if i < lr.len() {
                assert(l[i] == lr[i]);
                let k = choose|k: int| 0 <= k < rest.len() && lr[i] == entry_of(#[trigger] rest[k], now);
                assert(cs[k] == rest[k]);
            } else {
                assert(l[i] == entry_of(cs[cs.len() - 1], now));
            }
        }
    }
}

/// Where the query is not dotted, no dotted name passes; where it is, a
/// dotted name passes whenever its lowercase form contains the lowercase
/// query.
pub proof fn lemma_hidden_rule(name: Seq<char>, query: Seq<char>)
    ensures
        !dotted(query) && dotted(name) ==> !visible(name, query),
        dotted(query) && dotted(name) && text_contains(lower_of(name), lower_of(query)) ==> visible(
            name,
            query,
        ),
{
}

} // verus!
