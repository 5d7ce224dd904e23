//! Absolute paths as sequences of components, and the navigation guard that
//! keeps "up" inside the home root.
use vstd::prelude::*;

verus! {

/// An absolute path, held as its components below the filesystem root
/// (`/home/ana` is `["home", "ana"]`; the root itself has none).
#[derive(Clone, Debug)]
pub struct DirPath {
    pub comps: Vec<String>,
}

impl View for DirPath {
    type V = Seq<Seq<char>>;

    open spec fn view(&self) -> Seq<Seq<char>> {
        self.comps@.map_values(|c: String| c@)
    }
}

/// The last component of a path: its display name (empty for the root).
pub open spec fn last_name(p: Seq<Seq<char>>) -> Seq<char> {
    if p.len() == 0 {
        Seq::empty()
    } else {
        p.last()
    }
}

/// `p` is `root` or lies below it, comparing whole components.
pub open spec fn within(p: Seq<Seq<char>>, root: Seq<Seq<char>>) -> bool {
    root.is_prefix_of(p)
}

/// Where "up" leads from `cur` under the home root `home`: the parent when
/// there is one and it stays inside `home`, else `cur` itself.
pub open spec fn up_target(cur: Seq<Seq<char>>, home: Seq<Seq<char>>) -> Seq<Seq<char>> {
    if cur.len() > 0 && within(cur.drop_last(), home) {
        cur.drop_last()
    } else {
        cur
    }
}

/// "Up" from the home root itself leaves the directory unchanged.
pub proof fn lemma_up_from_home_stays(home: Seq<Seq<char>>)
    ensures
        up_target(home, home) == home,
{
}

impl DirPath {
    /// The filesystem root.
    pub fn root() -> (r: DirPath)
        ensures
            r@ == Seq::<Seq<char>>::empty(),
    {
        let r = DirPath { comps: Vec::new() };
        assert(r@ =~= Seq::<Seq<char>>::empty());
        r
    }

    /// A copy of the path.
    pub fn duplicate(&self) -> (r: DirPath)
        ensures
            r@ == self@,
    {
        let mut comps: Vec<String> = Vec::new();
        let mut i: usize = 0;
        while i < self.comps.len()
            invariant
                i <= self.comps@.len(),
                comps@.len() == i,
                forall|k: int| 0 <= k < i ==> comps@[k]@ == self.comps@[k]@,
            decreases self.comps@.len() - i,
        {
            comps.push(self.comps[i].clone());
            i = i + 1;
        }
        let r = DirPath { comps };
        assert(r@ =~= self@);
        r
    }

    /// The path one level below this one, named `name`.
    pub fn join(&self, name: &str) -> (r: DirPath)
        ensures
            r@ == self@.push(name@),
    {
        let mut r = self.duplicate();
        r.comps.push(name.to_owned());
        assert(r@ =~= self@.push(name@));
        r
    }

    /// The display name: the last component, empty for the root.
    pub fn name(&self) -> (r: String)
        ensures
            r@ == last_name(self@),
    {
        if self.comps.len() == 0 {
            String::new()
        } else {
            self.comps[self.comps.len() - 1].clone()
        }
    }

    /// Whether both paths have the same components.
    pub fn same_as(&self, other: &DirPath) -> (r: bool)
        ensures
            r == (self@ == other@),
    {
        if self.comps.len() != other.comps.len() {
            return false;
        }
        let r = self.starts_with(other);
        if r {
            assert(self@ =~= other@);
        }
        r
    }

    /// Whether this path is `root` or lies below it.
    pub fn starts_with(&self, root: &DirPath) -> (r: bool)
        ensures
            r == within(self@, root@),
    {
        if root.comps.len() > self.comps.len() {
            return false;
        }
        let mut i: usize = 0;
        while i < root.comps.len()
            invariant
                root.comps@.len() <= self.comps@.len(),
                i <= root.comps@.len(),
                forall|k: int| 0 <= k < i ==> self@[k] == root@[k],
            decreases root.comps@.len() - i,
        {
            if self.comps[i] != root.comps[i] {
                assert(self@[i as int] != root@[i as int]);
                assert(self@.subrange(0, root@.len() as int)[i as int] != root@[i as int]);
                return false;
            }
            i = i + 1;
        }
        assert(root@ =~= self@.subrange(0, root@.len() as int));
        true
    }

    /// The path one level up, or `None` for the root.
    pub fn parent(&self) -> (r: Option<DirPath>)
        ensures
            r is None <==> self@.len() == 0,
            r is Some ==> r->0@ == self@.drop_last(),
    {
        if self.comps.len() == 0 {
            None
        } else {
            let mut p = self.duplicate();
            p.comps.pop();
            assert(p@ =~= self@.drop_last());
            Some(p)
        }
    }
}

/// One level up from `current_dir`; the root stays where it is.
pub fn go_back(current_dir: DirPath) -> (r: DirPath)
    ensures
        r@ == (if current_dir@.len() > 0 {
            current_dir@.drop_last()
        } else {
            current_dir@
        }),
{
    match current_dir.parent() {
        Some(p) => p,
        None => current_dir,
    }
}

/// The directory that "up" leads to from `cur`: its parent when that is the
/// home root or lies below it, else `cur` unchanged.
pub fn navigate_up(cur: &DirPath, home: &DirPath) -> (r: DirPath)
    ensures
        r@ == up_target(cur@, home@),
{
    match cur.parent() {
        Some(p) => {
            if p.starts_with(home) {
                p
            } else {
                cur.duplicate()
            }
        },
        None => cur.duplicate(),
    }
}

} // verus!
