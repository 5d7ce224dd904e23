//! Directory entries, sort modes and the order that a sort mode puts on
//! entries.
use vstd::prelude::*;
use crate::path::{DirPath, last_name};
use crate::text::{text_le, text_le_exec};

verus! {

/// One child of a directory, with the metadata read when it was listed.
#[derive(Clone, Debug)]
pub struct FileEntry {
    pub path: DirPath,
    pub is_dir: bool,
    /// Length in bytes.
    pub size: u64,
    /// Last modification, in nanoseconds since the Unix epoch.
    pub modified: i128,
}

/// The display name of an entry: the last component of its path.
pub open spec fn entry_name(e: FileEntry) -> Seq<char> {
    last_name(e.path@)
}

/// The key that orders a listing, and its direction.
#[derive(Clone, Copy, Debug, PartialEq, Eq, Structural)]
pub enum SortMode {
    NameAsc,
    NameDesc,
    SizeAsc,
    SizeDesc,
    DateAsc,
    DateDesc,
}

/// The key of a sort mode, without its direction.
#[derive(Clone, Copy, Debug, PartialEq, Eq, Structural)]
pub enum SortAxis {
    Name,
    Size,
    Date,
}

pub open spec fn axis_of(m: SortMode) -> SortAxis {
    match m {
        SortMode::NameAsc | SortMode::NameDesc => SortAxis::Name,
        SortMode::SizeAsc | SortMode::SizeDesc => SortAxis::Size,
        SortMode::DateAsc | SortMode::DateDesc => SortAxis::Date,
    }
}

/// The ascending mode of an axis.
pub open spec fn ascending(a: SortAxis) -> SortMode {
    match a {
        SortAxis::Name => SortMode::NameAsc,
        SortAxis::Size => SortMode::SizeAsc,
        SortAxis::Date => SortMode::DateAsc,
    }
}

/// The same axis in the other direction.
pub open spec fn flipped(m: SortMode) -> SortMode {
    match m {
        SortMode::NameAsc => SortMode::NameDesc,
        SortMode::NameDesc => SortMode::NameAsc,
        SortMode::SizeAsc => SortMode::SizeDesc,
        SortMode::SizeDesc => SortMode::SizeAsc,
        SortMode::DateAsc => SortMode::DateDesc,
        SortMode::DateDesc => SortMode::DateAsc,
    }
}

/// Selecting `a` while `m` is active: the active axis changes direction, any
/// other axis starts ascending.
pub open spec fn toggled(m: SortMode, a: SortAxis) -> SortMode {
    if axis_of(m) == a {
        flipped(m)
    } else {
        ascending(a)
    }
}

impl SortMode {
    /// The key of this mode, without its direction.
    pub fn axis(self) -> (r: SortAxis)
        ensures
            r == axis_of(self),
    {
        match self {
            SortMode::NameAsc | SortMode::NameDesc => SortAxis::Name,
            SortMode::SizeAsc | SortMode::SizeDesc => SortAxis::Size,
            SortMode::DateAsc | SortMode::DateDesc => SortAxis::Date,
        }
    }

    /// The mode after the user selects `axis`.
    pub fn toggle(self, axis: SortAxis) -> (r: SortMode)
        ensures
            r == toggled(self, axis),
    {
        match axis {
            SortAxis::Name => if self == SortMode::NameAsc {
                SortMode::NameDesc
            } else {
                SortMode::NameAsc
            },
            SortAxis::Size => if self == SortMode::SizeAsc {
                SortMode::SizeDesc
            } else {
                SortMode::SizeAsc
            },
            SortAxis::Date => if self == SortMode::DateAsc {
                SortMode::DateDesc
            } else {
                SortMode::DateAsc
            },
        }
    }
}

/// Selecting the active axis twice gives back the mode one started from;
/// selecting any other axis gives that axis ascending.
pub proof fn lemma_toggle_laws(m: SortMode, a: SortAxis)
    ensures
        axis_of(m) == a ==> toggled(toggled(m, a), a) == m,
        axis_of(m) != a ==> toggled(m, a) == ascending(a),
{
}

/// Order within one group (both directories or both files). In the size
/// modes directories go by name ascending whatever the direction.
pub open spec fn key_le(m: SortMode, a: FileEntry, b: FileEntry) -> bool {
    match m {
        SortMode::NameAsc => text_le(entry_name(a), entry_name(b)),
        SortMode::NameDesc => text_le(entry_name(b), entry_name(a)),
        SortMode::SizeAsc => if a.is_dir {
            text_le(entry_name(a), entry_name(b))
        } else {
            a.size <= b.size
        },
        SortMode::SizeDesc => if a.is_dir {
            text_le(entry_name(a), entry_name(b))
        } else {
            b.size <= a.size
        },
        SortMode::DateAsc => a.modified <= b.modified,
        SortMode::DateDesc => b.modified <= a.modified,
    }
}

/// `a` may stand before `b` under mode `m`: directories come before files,
/// and within a group the mode's key decides.
pub open spec fn goes_before(m: SortMode, a: FileEntry, b: FileEntry) -> bool {
    (a.is_dir && !b.is_dir) || (a.is_dir == b.is_dir && key_le(m, a, b))
}

/// What `humansize::format_size` writes for `n` bytes with binary units.
pub uninterp spec fn binary_size_text(n: u64) -> Seq<char>;

/// Relies on `humansize::format_size` with the `BINARY` options: the text
/// depends on the byte count alone.
#[verifier::external_body]
pub(crate) fn format_binary_size(n: u64) -> (r: String)
    ensures
        r@ == binary_size_text(n),
{
    humansize::format_size(n, humansize::BINARY)
}

/// The size column of an entry: "Folder" for a directory, else the byte
/// count in binary units.
pub open spec fn size_label(e: FileEntry) -> Seq<char> {
    if e.is_dir {
        "Folder"@
    } else {
        binary_size_text(e.size)
    }
}

impl FileEntry {
    /// The display name: the last component of the path.
    pub fn name(&self) -> (r: String)
        ensures
            r@ == entry_name(*self),
    {
        self.path.name()
    }

    /// The text of the size column.
    pub fn size_text(&self) -> (r: String)
        ensures
            r@ == size_label(*self),
    {
        if self.is_dir {
            "Folder".to_owned()
        } else {
            format_binary_size(self.size)
        }
    }
}

/// The display name of a path, borrowed.
fn name_str(p: &DirPath) -> (r: &str)
    ensures
        r@ == last_name(p@),
{
    let n = p.comps.len();
    if n == 0 {
        proof {
            reveal_strlit("");
        }
        ""
    } else {
        assert(p@.last() == p.comps@[n - 1]@);
        p.comps[n - 1].as_str()
    }
}

/// Whether the display name of `a` comes no later than that of `b`.
fn name_le(a: &DirPath, b: &DirPath) -> (r: bool)
    ensures
        r == text_le(last_name(a@), last_name(b@)),
{
    text_le_exec(name_str(a), name_str(b))
}

/// Whether `a` may stand before `b` under mode `m`.
pub fn goes_before_exec(m: SortMode, a: &FileEntry, b: &FileEntry) -> (r: bool)
    ensures
        r == goes_before(m, *a, *b),
{
    if a.is_dir != b.is_dir {
        return a.is_dir;
    }
    match m {
        SortMode::NameAsc => name_le(&a.path, &b.path),
        SortMode::NameDesc => name_le(&b.path, &a.path),
        SortMode::SizeAsc => if a.is_dir {
            name_le(&a.path, &b.path)
        } else {
            a.size <= b.size
        },
        SortMode::SizeDesc => if a.is_dir {
            name_le(&a.path, &b.path)
        } else {
            b.size <= a.size
        },
        SortMode::DateAsc => a.modified <= b.modified,
        SortMode::DateDesc => b.modified <= a.modified,
    }
}

} // verus!
