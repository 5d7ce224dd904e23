//! The detail record for one selected path, and its permission summary.
use vstd::prelude::*;
use crate::entry::{binary_size_text, format_binary_size};
use crate::path::DirPath;

verus! {

/// Metadata of one path, as read for the detail view.
#[derive(Clone, Copy, Debug)]
pub struct PathMeta {
    pub is_dir: bool,
    /// Length in bytes.
    pub size: u64,
    /// Last modification in nanoseconds since the Unix epoch, if reported.
    pub modified: Option<i128>,
    /// Creation in nanoseconds since the Unix epoch, if the platform has it.
    pub created: Option<i128>,
    /// Unix mode bits, where the platform has them.
    pub mode: Option<u32>,
    pub readonly: bool,
}

/// The detail record shown for a selected path.
#[derive(Clone, Debug)]
pub struct FileProperties {
    pub path: DirPath,
    pub is_dir: bool,
    pub size: u64,
    pub modified: i128,
    pub created: Option<i128>,
    pub permissions: String,
}

pub open spec fn octal_digit(d: nat) -> char {
    if d == 0 {
        '0'
    } else if d == 1 {
        '1'
    } else if d == 2 {
        '2'
    } else if d == 3 {
        '3'
    } else if d == 4 {
        '4'
    } else if d == 5 {
        '5'
    } else if d == 6 {
        '6'
    } else {
        '7'
    }
}

/// `n` written in base 8, without leading zeros ("0" for zero).
pub open spec fn octal_text(n: nat) -> Seq<char>
    decreases n,
{
    if n < 8 {
        seq![octal_digit(n)]
    } else {
        octal_text(n / 8).push(octal_digit(n % 8))
    }
}

/// The permission summary: the permission bits of the mode in octal where
/// the platform has a mode, else a read-only / read-write label.
pub open spec fn permission_text(mode: Option<u32>, readonly: bool) -> Seq<char> {
    match mode {
        Some(m) => octal_text((m & 0o777) as nat),
        None => if readonly {
            "Read-only"@
        } else {
            "Read-write"@
        },
    }
}

fn octal_digit_text(d: u32) -> (r: String)
    requires
        d < 8,
    ensures
        r@ == seq![octal_digit(d as nat)],
{
    let s = if d == 0 {
        "0"
    } else if d == 1 {
        "1"
    } else if d == 2 {
        "2"
    } else if d == 3 {
        "3"
    } else if d == 4 {
        "4"
    } else if d == 5 {
        "5"
    } else if d == 6 {
        "6"
    } else {
        "7"
    };
    proof {
        reveal_strlit("0");
        reveal_strlit("1");
        reveal_strlit("2");
        reveal_strlit("3");
        reveal_strlit("4");
        reveal_strlit("5");
        reveal_strlit("6");
        reveal_strlit("7");
    }
    let r = s.to_owned();
    assert(r@ =~= seq![octal_digit(d as nat)]);
    r
}

/// `n` in base 8.
pub fn octal_string(n: u32) -> (r: String)
    ensures
        r@ == octal_text(n as nat),
{
    let mut acc = octal_digit_text(n % 8);
    let mut v: u32 = n / 8;
    while v > 0
        invariant
            v > 0 ==> octal_text(n as nat) == octal_text(v as nat) + acc@,
            v == 0 ==> octal_text(n as nat) == acc@,
        decreases v,
    {
        let d = octal_digit_text(v % 8);
        let ghost old_acc = acc@;
        acc = d.concat(acc.as_str());
        assert(octal_text(v as nat) + old_acc =~= (if v < 8 {
            acc@
        } else {
            octal_text((v / 8) as nat) + acc@
        }));
        v = v / 8;
    }
    acc
}

/// The permission summary for a mode, or for a read-only flag where there
/// is no mode.
pub fn permission_string(mode: Option<u32>, readonly: bool) -> (r: String)
    ensures
        r@ == permission_text(mode, readonly),
{
    match mode {
        Some(m) => octal_string(m & 0o777),
        None => {
            proof {
                reveal_strlit("Read-only");
                reveal_strlit("Read-write");
            }
            if readonly {
                "Read-only".to_owned()
            } else {
                "Read-write".to_owned()
            }
        },
    }
}

/// `r` is the detail record for `path` built from `meta`: none exactly where
/// there is no metadata; otherwise each field is taken from the metadata, a
/// missing modification time giving `now`.
pub open spec fn properties_from(
    r: Option<FileProperties>,
    path: DirPath,
    meta: Option<PathMeta>,
    now: i128,
) -> bool {
    match meta {
        None => r is None,
        Some(m) => match r {
            None => false,
            Some(p) => {
                &&& p.path == path
                &&& p.is_dir == m.is_dir
                &&& p.size == m.size
                &&& p.modified == (match m.modified {
                    Some(t) => t,
                    None => now,
                })
                &&& p.created == m.created
                &&& p.permissions@ == permission_text(m.mode, m.readonly)
            },
        },
    }
}

/// The detail record for `path` from its metadata: none at all where the
/// metadata could not be read; a missing modification time gives `now`.
pub fn read_properties(path: DirPath, meta: Option<PathMeta>, now: i128) -> (r: Option<
    FileProperties,
>)
    ensures
        properties_from(r, path, meta, now),
{
    match meta {
        None => None,
        Some(m) => {
            let modified = match m.modified {
                Some(t) => t,
                None => now,
            };
            Some(
                FileProperties {
                    path,
                    is_dir: m.is_dir,
                    size: m.size,
                    modified,
                    created: m.created,
                    permissions: permission_string(m.mode, m.readonly),
                },
            )
        },
    }
}

impl FileProperties {
    /// The size in binary units, as the size column writes it.
    pub fn size_text(&self) -> (r: String)
        ensures
            r@ == binary_size_text(self.size),
    {
        format_binary_size(self.size)
    }

    /// The kind of the path, as the detail view names it.
    pub fn type_text(&self) -> (r: String)
        ensures
            r@ == (if self.is_dir {
                "Directory"@
            } else {
                "File"@
            }),
    {
        if self.is_dir {
            "Directory".to_owned()
        } else {
            "File".to_owned()
        }
    }
}

} // verus!
