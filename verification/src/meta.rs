//! Normalized, immutable model of one directory entry and the formatters
//! that turn its fields into display strings.

use vstd::prelude::*;

verus! {

/// One entry of a single directory level, with its associated metadata.
/// Entries are built once by the entry source and never mutated by the
/// renderer.
#[derive(Debug)]
pub struct Meta {
    pub name: String,
    pub permissions_or_attributes: Option<PermissionsOrAttributes>,
    pub date: Option<Date>,
    pub owner: Option<Owner>,
    pub file_type: FileType,
    pub size: Option<u64>,
    pub inode: Option<u64>,
    pub content: Option<Vec<Meta>>,
}

/// Numeric owner of an entry: user id and group id.
#[derive(Clone, Debug)]
pub struct Owner {
    pub user: u32,
    pub group: u32,
}

/// A timestamp of an entry, in whole seconds since the epoch. The raw
/// source carries an optional sub-second part as well; rendering discards
/// it, but it takes part in choosing between the primary and the secondary
/// timestamp of an entry.
#[derive(Clone, Debug, PartialEq, Eq, PartialOrd, Ord)]
pub enum Date {
    Date(i64),
}

impl Clone for Meta {
    /// A deep copy of the entry, child entries included.
    fn clone(&self) -> Self
        decreases *self,
    {
        Meta {
            name: self.name.clone(),
            permissions_or_attributes: self.permissions_or_attributes.clone(),
            date: self.date.clone(),
            owner: self.owner.clone(),
            file_type: self.file_type,
            size: self.size,
            inode: self.inode,
            content: match &self.content {
                Some(children) => Some(clone_children(children)),
                None => None,
            },
        }
    }
}

fn clone_children(v: &Vec<Meta>) -> Vec<Meta>
    decreases *v,
{
    broadcast use vstd::std_specs::vec::axiom_vec_index_decreases;

    let mut out: Vec<Meta> = Vec::new();
    let mut i: usize = 0;
    while i < v.len()
        decreases v@.len() - i,
    {
        out.push(v[i].clone());
        i = i + 1;
    }
    out
}

/// The kind of an entry, with the per-kind flags the listing may one day
/// fold into its rendering.
#[derive(Debug, PartialEq, Eq, Copy, Clone)]
pub enum FileType {
    BlockDevice,
    CharDevice,
    Directory { uid: bool },
    File { uid: bool, executable: bool },
    SymLink { is_dir: bool },
    Pipe,
    Socket,
}

/// The permission-like value of an entry. A single variant today; the
/// closed type leaves room for a second attribute scheme later.
#[derive(Clone, Debug)]
pub enum PermissionsOrAttributes {
    Permissions(Permissions),
}

/// Symbolic permission bits of one entry, parsed from a raw mode word.
#[derive(Default, Debug, PartialEq, Eq, Copy, Clone)]
pub struct Permissions {
    pub user_read: bool,
    pub user_write: bool,
    pub user_execute: bool,

    pub group_read: bool,
    pub group_write: bool,
    pub group_execute: bool,

    pub other_read: bool,
    pub other_write: bool,
    pub other_execute: bool,

    pub sticky: bool,
    pub setgid: bool,
    pub setuid: bool,
}

impl Permissions {
    /// Parses the nine permission bits and the three special bits out of a
    /// raw mode bitfield. Total: every mode value yields exactly one result.
    pub fn from_mode(mode: u16) -> (r: Self)
        ensures
            r.user_read == (mode & 0o400 != 0),
            r.user_write == (mode & 0o200 != 0),
            r.user_execute == (mode & 0o100 != 0),
            r.group_read == (mode & 0o040 != 0),
            r.group_write == (mode & 0o020 != 0),
            r.group_execute == (mode & 0o010 != 0),
            r.other_read == (mode & 0o004 != 0),
            r.other_write == (mode & 0o002 != 0),
            r.other_execute == (mode & 0o001 != 0),
            r.sticky == (mode & 0o1000 != 0),
            r.setgid == (mode & 0o2000 != 0),
            r.setuid == (mode & 0o4000 != 0),
    {
        let user_read = mode & 0o400 != 0;
        let user_write = mode & 0o200 != 0;
        let user_execute = mode & 0o100 != 0;

        let group_read = mode & 0o040 != 0;
        let group_write = mode & 0o020 != 0;
        let group_execute = mode & 0o010 != 0;

        let other_read = mode & 0o004 != 0;
        let other_write = mode & 0o002 != 0;
        let other_execute = mode & 0o001 != 0;

        let sticky = mode & 0o1000 != 0;
        let setgid = mode & 0o2000 != 0;
        let setuid = mode & 0o4000 != 0;

        Self {
            user_read,
            user_write,
            user_execute,
            group_read,
            group_write,
            group_execute,
            other_read,
            other_write,
            other_execute,
            sticky,
            setgid,
            setuid,
        }
    }

    /// Renders the nine read/write/execute bits as the classic 9-character
    /// triplet string. The sticky, set-group-id and set-user-id bits are
    /// carried in the value but not folded into this rendering.
    pub fn render(&self) -> (r: String)
        ensures
            r@ == permission_chars(*self),
            r@.len() == 9,
    {
        proof {
            reveal_strlit("r");
            reveal_strlit("w");
            reveal_strlit("x");
            reveal_strlit("-");
        }
        let mut s = String::new();
        s.append(if self.user_read { "r" } else { "-" });
        s.append(if self.user_write { "w" } else { "-" });
        s.append(if self.user_execute { "x" } else { "-" });
        s.append(if self.group_read { "r" } else { "-" });
        s.append(if self.group_write { "w" } else { "-" });
        s.append(if self.group_execute { "x" } else { "-" });
        s.append(if self.other_read { "r" } else { "-" });
        s.append(if self.other_write { "w" } else { "-" });
        s.append(if self.other_execute { "x" } else { "-" });
        proof {
            assert(s@ =~= permission_chars(*self));
        }
        s
    }
}

/// One read/write/execute triplet, each absent bit shown as `-`.
pub open spec fn rwx_triplet(r: bool, w: bool, x: bool) -> Seq<char> {
    seq![
        if r { 'r' } else { '-' },
        if w { 'w' } else { '-' },
        if x { 'x' } else { '-' },
    ]
}

/// The 9-character symbolic rendering of a permission value: the owner,
/// group and other triplets in order.
pub open spec fn permission_chars(p: Permissions) -> Seq<char> {
    rwx_triplet(p.user_read, p.user_write, p.user_execute)
        + rwx_triplet(p.group_read, p.group_write, p.group_execute)
        + rwx_triplet(p.other_read, p.other_write, p.other_execute)
}

/// The rendering of a permissions-or-attributes value.
pub open spec fn poa_chars(p: PermissionsOrAttributes) -> Seq<char> {
    match p {
        PermissionsOrAttributes::Permissions(perm) => permission_chars(perm),
    }
}

impl PermissionsOrAttributes {
    /// Renders the value for the leading column of the long listing.
    pub fn render(&self) -> (r: String)
        ensures
            r@ == poa_chars(*self),
            r@.len() == 9,
    {
        match self {
            PermissionsOrAttributes::Permissions(p) => p.render(),
        }
    }
}

/// The decimal digit character for a value below ten.
pub open spec fn decimal_digit(d: nat) -> char {
    if d == 0 { '0' }
    else if d == 1 { '1' }
    else if d == 2 { '2' }
    else if d == 3 { '3' }
    else if d == 4 { '4' }
    else if d == 5 { '5' }
    else if d == 6 { '6' }
    else if d == 7 { '7' }
    else if d == 8 { '8' }
    else { '9' }
}

/// The usual decimal rendering of a non-negative integer: no sign, no
/// leading zeros but for the value zero itself.
pub open spec fn decimal_chars(n: nat) -> Seq<char>
    decreases n,
{
    if n < 10 {
        seq![decimal_digit(n)]
    } else {
        decimal_chars(n / 10).push(decimal_digit(n % 10))
    }
}

fn digit_string(d: u64) -> (r: String)
    requires
        d < 10,
    ensures
        r@ == seq![decimal_digit(d as nat)],
{
    let s: &str = if d == 0 { "0" }
    else if d == 1 { "1" }
    else if d == 2 { "2" }
    else if d == 3 { "3" }
    else if d == 4 { "4" }
    else if d == 5 { "5" }
    else if d == 6 { "6" }
    else if d == 7 { "7" }
    else if d == 8 { "8" }
    else { "9" };
    proof {
        reveal_strlit("0");
        reveal_strlit("1");
        reveal_strlit("2");
        reveal_strlit("3");
        reveal_strlit("4");
        reveal_strlit("5");
        reveal_strlit("6");
        reveal_strlit("7");
        reveal_strlit("8");
        reveal_strlit("9");
    }
    let r = String::from_str(s);
    proof {
        assert(r@ =~= seq![decimal_digit(d as nat)]);
    }
    r
}

/// Renders an unsigned integer in decimal, exactly as its mathematical
/// decimal digit sequence.
pub fn fmt_u64(n: u64) -> (r: String)
    ensures
        r@ == decimal_chars(n as nat),
    decreases n,
{
    if n < 10 {
        digit_string(n)
    } else {
        let q = fmt_u64(n / 10);
        let d = digit_string(n % 10);
        let r = q.concat(d.as_str());
        proof {
            assert(r@ =~= decimal_chars(n as nat));
        }
        r
    }
}

/// The "uid:gid" rendering of an owner.
pub open spec fn owner_chars(o: Owner) -> Seq<char> {
    decimal_chars(o.user as nat) + seq![':'] + decimal_chars(o.group as nat)
}

impl Owner {
    /// Renders the owner as the two ids joined by a colon.
    pub fn render(&self) -> (r: String)
        ensures
            r@ == owner_chars(*self),
    {
        proof {
            reveal_strlit(":");
        }
        let u = fmt_u64(self.user as u64);
        let g = fmt_u64(self.group as u64);
        let r = u.concat(":").concat(g.as_str());
        proof {
            assert(r@ =~= owner_chars(*self));
        }
        r
    }
}

} // verus!
