//! Visible width of display strings: the Unicode column width of the text
//! minus the characters that well-formed terminal escape sequences consume.

use vstd::prelude::*;

verus! {

/// The Unicode display width, in terminal columns, of a string: a function
/// of its characters alone (wide glyphs count two columns, combining marks
/// none).
pub uninterp spec fn unicode_width_of(s: Seq<char>) -> nat;

/// Relies on `unicode_width::UnicodeWidthStr::width`: the display width in
/// columns of the whole string, determined by its characters alone.
#[verifier::external_body]
fn unicode_display_width(s: &str) -> (r: usize)
    ensures
        r as nat == unicode_width_of(s@),
{
    unicode_width::UnicodeWidthStr::width(s)
}

/// A well-formed SGR introducer stands at `i`: the escape character
/// followed by `[`.
pub open spec fn sgr_start_at(s: Seq<char>, i: int) -> bool {
    0 <= i && i + 1 < s.len() && s[i] == '\u{1b}' && s[i + 1] == '['
}

/// The index of the first occurrence of `c` at or after `from`, or -1 when
/// there is none.
pub open spec fn find_char_from(s: Seq<char>, c: char, from: int) -> int
    decreases s.len() - from,
{
    if from < 0 || from >= s.len() {
        -1
    } else if s[from] == c {
        from
    } else {
        find_char_from(s, c, from + 1)
    }
}

/// The characters charged to an SGR introducer at `i`: the introducer
/// through the first following `m`. An introducer with no terminating `m`
/// is charged nothing, so an unterminated sequence keeps its full raw
/// width.
pub open spec fn sgr_invisible_at(s: Seq<char>, i: int) -> nat {
    if sgr_start_at(s, i) && find_char_from(s, 'm', i) >= 0 {
        (find_char_from(s, 'm', i) - i + 1) as nat
    } else {
        0
    }
}

/// Invisible SGR characters charged to introducer positions below `i`.
pub open spec fn sgr_invisible_upto(s: Seq<char>, i: int) -> nat
    decreases i,
{
    if i <= 0 {
        0
    } else {
        sgr_invisible_upto(s, i - 1) + sgr_invisible_at(s, i - 1)
    }
}

/// A hyperlink introducer stands at `i`: the escape character followed by
/// `]8;;`.
pub open spec fn link_start_at(s: Seq<char>, i: int) -> bool {
    0 <= i && i + 4 < s.len() && s[i] == '\u{1b}' && s[i + 1] == ']' && s[i + 2] == '8'
        && s[i + 3] == ';' && s[i + 4] == ';'
}

/// The index of the first escape-backslash terminator pair at or after
/// `from`, or -1 when there is none.
pub open spec fn find_terminator_from(s: Seq<char>, from: int) -> int
    decreases s.len() - from,
{
    if from < 0 || from + 1 >= s.len() {
        -1
    } else if s[from] == '\u{1b}' && s[from + 1] == '\u{5c}' {
        from
    } else {
        find_terminator_from(s, from + 1)
    }
}

/// The characters charged to a hyperlink introducer at `i`: the introducer
/// through both characters of the first following terminator pair, or
/// nothing when the sequence is unterminated.
pub open spec fn link_invisible_at(s: Seq<char>, i: int) -> nat {
    if link_start_at(s, i) && find_terminator_from(s, i) >= 0 {
        (find_terminator_from(s, i) - i + 2) as nat
    } else {
        0
    }
}

/// Invisible hyperlink characters charged to introducer positions below
/// `i`.
pub open spec fn link_invisible_upto(s: Seq<char>, i: int) -> nat
    decreases i,
{
    if i <= 0 {
        0
    } else {
        link_invisible_upto(s, i - 1) + link_invisible_at(s, i - 1)
    }
}

/// All characters of `s` that its well-formed recognized escape sequences
/// consume; hyperlink sequences count only when their handling is enabled.
pub open spec fn invisible_chars(s: Seq<char>, hyperlink: bool) -> nat {
    sgr_invisible_upto(s, s.len() as int) + if hyperlink {
        link_invisible_upto(s, s.len() as int)
    } else {
        0
    }
}

/// The visible width of a string: its Unicode display width minus what its
/// well-formed escape sequences consume, never below zero.
pub open spec fn visible_width_of(s: Seq<char>, hyperlink: bool) -> nat {
    if unicode_width_of(s) >= invisible_chars(s, hyperlink) {
        (unicode_width_of(s) - invisible_chars(s, hyperlink)) as nat
    } else {
        0
    }
}

/// A count clipped to what a machine word holds.
pub open spec fn capped(n: nat) -> nat {
    if n > usize::MAX as nat {
        usize::MAX as nat
    } else {
        n
    }
}

pub(crate) fn chars_of(s: &str) -> (r: Vec<char>)
    ensures
        r@ == s@,
{
    let n = s.unicode_len();
    let mut v: Vec<char> = Vec::new();
    let mut i: usize = 0;
    while i < n
        invariant
            i <= n,
            n == s@.len(),
            v@ == s@.subrange(0, i as int),
        decreases n - i,
    {
        let c = s.get_char(i);
        v.push(c);
        i = i + 1;
        proof {
            assert(v@ =~= s@.subrange(0, i as int));
        }
    }
    proof {
        assert(v@ =~= s@);
    }
    v
}

pub(crate) fn find_char(v: &Vec<char>, c: char, from: usize) -> (r: Option<usize>)
    ensures
        match r {
            Some(j) => from <= j < v@.len() && find_char_from(v@, c, from as int) == j as int,
            None => find_char_from(v@, c, from as int) == -1,
        },
{
    let mut j = from;
    loop
        invariant
            from <= j,
            find_char_from(v@, c, from as int) == find_char_from(v@, c, j as int),
        decreases v@.len() - j,
    {
        if j >= v.len() {
            return None;
        }
        if v[j] == c {
            return Some(j);
        }
        j = j + 1;
    }
}

fn find_terminator(v: &Vec<char>, from: usize) -> (r: Option<usize>)
    ensures
        match r {
            Some(j) => from <= j && j + 1 < v@.len() && find_terminator_from(v@, from as int)
                == j as int,
            None => find_terminator_from(v@, from as int) == -1,
        },
{
    let mut j = from;
    loop
        invariant
            from <= j,
            find_terminator_from(v@, from as int) == find_terminator_from(v@, j as int),
        decreases v@.len() - j,
    {
        if j >= v.len() || j + 1 >= v.len() {
            return None;
        }
        if v[j] == '\u{1b}' && v[j + 1] == '\u{5c}' {
            return Some(j);
        }
        j = j + 1;
    }
}

fn saturating_add(a: usize, b: usize) -> (r: usize)
    ensures
        r as nat == capped(a as nat + b as nat),
{
    if a <= usize::MAX - b {
        a + b
    } else {
        usize::MAX
    }
}

fn sgr_invisible_count(v: &Vec<char>) -> (r: usize)
    ensures
        r as nat == capped(sgr_invisible_upto(v@, v@.len() as int)),
{
    let mut i: usize = 0;
    let mut r: usize = 0;
    while i < v.len()
        invariant
            i <= v@.len(),
            r as nat == capped(sgr_invisible_upto(v@, i as int)),
        decreases v@.len() - i,
    {
        let mut add: usize = 0;
        if i + 1 < v.len() && v[i] == '\u{1b}' && v[i + 1] == '[' {
            if let Some(j) = find_char(v, 'm', i) {
                add = j - i + 1;
            }
        }
        proof {
            assert(add as nat == sgr_invisible_at(v@, i as int));
        }
        r = saturating_add(r, add);
        i = i + 1;
    }
    r
}

fn link_invisible_count(v: &Vec<char>) -> (r: usize)
    ensures
        r as nat == capped(link_invisible_upto(v@, v@.len() as int)),
{
    let mut i: usize = 0;
    let mut r: usize = 0;
    while i < v.len()
        invariant
            i <= v@.len(),
            r as nat == capped(link_invisible_upto(v@, i as int)),
        decreases v@.len() - i,
    {
        let mut add: usize = 0;
        if v.len() - i > 4 && v[i] == '\u{1b}' && v[i + 1] == ']' && v[i + 2] == '8' && v[i + 3]
            == ';' && v[i + 4] == ';' {
            if let Some(j) = find_terminator(v, i) {
                add = j - i + 2;
            }
        }
        proof {
            assert(add as nat == link_invisible_at(v@, i as int));
        }
        r = saturating_add(r, add);
        i = i + 1;
    }
    r
}

/// The visible width of a display string: its Unicode column width, with
/// every well-formed SGR sequence — and, when enabled, every well-formed
/// hyperlink sequence — counted as zero columns. An unterminated sequence
/// is not stripped and keeps its raw width.
pub fn get_visible_width(input: &str, hyperlink: bool) -> (r: usize)
    ensures
        r as nat == visible_width_of(input@, hyperlink),
{
    let v = chars_of(input);
    let w = unicode_display_width(input);
    let mut inv = sgr_invisible_count(&v);
    if hyperlink {
        let link = link_invisible_count(&v);
        inv = saturating_add(inv, link);
    }
    if w >= inv {
        w - inv
    } else {
        0
    }
}

} // verus!
