//! Identifier and type grammar: the low-level scanning rules every higher
//! grammar rule builds on.
//!
//! Rules operate directly on character positions of a source string. Each
//! executable rule is proved equal to a spec-level grammar function over
//! `Seq<char>`: on success it returns the position just past the consumed
//! text together with the parsed value, on failure `None`.

use vstd::prelude::*;
use crate::ast::TypeNode;
use crate::ast::TypeV;

verus! {

/// The whitespace characters the grammar skips between tokens.
pub open spec fn is_space_char(c: char) -> bool {
    c == ' ' || c == '\t' || c == '\n' || c == '\r'
}

/// ASCII alphabetic: the only characters that may start an identifier.
pub open spec fn is_alpha_char(c: char) -> bool {
    (97 <= c as u32 && c as u32 <= 122) || (65 <= c as u32 && c as u32 <= 90)
}

/// ASCII alphanumeric or underscore: the characters that may continue an
/// identifier.
pub open spec fn is_ident_char(c: char) -> bool {
    is_alpha_char(c) || (48 <= c as u32 && c as u32 <= 57) || c == '_'
}

/// Position of the first non-whitespace character at or after `i`.
pub open spec fn ws_end(s: Seq<char>, i: int) -> int
    decreases s.len() - i,
{
    if 0 <= i < s.len() && is_space_char(s[i]) {
        ws_end(s, i + 1)
    } else {
        i
    }
}

/// Position of the first non-identifier character at or after `i`.
pub open spec fn ident_end(s: Seq<char>, i: int) -> int
    decreases s.len() - i,
{
    if 0 <= i < s.len() && is_ident_char(s[i]) {
        ident_end(s, i + 1)
    } else {
        i
    }
}

pub proof fn lemma_ident_end_bounds(s: Seq<char>, i: int)
    requires
        0 <= i <= s.len(),
    ensures
        i <= ident_end(s, i) <= s.len(),
    decreases s.len() - i,
{
    if i < s.len() && is_ident_char(s[i]) {
        lemma_ident_end_bounds(s, i + 1);
    }
}

/// The identifier rule: one alphabetic character, then zero or more
/// alphanumeric characters or underscores. Yields the consumed text.
pub open spec fn spec_identifier(s: Seq<char>, i: int) -> Option<(int, Seq<char>)> {
    if 0 <= i < s.len() && is_alpha_char(s[i]) {
        let j = ident_end(s, i + 1);
        Some((j, s.subrange(i, j)))
    } else {
        None
    }
}

/// End of the `/`-separated segments that follow a first identifier segment
/// ending at `i`; a `/` is consumed only when an identifier follows it.
pub open spec fn qualified_end(s: Seq<char>, i: int) -> int
    decreases s.len() - i,
{
    if 0 <= i < s.len() && s[i] == '/' {
        match spec_identifier(s, i + 1) {
            Some((j, seg)) => if i < j <= s.len() {
                qualified_end(s, j)
            } else {
                i
            },
            None => i,
        }
    } else {
        i
    }
}

/// The qualified-identifier rule: one or more identifiers separated by `/`,
/// yielded as the single `/`-joined text.
pub open spec fn spec_qualified(s: Seq<char>, i: int) -> Option<(int, Seq<char>)> {
    match spec_identifier(s, i) {
        Some((j, seg)) => {
            let k = qualified_end(s, j);
            Some((k, s.subrange(i, k)))
        },
        None => None,
    }
}

/// The type rule: an identifier, optionally followed by the literal `[]`,
/// optionally followed by the literal `?`, in that fixed order and with no
/// whitespace between the parts.
pub open spec fn spec_type(s: Seq<char>, i: int) -> Option<(int, TypeV)> {
    match spec_identifier(s, i) {
        Some((j, name)) => {
            let arr = j + 2 <= s.len() && s[j] == '[' && s[j + 1] == ']';
            let j2 = if arr {
                j + 2
            } else {
                j
            };
            let opt = 0 <= j2 < s.len() && s[j2] == '?';
            let j3 = if opt {
                j2 + 1
            } else {
                j2
            };
            Some((j3, TypeV { name: name, is_array: arr, is_optional: opt }))
        },
        None => None,
    }
}

/// Executable check of `is_space_char`.
pub fn is_space(c: char) -> (b: bool)
    ensures
        b == is_space_char(c),
{
    c == ' ' || c == '\t' || c == '\n' || c == '\r'
}

/// Executable check of `is_alpha_char`.
pub fn is_alpha(c: char) -> (b: bool)
    ensures
        b == is_alpha_char(c),
{
    let u = c as u32;
    (97 <= u && u <= 122) || (65 <= u && u <= 90)
}

/// Executable check of `is_ident_char`.
pub fn is_ident(c: char) -> (b: bool)
    ensures
        b == is_ident_char(c),
{
    let u = c as u32;
    (97 <= u && u <= 122) || (65 <= u && u <= 90) || (48 <= u && u <= 57) || c == '_'
}

/// Skips whitespace starting at `pos`.
pub fn skip_ws(s: &str, pos: usize) -> (r: usize)
    requires
        pos as int <= s@.len(),
    ensures
        r as int == ws_end(s@, pos as int),
        pos <= r,
        r as int <= s@.len(),
{
    let n = s.unicode_len();
    let mut j = pos;
    while j < n && is_space(s.get_char(j))
        invariant
            pos <= j <= n,
            n as int == s@.len(),
            ws_end(s@, pos as int) == ws_end(s@, j as int),
        decreases n - j,
    {
        j = j + 1;
    }
    j
}

/// The identifier rule, executable.
pub fn parse_identifier(s: &str, pos: usize) -> (r: Option<(usize, String)>)
    requires
        pos as int <= s@.len(),
    ensures
        match r {
            Some((j, id)) => {
                &&& spec_identifier(s@, pos as int) == Some((j as int, id@))
                &&& pos < j
                &&& j as int <= s@.len()
            },
            None => spec_identifier(s@, pos as int) is None,
        },
{
    let n = s.unicode_len();
    if pos < n && is_alpha(s.get_char(pos)) {
        let mut j = pos + 1;
        while j < n && is_ident(s.get_char(j))
            invariant
                pos < j <= n,
                n as int == s@.len(),
                ident_end(s@, pos as int + 1) == ident_end(s@, j as int),
            decreases n - j,
        {
            j = j + 1;
        }
        let id = s.substring_char(pos, j).to_owned();
        Some((j, id))
    } else {
        None
    }
}

/// End of the remaining `/`-separated segments, executable.
fn qualified_rest(s: &str, pos: usize) -> (r: usize)
    requires
        pos as int <= s@.len(),
    ensures
        r as int == qualified_end(s@, pos as int),
        pos <= r,
        r as int <= s@.len(),
    decreases s@.len() - pos,
{
    let n = s.unicode_len();
    if pos < n && s.get_char(pos) == '/' {
        match parse_identifier(s, pos + 1) {
            Some((j, _seg)) => {
                if j > pos {
                    qualified_rest(s, j)
                } else {
                    pos
                }
            },
            None => pos,
        }
    } else {
        pos
    }
}

/// The qualified-identifier rule, executable.
pub fn parse_qualified_identifier(s: &str, pos: usize) -> (r: Option<(usize, String)>)
    requires
        pos as int <= s@.len(),
    ensures
        match r {
            Some((j, path)) => {
                &&& spec_qualified(s@, pos as int) == Some((j as int, path@))
                &&& pos < j
                &&& j as int <= s@.len()
            },
            None => spec_qualified(s@, pos as int) is None,
        },
{
    match parse_identifier(s, pos) {
        Some((j, _seg)) => {
            let k = qualified_rest(s, j);
            let path = s.substring_char(pos, k).to_owned();
            Some((k, path))
        },
        None => None,
    }
}

/// The type rule, executable.
pub fn parse_type(s: &str, pos: usize) -> (r: Option<(usize, TypeNode)>)
    requires
        pos as int <= s@.len(),
    ensures
        match r {
            Some((j, t)) => {
                &&& spec_type(s@, pos as int) == Some((j as int, crate::ast::type_view(t)))
                &&& pos < j
                &&& j as int <= s@.len()
            },
            None => spec_type(s@, pos as int) is None,
        },
{
    match parse_identifier(s, pos) {
        Some((j, name)) => {
            let n = s.unicode_len();
            let arr = n - j >= 2 && s.get_char(j) == '[' && s.get_char(j + 1) == ']';
            let j2 = if arr {
                j + 2
            } else {
                j
            };
            let opt = j2 < n && s.get_char(j2) == '?';
            let j3 = if opt {
                j2 + 1
            } else {
                j2
            };
            Some((j3, TypeNode { name: name, is_array: arr, is_optional: opt }))
        },
        None => None,
    }
}

/// Scanning an identifier embedded in a larger text, when the character
/// just past the embedded text cannot continue an identifier, stops where
/// it stops in the embedded text alone.
pub proof fn lemma_ident_end_shift(s: Seq<char>, p: Seq<char>, off: int, k: int)
    requires
        0 <= off,
        0 <= k <= p.len(),
        off + p.len() < s.len(),
        forall|t: int| 0 <= t < p.len() ==> s[off + t] == p[t],
        !is_ident_char(s[off + p.len()]),
    ensures
        ident_end(s, off + k) == off + ident_end(p, k),
    decreases p.len() - k,
{
    if k < p.len() && is_ident_char(p[k]) {
        lemma_ident_end_shift(s, p, off, k + 1);
    }
}

/// The identifier rule on an embedded text, under the same boundary
/// condition, yields the same result shifted by the offset.
pub proof fn lemma_identifier_shift(s: Seq<char>, p: Seq<char>, off: int, k: int)
    requires
        0 <= off,
        0 <= k <= p.len(),
        off + p.len() < s.len(),
        forall|t: int| 0 <= t < p.len() ==> s[off + t] == p[t],
        !is_ident_char(s[off + p.len()]),
    ensures
        match spec_identifier(p, k) {
            Some((j, id)) => spec_identifier(s, off + k) == Some((off + j, id)),
            None => spec_identifier(s, off + k) is None,
        },
{
    if k < p.len() && is_alpha_char(p[k]) {
        lemma_ident_end_shift(s, p, off, k + 1);
        lemma_ident_end_bounds(p, k + 1);
        let j = ident_end(p, k + 1);
        assert(s.subrange(off + k, off + j) =~= p.subrange(k, j));
    }
}

/// The qualified-identifier scan on an embedded text, when the character
/// just past it can neither continue an identifier nor start a new `/`
/// segment, stops where it stops in the embedded text alone.
pub proof fn lemma_qualified_end_shift(s: Seq<char>, p: Seq<char>, off: int, k: int)
    requires
        0 <= off,
        0 <= k <= p.len(),
        off + p.len() < s.len(),
        forall|t: int| 0 <= t < p.len() ==> s[off + t] == p[t],
        !is_ident_char(s[off + p.len()]),
        s[off + p.len()] != '/',
    ensures
        qualified_end(s, off + k) == off + qualified_end(p, k),
    decreases p.len() - k,
{
    if k < p.len() && p[k] == '/' {
        lemma_identifier_shift(s, p, off, k + 1);
        match spec_identifier(p, k + 1) {
            Some((j, seg)) => {
                lemma_ident_end_bounds(p, k + 2);
                if k < j <= p.len() {
                    lemma_qualified_end_shift(s, p, off, j);
                }
            },
            None => {},
        }
    }
}

/// The qualified-identifier rule on an embedded text, under the same
/// boundary condition, yields the same result shifted by the offset.
pub proof fn lemma_qualified_shift(s: Seq<char>, p: Seq<char>, off: int)
    requires
        0 <= off,
        off + p.len() < s.len(),
        forall|t: int| 0 <= t < p.len() ==> s[off + t] == p[t],
        !is_ident_char(s[off + p.len()]),
        s[off + p.len()] != '/',
        spec_qualified(p, 0) == Some((p.len() as int, p)),
    ensures
        spec_qualified(s, off) == Some((off + p.len(), p)),
{
    lemma_identifier_shift(s, p, off, 0);
    match spec_identifier(p, 0) {
        Some((j, seg)) => {
            lemma_ident_end_bounds(p, 1);
            lemma_qualified_end_shift(s, p, off, j);
            assert(qualified_end(p, j) == p.len());
            assert(s.subrange(off, off + p.len()) =~= p);
        },
        None => {},
    }
}

/// The array and optional markers of a parsed type stand in a fixed order:
/// the text a successful type rule consumes is exactly the base name,
/// then `[]` when the array flag is set, then `?` when the optional flag is
/// set — so a `?` can never precede a `[]` within one type token.
pub proof fn lemma_type_marker_order(s: Seq<char>, i: int, j: int, t: TypeV)
    requires
        spec_type(s, i) == Some((j, t)),
    ensures
        s.subrange(i, j) == t.name + (if t.is_array {
            seq!['[', ']']
        } else {
            Seq::<char>::empty()
        }) + (if t.is_optional {
            seq!['?']
        } else {
            Seq::<char>::empty()
        }),
        spec_identifier(s, i) is Some,
        t.name == spec_identifier(s, i)->Some_0.1,
{
    lemma_ident_end_bounds(s, i + 1);
    assert(s.subrange(i, j) =~= t.name + (if t.is_array {
        seq!['[', ']']
    } else {
        Seq::<char>::empty()
    }) + (if t.is_optional {
        seq!['?']
    } else {
        Seq::<char>::empty()
    }));
}

} // verus!
