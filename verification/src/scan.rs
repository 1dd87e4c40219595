//! The top-level structure of a JSON document, read byte by byte.
//!
//! The reader asks serde_json whether a document is valid JSON; this module
//! then finds the document's root kind and, for an object, where each
//! member's key and value lie. On valid JSON these functions follow the JSON
//! grammar; on other bytes they stop early and never fail.

use crate::errors::NonObjectKind;
use crate::json::{BACKSLASH, QUOTE, escaped_byte, escaped_bytes, hex_digit, is_ws, json_quoted};
use vstd::prelude::*;

verus! {

/// The byte `{`.
pub const LBRACE: u8 = 123;

/// The byte `}`.
pub const RBRACE: u8 = 125;

/// The byte `[`.
pub const LBRACKET: u8 = 91;

/// The byte `]`.
pub const RBRACKET: u8 = 93;

/// The byte `:`.
pub const COLON: u8 = 58;

/// The byte `,`.
pub const COMMA: u8 = 44;

/// A byte that ends a number, `true`, `false` or `null`.
pub open spec fn ends_scalar(b: u8) -> bool {
    is_ws(b) || b == COMMA || b == RBRACE || b == RBRACKET
}

/// The first position at or after `i` that is not whitespace.
pub open spec fn skip_ws(s: Seq<u8>, i: int) -> int
    decreases s.len() - i,
{
    if 0 <= i < s.len() && is_ws(s[i]) {
        skip_ws(s, i + 1)
    } else {
        i
    }
}

/// The position just after the closing quote of a string whose content
/// starts at `i`; the end of the input if the string is not closed.
pub open spec fn string_end(s: Seq<u8>, i: int) -> int
    decreases s.len() - i,
{
    if i >= s.len() {
        s.len() as int
    } else if s[i] == QUOTE {
        i + 1
    } else if s[i] == BACKSLASH {
        if i + 1 < s.len() {
            string_end(s, i + 2)
        } else {
            s.len() as int
        }
    } else {
        string_end(s, i + 1)
    }
}

/// The position just after the bracket that closes an object or array, where
/// `i` lies `depth` brackets deep, inside a string if `in_string`; the end of
/// the input if the brackets are not closed.
pub open spec fn nested_end(s: Seq<u8>, i: int, depth: nat, in_string: bool) -> int
    decreases s.len() - i,
{
    if i >= s.len() {
        s.len() as int
    } else if in_string {
        if s[i] == BACKSLASH {
            if i + 1 < s.len() {
                nested_end(s, i + 2, depth, true)
            } else {
                s.len() as int
            }
        } else if s[i] == QUOTE {
            nested_end(s, i + 1, depth, false)
        } else {
            nested_end(s, i + 1, depth, true)
        }
    } else if s[i] == QUOTE {
        nested_end(s, i + 1, depth, true)
    } else if s[i] == LBRACE || s[i] == LBRACKET {
        nested_end(s, i + 1, depth + 1, false)
    } else if s[i] == RBRACE || s[i] == RBRACKET {
        if depth <= 1 {
            i + 1
        } else {
            nested_end(s, i + 1, (depth - 1) as nat, false)
        }
    } else {
        nested_end(s, i + 1, depth, false)
    }
}

/// The position just after a number, `true`, `false` or `null` that starts at
/// `i`.
pub open spec fn scalar_end(s: Seq<u8>, i: int) -> int
    decreases s.len() - i,
{
    if 0 <= i < s.len() && !ends_scalar(s[i]) {
        scalar_end(s, i + 1)
    } else {
        i
    }
}

/// The position just after the JSON value that starts at `i`.
pub open spec fn value_end(s: Seq<u8>, i: int) -> int {
    if i >= s.len() {
        s.len() as int
    } else if s[i] == QUOTE {
        string_end(s, i + 1)
    } else if s[i] == LBRACE || s[i] == LBRACKET {
        nested_end(s, i + 1, 1, false)
    } else {
        scalar_end(s, i)
    }
}

/// `skip_ws` stays within `[i, len]`.
pub proof fn lemma_skip_ws_bounds(s: Seq<u8>, i: int)
    requires
        0 <= i <= s.len(),
    ensures
        i <= skip_ws(s, i) <= s.len(),
    decreases s.len() - i,
{
    if 0 <= i < s.len() && is_ws(s[i]) {
        lemma_skip_ws_bounds(s, i + 1);
    }
}

/// `string_end` lies within `(i, len]`.
pub proof fn lemma_string_end_bounds(s: Seq<u8>, i: int)
    requires
        0 <= i <= s.len(),
    ensures
        i <= string_end(s, i) <= s.len(),
        i < s.len() ==> i < string_end(s, i),
    decreases s.len() - i,
{
    if i < s.len() && s[i] != QUOTE {
        if s[i] == BACKSLASH {
            if i + 1 < s.len() {
                lemma_string_end_bounds(s, i + 2);
            }
        } else {
            lemma_string_end_bounds(s, i + 1);
        }
    }
}

/// `nested_end` lies within `[i, len]`.
pub proof fn lemma_nested_end_bounds(s: Seq<u8>, i: int, depth: nat, in_string: bool)
    requires
        0 <= i <= s.len(),
    ensures
        i <= nested_end(s, i, depth, in_string) <= s.len(),
    decreases s.len() - i,
{
    if i < s.len() {
        if in_string {
            if s[i] == BACKSLASH {
                if i + 1 < s.len() {
                    lemma_nested_end_bounds(s, i + 2, depth, true);
                }
            } else if s[i] == QUOTE {
                lemma_nested_end_bounds(s, i + 1, depth, false);
            } else {
                lemma_nested_end_bounds(s, i + 1, depth, true);
            }
        } else if s[i] == QUOTE {
            lemma_nested_end_bounds(s, i + 1, depth, true);
        } else if s[i] == LBRACE || s[i] == LBRACKET {
            lemma_nested_end_bounds(s, i + 1, depth + 1, false);
        } else if s[i] == RBRACE || s[i] == RBRACKET {
            if depth > 1 {
                lemma_nested_end_bounds(s, i + 1, (depth - 1) as nat, false);
            }
        } else {
            lemma_nested_end_bounds(s, i + 1, depth, false);
        }
    }
}

/// `scalar_end` lies within `[i, len]`.
pub proof fn lemma_scalar_end_bounds(s: Seq<u8>, i: int)
    requires
        0 <= i <= s.len(),
    ensures
        i <= scalar_end(s, i) <= s.len(),
    decreases s.len() - i,
{
    if 0 <= i < s.len() && !ends_scalar(s[i]) {
        lemma_scalar_end_bounds(s, i + 1);
    }
}

/// `value_end` lies within `[i, len]`.
pub proof fn lemma_value_end_bounds(s: Seq<u8>, i: int)
    requires
        0 <= i <= s.len(),
    ensures
        i <= value_end(s, i) <= s.len(),
{
    if i < s.len() {
        if s[i] == QUOTE {
            lemma_string_end_bounds(s, i + 1);
        } else if s[i] == LBRACE || s[i] == LBRACKET {
            lemma_nested_end_bounds(s, i + 1, 1, false);
        } else {
            lemma_scalar_end_bounds(s, i);
        }
    }
}

/// Where one object member lies: its key literal spans `[.0, .1)`, its value
/// spans `[.2, .3)`.
pub type Span4 = (int, int, int, int);

/// The members of an object from position `j` on, where `j` should hold the
/// opening quote of a key. Scanning stops at the first byte that does not fit.
pub open spec fn members_from(s: Seq<u8>, j: int) -> Seq<Span4>
    decreases s.len() - j,
{
    if !(0 <= j < s.len() && s[j] == QUOTE) {
        seq![]
    } else {
        let key_end = string_end(s, j + 1);
        let colon = skip_ws(s, key_end);
        if !(colon < s.len() && s[colon] == COLON) {
            seq![]
        } else {
            let start = skip_ws(s, colon + 1);
            let end = value_end(s, start);
            let next = skip_ws(s, end);
            let member = (j, key_end, start, end);
            if next < s.len() && s[next] == COMMA {
                proof {
                    lemma_string_end_bounds(s, j + 1);
                    lemma_skip_ws_bounds(s, key_end);
                    lemma_skip_ws_bounds(s, colon + 1);
                    lemma_value_end_bounds(s, start);
                    lemma_skip_ws_bounds(s, end);
                    lemma_skip_ws_bounds(s, next + 1);
                }
                seq![member] + members_from(s, skip_ws(s, next + 1))
            } else {
                seq![member]
            }
        }
    }
}

/// The members of the object whose `{` is at `open`.
pub open spec fn object_members(s: Seq<u8>, open: int) -> Seq<Span4> {
    let first = skip_ws(s, open + 1);
    if first < s.len() && s[first] == RBRACE {
        seq![]
    } else {
        members_from(s, first)
    }
}

/// The top-level shape of a document.
pub enum Shape {
    /// An object, with where its members lie.
    Object(Seq<Span4>),
    /// Any other JSON value.
    NonObject(NonObjectKind),
}

/// The kind of the value that starts with byte `b`.
pub open spec fn kind_of(b: u8) -> Option<NonObjectKind> {
    if b == LBRACE {
        None
    } else if b == LBRACKET {
        Some(NonObjectKind::Array)
    } else if b == QUOTE {
        Some(NonObjectKind::String)
    } else if b == 116 || b == 102 {
        Some(NonObjectKind::Bool)
    } else if b == 110 {
        Some(NonObjectKind::Null)
    } else {
        Some(NonObjectKind::Number)
    }
}

/// The top-level shape of the document `s`.
pub open spec fn shape(s: Seq<u8>) -> Shape {
    let root = skip_ws(s, 0);
    if root >= s.len() {
        Shape::NonObject(NonObjectKind::Null)
    } else {
        match kind_of(s[root]) {
            None => Shape::Object(object_members(s, root)),
            Some(kind) => Shape::NonObject(kind),
        }
    }
}

/// Where one object member lies in the document.
#[derive(Clone, Copy, Debug, PartialEq, Eq)]
pub struct MemberSpan {
    /// The position of the key literal's opening quote.
    pub key_start: usize,
    /// The position just after the key literal's closing quote.
    pub key_end: usize,
    /// The position of the value's first byte.
    pub value_start: usize,
    /// The position just after the value's last byte.
    pub value_end: usize,
}

impl View for MemberSpan {
    type V = Span4;

    open spec fn view(&self) -> Span4 {
        (self.key_start as int, self.key_end as int, self.value_start as int, self.value_end as int)
    }
}

/// The top-level shape of a document, as found by [`scan_document`].
pub enum ScannedDocument {
    /// An object, with where its members lie.
    Object(Vec<MemberSpan>),
    /// Any other JSON value.
    NonObject(NonObjectKind),
}

impl View for ScannedDocument {
    type V = Shape;

    open spec fn view(&self) -> Shape {
        match self {
            ScannedDocument::Object(members) => Shape::Object(members@.map_values(|m: MemberSpan| m@)),
            ScannedDocument::NonObject(kind) => Shape::NonObject(*kind),
        }
    }
}

fn is_ws_byte(b: u8) -> (r: bool)
    ensures
        r == is_ws(b),
{
    b == 32 || b == 9 || b == 10 || b == 13
}

/// The first position at or after `i` that is not whitespace.
pub fn find_non_ws(s: &[u8], i: usize) -> (r: usize)
    requires
        i <= s@.len(),
    ensures
        r as int == skip_ws(s@, i as int),
        i <= r <= s@.len(),
{
    let mut k = i;
    while k < s.len() && is_ws_byte(s[k])
        invariant
            i <= k <= s@.len(),
            skip_ws(s@, k as int) == skip_ws(s@, i as int),
        decreases s@.len() - k,
    {
        k += 1;
    }
    k
}

/// The position just after the closing quote of the string whose content
/// starts at `i`.
pub fn find_string_end(s: &[u8], i: usize) -> (r: usize)
    requires
        i <= s@.len(),
    ensures
        r as int == string_end(s@, i as int),
        i <= r <= s@.len(),
{
    proof {
        lemma_string_end_bounds(s@, i as int);
    }
    let mut k = i;
    while k < s.len()
        invariant
            i <= k <= s@.len(),
            string_end(s@, k as int) == string_end(s@, i as int),
        decreases s@.len() - k,
    {
        if s[k] == QUOTE {
            return k + 1;
        } else if s[k] == BACKSLASH {
            if k + 1 < s.len() {
                k += 2;
            } else {
                return s.len();
            }
        } else {
            k += 1;
        }
    }
    s.len()
}

/// The position just after the bracket that closes the object or array whose
/// content starts at `i`.
pub fn find_nested_end(s: &[u8], i: usize) -> (r: usize)
    requires
        1 <= i <= s@.len(),
    ensures
        r as int == nested_end(s@, i as int, 1, false),
        i <= r <= s@.len(),
{
    proof {
        lemma_nested_end_bounds(s@, i as int, 1, false);
    }
    let mut k = i;
    let mut depth: usize = 1;
    let mut in_string = false;
    while k < s.len()
        invariant
            i <= k <= s@.len(),
            1 <= depth <= k,
            nested_end(s@, k as int, depth as nat, in_string) == nested_end(s@, i as int, 1, false),
        decreases s@.len() - k,
    {
        let b = s[k];
        if in_string {
            if b == BACKSLASH {
                if k + 1 < s.len() {
                    k += 2;
                } else {
                    return s.len();
                }
            } else if b == QUOTE {
                in_string = false;
                k += 1;
            } else {
                k += 1;
            }
        } else if b == QUOTE {
            in_string = true;
            k += 1;
        } else if b == LBRACE || b == LBRACKET {
            depth += 1;
            k += 1;
        } else if b == RBRACE || b == RBRACKET {
            if depth <= 1 {
                return k + 1;
            }
            depth -= 1;
            k += 1;
        } else {
            k += 1;
        }
    }
    s.len()
}

/// The position just after the number, `true`, `false` or `null` at `i`.
pub fn find_scalar_end(s: &[u8], i: usize) -> (r: usize)
    requires
        i <= s@.len(),
    ensures
        r as int == scalar_end(s@, i as int),
        i <= r <= s@.len(),
{
    let mut k = i;
    while k < s.len() && !(is_ws_byte(s[k]) || s[k] == COMMA || s[k] == RBRACE || s[k] == RBRACKET)
        invariant
            i <= k <= s@.len(),
            scalar_end(s@, k as int) == scalar_end(s@, i as int),
        decreases s@.len() - k,
    {
        k += 1;
    }
    k
}

/// The position just after the JSON value that starts at `i`.
pub fn find_value_end(s: &[u8], i: usize) -> (r: usize)
    requires
        i <= s@.len(),
    ensures
        r as int == value_end(s@, i as int),
        i <= r <= s@.len(),
{
    if i >= s.len() {
        s.len()
    } else if s[i] == QUOTE {
        find_string_end(s, i + 1)
    } else if s[i] == LBRACE || s[i] == LBRACKET {
        find_nested_end(s, i + 1)
    } else {
        find_scalar_end(s, i)
    }
}

/// Finds where the members of the object whose `{` is at `open` lie.
pub fn scan_members(s: &[u8], open: usize) -> (r: Vec<MemberSpan>)
    requires
        open < s@.len(),
    ensures
        r@.map_values(|m: MemberSpan| m@) == object_members(s@, open as int),
        forall|i: int| 0 <= i < r@.len() ==> {
            let m = #[trigger] r@[i];
            m.key_start < m.key_end <= m.value_start <= m.value_end <= s@.len()
        },
{
    let mut members: Vec<MemberSpan> = Vec::new();
    let len = s.len();
    assert(open < len);
    let first = find_non_ws(s, open + 1);
    if first < s.len() && s[first] == RBRACE {
        proof {
            assert(members@.map_values(|m: MemberSpan| m@) =~= Seq::<Span4>::empty());
        }
        return members;
    }
    let mut j = first;
    while j < s.len() && s[j] == QUOTE
        invariant
            j <= s@.len(),
            members@.map_values(|m: MemberSpan| m@) + members_from(s@, j as int) == object_members(
                s@,
                open as int,
            ),
            forall|i: int| 0 <= i < members@.len() ==> {
                let m = #[trigger] members@[i];
                m.key_start < m.key_end <= m.value_start <= m.value_end <= s@.len()
            },
        decreases s@.len() - j,
    {
        let ghost before = members@.map_values(|m: MemberSpan| m@);
        let key_end = find_string_end(s, j + 1);
        let colon = find_non_ws(s, key_end);
        if !(colon < s.len() && s[colon] == COLON) {
            proof {
                assert(members_from(s@, j as int) =~= Seq::<Span4>::empty());
                assert(before + Seq::<Span4>::empty() =~= before);
            }
            return members;
        }
        let start = find_non_ws(s, colon + 1);
        let end = find_value_end(s, start);
        let next = find_non_ws(s, end);
        let member = MemberSpan { key_start: j, key_end, value_start: start, value_end: end };
        members.push(member);
        proof {
            assert(members@.map_values(|m: MemberSpan| m@) =~= before.push(member@));
        }
        if next < s.len() && s[next] == COMMA {
            let after = find_non_ws(s, next + 1);
            proof {
                assert(members_from(s@, j as int) == seq![member@] + members_from(s@, after as int));
                assert(before + (seq![member@] + members_from(s@, after as int)) =~= before.push(
                    member@,
                ) + members_from(s@, after as int));
            }
            j = after;
        } else {
            proof {
                assert(members_from(s@, j as int) == seq![member@]);
                assert(before + seq![member@] =~= before.push(member@));
                assert(members_from(s@, s@.len() as int) =~= Seq::<Span4>::empty());
                assert(before.push(member@) + Seq::<Span4>::empty() =~= before.push(member@));
            }
            j = s.len();
        }
    }
    proof {
        let done = members@.map_values(|m: MemberSpan| m@);
        assert(members_from(s@, j as int) =~= Seq::<Span4>::empty());
        assert(done + Seq::<Span4>::empty() =~= done);
    }
    members
}

/// Finds the top-level shape of the document `s`.
pub fn scan_document(s: &[u8]) -> (r: ScannedDocument)
    ensures
        r@ == shape(s@),
        r matches ScannedDocument::Object(members) ==> forall|i: int| 0 <= i < members@.len() ==> {
            let m = #[trigger] members@[i];
            m.key_start < m.key_end <= m.value_start <= m.value_end <= s@.len()
        },
{
    let root = find_non_ws(s, 0);
    if root >= s.len() {
        return ScannedDocument::NonObject(NonObjectKind::Null);
    }
    let b = s[root];
    if b == LBRACE {
        ScannedDocument::Object(scan_members(s, root))
    } else if b == LBRACKET {
        ScannedDocument::NonObject(NonObjectKind::Array)
    } else if b == QUOTE {
        ScannedDocument::NonObject(NonObjectKind::String)
    } else if b == 116 || b == 102 {
        ScannedDocument::NonObject(NonObjectKind::Bool)
    } else if b == 110 {
        ScannedDocument::NonObject(NonObjectKind::Null)
    } else {
        ScannedDocument::NonObject(NonObjectKind::Number)
    }
}


/// Scanning a string does not look at what comes before it.
pub proof fn lemma_string_end_shift(p: Seq<u8>, w: Seq<u8>, i: int)
    requires
        0 <= i <= w.len(),
    ensures
        string_end(p + w, p.len() + i) == p.len() + string_end(w, i),
    decreases w.len() - i,
{
    let s = p + w;
    let k = p.len() + i;
    if i < w.len() {
        assert(s[k] == w[i]);
        if w[i] != QUOTE {
            if w[i] == BACKSLASH {
                if i + 1 < w.len() {
                    lemma_string_end_shift(p, w, i + 2);
                }
            } else {
                lemma_string_end_shift(p, w, i + 1);
            }
        }
    }
}

/// Scanning nested brackets does not look at what comes before them.
pub proof fn lemma_nested_end_shift(p: Seq<u8>, w: Seq<u8>, i: int, depth: nat, in_string: bool)
    requires
        0 <= i <= w.len(),
    ensures
        nested_end(p + w, p.len() + i, depth, in_string) == p.len() + nested_end(w, i, depth, in_string),
    decreases w.len() - i,
{
    let s = p + w;
    let k = p.len() + i;
    if i < w.len() {
        assert(s[k] == w[i]);
        if in_string {
            if w[i] == BACKSLASH {
                if i + 1 < w.len() {
                    lemma_nested_end_shift(p, w, i + 2, depth, true);
                }
            } else if w[i] == QUOTE {
                lemma_nested_end_shift(p, w, i + 1, depth, false);
            } else {
                lemma_nested_end_shift(p, w, i + 1, depth, true);
            }
        } else if w[i] == QUOTE {
            lemma_nested_end_shift(p, w, i + 1, depth, true);
        } else if w[i] == LBRACE || w[i] == LBRACKET {
            lemma_nested_end_shift(p, w, i + 1, depth + 1, false);
        } else if w[i] == RBRACE || w[i] == RBRACKET {
            if depth > 1 {
                lemma_nested_end_shift(p, w, i + 1, (depth - 1) as nat, false);
            }
        } else {
            lemma_nested_end_shift(p, w, i + 1, depth, false);
        }
    }
}

/// Scanning a scalar does not look at what comes before it.
pub proof fn lemma_scalar_end_shift(p: Seq<u8>, w: Seq<u8>, i: int)
    requires
        0 <= i <= w.len(),
    ensures
        scalar_end(p + w, p.len() + i) == p.len() + scalar_end(w, i),
    decreases w.len() - i,
{
    let s = p + w;
    let k = p.len() + i;
    if i < w.len() {
        assert(s[k] == w[i]);
        if !ends_scalar(w[i]) {
            lemma_scalar_end_shift(p, w, i + 1);
        }
    }
}

/// Scanning a value does not look at what comes before it.
pub proof fn lemma_value_end_shift(p: Seq<u8>, w: Seq<u8>, i: int)
    requires
        0 <= i <= w.len(),
    ensures
        value_end(p + w, p.len() + i) == p.len() + value_end(w, i),
{
    let s = p + w;
    let k = p.len() + i;
    if i < w.len() {
        assert(s[k] == w[i]);
        if w[i] == QUOTE {
            lemma_string_end_shift(p, w, i + 1);
        } else if w[i] == LBRACE || w[i] == LBRACKET {
            lemma_nested_end_shift(p, w, i + 1, 1, false);
        } else {
            lemma_scalar_end_shift(p, w, i);
        }
    }
}

/// A run of bytes other than `"` and `\` ends a string at the next quote.
pub proof fn lemma_string_end_run(s: Seq<u8>, i: int, j: int)
    requires
        0 <= i <= j < s.len(),
        s[j] == QUOTE,
        forall|k: int| i <= k < j ==> s[k] != QUOTE && s[k] != BACKSLASH,
    ensures
        string_end(s, i) == j + 1,
    decreases j - i,
{
    if i < j {
        lemma_string_end_run(s, i + 1, j);
    }
}

/// A scalar runs up to the first byte that ends it.
pub proof fn lemma_scalar_end_run(s: Seq<u8>, i: int, j: int)
    requires
        0 <= i <= j <= s.len(),
        forall|k: int| i <= k < j ==> !ends_scalar(#[trigger] s[k]),
        j < s.len() ==> ends_scalar(s[j]),
    ensures
        scalar_end(s, i) == j,
    decreases j - i,
{
    if i < j {
        lemma_scalar_end_run(s, i + 1, j);
    }
}


/// Skipping whitespace skips exactly JSON's whitespace (space, tab, line feed
/// and carriage return): every byte skipped is one of them, and scanning stops
/// at the end of the input or at a byte that is none of them.
pub proof fn law_skip_ws(s: Seq<u8>, i: int)
    requires
        0 <= i <= s.len(),
    ensures
        i <= skip_ws(s, i) <= s.len(),
        forall|k: int|
            i <= k < skip_ws(s, i) ==> (#[trigger] s[k] == 32u8 || s[k] == 9u8 || s[k] == 10u8 || s[k]
                == 13u8),
        skip_ws(s, i) < s.len() ==> !(s[skip_ws(s, i)] == 32u8 || s[skip_ws(s, i)] == 9u8
            || s[skip_ws(s, i)] == 10u8 || s[skip_ws(s, i)] == 13u8),
    decreases s.len() - i,
{
    if i < s.len() && is_ws(s[i]) {
        law_skip_ws(s, i + 1);
    }
}

/// `w` lies in `s` from position `i` on.
pub open spec fn lies_at(s: Seq<u8>, i: int, w: Seq<u8>) -> bool {
    &&& 0 <= i
    &&& i + w.len() <= s.len()
    &&& forall|k: int| 0 <= k < w.len() ==> s[i + k] == #[trigger] w[k]
}

/// A lowercase hexadecimal digit is neither `"` nor `\`.
proof fn lemma_hex_digit_plain(d: u8)
    requires
        d < 16,
    ensures
        hex_digit(d) != QUOTE && hex_digit(d) != BACKSLASH,
{
}

/// Scanning a string skips over one escaped byte as a whole.
proof fn lemma_escaped_byte_in_string(s: Seq<u8>, j: int, x: u8, depth: nat)
    requires
        lies_at(s, j, escaped_byte(x)),
    ensures
        string_end(s, j) == string_end(s, j + escaped_byte(x).len()),
        nested_end(s, j, depth, true) == nested_end(s, j + escaped_byte(x).len(), depth, true),
{
    let e = escaped_byte(x);
    assert(s[j] == e[0]);
    if e.len() == 1 {
    } else if e.len() == 2 {
        assert(s[j + 1] == e[1]);
    } else {
        assert(e.len() == 6);
        lemma_hex_digit_plain(x / 16);
        lemma_hex_digit_plain(x % 16);
        assert(s[j + 1] == e[1]);
        assert(s[j + 2] == e[2]);
        assert(s[j + 3] == e[3]);
        assert(s[j + 4] == e[4]);
        assert(s[j + 5] == e[5]);
        assert(string_end(s, j + 5) == string_end(s, j + 6));
        assert(string_end(s, j + 4) == string_end(s, j + 6));
        assert(string_end(s, j + 3) == string_end(s, j + 6));
        assert(string_end(s, j + 2) == string_end(s, j + 6));
        assert(nested_end(s, j + 5, depth, true) == nested_end(s, j + 6, depth, true));
        assert(nested_end(s, j + 4, depth, true) == nested_end(s, j + 6, depth, true));
        assert(nested_end(s, j + 3, depth, true) == nested_end(s, j + 6, depth, true));
        assert(nested_end(s, j + 2, depth, true) == nested_end(s, j + 6, depth, true));
    }
}

/// Scanning a string skips over escaped text as a whole.
proof fn lemma_escaped_in_string(s: Seq<u8>, i: int, b: Seq<u8>, depth: nat)
    requires
        lies_at(s, i, escaped_bytes(b)),
    ensures
        string_end(s, i) == string_end(s, i + escaped_bytes(b).len()),
        nested_end(s, i, depth, true) == nested_end(s, i + escaped_bytes(b).len(), depth, true),
    decreases b.len(),
{
    if b.len() > 0 {
        let front = escaped_bytes(b.drop_last());
        let last = escaped_byte(b.last());
        assert(escaped_bytes(b) == front + last);
        assert(lies_at(s, i, front)) by {
            assert forall|k: int| 0 <= k < front.len() implies s[i + k] == #[trigger] front[k] by {
                assert(escaped_bytes(b)[k] == front[k]);
            }
        }
        assert(lies_at(s, i + front.len(), last)) by {
            assert forall|k: int| 0 <= k < last.len() implies s[i + front.len() + k]
                == #[trigger] last[k] by {
                assert(escaped_bytes(b)[front.len() + k] == last[k]);
            }
        }
        lemma_escaped_in_string(s, i, b.drop_last(), depth);
        lemma_escaped_byte_in_string(s, i + front.len(), b.last(), depth);
    }
}

/// A string that serde_json writes, whatever its text, is scanned as one
/// value up to and including its closing quote, whatever follows it.
pub proof fn law_written_string_ends(t: Seq<char>, rest: Seq<u8>)
    ensures
        value_end(json_quoted(t) + rest, 0) == json_quoted(t).len(),
{
    let e = escaped_bytes(vstd::utf8::encode_utf8(t));
    let q = json_quoted(t);
    let s = q + rest;
    assert(q == seq![QUOTE] + e + seq![QUOTE]);
    assert(s[0] == QUOTE);
    assert(lies_at(s, 1, e)) by {
        assert forall|k: int| 0 <= k < e.len() implies s[1 + k] == #[trigger] e[k] by {
            assert(q[1 + k] == e[k]);
        }
    }
    lemma_escaped_in_string(s, 1, vstd::utf8::encode_utf8(t), 1);
    assert(s[1 + e.len() as int] == QUOTE) by {
        assert(q[1 + e.len() as int] == QUOTE);
    }
}


/// Every byte of `w` is JSON whitespace: space, tab, line feed or carriage
/// return.
pub open spec fn json_ws_run(w: Seq<u8>) -> bool {
    forall|k: int|
        0 <= k < w.len() ==> (#[trigger] w[k] == 32u8 || w[k] == 9u8 || w[k] == 10u8 || w[k] == 13u8)
}

/// `y` lies in `x + y + z` just after `x`.
proof fn lemma_lies_in(x: Seq<u8>, y: Seq<u8>, z: Seq<u8>)
    ensures
        lies_at(x + y + z, x.len() as int, y),
{
    assert forall|k: int| 0 <= k < y.len() implies (x + y + z)[x.len() + k] == #[trigger] y[k] by {
        assert((x + y)[x.len() + k] == y[k]);
    }
}

/// A run of whitespace is skipped up to the byte after it.
proof fn lemma_ws_run(s: Seq<u8>, i: int, w: Seq<u8>, depth: nat)
    requires
        lies_at(s, i, w),
        json_ws_run(w),
    ensures
        skip_ws(s, i) == skip_ws(s, i + w.len()),
        nested_end(s, i, depth, false) == nested_end(s, i + w.len(), depth, false),
    decreases w.len(),
{
    if w.len() > 0 {
        assert(s[i] == w[0]);
        let w1 = w.drop_first();
        assert(lies_at(s, i + 1, w1)) by {
            assert forall|k: int| 0 <= k < w1.len() implies s[i + 1 + k] == #[trigger] w1[k] by {
                assert(w[k + 1] == w1[k]);
            }
        }
        assert(json_ws_run(w1)) by {
            assert forall|k: int| 0 <= k < w1.len() implies (#[trigger] w1[k] == 32u8 || w1[k]
                == 9u8 || w1[k] == 10u8 || w1[k] == 13u8) by {
                assert(w[k + 1] == w1[k]);
            }
        }
        lemma_ws_run(s, i + 1, w1, depth);
    }
}

/// A string that serde_json writes is skipped whole inside an object.
proof fn lemma_written_string_in_object(s: Seq<u8>, i: int, t: Seq<char>, depth: nat)
    requires
        lies_at(s, i, json_quoted(t)),
    ensures
        nested_end(s, i, depth, false) == nested_end(s, i + json_quoted(t).len(), depth, false),
        i + 1 <= s.len() && string_end(s, i + 1) == i + json_quoted(t).len(),
{
    let b = vstd::utf8::encode_utf8(t);
    let e = escaped_bytes(b);
    let q = json_quoted(t);
    assert(q == seq![QUOTE] + e + seq![QUOTE]);
    assert(s[i] == q[0]);
    assert(lies_at(s, i + 1, e)) by {
        assert forall|k: int| 0 <= k < e.len() implies s[i + 1 + k] == #[trigger] e[k] by {
            assert(q[1 + k] == e[k]);
        }
    }
    lemma_escaped_in_string(s, i + 1, b, depth);
    assert(s[i + 1 + e.len()] == QUOTE) by {
        assert(q[1 + e.len() as int] == QUOTE);
    }
}

/// The object `{w1 qk w2 : w3 qt w4}` followed by `rest`.
pub open spec fn member_object(
    qk: Seq<u8>,
    qt: Seq<u8>,
    w1: Seq<u8>,
    w2: Seq<u8>,
    w3: Seq<u8>,
    w4: Seq<u8>,
    rest: Seq<u8>,
) -> Seq<u8> {
    seq![LBRACE] + w1 + qk + w2 + seq![COLON] + w3 + qt + w4 + seq![RBRACE] + rest
}

/// Where each part of [`member_object`] lies.
proof fn lemma_member_layout(
    qk: Seq<u8>,
    qt: Seq<u8>,
    w1: Seq<u8>,
    w2: Seq<u8>,
    w3: Seq<u8>,
    w4: Seq<u8>,
    rest: Seq<u8>,
)
    ensures
        ({
            let s = member_object(qk, qt, w1, w2, w3, w4, rest);
            let a = 1 + w1.len() as int;
            let b = a + qk.len();
            let colon = b + w2.len();
            let c = colon + 1 + w3.len();
            let d = c + qt.len();
            let close = d + w4.len();
            &&& s[0] == LBRACE
            &&& lies_at(s, 1, w1)
            &&& lies_at(s, a, qk)
            &&& lies_at(s, b, w2)
            &&& s[colon] == COLON
            &&& lies_at(s, colon + 1, w3)
            &&& lies_at(s, c, qt)
            &&& lies_at(s, d, w4)
            &&& close < s.len()
            &&& s[close] == RBRACE
        }),
{
    let s = member_object(qk, qt, w1, w2, w3, w4, rest);
    let p1 = seq![LBRACE];
    let p2 = p1 + w1;
    let p3 = p2 + qk;
    let p4 = p3 + w2;
    let p5 = p4 + seq![COLON];
    let p6 = p5 + w3;
    let p7 = p6 + qt;
    let p8 = p7 + w4;
    let tail = seq![RBRACE] + rest;
    assert(s == p8 + tail);
    assert(s[0] == LBRACE) by {
        assert(p8[0] == LBRACE);
    }
    assert(lies_at(s, 1, w1)) by {
        lemma_lies_in(p1, w1, qk + w2 + seq![COLON] + w3 + qt + w4 + tail);
        assert(s =~= p1 + w1 + (qk + w2 + seq![COLON] + w3 + qt + w4 + tail));
    }
    assert(lies_at(s, p2.len() as int, qk)) by {
        lemma_lies_in(p2, qk, w2 + seq![COLON] + w3 + qt + w4 + tail);
        assert(s =~= p2 + qk + (w2 + seq![COLON] + w3 + qt + w4 + tail));
    }
    assert(lies_at(s, p3.len() as int, w2)) by {
        lemma_lies_in(p3, w2, seq![COLON] + w3 + qt + w4 + tail);
        assert(s =~= p3 + w2 + (seq![COLON] + w3 + qt + w4 + tail));
    }
    assert(s[p4.len() as int] == COLON) by {
        lemma_lies_in(p4, seq![COLON], w3 + qt + w4 + tail);
        assert(s =~= p4 + seq![COLON] + (w3 + qt + w4 + tail));
        assert(seq![COLON][0] == COLON);
    }
    assert(lies_at(s, p5.len() as int, w3)) by {
        lemma_lies_in(p5, w3, qt + w4 + tail);
        assert(s =~= p5 + w3 + (qt + w4 + tail));
    }
    assert(lies_at(s, p6.len() as int, qt)) by {
        lemma_lies_in(p6, qt, w4 + tail);
        assert(s =~= p6 + qt + (w4 + tail));
    }
    assert(lies_at(s, p7.len() as int, w4)) by {
        lemma_lies_in(p7, w4, tail);
    }
    assert(s[p8.len() as int] == RBRACE) by {
        assert(tail[0] == RBRACE);
    }
}

/// An object of one member whose key and value are strings that serde_json
/// writes, with any JSON whitespace between its tokens, is scanned as that one
/// member, key and value each spanning its whole string, and as one value
/// ending at its closing brace, whatever follows it.
pub proof fn law_written_member(
    k: Seq<char>,
    t: Seq<char>,
    w1: Seq<u8>,
    w2: Seq<u8>,
    w3: Seq<u8>,
    w4: Seq<u8>,
    rest: Seq<u8>,
)
    requires
        json_ws_run(w1),
        json_ws_run(w2),
        json_ws_run(w3),
        json_ws_run(w4),
    ensures
        ({
            let qk = json_quoted(k);
            let qt = json_quoted(t);
            let s = member_object(qk, qt, w1, w2, w3, w4, rest);
            let a = 1 + w1.len() as int;
            let b = a + qk.len();
            let c = b + w2.len() + 1 + w3.len();
            let d = c + qt.len();
            &&& value_end(s, 0) == d + w4.len() + 1
            &&& object_members(s, 0) == seq![(a, b, c, d)]
        }),
{
    let qk = json_quoted(k);
    let qt = json_quoted(t);
    let s = member_object(qk, qt, w1, w2, w3, w4, rest);
    let a = 1 + w1.len() as int;
    let b = a + qk.len();
    let colon = b + w2.len();
    let c = colon + 1 + w3.len();
    let d = c + qt.len();
    let close = d + w4.len();
    lemma_member_layout(qk, qt, w1, w2, w3, w4, rest);
    lemma_written_string_in_object(s, a, k, 1);
    lemma_written_string_in_object(s, c, t, 1);
    assert(s[a] == QUOTE && s[c] == QUOTE) by {
        assert(qk[0] == QUOTE && qt[0] == QUOTE);
    }
    // The object as one value.
    assert(value_end(s, 0) == close + 1) by {
        lemma_ws_run(s, 1, w1, 1);
        lemma_ws_run(s, b, w2, 1);
        lemma_ws_run(s, colon + 1, w3, 1);
        lemma_ws_run(s, d, w4, 1);
        assert(nested_end(s, colon, 1, false) == nested_end(s, colon + 1, 1, false));
        assert(nested_end(s, close, 1, false) == close + 1);
    }
    // The members.
    assert(object_members(s, 0) == seq![(a, b, c, d)]) by {
        lemma_ws_run(s, 1, w1, 1);
        lemma_ws_run(s, b, w2, 1);
        lemma_ws_run(s, colon + 1, w3, 1);
        lemma_ws_run(s, d, w4, 1);
        assert(skip_ws(s, a) == a);
        assert(skip_ws(s, colon) == colon);
        assert(skip_ws(s, c) == c);
        assert(skip_ws(s, close) == close);
        assert(value_end(s, c) == d);
        assert(members_from(s, a) == seq![(a, b, c, d)]);
    }
}


/// Closing brackets from position `n + m`, `n - m` deep, end at `2n`.
proof fn lemma_closing_run(s: Seq<u8>, n: int, m: int)
    requires
        0 <= m < n,
        2 * n <= s.len(),
        forall|k: int| n <= k < 2 * n ==> (#[trigger] s[k] == RBRACE || s[k] == RBRACKET),
    ensures
        nested_end(s, n + m, (n - m) as nat, false) == 2 * n,
    decreases n - m,
{
    assert(s[n + m] == RBRACE || s[n + m] == RBRACKET);
    if m < n - 1 {
        lemma_closing_run(s, n, m + 1);
    }
}

/// Opening brackets from position `i`, `i` deep, lead to position `n`, `n`
/// deep.
proof fn lemma_opening_run(s: Seq<u8>, n: int, i: int)
    requires
        1 <= i <= n,
        n <= s.len(),
        forall|k: int| 0 <= k < n ==> (#[trigger] s[k] == LBRACE || s[k] == LBRACKET),
    ensures
        nested_end(s, i, i as nat, false) == nested_end(s, n, n as nat, false),
    decreases n - i,
{
    if i < n {
        assert(s[i] == LBRACE || s[i] == LBRACKET);
        lemma_opening_run(s, n, i + 1);
    }
}

/// Brackets nest to any depth: `n` opening brackets (`{` or `[`) followed by
/// `n` closing ones are scanned as one value that ends just after the last
/// of them, whatever follows.
pub proof fn law_brackets_nest(s: Seq<u8>, n: int)
    requires
        1 <= n,
        2 * n <= s.len(),
        forall|k: int| 0 <= k < n ==> (#[trigger] s[k] == LBRACE || s[k] == LBRACKET),
        forall|k: int| n <= k < 2 * n ==> (#[trigger] s[k] == RBRACE || s[k] == RBRACKET),
    ensures
        value_end(s, 0) == 2 * n,
{
    assert(s[0] == LBRACE || s[0] == LBRACKET);
    lemma_opening_run(s, n, 1);
    lemma_closing_run(s, n, 0);
}


/// A number, `true`, `false` or `null` runs up to the first byte that can
/// follow a value in JSON (whitespace, `,`, `}` or `]`), or to the end of the
/// input; a value starting with any other byte than `"`, `{` or `[` is such
/// a scalar.
pub proof fn law_scalar_end(s: Seq<u8>, i: int)
    requires
        0 <= i < s.len(),
        !(s[i] == QUOTE || s[i] == LBRACE || s[i] == LBRACKET),
    ensures
        i <= value_end(s, i) <= s.len(),
        value_end(s, i) == scalar_end(s, i),
        forall|k: int|
            i <= k < value_end(s, i) ==> !(#[trigger] s[k] == 32u8 || s[k] == 9u8 || s[k] == 10u8
                || s[k] == 13u8 || s[k] == COMMA || s[k] == RBRACE || s[k] == RBRACKET),
        value_end(s, i) < s.len() ==> (s[value_end(s, i)] == 32u8 || s[value_end(s, i)] == 9u8
            || s[value_end(s, i)] == 10u8 || s[value_end(s, i)] == 13u8 || s[value_end(s, i)]
            == COMMA || s[value_end(s, i)] == RBRACE || s[value_end(s, i)] == RBRACKET),
{
    lemma_scalar_run_law(s, i);
}

/// The induction behind [`law_scalar_end`].
proof fn lemma_scalar_run_law(s: Seq<u8>, i: int)
    requires
        0 <= i <= s.len(),
    ensures
        i <= scalar_end(s, i) <= s.len(),
        forall|k: int|
            i <= k < scalar_end(s, i) ==> !(#[trigger] s[k] == 32u8 || s[k] == 9u8 || s[k] == 10u8
                || s[k] == 13u8 || s[k] == COMMA || s[k] == RBRACE || s[k] == RBRACKET),
        scalar_end(s, i) < s.len() ==> (s[scalar_end(s, i)] == 32u8 || s[scalar_end(s, i)] == 9u8
            || s[scalar_end(s, i)] == 10u8 || s[scalar_end(s, i)] == 13u8 || s[scalar_end(s, i)]
            == COMMA || s[scalar_end(s, i)] == RBRACE || s[scalar_end(s, i)] == RBRACKET),
    decreases s.len() - i,
{
    if i < s.len() && !ends_scalar(s[i]) {
        lemma_scalar_run_law(s, i + 1);
    }
}


/// A document's shape follows the first byte of its root value: `{` starts
/// an object, `[` an array, `"` a string, `t` or `f` a boolean, `n` null, and
/// any other byte a number.
pub proof fn law_shape(s: Seq<u8>)
    requires
        skip_ws(s, 0) < s.len(),
    ensures
        ({
            let b = s[skip_ws(s, 0)];
            &&& (b == LBRACE <==> shape(s) is Object)
            &&& b == LBRACKET ==> shape(s) == Shape::NonObject(NonObjectKind::Array)
            &&& b == QUOTE ==> shape(s) == Shape::NonObject(NonObjectKind::String)
            &&& (b == 116u8 || b == 102u8) ==> shape(s) == Shape::NonObject(NonObjectKind::Bool)
            &&& b == 110u8 ==> shape(s) == Shape::NonObject(NonObjectKind::Null)
            &&& !(b == LBRACE || b == LBRACKET || b == QUOTE || b == 116u8 || b == 102u8 || b
                == 110u8) ==> shape(s) == Shape::NonObject(NonObjectKind::Number)
        }),
{
}

} // verus!
