//! The client-side scan of statement text: bind-marker extraction with
//! quote and comment awareness, statement-kind classification by the first
//! word, and detection of a returning clause.

use vstd::prelude::*;

use crate::text::{spec_upper, upper_chars};

verus! {

/// The scanner's lexical mode.
#[derive(Debug, Clone, Copy, PartialEq, Eq, Structural)]
pub enum ScanMode {
    /// Plain statement text.
    Normal,
    /// Inside a character literal, until the closing quote.
    SingleQuote,
    /// Inside a quoted identifier, until the closing double quote.
    DoubleQuote,
    /// Inside a line comment, until the end of the line.
    LineComment,
    /// Inside a block comment, until its closing pair.
    BlockComment,
    /// Inside a bind marker's name, just after the colon.
    Marker,
}

/// Whether a character may stand in a bind marker's name: a letter, a
/// digit, an underscore, a dollar or hash sign, or any character beyond
/// ASCII.
pub open spec fn is_ident_char(c: char) -> bool {
    (48 <= c as int && c as int <= 57) || (65 <= c as int && c as int <= 90) || (97 <= c as int
        && c as int <= 122) || c == '_' || c == '$' || c == '#' || c as int > 127
}

/// Decides [`is_ident_char`].
pub fn ident_char(c: char) -> (r: bool)
    ensures
        r == is_ident_char(c),
{
    let u = c as u32;
    (48 <= u && u <= 57) || (65 <= u && u <= 90) || (97 <= u && u <= 122) || c == '_' || c == '$'
        || c == '#' || u > 127
}

/// The rank a mode holds in the scan's termination measure: leaving a
/// marker consumes no character, only the mode.
pub open spec fn mode_rank(m: ScanMode) -> int {
    if m is Marker {
        1
    } else {
        0
    }
}

/// The bind markers of the statement text from position `i` on, in order
/// of occurrence, the scanner standing in mode `m` with the partial marker
/// name `acc`. A marker is a colon followed by at least one name character,
/// outside character literals, quoted identifiers and comments.
pub open spec fn spec_scan(s: Seq<char>, i: int, m: ScanMode, acc: Seq<char>) -> Seq<Seq<char>>
    decreases s.len() - i, mode_rank(m),
{
    if i < 0 || i >= s.len() {
        if m is Marker && acc.len() > 0 {
            seq![acc]
        } else {
            Seq::empty()
        }
    } else {
        let c = s[i];
        match m {
            ScanMode::Normal => {
                if c == '\'' {
                    spec_scan(s, i + 1, ScanMode::SingleQuote, Seq::empty())
                } else if c == '"' {
                    spec_scan(s, i + 1, ScanMode::DoubleQuote, Seq::empty())
                } else if c == '-' && i + 1 < s.len() && s[i + 1] == '-' {
                    spec_scan(s, i + 2, ScanMode::LineComment, Seq::empty())
                } else if c == '/' && i + 1 < s.len() && s[i + 1] == '*' {
                    spec_scan(s, i + 2, ScanMode::BlockComment, Seq::empty())
                } else if c == ':' {
                    spec_scan(s, i + 1, ScanMode::Marker, Seq::empty())
                } else {
                    spec_scan(s, i + 1, ScanMode::Normal, Seq::empty())
                }
            },
            ScanMode::SingleQuote => {
                if c == '\'' {
                    spec_scan(s, i + 1, ScanMode::Normal, Seq::empty())
                } else {
                    spec_scan(s, i + 1, ScanMode::SingleQuote, Seq::empty())
                }
            },
            ScanMode::DoubleQuote => {
                if c == '"' {
                    spec_scan(s, i + 1, ScanMode::Normal, Seq::empty())
                } else {
                    spec_scan(s, i + 1, ScanMode::DoubleQuote, Seq::empty())
                }
            },
            ScanMode::LineComment => {
                if c == '\n' {
                    spec_scan(s, i + 1, ScanMode::Normal, Seq::empty())
                } else {
                    spec_scan(s, i + 1, ScanMode::LineComment, Seq::empty())
                }
            },
            ScanMode::BlockComment => {
                if c == '*' && i + 1 < s.len() && s[i + 1] == '/' {
                    spec_scan(s, i + 2, ScanMode::Normal, Seq::empty())
                } else {
                    spec_scan(s, i + 1, ScanMode::BlockComment, Seq::empty())
                }
            },
            ScanMode::Marker => {
                if is_ident_char(c) {
                    spec_scan(s, i + 1, ScanMode::Marker, acc.push(c))
                } else if acc.len() > 0 {
                    seq![acc] + spec_scan(s, i, ScanMode::Normal, Seq::empty())
                } else {
                    spec_scan(s, i, ScanMode::Normal, Seq::empty())
                }
            },
        }
    }
}

/// The bind markers of the statement text, in order of occurrence,
/// duplicates kept.
pub open spec fn spec_markers(s: Seq<char>) -> Seq<Seq<char>> {
    spec_scan(s, 0, ScanMode::Normal, Seq::empty())
}

/// The views of a vector of marker names.
pub open spec fn names_view(v: Seq<Vec<char>>) -> Seq<Seq<char>> {
    v.map_values(|n: Vec<char>| n@)
}

/// Scans the statement text for its bind markers.
pub fn scan_markers(s: &Vec<char>) -> (r: Vec<Vec<char>>)
    ensures
        names_view(r@) == spec_markers(s@),
{
    let mut out: Vec<Vec<char>> = Vec::new();
    let mut acc: Vec<char> = Vec::new();
    let mut mode = ScanMode::Normal;
    let mut i: usize = 0;
    loop
        invariant_except_break
            i <= s@.len(),
            mode is Marker ==> i >= 1,
            !(mode is Marker) ==> acc@.len() == 0,
            names_view(out@) + spec_scan(s@, i as int, mode, acc@) == spec_markers(s@),
        ensures
            names_view(out@) == spec_markers(s@),
        decreases s@.len() - i, mode_rank(mode),
    {
        proof {
            if !(mode is Marker) {
                assert(acc@ =~= Seq::<char>::empty());
            }
        }
        if i >= s.len() {
            if mode == ScanMode::Marker && acc.len() > 0 {
                out.push(acc);
                proof {
                    assert(names_view(out@) =~= spec_markers(s@));
                }
            } else {
                proof {
                    assert(names_view(out@) =~= spec_markers(s@));
                }
            }
            break;
        }
        let c = s[i];
        match mode {
            ScanMode::Normal => {
                if c == '\'' {
                    mode = ScanMode::SingleQuote;
                    i = i + 1;
                } else if c == '"' {
                    mode = ScanMode::DoubleQuote;
                    i = i + 1;
                } else if c == '-' && i + 1 < s.len() && s[i + 1] == '-' {
                    mode = ScanMode::LineComment;
                    i = i + 2;
                } else if c == '/' && i + 1 < s.len() && s[i + 1] == '*' {
                    mode = ScanMode::BlockComment;
                    i = i + 2;
                } else if c == ':' {
                    mode = ScanMode::Marker;
                    i = i + 1;
                } else {
                    i = i + 1;
                }
            },
            ScanMode::SingleQuote => {
                if c == '\'' {
                    mode = ScanMode::Normal;
                }
                i = i + 1;
            },
            ScanMode::DoubleQuote => {
                if c == '"' {
                    mode = ScanMode::Normal;
                }
                i = i + 1;
            },
            ScanMode::LineComment => {
                if c == '\n' {
                    mode = ScanMode::Normal;
                }
                i = i + 1;
            },
            ScanMode::BlockComment => {
                if c == '*' && i + 1 < s.len() && s[i + 1] == '/' {
                    mode = ScanMode::Normal;
                    i = i + 2;
                } else {
                    i = i + 1;
                }
            },
            ScanMode::Marker => {
                if ident_char(c) {
                    acc.push(c);
                    i = i + 1;
                } else {
                    if acc.len() > 0 {
                        let ghost pre_out = out@;
                        let ghost pre_acc = acc@;
                        out.push(acc);
                        acc = Vec::new();
                        proof {
                            assert(names_view(out@) =~= names_view(pre_out).push(pre_acc));
                            assert(names_view(pre_out).push(pre_acc) + spec_scan(
                                s@,
                                i as int,
                                ScanMode::Normal,
                                Seq::empty(),
                            ) =~= names_view(pre_out) + (seq![pre_acc] + spec_scan(
                                s@,
                                i as int,
                                ScanMode::Normal,
                                Seq::empty(),
                            )));
                        }
                    } else {
                        acc = Vec::new();
                    }
                    mode = ScanMode::Normal;
                }
            },
        }
    }
    out
}

/// The first-occurrence-order list of the case-folded unique names among
/// the markers: the bind directory's name list.
pub open spec fn spec_unique_upper(ms: Seq<Seq<char>>) -> Seq<Seq<char>>
    decreases ms.len(),
{
    if ms.len() == 0 {
        Seq::empty()
    } else {
        let prefix = spec_unique_upper(ms.drop_last());
        let u = spec_upper(ms.last());
        if prefix.contains(u) {
            prefix
        } else {
            prefix.push(u)
        }
    }
}

/// Deduplication never lengthens the marker list: the unique-name count is
/// at most the marker count.
pub proof fn lemma_unique_upper_len(ms: Seq<Seq<char>>)
    ensures
        spec_unique_upper(ms).len() <= ms.len(),
    decreases ms.len(),
{
    if ms.len() > 0 {
        lemma_unique_upper_len(ms.drop_last());
    }
}

/// Whether two character vectors hold the same characters.
pub fn chars_eq(a: &Vec<char>, b: &Vec<char>) -> (r: bool)
    ensures
        r == (a@ == b@),
{
    if a.len() != b.len() {
        return false;
    }
    let mut i: usize = 0;
    while i < a.len()
        invariant
            i <= a@.len(),
            a@.len() == b@.len(),
            forall|j: int| 0 <= j < i ==> a@[j] == b@[j],
        decreases a@.len() - i,
    {
        if a[i] != b[i] {
            return false;
        }
        i = i + 1;
    }
    proof {
        assert(a@ =~= b@);
    }
    true
}

/// Collects the case-folded unique names among the markers, in
/// first-occurrence order.
pub fn unique_upper(ms: &Vec<Vec<char>>) -> (r: Vec<Vec<char>>)
    ensures
        names_view(r@) == spec_unique_upper(names_view(ms@)),
{
    let mut out: Vec<Vec<char>> = Vec::new();
    let mut i: usize = 0;
    while i < ms.len()
        invariant
            i <= ms@.len(),
            names_view(out@) == spec_unique_upper(names_view(ms@).subrange(0, i as int)),
        decreases ms@.len() - i,
    {
        let u = upper_chars(&ms[i]);
        let mut seen = false;
        let mut j: usize = 0;
        while j < out.len()
            invariant_except_break
                j <= out@.len(),
                !seen,
                forall|k: int| 0 <= k < j ==> names_view(out@)[k] != u@,
            ensures
                seen == names_view(out@).contains(u@),
            decreases out@.len() - j,
        {
            if chars_eq(&out[j], &u) {
                seen = true;
                proof {
                    assert(names_view(out@)[j as int] == u@);
                }
                break;
            }
            j = j + 1;
            proof {
                if j == out@.len() {
                    assert forall|k: int|
                        0 <= k < names_view(out@).len() implies names_view(out@)[k] != u@ by {}
                    assert(!names_view(out@).contains(u@));
                }
            }
        }
        let ghost pre = names_view(out@);
        if !seen {
            out.push(u);
            proof {
                assert(names_view(out@) =~= pre.push(spec_upper(ms@[i as int]@)));
            }
        }
        i = i + 1;
        proof {
            let sub = names_view(ms@).subrange(0, i as int);
            assert(sub.drop_last() =~= names_view(ms@).subrange(0, i - 1));
            assert(sub.last() == ms@[i - 1]@);
            assert(names_view(out@) =~= spec_unique_upper(sub));
        }
    }
    proof {
        assert(names_view(ms@).subrange(0, ms@.len() as int) =~= names_view(ms@));
    }
    out
}

/// The first index at which the list holds the name, if any; resolution
/// takes the first match.
pub open spec fn spec_find_name(names: Seq<Seq<char>>, q: Seq<char>, i: int) -> Option<int>
    decreases names.len() - i,
{
    if i < 0 || i >= names.len() {
        None
    } else if names[i] == q {
        Some(i)
    } else {
        spec_find_name(names, q, i + 1)
    }
}

/// Looks a name up in the list, first match wins.
pub fn find_name(names: &Vec<Vec<char>>, q: &Vec<char>) -> (r: Option<usize>)
    ensures
        match r {
            Some(p) => Some(p as int) == spec_find_name(names_view(names@), q@, 0),
            None => spec_find_name(names_view(names@), q@, 0) is None,
        },
{
    let mut i: usize = 0;
    while i < names.len()
        invariant
            i <= names@.len(),
            spec_find_name(names_view(names@), q@, 0) == spec_find_name(
                names_view(names@),
                q@,
                i as int,
            ),
        decreases names@.len() - i,
    {
        if chars_eq(&names[i], q) {
            proof {
                assert(names_view(names@)[i as int] == q@);
            }
            return Some(i);
        }
        proof {
            assert(names_view(names@)[i as int] != q@);
        }
        i = i + 1;
    }
    None
}

/// Case-insensitive resolution is sound: queries that agree up to case
/// resolve to the same slot, whatever the name list.
pub proof fn lemma_resolution_case_insensitive(names: Seq<Seq<char>>, a: Seq<char>, b: Seq<char>)
    requires
        spec_upper(a) == spec_upper(b),
    ensures
        spec_find_name(names, spec_upper(a), 0) == spec_find_name(names, spec_upper(b), 0),
{
}

/// Resolving the case-fold of an already case-folded name is resolving the
/// name itself: writing a bind under `"val1"` and reading it under
/// `"VAL1"` address one slot.
pub proof fn lemma_fold_then_resolve(names: Seq<Seq<char>>, q: Seq<char>)
    ensures
        spec_find_name(names, spec_upper(spec_upper(q)), 0) == spec_find_name(
            names,
            spec_upper(q),
            0,
        ),
{
    crate::text::lemma_upper_idempotent(q);
}

// ---------------------------------------------------------------------------
// Statement classification
// ---------------------------------------------------------------------------

/// Whether a character is statement whitespace.
pub open spec fn is_ws(c: char) -> bool {
    c == ' ' || c == '\t' || c == '\r' || c == '\n'
}

/// The index of the first non-whitespace character at or after `i`.
pub open spec fn spec_skip_ws(s: Seq<char>, i: int) -> int
    decreases s.len() - i,
{
    if i < 0 || i >= s.len() {
        s.len() as int
    } else if is_ws(s[i]) {
        spec_skip_ws(s, i + 1)
    } else {
        i
    }
}

/// The index just past the run of ASCII letters at `i`.
pub open spec fn spec_word_end(s: Seq<char>, i: int) -> int
    decreases s.len() - i,
{
    if i < 0 || i >= s.len() {
        s.len() as int
    } else if (65 <= s[i] as int && s[i] as int <= 90) || (97 <= s[i] as int && s[i] as int <= 122) {
        spec_word_end(s, i + 1)
    } else {
        i
    }
}

/// The first word of the statement: the run of letters past leading
/// whitespace, case-folded.
pub open spec fn spec_first_word(s: Seq<char>) -> Seq<char> {
    let a = spec_skip_ws(s, 0);
    let b = spec_word_end(s, a);
    spec_upper(s.subrange(a, b))
}

/// Extracts the first word of the statement, case-folded.
pub fn first_word(s: &Vec<char>) -> (r: Vec<char>)
    ensures
        r@ == spec_first_word(s@),
{
    let mut a: usize = 0;
    while a < s.len() && (s[a] == ' ' || s[a] == '\t' || s[a] == '\r' || s[a] == '\n')
        invariant
            0 <= a <= s@.len(),
            spec_skip_ws(s@, 0) == spec_skip_ws(s@, a as int),
        decreases s@.len() - a,
    {
        a = a + 1;
    }
    proof {
        assert(spec_skip_ws(s@, a as int) == a as int);
    }
    let mut b: usize = a;
    while b < s.len() && (('A' <= s[b] && s[b] <= 'Z') || ('a' <= s[b] && s[b] <= 'z'))
        invariant
            a <= b <= s@.len(),
            spec_word_end(s@, a as int) == spec_word_end(s@, b as int),
        decreases s@.len() - b,
    {
        b = b + 1;
    }
    proof {
        assert(spec_word_end(s@, b as int) == b as int);
    }
    let word = crate::text::sub_chars(s, a, b);
    upper_chars(&word)
}

} // verus!
