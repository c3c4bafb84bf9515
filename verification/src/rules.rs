use vstd::prelude::*;
use vstd::string::StrSliceExecFns;

verus! {

// ---------------------------------------------------------------------------
// Character classes
// ---------------------------------------------------------------------------

/// Blank characters merged into a `Whitespace` token: space, tab, CR, LF.
pub open spec fn is_whitespace_char(c: char) -> bool {
    c == ' ' || c == '\t' || c == '\r' || c == '\n'
}

/// Characters that end the run of a line comment: CR, LF and vertical tab.
/// Form feed deliberately does not end the run.
pub open spec fn is_line_break_char(c: char) -> bool {
    c == '\n' || c == '\r' || c == '\u{000b}'
}

/// ASCII letters, the only characters a basic identifier may start with.
pub open spec fn is_letter(c: char) -> bool {
    ('a' <= c && c <= 'z') || ('A' <= c && c <= 'Z')
}

/// ASCII decimal digits.
pub open spec fn is_digit(c: char) -> bool {
    '0' <= c && c <= '9'
}

/// Characters allowed after the leading letter of a basic identifier.
pub open spec fn is_letter_or_digit(c: char) -> bool {
    is_letter(c) || is_digit(c)
}

fn whitespace_char(c: char) -> (b: bool)
    ensures
        b == is_whitespace_char(c),
{
    c == ' ' || c == '\t' || c == '\r' || c == '\n'
}

fn line_break_char(c: char) -> (b: bool)
    ensures
        b == is_line_break_char(c),
{
    c == '\n' || c == '\r' || c == '\u{000b}'
}

fn letter_char(c: char) -> (b: bool)
    ensures
        b == is_letter(c),
{
    ('a' <= c && c <= 'z') || ('A' <= c && c <= 'Z')
}

fn letter_or_digit_char(c: char) -> (b: bool)
    ensures
        b == is_letter_or_digit(c),
{
    letter_char(c) || ('0' <= c && c <= '9')
}

// ---------------------------------------------------------------------------
// Match lengths of the individual rules
// ---------------------------------------------------------------------------
//
// Each rule is modelled by the length of the lexeme it matches at position
// `i` of the input `s`, or `None` where it does not match.  The helper
// functions below recurse from the front, so that a scanning loop unfolds
// them one step per iteration.

/// Length of the run of whitespace characters starting at `i`.
pub open spec fn whitespace_run(s: Seq<char>, i: int) -> int
    decreases s.len() - i,
{
    if 0 <= i < s.len() && is_whitespace_char(s[i]) {
        1 + whitespace_run(s, i + 1)
    } else {
        0
    }
}

/// Length of the run of characters starting at `i` that a line comment
/// swallows: everything up to (not including) the next line break.
pub open spec fn line_comment_run(s: Seq<char>, i: int) -> int
    decreases s.len() - i,
{
    if 0 <= i < s.len() && !is_line_break_char(s[i]) {
        1 + line_comment_run(s, i + 1)
    } else {
        0
    }
}

/// Position just past the first `*/` whose `*` stands at or after `i`, or
/// `None` when no such close exists.
pub open spec fn block_comment_end(s: Seq<char>, i: int) -> Option<int>
    decreases s.len() - i,
{
    if i < 0 || i + 2 > s.len() {
        None
    } else if s[i] == '*' && s[i + 1] == '/' {
        Some(i + 2)
    } else {
        block_comment_end(s, i + 1)
    }
}

/// Length of the tail of a basic identifier starting at `i`: a maximal run
/// of groups, each one letter-or-digit optionally preceded by a single
/// underscore.  An underscore not followed by a letter-or-digit is left
/// unconsumed.
pub open spec fn ident_tail_run(s: Seq<char>, i: int) -> int
    decreases s.len() - i,
{
    if 0 <= i < s.len() && is_letter_or_digit(s[i]) {
        1 + ident_tail_run(s, i + 1)
    } else if 0 <= i && i + 2 <= s.len() && s[i] == '_' && is_letter_or_digit(s[i + 1]) {
        2 + ident_tail_run(s, i + 2)
    } else {
        0
    }
}

/// Position just past the closing backslash of an extended identifier whose
/// interior starts at `i`, under the doubling rule: a doubled backslash is
/// interior text, a single one closes.  Of the closes the rule admits this
/// picks the last, which gives the longest lexeme; `None` when no close is
/// reachable.
pub open spec fn extended_end(s: Seq<char>, i: int) -> Option<int>
    decreases s.len() - i,
{
    if i < 0 || i >= s.len() {
        None
    } else if s[i] != '\\' {
        extended_end(s, i + 1)
    } else if i + 2 <= s.len() && s[i + 1] == '\\' {
        if extended_end(s, i + 2) is Some {
            extended_end(s, i + 2)
        } else {
            Some(i + 1)
        }
    } else {
        Some(i + 1)
    }
}

/// The rules of the table, in priority order.  `rule_match_len(r, s, i)` is
/// the length of the lexeme rule `r` matches at position `i` of `s`, or
/// `None` where the rule does not match.  Rule 0 is whitespace, 1 the line
/// comment, 2 the block comment, 3 the character literal, 4 the basic
/// identifier, 5 the extended identifier, and 6 the single-character
/// fallback, which matches everywhere.
pub open spec fn rule_match_len(r: int, s: Seq<char>, i: int) -> Option<int> {
    if r == 0 {
        if 0 <= i < s.len() && is_whitespace_char(s[i]) {
            Some(whitespace_run(s, i))
        } else {
            None
        }
    } else if r == 1 {
        if 0 <= i && i + 2 <= s.len() && s[i] == '-' && s[i + 1] == '-' {
            Some(2 + line_comment_run(s, i + 2))
        } else {
            None
        }
    } else if r == 2 {
        if 0 <= i && i + 2 <= s.len() && s[i] == '/' && s[i + 1] == '*' {
            match block_comment_end(s, i + 2) {
                Some(e) => Some(e - i),
                None => None,
            }
        } else {
            None
        }
    } else if r == 3 {
        if 0 <= i && i + 3 <= s.len() && s[i] == '\'' && s[i + 2] == '\'' {
            Some(3)
        } else {
            None
        }
    } else if r == 4 {
        if 0 <= i < s.len() && is_letter(s[i]) {
            Some(1 + ident_tail_run(s, i + 1))
        } else {
            None
        }
    } else if r == 5 {
        if 0 <= i < s.len() && s[i] == '\\' {
            match extended_end(s, i + 1) {
                Some(e) => Some(e - i),
                None => None,
            }
        } else {
            None
        }
    } else if r == 6 {
        if 0 <= i < s.len() {
            Some(1)
        } else {
            None
        }
    } else {
        None
    }
}

/// Number of rules in the table.
pub open spec fn rule_count() -> int {
    7
}

/// Lift of an executable match result into the model's option of lengths.
pub open spec fn lift_len(r: Option<usize>) -> Option<int> {
    match r {
        Some(n) => Some(n as int),
        None => None,
    }
}

// ---------------------------------------------------------------------------
// Bounds: every match has length at least 1 and stays inside the input
// ---------------------------------------------------------------------------

pub proof fn lemma_whitespace_run_bounds(s: Seq<char>, i: int)
    requires
        0 <= i <= s.len(),
    ensures
        0 <= whitespace_run(s, i) <= s.len() - i,
    decreases s.len() - i,
{
    if i < s.len() && is_whitespace_char(s[i]) {
        lemma_whitespace_run_bounds(s, i + 1);
    }
}

pub proof fn lemma_line_comment_run_bounds(s: Seq<char>, i: int)
    requires
        0 <= i <= s.len(),
    ensures
        0 <= line_comment_run(s, i) <= s.len() - i,
    decreases s.len() - i,
{
    if i < s.len() && !is_line_break_char(s[i]) {
        lemma_line_comment_run_bounds(s, i + 1);
    }
}

pub proof fn lemma_block_comment_end_bounds(s: Seq<char>, i: int)
    requires
        0 <= i,
        block_comment_end(s, i) is Some,
    ensures
        i + 2 <= block_comment_end(s, i).unwrap() <= s.len(),
    decreases s.len() - i,
{
    if i + 2 > s.len() {
    } else if s[i] == '*' && s[i + 1] == '/' {
    } else {
        lemma_block_comment_end_bounds(s, i + 1);
    }
}

pub proof fn lemma_ident_tail_run_bounds(s: Seq<char>, i: int)
    requires
        0 <= i <= s.len(),
    ensures
        0 <= ident_tail_run(s, i) <= s.len() - i,
    decreases s.len() - i,
{
    if i < s.len() && is_letter_or_digit(s[i]) {
        lemma_ident_tail_run_bounds(s, i + 1);
    } else if i + 2 <= s.len() && s[i] == '_' && is_letter_or_digit(s[i + 1]) {
        lemma_ident_tail_run_bounds(s, i + 2);
    }
}

pub proof fn lemma_extended_end_bounds(s: Seq<char>, i: int)
    requires
        0 <= i,
        extended_end(s, i) is Some,
    ensures
        i + 1 <= extended_end(s, i).unwrap() <= s.len(),
    decreases s.len() - i,
{
    if i >= s.len() {
    } else if s[i] != '\\' {
        lemma_extended_end_bounds(s, i + 1);
    } else if i + 2 <= s.len() && s[i + 1] == '\\' {
        if extended_end(s, i + 2) is Some {
            lemma_extended_end_bounds(s, i + 2);
        }
    }
}

/// Every rule that matches consumes at least one character and no more than
/// the input holds.
pub proof fn lemma_rule_match_bounds(r: int, s: Seq<char>, i: int, l: int)
    requires
        0 <= i <= s.len(),
        rule_match_len(r, s, i) == Some(l),
    ensures
        1 <= l,
        i + l <= s.len(),
{
    if r == 0 {
        lemma_whitespace_run_bounds(s, i + 1);
    } else if r == 1 {
        lemma_line_comment_run_bounds(s, i + 2);
    } else if r == 2 {
        lemma_block_comment_end_bounds(s, i + 2);
    } else if r == 4 {
        lemma_ident_tail_run_bounds(s, i + 1);
    } else if r == 5 {
        lemma_extended_end_bounds(s, i + 1);
    }
}

// ---------------------------------------------------------------------------
// Executable matchers, one per rule
// ---------------------------------------------------------------------------

/// Match length of the whitespace rule at position `pos`.
pub fn match_whitespace(s: &str, len: usize, pos: usize) -> (r: Option<usize>)
    requires
        len == s@.len(),
        pos <= len,
    ensures
        lift_len(r) == rule_match_len(0, s@, pos as int),
{
    if pos < len && whitespace_char(s.get_char(pos)) {
        let mut j = pos + 1;
        while j < len && whitespace_char(s.get_char(j))
            invariant
                pos < j <= len,
                len == s@.len(),
                is_whitespace_char(s@[pos as int]),
                whitespace_run(s@, pos as int) == j - pos + whitespace_run(s@, j as int),
            decreases len - j,
        {
            j = j + 1;
        }
        Some(j - pos)
    } else {
        None
    }
}

/// Match length of the line-comment rule at position `pos`: `--` and then
/// everything up to the next line break.
pub fn match_line_comment(s: &str, len: usize, pos: usize) -> (r: Option<usize>)
    requires
        len == s@.len(),
        pos <= len,
    ensures
        lift_len(r) == rule_match_len(1, s@, pos as int),
{
    if len - pos >= 2 && s.get_char(pos) == '-' && s.get_char(pos + 1) == '-' {
        let mut j = pos + 2;
        while j < len && !line_break_char(s.get_char(j))
            invariant
                pos + 2 <= j <= len,
                len == s@.len(),
                line_comment_run(s@, pos as int + 2) == j - pos - 2 + line_comment_run(
                    s@,
                    j as int,
                ),
            decreases len - j,
        {
            j = j + 1;
        }
        Some(j - pos)
    } else {
        None
    }
}

/// Match length of the block-comment rule at position `pos`: `/*`, then the
/// shortest interior, then the first `*/`.  No match when no close exists.
pub fn match_block_comment(s: &str, len: usize, pos: usize) -> (r: Option<usize>)
    requires
        len == s@.len(),
        pos <= len,
    ensures
        lift_len(r) == rule_match_len(2, s@, pos as int),
{
    if len - pos >= 2 && s.get_char(pos) == '/' && s.get_char(pos + 1) == '*' {
        let mut j = pos + 2;
        loop
            invariant
                pos + 2 <= j <= len,
                len == s@.len(),
                s@[pos as int] == '/',
                s@[pos as int + 1] == '*',
                block_comment_end(s@, pos as int + 2) == block_comment_end(s@, j as int),
            ensures
                block_comment_end(s@, pos as int + 2) is None,
            decreases len - j,
        {
            if len - j < 2 {
                break;
            }
            if s.get_char(j) == '*' && s.get_char(j + 1) == '/' {
                return Some(j + 2 - pos);
            }
            j = j + 1;
        }
        None
    } else {
        None
    }
}

/// Match length of the character-literal rule at position `pos`: a quote,
/// any one character, a quote.
pub fn match_char_literal(s: &str, len: usize, pos: usize) -> (r: Option<usize>)
    requires
        len == s@.len(),
        pos <= len,
    ensures
        lift_len(r) == rule_match_len(3, s@, pos as int),
{
    if len - pos >= 3 && s.get_char(pos) == '\'' && s.get_char(pos + 2) == '\'' {
        Some(3)
    } else {
        None
    }
}

/// Match length of the basic-identifier rule at position `pos`: a letter,
/// then groups of an optional underscore and one letter-or-digit.
pub fn match_basic_ident(s: &str, len: usize, pos: usize) -> (r: Option<usize>)
    requires
        len == s@.len(),
        pos <= len,
    ensures
        lift_len(r) == rule_match_len(4, s@, pos as int),
{
    if pos < len && letter_char(s.get_char(pos)) {
        let mut j = pos + 1;
        loop
            invariant
                pos < j <= len,
                len == s@.len(),
                is_letter(s@[pos as int]),
                ident_tail_run(s@, pos as int + 1) == j - pos - 1 + ident_tail_run(s@, j as int),
            ensures
                ident_tail_run(s@, pos as int + 1) == j - pos - 1,
            decreases len - j,
        {
            if j < len && letter_or_digit_char(s.get_char(j)) {
                j = j + 1;
            } else if len - j >= 2 && s.get_char(j) == '_' && letter_or_digit_char(
                s.get_char(j + 1),
            ) {
                j = j + 2;
            } else {
                break;
            }
        }
        Some(j - pos)
    } else {
        None
    }
}

/// Match length of the extended-identifier rule at position `pos`: a leading
/// backslash, an interior in which every literal backslash is doubled, and a
/// single closing backslash.  Picks the longest reachable close; no match
/// when none is reachable.
pub fn match_extended_ident(s: &str, len: usize, pos: usize) -> (r: Option<usize>)
    requires
        len == s@.len(),
        pos <= len,
    ensures
        lift_len(r) == rule_match_len(5, s@, pos as int),
{
    if pos < len && s.get_char(pos) == '\\' {
        let mut j = pos + 1;
        let mut fallback: Option<usize> = None;
        loop
            invariant
                pos < j <= len,
                len == s@.len(),
                s@[pos as int] == '\\',
                extended_end(s@, pos as int + 1) == (match extended_end(s@, j as int) {
                    Some(e) => Some(e),
                    None => lift_len(fallback),
                }),
                fallback matches Some(e) ==> pos < e <= len,
            ensures
                extended_end(s@, pos as int + 1) == lift_len(fallback),
                fallback matches Some(e) ==> pos < e <= len,
            decreases len - j,
        {
            if j >= len {
                break;
            }
            if s.get_char(j) != '\\' {
                j = j + 1;
            } else if len - j >= 2 && s.get_char(j + 1) == '\\' {
                fallback = Some(j + 1);
                j = j + 2;
            } else {
                return Some(j + 1 - pos);
            }
        }
        match fallback {
            Some(e) => Some(e - pos),
            None => None,
        }
    } else {
        None
    }
}

} // verus!
