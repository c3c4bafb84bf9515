use crate::rules::{
    lemma_rule_match_bounds, match_basic_ident, match_block_comment, match_char_literal,
    match_extended_ident, match_line_comment, match_whitespace, rule_count, rule_match_len,
};
use crate::token::{Token, TokenModel};
use vstd::prelude::*;
use vstd::string::StrSliceExecFns;
use vstd::string::StringExecFns;

verus! {

// ---------------------------------------------------------------------------
// Choosing a rule: longest match first, earliest rule on a tie
// ---------------------------------------------------------------------------

/// The best match among the first `n` rules of the table: the rule with the
/// longest match, and on equal lengths the one declared first.  A later rule
/// replaces an earlier one only with a strictly longer match.
pub open spec fn best_upto(n: int, s: Seq<char>, i: int) -> Option<(int, int)>
    decreases n,
{
    if n <= 0 {
        None
    } else {
        let prev = best_upto(n - 1, s, i);
        match rule_match_len(n - 1, s, i) {
            None => prev,
            Some(l) => match prev {
                None => Some((n - 1, l)),
                Some(p) => if l > p.1 {
                    Some((n - 1, l))
                } else {
                    Some(p)
                },
            },
        }
    }
}

/// The rule and match length the scanner picks at position `i`.  For a
/// position inside the input this is always defined, because the fallback
/// rule matches everywhere; the default arm is never reached there.
pub open spec fn chosen(s: Seq<char>, i: int) -> (int, int) {
    match best_upto(rule_count(), s, i) {
        Some(p) => p,
        None => (rule_count() - 1, 1),
    }
}

pub open spec fn chosen_rule(s: Seq<char>, i: int) -> int {
    chosen(s, i).0
}

pub open spec fn chosen_len(s: Seq<char>, i: int) -> int {
    chosen(s, i).1
}

/// What `best_upto` returns is a real match, and it dominates every match
/// among the first `n` rules: no rule matches longer, and a rule that
/// matches equally long does not come earlier in the table.
pub proof fn lemma_best_upto(n: int, s: Seq<char>, i: int)
    requires
        0 <= n,
        0 <= i <= s.len(),
    ensures
        match best_upto(n, s, i) {
            Some(p) => {
                &&& 0 <= p.0 < n
                &&& rule_match_len(p.0, s, i) == Some(p.1)
                &&& forall|r: int|
                    0 <= r < n && #[trigger] rule_match_len(r, s, i) is Some ==> {
                        &&& rule_match_len(r, s, i).unwrap() <= p.1
                        &&& rule_match_len(r, s, i).unwrap() == p.1 ==> p.0 <= r
                    }
            },
            None => forall|r: int| 0 <= r < n ==> #[trigger] rule_match_len(r, s, i) is None,
        },
    decreases n,
{
    if n > 0 {
        lemma_best_upto(n - 1, s, i);
    }
}

/// At every position inside the input the scanner finds a match, it is a
/// match of the chosen rule, and it consumes at least one character without
/// running past the end of the input.
pub proof fn lemma_progress(s: Seq<char>, i: int)
    requires
        0 <= i < s.len(),
    ensures
        best_upto(rule_count(), s, i) == Some((chosen_rule(s, i), chosen_len(s, i))),
        0 <= chosen_rule(s, i) < rule_count(),
        rule_match_len(chosen_rule(s, i), s, i) == Some(chosen_len(s, i)),
        1 <= chosen_len(s, i),
        i + chosen_len(s, i) <= s.len(),
{
    lemma_best_upto(rule_count(), s, i);
    assert(rule_match_len(rule_count() - 1, s, i) == Some(1int));
    lemma_rule_match_bounds(chosen_rule(s, i), s, i, chosen_len(s, i));
}

// ---------------------------------------------------------------------------
// Classifying the chosen lexeme
// ---------------------------------------------------------------------------

/// The decoded text of an extended-identifier lexeme `s[i..end]`: the lexeme
/// with every doubled backslash collapsed to a single one, scanning from the
/// left.
pub open spec fn decode_range(s: Seq<char>, i: int, end: int) -> Seq<char>
    decreases end - i,
{
    if i < 0 || i >= end || end > s.len() {
        Seq::empty()
    } else if i + 2 <= end && s[i] == '\\' && s[i + 1] == '\\' {
        seq![s[i]] + decode_range(s, i + 2, end)
    } else {
        seq![s[i]] + decode_range(s, i + 1, end)
    }
}

/// The token that rule `r` makes of the lexeme of length `l` standing at
/// position `i` of `s`.  Rule 0 is whitespace; rules 1 and 2 are the two
/// comment forms, indistinguishable in the result; rule 3 carries the quoted
/// character; rule 4 carries the lexeme verbatim; rule 5 carries the lexeme
/// with its backslash escapes collapsed; rule 6 is the fallback.
pub open spec fn classify(r: int, s: Seq<char>, i: int, l: int) -> TokenModel {
    if r == 0 {
        TokenModel::Whitespace
    } else if r == 1 || r == 2 {
        TokenModel::Comment
    } else if r == 3 {
        TokenModel::CharacterLiteral(s[i + 1])
    } else if r == 4 {
        TokenModel::Identifier(s.subrange(i, i + l))
    } else if r == 5 {
        TokenModel::Identifier(decode_range(s, i, i + l))
    } else {
        TokenModel::Unknown
    }
}

// ---------------------------------------------------------------------------
// The token stream of an input
// ---------------------------------------------------------------------------

/// The full stream of (token, lexeme) pairs the scanner produces from
/// position `i` to the end of the input.  Each step consumes the chosen
/// match, so the stream is finite.
pub open spec fn lex_from(s: Seq<char>, i: int) -> Seq<(TokenModel, Seq<char>)>
    decreases s.len() - i,
{
    if i < 0 || i >= s.len() {
        Seq::empty()
    } else {
        let l = chosen_len(s, i);
        if 1 <= l && i + l <= s.len() {
            seq![(classify(chosen_rule(s, i), s, i, l), s.subrange(i, i + l))] + lex_from(s, i + l)
        } else {
            Seq::empty()
        }
    }
}

/// The stream of an entire input, from its first character.
pub open spec fn lex(s: Seq<char>) -> Seq<(TokenModel, Seq<char>)> {
    lex_from(s, 0)
}

// ---------------------------------------------------------------------------
// The executable scanner
// ---------------------------------------------------------------------------

/// Relates the running state of the selection fold to the model: after the
/// first `n` rules were tried, the state holds exactly `best_upto(n, s, i)`.
spec fn fold_state(have: bool, rule: usize, length: usize, n: int, s: Seq<char>, i: int) -> bool {
    if have {
        best_upto(n, s, i) == Some((rule as int, length as int))
    } else {
        best_upto(n, s, i) is None
    }
}

/// Tries every rule at position `pos` and picks the winner: the longest
/// match, and on a tie the rule declared earliest.
fn scan_at(s: &str, len: usize, pos: usize) -> (r: (usize, usize))
    requires
        len == s@.len(),
        pos < len,
    ensures
        r.0 as int == chosen_rule(s@, pos as int),
        r.1 as int == chosen_len(s@, pos as int),
        1 <= r.1,
        pos + r.1 <= len,
{
    let m0 = match_whitespace(s, len, pos);
    let m1 = match_line_comment(s, len, pos);
    let m2 = match_block_comment(s, len, pos);
    let m3 = match_char_literal(s, len, pos);
    let m4 = match_basic_ident(s, len, pos);
    let m5 = match_extended_ident(s, len, pos);

    let mut have: bool = false;
    let mut rule: usize = 0;
    let mut length: usize = 0;

    match m0 {
        Some(l) => {
            have = true;
            rule = 0;
            length = l;
        },
        None => {},
    }
    proof {
        assert(best_upto(0, s@, pos as int) is None);
        assert(fold_state(have, rule, length, 1, s@, pos as int));
    }
    match m1 {
        Some(l) => if !have || l > length {
            have = true;
            rule = 1;
            length = l;
        },
        None => {},
    }
    proof {
        assert(fold_state(have, rule, length, 2, s@, pos as int));
    }
    match m2 {
        Some(l) => if !have || l > length {
            have = true;
            rule = 2;
            length = l;
        },
        None => {},
    }
    proof {
        assert(fold_state(have, rule, length, 3, s@, pos as int));
    }
    match m3 {
        Some(l) => if !have || l > length {
            have = true;
            rule = 3;
            length = l;
        },
        None => {},
    }
    proof {
        assert(fold_state(have, rule, length, 4, s@, pos as int));
    }
    match m4 {
        Some(l) => if !have || l > length {
            have = true;
            rule = 4;
            length = l;
        },
        None => {},
    }
    proof {
        assert(fold_state(have, rule, length, 5, s@, pos as int));
    }
    match m5 {
        Some(l) => if !have || l > length {
            have = true;
            rule = 5;
            length = l;
        },
        None => {},
    }
    proof {
        assert(fold_state(have, rule, length, 6, s@, pos as int));
    }
    // The fallback rule always matches one character.
    if !have || 1 > length {
        have = true;
        rule = 6;
        length = 1;
    }
    proof {
        assert(rule_match_len(6, s@, pos as int) == Some(1int));
        assert(fold_state(have, rule, length, 7, s@, pos as int));
        lemma_progress(s@, pos as int);
    }
    (rule, length)
}

/// Decodes the extended-identifier lexeme `s[from..to]`: copies it while
/// collapsing every doubled backslash into a single one.
fn decode_extended(s: &str, len: usize, from: usize, to: usize) -> (out: String)
    requires
        len == s@.len(),
        from <= to <= len,
    ensures
        out@ == decode_range(s@, from as int, to as int),
{
    let mut out = String::new();
    let mut j = from;
    while j < to
        invariant
            from <= j <= to <= len,
            len == s@.len(),
            decode_range(s@, from as int, to as int) == out@ + decode_range(
                s@,
                j as int,
                to as int,
            ),
        decreases to - j,
    {
        let piece = s.substring_char(j, j + 1);
        proof {
            assert(piece@ =~= seq![s@[j as int]]);
        }
        let ghost prev = out@;
        if to - j >= 2 && s.get_char(j) == '\\' && s.get_char(j + 1) == '\\' {
            out.append(piece);
            j = j + 2;
        } else {
            out.append(piece);
            j = j + 1;
        }
        proof {
            assert(prev + (seq![s@[j as int - 1]] + decode_range(s@, j as int, to as int))
                =~= (prev + seq![s@[j as int - 1]]) + decode_range(s@, j as int, to as int));
            assert(prev + (seq![s@[j as int - 2]] + decode_range(s@, j as int, to as int))
                =~= (prev + seq![s@[j as int - 2]]) + decode_range(s@, j as int, to as int));
        }
    }
    proof {
        assert(out@ + decode_range(s@, j as int, to as int) =~= out@);
    }
    out
}

// ---------------------------------------------------------------------------
// The lexer: a cursor over one input
// ---------------------------------------------------------------------------

/// A pull-based token sequence over one input string.  `pos` is the cursor:
/// everything before it has been consumed, and the tokens still to come are
/// exactly `lex_from(input@, pos)`.
pub struct Lexer<'a> {
    pub input: &'a str,
    pub len: usize,
    pub pos: usize,
}

impl<'a> Lexer<'a> {
    /// The cursor never leaves the input, and `len` caches the input's
    /// length in characters.
    pub open spec fn wf(&self) -> bool {
        self.pos <= self.len && self.len as int == self.input@.len()
    }

    /// The (token, lexeme) pairs still to be produced.
    pub open spec fn remaining(&self) -> Seq<(TokenModel, Seq<char>)> {
        lex_from(self.input@, self.pos as int)
    }

    /// A lexer standing at the start of `input`.
    pub fn new(input: &'a str) -> (r: Lexer<'a>)
        ensures
            r.wf(),
            r.input@ == input@,
            r.pos == 0,
    {
        let len = input.unicode_len();
        Lexer { input, len, pos: 0 }
    }

    /// Produces the next token, or `None` once the input is exhausted.
    /// Every call on a non-empty remainder consumes at least one character.
    pub fn next(&mut self) -> (r: Option<Token>)
        requires
            old(self).wf(),
        ensures
            final(self).wf(),
            final(self).input@ == old(self).input@,
            old(self).pos >= old(self).len ==> r is None && final(self).pos == old(self).pos,
            old(self).pos < old(self).len ==> {
                &&& old(self).remaining().len() > 0
                &&& r matches Some(t) && t@ == old(self).remaining()[0].0
                &&& final(self).pos == old(self).pos + old(self).remaining()[0].1.len()
                &&& old(self).pos < final(self).pos
                &&& final(self).remaining() == old(self).remaining().drop_first()
            },
    {
        match next_token(self) {
            Some((token, _)) => Some(token),
            None => None,
        }
    }
}

/// One scanner step: produces the next (token, lexeme) pair and advances the
/// cursor past the lexeme, or returns `None` once the input is exhausted.
pub fn next_token<'a>(lexer: &mut Lexer<'a>) -> (r: Option<(Token, String)>)
    requires
        old(lexer).wf(),
    ensures
        final(lexer).wf(),
        final(lexer).input@ == old(lexer).input@,
        old(lexer).pos >= old(lexer).len ==> r is None && final(lexer).pos == old(lexer).pos,
        old(lexer).pos < old(lexer).len ==> {
            &&& old(lexer).remaining().len() > 0
            &&& r matches Some(p) && (p.0@ == old(lexer).remaining()[0].0 && p.1@ == old(
                lexer,
            ).remaining()[0].1)
            &&& final(lexer).pos == old(lexer).pos + old(lexer).remaining()[0].1.len()
            &&& old(lexer).pos < final(lexer).pos
            &&& final(lexer).remaining() == old(lexer).remaining().drop_first()
        },
{
    if lexer.pos >= lexer.len {
        return None;
    }
    let ghost s = lexer.input@;
    let ghost i = lexer.pos as int;
    proof {
        // Ties the chosen rule to its own match, so that each branch below
        // knows the length the rule matched.
        lemma_progress(s, i);
    }
    let (rule, length) = scan_at(lexer.input, lexer.len, lexer.pos);
    let end = lexer.pos + length;
    let lexeme = lexer.input.substring_char(lexer.pos, end);
    let lexeme_string = lexeme.to_owned();
    let token: Token = if rule == 0 {
        Token::Whitespace
    } else if rule == 1 || rule == 2 {
        Token::Comment
    } else if rule == 3 {
        Token::CharacterLiteral(lexer.input.get_char(lexer.pos + 1))
    } else if rule == 4 {
        Token::Identifier(lexeme.to_owned())
    } else if rule == 5 {
        Token::Identifier(decode_extended(lexer.input, lexer.len, lexer.pos, end))
    } else {
        Token::Unknown
    };
    lexer.pos = end;
    proof {
        let l = chosen_len(s, i);
        assert(lex_from(s, i) == seq![(classify(chosen_rule(s, i), s, i, l), s.subrange(i, i + l))]
            + lex_from(s, i + l));
        assert(lex_from(s, i).drop_first() =~= lex_from(s, i + l));
        assert(token@ == classify(chosen_rule(s, i), s, i, l));
    }
    Some((token, lexeme_string))
}

} // verus!
