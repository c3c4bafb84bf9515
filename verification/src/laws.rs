use crate::rules::{rule_count, rule_match_len};
use crate::scanner::{
    chosen_len, chosen_rule, classify, lemma_best_upto, lemma_progress, lex, lex_from,
};
use crate::token::TokenModel;
use vstd::prelude::*;

verus! {

/// Concatenation, in order, of the lexemes of a token stream.
pub open spec fn concat_lexemes(ts: Seq<(TokenModel, Seq<char>)>) -> Seq<char>
    decreases ts.len(),
{
    if ts.len() == 0 {
        Seq::empty()
    } else {
        ts[0].1 + concat_lexemes(ts.drop_first())
    }
}

/// Concatenating the lexemes produced from position `i` onwards yields the
/// input from `i` onwards: the stream leaves no gaps and makes no overlaps.
pub proof fn lemma_round_trip_from(s: Seq<char>, i: int)
    requires
        0 <= i <= s.len(),
    ensures
        concat_lexemes(lex_from(s, i)) == s.skip(i),
    decreases s.len() - i,
{
    if i >= s.len() {
        assert(concat_lexemes(lex_from(s, i)) =~= s.skip(i));
    } else {
        lemma_progress(s, i);
        let l = chosen_len(s, i);
        lemma_round_trip_from(s, i + l);
        let head = (classify(chosen_rule(s, i), s, i, l), s.subrange(i, i + l));
        assert(lex_from(s, i) == seq![head] + lex_from(s, i + l));
        assert((seq![head] + lex_from(s, i + l)).drop_first() =~= lex_from(s, i + l));
        assert(concat_lexemes(lex_from(s, i)) == s.subrange(i, i + l) + concat_lexemes(
            lex_from(s, i + l),
        ));
        assert(s.subrange(i, i + l) + s.skip(i + l) =~= s.skip(i));
    }
}

/// Coverage and round trip: for every input, concatenating all lexemes of
/// its token stream, in order, reproduces the input character for character.
pub proof fn lemma_round_trip(s: Seq<char>)
    ensures
        concat_lexemes(lex(s)) == s,
{
    lemma_round_trip_from(s, 0);
    assert(s.skip(0) =~= s);
}

/// Totality and termination: every finite input has a finite token stream,
/// with no more tokens than the input has characters.  The stream is defined
/// for every input — no input makes it diverge — and it is empty exactly
/// when the input is.
pub proof fn lemma_finite_from(s: Seq<char>, i: int)
    requires
        0 <= i <= s.len(),
    ensures
        lex_from(s, i).len() <= s.len() - i,
        lex_from(s, i).len() == 0 <==> i == s.len(),
    decreases s.len() - i,
{
    if i < s.len() {
        lemma_progress(s, i);
        lemma_finite_from(s, i + chosen_len(s, i));
    }
}

/// Totality and termination, stated of a whole input.
pub proof fn lemma_finite(s: Seq<char>)
    ensures
        lex(s).len() <= s.len(),
{
    lemma_finite_from(s, 0);
}

/// Determinism: lexing identical input yields identical token streams.  The
/// stream is a function of the input characters alone.
pub proof fn lemma_deterministic(s: Seq<char>, t: Seq<char>)
    requires
        s == t,
    ensures
        lex(s) == lex(t),
{
}

/// Maximal munch: at every position the chosen match is the longest any rule
/// achieves, and among the rules achieving that length the chosen rule is
/// the one declared earliest.
pub proof fn lemma_maximal_munch(s: Seq<char>, i: int, r: int, l: int)
    requires
        0 <= i < s.len(),
        0 <= r < rule_count(),
        rule_match_len(r, s, i) == Some(l),
    ensures
        rule_match_len(chosen_rule(s, i), s, i) == Some(chosen_len(s, i)),
        l <= chosen_len(s, i),
        l == chosen_len(s, i) ==> chosen_rule(s, i) <= r,
{
    lemma_progress(s, i);
    lemma_best_upto(rule_count(), s, i);
}

/// Forward progress: at every position inside the input a token is
/// produced, and its lexeme consumes at least one character.
pub proof fn lemma_forward_progress(s: Seq<char>, i: int)
    requires
        0 <= i < s.len(),
    ensures
        1 <= chosen_len(s, i),
        i + chosen_len(s, i) <= s.len(),
        lex_from(s, i).len() > 0,
        lex_from(s, i)[0].1.len() >= 1,
{
    lemma_progress(s, i);
    let l = chosen_len(s, i);
    assert(lex_from(s, i)[0].1 == s.subrange(i, i + l));
}

} // verus!
