//! Laws of the token sequence: what the lexical rules imply for whole
//! sources.

use vstd::prelude::*;

use crate::lexical::{
    decimal_value, is_pair, lemma_run_end, lemma_run_end_is, lemma_token_end, lexeme_end,
    lexeme_kind, run_end, symbol_kind, token_at, token_end, token_start, tokens, tokens_from,
    CharClass,
};
use crate::token::{SpecKind, SpecToken};
use crate::utils::{is_digit, is_letter, spec_is_whitespace};

verus! {

/// The end-of-input token.
pub open spec fn end_of_input() -> SpecToken {
    SpecToken { kind: SpecKind::Eof, literal: Seq::empty() }
}

/// The token that a single-character token's character is by itself.
pub open spec fn symbol_token(ch: char) -> SpecToken {
    SpecToken { kind: symbol_kind(ch).unwrap(), literal: seq![ch] }
}

/// A text made of the characters that are a token by themselves, in which
/// no two neighbours spell `==` or `!=`.
pub open spec fn is_symbols(src: Seq<char>) -> bool {
    &&& forall|i: int| 0 <= i < src.len() ==> (#[trigger] symbol_kind(src[i])) is Some
    &&& forall|i: int| 0 <= i < src.len() ==> !#[trigger] is_pair(src, i)
}

/// A text of whitespace.
pub open spec fn is_blank(text: Seq<char>) -> bool {
    forall|i: int| 0 <= i < text.len() ==> spec_is_whitespace(#[trigger] text[i])
}

/// Whether `pos` lies between two of the tokens that are read from `from`
/// on: at the end of one of them, at the beginning of the next, or in the
/// whitespace between the two; before the first or after the last.
pub open spec fn between_tokens(src: Seq<char>, from: int, pos: int) -> bool
    decreases src.len() - from,
    when 0 <= from <= src.len()
{
    ||| from <= pos <= token_start(src, from)
    ||| {
        &&& token_start(src, from) < src.len()
        &&& token_end(src, from) <= pos
        &&& {
            proof {
                lemma_token_end(src, from);
            }
            between_tokens(src, token_end(src, from), pos)
        }
    }
}

/// The tokens that follow once the end of the input is reached are all the
/// end-of-input token, and the position stays.
pub proof fn lemma_end_of_input_repeats(src: Seq<char>, pos: int)
    requires
        0 <= pos <= src.len(),
        token_at(src, pos).kind == SpecKind::Eof,
    ensures
        token_at(src, pos) == end_of_input(),
        token_end(src, pos) == src.len(),
        token_at(src, token_end(src, pos)) == end_of_input(),
        token_end(src, token_end(src, pos)) == token_end(src, pos),
{
    lemma_token_end(src, pos);
    lemma_token_end(src, src.len() as int);
}

/// What a token carries is what its literal spells: an identifier's name is
/// its literal, and an integer's value is the decimal value of its literal.
pub proof fn lemma_payload_is_literal(src: Seq<char>, pos: int)
    requires
        0 <= pos <= src.len(),
    ensures
        match token_at(src, pos).kind {
            SpecKind::Ident(name) => name == token_at(src, pos).literal,
            SpecKind::Int(value) => value == decimal_value(token_at(src, pos).literal) && value
                <= usize::MAX,
            _ => true,
        },
{
}

/// The tokens of a source are finitely many, at most one for each character
/// and one more; the last of them is the end-of-input token and no other is.
pub proof fn lemma_tokens_end_with_end_of_input(src: Seq<char>, pos: int)
    requires
        0 <= pos <= src.len(),
    ensures
        1 <= tokens_from(src, pos).len() <= src.len() - pos + 1,
        tokens_from(src, pos).last() == end_of_input(),
        forall|i: int|
            0 <= i < tokens_from(src, pos).len() - 1 ==> (#[trigger] tokens_from(src, pos)[i]).kind
                != SpecKind::Eof,
    decreases src.len() - pos,
{
    lemma_token_end(src, pos);
    if token_start(src, pos) < src.len() {
        lemma_tokens_end_with_end_of_input(src, token_end(src, pos));
    }
}

/// A text of single-character tokens is read as these tokens, one for each
/// character, and the end-of-input token after them.
pub proof fn lemma_symbols_are_tokens(src: Seq<char>)
    requires
        is_symbols(src),
    ensures
        tokens(src) == src.map_values(|ch: char| symbol_token(ch)).push(end_of_input()),
{
    lemma_symbols_from(src, 0);
    assert(src.subrange(0, src.len() as int) =~= src);
}

proof fn lemma_symbols_from(src: Seq<char>, pos: int)
    requires
        is_symbols(src),
        0 <= pos <= src.len(),
    ensures
        tokens_from(src, pos) == src.subrange(pos, src.len() as int).map_values(
            |ch: char| symbol_token(ch),
        ).push(end_of_input()),
    decreases src.len() - pos,
{
    let expected = src.subrange(pos, src.len() as int).map_values(|ch: char| symbol_token(ch)).push(
        end_of_input(),
    );
    if pos < src.len() {
        assert(symbol_kind(src[pos]) is Some);
        assert(!is_pair(src, pos));
        assert(token_start(src, pos) == pos);
        assert(lexeme_end(src, pos) == pos + 1);
        assert(src.subrange(pos, pos + 1) =~= seq![src[pos]]);
        assert(token_at(src, pos) == symbol_token(src[pos]));
        lemma_symbols_from(src, pos + 1);
        let rest = src.subrange(pos + 1, src.len() as int).map_values(
            |ch: char| symbol_token(ch),
        ).push(end_of_input());
        assert(expected =~= seq![symbol_token(src[pos])] + rest);
    } else {
        assert(token_start(src, pos) == pos);
        assert(expected =~= seq![end_of_input()]);
    }
}

/// Two sources that are the same from `at1` in the one and from `at2` in the
/// other on.
pub open spec fn same_rest(s1: Seq<char>, at1: int, s2: Seq<char>, at2: int) -> bool {
    &&& 0 <= at1 <= s1.len()
    &&& 0 <= at2 <= s2.len()
    &&& s1.subrange(at1, s1.len() as int) == s2.subrange(at2, s2.len() as int)
}

/// Two sources with the same rest hold the same characters in it.
proof fn lemma_same_rest_at(s1: Seq<char>, at1: int, s2: Seq<char>, at2: int, i: int)
    requires
        same_rest(s1, at1, s2, at2),
        0 <= i < s1.len() - at1,
    ensures
        s1.len() - at1 == s2.len() - at2,
        s1[at1 + i] == s2[at2 + i],
{
    let r1 = s1.subrange(at1, s1.len() as int);
    let r2 = s2.subrange(at2, s2.len() as int);
    assert(r1.len() == r2.len());
    assert(r1[i] == s1[at1 + i]);
    assert(r2[i] == s2[at2 + i]);
}

/// A run depends only on the text from its beginning on.
proof fn lemma_run_of_same_rest(
    s1: Seq<char>,
    at1: int,
    s2: Seq<char>,
    at2: int,
    class: CharClass,
)
    requires
        same_rest(s1, at1, s2, at2),
    ensures
        run_end(s1, class, at1) - at1 == run_end(s2, class, at2) - at2,
{
    lemma_run_end(s1, class, at1);
    let e1 = run_end(s1, class, at1);
    let e2 = at2 + (e1 - at1);
    assert(s1.subrange(at1, s1.len() as int).len() == s2.subrange(at2, s2.len() as int).len());
    assert forall|i: int| at2 <= i < e2 implies class.contains(#[trigger] s2[i]) by {
        lemma_same_rest_at(s1, at1, s2, at2, i - at2);
    }
    if e2 < s2.len() {
        lemma_same_rest_at(s1, at1, s2, at2, e1 - at1);
    }
    lemma_run_end_is(s2, class, at2, e2);
}

/// The rest of the rest is the same too.
proof fn lemma_same_rest_further(s1: Seq<char>, at1: int, s2: Seq<char>, at2: int, step: int)
    requires
        same_rest(s1, at1, s2, at2),
        0 <= step <= s1.len() - at1,
    ensures
        same_rest(s1, at1 + step, s2, at2 + step),
{
    let r1 = s1.subrange(at1, s1.len() as int);
    let r2 = s2.subrange(at2, s2.len() as int);
    assert(r1.len() == r2.len());
    assert(s1.subrange(at1 + step, s1.len() as int) =~= r1.subrange(step, r1.len() as int));
    assert(s2.subrange(at2 + step, s2.len() as int) =~= r2.subrange(step, r2.len() as int));
}

/// A token depends only on the text from the position on from which it is
/// read.
pub proof fn lemma_token_of_same_rest(s1: Seq<char>, at1: int, s2: Seq<char>, at2: int)
    requires
        same_rest(s1, at1, s2, at2),
    ensures
        token_at(s1, at1) == token_at(s2, at2),
        token_start(s1, at1) - at1 == token_start(s2, at2) - at2,
        token_end(s1, at1) - at1 == token_end(s2, at2) - at2,
{
    assert(s1.subrange(at1, s1.len() as int).len() == s2.subrange(at2, s2.len() as int).len());
    lemma_run_of_same_rest(s1, at1, s2, at2, CharClass::Blank);
    lemma_run_end(s1, CharClass::Blank, at1);
    let b1 = token_start(s1, at1);
    let b2 = token_start(s2, at2);
    lemma_same_rest_further(s1, at1, s2, at2, b1 - at1);
    if b1 < s1.len() {
        lemma_run_of_same_rest(s1, b1, s2, b2, CharClass::Word);
        lemma_run_of_same_rest(s1, b1, s2, b2, CharClass::Digit);
        lemma_run_end(s1, CharClass::Word, b1);
        lemma_run_end(s1, CharClass::Digit, b1);
        lemma_run_end(s2, CharClass::Word, b2);
        lemma_run_end(s2, CharClass::Digit, b2);
        lemma_same_rest_at(s1, b1, s2, b2, 0);
        if b1 + 1 < s1.len() {
            lemma_same_rest_at(s1, b1, s2, b2, 1);
        }
        assert(is_pair(s1, b1) == is_pair(s2, b2));
        let e1 = lexeme_end(s1, b1);
        let e2 = lexeme_end(s2, b2);
        assert(e1 - b1 == e2 - b2);
        assert(s1.subrange(b1, e1) =~= s2.subrange(b2, e2)) by {
            assert forall|i: int| 0 <= i < e1 - b1 implies s1.subrange(b1, e1)[i] == s2.subrange(
                b2,
                e2,
            )[i] by {
                lemma_same_rest_at(s1, b1, s2, b2, i);
            }
        }
        assert(lexeme_kind(s1, b1) == lexeme_kind(s2, b2));
    }
}

/// The tokens from a position on depend only on the text from that position
/// on.
pub proof fn lemma_tokens_of_same_rest(s1: Seq<char>, at1: int, s2: Seq<char>, at2: int)
    requires
        same_rest(s1, at1, s2, at2),
    ensures
        tokens_from(s1, at1) == tokens_from(s2, at2),
    decreases s1.len() - at1,
{
    lemma_token_of_same_rest(s1, at1, s2, at2);
    lemma_token_end(s1, at1);
    lemma_token_end(s2, at2);
    if token_start(s1, at1) < s1.len() {
        let e1 = token_end(s1, at1);
        lemma_same_rest_further(s1, at1, s2, at2, e1 - at1);
        lemma_tokens_of_same_rest(s1, e1, s2, token_end(s2, at2));
    }
}

/// The whitespace before a token is not part of what is read: reading from
/// where the next token begins gives the same tokens.
pub proof fn lemma_tokens_from_token_start(src: Seq<char>, pos: int)
    requires
        0 <= pos <= src.len(),
    ensures
        tokens_from(src, token_start(src, pos)) == tokens_from(src, pos),
{
    lemma_run_end(src, CharClass::Blank, pos);
    let start = token_start(src, pos);
    lemma_run_end_is(src, CharClass::Blank, start, start);
}

/// Whitespace that is put in between two tokens does not change the token
/// that ends before it.
proof fn lemma_token_before_blank(
    before: Seq<char>,
    blank: Seq<char>,
    after: Seq<char>,
    pos: int,
)
    requires
        is_blank(blank),
        blank.len() > 0,
        0 <= pos <= before.len(),
        token_start(before + after, pos) < (before + after).len(),
        token_end(before + after, pos) <= before.len(),
    ensures
        token_at(before + blank + after, pos) == token_at(before + after, pos),
        token_end(before + blank + after, pos) == token_end(before + after, pos),
        token_start(before + blank + after, pos) < (before + blank + after).len(),
{
    let plain = before + after;
    let spaced = before + blank + after;
    let n = before.len() as int;
    lemma_token_end(plain, pos);
    lemma_run_end(plain, CharClass::Blank, pos);
    let start = token_start(plain, pos);
    let end = token_end(plain, pos);
    assert forall|i: int| 0 <= i < n implies spaced[i] == plain[i] by {}
    assert(spaced[n] == blank[0]);
    lemma_run_end_is(spaced, CharClass::Blank, pos, start);
    lemma_run_end(plain, CharClass::Word, start);
    lemma_run_end(plain, CharClass::Digit, start);
    assert(is_pair(spaced, start) == is_pair(plain, start));
    if !is_pair(plain, start) {
        if is_letter(plain[start]) {
            lemma_run_end_is(spaced, CharClass::Word, start, end);
        } else if is_digit(plain[start]) {
            lemma_run_end_is(spaced, CharClass::Digit, start, end);
        }
    }
    assert(lexeme_end(spaced, start) == end);
    assert(spaced.subrange(start, end) =~= plain.subrange(start, end));
}

/// Whitespace that is put in before a token does not change the tokens from
/// there on.
proof fn lemma_tokens_after_blank(
    before: Seq<char>,
    blank: Seq<char>,
    after: Seq<char>,
    pos: int,
)
    requires
        is_blank(blank),
        0 <= pos <= before.len() <= token_start(before + after, pos),
    ensures
        tokens_from(before + blank + after, pos) == tokens_from(before + after, pos),
{
    let plain = before + after;
    let spaced = before + blank + after;
    let n = before.len() as int;
    let k = blank.len() as int;
    lemma_run_end(plain, CharClass::Blank, pos);
    let start = token_start(plain, pos);
    assert forall|i: int| pos <= i < start + k implies spec_is_whitespace(
        #[trigger] spaced[i],
    ) by {
        if i < n {
            assert(spaced[i] == plain[i]);
        } else if i < n + k {
            assert(spaced[i] == blank[i - n]);
        } else {
            assert(spaced[i] == plain[i - k]);
        }
    }
    if start < plain.len() {
        assert(spaced[start + k] == plain[start]);
    }
    lemma_run_end_is(spaced, CharClass::Blank, pos, start + k);
    assert(spaced.subrange(start + k, spaced.len() as int) =~= plain.subrange(
        start,
        plain.len() as int,
    ));
    lemma_tokens_of_same_rest(spaced, start + k, plain, start);
    lemma_tokens_from_token_start(spaced, pos);
    lemma_tokens_from_token_start(plain, pos);
}

proof fn lemma_blank_between_tokens_from(
    before: Seq<char>,
    blank: Seq<char>,
    after: Seq<char>,
    from: int,
)
    requires
        is_blank(blank),
        blank.len() > 0,
        0 <= from <= before.len(),
        between_tokens(before + after, from, before.len() as int),
    ensures
        tokens_from(before + blank + after, from) == tokens_from(before + after, from),
    decreases (before + after).len() - from,
{
    let plain = before + after;
    let spaced = before + blank + after;
    let n = before.len() as int;
    lemma_token_end(plain, from);
    if from <= n <= token_start(plain, from) {
        lemma_tokens_after_blank(before, blank, after, from);
    } else {
        let end = token_end(plain, from);
        lemma_token_before_blank(before, blank, after, from);
        lemma_blank_between_tokens_from(before, blank, after, end);
    }
}

/// Whitespace between tokens does not matter: a run of whitespace that is
/// put into a source at a place between two tokens leaves the tokens of the
/// source as they are, kinds and literals.
pub proof fn lemma_blank_between_tokens(before: Seq<char>, blank: Seq<char>, after: Seq<char>)
    requires
        is_blank(blank),
        between_tokens(before + after, 0, before.len() as int),
    ensures
        tokens(before + blank + after) == tokens(before + after),
{
    if blank.len() > 0 {
        lemma_blank_between_tokens_from(before, blank, after, 0);
    } else {
        assert(before + blank + after =~= before + after);
    }
}

/// A position between tokens lies at or after the position from which the
/// tokens are read, and the token that is read from it begins and ends
/// between tokens.
pub proof fn lemma_between_tokens_goes_on(src: Seq<char>, from: int, pos: int)
    requires
        0 <= from <= src.len(),
        0 <= pos <= src.len(),
        between_tokens(src, from, pos),
    ensures
        from <= pos,
        between_tokens(src, from, token_start(src, pos)),
        between_tokens(src, from, token_end(src, pos)),
    decreases src.len() - from,
{
    lemma_token_end(src, from);
    lemma_token_end(src, pos);
    if from <= pos <= token_start(src, from) {
        lemma_run_end(src, CharClass::Blank, from);
        lemma_run_end_is(src, CharClass::Blank, pos, token_start(src, from));
        if token_start(src, from) < src.len() {
            let end = token_end(src, from);
            lemma_token_end(src, end);
            assert(between_tokens(src, end, end));
        }
    } else {
        lemma_between_tokens_goes_on(src, token_end(src, from), pos);
    }
}

/// The position from which the tokens are read and the end of the source lie
/// between tokens.
pub proof fn lemma_ends_are_between_tokens(src: Seq<char>, from: int)
    requires
        0 <= from <= src.len(),
    ensures
        between_tokens(src, from, from),
        between_tokens(src, from, src.len() as int),
    decreases src.len() - from,
{
    lemma_token_end(src, from);
    if token_start(src, from) < src.len() {
        lemma_ends_are_between_tokens(src, token_end(src, from));
    }
}

} // verus!
