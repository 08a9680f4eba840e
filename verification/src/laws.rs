//! The general properties of the tokenizer, stated over the spec-level model
//! and proved once and for all.  Together with the contract of
//! [`crate::tokenize`] (whose result is exactly `tokens_of` of the input)
//! they pin down the behaviour on whole families of inputs.

use vstd::prelude::*;
use crate::token::TokenModel;
use crate::model::{
    simple_opcode, width_of_mark, peek_mark, peek_poke, binop_token, reg_compound, mem_compound,
    opcode_tokens, internal_kind_token, internal_bit, strip_hex_prefix, numeral_body,
    lexeme_tokens, split_commas, tokens_of_lexemes, tokens_of,
};

verus! {

/// A string without commas splits into exactly one lexeme: itself.
pub proof fn lemma_split_no_comma(s: Seq<char>)
    requires
        forall|i: int| 0 <= i < s.len() ==> s[i] != ',',
    ensures
        split_commas(s) == seq![s],
    decreases s.len(),
{
    if s.len() == 0 {
        assert(split_commas(s) =~~= seq![s]);
    } else {
        lemma_split_no_comma(s.drop_last());
        assert(split_commas(s) =~~= seq![s]);
    }
}

/// The token stream of a one-lexeme list is that lexeme's tokens.
proof fn lemma_tokens_of_lexemes_singleton(l: Seq<char>)
    ensures
        tokens_of_lexemes(seq![l]) == lexeme_tokens(l),
{
    let sp = seq![l];
    assert(sp.drop_last() =~= Seq::<Seq<char>>::empty());
    assert(tokens_of_lexemes(Seq::<Seq<char>>::empty()) == Seq::<TokenModel>::empty());
    assert(tokens_of_lexemes(sp) == tokens_of_lexemes(sp.drop_last()) + lexeme_tokens(l));
    assert(Seq::<TokenModel>::empty() + lexeme_tokens(l) =~= lexeme_tokens(l));
}

/// The token stream of a two-lexeme list is the two token sequences in order.
proof fn lemma_tokens_of_lexemes_pair(a: Seq<char>, b: Seq<char>)
    ensures
        tokens_of_lexemes(seq![a, b]) == lexeme_tokens(a) + lexeme_tokens(b),
{
    let sp = seq![a, b];
    assert(sp.drop_last() =~= seq![a]);
    lemma_tokens_of_lexemes_singleton(a);
    assert(tokens_of_lexemes(sp) == tokens_of_lexemes(sp.drop_last()) + lexeme_tokens(b));
}

/// Tokenizing a comma-free input classifies it as the single lexeme it is.
pub proof fn lemma_tokens_of_single_lexeme(s: Seq<char>)
    requires
        forall|i: int| 0 <= i < s.len() ==> s[i] != ',',
    ensures
        tokens_of(s) == lexeme_tokens(s),
{
    lemma_split_no_comma(s);
    lemma_tokens_of_lexemes_singleton(s);
}

/// No lexeme of the opcode table contains a comma, so as part of a larger
/// input it is delimited exactly as it stands alone.
pub proof fn lemma_opcode_lexeme_no_comma(l: Seq<char>)
    requires
        opcode_tokens(l) is Some,
    ensures
        forall|i: int| 0 <= i < l.len() ==> l[i] != ',',
{
    if simple_opcode(l) is Some || reg_compound(l) is Some {
        // Every match in these tables compares against a short literal or
        // tests single characters; the case split is finite.
        assert(forall|i: int| 0 <= i < l.len() ==> l[i] != ',');
    } else if peek_poke(l) is Some {
        let a: int = if l.len() >= 2 && l[0] == '[' && l.last() == ']' && peek_mark(
            l.subrange(1, l.len() - 1),
        ) is Some {
            1
        } else {
            2
        };
        let m = l.subrange(a, l.len() - 1);
        assert(peek_mark(m) is Some);
        assert forall|i: int| 0 <= i < l.len() implies l[i] != ',' by {
            if a <= i < l.len() - 1 {
                assert(l[i] == m[i - a]);
            }
        }
    } else {
        assert(mem_compound(l) is Some);
        let a: int = if l.len() >= 4 && l[1] == '=' && l[2] == '[' && l.last() == ']'
            && binop_token(l[0]) is Some && width_of_mark(l.subrange(3, l.len() - 1)) is Some {
            3
        } else {
            4
        };
        let m = l.subrange(a, l.len() - 1);
        assert(width_of_mark(m) is Some);
        assert forall|i: int| 0 <= i < l.len() implies l[i] != ',' by {
            if a <= i < l.len() - 1 {
                assert(l[i] == m[i - a]);
            }
        }
    }
}

/// Law: a lexeme with a one-to-one opcode mapping (a simple operator, or a
/// bare memory peek/poke), tokenized as a whole input, yields exactly the one
/// corresponding opcode token.
pub proof fn lemma_atomic_opcode(l: Seq<char>)
    requires
        simple_opcode(l) is Some || peek_poke(l) is Some,
    ensures
        opcode_tokens(l) is Some,
        opcode_tokens(l)->0.len() == 1,
        tokens_of(l) == opcode_tokens(l)->0,
{
    lemma_opcode_lexeme_no_comma(l);
    lemma_tokens_of_single_lexeme(l);
}

/// The empty lexeme classifies as an identifier carrying the empty string.
pub proof fn lemma_empty_lexeme_identifier()
    ensures
        lexeme_tokens(Seq::empty()) == seq![TokenModel::EIdentifier(Seq::empty())],
{
    let e = Seq::<char>::empty();
    assert(opcode_tokens(e) is None);
    assert(numeral_body(strip_hex_prefix(e)).len() == 0);
    assert(lexeme_tokens(e) =~~= seq![TokenModel::EIdentifier(e)]);
}

/// Law: an input that ends in a trailing delimiter yields the tokens of the
/// lexeme before the delimiter, followed by one identifier token carrying the
/// empty string.  (An input whose last lexeme itself contains a comma is not a
/// single lexeme at all, so the hypothesis asks for a comma-free lexeme.)
pub proof fn lemma_trailing_empty_lexeme(l: Seq<char>)
    requires
        forall|i: int| 0 <= i < l.len() ==> l[i] != ',',
    ensures
        tokens_of(l.push(',')) == lexeme_tokens(l) + seq![TokenModel::EIdentifier(Seq::empty())],
{
    let s = l.push(',');
    assert(s.drop_last() =~= l);
    lemma_split_no_comma(l);
    assert(split_commas(s) =~~= seq![l, Seq::<char>::empty()]);
    lemma_empty_lexeme_identifier();
    lemma_tokens_of_lexemes_pair(l, Seq::<char>::empty());
    assert(tokens_of(s) =~~= lexeme_tokens(l) + seq![TokenModel::EIdentifier(Seq::empty())]);
}

/// Law: a two-character internal-variable lexeme (the marker and a recognized
/// kind, with no digits after them) carries the default bit index 0.
pub proof fn lemma_internal_default_bit(k: char)
    requires
        internal_kind_token(k, 0) is Some,
    ensures
        tokens_of(seq!['$', k]) == seq![internal_kind_token(k, 0)->0],
{
    let l = seq!['$', k];
    lemma_tokens_of_single_lexeme(l);
    assert(opcode_tokens(l) is None);
    assert(internal_bit(l) == 0);
    assert(lexeme_tokens(l) =~~= seq![internal_kind_token(k, 0)->0]);
}

/// Law: the marker followed by an unrecognized kind character yields exactly
/// one `EInvalid` token.  (The comma is excluded: it is the lexeme delimiter,
/// so `$` followed by a comma is two lexemes, not one.)
pub proof fn lemma_internal_unknown_kind(k: char)
    requires
        internal_kind_token(k, 0) is None,
        k != ',',
    ensures
        tokens_of(seq!['$', k]) == seq![TokenModel::EInvalid],
{
    let l = seq!['$', k];
    lemma_tokens_of_single_lexeme(l);
    assert(opcode_tokens(l) is None);
    assert(internal_bit(l) == 0);
    assert(lexeme_tokens(l) =~~= seq![TokenModel::EInvalid]);
}

} // verus!
