use vstd::prelude::*;
use crate::token::{Token, TokenModel, views};
use crate::model::{
    simple_opcode, width_of_mark, peek_mark, peek_poke, binop_token, reg_assign_expansion,
    cmp_or_expansion, reg_compound, mem_assign_expansion, inc_mem_expansion, dec_mem_expansion,
    mem_compound, opcode_tokens, internal_bit, internal_token, number_or_ident, strip_hex_prefix,
    lexeme_tokens, split_commas, tokens_of_lexemes, tokens_of,
};
use crate::numeral::parse_numeral;
use vstd::string::StrSliceExecFns;

verus! {

// ---------------------------------------------------------------------------
// Lexeme comparison helpers
// ---------------------------------------------------------------------------

fn eq1(l: &Vec<char>, c0: char) -> (r: bool)
    ensures
        r <==> l@ == seq![c0],
{
    if l.len() == 1 && l[0] == c0 {
        proof {
            assert(l@ =~= seq![c0]);
        }
        true
    } else {
        false
    }
}

fn eq2(l: &Vec<char>, c0: char, c1: char) -> (r: bool)
    ensures
        r <==> l@ == seq![c0, c1],
{
    if l.len() == 2 && l[0] == c0 && l[1] == c1 {
        proof {
            assert(l@ =~= seq![c0, c1]);
        }
        true
    } else {
        false
    }
}

fn eq3(l: &Vec<char>, c0: char, c1: char, c2: char) -> (r: bool)
    ensures
        r <==> l@ == seq![c0, c1, c2],
{
    if l.len() == 3 && l[0] == c0 && l[1] == c1 && l[2] == c2 {
        proof {
            assert(l@ =~= seq![c0, c1, c2]);
        }
        true
    } else {
        false
    }
}

fn eq4(l: &Vec<char>, c0: char, c1: char, c2: char, c3: char) -> (r: bool)
    ensures
        r <==> l@ == seq![c0, c1, c2, c3],
{
    if l.len() == 4 && l[0] == c0 && l[1] == c1 && l[2] == c2 && l[3] == c3 {
        proof {
            assert(l@ =~= seq![c0, c1, c2, c3]);
        }
        true
    } else {
        false
    }
}

fn eq5(l: &Vec<char>, c0: char, c1: char, c2: char, c3: char, c4: char) -> (r: bool)
    ensures
        r <==> l@ == seq![c0, c1, c2, c3, c4],
{
    if l.len() == 5 && l[0] == c0 && l[1] == c1 && l[2] == c2 && l[3] == c3 && l[4] == c4 {
        proof {
            assert(l@ =~= seq![c0, c1, c2, c3, c4]);
        }
        true
    } else {
        false
    }
}

// ---------------------------------------------------------------------------
// Opcode table
// ---------------------------------------------------------------------------

#[verifier::rlimit(30)]
fn simple_opcode_lookup(l: &Vec<char>) -> (r: Option<Token>)
    ensures
        match r {
            Some(t) => simple_opcode(l@) == Some(t@),
            None => simple_opcode(l@) is None,
        },
{
    if eq1(l, '$') {
        Some(Token::EInterrupt)
    } else if eq2(l, '=', '=') {
        Some(Token::ECmp)
    } else if eq1(l, '<') {
        Some(Token::ELt)
    } else if eq1(l, '>') {
        Some(Token::EGt)
    } else if eq2(l, '?', '{') {
        Some(Token::EIf)
    } else if eq2(l, '<', '<') {
        Some(Token::ELsl)
    } else if eq2(l, '>', '>') {
        Some(Token::ELsr)
    } else if eq3(l, '>', '>', '>') {
        Some(Token::ERor)
    } else if eq3(l, '<', '<', '<') {
        Some(Token::ERol)
    } else if eq1(l, '&') {
        Some(Token::EAnd)
    } else if eq1(l, '}') {
        Some(Token::ENop)
    } else if eq1(l, '|') {
        Some(Token::EOr)
    } else if eq1(l, '!') {
        Some(Token::ENeg)
    } else if eq1(l, '=') {
        Some(Token::EEq)
    } else if eq1(l, '*') {
        Some(Token::EMul)
    } else if eq1(l, '^') {
        Some(Token::EXor)
    } else if eq1(l, '+') {
        Some(Token::EAdd)
    } else if eq1(l, '-') {
        Some(Token::ESub)
    } else if eq1(l, '/') {
        Some(Token::EDiv)
    } else if eq1(l, '%') {
        Some(Token::EMod)
    } else if eq5(l, 'S', 'T', 'A', 'C', 'K') {
        Some(Token::EDump)
    } else if eq3(l, 'P', 'O', 'P') {
        Some(Token::EPop)
    } else if eq4(l, 'T', 'O', 'D', 'O') {
        Some(Token::ETodo)
    } else if eq4(l, 'G', 'O', 'T', 'O') {
        Some(Token::EGoto)
    } else if eq5(l, 'B', 'R', 'E', 'A', 'K') {
        Some(Token::EBreak)
    } else if eq5(l, 'C', 'L', 'E', 'A', 'R') {
        Some(Token::EClear)
    } else if eq3(l, 'D', 'U', 'P') {
        Some(Token::EDup)
    } else if eq4(l, 'T', 'R', 'A', 'P') {
        Some(Token::ETrap)
    } else {
        None
    }
}

/// The width named between `[` and `]`, over `l[from..to]`.
fn width_mark_lookup(l: &Vec<char>, from: usize, to: usize) -> (r: Option<u8>)
    requires
        from <= to <= l@.len(),
    ensures
        r == width_of_mark(l@.subrange(from as int, to as int)),
{
    let ghost m = l@.subrange(from as int, to as int);
    proof {
        assert(m.len() == to - from);
        if to - from >= 1 {
            assert(m[0] == l@[from as int]);
        }
    }
    if to == from {
        Some(64)
    } else if to - from == 1 {
        let c = l[from];
        proof {
            if c == '1' {
                assert(m =~= seq!['1']);
            }
            if c == '2' {
                assert(m =~= seq!['2']);
            }
            if c == '4' {
                assert(m =~= seq!['4']);
            }
            if c == '8' {
                assert(m =~= seq!['8']);
            }
        }
        if c == '1' {
            Some(8)
        } else if c == '2' {
            Some(16)
        } else if c == '4' {
            Some(32)
        } else if c == '8' {
            Some(64)
        } else {
            None
        }
    } else {
        None
    }
}

/// Like `width_mark_lookup`, accepting the wildcard `*` for the 64-bit word.
fn peek_mark_lookup(l: &Vec<char>, from: usize, to: usize) -> (r: Option<u8>)
    requires
        from <= to <= l@.len(),
    ensures
        r == peek_mark(l@.subrange(from as int, to as int)),
{
    let ghost m = l@.subrange(from as int, to as int);
    proof {
        assert(m.len() == to - from);
        if to - from >= 1 {
            assert(m[0] == l@[from as int]);
        }
    }
    if to - from == 1 && l[from] == '*' {
        proof {
            assert(m =~= seq!['*']);
        }
        Some(64)
    } else {
        width_mark_lookup(l, from, to)
    }
}

fn peek_poke_lookup(l: &Vec<char>) -> (r: Option<Token>)
    ensures
        match r {
            Some(t) => peek_poke(l@) == Some(t@),
            None => peek_poke(l@) is None,
        },
{
    let n = l.len();
    if n >= 2 && l[0] == '[' && l[n - 1] == ']' {
        match peek_mark_lookup(l, 1, n - 1) {
            Some(w) => Some(Token::EPeek(w)),
            None => None,
        }
    } else if n >= 3 && l[0] == '=' && l[1] == '[' && l[n - 1] == ']' {
        match peek_mark_lookup(l, 2, n - 1) {
            Some(w) => Some(Token::EPoke(w)),
            None => None,
        }
    } else {
        None
    }
}

fn binop_lookup(c: char) -> (r: Option<Token>)
    ensures
        match r {
            Some(t) => binop_token(c) == Some(t@),
            None => binop_token(c) is None,
        },
{
    match c {
        '&' => Some(Token::EAnd),
        '|' => Some(Token::EOr),
        '^' => Some(Token::EXor),
        '+' => Some(Token::EAdd),
        '-' => Some(Token::ESub),
        '*' => Some(Token::EMul),
        '/' => Some(Token::EDiv),
        '%' => Some(Token::EMod),
        _ => None,
    }
}

fn reg_assign_tokens(op: Token) -> (r: Vec<Token>)
    ensures
        views(r@) == reg_assign_expansion(op@),
{
    let r = vec![Token::PCopy(2), op, Token::PPop(1), Token::EPop, Token::EEq];
    proof {
        assert(views(r@) =~~= reg_assign_expansion(r@[1]@));
    }
    r
}

fn cmp_or_tokens(op: Token) -> (r: Vec<Token>)
    ensures
        views(r@) == cmp_or_expansion(op@),
{
    let r = vec![Token::PCopy(2), op, Token::PPop(2), Token::ECmp, Token::EOr];
    proof {
        assert(views(r@) =~~= cmp_or_expansion(r@[1]@));
    }
    r
}

fn reg_compound_lookup(l: &Vec<char>) -> (r: Option<Vec<Token>>)
    ensures
        match r {
            Some(ts) => reg_compound(l@) is Some && reg_compound(l@)->0 =~~= views(ts@),
            None => reg_compound(l@) is None,
        },
{
    if l.len() == 2 && l[1] == '=' {
        match binop_lookup(l[0]) {
            Some(op) => {
                return Some(reg_assign_tokens(op));
            },
            None => {},
        }
    }
    if eq3(l, '<', '<', '=') {
        Some(reg_assign_tokens(Token::ELsl))
    } else if eq3(l, '>', '>', '=') {
        Some(reg_assign_tokens(Token::ELsr))
    } else if eq2(l, '<', '=') {
        Some(cmp_or_tokens(Token::ELt))
    } else if eq2(l, '>', '=') {
        Some(cmp_or_tokens(Token::EGt))
    } else if eq2(l, '!', '=') {
        let r = vec![Token::PCopy(1), Token::ENeg, Token::EEq];
        proof {
            assert(views(r@) =~~= reg_compound(l@)->0);
        }
        Some(r)
    } else if eq2(l, '+', '+') {
        let r = vec![Token::PPop(1), Token::EConstant(1), Token::EAdd];
        proof {
            assert(views(r@) =~~= reg_compound(l@)->0);
        }
        Some(r)
    } else if eq2(l, '-', '-') {
        let r = vec![Token::PPop(1), Token::EConstant(1), Token::ESub];
        proof {
            assert(views(r@) =~~= reg_compound(l@)->0);
        }
        Some(r)
    } else if eq3(l, '+', '+', '=') {
        let r = vec![
            Token::PCopy(1),
            Token::EConstant(1),
            Token::EAdd,
            Token::PPop(1),
            Token::EEq,
        ];
        proof {
            assert(views(r@) =~~= reg_compound(l@)->0);
        }
        Some(r)
    } else if eq3(l, '-', '-', '=') {
        let r = vec![
            Token::PCopy(1),
            Token::EConstant(1),
            Token::ESub,
            Token::PPop(1),
            Token::EEq,
        ];
        proof {
            assert(views(r@) =~~= reg_compound(l@)->0);
        }
        Some(r)
    } else {
        None
    }
}

fn mem_assign_tokens(op: Token, w: u8) -> (r: Vec<Token>)
    ensures
        views(r@) == mem_assign_expansion(op@, w),
{
    let r = vec![
        Token::PCopy(1),
        Token::EPeek(w),
        op,
        Token::PPop(1),
        Token::EPop,
        Token::EPoke(w),
    ];
    proof {
        assert(views(r@) =~~= mem_assign_expansion(r@[2]@, w));
    }
    r
}

fn inc_mem_tokens(w: u8) -> (r: Vec<Token>)
    ensures
        views(r@) == inc_mem_expansion(w),
{
    let r = vec![
        Token::PCopy(1),
        Token::EPeek(w),
        Token::EConstant(1),
        Token::EAdd,
        Token::PPop(1),
        Token::EPoke(w),
    ];
    proof {
        assert(views(r@) =~~= inc_mem_expansion(w));
    }
    r
}

fn dec_mem_tokens(w: u8) -> (r: Vec<Token>)
    ensures
        views(r@) == dec_mem_expansion(w),
{
    let r = vec![
        Token::EConstant(1),
        Token::PPop(1),
        Token::PCopy(1),
        Token::EPeek(w),
        Token::ESub,
        Token::PPop(1),
        Token::EPoke(w),
    ];
    proof {
        assert(views(r@) =~~= dec_mem_expansion(w));
    }
    r
}

fn mem_compound_lookup(l: &Vec<char>) -> (r: Option<Vec<Token>>)
    ensures
        match r {
            Some(ts) => mem_compound(l@) is Some && mem_compound(l@)->0 =~~= views(ts@),
            None => mem_compound(l@) is None,
        },
{
    let n = l.len();
    if n >= 4 && l[1] == '=' && l[2] == '[' && l[n - 1] == ']' {
        match binop_lookup(l[0]) {
            Some(op) => match width_mark_lookup(l, 3, n - 1) {
                Some(w) => Some(mem_assign_tokens(op, w)),
                None => None,
            },
            None => None,
        }
    } else if n >= 5 && l[0] == '+' && l[1] == '+' && l[2] == '=' && l[3] == '[' && l[n - 1]
        == ']' {
        match width_mark_lookup(l, 4, n - 1) {
            Some(w) => Some(inc_mem_tokens(w)),
            None => None,
        }
    } else if n >= 5 && l[0] == '-' && l[1] == '-' && l[2] == '=' && l[3] == '[' && l[n - 1]
        == ']' {
        match width_mark_lookup(l, 4, n - 1) {
            Some(w) => Some(dec_mem_tokens(w)),
            None => None,
        }
    } else {
        None
    }
}

fn opcode_lookup(l: &Vec<char>) -> (r: Option<Vec<Token>>)
    ensures
        match r {
            Some(ts) => opcode_tokens(l@) is Some && opcode_tokens(l@)->0 =~~= views(ts@),
            None => opcode_tokens(l@) is None,
        },
{
    match simple_opcode_lookup(l) {
        Some(t) => {
            let r = vec![t];
            proof {
                assert(views(r@) =~~= seq![simple_opcode(l@)->0]);
            }
            return Some(r);
        },
        None => {},
    }
    match peek_poke_lookup(l) {
        Some(t) => {
            let r = vec![t];
            proof {
                assert(views(r@) =~~= seq![peek_poke(l@)->0]);
            }
            return Some(r);
        },
        None => {},
    }
    match reg_compound_lookup(l) {
        Some(ts) => {
            return Some(ts);
        },
        None => {},
    }
    mem_compound_lookup(l)
}

// ---------------------------------------------------------------------------
// Internal variables
// ---------------------------------------------------------------------------

fn internal_lookup(l: &Vec<char>) -> (t: Token)
    requires
        l@.len() >= 1,
        l@[0] == '$',
    ensures
        t@ == internal_token(l@),
{
    if l.len() < 2 {
        return Token::EInvalid;
    }
    let bit: u8 = if l.len() < 3 {
        0
    } else {
        match parse_numeral(l, 2, 10, 255) {
            Some(v) => v as u8,
            None => 0,
        }
    };
    proof {
        assert(bit == internal_bit(l@));
    }
    match l[1] {
        '$' => Token::IAddress(bit),
        'z' => Token::IZero(bit),
        'b' => Token::IBorrow(bit),
        'c' => Token::ICarry(bit),
        'p' => Token::IParity(bit),
        'r' => Token::ISize(bit),
        'o' => Token::IOverflow(bit),
        's' => Token::ISign(bit),
        _ => Token::EInvalid,
    }
}

// ---------------------------------------------------------------------------
// Whole-lexeme classification
// ---------------------------------------------------------------------------

/// The token sequence of one raw lexeme.  `l` is the lexeme's characters,
/// equal to `esil[start..end)`; the string is carried along only so that an
/// identifier token can take its text from it.
#[verifier::rlimit(40)]
fn classify_lexeme(esil: &str, l: &Vec<char>, start: usize, end: usize) -> (r: Vec<Token>)
    requires
        start <= end <= esil@.len(),
        l@ == esil@.subrange(start as int, end as int),
    ensures
        views(r@) == lexeme_tokens(l@),
{
    match opcode_lookup(l) {
        Some(ts) => {
            return ts;
        },
        None => {},
    }
    if l.len() > 0 && l[0] == '$' {
        let t = internal_lookup(l);
        let r = vec![t];
        proof {
            assert(views(r@) =~~= seq![internal_token(l@)]);
        }
        return r;
    }
    // Strip every leading "0x", the way trim_start_matches does, then try a
    // base-16 parse; hex digits win over decimal even without the prefix.
    let mut j: usize = 0;
    proof {
        assert(l@.skip(0) =~= l@);
    }
    while l.len() - j >= 2 && l[j] == '0' && l[j + 1] == 'x'
        invariant
            j <= l@.len(),
            strip_hex_prefix(l@) == strip_hex_prefix(l@.skip(j as int)),
        decreases l@.len() - j,
    {
        proof {
            assert(l@.skip(j as int).skip(2) =~= l@.skip(j as int + 2));
        }
        j = j + 2;
    }
    proof {
        assert(strip_hex_prefix(l@) == l@.skip(j as int));
    }
    match parse_numeral(l, j, 16, u64::MAX) {
        Some(v) => {
            let r = vec![Token::EConstant(v)];
            proof {
                assert(views(r@) =~~= seq![number_or_ident(l@)]);
            }
            return r;
        },
        None => {},
    }
    match parse_numeral(l, 0, 10, u64::MAX) {
        Some(v) => {
            proof {
                assert(l@.skip(0) =~= l@);
            }
            let r = vec![Token::EConstant(v)];
            proof {
                assert(views(r@) =~~= seq![number_or_ident(l@)]);
            }
            return r;
        },
        None => {},
    }
    proof {
        assert(l@.skip(0) =~= l@);
    }
    let text = esil.substring_char(start, end).to_owned();
    let r = vec![Token::EIdentifier(text)];
    proof {
        assert(views(r@) =~~= seq![number_or_ident(l@)]);
    }
    r
}

// ---------------------------------------------------------------------------
// The tokenizer
// ---------------------------------------------------------------------------

/// Split the input on commas and classify each lexeme in order.  The result
/// is pinned down completely by the spec-level model: its element views are
/// exactly `tokens_of(esil@)`, so the transform is total and deterministic.
pub fn tokenize(esil: &str) -> (r: Vec<Token>)
    ensures
        views(r@) == tokens_of(esil@),
{
    let n = esil.unicode_len();
    let mut toks: Vec<Token> = Vec::new();
    let mut cur: Vec<char> = Vec::new();
    let mut start: usize = 0;
    let mut i: usize = 0;
    while i < n
        invariant
            n == esil@.len(),
            i <= n,
            start as int + cur@.len() == i as int,
            cur@ == esil@.subrange(start as int, i as int),
            split_commas(esil@.take(i as int)).last() == cur@,
            views(toks@) == tokens_of_lexemes(split_commas(esil@.take(i as int)).drop_last()),
        decreases n - i,
    {
        let c = esil.get_char(i);
        proof {
            assert(esil@.take(i + 1).drop_last() =~= esil@.take(i as int));
            assert(esil@.take(i + 1).last() == esil@[i as int]);
            lemma_split_commas_nonempty(esil@.take(i as int));
        }
        if c == ',' {
            let ghost sp = split_commas(esil@.take(i as int));
            let mut ts = classify_lexeme(esil, &cur, start, i);
            toks.append(&mut ts);
            cur = Vec::new();
            start = i + 1;
            proof {
                assert(split_commas(esil@.take(i + 1)) == sp.push(Seq::<char>::empty()));
                assert(sp.push(Seq::<char>::empty()).drop_last() =~= sp);
                assert(views(toks@) =~~= tokens_of_lexemes(sp));
                assert(cur@ =~= esil@.subrange(i + 1, i + 1));
            }
        } else {
            let ghost sp = split_commas(esil@.take(i as int));
            cur.push(c);
            proof {
                let sp2 = split_commas(esil@.take(i + 1));
                assert(sp2 == sp.update(sp.len() - 1, sp.last().push(esil@[i as int])));
                assert(sp2.drop_last() =~= sp.drop_last());
                assert(cur@ =~= esil@.subrange(start as int, i + 1));
            }
        }
        i = i + 1;
    }
    proof {
        assert(esil@.take(n as int) =~= esil@);
        lemma_split_commas_nonempty(esil@);
    }
    let mut ts = classify_lexeme(esil, &cur, start, n);
    toks.append(&mut ts);
    proof {
        let sp = split_commas(esil@);
        assert(tokens_of_lexemes(sp) == tokens_of_lexemes(sp.drop_last()) + lexeme_tokens(
            sp.last(),
        ));
        assert(views(toks@) =~~= tokens_of(esil@));
    }
    toks
}

/// Splitting always yields at least one (possibly empty) lexeme.
proof fn lemma_split_commas_nonempty(s: Seq<char>)
    ensures
        split_commas(s).len() >= 1,
    decreases s.len(),
{
    if s.len() > 0 {
        lemma_split_commas_nonempty(s.drop_last());
    }
}

// ---------------------------------------------------------------------------
// The public trait surface
// ---------------------------------------------------------------------------

/// A tokenizer from ESIL text to a stream of tokens.
pub trait Tokenize {
    type Token: Clone + core::fmt::Debug + PartialEq;

    fn tokenize(esil: &str) -> Vec<Self::Token>;
}

/// The ESIL tokenizer; see [`tokenize`] for the verified contract.
pub struct Tokenizer;

impl Tokenize for Tokenizer {
    type Token = Token;

    fn tokenize(esil: &str) -> (r: Vec<Token>)
        ensures
            views(r@) == tokens_of(esil@),
    {
        tokenize(esil)
    }
}

} // verus!
