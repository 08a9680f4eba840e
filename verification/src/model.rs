use vstd::prelude::*;
use crate::token::TokenModel;

verus! {

// ---------------------------------------------------------------------------
// Numerals
// ---------------------------------------------------------------------------

/// Is `c` a digit of the given radix (10 or 16)?  Base 16 accepts both
/// lower-case and upper-case letters, as Rust's `from_str_radix` does.
pub open spec fn is_digit(c: char, radix: nat) -> bool {
    ('0' <= c && c <= '9') || (radix == 16 && (('a' <= c && c <= 'f') || ('A' <= c && c <= 'F')))
}

/// The numeric value of a digit character; 0 for anything else.
pub open spec fn digit_value(c: char) -> nat {
    if '0' <= c && c <= '9' {
        (c as int - '0' as int) as nat
    } else if 'a' <= c && c <= 'f' {
        (c as int - 'a' as int + 10) as nat
    } else if 'A' <= c && c <= 'F' {
        (c as int - 'A' as int + 10) as nat
    } else {
        0
    }
}

/// The value of a digit string read most-significant first.
pub open spec fn digits_value(s: Seq<char>, radix: nat) -> nat
    decreases s.len(),
{
    if s.len() == 0 {
        0
    } else {
        digits_value(s.drop_last(), radix) * radix + digit_value(s.last())
    }
}

/// The digits of a numeral: everything after one optional leading `+` sign.
pub open spec fn numeral_body(s: Seq<char>) -> Seq<char> {
    if s.len() > 0 && s[0] == '+' {
        s.drop_first()
    } else {
        s
    }
}

/// Is `s` a well-formed unsigned numeral of the given radix: an optional `+`
/// followed by one or more digits?
pub open spec fn is_numeral(s: Seq<char>, radix: nat) -> bool {
    &&& numeral_body(s).len() > 0
    &&& forall|i: int|
        0 <= i < numeral_body(s).len() ==> #[trigger] is_digit(numeral_body(s)[i], radix)
}

/// What `u64::from_str_radix` (for `max == u64::MAX`) or `u8::from_str`
/// (for `max == 255`, radix 10) returns on `s`: the value of the numeral if
/// `s` is well formed and the value does not exceed `max`, and nothing
/// otherwise.
pub open spec fn parsed_numeral(s: Seq<char>, radix: nat, max: nat) -> Option<nat> {
    if is_numeral(s, radix) && digits_value(numeral_body(s), radix) <= max {
        Some(digits_value(numeral_body(s), radix))
    } else {
        None
    }
}

/// Every leading occurrence of the two-character prefix `0x` removed, the way
/// `str::trim_start_matches("0x")` removes them.
pub open spec fn strip_hex_prefix(s: Seq<char>) -> Seq<char>
    decreases s.len(),
{
    if s.len() >= 2 && s[0] == '0' && s[1] == 'x' {
        strip_hex_prefix(s.skip(2))
    } else {
        s
    }
}

// ---------------------------------------------------------------------------
// Internal variables
// ---------------------------------------------------------------------------

/// The token for internal-variable kind character `k` with bit index `bit`,
/// if `k` is a recognized kind.
pub open spec fn internal_kind_token(k: char, bit: u8) -> Option<TokenModel> {
    match k {
        '$' => Some(TokenModel::IAddress(bit)),
        'z' => Some(TokenModel::IZero(bit)),
        'b' => Some(TokenModel::IBorrow(bit)),
        'c' => Some(TokenModel::ICarry(bit)),
        'p' => Some(TokenModel::IParity(bit)),
        'r' => Some(TokenModel::ISize(bit)),
        'o' => Some(TokenModel::IOverflow(bit)),
        's' => Some(TokenModel::ISign(bit)),
        _ => None,
    }
}

/// The bit index of an internal-variable lexeme: the characters from position
/// 2 on, read as a decimal `u8`; 0 if they are absent or do not parse.
pub open spec fn internal_bit(l: Seq<char>) -> u8 {
    if l.len() < 3 {
        0
    } else {
        match parsed_numeral(l.skip(2), 10, 255) {
            Some(v) => v as u8,
            None => 0,
        }
    }
}

/// The single token of an internal-variable lexeme (one that begins with the
/// `$` marker and was not claimed by the opcode table): the kind selected by
/// the second character, or `EInvalid` if that kind is unrecognized.
pub open spec fn internal_token(l: Seq<char>) -> TokenModel {
    if l.len() < 2 {
        TokenModel::EInvalid
    } else {
        match internal_kind_token(l[1], internal_bit(l)) {
            Some(t) => t,
            None => TokenModel::EInvalid,
        }
    }
}

// ---------------------------------------------------------------------------
// Opcode table
// ---------------------------------------------------------------------------

/// Lexemes with a one-to-one mapping to a single opcode token.
pub open spec fn simple_opcode(l: Seq<char>) -> Option<TokenModel> {
    if l == seq!['$'] {
        Some(TokenModel::EInterrupt)
    } else if l == seq!['=', '='] {
        Some(TokenModel::ECmp)
    } else if l == seq!['<'] {
        Some(TokenModel::ELt)
    } else if l == seq!['>'] {
        Some(TokenModel::EGt)
    } else if l == seq!['?', '{'] {
        Some(TokenModel::EIf)
    } else if l == seq!['<', '<'] {
        Some(TokenModel::ELsl)
    } else if l == seq!['>', '>'] {
        Some(TokenModel::ELsr)
    } else if l == seq!['>', '>', '>'] {
        Some(TokenModel::ERor)
    } else if l == seq!['<', '<', '<'] {
        Some(TokenModel::ERol)
    } else if l == seq!['&'] {
        Some(TokenModel::EAnd)
    } else if l == seq!['}'] {
        Some(TokenModel::ENop)
    } else if l == seq!['|'] {
        Some(TokenModel::EOr)
    } else if l == seq!['!'] {
        Some(TokenModel::ENeg)
    } else if l == seq!['='] {
        Some(TokenModel::EEq)
    } else if l == seq!['*'] {
        Some(TokenModel::EMul)
    } else if l == seq!['^'] {
        Some(TokenModel::EXor)
    } else if l == seq!['+'] {
        Some(TokenModel::EAdd)
    } else if l == seq!['-'] {
        Some(TokenModel::ESub)
    } else if l == seq!['/'] {
        Some(TokenModel::EDiv)
    } else if l == seq!['%'] {
        Some(TokenModel::EMod)
    } else if l == seq!['S', 'T', 'A', 'C', 'K'] {
        Some(TokenModel::EDump)
    } else if l == seq!['P', 'O', 'P'] {
        Some(TokenModel::EPop)
    } else if l == seq!['T', 'O', 'D', 'O'] {
        Some(TokenModel::ETodo)
    } else if l == seq!['G', 'O', 'T', 'O'] {
        Some(TokenModel::EGoto)
    } else if l == seq!['B', 'R', 'E', 'A', 'K'] {
        Some(TokenModel::EBreak)
    } else if l == seq!['C', 'L', 'E', 'A', 'R'] {
        Some(TokenModel::EClear)
    } else if l == seq!['D', 'U', 'P'] {
        Some(TokenModel::EDup)
    } else if l == seq!['T', 'R', 'A', 'P'] {
        Some(TokenModel::ETrap)
    } else {
        None
    }
}

/// The bit width named by the characters between `[` and `]` of a memory
/// access: no marker means the full 64-bit machine word, and the byte counts
/// 1, 2, 4, 8 mean 8, 16, 32, 64 bits.
pub open spec fn width_of_mark(m: Seq<char>) -> Option<u8> {
    if m.len() == 0 {
        Some(64)
    } else if m == seq!['1'] {
        Some(8)
    } else if m == seq!['2'] {
        Some(16)
    } else if m == seq!['4'] {
        Some(32)
    } else if m == seq!['8'] {
        Some(64)
    } else {
        None
    }
}

/// The width marker of a bare peek or poke, which additionally accepts the
/// wildcard `*` as an alias for the 64-bit machine word.
pub open spec fn peek_mark(m: Seq<char>) -> Option<u8> {
    if m == seq!['*'] {
        Some(64)
    } else {
        width_of_mark(m)
    }
}

/// Bare memory accesses: `[w]` is a peek and `=[w]` a poke of the width named
/// by `w`.
pub open spec fn peek_poke(l: Seq<char>) -> Option<TokenModel> {
    if l.len() >= 2 && l[0] == '[' && l.last() == ']' && peek_mark(l.subrange(1, l.len() - 1)) is Some {
        Some(TokenModel::EPeek(peek_mark(l.subrange(1, l.len() - 1))->0))
    } else if l.len() >= 3 && l[0] == '=' && l[1] == '[' && l.last() == ']' && peek_mark(
        l.subrange(2, l.len() - 1),
    ) is Some {
        Some(TokenModel::EPoke(peek_mark(l.subrange(2, l.len() - 1))->0))
    } else {
        None
    }
}

/// The binary operation written as a single character in a compound operator.
pub open spec fn binop_token(c: char) -> Option<TokenModel> {
    match c {
        '&' => Some(TokenModel::EAnd),
        '|' => Some(TokenModel::EOr),
        '^' => Some(TokenModel::EXor),
        '+' => Some(TokenModel::EAdd),
        '-' => Some(TokenModel::ESub),
        '*' => Some(TokenModel::EMul),
        '/' => Some(TokenModel::EDiv),
        '%' => Some(TokenModel::EMod),
        _ => None,
    }
}

/// Expansion of an in-place operator `OP=` that writes back to a register:
/// duplicate both operands, apply the operation, discard one duplicate and
/// one leftover stack entry, then assign.
pub open spec fn reg_assign_expansion(op: TokenModel) -> Seq<TokenModel> {
    seq![
        TokenModel::PCopy(2),
        op,
        TokenModel::PPop(1),
        TokenModel::EPop,
        TokenModel::EEq,
    ]
}

/// Expansion of comparison sugar `<=` / `>=`: duplicate both operands,
/// compute the strict comparison, restore the duplicates, compute equality,
/// and OR the two results.
pub open spec fn cmp_or_expansion(op: TokenModel) -> Seq<TokenModel> {
    seq![
        TokenModel::PCopy(2),
        op,
        TokenModel::PPop(2),
        TokenModel::ECmp,
        TokenModel::EOr,
    ]
}

/// Compound operators that write back to a register, and the stack-only
/// increment/decrement and comparison forms.
pub open spec fn reg_compound(l: Seq<char>) -> Option<Seq<TokenModel>> {
    if l.len() == 2 && l[1] == '=' && binop_token(l[0]) is Some {
        Some(reg_assign_expansion(binop_token(l[0])->0))
    } else if l == seq!['<', '<', '='] {
        Some(reg_assign_expansion(TokenModel::ELsl))
    } else if l == seq!['>', '>', '='] {
        Some(reg_assign_expansion(TokenModel::ELsr))
    } else if l == seq!['<', '='] {
        Some(cmp_or_expansion(TokenModel::ELt))
    } else if l == seq!['>', '='] {
        Some(cmp_or_expansion(TokenModel::EGt))
    } else if l == seq!['!', '='] {
        Some(seq![TokenModel::PCopy(1), TokenModel::ENeg, TokenModel::EEq])
    } else if l == seq!['+', '+'] {
        Some(seq![TokenModel::PPop(1), TokenModel::EConstant(1), TokenModel::EAdd])
    } else if l == seq!['-', '-'] {
        Some(seq![TokenModel::PPop(1), TokenModel::EConstant(1), TokenModel::ESub])
    } else if l == seq!['+', '+', '='] {
        Some(
            seq![
                TokenModel::PCopy(1),
                TokenModel::EConstant(1),
                TokenModel::EAdd,
                TokenModel::PPop(1),
                TokenModel::EEq,
            ],
        )
    } else if l == seq!['-', '-', '='] {
        Some(
            seq![
                TokenModel::PCopy(1),
                TokenModel::EConstant(1),
                TokenModel::ESub,
                TokenModel::PPop(1),
                TokenModel::EEq,
            ],
        )
    } else {
        None
    }
}

/// Expansion of an in-place operator `OP=[w]` through a memory access:
/// duplicate the address, load the current value, apply the operation,
/// discard the duplicate and one leftover stack entry, then store the
/// result.
pub open spec fn mem_assign_expansion(op: TokenModel, w: u8) -> Seq<TokenModel> {
    seq![
        TokenModel::PCopy(1),
        TokenModel::EPeek(w),
        op,
        TokenModel::PPop(1),
        TokenModel::EPop,
        TokenModel::EPoke(w),
    ]
}

/// Expansion of `++=[w]`: duplicate the address, load, add the constant 1,
/// discard the duplicate, store.
pub open spec fn inc_mem_expansion(w: u8) -> Seq<TokenModel> {
    seq![
        TokenModel::PCopy(1),
        TokenModel::EPeek(w),
        TokenModel::EConstant(1),
        TokenModel::EAdd,
        TokenModel::PPop(1),
        TokenModel::EPoke(w),
    ]
}

/// Expansion of `--=[w]`: inject the constant 1, duplicate the address,
/// load, subtract, discard the duplicate, store.
pub open spec fn dec_mem_expansion(w: u8) -> Seq<TokenModel> {
    seq![
        TokenModel::EConstant(1),
        TokenModel::PPop(1),
        TokenModel::PCopy(1),
        TokenModel::EPeek(w),
        TokenModel::ESub,
        TokenModel::PPop(1),
        TokenModel::EPoke(w),
    ]
}

/// Compound operators that write back through a memory access of an explicit
/// or default width.
pub open spec fn mem_compound(l: Seq<char>) -> Option<Seq<TokenModel>> {
    if l.len() >= 4 && l[1] == '=' && l[2] == '[' && l.last() == ']' && binop_token(l[0]) is Some
        && width_of_mark(l.subrange(3, l.len() - 1)) is Some {
        Some(
            mem_assign_expansion(
                binop_token(l[0])->0,
                width_of_mark(l.subrange(3, l.len() - 1))->0,
            ),
        )
    } else if l.len() >= 5 && l[0] == '+' && l[1] == '+' && l[2] == '=' && l[3] == '['
        && l.last() == ']' && width_of_mark(l.subrange(4, l.len() - 1)) is Some {
        Some(inc_mem_expansion(width_of_mark(l.subrange(4, l.len() - 1))->0))
    } else if l.len() >= 5 && l[0] == '-' && l[1] == '-' && l[2] == '=' && l[3] == '['
        && l.last() == ']' && width_of_mark(l.subrange(4, l.len() - 1)) is Some {
        Some(dec_mem_expansion(width_of_mark(l.subrange(4, l.len() - 1))->0))
    } else {
        None
    }
}

/// The full opcode table: the token sequence of a lexeme that is an exact
/// match for an opcode mnemonic, or nothing for any other lexeme.
pub open spec fn opcode_tokens(l: Seq<char>) -> Option<Seq<TokenModel>> {
    if simple_opcode(l) is Some {
        Some(seq![simple_opcode(l)->0])
    } else if peek_poke(l) is Some {
        Some(seq![peek_poke(l)->0])
    } else if reg_compound(l) is Some {
        reg_compound(l)
    } else {
        mem_compound(l)
    }
}

// ---------------------------------------------------------------------------
// Lexeme classification and the whole transform
// ---------------------------------------------------------------------------

/// The numeric or identifier token of a lexeme that no earlier stage claimed:
/// first a base-16 parse with every leading `0x` stripped (so a lexeme of
/// plain hex digits is read as base 16 even without the prefix), then a
/// base-10 parse of the unstripped lexeme, and finally the lexeme itself as
/// an identifier.
pub open spec fn number_or_ident(l: Seq<char>) -> TokenModel {
    if parsed_numeral(strip_hex_prefix(l), 16, u64::MAX as nat) is Some {
        TokenModel::EConstant(parsed_numeral(strip_hex_prefix(l), 16, u64::MAX as nat)->0 as u64)
    } else if parsed_numeral(l, 10, u64::MAX as nat) is Some {
        TokenModel::EConstant(parsed_numeral(l, 10, u64::MAX as nat)->0 as u64)
    } else {
        TokenModel::EIdentifier(l)
    }
}

/// The token sequence of one raw lexeme: the opcode table first, then the
/// internal-variable parser for lexemes beginning with the `$` marker, then
/// the numeric/identifier classifier.
pub open spec fn lexeme_tokens(l: Seq<char>) -> Seq<TokenModel> {
    if opcode_tokens(l) is Some {
        opcode_tokens(l)->0
    } else if l.len() > 0 && l[0] == '$' {
        seq![internal_token(l)]
    } else {
        seq![number_or_ident(l)]
    }
}

/// The substrings obtained by splitting on the comma character, with empty
/// substrings kept; splitting the empty string yields one empty substring.
pub open spec fn split_commas(s: Seq<char>) -> Seq<Seq<char>>
    decreases s.len(),
{
    if s.len() == 0 {
        seq![Seq::<char>::empty()]
    } else if s.last() == ',' {
        split_commas(s.drop_last()).push(Seq::<char>::empty())
    } else {
        let parts = split_commas(s.drop_last());
        parts.update(parts.len() - 1, parts.last().push(s.last()))
    }
}

/// The concatenation of the token sequences of a list of lexemes, in order.
pub open spec fn tokens_of_lexemes(ls: Seq<Seq<char>>) -> Seq<TokenModel>
    decreases ls.len(),
{
    if ls.len() == 0 {
        Seq::empty()
    } else {
        tokens_of_lexemes(ls.drop_last()) + lexeme_tokens(ls.last())
    }
}

/// The token sequence of a whole ESIL string: split on commas, classify each
/// lexeme, and append the resulting tokens in program order.
pub open spec fn tokens_of(s: Seq<char>) -> Seq<TokenModel> {
    tokens_of_lexemes(split_commas(s))
}

} // verus!
