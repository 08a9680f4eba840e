use esil::{tokenize, Token, Tokenize, Tokenizer};

#[test]
fn esil_basic() {
    let op = vec![Token::EAdd];
    assert_eq!(op[0], Tokenizer::tokenize("+")[0]);
}

#[test]
fn atomic_single_operators() {
    assert_eq!(tokenize("+"), vec![Token::EAdd]);
    assert_eq!(tokenize("-"), vec![Token::ESub]);
    assert_eq!(tokenize("*"), vec![Token::EMul]);
    assert_eq!(tokenize("/"), vec![Token::EDiv]);
    assert_eq!(tokenize("%"), vec![Token::EMod]);
    assert_eq!(tokenize("&"), vec![Token::EAnd]);
    assert_eq!(tokenize("|"), vec![Token::EOr]);
    assert_eq!(tokenize("^"), vec![Token::EXor]);
    assert_eq!(tokenize("!"), vec![Token::ENeg]);
    assert_eq!(tokenize("="), vec![Token::EEq]);
    assert_eq!(tokenize("<"), vec![Token::ELt]);
    assert_eq!(tokenize(">"), vec![Token::EGt]);
    assert_eq!(tokenize("=="), vec![Token::ECmp]);
    assert_eq!(tokenize("$"), vec![Token::EInterrupt]);
    assert_eq!(tokenize("?{"), vec![Token::EIf]);
    assert_eq!(tokenize("}"), vec![Token::ENop]);
    assert_eq!(tokenize("<<"), vec![Token::ELsl]);
    assert_eq!(tokenize(">>"), vec![Token::ELsr]);
    assert_eq!(tokenize("<<<"), vec![Token::ERol]);
    assert_eq!(tokenize(">>>"), vec![Token::ERor]);
}

#[test]
fn atomic_word_operators() {
    assert_eq!(tokenize("STACK"), vec![Token::EDump]);
    assert_eq!(tokenize("POP"), vec![Token::EPop]);
    assert_eq!(tokenize("TODO"), vec![Token::ETodo]);
    assert_eq!(tokenize("GOTO"), vec![Token::EGoto]);
    assert_eq!(tokenize("BREAK"), vec![Token::EBreak]);
    assert_eq!(tokenize("CLEAR"), vec![Token::EClear]);
    assert_eq!(tokenize("DUP"), vec![Token::EDup]);
    assert_eq!(tokenize("TRAP"), vec![Token::ETrap]);
}

#[test]
fn compound_inplace_add_expansion() {
    assert_eq!(
        tokenize("+="),
        vec![
            Token::PCopy(2),
            Token::EAdd,
            Token::PPop(1),
            Token::EPop,
            Token::EEq,
        ]
    );
}

#[test]
fn compound_inplace_register_operators() {
    for (lexeme, op) in [
        ("-=", Token::ESub),
        ("*=", Token::EMul),
        ("/=", Token::EDiv),
        ("%=", Token::EMod),
        ("&=", Token::EAnd),
        ("|=", Token::EOr),
        ("^=", Token::EXor),
        ("<<=", Token::ELsl),
        (">>=", Token::ELsr),
    ] {
        assert_eq!(
            tokenize(lexeme),
            vec![
                Token::PCopy(2),
                op,
                Token::PPop(1),
                Token::EPop,
                Token::EEq,
            ]
        );
    }
}

#[test]
fn comparison_sugar_expansions() {
    assert_eq!(
        tokenize("<="),
        vec![
            Token::PCopy(2),
            Token::ELt,
            Token::PPop(2),
            Token::ECmp,
            Token::EOr,
        ]
    );
    assert_eq!(
        tokenize(">="),
        vec![
            Token::PCopy(2),
            Token::EGt,
            Token::PPop(2),
            Token::ECmp,
            Token::EOr,
        ]
    );
    assert_eq!(
        tokenize("!="),
        vec![Token::PCopy(1), Token::ENeg, Token::EEq]
    );
}

#[test]
fn increment_decrement_expansions() {
    assert_eq!(
        tokenize("++"),
        vec![Token::PPop(1), Token::EConstant(1), Token::EAdd]
    );
    assert_eq!(
        tokenize("--"),
        vec![Token::PPop(1), Token::EConstant(1), Token::ESub]
    );
    assert_eq!(
        tokenize("++="),
        vec![
            Token::PCopy(1),
            Token::EConstant(1),
            Token::EAdd,
            Token::PPop(1),
            Token::EEq,
        ]
    );
    assert_eq!(
        tokenize("--="),
        vec![
            Token::PCopy(1),
            Token::EConstant(1),
            Token::ESub,
            Token::PPop(1),
            Token::EEq,
        ]
    );
}

#[test]
fn peek_width_mapping() {
    assert_eq!(tokenize("[1]"), vec![Token::EPeek(8)]);
    assert_eq!(tokenize("[2]"), vec![Token::EPeek(16)]);
    assert_eq!(tokenize("[4]"), vec![Token::EPeek(32)]);
    assert_eq!(tokenize("[8]"), vec![Token::EPeek(64)]);
    assert_eq!(tokenize("[]"), vec![Token::EPeek(64)]);
    assert_eq!(tokenize("[*]"), vec![Token::EPeek(64)]);
}

#[test]
fn poke_width_mapping() {
    assert_eq!(tokenize("=[1]"), vec![Token::EPoke(8)]);
    assert_eq!(tokenize("=[2]"), vec![Token::EPoke(16)]);
    assert_eq!(tokenize("=[4]"), vec![Token::EPoke(32)]);
    assert_eq!(tokenize("=[8]"), vec![Token::EPoke(64)]);
    assert_eq!(tokenize("=[]"), vec![Token::EPoke(64)]);
    assert_eq!(tokenize("=[*]"), vec![Token::EPoke(64)]);
}

#[test]
fn compound_memory_operators() {
    assert_eq!(
        tokenize("+=[4]"),
        vec![
            Token::PCopy(1),
            Token::EPeek(32),
            Token::EAdd,
            Token::PPop(1),
            Token::EPop,
            Token::EPoke(32),
        ]
    );
    assert_eq!(
        tokenize("|=[]"),
        vec![
            Token::PCopy(1),
            Token::EPeek(64),
            Token::EOr,
            Token::PPop(1),
            Token::EPop,
            Token::EPoke(64),
        ]
    );
    assert_eq!(
        tokenize("^=[1]"),
        vec![
            Token::PCopy(1),
            Token::EPeek(8),
            Token::EXor,
            Token::PPop(1),
            Token::EPop,
            Token::EPoke(8),
        ]
    );
    assert_eq!(
        tokenize("%=[8]"),
        vec![
            Token::PCopy(1),
            Token::EPeek(64),
            Token::EMod,
            Token::PPop(1),
            Token::EPop,
            Token::EPoke(64),
        ]
    );
}

#[test]
fn compound_memory_increment_decrement() {
    assert_eq!(
        tokenize("++=[8]"),
        vec![
            Token::PCopy(1),
            Token::EPeek(64),
            Token::EConstant(1),
            Token::EAdd,
            Token::PPop(1),
            Token::EPoke(64),
        ]
    );
    assert_eq!(
        tokenize("--=[2]"),
        vec![
            Token::EConstant(1),
            Token::PPop(1),
            Token::PCopy(1),
            Token::EPeek(16),
            Token::ESub,
            Token::PPop(1),
            Token::EPoke(16),
        ]
    );
}

#[test]
fn numeric_radix_precedence() {
    // A lexeme of plain digits parses as base 16 even without the 0x prefix.
    assert_eq!(tokenize("10"), vec![Token::EConstant(16)]);
    assert_eq!(tokenize("0x10"), vec![Token::EConstant(16)]);
    assert_eq!(tokenize("0"), vec![Token::EConstant(0)]);
    assert_eq!(tokenize("ff"), vec![Token::EConstant(255)]);
    assert_eq!(tokenize("FF"), vec![Token::EConstant(255)]);
    // Every leading "0x" is stripped, the way trim_start_matches strips.
    assert_eq!(tokenize("0x0x10"), vec![Token::EConstant(16)]);
    // from_str_radix accepts one leading plus sign.
    assert_eq!(tokenize("+10"), vec![Token::EConstant(16)]);
    assert_eq!(tokenize("0x+10"), vec![Token::EConstant(16)]);
}

#[test]
fn numeric_decimal_fallback() {
    // Twenty digits overflow a u64 read in base 16, so the base-10 reading
    // gets its turn and succeeds.
    assert_eq!(
        tokenize("18446744073709551615"),
        vec![Token::EConstant(u64::MAX)]
    );
    // Too large for either radix: falls through to an identifier.
    assert_eq!(
        tokenize("99999999999999999999999999"),
        vec![Token::EIdentifier("99999999999999999999999999".to_string())]
    );
}

#[test]
fn identifier_fallback() {
    assert_eq!(tokenize("eax"), vec![Token::EIdentifier("eax".to_string())]);
    assert_eq!(tokenize("rsp"), vec![Token::EIdentifier("rsp".to_string())]);
    assert_eq!(tokenize("0x"), vec![Token::EIdentifier("0x".to_string())]);
    assert_eq!(tokenize("-5"), vec![Token::EIdentifier("-5".to_string())]);
    assert_eq!(tokenize("[3]"), vec![Token::EIdentifier("[3]".to_string())]);
    assert_eq!(
        tokenize("+=[*]"),
        vec![Token::EIdentifier("+=[*]".to_string())]
    );
    assert_eq!(
        tokenize("=[16]"),
        vec![Token::EIdentifier("=[16]".to_string())]
    );
    assert_eq!(
        tokenize("h\u{e9}llo"),
        vec![Token::EIdentifier("h\u{e9}llo".to_string())]
    );
}

#[test]
fn internal_variable_defaults() {
    assert_eq!(tokenize("$z"), vec![Token::IZero(0)]);
    assert_eq!(tokenize("$c"), vec![Token::ICarry(0)]);
    assert_eq!(tokenize("$p"), vec![Token::IParity(0)]);
    assert_eq!(tokenize("$o"), vec![Token::IOverflow(0)]);
    assert_eq!(tokenize("$s"), vec![Token::ISign(0)]);
    assert_eq!(tokenize("$b"), vec![Token::IBorrow(0)]);
    assert_eq!(tokenize("$r"), vec![Token::ISize(0)]);
    assert_eq!(tokenize("$$"), vec![Token::IAddress(0)]);
}

#[test]
fn internal_variable_bit_indices() {
    assert_eq!(tokenize("$z3"), vec![Token::IZero(3)]);
    assert_eq!(tokenize("$c31"), vec![Token::ICarry(31)]);
    assert_eq!(tokenize("$z255"), vec![Token::IZero(255)]);
    // Out of range for u8, or not digits at all: silently defaults to 0.
    assert_eq!(tokenize("$z256"), vec![Token::IZero(0)]);
    assert_eq!(tokenize("$zx"), vec![Token::IZero(0)]);
    // u8::from_str accepts a leading plus sign.
    assert_eq!(tokenize("$z+7"), vec![Token::IZero(7)]);
}

#[test]
fn internal_variable_unknown_kind() {
    assert_eq!(tokenize("$q"), vec![Token::EInvalid]);
    assert_eq!(tokenize("$1"), vec![Token::EInvalid]);
    assert_eq!(tokenize("$\u{e9}"), vec![Token::EInvalid]);
}

#[test]
fn empty_lexemes() {
    assert_eq!(tokenize(""), vec![Token::EIdentifier("".to_string())]);
    assert_eq!(
        tokenize("x,"),
        vec![
            Token::EIdentifier("x".to_string()),
            Token::EIdentifier("".to_string()),
        ]
    );
    assert_eq!(
        tokenize(","),
        vec![
            Token::EIdentifier("".to_string()),
            Token::EIdentifier("".to_string()),
        ]
    );
    assert_eq!(
        tokenize("x,,y"),
        vec![
            Token::EIdentifier("x".to_string()),
            Token::EIdentifier("".to_string()),
            Token::EIdentifier("y".to_string()),
        ]
    );
}

#[test]
fn purity_of_repeated_calls() {
    let program = "rax,rbx,+=,$z,0x1f,[4]";
    assert_eq!(tokenize(program), tokenize(program));
    assert_eq!(
        Tokenizer::tokenize(program),
        Tokenizer::tokenize(program)
    );
}

#[test]
fn end_to_end_scenarios() {
    assert_eq!(
        tokenize("3,4,+"),
        vec![Token::EConstant(3), Token::EConstant(4), Token::EAdd]
    );
    assert_eq!(
        tokenize("eax,+="),
        vec![
            Token::EIdentifier("eax".to_string()),
            Token::PCopy(2),
            Token::EAdd,
            Token::PPop(1),
            Token::EPop,
            Token::EEq,
        ]
    );
    assert_eq!(tokenize("$z3"), vec![Token::IZero(3)]);
}

#[test]
fn trait_and_free_function_agree() {
    let program = "cl,rax,<<=";
    assert_eq!(tokenize(program), Tokenizer::tokenize(program));
}
