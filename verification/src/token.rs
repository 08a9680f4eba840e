use vstd::prelude::*;

verus! {

/// One lexical token of an ESIL program.
///
/// The families are: primitive stack-machine opcodes (`E...` without a
/// payload, plus `EPeek`/`EPoke` carrying a bit width), internal-variable
/// pseudo-registers (`I...`, each carrying an 8-bit bit index), operands
/// (`EConstant`, `EIdentifier`), parser instructions directing the downstream
/// consumer (`PCopy`, `PPop`, `PSync`), and the `EInvalid` sentinel for an
/// unrecognized internal-variable kind.
#[derive(Debug, Clone, PartialEq)]
pub enum Token {
    EInterrupt,
    ECmp,
    ELt,
    EGt,
    EEq,
    EIf,
    ELsl,
    ELsr,
    ERor,
    ERol,
    EAnd,
    EOr,
    ENop,
    ENeg,
    EMul,
    EXor,
    EAdd,
    ESub,
    EDiv,
    EMod,
    EPoke(u8),
    EPeek(u8),
    EDump,
    EPop,
    ETodo,
    EGoto,
    EBreak,
    EClear,
    EDup,
    ETrap,
    IZero(u8),
    ICarry(u8),
    IParity(u8),
    IOverflow(u8),
    ISign(u8),
    IBorrow(u8),
    ISize(u8),
    IAddress(u8),
    EConstant(u64),
    EIdentifier(String),
    EInvalid,
    PCopy(usize),
    PPop(usize),
    PSync,
}

/// The mathematical shadow of [`Token`]: identical except that the identifier
/// payload is a `Seq<char>` instead of a `String`, so that spec functions can
/// construct and compare token values freely.
#[verifier::ext_equal]
pub enum TokenModel {
    EInterrupt,
    ECmp,
    ELt,
    EGt,
    EEq,
    EIf,
    ELsl,
    ELsr,
    ERor,
    ERol,
    EAnd,
    EOr,
    ENop,
    ENeg,
    EMul,
    EXor,
    EAdd,
    ESub,
    EDiv,
    EMod,
    EPoke(u8),
    EPeek(u8),
    EDump,
    EPop,
    ETodo,
    EGoto,
    EBreak,
    EClear,
    EDup,
    ETrap,
    IZero(u8),
    ICarry(u8),
    IParity(u8),
    IOverflow(u8),
    ISign(u8),
    IBorrow(u8),
    ISize(u8),
    IAddress(u8),
    EConstant(u64),
    EIdentifier(Seq<char>),
    EInvalid,
    PCopy(usize),
    PPop(usize),
    PSync,
}

impl View for Token {
    type V = TokenModel;

    open spec fn view(&self) -> TokenModel {
        match self {
            Token::EInterrupt => TokenModel::EInterrupt,
            Token::ECmp => TokenModel::ECmp,
            Token::ELt => TokenModel::ELt,
            Token::EGt => TokenModel::EGt,
            Token::EEq => TokenModel::EEq,
            Token::EIf => TokenModel::EIf,
            Token::ELsl => TokenModel::ELsl,
            Token::ELsr => TokenModel::ELsr,
            Token::ERor => TokenModel::ERor,
            Token::ERol => TokenModel::ERol,
            Token::EAnd => TokenModel::EAnd,
            Token::EOr => TokenModel::EOr,
            Token::ENop => TokenModel::ENop,
            Token::ENeg => TokenModel::ENeg,
            Token::EMul => TokenModel::EMul,
            Token::EXor => TokenModel::EXor,
            Token::EAdd => TokenModel::EAdd,
            Token::ESub => TokenModel::ESub,
            Token::EDiv => TokenModel::EDiv,
            Token::EMod => TokenModel::EMod,
            Token::EPoke(w) => TokenModel::EPoke(*w),
            Token::EPeek(w) => TokenModel::EPeek(*w),
            Token::EDump => TokenModel::EDump,
            Token::EPop => TokenModel::EPop,
            Token::ETodo => TokenModel::ETodo,
            Token::EGoto => TokenModel::EGoto,
            Token::EBreak => TokenModel::EBreak,
            Token::EClear => TokenModel::EClear,
            Token::EDup => TokenModel::EDup,
            Token::ETrap => TokenModel::ETrap,
            Token::IZero(b) => TokenModel::IZero(*b),
            Token::ICarry(b) => TokenModel::ICarry(*b),
            Token::IParity(b) => TokenModel::IParity(*b),
            Token::IOverflow(b) => TokenModel::IOverflow(*b),
            Token::ISign(b) => TokenModel::ISign(*b),
            Token::IBorrow(b) => TokenModel::IBorrow(*b),
            Token::ISize(b) => TokenModel::ISize(*b),
            Token::IAddress(b) => TokenModel::IAddress(*b),
            Token::EConstant(v) => TokenModel::EConstant(*v),
            Token::EIdentifier(s) => TokenModel::EIdentifier(s@),
            Token::EInvalid => TokenModel::EInvalid,
            Token::PCopy(n) => TokenModel::PCopy(*n),
            Token::PPop(n) => TokenModel::PPop(*n),
            Token::PSync => TokenModel::PSync,
        }
    }
}

/// The models of a sequence of executable tokens, element by element.
pub open spec fn views(ts: Seq<Token>) -> Seq<TokenModel> {
    ts.map_values(|t: Token| t@)
}

} // verus!
