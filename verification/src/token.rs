//! The token model: the closed token-kind enumeration and the token record
//! produced by the scanner.

use vstd::prelude::*;

verus! {

/// The kind of a scanned field: one structural keyword, one primitive-type
/// keyword, the ellipsis marker, a number, a generic identifier, or the
/// end-of-input marker.
#[derive(Clone, Copy, PartialEq, Eq, Structural, Debug)]
pub enum CSVTokenType {
    MsgTy,
    SubTy,
    MsgData,
    SubMsgData,
    TlvType,
    TlvData,
    ShortChannelId,
    Sha256,
    U16,
    U32,
    U64,
    ChannelId,
    Signature,
    Point,
    ChainHash,
    Byte,
    BigSize,
    LiteralString,
    Number,
    Tu32,
    Tu64,
    Tlvs,
    Dotdotdot,
    Data,
    EOF,
}

impl CSVTokenType {
    /// The source spelling of this token kind, as the keyword table writes it.
    pub fn name(&self) -> (r: &'static str)
        ensures
            r@ == token_type_name(*self),
    {
        match self {
            CSVTokenType::MsgTy => "msgtype",
            CSVTokenType::SubTy => "subtype",
            CSVTokenType::SubMsgData => "subtypedata",
            CSVTokenType::MsgData => "msgdata",
            CSVTokenType::TlvType => "tlvtype",
            CSVTokenType::TlvData => "tlvdata",
            CSVTokenType::ShortChannelId => "short_channel_id",
            CSVTokenType::Sha256 => "sha256",
            CSVTokenType::U16 => "u16",
            CSVTokenType::U32 => "u32",
            CSVTokenType::U64 => "u64",
            CSVTokenType::ChannelId => "channel_id",
            CSVTokenType::Signature => "signature",
            CSVTokenType::Point => "point",
            CSVTokenType::ChainHash => "chain_hash",
            CSVTokenType::Byte => "byte",
            CSVTokenType::BigSize => "bigsize",
            CSVTokenType::Tu32 => "tu32",
            CSVTokenType::Tu64 => "tu64",
            CSVTokenType::Tlvs => "tlvs",
            CSVTokenType::Dotdotdot => "...",
            CSVTokenType::Data => "data",
            CSVTokenType::Number => "number",
            CSVTokenType::LiteralString => "str",
            CSVTokenType::EOF => "eof",
        }
    }
}

/// The source spelling of each token kind.
pub open spec fn token_type_name(ty: CSVTokenType) -> Seq<char> {
    match ty {
        CSVTokenType::MsgTy => "msgtype"@,
        CSVTokenType::SubTy => "subtype"@,
        CSVTokenType::SubMsgData => "subtypedata"@,
        CSVTokenType::MsgData => "msgdata"@,
        CSVTokenType::TlvType => "tlvtype"@,
        CSVTokenType::TlvData => "tlvdata"@,
        CSVTokenType::ShortChannelId => "short_channel_id"@,
        CSVTokenType::Sha256 => "sha256"@,
        CSVTokenType::U16 => "u16"@,
        CSVTokenType::U32 => "u32"@,
        CSVTokenType::U64 => "u64"@,
        CSVTokenType::ChannelId => "channel_id"@,
        CSVTokenType::Signature => "signature"@,
        CSVTokenType::Point => "point"@,
        CSVTokenType::ChainHash => "chain_hash"@,
        CSVTokenType::Byte => "byte"@,
        CSVTokenType::BigSize => "bigsize"@,
        CSVTokenType::Tu32 => "tu32"@,
        CSVTokenType::Tu64 => "tu64"@,
        CSVTokenType::Tlvs => "tlvs"@,
        CSVTokenType::Dotdotdot => "..."@,
        CSVTokenType::Data => "data"@,
        CSVTokenType::Number => "number"@,
        CSVTokenType::LiteralString => "str"@,
        CSVTokenType::EOF => "eof"@,
    }
}

/// One scanned token: its kind, the trimmed field text it came from, and the
/// 1-based source line it stood on. Keyword tokens come from the fixed keyword
/// table and carry no line.
#[derive(PartialEq, Debug)]
pub struct CSVToken {
    pub ty: CSVTokenType,
    pub val: String,
    pub code_line: Option<u64>,
}

/// The mathematical model of a token.
#[verifier::ext_equal]
pub struct TokenModel {
    pub ty: CSVTokenType,
    pub val: Seq<char>,
    pub line: Option<u64>,
}

impl Clone for CSVToken {
    fn clone(&self) -> (r: Self)
        ensures
            r == *self,
    {
        CSVToken { ty: self.ty, val: self.val.clone(), code_line: self.code_line }
    }
}

impl View for CSVToken {
    type V = TokenModel;

    open spec fn view(&self) -> TokenModel {
        TokenModel { ty: self.ty, val: self.val@, line: self.code_line }
    }
}

impl DeepView for CSVToken {
    type V = TokenModel;

    open spec fn deep_view(&self) -> TokenModel {
        self.view()
    }
}

} // verus!
