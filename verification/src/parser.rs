//! The recursive-descent parser: consumes the scanner's token sequence and
//! builds the symbol table, enforcing the per-line grammar and the cross-line
//! reference rules. Every structural mismatch aborts the whole parse with a
//! typed error; there is no partial output.

use vstd::prelude::*;

use crate::ast::{
    ItemModel, LNMsData, LNMsg, LNMsgType, LNSubType, LNTlvEntry, LNTlvRecord, MsgDataModel,
    MsgModel, SubTypeModel, TlvEntryModel, TlvRecordModel,
};
use crate::error::{ErrModel, ErrorReason, StructuralError};
use crate::symbol::{lemma_st_insert_tlv_keyed, st_insert, tlv_keyed, SymbolTable, TableModel};
use crate::text::{chars_of, dec_val, is_number, parse_u64_chars, str_eq};
use crate::token::{CSVToken, CSVTokenType, TokenModel};

verus! {

/// The error for a token sequence that ends without its end-of-input marker.
pub open spec fn end_err() -> ErrModel {
    ErrModel { reason: ErrorReason::UnexpectedEnd, found: ""@, line: None }
}

/// The error for an offending token.
pub open spec fn tok_err(reason: ErrorReason, tok: TokenModel) -> ErrModel {
    ErrModel { reason, found: tok.val, line: tok.line }
}

/// Whether a token kind opens a declaration line: the structural keywords.
pub open spec fn is_decl_ty(ty: CSVTokenType) -> bool {
    ty == CSVTokenType::MsgData || ty == CSVTokenType::MsgTy || ty == CSVTokenType::TlvType
        || ty == CSVTokenType::TlvData || ty == CSVTokenType::SubTy || ty
        == CSVTokenType::SubMsgData
}

/// Whether a token's text reads as a number that fits in 64 bits.
pub open spec fn is_u64_numeral(s: Seq<char>) -> bool {
    is_number(s) && dec_val(s) <= u64::MAX
}

/// Appending a field to a message, with the bitfield merge: a byte-array
/// field whose message ends in a plain 16-bit integer field replaces that
/// integer in place, because the integer was only its length prefix.
pub open spec fn sp_append_field(m: MsgModel, f: MsgDataModel) -> MsgModel {
    if m.data.len() > 0 && m.data.last() is Uint16 && f is BitfieldStream {
        MsgModel { data: m.data.update(m.data.len() - 1, f), ..m }
    } else {
        MsgModel { data: m.data.push(f), ..m }
    }
}

/// A `msgtype` line after its keyword: the name, the numeric type, and an
/// optional trailing `gossip_queries` marker.
pub open spec fn sp_msg_typ(t: Seq<TokenModel>, i: int) -> Result<(MsgModel, int), ErrModel> {
    if i >= t.len() {
        Err(end_err())
    } else if i + 1 >= t.len() {
        Err(end_err())
    } else if t[i + 1].ty != CSVTokenType::Number {
        Err(tok_err(ErrorReason::ExpectedNumber, t[i + 1]))
    } else if !is_u64_numeral(t[i + 1].val) {
        Err(tok_err(ErrorReason::NumberOutOfRange, t[i + 1]))
    } else if i + 2 >= t.len() {
        Err(end_err())
    } else {
        let m = MsgModel {
            typ: dec_val(t[i + 1].val) as u64,
            name: t[i].val,
            data: Seq::empty(),
            gossip_query: false,
        };
        if t[i + 2].val == "gossip_queries"@ {
            Ok((MsgModel { gossip_query: true, ..m }, i + 3))
        } else {
            Ok((m, i + 2))
        }
    }
}

/// The length reference of a byte-array field: the next token, unless a
/// structural keyword or the end of input follows, in which case it defaults
/// to the literal `1`.
pub open spec fn sp_byte_field(t: Seq<TokenModel>, i: int, name: Seq<char>) -> Result<
    (MsgDataModel, int),
    ErrModel,
> {
    if i + 4 >= t.len() {
        Err(end_err())
    } else if !is_decl_ty(t[i + 4].ty) && t[i + 4].ty != CSVTokenType::EOF {
        Ok((MsgDataModel::BitfieldStream(name, t[i + 4].val), i + 5))
    } else {
        Ok((MsgDataModel::BitfieldStream(name, "1"@), i + 4))
    }
}

/// A `msgdata` or `subtypedata` line at `i`: checks the name reference,
/// dispatches on the field type, and appends the field (with the bitfield
/// merge) to the open message.
pub open spec fn sp_msg_data(t: Seq<TokenModel>, i: int, m: MsgModel) -> Result<
    (MsgModel, int),
    ErrModel,
> {
    if i + 1 >= t.len() {
        Err(end_err())
    } else if t[i + 1].val != m.name {
        Err(tok_err(ErrorReason::NameMismatch, t[i + 1]))
    } else if i + 2 >= t.len() {
        Err(end_err())
    } else if i + 3 >= t.len() {
        Err(end_err())
    } else {
        let name = t[i + 2].val;
        let field: Result<(MsgDataModel, int), ErrModel> = match t[i + 3].ty {
            CSVTokenType::U16 => Ok((MsgDataModel::Uint16(name), i + 4)),
            CSVTokenType::U32 => Ok((MsgDataModel::Uint32(name), i + 4)),
            CSVTokenType::U64 => Ok((MsgDataModel::Uint64(name), i + 4)),
            CSVTokenType::ChainHash => Ok((MsgDataModel::ChainHash(name, name), i + 4)),
            CSVTokenType::ChannelId => Ok((MsgDataModel::ChannelId(name), i + 4)),
            CSVTokenType::Signature => Ok((MsgDataModel::Signature(name), i + 4)),
            CSVTokenType::ShortChannelId => Ok((MsgDataModel::ShortChannelId(name), i + 4)),
            CSVTokenType::Point => Ok((MsgDataModel::Point(name), i + 4)),
            CSVTokenType::Byte => sp_byte_field(t, i, name),
            CSVTokenType::LiteralString => {
                if t[i + 3].val == "amount_sat"@ {
                    Ok((MsgDataModel::Uint16(name), i + 4))
                } else if t[i + 3].val == "u8"@ {
                    sp_byte_field(t, i, name)
                } else {
                    Ok((MsgDataModel::TLVinit(t[i + 3].val, name), i + 4))
                }
            },
            _ => Err(tok_err(ErrorReason::UnknownFieldType, t[i + 3])),
        };
        match field {
            Err(e) => Err(e),
            Ok((f, j)) => Ok((sp_append_field(m, f), j)),
        }
    }
}

/// The run of data lines that extend the open message: as long as the next
/// token opens a data line of the right kind.
pub open spec fn sp_msg_datas(t: Seq<TokenModel>, i: int, m: MsgModel, kind: CSVTokenType) -> Result<
    (MsgModel, int),
    ErrModel,
>
    decreases t.len() - i,
{
    if 0 <= i < t.len() && t[i].ty == kind {
        match sp_msg_data(t, i, m) {
            Err(e) => Err(e),
            Ok((m2, j)) => {
                if i < j <= t.len() {
                    sp_msg_datas(t, j, m2, kind)
                } else {
                    Ok((m2, j))
                }
            },
        }
    } else {
        Ok((m, i))
    }
}

/// A whole message declaration at `i`: its `msgtype` line and its run of
/// `msgdata` lines.
pub open spec fn sp_msg(t: Seq<TokenModel>, i: int) -> Result<(MsgModel, int), ErrModel> {
    match sp_msg_typ(t, i + 1) {
        Err(e) => Err(e),
        Ok((m, j)) => sp_msg_datas(t, j, m, CSVTokenType::MsgData),
    }
}

/// A `tlvtype` line at `i`: opens a TLV record.
pub open spec fn sp_tlv_typ(t: Seq<TokenModel>, i: int) -> Result<(TlvRecordModel, int), ErrModel> {
    if i + 1 >= t.len() {
        Err(end_err())
    } else if t[i + 1].ty != CSVTokenType::LiteralString {
        Err(tok_err(ErrorReason::ExpectedIdentifier, t[i + 1]))
    } else if i + 2 >= t.len() {
        Err(end_err())
    } else if i + 3 >= t.len() {
        Err(end_err())
    } else if !is_u64_numeral(t[i + 3].val) {
        Err(tok_err(ErrorReason::NumberOutOfRange, t[i + 3]))
    } else {
        Ok(
            (
                TlvRecordModel {
                    stream: t[i + 1].val,
                    record: t[i + 2].val,
                    type_len: dec_val(t[i + 3].val) as u64,
                    entries: Seq::empty(),
                },
                i + 4,
            ),
        )
    }
}

/// A `tlvdata` line at `i`: checks the stream and record references and
/// appends one entry; a trailing ellipsis token is consumed and discarded.
pub open spec fn sp_tlv_data(t: Seq<TokenModel>, i: int, rec: TlvRecordModel) -> Result<
    (TlvRecordModel, int),
    ErrModel,
> {
    if i + 1 >= t.len() {
        Err(end_err())
    } else if t[i + 1].val != rec.stream {
        Err(tok_err(ErrorReason::NameMismatch, t[i + 1]))
    } else if i + 2 >= t.len() {
        Err(end_err())
    } else if t[i + 2].val != rec.record {
        Err(tok_err(ErrorReason::NameMismatch, t[i + 2]))
    } else if i + 3 >= t.len() {
        Err(end_err())
    } else if i + 4 >= t.len() {
        Err(end_err())
    } else {
        let entry = TlvEntryModel { name: t[i + 3].val, ty: t[i + 4].val, encoding: None };
        let rec2 = TlvRecordModel { entries: rec.entries.push(entry), ..rec };
        if i + 5 < t.len() && t[i + 5].ty == CSVTokenType::Dotdotdot {
            Ok((rec2, i + 6))
        } else {
            Ok((rec2, i + 5))
        }
    }
}

/// The run of `tlvdata` lines that extend the open TLV record.
pub open spec fn sp_tlv_datas(t: Seq<TokenModel>, i: int, rec: TlvRecordModel) -> Result<
    (TlvRecordModel, int),
    ErrModel,
>
    decreases t.len() - i,
{
    if 0 <= i < t.len() && t[i].ty == CSVTokenType::TlvData {
        match sp_tlv_data(t, i, rec) {
            Err(e) => Err(e),
            Ok((rec2, j)) => {
                if i < j <= t.len() {
                    sp_tlv_datas(t, j, rec2)
                } else {
                    Ok((rec2, j))
                }
            },
        }
    } else {
        Ok((rec, i))
    }
}

/// A whole TLV record declaration at `i`: its `tlvtype` line and its run of
/// `tlvdata` lines.
pub open spec fn sp_tlv(t: Seq<TokenModel>, i: int) -> Result<(TlvRecordModel, int), ErrModel> {
    match sp_tlv_typ(t, i) {
        Err(e) => Err(e),
        Ok((rec, j)) => sp_tlv_datas(t, j, rec),
    }
}

/// A whole subtype declaration at `i`: its `subtype` line and its run of
/// `subtypedata` lines, which reuse the message field grammar.
pub open spec fn sp_subtype(t: Seq<TokenModel>, i: int) -> Result<(SubTypeModel, int), ErrModel> {
    if i + 1 >= t.len() {
        Err(end_err())
    } else {
        let fake = MsgModel {
            typ: 0,
            name: t[i + 1].val,
            data: Seq::empty(),
            gossip_query: false,
        };
        match sp_msg_datas(t, i + 2, fake, CSVTokenType::SubMsgData) {
            Err(e) => Err(e),
            Ok((m, j)) => Ok((SubTypeModel { name: t[i + 1].val, data: m.data }, j)),
        }
    }
}

/// The whole parse from position `i`: one declaration per round, committed
/// into the symbol table, until the end-of-input token. A missing
/// end-of-input marker, an unknown line-opening token and a name clash each
/// abort the parse.
pub open spec fn sp_parse(t: Seq<TokenModel>, i: int, tbl: TableModel) -> Result<
    TableModel,
    ErrModel,
>
    decreases t.len() - i,
{
    if i < 0 || i >= t.len() {
        Err(end_err())
    } else if t[i].ty == CSVTokenType::EOF {
        Ok(tbl)
    } else if t[i].ty == CSVTokenType::MsgTy {
        match sp_msg(t, i) {
            Err(e) => Err(e),
            Ok((m, j)) => match st_insert(tbl, m.name, ItemModel::Msg(m)) {
                None => Err(tok_err(ErrorReason::DuplicateName, t[i + 1])),
                Some(tbl2) => {
                    if i < j <= t.len() {
                        sp_parse(t, j, tbl2)
                    } else {
                        Ok(tbl2)
                    }
                },
            },
        }
    } else if t[i].ty == CSVTokenType::SubTy {
        match sp_subtype(t, i) {
            Err(e) => Err(e),
            Ok((s, j)) => match st_insert(tbl, s.name, ItemModel::SubType(s)) {
                None => Err(tok_err(ErrorReason::DuplicateName, t[i + 1])),
                Some(tbl2) => {
                    if i < j <= t.len() {
                        sp_parse(t, j, tbl2)
                    } else {
                        Ok(tbl2)
                    }
                },
            },
        }
    } else if t[i].ty == CSVTokenType::TlvType {
        match sp_tlv(t, i) {
            Err(e) => Err(e),
            Ok((rec, j)) => match st_insert(tbl, rec.stream, ItemModel::Tlv(rec)) {
                None => Err(tok_err(ErrorReason::DuplicateName, t[i + 1])),
                Some(tbl2) => {
                    if i < j <= t.len() {
                        sp_parse(t, j, tbl2)
                    } else {
                        Ok(tbl2)
                    }
                },
            },
        }
    } else {
        Err(tok_err(ErrorReason::UnexpectedToken, t[i]))
    }
}

/// A successful data line moves the cursor forward by four or five tokens,
/// at most to the end.
proof fn lemma_sp_msg_data_bounds(t: Seq<TokenModel>, i: int, m: MsgModel)
    requires
        0 <= i,
        sp_msg_data(t, i, m) is Ok,
    ensures
        i + 4 <= sp_msg_data(t, i, m)->Ok_0.1 <= t.len(),
{
}

/// A successful TLV data line moves the cursor forward by five or six
/// tokens, at most to the end.
proof fn lemma_sp_tlv_data_bounds(t: Seq<TokenModel>, i: int, rec: TlvRecordModel)
    requires
        0 <= i,
        sp_tlv_data(t, i, rec) is Ok,
    ensures
        i + 5 <= sp_tlv_data(t, i, rec)->Ok_0.1 <= t.len(),
{
}

/// A successful run of data lines only moves the cursor forward, at most to
/// the end.
proof fn lemma_sp_msg_datas_bounds(t: Seq<TokenModel>, i: int, m: MsgModel, kind: CSVTokenType)
    requires
        0 <= i <= t.len(),
        sp_msg_datas(t, i, m, kind) is Ok,
    ensures
        i <= sp_msg_datas(t, i, m, kind)->Ok_0.1 <= t.len(),
    decreases t.len() - i,
{
    if 0 <= i < t.len() && t[i].ty == kind {
        if let Ok((m2, j)) = sp_msg_data(t, i, m) {
            if i < j <= t.len() {
                lemma_sp_msg_datas_bounds(t, j, m2, kind);
            }
        }
    }
}

/// A successful message declaration moves the cursor strictly forward, at
/// most to the end.
proof fn lemma_sp_msg_bounds(t: Seq<TokenModel>, i: int)
    requires
        0 <= i < t.len(),
        sp_msg(t, i) is Ok,
    ensures
        i < sp_msg(t, i)->Ok_0.1 <= t.len(),
{
    if let Ok((m, j)) = sp_msg_typ(t, i + 1) {
        assert(i < j <= t.len());
        lemma_sp_msg_datas_bounds(t, j, m, CSVTokenType::MsgData);
    }
}

/// A successful run of TLV data lines only moves the cursor forward, at most
/// to the end.
proof fn lemma_sp_tlv_datas_bounds(t: Seq<TokenModel>, i: int, rec: TlvRecordModel)
    requires
        0 <= i <= t.len(),
        sp_tlv_datas(t, i, rec) is Ok,
    ensures
        i <= sp_tlv_datas(t, i, rec)->Ok_0.1 <= t.len(),
    decreases t.len() - i,
{
    if 0 <= i < t.len() && t[i].ty == CSVTokenType::TlvData {
        if let Ok((rec2, j)) = sp_tlv_data(t, i, rec) {
            if i < j <= t.len() {
                lemma_sp_tlv_datas_bounds(t, j, rec2);
            }
        }
    }
}

/// A successful TLV record declaration moves the cursor strictly forward, at
/// most to the end.
proof fn lemma_sp_tlv_bounds(t: Seq<TokenModel>, i: int)
    requires
        0 <= i < t.len(),
        sp_tlv(t, i) is Ok,
    ensures
        i < sp_tlv(t, i)->Ok_0.1 <= t.len(),
{
    if let Ok((rec, j)) = sp_tlv_typ(t, i) {
        assert(i < j <= t.len());
        lemma_sp_tlv_datas_bounds(t, j, rec);
    }
}

/// A successful subtype declaration moves the cursor strictly forward, at
/// most to the end.
proof fn lemma_sp_subtype_bounds(t: Seq<TokenModel>, i: int)
    requires
        0 <= i < t.len(),
        sp_subtype(t, i) is Ok,
    ensures
        i < sp_subtype(t, i)->Ok_0.1 <= t.len(),
{
    if i + 1 < t.len() {
        let fake = MsgModel {
            typ: 0,
            name: t[i + 1].val,
            data: Seq::empty(),
            gossip_query: false,
        };
        lemma_sp_msg_datas_bounds(t, i + 2, fake, CSVTokenType::SubMsgData);
    }
}

} // verus!

verus! {

/// The parser: a cursor over the token sequence and the symbol table under
/// construction.
pub struct Parser {
    pub symbol_table: SymbolTable,
    pub pos: usize,
}

impl Default for Parser {
    fn default() -> (r: Self)
        ensures
            r.wf(),
            r.symbol_table@ == Seq::<(Seq<char>, ItemModel)>::empty(),
            r.cursor() == 0,
    {
        Parser::new()
    }
}

impl Parser {
    /// The symbol table under construction is well formed.
    pub open spec fn wf(&self) -> bool {
        self.symbol_table.wf()
    }

    /// The cursor's position in the token sequence.
    pub open spec fn cursor(&self) -> int {
        self.pos as int
    }

    /// Builds a parser with an empty symbol table, at the start of the
    /// token sequence.
    pub fn new() -> (r: Self)
        ensures
            r.wf(),
            r.symbol_table@ == Seq::<(Seq<char>, ItemModel)>::empty(),
            r.cursor() == 0,
    {
        Self { pos: 0, symbol_table: SymbolTable::new() }
    }

    /// Commits a message into the symbol table under its name.
    fn symbol_table_add_lnmsg(&mut self, msg: &LNMsg) -> (r: Result<(), ()>)
        requires
            old(self).wf(),
        ensures
            final(self).wf(),
            final(self).cursor() == old(self).cursor(),
            match st_insert(old(self).symbol_table@, msg@.name, ItemModel::Msg(msg@)) {
                Some(t) => r is Ok && final(self).symbol_table@ == t,
                None => r is Err && final(self).symbol_table@ == old(self).symbol_table@,
            },
    {
        self.symbol_table.insert(msg.msg_name.clone(), LNMsgType::Msg(msg.clone()))
    }

    /// Commits a TLV record into the symbol table under its stream name.
    fn symbol_table_add_tlv(&mut self, tlv: &LNTlvRecord) -> (r: Result<(), ()>)
        requires
            old(self).wf(),
        ensures
            final(self).wf(),
            final(self).cursor() == old(self).cursor(),
            match st_insert(old(self).symbol_table@, tlv@.stream, ItemModel::Tlv(tlv@)) {
                Some(t) => r is Ok && final(self).symbol_table@ == t,
                None => r is Err && final(self).symbol_table@ == old(self).symbol_table@,
            },
    {
        self.symbol_table.insert(tlv.stream_name.clone(), LNMsgType::Tlv(tlv.clone()))
    }

    /// The token under the cursor.
    fn peek<'p>(&self, tokens: &'p [CSVToken]) -> (r: &'p CSVToken)
        requires
            self.cursor() < tokens@.len(),
        ensures
            r@ == tokens.deep_view()[self.cursor()],
    {
        &tokens[self.pos]
    }

    /// The token under the cursor, moving the cursor past it.
    fn advance<'p>(&mut self, tokens: &'p [CSVToken]) -> (r: &'p CSVToken)
        requires
            old(self).cursor() < tokens@.len(),
        ensures
            final(self).cursor() == old(self).cursor() + 1,
            final(self).symbol_table == old(self).symbol_table,
            r@ == tokens.deep_view()[old(self).cursor()],
    {
        let n = tokens.len();
        proof {
            assert(self.pos < n);
        }
        self.pos += 1;
        &tokens[self.pos - 1]
    }

    /// The token two places behind the cursor, if the sequence reaches it.
    fn lookup_last<'p>(&self, tokens: &'p [CSVToken]) -> (r: Option<&'p CSVToken>)
        requires
            self.cursor() >= 2,
        ensures
            (r is Some) == (self.cursor() - 2 < tokens@.len()),
            r is Some ==> r->Some_0@ == tokens.deep_view()[self.cursor() - 2],
    {
        let i = self.pos - 2;
        if i < tokens.len() {
            Some(&tokens[i])
        } else {
            None
        }
    }

    /// Whether the token under the cursor opens a declaration line: one of
    /// the structural keywords.
    fn peek_and_check_if_type_declaration(&self, tokens: &[CSVToken]) -> (r: bool)
        requires
            self.cursor() < tokens@.len(),
        ensures
            r == is_decl_ty(tokens.deep_view()[self.cursor()].ty),
    {
        let next = self.peek(tokens);
        matches!(
            next.ty,
            CSVTokenType::MsgData
                | CSVTokenType::MsgTy
                | CSVTokenType::TlvType
                | CSVTokenType::TlvData
                | CSVTokenType::SubTy
                | CSVTokenType::SubMsgData,
        )
    }

    /// Whether the token under the cursor is the ellipsis marker; a cursor
    /// past the end counts as no marker.
    fn peek_and_check_if_dotdot(&self, tokens: &[CSVToken]) -> (r: bool)
        ensures
            r == (self.cursor() < tokens@.len() && tokens.deep_view()[self.cursor()].ty
                == CSVTokenType::Dotdotdot),
    {
        if self.pos >= tokens.len() {
            return false;
        }
        matches!(self.peek(tokens).ty, CSVTokenType::Dotdotdot)
    }

    /// The error for a cursor that ran past the end of the tokens.
    fn end_error(&self) -> (r: StructuralError)
        ensures
            r@ == end_err(),
    {
        StructuralError::new(ErrorReason::UnexpectedEnd, "", None)
    }

    /// The error for the offending token `tok`.
    fn error_at(&self, reason: ErrorReason, tok: &CSVToken) -> (r: StructuralError)
        ensures
            r@ == tok_err(reason, tok@),
    {
        StructuralError::new(reason, tok.val.as_str(), tok.code_line)
    }

    /// Reads a `msgtype` line after its keyword: the message name, its
    /// numeric type, and the optional trailing `gossip_queries` marker.
    fn parse_msg_typ(&mut self, tokens: &[CSVToken]) -> (r: Result<LNMsg, StructuralError>)
        ensures
            final(self).symbol_table == old(self).symbol_table,
            match sp_msg_typ(tokens.deep_view(), old(self).cursor()) {
                Ok(res) => r is Ok && r->Ok_0@ == res.0 && final(self).cursor() == res.1,
                Err(e) => r is Err && r->Err_0@ == e,
            },
    {
        if self.pos >= tokens.len() {
            return Err(self.end_error());
        }
        let msg_name = self.advance(tokens);
        if self.pos >= tokens.len() {
            return Err(self.end_error());
        }
        let msg_type = self.advance(tokens);
        if !matches!(msg_type.ty, CSVTokenType::Number) {
            return Err(self.error_at(ErrorReason::ExpectedNumber, msg_type));
        }
        let digits = chars_of(msg_type.val.as_str());
        let typ = match parse_u64_chars(&digits) {
            Some(v) => v,
            None => {
                return Err(self.error_at(ErrorReason::NumberOutOfRange, msg_type));
            },
        };
        let mut msg = LNMsg::new(typ, msg_name.val.as_str());
        if self.pos >= tokens.len() {
            return Err(self.end_error());
        }
        let next = self.peek(tokens);
        if str_eq(next.val.as_str(), "gossip_queries") {
            msg.is_gossip_query = true;
            let _ = self.advance(tokens);
        }
        proof {
            let res = sp_msg_typ(tokens.deep_view(), old(self).cursor())->Ok_0;
            assert(msg@ =~= res.0);
        }
        Ok(msg)
    }

    /// Reads a `msgdata` or `subtypedata` line into the open message,
    /// checking its name reference, dispatching on the field type, and
    /// merging a byte-array field into its 16-bit length prefix.
    fn parse_msg_data(&mut self, target_msg: &mut LNMsg, tokens: &[CSVToken]) -> (r: Result<
        (),
        StructuralError,
    >)
        requires
            old(self).cursor() < tokens@.len(),
            tokens.deep_view()[old(self).cursor()].ty == CSVTokenType::MsgData
                || tokens.deep_view()[old(self).cursor()].ty == CSVTokenType::SubMsgData,
        ensures
            final(self).symbol_table == old(self).symbol_table,
            match sp_msg_data(tokens.deep_view(), old(self).cursor(), old(target_msg)@) {
                Ok(res) => r is Ok && final(target_msg)@ == res.0 && final(self).cursor()
                    == res.1,
                Err(e) => r is Err && r->Err_0@ == e,
            },
    {
        let ghost tv = tokens.deep_view();
        let ghost i = old(self).cursor();
        let _ = self.advance(tokens);
        if self.pos >= tokens.len() {
            return Err(self.end_error());
        }
        let name_tok = self.advance(tokens);
        if !str_eq(name_tok.val.as_str(), target_msg.msg_name.as_str()) {
            return Err(self.error_at(ErrorReason::NameMismatch, name_tok));
        }
        if self.pos >= tokens.len() {
            return Err(self.end_error());
        }
        let field_tok = self.advance(tokens);
        if self.pos >= tokens.len() {
            return Err(self.end_error());
        }
        let ty_tok = self.advance(tokens);
        let msg_data: LNMsData = match ty_tok.ty {
            CSVTokenType::U16 => {
                let tok = self.lookup_last(tokens).unwrap();
                LNMsData::Uint16(tok.val.clone())
            },
            CSVTokenType::U32 => {
                let tok = self.lookup_last(tokens).unwrap();
                LNMsData::Uint32(tok.val.clone())
            },
            CSVTokenType::U64 => {
                let tok = self.lookup_last(tokens).unwrap();
                LNMsData::Uint64(tok.val.clone())
            },
            CSVTokenType::ChainHash => {
                let msg_val = self.lookup_last(tokens).unwrap();
                LNMsData::ChainHash(msg_val.val.clone(), msg_val.val.clone())
            },
            CSVTokenType::ChannelId => {
                let msg_val = self.lookup_last(tokens).unwrap();
                LNMsData::ChannelId(msg_val.val.clone())
            },
            CSVTokenType::Signature => {
                let msg_val = self.lookup_last(tokens).unwrap();
                LNMsData::Signature(msg_val.val.clone())
            },
            CSVTokenType::ShortChannelId => {
                let msg_val = self.lookup_last(tokens).unwrap();
                LNMsData::ShortChannelId(msg_val.val.clone())
            },
            CSVTokenType::Point => {
                let msg_val = self.lookup_last(tokens).unwrap();
                LNMsData::Point(msg_val.val.clone())
            },
            CSVTokenType::Byte => {
                let tok = self.lookup_last(tokens).unwrap();
                let name = tok.val.clone();
                match self.parse_byte_size(tokens) {
                    Ok(size) => LNMsData::BitfieldStream(name, size),
                    Err(e) => {
                        return Err(e);
                    },
                }
            },
            CSVTokenType::LiteralString => {
                if str_eq(ty_tok.val.as_str(), "amount_sat") {
                    let tok = self.lookup_last(tokens).unwrap();
                    LNMsData::Uint16(tok.val.clone())
                } else if str_eq(ty_tok.val.as_str(), "u8") {
                    let tok = self.lookup_last(tokens).unwrap();
                    let name = tok.val.clone();
                    match self.parse_byte_size(tokens) {
                        Ok(size) => LNMsData::BitfieldStream(name, size),
                        Err(e) => {
                            return Err(e);
                        },
                    }
                } else {
                    LNMsData::TLVinit(ty_tok.val.clone(), field_tok.val.clone())
                }
            },
            _ => {
                return Err(self.error_at(ErrorReason::UnknownFieldType, ty_tok));
            },
        };
        let is_bitfield = matches!(msg_data, LNMsData::BitfieldStream(_, _));
        let merge = is_bitfield && match target_msg.peek() {
            Some(LNMsData::Uint16(_)) => true,
            _ => false,
        };
        if merge {
            target_msg.replace_last_with(msg_data);
        } else {
            target_msg.add_msg_data(&msg_data);
        }
        proof {
            let res = sp_msg_data(tv, i, old(target_msg)@)->Ok_0;
            assert(target_msg@ =~= res.0);
        }
        Ok(())
    }

    /// Reads the length reference of a byte-array field: the next token,
    /// unless a structural keyword or the end of input follows, in which case
    /// the length defaults to the literal `1`.
    fn parse_byte_size(&mut self, tokens: &[CSVToken]) -> (r: Result<String, StructuralError>)
        ensures
            final(self).symbol_table == old(self).symbol_table,
            match sp_byte_field(tokens.deep_view(), old(self).cursor() - 4, ""@) {
                Ok(res) => r is Ok && MsgDataModel::BitfieldStream(""@, r->Ok_0@)
                    == res.0 && final(self).cursor() == res.1,
                Err(e) => r is Err && r->Err_0@ == e,
            },
    {
        if self.pos >= tokens.len() {
            return Err(self.end_error());
        }
        let is_decl = self.peek_and_check_if_type_declaration(tokens);
        let is_eof = matches!(self.peek(tokens).ty, CSVTokenType::EOF);
        if !is_decl && !is_eof {
            let tok = self.advance(tokens);
            Ok(tok.val.clone())
        } else {
            Ok("1".to_owned())
        }
    }

    /// Reads a `tlvtype` line: opens a TLV record under its stream name.
    fn parse_tlv_typ(&mut self, tokens: &[CSVToken]) -> (r: Result<LNTlvRecord, StructuralError>)
        requires
            old(self).cursor() < tokens@.len(),
            tokens.deep_view()[old(self).cursor()].ty == CSVTokenType::TlvType,
        ensures
            final(self).symbol_table == old(self).symbol_table,
            match sp_tlv_typ(tokens.deep_view(), old(self).cursor()) {
                Ok(res) => r is Ok && r->Ok_0@ == res.0 && final(self).cursor() == res.1,
                Err(e) => r is Err && r->Err_0@ == e,
            },
    {
        let _ = self.advance(tokens);
        if self.pos >= tokens.len() {
            return Err(self.end_error());
        }
        let first = self.peek(tokens);
        if !matches!(first.ty, CSVTokenType::LiteralString) {
            return Err(self.error_at(ErrorReason::ExpectedIdentifier, first));
        }
        let stream = self.advance(tokens);
        if self.pos >= tokens.len() {
            return Err(self.end_error());
        }
        let record = self.advance(tokens);
        if self.pos >= tokens.len() {
            return Err(self.end_error());
        }
        let num_tok = self.advance(tokens);
        let digits = chars_of(num_tok.val.as_str());
        let tlv_type = match parse_u64_chars(&digits) {
            Some(v) => v,
            None => {
                return Err(self.error_at(ErrorReason::NumberOutOfRange, num_tok));
            },
        };
        let rec = LNTlvRecord::new(stream.val.as_str(), record.val.as_str(), tlv_type);
        proof {
            let res = sp_tlv_typ(tokens.deep_view(), old(self).cursor())->Ok_0;
            assert(rec@ =~= res.0);
        }
        Ok(rec)
    }

    /// Reads a `tlvdata` line into the open TLV record, checking its stream
    /// and record references; a trailing ellipsis token is consumed and
    /// discarded.
    fn parse_tlv_data(&mut self, record: &mut LNTlvRecord, tokens: &[CSVToken]) -> (r: Result<
        (),
        StructuralError,
    >)
        requires
            old(self).cursor() < tokens@.len(),
            tokens.deep_view()[old(self).cursor()].ty == CSVTokenType::TlvData,
        ensures
            final(self).symbol_table == old(self).symbol_table,
            match sp_tlv_data(tokens.deep_view(), old(self).cursor(), old(record)@) {
                Ok(res) => r is Ok && final(record)@ == res.0 && final(self).cursor() == res.1,
                Err(e) => r is Err && r->Err_0@ == e,
            },
    {
        let ghost tv = tokens.deep_view();
        let ghost i = old(self).cursor();
        let _ = self.advance(tokens);
        if self.pos >= tokens.len() {
            return Err(self.end_error());
        }
        let stream_tok = self.advance(tokens);
        if !str_eq(stream_tok.val.as_str(), record.stream_name.as_str()) {
            return Err(self.error_at(ErrorReason::NameMismatch, stream_tok));
        }
        if self.pos >= tokens.len() {
            return Err(self.end_error());
        }
        let record_tok = self.advance(tokens);
        if !str_eq(record_tok.val.as_str(), record.record_name.as_str()) {
            return Err(self.error_at(ErrorReason::NameMismatch, record_tok));
        }
        if self.pos >= tokens.len() {
            return Err(self.end_error());
        }
        let tok_name = self.advance(tokens);
        if self.pos >= tokens.len() {
            return Err(self.end_error());
        }
        let tok_ty = self.advance(tokens);
        if self.peek_and_check_if_dotdot(tokens) {
            let _ = self.advance(tokens);
        }
        let entry = LNTlvEntry::new(tok_name.val.as_str(), tok_ty.val.as_str());
        record.add_entry(&entry);
        proof {
            let res = sp_tlv_data(tv, i, old(record)@)->Ok_0;
            assert(record@ =~= res.0);
        }
        Ok(())
    }

    /// Reads a whole message declaration and commits it into the symbol
    /// table.
    fn parse_msg(&mut self, tokens: &[CSVToken]) -> (r: Result<(), StructuralError>)
        requires
            old(self).wf(),
            old(self).cursor() < tokens@.len(),
            tokens.deep_view()[old(self).cursor()].ty == CSVTokenType::MsgTy,
        ensures
            final(self).wf(),
            match sp_msg(tokens.deep_view(), old(self).cursor()) {
                Err(e) => r is Err && r->Err_0@ == e && final(self).symbol_table@ == old(self).symbol_table@,
                Ok(res) => match st_insert(
                    old(self).symbol_table@,
                    res.0.name,
                    ItemModel::Msg(res.0),
                ) {
                    None => r is Err && r->Err_0@ == tok_err(
                        ErrorReason::DuplicateName,
                        tokens.deep_view()[old(self).cursor() + 1],
                    ) && final(self).symbol_table@ == old(self).symbol_table@,
                    Some(t2) => r is Ok && final(self).symbol_table@ == t2 && final(self).cursor() == res.1,
                },
            },
    {
        let ghost tv = tokens.deep_view();
        let ghost i = old(self).cursor();
        let _ = self.advance(tokens);
        let name_line = if self.pos < tokens.len() {
            proof {
                assert(tv[i + 1] == tokens@[i + 1]@);
            }
            tokens[self.pos].code_line
        } else {
            None
        };
        let mut msg = match self.parse_msg_typ(tokens) {
            Ok(m) => m,
            Err(e) => {
                return Err(e);
            },
        };
        let ghost j0 = self.cursor();
        let ghost m0 = msg@;
        while self.pos < tokens.len() && matches!(tokens[self.pos].ty, CSVTokenType::MsgData)
            invariant
                self.wf(),
                self.symbol_table == old(self).symbol_table,
                tv == tokens.deep_view(),
                i == old(self).cursor(),
                0 <= self.cursor() <= tv.len(),
                sp_msg_typ(tv, i + 1) == Ok::<(MsgModel, int), ErrModel>((m0, j0)),
                msg@.name == m0.name,
                sp_msg_datas(tv, j0, m0, CSVTokenType::MsgData) == sp_msg_datas(
                    tv,
                    self.cursor(),
                    msg@,
                    CSVTokenType::MsgData,
                ),
            decreases tv.len() - self.cursor(),
        {
            proof {
                assert(tv[self.cursor()] == tokens@[self.cursor()]@);
            }
            let ghost cur = self.cursor();
            let ghost mcur = msg@;
            match self.parse_msg_data(&mut msg, tokens) {
                Ok(()) => {},
                Err(e) => {
                    return Err(e);
                },
            }
            proof {
                lemma_sp_msg_data_bounds(tv, cur, mcur);
            }
        }
        proof {
            if self.pos < tokens.len() {
                assert(tv[self.cursor()] == tokens@[self.cursor()]@);
            }
            assert(sp_msg_datas(tv, self.cursor(), msg@, CSVTokenType::MsgData) == Ok::<
                (MsgModel, int),
                ErrModel,
            >((msg@, self.cursor())));
            assert(sp_msg(tv, i) == Ok::<(MsgModel, int), ErrModel>((msg@, self.cursor())));
        }
        let found = msg.msg_name.clone();
        match self.symbol_table_add_lnmsg(&msg) {
            Ok(()) => Ok(()),
            Err(()) => Err(StructuralError { reason: ErrorReason::DuplicateName, found, line: name_line }),
        }
    }

    /// Reads a whole TLV record declaration and commits it into the symbol
    /// table under its stream name.
    fn parse_tlv(&mut self, tokens: &[CSVToken]) -> (r: Result<(), StructuralError>)
        requires
            old(self).wf(),
            old(self).cursor() < tokens@.len(),
            tokens.deep_view()[old(self).cursor()].ty == CSVTokenType::TlvType,
        ensures
            final(self).wf(),
            match sp_tlv(tokens.deep_view(), old(self).cursor()) {
                Err(e) => r is Err && r->Err_0@ == e && final(self).symbol_table@ == old(self).symbol_table@,
                Ok(res) => match st_insert(
                    old(self).symbol_table@,
                    res.0.stream,
                    ItemModel::Tlv(res.0),
                ) {
                    None => r is Err && r->Err_0@ == tok_err(
                        ErrorReason::DuplicateName,
                        tokens.deep_view()[old(self).cursor() + 1],
                    ) && final(self).symbol_table@ == old(self).symbol_table@,
                    Some(t2) => r is Ok && final(self).symbol_table@ == t2 && final(self).cursor() == res.1,
                },
            },
    {
        let ghost tv = tokens.deep_view();
        let ghost i = old(self).cursor();
        let n = tokens.len();
        let name_line = if self.pos < n && self.pos + 1 < n {
            proof {
                assert(tv[i + 1] == tokens@[i + 1]@);
            }
            tokens[self.pos + 1].code_line
        } else {
            None
        };
        let mut tlv_typ = match self.parse_tlv_typ(tokens) {
            Ok(rec) => rec,
            Err(e) => {
                return Err(e);
            },
        };
        let ghost j0 = self.cursor();
        let ghost rec0 = tlv_typ@;
        while self.pos < tokens.len() && matches!(tokens[self.pos].ty, CSVTokenType::TlvData)
            invariant
                self.wf(),
                self.symbol_table == old(self).symbol_table,
                tv == tokens.deep_view(),
                i == old(self).cursor(),
                0 <= self.cursor() <= tv.len(),
                sp_tlv_typ(tv, i) == Ok::<(TlvRecordModel, int), ErrModel>((rec0, j0)),
                tlv_typ@.stream == rec0.stream,
                sp_tlv_datas(tv, j0, rec0) == sp_tlv_datas(tv, self.cursor(), tlv_typ@),
            decreases tv.len() - self.cursor(),
        {
            proof {
                assert(tv[self.cursor()] == tokens@[self.cursor()]@);
            }
            let ghost cur = self.cursor();
            let ghost rcur = tlv_typ@;
            match self.parse_tlv_data(&mut tlv_typ, tokens) {
                Ok(()) => {},
                Err(e) => {
                    return Err(e);
                },
            }
            proof {
                lemma_sp_tlv_data_bounds(tv, cur, rcur);
            }
        }
        proof {
            if self.pos < tokens.len() {
                assert(tv[self.cursor()] == tokens@[self.cursor()]@);
            }
            assert(sp_tlv_datas(tv, self.cursor(), tlv_typ@) == Ok::<
                (TlvRecordModel, int),
                ErrModel,
            >((tlv_typ@, self.cursor())));
            assert(sp_tlv(tv, i) == Ok::<(TlvRecordModel, int), ErrModel>(
                (tlv_typ@, self.cursor()),
            ));
        }
        let found = tlv_typ.stream_name.clone();
        match self.symbol_table_add_tlv(&tlv_typ) {
            Ok(()) => Ok(()),
            Err(()) => Err(StructuralError { reason: ErrorReason::DuplicateName, found, line: name_line }),
        }
    }

    /// Reads a `subtype` line: opens a subtype of that name.
    fn parse_subtype_ty(&mut self, tokens: &[CSVToken]) -> (r: Result<LNSubType, StructuralError>)
        ensures
            final(self).symbol_table == old(self).symbol_table,
            old(self).cursor() >= tokens@.len() ==> r is Err && r->Err_0@ == end_err(),
            old(self).cursor() < tokens@.len() ==> r is Ok && r->Ok_0@ == (SubTypeModel {
                name: tokens.deep_view()[old(self).cursor()].val,
                data: Seq::empty(),
            }) && final(self).cursor() == old(self).cursor() + 1,
    {
        if self.pos >= tokens.len() {
            return Err(self.end_error());
        }
        let subtype_name = self.advance(tokens);
        let r = LNSubType::new(subtype_name.val.as_str());
        proof {
            assert(r@ =~= (SubTypeModel {
                name: tokens.deep_view()[old(self).cursor()].val,
                data: Seq::empty(),
            }));
        }
        Ok(r)
    }

    /// Reads a whole subtype declaration and commits it into the symbol
    /// table.
    fn parse_subtype(&mut self, tokens: &[CSVToken]) -> (r: Result<(), StructuralError>)
        requires
            old(self).wf(),
            old(self).cursor() < tokens@.len(),
            tokens.deep_view()[old(self).cursor()].ty == CSVTokenType::SubTy,
        ensures
            final(self).wf(),
            match sp_subtype(tokens.deep_view(), old(self).cursor()) {
                Err(e) => r is Err && r->Err_0@ == e && final(self).symbol_table@ == old(self).symbol_table@,
                Ok(res) => match st_insert(
                    old(self).symbol_table@,
                    res.0.name,
                    ItemModel::SubType(res.0),
                ) {
                    None => r is Err && r->Err_0@ == tok_err(
                        ErrorReason::DuplicateName,
                        tokens.deep_view()[old(self).cursor() + 1],
                    ) && final(self).symbol_table@ == old(self).symbol_table@,
                    Some(t2) => r is Ok && final(self).symbol_table@ == t2 && final(self).cursor() == res.1,
                },
            },
    {
        let ghost tv = tokens.deep_view();
        let ghost i = old(self).cursor();
        let _ = self.advance(tokens);
        let name_line = if self.pos < tokens.len() {
            proof {
                assert(tv[i + 1] == tokens@[i + 1]@);
            }
            tokens[self.pos].code_line
        } else {
            None
        };
        let mut typ = match self.parse_subtype_ty(tokens) {
            Ok(s) => s,
            Err(e) => {
                return Err(e);
            },
        };
        let mut fake_lnmessage = LNMsg::new(0, typ.ty.as_str());
        let ghost j0 = self.cursor();
        let ghost m0 = fake_lnmessage@;
        while self.pos < tokens.len() && matches!(tokens[self.pos].ty, CSVTokenType::SubMsgData)
            invariant
                self.wf(),
                self.symbol_table == old(self).symbol_table,
                tv == tokens.deep_view(),
                i == old(self).cursor(),
                i + 1 < tv.len(),
                j0 == i + 2,
                m0 == (MsgModel {
                    typ: 0,
                    name: tv[i + 1].val,
                    data: Seq::<MsgDataModel>::empty(),
                    gossip_query: false,
                }),
                typ@ == (SubTypeModel { name: tv[i + 1].val, data: Seq::<MsgDataModel>::empty() }),
                0 <= self.cursor() <= tv.len(),
                sp_msg_datas(tv, j0, m0, CSVTokenType::SubMsgData) == sp_msg_datas(
                    tv,
                    self.cursor(),
                    fake_lnmessage@,
                    CSVTokenType::SubMsgData,
                ),
            decreases tv.len() - self.cursor(),
        {
            proof {
                assert(tv[self.cursor()] == tokens@[self.cursor()]@);
            }
            let ghost cur = self.cursor();
            let ghost mcur = fake_lnmessage@;
            match self.parse_msg_data(&mut fake_lnmessage, tokens) {
                Ok(()) => {},
                Err(e) => {
                    return Err(e);
                },
            }
            proof {
                lemma_sp_msg_data_bounds(tv, cur, mcur);
            }
        }
        proof {
            if self.pos < tokens.len() {
                assert(tv[self.cursor()] == tokens@[self.cursor()]@);
            }
            assert(sp_msg_datas(tv, self.cursor(), fake_lnmessage@, CSVTokenType::SubMsgData)
                == Ok::<(MsgModel, int), ErrModel>((fake_lnmessage@, self.cursor())));
        }
        typ.ty_data = fake_lnmessage.msg_data;
        proof {
            let res = sp_subtype(tv, i)->Ok_0;
            assert(typ@.data == fake_lnmessage@.data);
            assert(typ@ =~= res.0);
        }
        let found = typ.ty.clone();
        match self.symbol_table.insert(typ.ty.clone(), LNMsgType::SubType(typ)) {
            Ok(()) => Ok(()),
            Err(()) => Err(StructuralError { reason: ErrorReason::DuplicateName, found, line: name_line }),
        }
    }

    /// Parses the whole token sequence: one declaration per round, committed
    /// into the symbol table, until the end-of-input token. On any structural
    /// error the parse aborts as a whole: the error is returned and the
    /// symbol table is left empty.
    pub fn parse(&mut self, tokens: &[CSVToken]) -> (r: Result<(), StructuralError>)
        requires
            old(self).wf(),
        ensures
            final(self).wf(),
            match sp_parse(tokens.deep_view(), old(self).cursor(), old(self).symbol_table@) {
                Ok(tbl) => r is Ok && final(self).symbol_table@ == tbl,
                Err(e) => r is Err && r->Err_0@ == e && final(self).symbol_table@.len() == 0,
            },
    {
        let ghost tv = tokens.deep_view();
        let ghost i0 = old(self).cursor();
        let ghost tbl0 = old(self).symbol_table@;
        proof {
            assert(tv.len() == tokens@.len());
        }
        loop
            invariant
                self.wf(),
                tv == tokens.deep_view(),
                tv.len() == tokens@.len(),
                i0 == old(self).cursor(),
                tbl0 == old(self).symbol_table@,
                self.cursor() >= 0,
                sp_parse(tv, self.cursor(), self.symbol_table@) == sp_parse(tv, i0, tbl0),
            decreases tv.len() - self.cursor(),
        {
            if self.pos >= tokens.len() {
                self.symbol_table.clear();
                return Err(self.end_error());
            }
            proof {
                assert(tv[self.cursor()] == tokens@[self.cursor()]@);
            }
            let ghost cur = self.cursor();
            let ghost tbl_cur = self.symbol_table@;
            let ty = tokens[self.pos].ty;
            match ty {
                CSVTokenType::EOF => {
                    return Ok(());
                },
                CSVTokenType::MsgTy => {
                    match self.parse_msg(tokens) {
                        Ok(()) => {
                            proof {
                                lemma_sp_msg_bounds(tv, cur);
                            }
                        },
                        Err(e) => {
                            self.symbol_table.clear();
                            return Err(e);
                        },
                    }
                },
                CSVTokenType::SubTy => {
                    match self.parse_subtype(tokens) {
                        Ok(()) => {
                            proof {
                                lemma_sp_subtype_bounds(tv, cur);
                            }
                        },
                        Err(e) => {
                            self.symbol_table.clear();
                            return Err(e);
                        },
                    }
                },
                CSVTokenType::TlvType => {
                    match self.parse_tlv(tokens) {
                        Ok(()) => {
                            proof {
                                lemma_sp_tlv_bounds(tv, cur);
                            }
                        },
                        Err(e) => {
                            self.symbol_table.clear();
                            return Err(e);
                        },
                    }
                },
                _ => {
                    let tok = self.peek(tokens);
                    let e = self.error_at(ErrorReason::UnexpectedToken, tok);
                    self.symbol_table.clear();
                    return Err(e);
                },
            }
        }
    }
}

} // verus!

verus! {

/// TLV-KEYING LAW. A parse commits every TLV record under its own stream
/// name: a table that holds its TLV records under their stream names still
/// does so after any successful parse. On an empty starting table this makes
/// every parsed table resolve a stream name to a record of that very stream,
/// which the code-generation order laws build on.
pub proof fn lemma_sp_parse_tlv_keyed(t: Seq<TokenModel>, i: int, tbl: TableModel)
    requires
        tlv_keyed(tbl),
        sp_parse(t, i, tbl) is Ok,
    ensures
        tlv_keyed(sp_parse(t, i, tbl)->Ok_0),
    decreases t.len() - i,
{
    if 0 <= i < t.len() && t[i].ty != CSVTokenType::EOF {
        if t[i].ty == CSVTokenType::MsgTy {
            if let Ok((m, j)) = sp_msg(t, i) {
                if let Some(tbl2) = st_insert(tbl, m.name, ItemModel::Msg(m)) {
                    lemma_st_insert_tlv_keyed(tbl, m.name, ItemModel::Msg(m));
                    if i < j <= t.len() {
                        lemma_sp_parse_tlv_keyed(t, j, tbl2);
                    }
                }
            }
        } else if t[i].ty == CSVTokenType::SubTy {
            if let Ok((s, j)) = sp_subtype(t, i) {
                if let Some(tbl2) = st_insert(tbl, s.name, ItemModel::SubType(s)) {
                    lemma_st_insert_tlv_keyed(tbl, s.name, ItemModel::SubType(s));
                    if i < j <= t.len() {
                        lemma_sp_parse_tlv_keyed(t, j, tbl2);
                    }
                }
            }
        } else if t[i].ty == CSVTokenType::TlvType {
            if let Ok((rec, j)) = sp_tlv(t, i) {
                if let Some(tbl2) = st_insert(tbl, rec.stream, ItemModel::Tlv(rec)) {
                    lemma_st_insert_tlv_keyed(tbl, rec.stream, ItemModel::Tlv(rec));
                    if i < j <= t.len() {
                        lemma_sp_parse_tlv_keyed(t, j, tbl2);
                    }
                }
            }
        }
    }
}

} // verus!
