//! Line-shape classification over raw token-kind rows: maps each line's
//! token kinds to a line type, whole line-type runs to a message type, and
//! checks the cross-line name references of a classified message.

use vstd::prelude::*;

use crate::text::str_eq;
use crate::token::CSVTokenType;

verus! {

/// The shape of one classified source line.
#[derive(Clone, Copy, PartialEq, Eq, Structural, Debug)]
pub enum AstMsgLineType {
    Msgtype,
    MsgdataLength,
    MsgDataBytes,
    MsgDataTLVInit,
    Tlvtype,
    Tlvdata,
    TlvByteDataWithDot,
    TvlChainWithDot,
    MsgDataChannelID,
    /// No shape matched; more tokens may still complete a shape.
    NoMatch,
}

/// The message a whole run of line types spells.
#[derive(Clone, Copy, PartialEq, Eq, Structural, Debug)]
pub enum AstMsgType {
    Init,
    Warning,
    Error,
    Ping,
    Pong,
    /// No message matched; more lines may still complete one.
    NoMatch,
}

/// A classified message tag with its raw text.
#[derive(PartialEq, Debug)]
pub struct AstMsg {
    pub msg_type: AstMsgType,
    pub msg_val: String,
}

/// The raw classified lines: one line type per line, beside the line's
/// comma-separated field texts.
#[derive(PartialEq, Debug)]
pub struct RawCsv {
    pub line_type: Vec<AstMsgLineType>,
    pub values: Vec<Vec<String>>,
}

/// A message under reference checking: its raw lines, its tag, its values,
/// and the names collected while checking.
pub struct Msg {
    pub raw: RawCsv,
    pub msg_type: Option<AstMsgType>,
    pub msg_val: Vec<Vec<String>>,
    pub msg_name: String,
    pub tlvs_name: Vec<String>,
}

/// The model of the raw classified lines.
#[verifier::ext_equal]
pub struct RawCsvModel {
    pub line_type: Seq<AstMsgLineType>,
    pub values: Seq<Seq<Seq<char>>>,
}

impl View for RawCsv {
    type V = RawCsvModel;

    open spec fn view(&self) -> RawCsvModel {
        RawCsvModel { line_type: self.line_type@, values: self.values.deep_view() }
    }
}

/// The model of a message under reference checking.
#[verifier::ext_equal]
pub struct MsgStateModel {
    pub raw: RawCsvModel,
    pub msg_type: Option<AstMsgType>,
    pub msg_val: Seq<Seq<Seq<char>>>,
    pub msg_name: Seq<char>,
    pub tlvs_name: Seq<Seq<char>>,
}

impl View for Msg {
    type V = MsgStateModel;

    open spec fn view(&self) -> MsgStateModel {
        MsgStateModel {
            raw: self.raw@,
            msg_type: self.msg_type,
            msg_val: self.msg_val.deep_view(),
            msg_name: self.msg_name@,
            tlvs_name: self.tlvs_name.deep_view(),
        }
    }
}

/// The capability a classified message offers: its tag, its values, and the
/// reference check.
pub trait AstMsgTrait {
    fn get_msg_type(&self) -> Option<AstMsgType>;

    fn get_values(&self) -> Vec<Vec<String>>;

    fn check_valid(&mut self) -> bool;
}

/// Clones one row of field texts.
fn clone_row(row: &Vec<String>) -> (r: Vec<String>)
    ensures
        r@ == row@,
{
    let mut r: Vec<String> = Vec::new();
    let mut i: usize = 0;
    while i < row.len()
        invariant
            i <= row@.len(),
            r@ =~= row@.subrange(0, i as int),
        decreases row@.len() - i,
    {
        r.push(row[i].clone());
        i += 1;
    }
    proof {
        assert(r@ =~= row@);
    }
    r
}

/// Clones a table of field texts.
fn clone_values(values: &Vec<Vec<String>>) -> (r: Vec<Vec<String>>)
    ensures
        r.deep_view() == values.deep_view(),
{
    let mut r: Vec<Vec<String>> = Vec::new();
    let mut i: usize = 0;
    while i < values.len()
        invariant
            i <= values@.len(),
            r@.len() == i,
            forall|k: int| 0 <= k < i ==> #[trigger] r@[k]@ == values@[k]@,
        decreases values@.len() - i,
    {
        r.push(clone_row(&values[i]));
        i += 1;
    }
    proof {
        assert(r.deep_view() =~~= values.deep_view());
    }
    r
}

impl Clone for RawCsv {
    fn clone(&self) -> (r: Self)
        ensures
            r@ == self@,
    {
        let mut line_type: Vec<AstMsgLineType> = Vec::new();
        let mut i: usize = 0;
        while i < self.line_type.len()
            invariant
                i <= self.line_type@.len(),
                line_type@ =~= self.line_type@.subrange(0, i as int),
            decreases self.line_type@.len() - i,
        {
            line_type.push(self.line_type[i]);
            i += 1;
        }
        proof {
            assert(line_type@ =~= self.line_type@);
        }
        let values = clone_values(&self.values);
        let r = RawCsv { line_type, values };
        proof {
            assert(r@ =~~= self@);
        }
        r
    }
}

impl Msg {
    /// Builds an unchecked message over its raw classified lines.
    pub fn new(lines: &RawCsv) -> (r: Msg)
        ensures
            r@ == (MsgStateModel {
                raw: lines@,
                msg_type: None,
                msg_val: lines@.values,
                msg_name: Seq::empty(),
                tlvs_name: Seq::empty(),
            }),
    {
        let r = Msg {
            raw: lines.clone(),
            msg_type: None,
            msg_val: clone_values(&lines.values),
            msg_name: String::new(),
            tlvs_name: Vec::new(),
        };
        proof {
            assert(r.tlvs_name.deep_view() =~= Seq::<Seq<char>>::empty());
            assert(r@ =~~= (MsgStateModel {
                raw: lines@,
                msg_type: None,
                msg_val: lines@.values,
                msg_name: Seq::empty(),
                tlvs_name: Seq::empty(),
            }));
        }
        r
    }
}

/// Whether a line type carries a message-name reference in its second field.
pub open spec fn refs_msg_name(lt: AstMsgLineType) -> bool {
    lt == AstMsgLineType::MsgdataLength || lt == AstMsgLineType::MsgDataBytes || lt
        == AstMsgLineType::MsgDataTLVInit
}

/// Whether a line type carries a TLV-stream reference in its second field.
pub open spec fn refs_tlv_name(lt: AstMsgLineType) -> bool {
    lt == AstMsgLineType::Tlvdata || lt == AstMsgLineType::Tlvtype || lt
        == AstMsgLineType::TlvByteDataWithDot || lt == AstMsgLineType::TvlChainWithDot
}

/// The outcome of the reference check: whether it holds so far, and the
/// names collected up to the stopping point.
#[verifier::ext_equal]
pub struct CheckOutcome {
    pub ok: bool,
    pub msg_name: Seq<char>,
    pub tlvs_name: Seq<Seq<char>>,
}

/// The reference check from line `pos` on: the first `msgtype` line names
/// the message; every message-data line must name it back; each TLV-stream
/// opener collects its stream name; every TLV line must name a collected
/// stream. The check stops at the first broken reference.
pub open spec fn sp_check_valid(
    lt: Seq<AstMsgLineType>,
    vals: Seq<Seq<Seq<char>>>,
    pos: int,
    msg_name: Seq<char>,
    tlvs: Seq<Seq<char>>,
) -> CheckOutcome
    decreases lt.len() - pos,
{
    if pos < 0 || pos >= lt.len() {
        CheckOutcome { ok: true, msg_name, tlvs_name: tlvs }
    } else {
        let name1 = if lt[pos] == AstMsgLineType::Msgtype && msg_name.len() == 0 {
            vals[pos][1]
        } else {
            msg_name
        };
        if refs_msg_name(lt[pos]) && vals[pos][1] != name1 {
            CheckOutcome { ok: false, msg_name: name1, tlvs_name: tlvs }
        } else {
            let tlvs1 = if lt[pos] == AstMsgLineType::MsgDataTLVInit {
                tlvs.push(vals[pos][3])
            } else {
                tlvs
            };
            if refs_tlv_name(lt[pos]) && !tlvs1.contains(vals[pos][1]) {
                CheckOutcome { ok: false, msg_name: name1, tlvs_name: tlvs1 }
            } else {
                sp_check_valid(lt, vals, pos + 1, name1, tlvs1)
            }
        }
    }
}

/// The raw lines are well shaped for checking: one value row per line, and
/// each row long enough for the references its line type reads.
pub open spec fn check_shaped(raw: RawCsvModel) -> bool {
    &&& raw.line_type.len() == raw.values.len()
    &&& forall|pos: int|
        0 <= pos < raw.line_type.len() && (raw.line_type[pos] == AstMsgLineType::Msgtype
            || refs_msg_name(raw.line_type[pos]) || refs_tlv_name(raw.line_type[pos]))
            ==> (#[trigger] raw.values[pos]).len() > 1
    &&& forall|pos: int|
        0 <= pos < raw.line_type.len() && raw.line_type[pos] == AstMsgLineType::MsgDataTLVInit
            ==> (#[trigger] raw.values[pos]).len() > 3
}

/// Whether `v` holds a string spelling `s`.
fn contains_str(v: &Vec<String>, s: &String) -> (r: bool)
    ensures
        r == v.deep_view().contains(s@),
{
    let mut i: usize = 0;
    while i < v.len()
        invariant
            i <= v@.len(),
            forall|k: int| 0 <= k < i ==> #[trigger] v.deep_view()[k] != s@,
        decreases v@.len() - i,
    {
        proof {
            assert(v.deep_view()[i as int] == v@[i as int]@);
        }
        if str_eq(v[i].as_str(), s.as_str()) {
            proof {
                assert(v.deep_view()[i as int] == s@);
            }
            return true;
        }
        i += 1;
    }
    proof {
        assert forall|k: int| 0 <= k < v.deep_view().len() implies #[trigger] v.deep_view()[k]
            != s@ by {}
    }
    false
}

impl Msg {
    /// The message tag, if the run of lines has been classified.
    pub fn get_msg_type(&self) -> (r: Option<AstMsgType>)
        ensures
            r == self@.msg_type,
    {
        self.msg_type
    }

    /// The field texts of every line.
    pub fn get_values(&self) -> (r: Vec<Vec<String>>)
        ensures
            r.deep_view() == self@.msg_val,
    {
        clone_values(&self.msg_val)
    }

    /// Checks the cross-line name references, collecting the message name
    /// and the declared TLV-stream names on the way; false at the first
    /// reference that names nothing in scope.
    pub fn check_valid(&mut self) -> (r: bool)
        requires
            check_shaped(old(self)@.raw),
        ensures
            r == sp_check_valid(
                old(self)@.raw.line_type,
                old(self)@.raw.values,
                0,
                old(self)@.msg_name,
                old(self)@.tlvs_name,
            ).ok,
            final(self)@.msg_name == sp_check_valid(
                old(self)@.raw.line_type,
                old(self)@.raw.values,
                0,
                old(self)@.msg_name,
                old(self)@.tlvs_name,
            ).msg_name,
            final(self)@.tlvs_name == sp_check_valid(
                old(self)@.raw.line_type,
                old(self)@.raw.values,
                0,
                old(self)@.msg_name,
                old(self)@.tlvs_name,
            ).tlvs_name,
            final(self)@.raw == old(self)@.raw,
            final(self)@.msg_val == old(self)@.msg_val,
            final(self)@.msg_type == old(self)@.msg_type,
    {
        let ghost lt = self@.raw.line_type;
        let ghost vals = self@.raw.values;
        let ghost name0 = self@.msg_name;
        let ghost tlvs0 = self@.tlvs_name;
        let size = self.raw.line_type.len();
        let mut pos: usize = 0;
        while pos < size
            invariant
                check_shaped(old(self)@.raw),
                lt == old(self)@.raw.line_type,
                vals == old(self)@.raw.values,
                name0 == old(self)@.msg_name,
                tlvs0 == old(self)@.tlvs_name,
                self.raw == old(self).raw,
                self.msg_val == old(self).msg_val,
                self.msg_type == old(self).msg_type,
                size == lt.len(),
                pos <= size,
                sp_check_valid(lt, vals, 0, name0, tlvs0) == sp_check_valid(
                    lt,
                    vals,
                    pos as int,
                    self.msg_name@,
                    self.tlvs_name.deep_view(),
                ),
            decreases size - pos,
        {
            proof {
                assert(self.raw.values.deep_view()[pos as int] == self.raw.values@[pos as int].deep_view());
            }
            if self.raw.line_type[pos] == AstMsgLineType::Msgtype && self.msg_name.as_str().is_empty() {
                proof {
                    assert(self.raw.values@[pos as int].deep_view()[1] == self.raw.values@[pos as int]@[1]@);
                }
                self.msg_name = self.raw.values[pos][1].clone();
            }
            let lt_pos = self.raw.line_type[pos];
            let refs_name = lt_pos == AstMsgLineType::MsgdataLength || lt_pos
                == AstMsgLineType::MsgDataBytes || lt_pos == AstMsgLineType::MsgDataTLVInit;
            if refs_name {
                proof {
                    assert(self.raw.values@[pos as int].deep_view()[1] == self.raw.values@[pos as int]@[1]@);
                }
                if !str_eq(self.raw.values[pos][1].as_str(), self.msg_name.as_str()) {
                    return false;
                }
            }
            if lt_pos == AstMsgLineType::MsgDataTLVInit {
                proof {
                    assert(self.raw.values@[pos as int].deep_view()[3] == self.raw.values@[pos as int]@[3]@);
                }
                let ghost pre = self.tlvs_name.deep_view();
                let stream = self.raw.values[pos][3].clone();
                self.tlvs_name.push(stream);
                proof {
                    assert(self.tlvs_name.deep_view() =~= pre.push(
                        self.tlvs_name@.last()@,
                    ));
                }
            }
            let refs_tlv = lt_pos == AstMsgLineType::Tlvdata || lt_pos == AstMsgLineType::Tlvtype
                || lt_pos == AstMsgLineType::TlvByteDataWithDot || lt_pos
                == AstMsgLineType::TvlChainWithDot;
            if refs_tlv {
                proof {
                    assert(self.raw.values@[pos as int].deep_view()[1] == self.raw.values@[pos as int]@[1]@);
                }
                let wanted = self.raw.values[pos][1].clone();
                if !contains_str(&self.tlvs_name, &wanted) {
                    return false;
                }
            }
            pos += 1;
        }
        true
    }
}

impl AstMsgTrait for Msg {
    fn get_msg_type(&self) -> Option<AstMsgType> {
        Msg::get_msg_type(self)
    }

    fn get_values(&self) -> Vec<Vec<String>> {
        Msg::get_values(self)
    }

    fn check_valid(&mut self) -> bool {
        if !check_shaped_exec(self) {
            return false;
        }
        Msg::check_valid(self)
    }
}

/// Whether the raw lines are well shaped for checking; the typed entry point
/// of [`Msg::check_valid`] asks this first, so the trait method checks any
/// message without a precondition.
fn check_shaped_exec(msg: &Msg) -> (r: bool)
    ensures
        r == check_shaped(msg@.raw),
{
    let n = msg.raw.line_type.len();
    if n != msg.raw.values.len() {
        return false;
    }
    let mut pos: usize = 0;
    while pos < n
        invariant
            n == msg.raw.line_type@.len(),
            n == msg.raw.values@.len(),
            pos <= n,
            forall|k: int|
                0 <= k < pos && (msg@.raw.line_type[k] == AstMsgLineType::Msgtype || refs_msg_name(
                    msg@.raw.line_type[k],
                ) || refs_tlv_name(msg@.raw.line_type[k])) ==> (#[trigger] msg@.raw.values[k]).len()
                    > 1,
            forall|k: int|
                0 <= k < pos && msg@.raw.line_type[k] == AstMsgLineType::MsgDataTLVInit ==> (
                #[trigger] msg@.raw.values[k]).len() > 3,
        decreases n - pos,
    {
        proof {
            assert(msg@.raw.values[pos as int] == msg.raw.values@[pos as int].deep_view());
            assert(msg@.raw.values[pos as int].len() == msg.raw.values@[pos as int]@.len());
        }
        let lt_pos = msg.raw.line_type[pos];
        let needs_second = lt_pos == AstMsgLineType::Msgtype || lt_pos
            == AstMsgLineType::MsgdataLength || lt_pos == AstMsgLineType::MsgDataBytes || lt_pos
            == AstMsgLineType::MsgDataTLVInit || lt_pos == AstMsgLineType::Tlvdata || lt_pos
            == AstMsgLineType::Tlvtype || lt_pos == AstMsgLineType::TlvByteDataWithDot || lt_pos
            == AstMsgLineType::TvlChainWithDot;
        if needs_second && msg.raw.values[pos].len() <= 1 {
            return false;
        }
        if lt_pos == AstMsgLineType::MsgDataTLVInit && msg.raw.values[pos].len() <= 3 {
            return false;
        }
        pos += 1;
    }
    true
}

/// The line type a row of token kinds spells, against the fixed line
/// grammar; `NoMatch` where no shape matches yet.
pub fn map_csvtoken(v: Vec<CSVTokenType>) -> (r: AstMsgLineType)
    ensures
        r == sp_map_csvtoken(v@),
{
    if v.len() == 3 && v[0] == CSVTokenType::MsgTy && v[1] == CSVTokenType::LiteralString && v[2]
        == CSVTokenType::Number {
        proof {
            assert(v@ =~= msgtype_shape());
        }
        return AstMsgLineType::Msgtype;
    }
    if v.len() == 4 && v[0] == CSVTokenType::MsgData && v[1] == CSVTokenType::LiteralString && v[2]
        == CSVTokenType::LiteralString && (v[3] == CSVTokenType::U16 || v[3] == CSVTokenType::U32
        || v[3] == CSVTokenType::U64) {
        proof {
            assert(v@ =~= msgdata_len_shape(v@[3]));
        }
        return AstMsgLineType::MsgdataLength;
    }
    if v.len() == 5 && v[0] == CSVTokenType::MsgData && v[1] == CSVTokenType::LiteralString && (
    v[2] == CSVTokenType::LiteralString || v[2] == CSVTokenType::Data) && v[3]
        == CSVTokenType::Byte && v[4] == CSVTokenType::LiteralString {
        proof {
            assert(v@ =~= msgdata_bytes_shape(v@[2]));
        }
        return AstMsgLineType::MsgDataBytes;
    }
    if v.len() == 4 && v[0] == CSVTokenType::MsgData && v[1] == CSVTokenType::LiteralString && v[2]
        == CSVTokenType::ChannelId && v[3] == CSVTokenType::ChannelId {
        proof {
            assert(v@ =~= channel_id_shape());
        }
        return AstMsgLineType::MsgDataChannelID;
    }
    if v.len() == 4 && v[0] == CSVTokenType::MsgData && v[1] == CSVTokenType::LiteralString && v[2]
        == CSVTokenType::Tlvs && v[3] == CSVTokenType::LiteralString {
        proof {
            assert(v@ =~= tlv_init_shape());
        }
        return AstMsgLineType::MsgDataTLVInit;
    }
    if v.len() == 4 && v[0] == CSVTokenType::TlvType && v[1] == CSVTokenType::LiteralString && v[2]
        == CSVTokenType::LiteralString && v[3] == CSVTokenType::Number {
        proof {
            assert(v@ =~= tlvtype_shape());
        }
        return AstMsgLineType::Tlvtype;
    }
    if v.len() == 6 && v[0] == CSVTokenType::TlvData && v[1] == CSVTokenType::LiteralString && v[2]
        == CSVTokenType::LiteralString && v[3] == CSVTokenType::LiteralString && v[4]
        == CSVTokenType::ChainHash && v[5] == CSVTokenType::Dotdotdot {
        proof {
            assert(v@ =~= tlv_chain_shape());
        }
        return AstMsgLineType::TvlChainWithDot;
    }
    if v.len() == 6 && v[0] == CSVTokenType::TlvData && v[1] == CSVTokenType::LiteralString && v[2]
        == CSVTokenType::LiteralString && v[3] == CSVTokenType::Data && v[4] == CSVTokenType::Byte
        && v[5] == CSVTokenType::Dotdotdot {
        proof {
            assert(v@ =~= tlv_byte_shape());
        }
        return AstMsgLineType::TlvByteDataWithDot;
    }
    AstMsgLineType::NoMatch
}

/// The `msgtype` line shape.
pub open spec fn msgtype_shape() -> Seq<CSVTokenType> {
    seq![CSVTokenType::MsgTy, CSVTokenType::LiteralString, CSVTokenType::Number]
}

/// The integer-field line shape, for the given integer kind.
pub open spec fn msgdata_len_shape(int_ty: CSVTokenType) -> Seq<CSVTokenType> {
    seq![CSVTokenType::MsgData, CSVTokenType::LiteralString, CSVTokenType::LiteralString, int_ty]
}

/// The byte-array line shape, whose third kind is an identifier or `data`.
pub open spec fn msgdata_bytes_shape(field: CSVTokenType) -> Seq<CSVTokenType> {
    seq![
        CSVTokenType::MsgData,
        CSVTokenType::LiteralString,
        field,
        CSVTokenType::Byte,
        CSVTokenType::LiteralString,
    ]
}

/// The channel-id line shape.
pub open spec fn channel_id_shape() -> Seq<CSVTokenType> {
    seq![
        CSVTokenType::MsgData,
        CSVTokenType::LiteralString,
        CSVTokenType::ChannelId,
        CSVTokenType::ChannelId,
    ]
}

/// The TLV-stream placeholder line shape.
pub open spec fn tlv_init_shape() -> Seq<CSVTokenType> {
    seq![
        CSVTokenType::MsgData,
        CSVTokenType::LiteralString,
        CSVTokenType::Tlvs,
        CSVTokenType::LiteralString,
    ]
}

/// The `tlvtype` line shape.
pub open spec fn tlvtype_shape() -> Seq<CSVTokenType> {
    seq![
        CSVTokenType::TlvType,
        CSVTokenType::LiteralString,
        CSVTokenType::LiteralString,
        CSVTokenType::Number,
    ]
}

/// The chain-hash TLV data line shape with trailing ellipsis.
pub open spec fn tlv_chain_shape() -> Seq<CSVTokenType> {
    seq![
        CSVTokenType::TlvData,
        CSVTokenType::LiteralString,
        CSVTokenType::LiteralString,
        CSVTokenType::LiteralString,
        CSVTokenType::ChainHash,
        CSVTokenType::Dotdotdot,
    ]
}

/// The byte TLV data line shape with trailing ellipsis.
pub open spec fn tlv_byte_shape() -> Seq<CSVTokenType> {
    seq![
        CSVTokenType::TlvData,
        CSVTokenType::LiteralString,
        CSVTokenType::LiteralString,
        CSVTokenType::Data,
        CSVTokenType::Byte,
        CSVTokenType::Dotdotdot,
    ]
}

/// The line type a row of token kinds spells.
pub open spec fn sp_map_csvtoken(v: Seq<CSVTokenType>) -> AstMsgLineType {
    if v == msgtype_shape() {
        AstMsgLineType::Msgtype
    } else if v == msgdata_len_shape(CSVTokenType::U16) || v == msgdata_len_shape(
        CSVTokenType::U32,
    ) || v == msgdata_len_shape(CSVTokenType::U64) {
        AstMsgLineType::MsgdataLength
    } else if v == msgdata_bytes_shape(CSVTokenType::LiteralString) || v == msgdata_bytes_shape(
        CSVTokenType::Data,
    ) {
        AstMsgLineType::MsgDataBytes
    } else if v == channel_id_shape() {
        AstMsgLineType::MsgDataChannelID
    } else if v == tlv_init_shape() {
        AstMsgLineType::MsgDataTLVInit
    } else if v == tlvtype_shape() {
        AstMsgLineType::Tlvtype
    } else if v == tlv_chain_shape() {
        AstMsgLineType::TvlChainWithDot
    } else if v == tlv_byte_shape() {
        AstMsgLineType::TlvByteDataWithDot
    } else {
        AstMsgLineType::NoMatch
    }
}

/// The run of line types that spells the `init` message.
pub open spec fn init_msg_shape() -> Seq<AstMsgLineType> {
    seq![
        AstMsgLineType::Msgtype,
        AstMsgLineType::MsgdataLength,
        AstMsgLineType::MsgDataBytes,
        AstMsgLineType::MsgdataLength,
        AstMsgLineType::MsgDataBytes,
        AstMsgLineType::MsgDataTLVInit,
        AstMsgLineType::Tlvtype,
        AstMsgLineType::TvlChainWithDot,
        AstMsgLineType::Tlvtype,
        AstMsgLineType::TlvByteDataWithDot,
    ]
}

/// The message a whole run of line types spells.
pub open spec fn sp_map_line_to_msg(lines: Seq<AstMsgLineType>) -> AstMsgType {
    if lines == init_msg_shape() {
        AstMsgType::Init
    } else {
        AstMsgType::NoMatch
    }
}

/// Maps a whole run of line types to the message it spells; `NoMatch` where
/// no message matches yet.
pub fn map_line_to_msg(lines: Vec<AstMsgLineType>) -> (r: AstMsgType)
    ensures
        r == sp_map_line_to_msg(lines@),
{
    if lines.len() == 10 && lines[0] == AstMsgLineType::Msgtype && lines[1]
        == AstMsgLineType::MsgdataLength && lines[2] == AstMsgLineType::MsgDataBytes && lines[3]
        == AstMsgLineType::MsgdataLength && lines[4] == AstMsgLineType::MsgDataBytes && lines[5]
        == AstMsgLineType::MsgDataTLVInit && lines[6] == AstMsgLineType::Tlvtype && lines[7]
        == AstMsgLineType::TvlChainWithDot && lines[8] == AstMsgLineType::Tlvtype && lines[9]
        == AstMsgLineType::TlvByteDataWithDot {
        proof {
            assert(lines@ =~= init_msg_shape());
        }
        return AstMsgType::Init;
    }
    AstMsgType::NoMatch
}

} // verus!
