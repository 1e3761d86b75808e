//! The abstract syntax tree the parser builds: messages, TLV records and
//! subtypes, together with their mathematical models.

use vstd::prelude::*;

verus! {

/// One entry of the symbol table: a message, a TLV record or a subtype.
#[derive(PartialEq, Debug)]
pub enum LNMsgType {
    Msg(LNMsg),
    Tlv(LNTlvRecord),
    SubType(LNSubType),
}

/// A wire message: its numeric type, its name, and its fields in declaration
/// order, which is the wire layout order.
#[derive(PartialEq, Debug)]
pub struct LNMsg {
    pub msg_typ: u64,
    pub msg_name: String,
    pub msg_data: Vec<LNMsData>,
    pub is_gossip_query: bool,
}

/// One message field, one case per wire primitive. Integer and fixed-size
/// cases carry the field name; `ChainHash` carries its name and descriptor;
/// `BitfieldStream` carries its name and a length reference (an integer
/// literal or the name of a preceding integer field); `TLVinit` carries the
/// referenced stream name and the placeholder field name.
#[derive(PartialEq, Debug)]
pub enum LNMsData {
    Uint16(String),
    Uint32(String),
    Uint64(String),
    ChainHash(String, String),
    ChannelId(String),
    Signature(String),
    ShortChannelId(String),
    Point(String),
    BitfieldStream(String, String),
    TLVinit(String, String),
}

/// A TLV record: one field of a TLV stream, encoded as
/// `[bigsize: type] [bigsize: length] [length: value]`.
#[derive(PartialEq, Debug)]
pub struct LNTlvRecord {
    pub stream_name: String,
    pub record_name: String,
    pub type_len: u64,
    pub record_entry: Vec<LNTlvEntry>,
}

/// One value carried inside a TLV record.
#[derive(PartialEq, Debug)]
pub struct LNTlvEntry {
    pub entry_name: String,
    pub entry_ty: String,
    pub encoding: Option<EncodingType>,
}

/// An encoding annotation on a TLV entry.
#[derive(PartialEq, Debug)]
pub struct EncodingType {
    pub ty: String,
    pub size: String,
}

/// A named compound type: structurally a message without a numeric type.
#[derive(PartialEq, Debug)]
pub struct LNSubType {
    pub ty: String,
    pub ty_data: Vec<LNMsData>,
}

/// The model of one message field.
#[verifier::ext_equal]
pub enum MsgDataModel {
    Uint16(Seq<char>),
    Uint32(Seq<char>),
    Uint64(Seq<char>),
    ChainHash(Seq<char>, Seq<char>),
    ChannelId(Seq<char>),
    Signature(Seq<char>),
    ShortChannelId(Seq<char>),
    Point(Seq<char>),
    BitfieldStream(Seq<char>, Seq<char>),
    TLVinit(Seq<char>, Seq<char>),
}

/// The model of a message.
#[verifier::ext_equal]
pub struct MsgModel {
    pub typ: u64,
    pub name: Seq<char>,
    pub data: Seq<MsgDataModel>,
    pub gossip_query: bool,
}

/// The model of an encoding annotation.
#[verifier::ext_equal]
pub struct EncodingModel {
    pub ty: Seq<char>,
    pub size: Seq<char>,
}

/// The model of a TLV entry.
#[verifier::ext_equal]
pub struct TlvEntryModel {
    pub name: Seq<char>,
    pub ty: Seq<char>,
    pub encoding: Option<EncodingModel>,
}

/// The model of a TLV record.
#[verifier::ext_equal]
pub struct TlvRecordModel {
    pub stream: Seq<char>,
    pub record: Seq<char>,
    pub type_len: u64,
    pub entries: Seq<TlvEntryModel>,
}

/// The model of a subtype.
#[verifier::ext_equal]
pub struct SubTypeModel {
    pub name: Seq<char>,
    pub data: Seq<MsgDataModel>,
}

/// The model of one symbol table entry.
#[verifier::ext_equal]
pub enum ItemModel {
    Msg(MsgModel),
    Tlv(TlvRecordModel),
    SubType(SubTypeModel),
}

impl Clone for LNMsData {
    fn clone(&self) -> (r: Self)
        ensures
            r == *self,
    {
        match self {
            LNMsData::Uint16(n) => LNMsData::Uint16(n.clone()),
            LNMsData::Uint32(n) => LNMsData::Uint32(n.clone()),
            LNMsData::Uint64(n) => LNMsData::Uint64(n.clone()),
            LNMsData::ChainHash(n, d) => LNMsData::ChainHash(n.clone(), d.clone()),
            LNMsData::ChannelId(n) => LNMsData::ChannelId(n.clone()),
            LNMsData::Signature(n) => LNMsData::Signature(n.clone()),
            LNMsData::ShortChannelId(n) => LNMsData::ShortChannelId(n.clone()),
            LNMsData::Point(n) => LNMsData::Point(n.clone()),
            LNMsData::BitfieldStream(n, s) => LNMsData::BitfieldStream(n.clone(), s.clone()),
            LNMsData::TLVinit(s, p) => LNMsData::TLVinit(s.clone(), p.clone()),
        }
    }
}

impl Clone for EncodingType {
    fn clone(&self) -> (r: Self)
        ensures
            r == *self,
    {
        EncodingType { ty: self.ty.clone(), size: self.size.clone() }
    }
}

impl Clone for LNTlvEntry {
    fn clone(&self) -> (r: Self)
        ensures
            r == *self,
    {
        LNTlvEntry {
            entry_name: self.entry_name.clone(),
            entry_ty: self.entry_ty.clone(),
            encoding: match &self.encoding {
                Some(e) => Some(e.clone()),
                None => None,
            },
        }
    }
}

impl Clone for LNTlvRecord {
    fn clone(&self) -> (r: Self)
        ensures
            r@ == self@,
    {
        let mut entries: Vec<LNTlvEntry> = Vec::new();
        let mut i: usize = 0;
        while i < self.record_entry.len()
            invariant
                i <= self.record_entry@.len(),
                entries@ =~= self.record_entry@.subrange(0, i as int),
            decreases self.record_entry@.len() - i,
        {
            entries.push(self.record_entry[i].clone());
            i += 1;
        }
        proof {
            assert(entries@ =~= self.record_entry@);
            assert(entries.deep_view() =~= self.record_entry.deep_view());
        }
        LNTlvRecord {
            stream_name: self.stream_name.clone(),
            record_name: self.record_name.clone(),
            type_len: self.type_len,
            record_entry: entries,
        }
    }
}

/// Clones a field list, keeping each field.
fn clone_msg_data_vec(v: &Vec<LNMsData>) -> (r: Vec<LNMsData>)
    ensures
        r@ == v@,
{
    let mut r: Vec<LNMsData> = Vec::new();
    let mut i: usize = 0;
    while i < v.len()
        invariant
            i <= v@.len(),
            r@ =~= v@.subrange(0, i as int),
        decreases v@.len() - i,
    {
        r.push(v[i].clone());
        i += 1;
    }
    proof {
        assert(r@ =~= v@);
    }
    r
}

impl Clone for LNMsg {
    fn clone(&self) -> (r: Self)
        ensures
            r@ == self@,
    {
        let data = clone_msg_data_vec(&self.msg_data);
        proof {
            assert(data.deep_view() =~= self.msg_data.deep_view());
        }
        LNMsg {
            msg_typ: self.msg_typ,
            msg_name: self.msg_name.clone(),
            msg_data: data,
            is_gossip_query: self.is_gossip_query,
        }
    }
}

impl Clone for LNSubType {
    fn clone(&self) -> (r: Self)
        ensures
            r@ == self@,
    {
        let data = clone_msg_data_vec(&self.ty_data);
        proof {
            assert(data.deep_view() =~= self.ty_data.deep_view());
        }
        LNSubType { ty: self.ty.clone(), ty_data: data }
    }
}

impl Clone for LNMsgType {
    fn clone(&self) -> (r: Self)
        ensures
            r@ == self@,
    {
        match self {
            LNMsgType::Msg(m) => LNMsgType::Msg(m.clone()),
            LNMsgType::Tlv(t) => LNMsgType::Tlv(t.clone()),
            LNMsgType::SubType(s) => LNMsgType::SubType(s.clone()),
        }
    }
}

impl View for LNMsData {
    type V = MsgDataModel;

    open spec fn view(&self) -> MsgDataModel {
        match self {
            LNMsData::Uint16(n) => MsgDataModel::Uint16(n@),
            LNMsData::Uint32(n) => MsgDataModel::Uint32(n@),
            LNMsData::Uint64(n) => MsgDataModel::Uint64(n@),
            LNMsData::ChainHash(n, d) => MsgDataModel::ChainHash(n@, d@),
            LNMsData::ChannelId(n) => MsgDataModel::ChannelId(n@),
            LNMsData::Signature(n) => MsgDataModel::Signature(n@),
            LNMsData::ShortChannelId(n) => MsgDataModel::ShortChannelId(n@),
            LNMsData::Point(n) => MsgDataModel::Point(n@),
            LNMsData::BitfieldStream(n, s) => MsgDataModel::BitfieldStream(n@, s@),
            LNMsData::TLVinit(s, p) => MsgDataModel::TLVinit(s@, p@),
        }
    }
}

impl DeepView for LNMsData {
    type V = MsgDataModel;

    open spec fn deep_view(&self) -> MsgDataModel {
        self.view()
    }
}

impl View for LNMsg {
    type V = MsgModel;

    open spec fn view(&self) -> MsgModel {
        MsgModel {
            typ: self.msg_typ,
            name: self.msg_name@,
            data: self.msg_data.deep_view(),
            gossip_query: self.is_gossip_query,
        }
    }
}

impl DeepView for LNMsg {
    type V = MsgModel;

    open spec fn deep_view(&self) -> MsgModel {
        self.view()
    }
}

impl View for EncodingType {
    type V = EncodingModel;

    open spec fn view(&self) -> EncodingModel {
        EncodingModel { ty: self.ty@, size: self.size@ }
    }
}

impl View for LNTlvEntry {
    type V = TlvEntryModel;

    open spec fn view(&self) -> TlvEntryModel {
        TlvEntryModel {
            name: self.entry_name@,
            ty: self.entry_ty@,
            encoding: match self.encoding {
                Some(e) => Some(e@),
                None => None,
            },
        }
    }
}

impl DeepView for LNTlvEntry {
    type V = TlvEntryModel;

    open spec fn deep_view(&self) -> TlvEntryModel {
        self.view()
    }
}

impl View for LNTlvRecord {
    type V = TlvRecordModel;

    open spec fn view(&self) -> TlvRecordModel {
        TlvRecordModel {
            stream: self.stream_name@,
            record: self.record_name@,
            type_len: self.type_len,
            entries: self.record_entry.deep_view(),
        }
    }
}

impl DeepView for LNTlvRecord {
    type V = TlvRecordModel;

    open spec fn deep_view(&self) -> TlvRecordModel {
        self.view()
    }
}

impl View for LNSubType {
    type V = SubTypeModel;

    open spec fn view(&self) -> SubTypeModel {
        SubTypeModel { name: self.ty@, data: self.ty_data.deep_view() }
    }
}

impl DeepView for LNSubType {
    type V = SubTypeModel;

    open spec fn deep_view(&self) -> SubTypeModel {
        self.view()
    }
}

impl View for LNMsgType {
    type V = ItemModel;

    open spec fn view(&self) -> ItemModel {
        match self {
            LNMsgType::Msg(m) => ItemModel::Msg(m@),
            LNMsgType::Tlv(t) => ItemModel::Tlv(t@),
            LNMsgType::SubType(s) => ItemModel::SubType(s@),
        }
    }
}

impl DeepView for LNMsgType {
    type V = ItemModel;

    open spec fn deep_view(&self) -> ItemModel {
        self.view()
    }
}

impl LNMsg {
    /// Builds a message with the given numeric type and name, no fields, and
    /// the gossip-query flag clear.
    pub fn new(msg_typ: u64, msg_name: &str) -> (r: LNMsg)
        ensures
            r@ == (MsgModel {
                typ: msg_typ,
                name: msg_name@,
                data: Seq::<MsgDataModel>::empty(),
                gossip_query: false,
            }),
    {
        let r = LNMsg {
            msg_typ,
            msg_name: msg_name.to_owned(),
            msg_data: Vec::new(),
            is_gossip_query: false,
        };
        proof {
            assert(r.msg_data.deep_view() =~= Seq::<MsgDataModel>::empty());
        }
        r
    }

    /// Appends one field after all fields declared so far.
    pub fn add_msg_data(&mut self, data: &LNMsData)
        ensures
            final(self)@ == (MsgModel { data: old(self)@.data.push(data@), ..old(self)@ }),
    {
        let ghost pre = self.msg_data.deep_view();
        self.msg_data.push(data.clone());
        proof {
            assert(self.msg_data.deep_view() =~= pre.push(data@));
        }
    }

    /// The most recently appended field, if any.
    pub fn peek(&self) -> (r: Option<&LNMsData>)
        ensures
            (r is Some) == (self@.data.len() > 0),
            r is Some ==> r->Some_0@ == self@.data.last(),
    {
        if self.msg_data.len() == 0 {
            None
        } else {
            Some(&self.msg_data[self.msg_data.len() - 1])
        }
    }

    /// Replaces the most recently appended field in place.
    pub fn replace_last_with(&mut self, data: LNMsData)
        requires
            old(self)@.data.len() > 0,
        ensures
            final(self)@ == (MsgModel {
                data: old(self)@.data.update(old(self)@.data.len() - 1, data@),
                ..old(self)@
            }),
    {
        let ghost pre = self.msg_data.deep_view();
        let ghost dv = data@;
        let _ = self.msg_data.pop();
        self.msg_data.push(data);
        proof {
            assert(self.msg_data.deep_view() =~= pre.update(pre.len() - 1, dv));
        }
    }
}

impl LNTlvRecord {
    /// Builds a TLV record for stream `stream`, named `name`, with numeric
    /// type `len` and no entries yet.
    pub fn new(stream: &str, name: &str, len: u64) -> (r: LNTlvRecord)
        ensures
            r@ == (TlvRecordModel {
                stream: stream@,
                record: name@,
                type_len: len,
                entries: Seq::<TlvEntryModel>::empty(),
            }),
    {
        let r = LNTlvRecord {
            stream_name: stream.to_owned(),
            record_name: name.to_owned(),
            type_len: len,
            record_entry: Vec::new(),
        };
        proof {
            assert(r.record_entry.deep_view() =~= Seq::<TlvEntryModel>::empty());
        }
        r
    }

    /// Appends one entry after all entries declared so far.
    pub fn add_entry(&mut self, entry: &LNTlvEntry)
        ensures
            final(self)@ == (TlvRecordModel {
                entries: old(self)@.entries.push(entry@),
                ..old(self)@
            }),
    {
        let ghost pre = self.record_entry.deep_view();
        self.record_entry.push(entry.clone());
        proof {
            assert(self.record_entry.deep_view() =~= pre.push(entry@));
        }
    }
}

impl LNTlvEntry {
    /// Builds an entry with the given name and type and no encoding.
    pub fn new(name: &str, ty: &str) -> (r: LNTlvEntry)
        ensures
            r@ == (TlvEntryModel { name: name@, ty: ty@, encoding: None }),
    {
        LNTlvEntry { entry_name: name.to_owned(), entry_ty: ty.to_owned(), encoding: None }
    }

    /// Encoding annotations are recognised but not yet recorded.
    pub fn add_encoding() {
    }
}

impl LNSubType {
    /// Builds a subtype with the given name and no fields.
    pub fn new(ty: &str) -> (r: LNSubType)
        ensures
            r@ == (SubTypeModel { name: ty@, data: Seq::<MsgDataModel>::empty() }),
    {
        let r = LNSubType { ty: ty.to_owned(), ty_data: Vec::new() };
        proof {
            assert(r.ty_data.deep_view() =~= Seq::<MsgDataModel>::empty());
        }
        r
    }

    /// Appends one field after all fields declared so far.
    pub fn add_msg_data(&mut self, data: &LNMsData)
        ensures
            final(self)@ == (SubTypeModel { data: old(self)@.data.push(data@), ..old(self)@ }),
    {
        let ghost pre = self.ty_data.deep_view();
        self.ty_data.push(data.clone());
        proof {
            assert(self.ty_data.deep_view() =~= pre.push(data@));
        }
    }
}

} // verus!
