//! The code-generation engine: a backend-agnostic traversal of the symbol
//! table that invokes a backend's emission hooks in a fixed,
//! binary-layout-preserving order. The traversal is reified first as a
//! sequence of [`GenEvent`] values, so that the hook order is itself a value
//! the contracts and the laws below speak about; the drivers then dispatch
//! each event to one hook of a [`CodeGen`] backend.

use vstd::prelude::*;

use crate::ast::{
    ItemModel, LNMsData, LNMsg, LNMsgType, LNSubType, LNTlvRecord, MsgDataModel, MsgModel,
    SubTypeModel, TlvRecordModel,
};
use crate::error::{ErrModel, ErrorReason, StructuralError};
use crate::symbol::{st_get, tlv_keyed, SymbolTable, TableModel};

verus! {

/// One hook invocation of the backend capability interface, reified: the
/// engine turns a symbol table into an ordered sequence of these.
#[derive(PartialEq, Debug)]
pub enum GenEvent {
    /// The hook called once before anything else.
    PreGeneration,
    /// A message opens.
    BuildMsg(LNMsg),
    /// Its encode function opens.
    BuildEncodeFn,
    /// One write hook, for the field's own kind.
    WriteField(LNMsData),
    /// The write hook of a resolved TLV-stream reference.
    WriteTlvStream(LNTlvRecord),
    /// The encode function closes.
    EndEncodeFn,
    /// The decode function opens.
    BuildDecodeFn,
    /// One build hook, for the field's own kind.
    BuildField(LNMsData),
    /// The build hook of a resolved TLV-stream reference.
    BuildTlvStream(LNTlvRecord),
    /// The decode function closes.
    EndDecodeFn,
    /// The message closes.
    EndMsg(LNMsg),
    /// The optional subtype hook.
    GenerateSubtype(LNSubType),
    /// The hook called once after everything else.
    PostGeneration,
}

/// The model of one hook invocation.
#[verifier::ext_equal]
pub enum GenEventModel {
    PreGeneration,
    BuildMsg(MsgModel),
    BuildEncodeFn,
    WriteField(MsgDataModel),
    WriteTlvStream(TlvRecordModel),
    EndEncodeFn,
    BuildDecodeFn,
    BuildField(MsgDataModel),
    BuildTlvStream(TlvRecordModel),
    EndDecodeFn,
    EndMsg(MsgModel),
    GenerateSubtype(SubTypeModel),
    PostGeneration,
}

impl View for GenEvent {
    type V = GenEventModel;

    open spec fn view(&self) -> GenEventModel {
        match self {
            GenEvent::PreGeneration => GenEventModel::PreGeneration,
            GenEvent::BuildMsg(m) => GenEventModel::BuildMsg(m@),
            GenEvent::BuildEncodeFn => GenEventModel::BuildEncodeFn,
            GenEvent::WriteField(f) => GenEventModel::WriteField(f@),
            GenEvent::WriteTlvStream(r) => GenEventModel::WriteTlvStream(r@),
            GenEvent::EndEncodeFn => GenEventModel::EndEncodeFn,
            GenEvent::BuildDecodeFn => GenEventModel::BuildDecodeFn,
            GenEvent::BuildField(f) => GenEventModel::BuildField(f@),
            GenEvent::BuildTlvStream(r) => GenEventModel::BuildTlvStream(r@),
            GenEvent::EndDecodeFn => GenEventModel::EndDecodeFn,
            GenEvent::EndMsg(m) => GenEventModel::EndMsg(m@),
            GenEvent::GenerateSubtype(s) => GenEventModel::GenerateSubtype(s@),
            GenEvent::PostGeneration => GenEventModel::PostGeneration,
        }
    }
}

impl DeepView for GenEvent {
    type V = GenEventModel;

    open spec fn deep_view(&self) -> GenEventModel {
        self.view()
    }
}

/// The error for a TLV-stream reference that the symbol table does not
/// resolve to a TLV record.
pub open spec fn resolve_err(reason: ErrorReason, stream: Seq<char>) -> ErrModel {
    ErrModel { reason, found: stream, line: None }
}

/// The write event one field yields: its own write hook, except that a
/// TLV-stream reference must resolve, by stream name, to a TLV record of the
/// symbol table; any other resolution is a fatal error.
pub open spec fn ev_write(f: MsgDataModel, tbl: TableModel) -> Result<GenEventModel, ErrModel> {
    match f {
        MsgDataModel::TLVinit(stream, _) => match st_get(tbl, stream) {
            None => Err(resolve_err(ErrorReason::UnresolvedReference, stream)),
            Some(ItemModel::Tlv(rec)) => Ok(GenEventModel::WriteTlvStream(rec)),
            Some(_) => Err(resolve_err(ErrorReason::NotATlvRecord, stream)),
        },
        _ => Ok(GenEventModel::WriteField(f)),
    }
}

/// The build event one field yields, with the same resolution rule.
pub open spec fn ev_build(f: MsgDataModel, tbl: TableModel) -> Result<GenEventModel, ErrModel> {
    match f {
        MsgDataModel::TLVinit(stream, _) => match st_get(tbl, stream) {
            None => Err(resolve_err(ErrorReason::UnresolvedReference, stream)),
            Some(ItemModel::Tlv(rec)) => Ok(GenEventModel::BuildTlvStream(rec)),
            Some(_) => Err(resolve_err(ErrorReason::NotATlvRecord, stream)),
        },
        _ => Ok(GenEventModel::BuildField(f)),
    }
}

/// The events of the fields from position `j` on, in declaration order; the
/// first unresolvable reference aborts.
pub open spec fn sp_field_events(
    fields: Seq<MsgDataModel>,
    tbl: TableModel,
    j: int,
    write: bool,
) -> Result<Seq<GenEventModel>, ErrModel>
    decreases fields.len() - j,
{
    if j < 0 || j >= fields.len() {
        Ok(Seq::empty())
    } else {
        let ev = if write {
            ev_write(fields[j], tbl)
        } else {
            ev_build(fields[j], tbl)
        };
        match ev {
            Err(e) => Err(e),
            Ok(e0) => match sp_field_events(fields, tbl, j + 1, write) {
                Err(e) => Err(e),
                Ok(rest) => Ok(seq![e0] + rest),
            },
        }
    }
}

/// The events of a message's encode generation: the encode function opens,
/// one write hook per field in declaration order, and the encode function
/// closes.
pub open spec fn sp_encode_events(m: MsgModel, tbl: TableModel) -> Result<
    Seq<GenEventModel>,
    ErrModel,
> {
    match sp_field_events(m.data, tbl, 0, true) {
        Err(e) => Err(e),
        Ok(evs) => Ok(seq![GenEventModel::BuildEncodeFn] + evs + seq![GenEventModel::EndEncodeFn]),
    }
}

/// The events of a message's decode generation: the decode function opens,
/// one build hook per field in the same declaration order, and the decode
/// function closes.
pub open spec fn sp_decode_events(m: MsgModel, tbl: TableModel) -> Result<
    Seq<GenEventModel>,
    ErrModel,
> {
    match sp_field_events(m.data, tbl, 0, false) {
        Err(e) => Err(e),
        Ok(evs) => Ok(seq![GenEventModel::BuildDecodeFn] + evs + seq![GenEventModel::EndDecodeFn]),
    }
}

/// The events of one whole message: it opens, its encode side runs, its
/// decode side runs over the same fields in the same order, and it closes.
pub open spec fn sp_msg_events(m: MsgModel, tbl: TableModel) -> Result<
    Seq<GenEventModel>,
    ErrModel,
> {
    match sp_encode_events(m, tbl) {
        Err(e) => Err(e),
        Ok(enc) => match sp_decode_events(m, tbl) {
            Err(e) => Err(e),
            Ok(dec) => Ok(
                seq![GenEventModel::BuildMsg(m)] + enc + dec + seq![GenEventModel::EndMsg(m)],
            ),
        },
    }
}

/// The events of one symbol table entry: a message runs in full, a subtype
/// triggers its optional hook, and a TLV record triggers nothing standalone —
/// it is emitted only where a message field references it.
pub open spec fn sp_item_events(item: ItemModel, tbl: TableModel) -> Result<
    Seq<GenEventModel>,
    ErrModel,
> {
    match item {
        ItemModel::Msg(m) => sp_msg_events(m, tbl),
        ItemModel::SubType(s) => Ok(seq![GenEventModel::GenerateSubtype(s)]),
        ItemModel::Tlv(_) => Ok(Seq::empty()),
    }
}

/// The events of the table entries from position `k` on, in name order.
pub open spec fn sp_table_events(tbl: TableModel, k: int) -> Result<Seq<GenEventModel>, ErrModel>
    decreases tbl.len() - k,
{
    if k < 0 || k >= tbl.len() {
        Ok(Seq::empty())
    } else {
        match sp_item_events(tbl[k].1, tbl) {
            Err(e) => Err(e),
            Ok(evs) => match sp_table_events(tbl, k + 1) {
                Err(e) => Err(e),
                Ok(rest) => Ok(evs + rest),
            },
        }
    }
}

/// The whole traversal: the pre-generation hook, every entry in name order,
/// and the post-generation hook.
pub open spec fn spec_generate(tbl: TableModel) -> Result<Seq<GenEventModel>, ErrModel> {
    match sp_table_events(tbl, 0) {
        Err(e) => Err(e),
        Ok(evs) => Ok(
            seq![GenEventModel::PreGeneration] + evs + seq![GenEventModel::PostGeneration],
        ),
    }
}

/// The write or build event one field yields, against the symbol table.
fn field_event(field: &LNMsData, symbol_table: &SymbolTable, write: bool) -> (r: Result<
    GenEvent,
    StructuralError,
>)
    ensures
        match (if write {
            ev_write(field@, symbol_table@)
        } else {
            ev_build(field@, symbol_table@)
        }) {
            Ok(ev) => r is Ok && r->Ok_0@ == ev,
            Err(e) => r is Err && r->Err_0@ == e,
        },
{
    match field {
        LNMsData::TLVinit(stream, _) => match symbol_table.get(stream.as_str()) {
            None => Err(
                StructuralError::new(ErrorReason::UnresolvedReference, stream.as_str(), None),
            ),
            Some(LNMsgType::Tlv(rec)) => {
                if write {
                    Ok(GenEvent::WriteTlvStream(rec.clone()))
                } else {
                    Ok(GenEvent::BuildTlvStream(rec.clone()))
                }
            },
            Some(_) => Err(StructuralError::new(ErrorReason::NotATlvRecord, stream.as_str(), None)),
        },
        _ => {
            if write {
                Ok(GenEvent::WriteField(field.clone()))
            } else {
                Ok(GenEvent::BuildField(field.clone()))
            }
        },
    }
}

/// The events of all of a message's fields, in declaration order.
fn field_events(msg: &LNMsg, symbol_table: &SymbolTable, write: bool) -> (r: Result<
    Vec<GenEvent>,
    StructuralError,
>)
    ensures
        match sp_field_events(msg@.data, symbol_table@, 0, write) {
            Ok(evs) => r is Ok && r->Ok_0.deep_view() == evs,
            Err(e) => r is Err && r->Err_0@ == e,
        },
{
    let ghost fields = msg@.data;
    let ghost tbl = symbol_table@;
    let mut acc: Vec<GenEvent> = Vec::new();
    let mut j: usize = 0;
    proof {
        assert(acc.deep_view() =~= Seq::<GenEventModel>::empty());
    }
    while j < msg.msg_data.len()
        invariant
            fields == msg@.data,
            tbl == symbol_table@,
            j <= fields.len(),
            fields.len() == msg.msg_data@.len(),
            match sp_field_events(fields, tbl, j as int, write) {
                Ok(rest) => sp_field_events(fields, tbl, 0, write) == Ok::<
                    Seq<GenEventModel>,
                    ErrModel,
                >(acc.deep_view() + rest),
                Err(e) => sp_field_events(fields, tbl, 0, write) == Err::<
                    Seq<GenEventModel>,
                    ErrModel,
                >(e),
            },
        decreases fields.len() - j,
    {
        proof {
            assert(msg.msg_data@[j as int]@ == fields[j as int]);
        }
        let ghost pre = acc.deep_view();
        match field_event(&msg.msg_data[j], symbol_table, write) {
            Ok(ev) => {
                acc.push(ev);
                proof {
                    assert(acc.deep_view() =~~= pre.push(acc@.last()@));
                    match sp_field_events(fields, tbl, j + 1, write) {
                        Ok(rest) => {
                            assert(acc.deep_view() + rest =~= pre + (seq![acc@.last()@] + rest));
                        },
                        Err(_) => {},
                    }
                }
            },
            Err(e) => {
                return Err(e);
            },
        }
        j += 1;
    }
    proof {
        assert(sp_field_events(fields, tbl, j as int, write) == Ok::<
            Seq<GenEventModel>,
            ErrModel,
        >(Seq::empty()));
        assert(acc.deep_view() + Seq::<GenEventModel>::empty() =~= acc.deep_view());
    }
    Ok(acc)
}

/// The events of a message's encode generation.
pub fn encode_events(msg: &LNMsg, symbol_table: &SymbolTable) -> (r: Result<
    Vec<GenEvent>,
    StructuralError,
>)
    ensures
        match sp_encode_events(msg@, symbol_table@) {
            Ok(evs) => r is Ok && r->Ok_0.deep_view() == evs,
            Err(e) => r is Err && r->Err_0@ == e,
        },
{
    let mut evs: Vec<GenEvent> = Vec::new();
    evs.push(GenEvent::BuildEncodeFn);
    let mut fields = match field_events(msg, symbol_table, true) {
        Ok(v) => v,
        Err(e) => {
            return Err(e);
        },
    };
    let ghost fv = fields.deep_view();
    evs.append(&mut fields);
    evs.push(GenEvent::EndEncodeFn);
    proof {
        assert(evs.deep_view() =~~= seq![GenEventModel::BuildEncodeFn] + fv + seq![
            GenEventModel::EndEncodeFn,
        ]);
    }
    Ok(evs)
}

/// The events of a message's decode generation.
pub fn decode_events(msg: &LNMsg, symbol_table: &SymbolTable) -> (r: Result<
    Vec<GenEvent>,
    StructuralError,
>)
    ensures
        match sp_decode_events(msg@, symbol_table@) {
            Ok(evs) => r is Ok && r->Ok_0.deep_view() == evs,
            Err(e) => r is Err && r->Err_0@ == e,
        },
{
    let mut evs: Vec<GenEvent> = Vec::new();
    evs.push(GenEvent::BuildDecodeFn);
    let mut fields = match field_events(msg, symbol_table, false) {
        Ok(v) => v,
        Err(e) => {
            return Err(e);
        },
    };
    let ghost fv = fields.deep_view();
    evs.append(&mut fields);
    evs.push(GenEvent::EndDecodeFn);
    proof {
        assert(evs.deep_view() =~~= seq![GenEventModel::BuildDecodeFn] + fv + seq![
            GenEventModel::EndDecodeFn,
        ]);
    }
    Ok(evs)
}

/// The events of one whole message: encode side first, then decode side over
/// the same fields in the same declaration order.
pub fn msg_events(msg: &LNMsg, symbol_table: &SymbolTable) -> (r: Result<
    Vec<GenEvent>,
    StructuralError,
>)
    ensures
        match sp_msg_events(msg@, symbol_table@) {
            Ok(evs) => r is Ok && r->Ok_0.deep_view() == evs,
            Err(e) => r is Err && r->Err_0@ == e,
        },
{
    let mut evs: Vec<GenEvent> = Vec::new();
    evs.push(GenEvent::BuildMsg(msg.clone()));
    let mut enc = match encode_events(msg, symbol_table) {
        Ok(v) => v,
        Err(e) => {
            return Err(e);
        },
    };
    let ghost encv = enc.deep_view();
    evs.append(&mut enc);
    let mut dec = match decode_events(msg, symbol_table) {
        Ok(v) => v,
        Err(e) => {
            return Err(e);
        },
    };
    let ghost decv = dec.deep_view();
    evs.append(&mut dec);
    evs.push(GenEvent::EndMsg(msg.clone()));
    proof {
        assert(evs.deep_view() =~~= seq![GenEventModel::BuildMsg(msg@)] + encv + decv + seq![
            GenEventModel::EndMsg(msg@),
        ]);
    }
    Ok(evs)
}

/// The whole ordered hook sequence for a symbol table: the pre-generation
/// hook, each entry's events in name order, and the post-generation hook.
/// Fails exactly where a TLV-stream reference of some message does not
/// resolve to a TLV record.
pub fn generate_events(symbol_table: &SymbolTable) -> (r: Result<Vec<GenEvent>, StructuralError>)
    ensures
        match spec_generate(symbol_table@) {
            Ok(evs) => r is Ok && r->Ok_0.deep_view() == evs,
            Err(e) => r is Err && r->Err_0@ == e,
        },
{
    let ghost tbl = symbol_table@;
    let mut evs: Vec<GenEvent> = Vec::new();
    evs.push(GenEvent::PreGeneration);
    let mut k: usize = 0;
    proof {
        assert(evs.deep_view() =~= seq![GenEventModel::PreGeneration]);
        assert(evs.deep_view().skip(1) =~= Seq::<GenEventModel>::empty());
    }
    while k < symbol_table.len()
        invariant
            tbl == symbol_table@,
            k <= tbl.len(),
            evs.deep_view().len() >= 1,
            evs.deep_view()[0] == GenEventModel::PreGeneration,
            match sp_table_events(tbl, k as int) {
                Ok(rest) => sp_table_events(tbl, 0) == Ok::<Seq<GenEventModel>, ErrModel>(
                    evs.deep_view().skip(1) + rest,
                ),
                Err(e) => sp_table_events(tbl, 0) == Err::<Seq<GenEventModel>, ErrModel>(e),
            },
        decreases tbl.len() - k,
    {
        let ghost pre = evs.deep_view();
        let item = symbol_table.item_at(k);
        match item {
            LNMsgType::Msg(m) => {
                let mut more = match msg_events(m, symbol_table) {
                    Ok(v) => v,
                    Err(e) => {
                        return Err(e);
                    },
                };
                let ghost morev = more.deep_view();
                evs.append(&mut more);
                proof {
                    assert(evs.deep_view() =~~= pre + morev);
                    assert(evs.deep_view().skip(1) =~= pre.skip(1) + morev);
                    match sp_table_events(tbl, k + 1) {
                        Ok(rest) => {
                            assert(pre.skip(1) + morev + rest =~= pre.skip(1) + (morev + rest));
                        },
                        Err(_) => {},
                    }
                }
            },
            LNMsgType::SubType(s) => {
                evs.push(GenEvent::GenerateSubtype(s.clone()));
                proof {
                    assert(evs.deep_view() =~~= pre.push(GenEventModel::GenerateSubtype(s@)));
                    assert(evs.deep_view().skip(1) =~= pre.skip(1) + seq![
                        GenEventModel::GenerateSubtype(s@),
                    ]);
                    match sp_table_events(tbl, k + 1) {
                        Ok(rest) => {
                            assert(pre.skip(1) + seq![GenEventModel::GenerateSubtype(s@)] + rest
                                =~= pre.skip(1) + (seq![GenEventModel::GenerateSubtype(s@)]
                                + rest));
                        },
                        Err(_) => {},
                    }
                }
            },
            LNMsgType::Tlv(_) => {
                proof {
                    match sp_table_events(tbl, k + 1) {
                        Ok(rest) => {
                            assert(pre.skip(1) + rest =~= pre.skip(1) + (Seq::<
                                GenEventModel,
                            >::empty() + rest));
                        },
                        Err(_) => {},
                    }
                }
            },
        }
        k += 1;
    }
    let ghost pre = evs.deep_view();
    evs.push(GenEvent::PostGeneration);
    proof {
        assert(sp_table_events(tbl, k as int) == Ok::<Seq<GenEventModel>, ErrModel>(Seq::empty()));
        assert(pre.skip(1) + Seq::<GenEventModel>::empty() =~= pre.skip(1));
        assert(evs.deep_view() =~~= pre.push(GenEventModel::PostGeneration));
        assert(pre =~= seq![GenEventModel::PreGeneration] + pre.skip(1));
        assert(evs.deep_view() =~= seq![GenEventModel::PreGeneration] + pre.skip(1) + seq![
            GenEventModel::PostGeneration,
        ]);
    }
    Ok(evs)
}

} // verus!

verus! {

/// The backend capability interface: one hook per traversal step and one
/// build/write pair per field kind. A backend implements these to turn the
/// engine's fixed call order into target-language source text.
pub trait CodeGen {
    /// Called once before any entry is walked.
    fn pre_generation(&mut self);

    /// Called once after every entry has been walked.
    fn post_generation(&mut self);

    /// A message opens.
    fn build_msg(&mut self, msg: &LNMsg);

    /// A message closes.
    fn end_msg(&mut self, msg: &LNMsg);

    /// The decode function of the open message opens.
    fn build_decode_fun(&mut self);

    /// The decode function closes.
    fn end_decode_fn(&mut self);

    /// The encode function of the open message opens.
    fn build_encode_fn(&mut self);

    /// The encode function closes.
    fn end_encode_fn(&mut self);

    fn build_u16(&mut self, field: &LNMsData);

    fn write_u16(&mut self, field: &LNMsData);

    fn build_u32(&mut self, field: &LNMsData);

    fn write_u32(&mut self, field: &LNMsData);

    fn build_u64(&mut self, field: &LNMsData);

    fn write_u64(&mut self, field: &LNMsData);

    fn build_chain_hash(&mut self, field: &LNMsData);

    fn write_chain_hash(&mut self, field: &LNMsData);

    fn build_channel_id(&mut self, field: &LNMsData);

    fn write_channel_id(&mut self, field: &LNMsData);

    fn build_short_channel_id(&mut self, field: &LNMsData);

    fn write_short_channel_id(&mut self, field: &LNMsData);

    fn build_signature(&mut self, field: &LNMsData);

    fn write_signature(&mut self, field: &LNMsData);

    fn build_point(&mut self, field: &LNMsData);

    fn write_point(&mut self, field: &LNMsData);

    fn build_bitfield(&mut self, field: &LNMsData);

    fn write_bitfiled(&mut self, field: &LNMsData);

    fn build_tlv_stream(&mut self, field: &LNTlvRecord);

    fn write_tlv_stream(&mut self, field: &LNTlvRecord);

    /// The optional hook a subtype entry triggers.
    fn generate_subtype(&mut self, subtyp: &LNSubType);
}

/// Dispatches one reified event to the backend hook it stands for, matching
/// on the field kind for write and build events. A field event that still
/// holds an unresolved TLV-stream reference dispatches to no hook; the event
/// builders never produce one.
pub fn dispatch_event<G: CodeGen>(gen: &mut G, event: &GenEvent) {
    match event {
        GenEvent::PreGeneration => gen.pre_generation(),
        GenEvent::PostGeneration => gen.post_generation(),
        GenEvent::BuildMsg(m) => gen.build_msg(m),
        GenEvent::EndMsg(m) => gen.end_msg(m),
        GenEvent::BuildEncodeFn => gen.build_encode_fn(),
        GenEvent::EndEncodeFn => gen.end_encode_fn(),
        GenEvent::BuildDecodeFn => gen.build_decode_fun(),
        GenEvent::EndDecodeFn => gen.end_decode_fn(),
        GenEvent::WriteField(f) => match f {
            LNMsData::Uint16(_) => gen.write_u16(f),
            LNMsData::Uint32(_) => gen.write_u32(f),
            LNMsData::Uint64(_) => gen.write_u64(f),
            LNMsData::ChainHash(_, _) => gen.write_chain_hash(f),
            LNMsData::ChannelId(_) => gen.write_channel_id(f),
            LNMsData::ShortChannelId(_) => gen.write_short_channel_id(f),
            LNMsData::Signature(_) => gen.write_signature(f),
            LNMsData::Point(_) => gen.write_point(f),
            LNMsData::BitfieldStream(_, _) => gen.write_bitfiled(f),
            LNMsData::TLVinit(_, _) => {},
        },
        GenEvent::BuildField(f) => match f {
            LNMsData::Uint16(_) => gen.build_u16(f),
            LNMsData::Uint32(_) => gen.build_u32(f),
            LNMsData::Uint64(_) => gen.build_u64(f),
            LNMsData::ChainHash(_, _) => gen.build_chain_hash(f),
            LNMsData::ChannelId(_) => gen.build_channel_id(f),
            LNMsData::ShortChannelId(_) => gen.build_short_channel_id(f),
            LNMsData::Signature(_) => gen.build_signature(f),
            LNMsData::Point(_) => gen.build_point(f),
            LNMsData::BitfieldStream(_, _) => gen.build_bitfield(f),
            LNMsData::TLVinit(_, _) => {},
        },
        GenEvent::WriteTlvStream(r) => gen.write_tlv_stream(r),
        GenEvent::BuildTlvStream(r) => gen.build_tlv_stream(r),
        GenEvent::GenerateSubtype(s) => gen.generate_subtype(s),
    }
}

/// Dispatches a whole event sequence, in order.
fn dispatch_all<G: CodeGen>(gen: &mut G, events: &Vec<GenEvent>) {
    let mut i: usize = 0;
    while i < events.len()
        decreases events@.len() - i,
    {
        dispatch_event(gen, &events[i]);
        i += 1;
    }
}

/// Drives a message's encode generation against a backend: the encode
/// function opens, each field's write hook runs in declaration order, and the
/// encode function closes. Fails exactly where a TLV-stream reference does
/// not resolve to a TLV record.
pub fn generate_encode_fn<G: CodeGen>(
    gen: &mut G,
    msg: &LNMsg,
    symbol_table: &SymbolTable,
) -> (r: Result<(), StructuralError>)
    ensures
        match sp_encode_events(msg@, symbol_table@) {
            Ok(_) => r is Ok,
            Err(e) => r is Err && r->Err_0@ == e,
        },
{
    match encode_events(msg, symbol_table) {
        Ok(evs) => {
            dispatch_all(gen, &evs);
            Ok(())
        },
        Err(e) => Err(e),
    }
}

/// Drives a message's decode generation against a backend: the decode
/// function opens, each field's build hook runs in the same declaration
/// order, and the decode function closes.
pub fn generate_decode_fn<G: CodeGen>(
    gen: &mut G,
    msg: &LNMsg,
    symbol_table: &SymbolTable,
) -> (r: Result<(), StructuralError>)
    ensures
        match sp_decode_events(msg@, symbol_table@) {
            Ok(_) => r is Ok,
            Err(e) => r is Err && r->Err_0@ == e,
        },
{
    match decode_events(msg, symbol_table) {
        Ok(evs) => {
            dispatch_all(gen, &evs);
            Ok(())
        },
        Err(e) => Err(e),
    }
}

/// Drives one whole message against a backend: it opens, its encode side
/// runs, its decode side runs, and it closes.
pub fn generate_msg<G: CodeGen>(gen: &mut G, msg: &LNMsg, symbol_table: &SymbolTable) -> (r:
    Result<(), StructuralError>)
    ensures
        match sp_msg_events(msg@, symbol_table@) {
            Ok(_) => r is Ok,
            Err(e) => r is Err && r->Err_0@ == e,
        },
{
    match msg_events(msg, symbol_table) {
        Ok(evs) => {
            dispatch_all(gen, &evs);
            Ok(())
        },
        Err(e) => Err(e),
    }
}

/// Drives the whole symbol table against a backend, in the engine's fixed
/// order: the pre-generation hook, every entry in name order, the
/// post-generation hook. Fails exactly where a TLV-stream reference of some
/// message does not resolve to a TLV record; no hook runs on failure.
pub fn generate<G: CodeGen>(gen: &mut G, symbol_table: &SymbolTable) -> (r: Result<
    (),
    StructuralError,
>)
    ensures
        match spec_generate(symbol_table@) {
            Ok(_) => r is Ok,
            Err(e) => r is Err && r->Err_0@ == e,
        },
{
    match generate_events(symbol_table) {
        Ok(evs) => {
            dispatch_all(gen, &evs);
            Ok(())
        },
        Err(e) => Err(e),
    }
}

/// The field name a field declares; a TLV-stream reference declares the
/// stream name it points at.
pub open spec fn field_ref(f: MsgDataModel) -> Seq<char> {
    match f {
        MsgDataModel::Uint16(n) => n,
        MsgDataModel::Uint32(n) => n,
        MsgDataModel::Uint64(n) => n,
        MsgDataModel::ChainHash(n, _) => n,
        MsgDataModel::ChannelId(n) => n,
        MsgDataModel::Signature(n) => n,
        MsgDataModel::ShortChannelId(n) => n,
        MsgDataModel::Point(n) => n,
        MsgDataModel::BitfieldStream(n, _) => n,
        MsgDataModel::TLVinit(s, _) => s,
    }
}

/// The name a field event references.
pub open spec fn ev_ref(e: GenEventModel) -> Seq<char> {
    match e {
        GenEventModel::WriteField(f) => field_ref(f),
        GenEventModel::BuildField(f) => field_ref(f),
        GenEventModel::WriteTlvStream(r) => r.stream,
        GenEventModel::BuildTlvStream(r) => r.stream,
        _ => Seq::empty(),
    }
}

/// Whether an event is a write hook of some field.
pub open spec fn is_write_event(e: GenEventModel) -> bool {
    e is WriteField || e is WriteTlvStream
}

/// Whether an event is a build hook of some field.
pub open spec fn is_build_event(e: GenEventModel) -> bool {
    e is BuildField || e is BuildTlvStream
}

/// In a TLV-keyed table, a name that resolves to a TLV record resolves to a
/// record of that very stream.
proof fn lemma_st_get_tlv(tbl: TableModel, name: Seq<char>)
    requires
        tlv_keyed(tbl),
        st_get(tbl, name) is Some,
        st_get(tbl, name)->Some_0 is Tlv,
    ensures
        st_get(tbl, name)->Some_0->Tlv_0.stream == name,
    decreases tbl.len(),
{
    if tbl.len() > 0 {
        if tbl[0].0 == name {
            assert(tbl[0].1 == st_get(tbl, name)->Some_0);
        } else {
            assert forall|k: int|
                0 <= k < tbl.drop_first().len() && (#[trigger] tbl.drop_first()[k]).1
                    is Tlv implies tbl.drop_first()[k].1->Tlv_0.stream
                == tbl.drop_first()[k].0 by {
                assert(tbl.drop_first()[k] == tbl[k + 1]);
            }
            lemma_st_get_tlv(tbl.drop_first(), name);
        }
    }
}

/// The hook events of a field run, from `j` on: one per field, in field
/// order, each referencing its field's name.
proof fn lemma_field_events_order(
    fields: Seq<MsgDataModel>,
    tbl: TableModel,
    j: int,
    write: bool,
)
    requires
        0 <= j <= fields.len(),
        tlv_keyed(tbl),
        sp_field_events(fields, tbl, j, write) is Ok,
    ensures
        sp_field_events(fields, tbl, j, write)->Ok_0.len() == fields.len() - j,
        forall|i: int|
            0 <= i < fields.len() - j ==> ev_ref(
                #[trigger] sp_field_events(fields, tbl, j, write)->Ok_0[i],
            ) == field_ref(fields[j + i]),
        forall|i: int|
            0 <= i < fields.len() - j ==> (if write {
                is_write_event(#[trigger] sp_field_events(fields, tbl, j, write)->Ok_0[i])
            } else {
                is_build_event(sp_field_events(fields, tbl, j, write)->Ok_0[i])
            }),
    decreases fields.len() - j,
{
    if j < fields.len() {
        lemma_field_events_order(fields, tbl, j + 1, write);
        let ev = if write {
            ev_write(fields[j], tbl)
        } else {
            ev_build(fields[j], tbl)
        };
        if fields[j] is TLVinit {
            lemma_st_get_tlv(tbl, fields[j]->TLVinit_0);
        }
        assert(ev_ref(ev->Ok_0) == field_ref(fields[j]));
        let rest = sp_field_events(fields, tbl, j + 1, write)->Ok_0;
        let whole = sp_field_events(fields, tbl, j, write)->Ok_0;
        assert(whole =~= seq![ev->Ok_0] + rest);
        assert forall|i: int| 0 <= i < fields.len() - j implies ev_ref(#[trigger] whole[i])
            == field_ref(fields[j + i]) by {
            if i > 0 {
                assert(whole[i] == rest[i - 1]);
            }
        }
        assert forall|i: int|
            0 <= i < fields.len() - j implies (if write {
            is_write_event(#[trigger] whole[i])
        } else {
            is_build_event(whole[i])
        }) by {
            if i > 0 {
                assert(whole[i] == rest[i - 1]);
            }
        }
    }
}

/// ORDER-PRESERVATION LAW. For any message whose references resolve, the
/// write-hook call sequence of encode generation and the build-hook call
/// sequence of decode generation both follow the declared fields exactly:
/// between the opening and closing hooks stands one hook call per field, in
/// declaration order, each referencing that field's name.
pub proof fn lemma_hook_order(m: MsgModel, tbl: TableModel)
    requires
        tlv_keyed(tbl),
        sp_encode_events(m, tbl) is Ok,
        sp_decode_events(m, tbl) is Ok,
    ensures
        sp_encode_events(m, tbl)->Ok_0.len() == m.data.len() + 2,
        sp_encode_events(m, tbl)->Ok_0.first() == GenEventModel::BuildEncodeFn,
        sp_encode_events(m, tbl)->Ok_0.last() == GenEventModel::EndEncodeFn,
        forall|i: int|
            0 <= i < m.data.len() ==> is_write_event(
                #[trigger] sp_encode_events(m, tbl)->Ok_0[i + 1],
            ) && ev_ref(sp_encode_events(m, tbl)->Ok_0[i + 1]) == field_ref(m.data[i]),
        sp_decode_events(m, tbl)->Ok_0.len() == m.data.len() + 2,
        sp_decode_events(m, tbl)->Ok_0.first() == GenEventModel::BuildDecodeFn,
        sp_decode_events(m, tbl)->Ok_0.last() == GenEventModel::EndDecodeFn,
        forall|i: int|
            0 <= i < m.data.len() ==> is_build_event(
                #[trigger] sp_decode_events(m, tbl)->Ok_0[i + 1],
            ) && ev_ref(sp_decode_events(m, tbl)->Ok_0[i + 1]) == field_ref(m.data[i]),
{
    lemma_field_events_order(m.data, tbl, 0, true);
    lemma_field_events_order(m.data, tbl, 0, false);
}

/// ROUND-TRIP LAW. Encode generation followed by decode generation for the
/// same message references each declared field name exactly once on each
/// side, in the same relative order: the name sequences of the two sides are
/// both exactly the declared field names in declaration order, and under
/// distinct field names each name appears at exactly one position per side.
pub proof fn lemma_round_trip(m: MsgModel, tbl: TableModel)
    requires
        tlv_keyed(tbl),
        sp_msg_events(m, tbl) is Ok,
        forall|i: int, j: int|
            0 <= i < j < m.data.len() ==> field_ref(#[trigger] m.data[i]) != field_ref(
                #[trigger] m.data[j],
            ),
    ensures
        sp_encode_events(m, tbl) is Ok,
        sp_decode_events(m, tbl) is Ok,
        sp_encode_events(m, tbl)->Ok_0.subrange(
            1,
            m.data.len() as int + 1,
        ).map_values(|e: GenEventModel| ev_ref(e)) == m.data.map_values(
            |f: MsgDataModel| field_ref(f),
        ),
        sp_decode_events(m, tbl)->Ok_0.subrange(
            1,
            m.data.len() as int + 1,
        ).map_values(|e: GenEventModel| ev_ref(e)) == sp_encode_events(m, tbl)->Ok_0.subrange(
            1,
            m.data.len() as int + 1,
        ).map_values(|e: GenEventModel| ev_ref(e)),
        forall|i: int, j: int|
            0 <= i < m.data.len() && 0 <= j < m.data.len() && ev_ref(
                #[trigger] sp_encode_events(m, tbl)->Ok_0.subrange(1, m.data.len() as int + 1)[i],
            ) == ev_ref(#[trigger] sp_encode_events(m, tbl)->Ok_0.subrange(1, m.data.len() as int + 1)[j])
                ==> i == j,
{
    lemma_hook_order(m, tbl);
    let enc = sp_encode_events(m, tbl)->Ok_0.subrange(1, m.data.len() as int + 1);
    let dec = sp_decode_events(m, tbl)->Ok_0.subrange(1, m.data.len() as int + 1);
    assert(enc.map_values(|e: GenEventModel| ev_ref(e)) =~= m.data.map_values(
        |f: MsgDataModel| field_ref(f),
    ));
    assert(dec.map_values(|e: GenEventModel| ev_ref(e)) =~= m.data.map_values(
        |f: MsgDataModel| field_ref(f),
    ));
}

/// RESOLUTION LAW. A field's hook event exists exactly when the field is no
/// TLV-stream reference or its stream name resolves to a TLV record: an
/// unrecognised field type never vanishes silently — it either resolves or
/// aborts code generation.
pub proof fn lemma_unresolved_reference(f: MsgDataModel, tbl: TableModel)
    ensures
        ev_write(f, tbl) is Err <==> (f is TLVinit && !(st_get(tbl, f->TLVinit_0) is Some
            && st_get(tbl, f->TLVinit_0)->Some_0 is Tlv)),
        ev_write(f, tbl) is Err <==> ev_build(f, tbl) is Err,
{
}

} // verus!
