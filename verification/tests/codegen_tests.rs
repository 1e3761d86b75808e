use csvlang::ast::{LNMsData, LNMsg, LNMsgType, LNSubType, LNTlvRecord};
use csvlang::codegen::{
    generate, generate_events, generate_msg, msg_events, CodeGen, GenEvent,
};
use csvlang::error::ErrorReason;
use csvlang::parser::Parser;
use csvlang::scanner::Scanner;
use csvlang::symbol::SymbolTable;

fn parse_table(contents: &str) -> SymbolTable {
    let mut scanner = Scanner::new();
    let tokens = scanner.scan(contents);
    let mut parser = Parser::new();
    parser.parse(&tokens).unwrap();
    parser.symbol_table
}

const INIT_SOURCE: &str = "msgtype,init,16\nmsgdata,init,gflen,u16,\nmsgdata,init,globalfeatures,byte,gflen\nmsgdata,init,flen,u16,\nmsgdata,init,features,byte,flen\nmsgdata,init,tlvs,init_tlvs,\ntlvtype,init_tlvs,networks,1\ntlvdata,init_tlvs,networks,chains,chain_hash,...\n";

// The name a field event references, for order checking.
fn event_ref(ev: &GenEvent) -> Option<String> {
    match ev {
        GenEvent::WriteField(f) | GenEvent::BuildField(f) => Some(field_name(f)),
        GenEvent::WriteTlvStream(r) | GenEvent::BuildTlvStream(r) => Some(r.stream_name.clone()),
        _ => None,
    }
}

fn field_name(f: &LNMsData) -> String {
    match f {
        LNMsData::Uint16(n)
        | LNMsData::Uint32(n)
        | LNMsData::Uint64(n)
        | LNMsData::ChannelId(n)
        | LNMsData::Signature(n)
        | LNMsData::ShortChannelId(n)
        | LNMsData::Point(n) => n.clone(),
        LNMsData::ChainHash(n, _) => n.clone(),
        LNMsData::BitfieldStream(n, _) => n.clone(),
        LNMsData::TLVinit(s, _) => s.clone(),
    }
}

// Order preservation: the write hooks of encode generation and the build
// hooks of decode generation both follow the declared fields exactly.
#[test]
fn events_follow_declaration_order() {
    let table = parse_table(INIT_SOURCE);
    let msg = match table.get("init").unwrap() {
        LNMsgType::Msg(m) => m,
        _ => panic!("init should be a message"),
    };
    let events = msg_events(msg, &table).unwrap();
    let mut write_refs: Vec<String> = Vec::new();
    let mut build_refs: Vec<String> = Vec::new();
    for ev in &events {
        match ev {
            GenEvent::WriteField(_) | GenEvent::WriteTlvStream(_) => {
                write_refs.push(event_ref(ev).unwrap())
            },
            GenEvent::BuildField(_) | GenEvent::BuildTlvStream(_) => {
                build_refs.push(event_ref(ev).unwrap())
            },
            _ => {},
        }
    }
    let declared = vec![
        "globalfeatures".to_string(),
        "features".to_string(),
        "init_tlvs".to_string(),
    ];
    assert_eq!(write_refs, declared);
    assert_eq!(build_refs, declared);
}

// The fixed frame around one message: open, encode side, decode side, close.
#[test]
fn events_frame_one_message() {
    let table = parse_table("msgtype,ping,18\nmsgdata,ping,num_pong_bytes,u16,\n");
    let msg = match table.get("ping").unwrap() {
        LNMsgType::Msg(m) => m,
        _ => panic!("ping should be a message"),
    };
    let events = msg_events(msg, &table).unwrap();
    assert_eq!(events.len(), 8);
    assert!(matches!(events[0], GenEvent::BuildMsg(_)));
    assert!(matches!(events[1], GenEvent::BuildEncodeFn));
    assert!(matches!(
        events[2],
        GenEvent::WriteField(LNMsData::Uint16(_))
    ));
    assert!(matches!(events[3], GenEvent::EndEncodeFn));
    assert!(matches!(events[4], GenEvent::BuildDecodeFn));
    assert!(matches!(events[5], GenEvent::BuildField(LNMsData::Uint16(_))));
    assert!(matches!(events[6], GenEvent::EndDecodeFn));
    assert!(matches!(events[7], GenEvent::EndMsg(_)));
}

// The whole traversal: pre-generation first, post-generation last, entries
// in name order, TLV records triggering nothing standalone.
#[test]
fn events_whole_table() {
    let table = parse_table(INIT_SOURCE);
    let events = generate_events(&table).unwrap();
    assert!(matches!(events[0], GenEvent::PreGeneration));
    assert!(matches!(events.last().unwrap(), GenEvent::PostGeneration));
    let builds: Vec<String> = events
        .iter()
        .filter_map(|ev| match ev {
            GenEvent::BuildMsg(m) => Some(m.msg_name.clone()),
            _ => None,
        })
        .collect();
    assert_eq!(builds, vec!["init".to_string()]);
}

// An unresolved TLV-stream reference aborts code generation; it never
// vanishes silently.
#[test]
fn unresolved_reference_aborts() {
    let table = parse_table("msgtype,init,16\nmsgdata,init,tlvs,missing_tlvs,\n");
    let err = generate_events(&table).unwrap_err();
    assert_eq!(err.reason, ErrorReason::UnresolvedReference);
    assert_eq!(err.found, "missing_tlvs");
}

// A reference that resolves to something other than a TLV record is a fatal
// internal-consistency error.
#[test]
fn reference_to_non_tlv_aborts() {
    let table =
        parse_table("msgtype,other,1\nmsgtype,init,16\nmsgdata,init,tlvs,other,\n");
    let err = generate_events(&table).unwrap_err();
    assert_eq!(err.reason, ErrorReason::NotATlvRecord);
    assert_eq!(err.found, "other");
}

// A subtype entry triggers only its optional hook.
#[test]
fn subtype_triggers_hook_only() {
    let table = parse_table("subtype,point32,\nsubtypedata,point32,x,u32,\n");
    let events = generate_events(&table).unwrap();
    assert_eq!(events.len(), 3);
    assert!(matches!(events[1], GenEvent::GenerateSubtype(_)));
}

// A recording backend: every hook appends its own name, so the dispatch
// order is observable.
struct Recorder {
    calls: Vec<String>,
}

impl Recorder {
    fn log(&mut self, name: &str, detail: &str) {
        if detail.is_empty() {
            self.calls.push(name.to_string());
        } else {
            self.calls.push(format!("{name}:{detail}"));
        }
    }
}

impl CodeGen for Recorder {
    fn pre_generation(&mut self) {
        self.log("pre_generation", "");
    }

    fn post_generation(&mut self) {
        self.log("post_generation", "");
    }

    fn build_msg(&mut self, msg: &LNMsg) {
        self.log("build_msg", &msg.msg_name);
    }

    fn end_msg(&mut self, msg: &LNMsg) {
        self.log("end_msg", &msg.msg_name);
    }

    fn build_decode_fun(&mut self) {
        self.log("build_decode_fun", "");
    }

    fn end_decode_fn(&mut self) {
        self.log("end_decode_fn", "");
    }

    fn build_encode_fn(&mut self) {
        self.log("build_encode_fn", "");
    }

    fn end_encode_fn(&mut self) {
        self.log("end_encode_fn", "");
    }

    fn build_u16(&mut self, field: &LNMsData) {
        self.log("build_u16", &field_name(field));
    }

    fn write_u16(&mut self, field: &LNMsData) {
        self.log("write_u16", &field_name(field));
    }

    fn build_u32(&mut self, field: &LNMsData) {
        self.log("build_u32", &field_name(field));
    }

    fn write_u32(&mut self, field: &LNMsData) {
        self.log("write_u32", &field_name(field));
    }

    fn build_u64(&mut self, field: &LNMsData) {
        self.log("build_u64", &field_name(field));
    }

    fn write_u64(&mut self, field: &LNMsData) {
        self.log("write_u64", &field_name(field));
    }

    fn build_chain_hash(&mut self, field: &LNMsData) {
        self.log("build_chain_hash", &field_name(field));
    }

    fn write_chain_hash(&mut self, field: &LNMsData) {
        self.log("write_chain_hash", &field_name(field));
    }

    fn build_channel_id(&mut self, field: &LNMsData) {
        self.log("build_channel_id", &field_name(field));
    }

    fn write_channel_id(&mut self, field: &LNMsData) {
        self.log("write_channel_id", &field_name(field));
    }

    fn build_short_channel_id(&mut self, field: &LNMsData) {
        self.log("build_short_channel_id", &field_name(field));
    }

    fn write_short_channel_id(&mut self, field: &LNMsData) {
        self.log("write_short_channel_id", &field_name(field));
    }

    fn build_signature(&mut self, field: &LNMsData) {
        self.log("build_signature", &field_name(field));
    }

    fn write_signature(&mut self, field: &LNMsData) {
        self.log("write_signature", &field_name(field));
    }

    fn build_point(&mut self, field: &LNMsData) {
        self.log("build_point", &field_name(field));
    }

    fn write_point(&mut self, field: &LNMsData) {
        self.log("write_point", &field_name(field));
    }

    fn build_bitfield(&mut self, field: &LNMsData) {
        self.log("build_bitfield", &field_name(field));
    }

    fn write_bitfiled(&mut self, field: &LNMsData) {
        self.log("write_bitfiled", &field_name(field));
    }

    fn build_tlv_stream(&mut self, field: &LNTlvRecord) {
        self.log("build_tlv_stream", &field.stream_name);
    }

    fn write_tlv_stream(&mut self, field: &LNTlvRecord) {
        self.log("write_tlv_stream", &field.stream_name);
    }

    fn generate_subtype(&mut self, subtyp: &LNSubType) {
        self.log("generate_subtype", &subtyp.ty);
    }
}

// Driving a backend dispatches one hook per event, in the fixed order.
#[test]
fn driver_hook_order() {
    let table = parse_table(INIT_SOURCE);
    let mut backend = Recorder { calls: Vec::new() };
    generate(&mut backend, &table).unwrap();
    assert_eq!(
        backend.calls,
        vec![
            "pre_generation".to_string(),
            "build_msg:init".to_string(),
            "build_encode_fn".to_string(),
            "write_bitfiled:globalfeatures".to_string(),
            "write_bitfiled:features".to_string(),
            "write_tlv_stream:init_tlvs".to_string(),
            "end_encode_fn".to_string(),
            "build_decode_fun".to_string(),
            "build_bitfield:globalfeatures".to_string(),
            "build_bitfield:features".to_string(),
            "build_tlv_stream:init_tlvs".to_string(),
            "end_decode_fn".to_string(),
            "end_msg:init".to_string(),
            "post_generation".to_string(),
        ]
    );
}

// The single-message driver leaves the backend hooks of other entries alone
// and fails like the event builder does.
#[test]
fn driver_single_message() {
    let table = parse_table("msgtype,pong,19\nmsgdata,pong,byteslen,u16,\n");
    let msg = match table.get("pong").unwrap() {
        LNMsgType::Msg(m) => m.clone(),
        _ => panic!("pong should be a message"),
    };
    let mut backend = Recorder { calls: Vec::new() };
    generate_msg(&mut backend, &msg, &table).unwrap();
    assert_eq!(
        backend.calls,
        vec![
            "build_msg:pong".to_string(),
            "build_encode_fn".to_string(),
            "write_u16:byteslen".to_string(),
            "end_encode_fn".to_string(),
            "build_decode_fun".to_string(),
            "build_u16:byteslen".to_string(),
            "end_decode_fn".to_string(),
            "end_msg:pong".to_string(),
        ]
    );
}
