use csvlang::ast_msg::{
    map_csvtoken, map_line_to_msg, AstMsgLineType, AstMsgType, AstMsgTrait, Msg, RawCsv,
};
use csvlang::token::CSVTokenType;

fn row(fields: &[&str]) -> Vec<String> {
    fields.iter().map(|s| s.to_string()).collect()
}

#[test]
fn map_csvtoken_line_shapes() {
    assert_eq!(
        map_csvtoken(vec![
            CSVTokenType::MsgTy,
            CSVTokenType::LiteralString,
            CSVTokenType::Number,
        ]),
        AstMsgLineType::Msgtype
    );
    assert_eq!(
        map_csvtoken(vec![
            CSVTokenType::MsgData,
            CSVTokenType::LiteralString,
            CSVTokenType::LiteralString,
            CSVTokenType::U32,
        ]),
        AstMsgLineType::MsgdataLength
    );
    assert_eq!(
        map_csvtoken(vec![
            CSVTokenType::MsgData,
            CSVTokenType::LiteralString,
            CSVTokenType::Data,
            CSVTokenType::Byte,
            CSVTokenType::LiteralString,
        ]),
        AstMsgLineType::MsgDataBytes
    );
    assert_eq!(
        map_csvtoken(vec![
            CSVTokenType::MsgData,
            CSVTokenType::LiteralString,
            CSVTokenType::ChannelId,
            CSVTokenType::ChannelId,
        ]),
        AstMsgLineType::MsgDataChannelID
    );
    assert_eq!(
        map_csvtoken(vec![
            CSVTokenType::MsgData,
            CSVTokenType::LiteralString,
            CSVTokenType::Tlvs,
            CSVTokenType::LiteralString,
        ]),
        AstMsgLineType::MsgDataTLVInit
    );
    assert_eq!(
        map_csvtoken(vec![CSVTokenType::MsgTy]),
        AstMsgLineType::NoMatch
    );
}

#[test]
fn map_line_to_msg_init() {
    let lines = vec![
        AstMsgLineType::Msgtype,
        AstMsgLineType::MsgdataLength,
        AstMsgLineType::MsgDataBytes,
        AstMsgLineType::MsgdataLength,
        AstMsgLineType::MsgDataBytes,
        AstMsgLineType::MsgDataTLVInit,
        AstMsgLineType::Tlvtype,
        AstMsgLineType::TvlChainWithDot,
        AstMsgLineType::Tlvtype,
        AstMsgLineType::TlvByteDataWithDot,
    ];
    assert_eq!(map_line_to_msg(lines), AstMsgType::Init);
    assert_eq!(
        map_line_to_msg(vec![AstMsgLineType::Msgtype]),
        AstMsgType::NoMatch
    );
}

#[test]
fn check_valid_accepts_consistent_references() {
    let raw = RawCsv {
        line_type: vec![
            AstMsgLineType::Msgtype,
            AstMsgLineType::MsgdataLength,
            AstMsgLineType::MsgDataTLVInit,
            AstMsgLineType::Tlvtype,
        ],
        values: vec![
            row(&["msgtype", "init", "16"]),
            row(&["msgdata", "init", "gflen", "u16"]),
            row(&["msgdata", "init", "tlvs", "init_tlvs"]),
            row(&["tlvtype", "init_tlvs", "networks", "1"]),
        ],
    };
    let mut msg = Msg::new(&raw);
    assert!(AstMsgTrait::check_valid(&mut msg));
    assert_eq!(msg.msg_name, "init");
    assert_eq!(msg.tlvs_name, vec!["init_tlvs".to_string()]);
}

#[test]
fn check_valid_rejects_wrong_msg_reference() {
    let raw = RawCsv {
        line_type: vec![AstMsgLineType::Msgtype, AstMsgLineType::MsgdataLength],
        values: vec![
            row(&["msgtype", "init", "16"]),
            row(&["msgdata", "other", "gflen", "u16"]),
        ],
    };
    let mut msg = Msg::new(&raw);
    assert!(!AstMsgTrait::check_valid(&mut msg));
}

#[test]
fn check_valid_rejects_unknown_tlv_reference() {
    let raw = RawCsv {
        line_type: vec![AstMsgLineType::Msgtype, AstMsgLineType::Tlvtype],
        values: vec![
            row(&["msgtype", "init", "16"]),
            row(&["tlvtype", "init_tlvs", "networks", "1"]),
        ],
    };
    let mut msg = Msg::new(&raw);
    assert!(!AstMsgTrait::check_valid(&mut msg));
}

#[test]
fn msg_new_copies_values() {
    let raw = RawCsv {
        line_type: vec![AstMsgLineType::Msgtype],
        values: vec![row(&["msgtype", "ping", "18"])],
    };
    let msg = Msg::new(&raw);
    assert_eq!(msg.get_msg_type(), None);
    assert_eq!(msg.get_values(), vec![row(&["msgtype", "ping", "18"])]);
}
