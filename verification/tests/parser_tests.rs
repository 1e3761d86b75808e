use csvlang::ast::{LNMsData, LNMsgType};
use csvlang::error::ErrorReason;
use csvlang::parser::Parser;
use csvlang::scanner::Scanner;
use csvlang::token::CSVToken;

#[test]
fn parse_simple_recursive_line() {
    let contents = "msgtype,init,16\nmsgdata,init,gflen,u16,\n";
    let mut scanner = Scanner::new();
    let result: Vec<CSVToken> = scanner.scan(contents);
    let mut parser = Parser::new();
    parser.parse(&result).unwrap();
    if let LNMsgType::Msg(msg) = parser.symbol_table.get("init").unwrap() {
        assert_eq!(msg.msg_data[0], LNMsData::Uint16("gflen".to_string()));
    } else {
        panic!();
    }
}

#[test]
fn parse_simple_recursive_msg() {
    let contents = "msgtype,init,16\n
        msgdata,init,gflen,u16,
        msgdata,init,globalfeatures,byte,gflen\n
        msgdata,init,flen,u16,
        msgdata,init,features,byte,flen\n
        msgdata,init,tlvs,init_tlvs,
        tlvtype,init_tlvs,networks,1\n
        tlvdata,init_tlvs,networks,chains,chain_hash,...\n
        tlvtype,init_tlvs,remote_addr,3\n
        tlvdata,init_tlvs,remote_addr,data,byte,...\n";

    let mut scanner = Scanner::new();
    let result: Vec<CSVToken> = scanner.scan(contents);
    let mut parser = Parser::new();
    parser.parse(&result).unwrap();
    // check bytes line: the bitfield merge folds gflen into globalfeatures
    match parser.symbol_table.get("init").unwrap() {
        LNMsgType::Msg(msg) => assert_eq!(
            msg.msg_data[0],
            LNMsData::BitfieldStream("globalfeatures".to_string(), "gflen".to_string())
        ),
        _ => panic!("wrong value in the symbol table"),
    }
    // check TLV line
    assert!(parser.symbol_table.contains_key("init_tlvs"));
}

// The bitfield-merge scenario: the two u16 length fields vanish into their
// byte arrays, leaving exactly two fields in declaration order.
#[test]
fn parse_bitfield_merge() {
    let contents = "msgtype,init,16\nmsgdata,init,gflen,u16,\nmsgdata,init,globalfeatures,byte,gflen\nmsgdata,init,flen,u16,\nmsgdata,init,features,byte,flen\n";
    let mut scanner = Scanner::new();
    let tokens = scanner.scan(contents);
    let mut parser = Parser::new();
    parser.parse(&tokens).unwrap();
    assert_eq!(parser.symbol_table.len(), 1);
    match parser.symbol_table.get("init").unwrap() {
        LNMsgType::Msg(msg) => {
            assert_eq!(msg.msg_name, "init");
            assert_eq!(msg.msg_typ, 16);
            assert!(!msg.is_gossip_query);
            assert_eq!(msg.msg_data.len(), 2);
            assert_eq!(
                msg.msg_data[0],
                LNMsData::BitfieldStream("globalfeatures".to_string(), "gflen".to_string())
            );
            assert_eq!(
                msg.msg_data[1],
                LNMsData::BitfieldStream("features".to_string(), "flen".to_string())
            );
        },
        _ => panic!("init should be a message"),
    }
}

// A byte array merges only into a 16-bit length prefix; a 32-bit field stays.
#[test]
fn parse_no_merge_after_u32() {
    let contents = "msgtype,m,7\nmsgdata,m,len,u32,\nmsgdata,m,body,byte,len\n";
    let mut scanner = Scanner::new();
    let tokens = scanner.scan(contents);
    let mut parser = Parser::new();
    parser.parse(&tokens).unwrap();
    match parser.symbol_table.get("m").unwrap() {
        LNMsgType::Msg(msg) => {
            assert_eq!(msg.msg_data.len(), 2);
            assert_eq!(msg.msg_data[0], LNMsData::Uint32("len".to_string()));
            assert_eq!(
                msg.msg_data[1],
                LNMsData::BitfieldStream("body".to_string(), "len".to_string())
            );
        },
        _ => panic!("m should be a message"),
    }
}

// A TLV record scenario: one record named networks under stream init_tlvs,
// with a single chain_hash entry; the ellipsis is consumed and discarded.
#[test]
fn parse_tlv_record() {
    let contents = "tlvtype,init_tlvs,networks,1\ntlvdata,init_tlvs,networks,chains,chain_hash,...\n";
    let mut scanner = Scanner::new();
    let tokens = scanner.scan(contents);
    let mut parser = Parser::new();
    parser.parse(&tokens).unwrap();
    match parser.symbol_table.get("init_tlvs").unwrap() {
        LNMsgType::Tlv(rec) => {
            assert_eq!(rec.stream_name, "init_tlvs");
            assert_eq!(rec.record_name, "networks");
            assert_eq!(rec.type_len, 1);
            assert_eq!(rec.record_entry.len(), 1);
            assert_eq!(rec.record_entry[0].entry_name, "chains");
            assert_eq!(rec.record_entry[0].entry_ty, "chain_hash");
            assert!(rec.record_entry[0].encoding.is_none());
        },
        _ => panic!("init_tlvs should be a TLV record"),
    }
}

// A later record of the same stream extends it: the stream name keeps the
// most recent record.
#[test]
fn parse_tlv_stream_continuation() {
    let contents = "tlvtype,init_tlvs,networks,1\ntlvtype,init_tlvs,remote_addr,3\n";
    let mut scanner = Scanner::new();
    let tokens = scanner.scan(contents);
    let mut parser = Parser::new();
    parser.parse(&tokens).unwrap();
    assert_eq!(parser.symbol_table.len(), 1);
    match parser.symbol_table.get("init_tlvs").unwrap() {
        LNMsgType::Tlv(rec) => assert_eq!(rec.record_name, "remote_addr"),
        _ => panic!("init_tlvs should be a TLV record"),
    }
}

// A msgdata line whose name does not match the open message aborts the
// whole parse before producing a symbol table.
#[test]
fn parse_name_mismatch_aborts() {
    let contents = "msgtype,init,16\nmsgdata,other,x,u16,\n";
    let mut scanner = Scanner::new();
    let tokens = scanner.scan(contents);
    let mut parser = Parser::new();
    let err = parser.parse(&tokens).unwrap_err();
    assert_eq!(err.reason, ErrorReason::NameMismatch);
    assert_eq!(err.found, "other");
    assert_eq!(err.line, Some(2));
    assert_eq!(parser.symbol_table.len(), 0);
    assert!(parser.symbol_table.get("init").is_none());
}

// A line that opens with no declaration keyword aborts the parse.
#[test]
fn parse_unexpected_token_aborts() {
    let contents = "bolt,init,16\n";
    let mut scanner = Scanner::new();
    let tokens = scanner.scan(contents);
    let mut parser = Parser::new();
    let err = parser.parse(&tokens).unwrap_err();
    assert_eq!(err.reason, ErrorReason::UnexpectedToken);
    assert_eq!(err.found, "bolt");
}

// A msgtype line whose type identifier is no numeral aborts the parse.
#[test]
fn parse_expected_number_aborts() {
    let contents = "msgtype,init,banana\n";
    let mut scanner = Scanner::new();
    let tokens = scanner.scan(contents);
    let mut parser = Parser::new();
    let err = parser.parse(&tokens).unwrap_err();
    assert_eq!(err.reason, ErrorReason::ExpectedNumber);
    assert_eq!(err.found, "banana");
}

// A numeral that does not fit in 64 bits aborts the parse.
#[test]
fn parse_number_out_of_range_aborts() {
    let contents = "msgtype,init,99999999999999999999999\n";
    let mut scanner = Scanner::new();
    let tokens = scanner.scan(contents);
    let mut parser = Parser::new();
    let err = parser.parse(&tokens).unwrap_err();
    assert_eq!(err.reason, ErrorReason::NumberOutOfRange);
}

// A duplicate message name is a fatal construction error.
#[test]
fn parse_duplicate_name_aborts() {
    let contents = "msgtype,init,16\nmsgtype,init,17\n";
    let mut scanner = Scanner::new();
    let tokens = scanner.scan(contents);
    let mut parser = Parser::new();
    let err = parser.parse(&tokens).unwrap_err();
    assert_eq!(err.reason, ErrorReason::DuplicateName);
    assert_eq!(err.found, "init");
    assert_eq!(parser.symbol_table.len(), 0);
}

// The trailing gossip_queries marker sets the flag.
#[test]
fn parse_gossip_queries_flag() {
    let contents = "msgtype,query_short_channel_ids,261,gossip_queries\n";
    let mut scanner = Scanner::new();
    let tokens = scanner.scan(contents);
    let mut parser = Parser::new();
    parser.parse(&tokens).unwrap();
    match parser.symbol_table.get("query_short_channel_ids").unwrap() {
        LNMsgType::Msg(msg) => {
            assert!(msg.is_gossip_query);
            assert_eq!(msg.msg_typ, 261);
        },
        _ => panic!("expected a message"),
    }
}

// A byte field with no length reference before the next declaration
// defaults to a length of 1.
#[test]
fn parse_byte_default_length() {
    let contents = "msgtype,a,1\nmsgdata,a,pad,byte\nmsgtype,b,2\n";
    let mut scanner = Scanner::new();
    let tokens = scanner.scan(contents);
    let mut parser = Parser::new();
    parser.parse(&tokens).unwrap();
    match parser.symbol_table.get("a").unwrap() {
        LNMsgType::Msg(msg) => {
            assert_eq!(
                msg.msg_data[0],
                LNMsData::BitfieldStream("pad".to_string(), "1".to_string())
            );
        },
        _ => panic!("expected a message"),
    }
    assert!(parser.symbol_table.contains_key("b"));
}

// A subtype declaration is committed into the symbol table with its fields.
#[test]
fn parse_subtype_committed() {
    let contents = "subtype,channel_update_checksums,\nsubtypedata,channel_update_checksums,checksum_node_id_1,u32,\n";
    let mut scanner = Scanner::new();
    let tokens = scanner.scan(contents);
    let mut parser = Parser::new();
    parser.parse(&tokens).unwrap();
    match parser.symbol_table.get("channel_update_checksums").unwrap() {
        LNMsgType::SubType(sub) => {
            assert_eq!(sub.ty, "channel_update_checksums");
            assert_eq!(sub.ty_data.len(), 1);
            assert_eq!(
                sub.ty_data[0],
                LNMsData::Uint32("checksum_node_id_1".to_string())
            );
        },
        _ => panic!("expected a subtype"),
    }
}

// Unknown identifier field types open TLV-stream references; known aliases
// keep their integer and byte readings.
#[test]
fn parse_field_type_dispatch() {
    let contents = "msgtype,m,9\nmsgdata,m,id,channel_id,\nmsgdata,m,sig,signature,\nmsgdata,m,scid,short_channel_id,\nmsgdata,m,pk,point,\nmsgdata,m,hash,chain_hash,\nmsgdata,m,amt,amount_sat,\nmsgdata,m,tail,m_tlvs,\n";
    let mut scanner = Scanner::new();
    let tokens = scanner.scan(contents);
    let mut parser = Parser::new();
    parser.parse(&tokens).unwrap();
    match parser.symbol_table.get("m").unwrap() {
        LNMsgType::Msg(msg) => {
            assert_eq!(msg.msg_data.len(), 7);
            assert_eq!(msg.msg_data[0], LNMsData::ChannelId("id".to_string()));
            assert_eq!(msg.msg_data[1], LNMsData::Signature("sig".to_string()));
            assert_eq!(msg.msg_data[2], LNMsData::ShortChannelId("scid".to_string()));
            assert_eq!(msg.msg_data[3], LNMsData::Point("pk".to_string()));
            assert_eq!(
                msg.msg_data[4],
                LNMsData::ChainHash("hash".to_string(), "hash".to_string())
            );
            assert_eq!(msg.msg_data[5], LNMsData::Uint16("amt".to_string()));
            assert_eq!(
                msg.msg_data[6],
                LNMsData::TLVinit("m_tlvs".to_string(), "tail".to_string())
            );
        },
        _ => panic!("expected a message"),
    }
}

// A field type the keyword table knows but the field grammar does not is a
// structural error, not a silent drop.
#[test]
fn parse_unknown_field_type_aborts() {
    let contents = "msgtype,m,9\nmsgdata,m,x,sha256,\n";
    let mut scanner = Scanner::new();
    let tokens = scanner.scan(contents);
    let mut parser = Parser::new();
    let err = parser.parse(&tokens).unwrap_err();
    assert_eq!(err.reason, ErrorReason::UnknownFieldType);
    assert_eq!(err.found, "sha256");
}

// Empty source parses to an empty symbol table.
#[test]
fn parse_empty_source() {
    let mut scanner = Scanner::new();
    let tokens = scanner.scan("");
    let mut parser = Parser::new();
    parser.parse(&tokens).unwrap();
    assert!(parser.symbol_table.is_empty());
}

// A tlvtype line must open with an identifier for its stream.
#[test]
fn parse_tlv_expected_identifier_aborts() {
    let contents = "tlvtype,16,networks,1\n";
    let mut scanner = Scanner::new();
    let tokens = scanner.scan(contents);
    let mut parser = Parser::new();
    let err = parser.parse(&tokens).unwrap_err();
    assert_eq!(err.reason, ErrorReason::ExpectedIdentifier);
    assert_eq!(err.found, "16");
}

// A token sequence without its end-of-input marker aborts the parse.
#[test]
fn parse_missing_eof_aborts() {
    let tokens = vec![CSVToken {
        ty: csvlang::token::CSVTokenType::MsgTy,
        val: "msgtype".to_string(),
        code_line: None,
    }];
    let mut parser = Parser::new();
    let err = parser.parse(&tokens).unwrap_err();
    assert_eq!(err.reason, ErrorReason::UnexpectedEnd);
    assert_eq!(parser.symbol_table.len(), 0);
}
