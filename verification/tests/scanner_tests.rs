use csvlang::scanner::Scanner;
use csvlang::token::{CSVToken, CSVTokenType};

// Test if scanner read one line correctly
#[test]
fn test_one_line() {
    let contents = "msgtype,init,16\n";
    let mut scanner = Scanner::new();
    let result = scanner.scan(contents);
    assert!(!result.is_empty());
    let expected = vec![
        CSVToken {
            ty: CSVTokenType::MsgTy,
            val: "msgtype".to_string(),
            code_line: None,
        },
        CSVToken {
            ty: CSVTokenType::LiteralString,
            val: "init".to_string(),
            code_line: None,
        },
        CSVToken {
            ty: CSVTokenType::Number,
            val: "16".to_string(),
            code_line: None,
        },
    ];
    for c in 0..expected.len() - 1 {
        assert!(result[c].val == expected[c].val);
        assert_eq!(result[c].ty, expected[c].ty);
    }
}

// Test if scanner read middle line correctly
#[test]
fn test_middle_line() {
    let contents = "msgtype,init,16\nmsgdata,init,gflen,u16,\n
        msgdata,init,globalfeatures,byte,gflen\n";
    let mut scanner = Scanner::new();
    let result = scanner.scan(contents);
    assert!(!result.is_empty());
    let expected = vec![
        CSVToken {
            ty: CSVTokenType::MsgData,
            val: "msgdata".to_string(),
            code_line: None,
        },
        CSVToken {
            ty: CSVTokenType::LiteralString,
            val: "init".to_string(),
            code_line: None,
        },
        CSVToken {
            ty: CSVTokenType::LiteralString,
            val: "gflen".to_string(),
            code_line: None,
        },
        CSVToken {
            ty: CSVTokenType::U16,
            val: "u16".to_string(),
            code_line: None,
        },
    ];
    for c in 0..expected.len() - 1 {
        assert_eq!(result[c + 3].val, expected[c].val);
        assert_eq!(result[c + 3].ty, expected[c].ty);
    }
}

// Test if scanner read last line correctly
#[test]
fn test_last_line() {
    let contents = "msgtype,init,16\nmsgdata,init,gflen,u16,\n
        msgdata,init,globalfeatures,byte,gflen\n";
    let mut scanner = Scanner::new();
    let mut result = scanner.scan(contents);
    result.reverse();
    assert!(!result.is_empty());
    let expected = vec![
        CSVToken {
            ty: CSVTokenType::EOF,
            val: "EOF".to_string(),
            code_line: None,
        },
        CSVToken {
            ty: CSVTokenType::LiteralString,
            val: "gflen".to_string(),
            code_line: None,
        },
        CSVToken {
            ty: CSVTokenType::Byte,
            val: "byte".to_string(),
            code_line: None,
        },
        CSVToken {
            ty: CSVTokenType::LiteralString,
            val: "globalfeatures".to_string(),
            code_line: None,
        },
        CSVToken {
            ty: CSVTokenType::LiteralString,
            val: "init".to_string(),
            code_line: None,
        },
        CSVToken {
            ty: CSVTokenType::MsgData,
            val: "msgdata".to_string(),
            code_line: None,
        },
    ];
    for c in 0..expected.len() - 1 {
        assert_eq!(result[c].val, expected[c].val);
        assert_eq!(result[c].ty, expected[c].ty);
    }
}

#[test]
fn test_subtype_parsing() {
    let contents = "subtype,init, \
                        subtypedata,init,gflen,u16\n";
    let mut scanner = Scanner::new();
    let tokens = scanner.scan(contents);
    assert_eq!(tokens.len(), 7);
}

// Test if scanner read middle line correctly
#[test]
fn test_skip_comments() {
    let contents = "# this is a comment\nmsgtype,init,16\nmsgdata,init,gflen,u16,\n
        msgdata,init,globalfeatures,byte,gflen\n";
    let mut scanner = Scanner::new();
    let result = scanner.scan(contents);
    assert!(!result.is_empty());
    let expected = vec![
        CSVToken {
            ty: CSVTokenType::MsgData,
            val: "msgdata".to_string(),
            code_line: None,
        },
        CSVToken {
            ty: CSVTokenType::LiteralString,
            val: "init".to_string(),
            code_line: None,
        },
        CSVToken {
            ty: CSVTokenType::LiteralString,
            val: "gflen".to_string(),
            code_line: None,
        },
        CSVToken {
            ty: CSVTokenType::U16,
            val: "u16".to_string(),
            code_line: None,
        },
    ];
    for c in 0..expected.len() - 1 {
        assert_eq!(
            result[c + 3].val,
            expected[c].val,
            "mismatch at pos {c}, {:?}",
            result[c + 3]
        );
        assert_eq!(
            result[c + 3].ty,
            expected[c].ty,
            "mismatch at pos {c}, {:?}",
            result[c + 3]
        );
    }
}

// Scanning identical source text twice yields identical token sequences.
#[test]
fn scan_twice_same_tokens() {
    let contents = "msgtype,init,16\nmsgdata,init,gflen,u16,\n# note\nmsgdata,init,globalfeatures,byte,gflen\n";
    let mut first = Scanner::new();
    let mut second = Scanner::new();
    let a = first.scan(contents);
    let b = second.scan(contents);
    assert_eq!(a, b);
    let again = first.scan(contents);
    assert_eq!(a, again);
}

// Value tokens carry their 1-based source line; the end-of-input token
// stands on the line after the last.
#[test]
fn scan_line_numbers() {
    let contents = "msgtype,init,16\nmsgdata,init,gflen,u16,\n";
    let mut scanner = Scanner::new();
    let result = scanner.scan(contents);
    assert_eq!(result[1].val, "init");
    assert_eq!(result[1].code_line, Some(1));
    assert_eq!(result[5].val, "gflen");
    assert_eq!(result[5].code_line, Some(2));
    let eof = result.last().unwrap();
    assert_eq!(eof.ty, CSVTokenType::EOF);
    assert_eq!(eof.code_line, Some(3));
}

// Every keyword of the table classifies as its own kind, whitespace-trimmed.
#[test]
fn scan_keywords_and_fallbacks() {
    let contents = " short_channel_id , sha256 ,bigsize,tu32,tu64,tlvs,...,data,point,42,guess\n";
    let mut scanner = Scanner::new();
    let result = scanner.scan(contents);
    let kinds: Vec<CSVTokenType> = result.iter().map(|t| t.ty).collect();
    assert_eq!(
        kinds,
        vec![
            CSVTokenType::ShortChannelId,
            CSVTokenType::Sha256,
            CSVTokenType::BigSize,
            CSVTokenType::Tu32,
            CSVTokenType::Tu64,
            CSVTokenType::Tlvs,
            CSVTokenType::Dotdotdot,
            CSVTokenType::Data,
            CSVTokenType::Point,
            CSVTokenType::Number,
            CSVTokenType::LiteralString,
            CSVTokenType::EOF,
        ]
    );
}

// The scanner never fails: odd content degrades to identifier tokens, and
// empty fields yield no token at all.
#[test]
fn scan_degrades_to_identifier() {
    let contents = "nonsense,,16,-3,0x10\n";
    let mut scanner = Scanner::new();
    let result = scanner.scan(contents);
    let kinds: Vec<CSVTokenType> = result.iter().map(|t| t.ty).collect();
    assert_eq!(
        kinds,
        vec![
            CSVTokenType::LiteralString,
            CSVTokenType::Number,
            CSVTokenType::LiteralString,
            CSVTokenType::LiteralString,
            CSVTokenType::EOF,
        ]
    );
    assert_eq!(result[1].val, "16");
}

// The spelling of each token kind.
#[test]
fn token_kind_names() {
    assert_eq!(CSVTokenType::MsgTy.name(), "msgtype");
    assert_eq!(CSVTokenType::SubMsgData.name(), "subtypedata");
    assert_eq!(CSVTokenType::U16.name(), "u16");
    assert_eq!(CSVTokenType::Dotdotdot.name(), "...");
    assert_eq!(CSVTokenType::Number.name(), "number");
    assert_eq!(CSVTokenType::LiteralString.name(), "str");
    assert_eq!(CSVTokenType::EOF.name(), "eof");
}
