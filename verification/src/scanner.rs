//! The scanner: turns source text into an ordered token sequence, classifying
//! each comma-separated field against the fixed keyword table, with numerals
//! and generic identifiers as the fallback classes. The scanner never fails:
//! unrecognised content degrades to an identifier token.

use vstd::prelude::*;

use crate::text::{
    chars_of, is_number, is_number_chars, lemma_trim_idempotent, split_chars, split_from,
    split_seq, split_term_seq, string_of, str_eq, trim, trim_chars,
};
use crate::token::{token_type_name, CSVToken, CSVTokenType, TokenModel};

verus! {

/// The fixed keyword table: the classification of each keyword spelling.
pub open spec fn keyword_ty(s: Seq<char>) -> Option<CSVTokenType> {
    if s == "msgtype"@ {
        Some(CSVTokenType::MsgTy)
    } else if s == "subtype"@ {
        Some(CSVTokenType::SubTy)
    } else if s == "subtypedata"@ {
        Some(CSVTokenType::SubMsgData)
    } else if s == "msgdata"@ {
        Some(CSVTokenType::MsgData)
    } else if s == "tlvtype"@ {
        Some(CSVTokenType::TlvType)
    } else if s == "tlvdata"@ {
        Some(CSVTokenType::TlvData)
    } else if s == "short_channel_id"@ {
        Some(CSVTokenType::ShortChannelId)
    } else if s == "sha256"@ {
        Some(CSVTokenType::Sha256)
    } else if s == "u16"@ {
        Some(CSVTokenType::U16)
    } else if s == "u32"@ {
        Some(CSVTokenType::U32)
    } else if s == "u64"@ {
        Some(CSVTokenType::U64)
    } else if s == "channel_id"@ {
        Some(CSVTokenType::ChannelId)
    } else if s == "signature"@ {
        Some(CSVTokenType::Signature)
    } else if s == "point"@ {
        Some(CSVTokenType::Point)
    } else if s == "chain_hash"@ {
        Some(CSVTokenType::ChainHash)
    } else if s == "byte"@ {
        Some(CSVTokenType::Byte)
    } else if s == "bigsize"@ {
        Some(CSVTokenType::BigSize)
    } else if s == "tu32"@ {
        Some(CSVTokenType::Tu32)
    } else if s == "tu64"@ {
        Some(CSVTokenType::Tu64)
    } else if s == "tlvs"@ {
        Some(CSVTokenType::Tlvs)
    } else if s == "..."@ {
        Some(CSVTokenType::Dotdotdot)
    } else if s == "data"@ {
        Some(CSVTokenType::Data)
    } else {
        None
    }
}

/// The keyword kinds in the order the table lists them.
pub open spec fn keyword_order() -> Seq<CSVTokenType> {
    seq![
        CSVTokenType::MsgTy,
        CSVTokenType::SubTy,
        CSVTokenType::SubMsgData,
        CSVTokenType::MsgData,
        CSVTokenType::TlvType,
        CSVTokenType::TlvData,
        CSVTokenType::ShortChannelId,
        CSVTokenType::Sha256,
        CSVTokenType::U16,
        CSVTokenType::U32,
        CSVTokenType::U64,
        CSVTokenType::ChannelId,
        CSVTokenType::Signature,
        CSVTokenType::Point,
        CSVTokenType::ChainHash,
        CSVTokenType::Byte,
        CSVTokenType::BigSize,
        CSVTokenType::Tu32,
        CSVTokenType::Tu64,
        CSVTokenType::Tlvs,
        CSVTokenType::Dotdotdot,
        CSVTokenType::Data,
    ]
}

/// The token the keyword table holds for the `i`-th keyword.
pub open spec fn keyword_entry(i: int) -> TokenModel {
    TokenModel { ty: keyword_order()[i], val: token_type_name(keyword_order()[i]), line: None }
}

/// The whole keyword table as token models.
pub open spec fn keyword_table() -> Seq<TokenModel> {
    Seq::new(keyword_order().len(), |i: int| keyword_entry(i))
}

/// Whether a line is a comment: its trimmed text starts with `#`.
pub open spec fn is_comment(l: Seq<char>) -> bool {
    trim(l).len() > 0 && trim(l)[0] == '#'
}

/// The token one trimmed-empty-or-not field yields: none for an empty field,
/// the table's token for a keyword, a `Number` for a numeral, and a
/// `LiteralString` otherwise. Value tokens carry the line they stood on;
/// keyword tokens come from the table and carry none.
pub open spec fn field_token(field: Seq<char>, line: u64) -> Option<TokenModel> {
    let t = trim(field);
    if t.len() == 0 {
        None
    } else {
        match keyword_ty(t) {
            Some(ty) => Some(TokenModel { ty, val: t, line: None }),
            None => {
                if is_number(t) {
                    Some(TokenModel { ty: CSVTokenType::Number, val: t, line: Some(line) })
                } else {
                    Some(TokenModel { ty: CSVTokenType::LiteralString, val: t, line: Some(line) })
                }
            },
        }
    }
}

/// The tokens of a line's fields from position `j` on.
pub open spec fn fields_tokens(fields: Seq<Seq<char>>, line: u64, j: int) -> Seq<TokenModel>
    decreases fields.len() - j,
{
    if j < 0 || j >= fields.len() {
        Seq::empty()
    } else {
        match field_token(fields[j], line) {
            Some(tok) => seq![tok] + fields_tokens(fields, line, j + 1),
            None => fields_tokens(fields, line, j + 1),
        }
    }
}

/// The tokens of one source line: none for a comment, else the tokens of its
/// comma-separated fields.
pub open spec fn line_tokens(l: Seq<char>, line: u64) -> Seq<TokenModel> {
    if is_comment(l) {
        Seq::empty()
    } else {
        fields_tokens(split_seq(l, ','), line, 0)
    }
}

/// The tokens of the lines from position `i` on; line numbers are 1-based.
pub open spec fn lines_tokens(lines: Seq<Seq<char>>, i: int) -> Seq<TokenModel>
    decreases lines.len() - i,
{
    if i < 0 || i >= lines.len() {
        Seq::empty()
    } else {
        line_tokens(lines[i], (i + 1) as u64) + lines_tokens(lines, i + 1)
    }
}

/// The end-of-input token that terminates every scan.
pub open spec fn eof_token(line: u64) -> TokenModel {
    TokenModel { ty: CSVTokenType::EOF, val: "EOF"@, line: Some(line) }
}

/// The whole token sequence of a source text: the tokens of its lines in
/// order, terminated by the end-of-input token on the line after the last.
pub open spec fn spec_scan(content: Seq<char>) -> Seq<TokenModel> {
    let lines = split_term_seq(content, '\n');
    lines_tokens(lines, 0).push(eof_token((lines.len() + 1) as u64))
}

/// A split yields at most one segment more than the text has characters.
proof fn lemma_split_from_count(s: Seq<char>, sep: char, i: int, start: int)
    requires
        0 <= i <= s.len(),
    ensures
        1 <= split_from(s, sep, i, start).len() <= s.len() - i + 1,
    decreases s.len() - i,
{
    if i < s.len() {
        if s[i] == sep {
            lemma_split_from_count(s, sep, i + 1, i + 1);
        } else {
            lemma_split_from_count(s, sep, i + 1, start);
        }
    }
}


/// The spelling and kind of each keyword-table entry.
proof fn lemma_keyword_table_vals()
    ensures
        keyword_table().len() == 22,
        forall|k: int| 0 <= k < 22 ==> (#[trigger] keyword_table()[k]).line is None,
        keyword_table()[0].val == "msgtype"@ && keyword_table()[0].ty == CSVTokenType::MsgTy,
        keyword_table()[1].val == "subtype"@ && keyword_table()[1].ty == CSVTokenType::SubTy,
        keyword_table()[2].val == "subtypedata"@ && keyword_table()[2].ty == CSVTokenType::SubMsgData,
        keyword_table()[3].val == "msgdata"@ && keyword_table()[3].ty == CSVTokenType::MsgData,
        keyword_table()[4].val == "tlvtype"@ && keyword_table()[4].ty == CSVTokenType::TlvType,
        keyword_table()[5].val == "tlvdata"@ && keyword_table()[5].ty == CSVTokenType::TlvData,
        keyword_table()[6].val == "short_channel_id"@ && keyword_table()[6].ty == CSVTokenType::ShortChannelId,
        keyword_table()[7].val == "sha256"@ && keyword_table()[7].ty == CSVTokenType::Sha256,
        keyword_table()[8].val == "u16"@ && keyword_table()[8].ty == CSVTokenType::U16,
        keyword_table()[9].val == "u32"@ && keyword_table()[9].ty == CSVTokenType::U32,
        keyword_table()[10].val == "u64"@ && keyword_table()[10].ty == CSVTokenType::U64,
        keyword_table()[11].val == "channel_id"@ && keyword_table()[11].ty == CSVTokenType::ChannelId,
        keyword_table()[12].val == "signature"@ && keyword_table()[12].ty == CSVTokenType::Signature,
        keyword_table()[13].val == "point"@ && keyword_table()[13].ty == CSVTokenType::Point,
        keyword_table()[14].val == "chain_hash"@ && keyword_table()[14].ty == CSVTokenType::ChainHash,
        keyword_table()[15].val == "byte"@ && keyword_table()[15].ty == CSVTokenType::Byte,
        keyword_table()[16].val == "bigsize"@ && keyword_table()[16].ty == CSVTokenType::BigSize,
        keyword_table()[17].val == "tu32"@ && keyword_table()[17].ty == CSVTokenType::Tu32,
        keyword_table()[18].val == "tu64"@ && keyword_table()[18].ty == CSVTokenType::Tu64,
        keyword_table()[19].val == "tlvs"@ && keyword_table()[19].ty == CSVTokenType::Tlvs,
        keyword_table()[20].val == "..."@ && keyword_table()[20].ty == CSVTokenType::Dotdotdot,
        keyword_table()[21].val == "data"@ && keyword_table()[21].ty == CSVTokenType::Data,
{
}

/// A text equal to the `j`-th keyword's spelling, and to no earlier one,
/// classifies as the `j`-th keyword.
proof fn lemma_keyword_hit(t: Seq<char>, j: int)
    requires
        0 <= j < 22,
        keyword_table()[j].val == t,
        forall|k: int| 0 <= k < j ==> (#[trigger] keyword_table()[k]).val != t,
    ensures
        keyword_ty(t) == Some(keyword_table()[j].ty),
{
    lemma_keyword_table_vals();
    if j == 0 {
        assert(t == "msgtype"@);
        assert(keyword_ty(t) == Some(CSVTokenType::MsgTy));
    }
    if j == 1 {
        assert(t == "subtype"@);
        assert(keyword_ty(t) == Some(CSVTokenType::SubTy));
    }
    if j == 2 {
        assert(t == "subtypedata"@);
        assert(keyword_ty(t) == Some(CSVTokenType::SubMsgData));
    }
    if j == 3 {
        assert(t == "msgdata"@);
        assert(keyword_ty(t) == Some(CSVTokenType::MsgData));
    }
    if j == 4 {
        assert(t == "tlvtype"@);
        assert(keyword_ty(t) == Some(CSVTokenType::TlvType));
    }
    if j == 5 {
        assert(t == "tlvdata"@);
        assert(keyword_ty(t) == Some(CSVTokenType::TlvData));
    }
    if j == 6 {
        assert(t == "short_channel_id"@);
        assert(keyword_ty(t) == Some(CSVTokenType::ShortChannelId));
    }
    if j == 7 {
        assert(t == "sha256"@);
        assert(keyword_ty(t) == Some(CSVTokenType::Sha256));
    }
    if j == 8 {
        assert(t == "u16"@);
        assert(keyword_ty(t) == Some(CSVTokenType::U16));
    }
    if j == 9 {
        assert(t == "u32"@);
        assert(keyword_ty(t) == Some(CSVTokenType::U32));
    }
    if j == 10 {
        assert(t == "u64"@);
        assert(keyword_ty(t) == Some(CSVTokenType::U64));
    }
    if j == 11 {
        assert(t == "channel_id"@);
        assert(keyword_ty(t) == Some(CSVTokenType::ChannelId));
    }
    if j == 12 {
        assert(t == "signature"@);
        assert(keyword_ty(t) == Some(CSVTokenType::Signature));
    }
    if j == 13 {
        assert(t == "point"@);
        assert(keyword_ty(t) == Some(CSVTokenType::Point));
    }
    if j == 14 {
        assert(t == "chain_hash"@);
        assert(keyword_ty(t) == Some(CSVTokenType::ChainHash));
    }
    if j == 15 {
        assert(t == "byte"@);
        assert(keyword_ty(t) == Some(CSVTokenType::Byte));
    }
    if j == 16 {
        assert(t == "bigsize"@);
        assert(keyword_ty(t) == Some(CSVTokenType::BigSize));
    }
    if j == 17 {
        assert(t == "tu32"@);
        assert(keyword_ty(t) == Some(CSVTokenType::Tu32));
    }
    if j == 18 {
        assert(t == "tu64"@);
        assert(keyword_ty(t) == Some(CSVTokenType::Tu64));
    }
    if j == 19 {
        assert(t == "tlvs"@);
        assert(keyword_ty(t) == Some(CSVTokenType::Tlvs));
    }
    if j == 20 {
        assert(t == "..."@);
        assert(keyword_ty(t) == Some(CSVTokenType::Dotdotdot));
    }
    if j == 21 {
        assert(t == "data"@);
        assert(keyword_ty(t) == Some(CSVTokenType::Data));
    }
}

/// A text equal to no keyword's spelling classifies as no keyword.
proof fn lemma_keyword_miss(t: Seq<char>)
    requires
        forall|k: int| 0 <= k < 22 ==> (#[trigger] keyword_table()[k]).val != t,
    ensures
        keyword_ty(t) is None,
{
    lemma_keyword_table_vals();
    assert(keyword_table()[0].val != t);
    assert(keyword_table()[1].val != t);
    assert(keyword_table()[2].val != t);
    assert(keyword_table()[3].val != t);
    assert(keyword_table()[4].val != t);
    assert(keyword_table()[5].val != t);
    assert(keyword_table()[6].val != t);
    assert(keyword_table()[7].val != t);
    assert(keyword_table()[8].val != t);
    assert(keyword_table()[9].val != t);
    assert(keyword_table()[10].val != t);
    assert(keyword_table()[11].val != t);
    assert(keyword_table()[12].val != t);
    assert(keyword_table()[13].val != t);
    assert(keyword_table()[14].val != t);
    assert(keyword_table()[15].val != t);
    assert(keyword_table()[16].val != t);
    assert(keyword_table()[17].val != t);
    assert(keyword_table()[18].val != t);
    assert(keyword_table()[19].val != t);
    assert(keyword_table()[20].val != t);
    assert(keyword_table()[21].val != t);
}

/// The scanner: the fixed keyword table, built once, read-only afterwards.
pub struct Scanner {
    keywords: Vec<CSVToken>,
}

impl Default for Scanner {
    fn default() -> (r: Self)
        ensures
            r.wf(),
    {
        Self::new()
    }
}

impl Scanner {
    /// The keyword table holds exactly the fixed keyword tokens.
    pub closed spec fn wf(&self) -> bool {
        self.keywords.deep_view() == keyword_table()
    }

    /// Builds a scanner over the fixed keyword table.
    pub fn new() -> (r: Scanner)
        ensures
            r.wf(),
    {
        let mut keywords: Vec<CSVToken> = Vec::new();
        keywords.push(CSVToken { ty: CSVTokenType::MsgTy, val: "msgtype".to_owned(), code_line: None });
        keywords.push(CSVToken { ty: CSVTokenType::SubTy, val: "subtype".to_owned(), code_line: None });
        keywords.push(CSVToken { ty: CSVTokenType::SubMsgData, val: "subtypedata".to_owned(), code_line: None });
        keywords.push(CSVToken { ty: CSVTokenType::MsgData, val: "msgdata".to_owned(), code_line: None });
        keywords.push(CSVToken { ty: CSVTokenType::TlvType, val: "tlvtype".to_owned(), code_line: None });
        keywords.push(CSVToken { ty: CSVTokenType::TlvData, val: "tlvdata".to_owned(), code_line: None });
        keywords.push(CSVToken {
            ty: CSVTokenType::ShortChannelId,
            val: "short_channel_id".to_owned(),
            code_line: None,
        });
        keywords.push(CSVToken { ty: CSVTokenType::Sha256, val: "sha256".to_owned(), code_line: None });
        keywords.push(CSVToken { ty: CSVTokenType::U16, val: "u16".to_owned(), code_line: None });
        keywords.push(CSVToken { ty: CSVTokenType::U32, val: "u32".to_owned(), code_line: None });
        keywords.push(CSVToken { ty: CSVTokenType::U64, val: "u64".to_owned(), code_line: None });
        keywords.push(CSVToken { ty: CSVTokenType::ChannelId, val: "channel_id".to_owned(), code_line: None });
        keywords.push(CSVToken { ty: CSVTokenType::Signature, val: "signature".to_owned(), code_line: None });
        keywords.push(CSVToken { ty: CSVTokenType::Point, val: "point".to_owned(), code_line: None });
        keywords.push(CSVToken { ty: CSVTokenType::ChainHash, val: "chain_hash".to_owned(), code_line: None });
        keywords.push(CSVToken { ty: CSVTokenType::Byte, val: "byte".to_owned(), code_line: None });
        keywords.push(CSVToken { ty: CSVTokenType::BigSize, val: "bigsize".to_owned(), code_line: None });
        keywords.push(CSVToken { ty: CSVTokenType::Tu32, val: "tu32".to_owned(), code_line: None });
        keywords.push(CSVToken { ty: CSVTokenType::Tu64, val: "tu64".to_owned(), code_line: None });
        keywords.push(CSVToken { ty: CSVTokenType::Tlvs, val: "tlvs".to_owned(), code_line: None });
        keywords.push(CSVToken { ty: CSVTokenType::Dotdotdot, val: "...".to_owned(), code_line: None });
        keywords.push(CSVToken { ty: CSVTokenType::Data, val: "data".to_owned(), code_line: None });
        let r = Scanner { keywords };
        proof {
            assert(r.keywords.deep_view() =~~= keyword_table());
        }
        r
    }

    /// The table's token for the text `t`, if `t` is a keyword.
    fn lookup_keyword(&self, t: &str) -> (r: Option<CSVToken>)
        requires
            self.wf(),
        ensures
            match keyword_ty(t@) {
                Some(ty) => r is Some && r->Some_0@ == (TokenModel { ty, val: t@, line: None }),
                None => r is None,
            },
    {
        proof {
            lemma_keyword_table_vals();
            assert(self.keywords.deep_view().len() == self.keywords@.len());
        }
        let n = self.keywords.len();
        let mut j: usize = 0;
        while j < n
            invariant
                self.wf(),
                n == self.keywords@.len(),
                n == 22,
                j <= n,
                forall|k: int| 0 <= k < j ==> (#[trigger] keyword_table()[k]).val != t@,
            decreases n - j,
        {
            proof {
                assert(self.keywords.deep_view()[j as int] == self.keywords@[j as int]@);
                assert(self.keywords@[j as int]@ == keyword_table()[j as int]);
            }
            if str_eq(self.keywords[j].val.as_str(), t) {
                proof {
                    lemma_keyword_table_vals();
                    lemma_keyword_hit(t@, j as int);
                }
                return Some(self.keywords[j].clone());
            }
            j += 1;
        }
        proof {
            lemma_keyword_table_vals();
            lemma_keyword_miss(t@);
        }
        None
    }

    /// Classifies a non-keyword field: a numeral becomes a `Number` token,
    /// anything else a `LiteralString` token, and an empty field no token.
    pub fn add_token(&mut self, tokenize: &mut Vec<CSVToken>, buffer: &str, pos: u64)
        ensures
            *final(self) == *old(self),
            final(tokenize).deep_view() == (if buffer@.len() == 0 {
                old(tokenize).deep_view()
            } else if is_number(trim(buffer@)) {
                old(tokenize).deep_view().push(
                    TokenModel { ty: CSVTokenType::Number, val: buffer@, line: Some(pos) },
                )
            } else {
                old(tokenize).deep_view().push(
                    TokenModel { ty: CSVTokenType::LiteralString, val: buffer@, line: Some(pos) },
                )
            }),
    {
        let ghost pre = tokenize.deep_view();
        if !buffer.is_empty() {
            let chars = chars_of(buffer);
            let trimmed = trim_chars(&chars);
            let ty = if is_number_chars(&trimmed) {
                CSVTokenType::Number
            } else {
                CSVTokenType::LiteralString
            };
            tokenize.push(CSVToken { ty, val: buffer.to_owned(), code_line: Some(pos) });
            proof {
                assert(tokenize.deep_view() =~= pre.push(tokenize@.last()@));
            }
        }
    }

    /// Appends the tokens of one source line.
    fn scan_line(&mut self, tokenize: &mut Vec<CSVToken>, line: &Vec<char>, pos: u64)
        requires
            old(self).wf(),
        ensures
            *final(self) == *old(self),
            final(tokenize).deep_view() == old(tokenize).deep_view() + line_tokens(line@, pos),
    {
        let trimmed_line = trim_chars(line);
        if trimmed_line.len() > 0 && trimmed_line[0] == '#' {
            proof {
                assert(tokenize.deep_view() =~= tokenize.deep_view() + line_tokens(line@, pos));
            }
            return ;
        }
        let fields = split_chars(line, ',');
        let ghost fv = fields.deep_view();
        let mut j: usize = 0;
        proof {
            assert(tokenize.deep_view() + fields_tokens(fv, pos, 0) =~= old(
                tokenize,
            ).deep_view() + line_tokens(line@, pos));
        }
        while j < fields.len()
            invariant
                self.wf(),
                *self == *old(self),
                j <= fv.len(),
                fv == fields.deep_view(),
                fv == split_seq(line@, ','),
                tokenize.deep_view() + fields_tokens(fv, pos, j as int) == old(
                    tokenize,
                ).deep_view() + line_tokens(line@, pos),
            decreases fv.len() - j,
        {
            let field = trim_chars(&fields[j]);
            let ghost pre = tokenize.deep_view();
            proof {
                assert(fields@[j as int].deep_view() == fv[j as int]);
                assert(fields@[j as int]@ == fv[j as int]);
            }
            if field.len() == 0 {
                // an empty field yields no token
            } else {
                let text = string_of(&field);
                match self.lookup_keyword(text.as_str()) {
                    Some(tok) => {
                        tokenize.push(tok);
                        proof {
                            assert(tokenize.deep_view() =~= pre.push(tokenize@.last()@));
                            assert(tokenize.deep_view() + fields_tokens(fv, pos, j as int + 1)
                                =~= pre + fields_tokens(fv, pos, j as int));
                        }
                    },
                    None => {
                        proof {
                            lemma_trim_idempotent(fv[j as int]);
                        }
                        self.add_token(tokenize, text.as_str(), pos);
                        proof {
                            assert(tokenize.deep_view() + fields_tokens(fv, pos, j as int + 1)
                                =~= pre + fields_tokens(fv, pos, j as int));
                        }
                    },
                }
            }
            j += 1;
        }
        proof {
            assert(fields_tokens(fv, pos, fv.len() as int) =~= Seq::<TokenModel>::empty());
            assert(tokenize.deep_view() =~= tokenize.deep_view() + fields_tokens(
                fv,
                pos,
                fv.len() as int,
            ));
        }
    }

    /// Scans a whole source text into its token sequence. The result is a
    /// function of the text alone: the tokens of each non-comment line in
    /// order, terminated by the end-of-input token.
    pub fn scan(&mut self, content: &str) -> (r: Vec<CSVToken>)
        requires
            old(self).wf(),
            content@.len() + 2 <= u64::MAX,
        ensures
            *final(self) == *old(self),
            r.deep_view() == spec_scan(content@),
    {
        let chars = chars_of(content);
        let mut lines = split_chars(&chars, '\n');
        proof {
            lemma_split_from_count(content@, '\n', 0, 0);
            assert(lines.deep_view().len() >= 1);
            assert(lines@.len() == lines.deep_view().len());
        }
        let last = lines.len() - 1;
        proof {
            assert(lines.deep_view()[last as int] == lines@[last as int]@);
        }
        if lines[last].len() == 0 {
            let ghost pre = lines.deep_view();
            let _ = lines.pop();
            proof {
                assert(lines.deep_view() =~= pre.drop_last());
                assert(pre.last().len() == 0);
                assert(lines.deep_view() =~= split_term_seq(content@, '\n'));
            }
        } else {
            proof {
                if content@.len() == 0 {
                    assert(split_seq(content@, '\n').last().len() == 0);
                }
                assert(lines.deep_view() =~= split_term_seq(content@, '\n'));
            }
        }
        let ghost lv = lines.deep_view();
        let mut tokenize: Vec<CSVToken> = Vec::new();
        let mut i: usize = 0;
        proof {
            assert(tokenize.deep_view() =~= Seq::<TokenModel>::empty());
            assert(tokenize.deep_view() + lines_tokens(lv, 0) =~= lines_tokens(lv, 0));
        }
        while i < lines.len()
            invariant
                self.wf(),
                *self == *old(self),
                i <= lv.len(),
                lv == lines.deep_view(),
                lv.len() + 1 <= u64::MAX,
                tokenize.deep_view() + lines_tokens(lv, i as int) == lines_tokens(lv, 0),
            decreases lv.len() - i,
        {
            let pos: u64 = (i as u64) + 1;
            proof {
                assert(lines@[i as int]@ == lv[i as int]);
            }
            self.scan_line(&mut tokenize, &lines[i], pos);
            proof {
                assert(tokenize.deep_view() + lines_tokens(lv, i as int + 1) =~= lines_tokens(
                    lv,
                    0,
                ));
            }
            i += 1;
        }
        proof {
            assert(lines_tokens(lv, lv.len() as int) =~= Seq::<TokenModel>::empty());
            assert(tokenize.deep_view() =~= lines_tokens(lv, 0));
        }
        let eof_line: u64 = (lines.len() as u64) + 1;
        let ghost pre = tokenize.deep_view();
        tokenize.push(CSVToken { ty: CSVTokenType::EOF, val: "EOF".to_owned(), code_line: Some(eof_line) });
        proof {
            assert(tokenize.deep_view() =~= pre.push(tokenize@.last()@));
            assert(tokenize.deep_view() =~= spec_scan(content@));
        }
        tokenize
    }
}

} // verus!

verus! {

/// SCANNER-PURITY LAW. The token sequence is a function of the source text
/// alone: scanning identical source text twice yields identical token
/// sequences, whatever scanner instance produced them.
pub proof fn lemma_scanner_purity(content: Seq<char>, r1: Seq<TokenModel>, r2: Seq<TokenModel>)
    requires
        r1 == spec_scan(content),
        r2 == spec_scan(content),
    ensures
        r1 == r2,
{
}

} // verus!
