//! Tokenizer for MySQL and MariaDB DDL.
//!
//! Splits a statement into tokens the grammar consumes. Rules run in
//! declaration order and the first match at the current position wins.
//! Keywords come first (longest declared first), then symbols and literals,
//! then a fallback that takes the rest of the line.

use vstd::prelude::*;
use vstd::slice::slice_subrange;

use crate::json::{chars_of, chars_to_string, string_of};

verus! {

/// Token kinds produced by the lexer.
#[derive(Debug, Clone, PartialEq, Eq)]
pub enum TokenKind {
    /// Whitespace or a SQL comment.
    Ws,
    /// `=`.
    Equal,
    /// `(`.
    LParens,
    /// `)`.
    RParens,
    /// `,`.
    Comma,
    /// `;`.
    Semicolon,
    /// A bit literal such as `b'0101'` or `0b0101`.
    BitFormat,
    /// A hexadecimal literal such as `X'1F'` or `0x1f`.
    HexaFormat,
    /// A double-quoted string.
    DQuoteString,
    /// A single-quoted string.
    SQuoteString,
    /// A numeric literal.
    Number,
    /// A backtick-quoted identifier.
    IdentifierQuoted,
    /// An unquoted identifier.
    IdentifierUnquoted,
    /// A keyword; the name is in uppercase.
    Keyword(String),
    /// Any other run of characters up to the end of the line.
    Unknown,
}

/// A lexed token.
#[derive(Debug, Clone)]
pub struct Token {
    /// The token kind.
    pub kind: TokenKind,
    /// The decoded value: the unescaped text for strings and quoted
    /// identifiers, the raw matched text otherwise.
    pub value: String,
}

/// A lexing error with the line where lexing stopped, counting from 1.
#[derive(Debug, Clone)]
pub struct LexError {
    /// Line number, counting from 1.
    pub line: usize,
}

/// The mathematical value of a [`TokenKind`].
pub enum SKind {
    Ws,
    Equal,
    LParens,
    RParens,
    Comma,
    Semicolon,
    BitFormat,
    HexaFormat,
    DQuoteString,
    SQuoteString,
    Number,
    IdentifierQuoted,
    IdentifierUnquoted,
    Keyword(Seq<char>),
    Unknown,
}

/// The mathematical value of a [`Token`].
pub struct SToken {
    pub kind: SKind,
    pub value: Seq<char>,
}

impl View for TokenKind {
    type V = SKind;

    open spec fn view(&self) -> SKind {
        match self {
            TokenKind::Ws => SKind::Ws,
            TokenKind::Equal => SKind::Equal,
            TokenKind::LParens => SKind::LParens,
            TokenKind::RParens => SKind::RParens,
            TokenKind::Comma => SKind::Comma,
            TokenKind::Semicolon => SKind::Semicolon,
            TokenKind::BitFormat => SKind::BitFormat,
            TokenKind::HexaFormat => SKind::HexaFormat,
            TokenKind::DQuoteString => SKind::DQuoteString,
            TokenKind::SQuoteString => SKind::SQuoteString,
            TokenKind::Number => SKind::Number,
            TokenKind::IdentifierQuoted => SKind::IdentifierQuoted,
            TokenKind::IdentifierUnquoted => SKind::IdentifierUnquoted,
            TokenKind::Keyword(s) => SKind::Keyword(s@),
            TokenKind::Unknown => SKind::Unknown,
        }
    }
}

impl View for Token {
    type V = SToken;

    open spec fn view(&self) -> SToken {
        SToken { kind: self.kind@, value: self.value@ }
    }
}

pub open spec fn view_tokens(ts: Seq<Token>) -> Seq<SToken> {
    ts.map_values(|t: Token| t@)
}

/// A number per kind of token.
pub open spec fn spec_kind_tag(k: SKind) -> u8 {
    match k {
        SKind::Ws => 0,
        SKind::Equal => 1,
        SKind::LParens => 2,
        SKind::RParens => 3,
        SKind::Comma => 4,
        SKind::Semicolon => 5,
        SKind::BitFormat => 6,
        SKind::HexaFormat => 7,
        SKind::DQuoteString => 8,
        SKind::SQuoteString => 9,
        SKind::Number => 10,
        SKind::IdentifierQuoted => 11,
        SKind::IdentifierUnquoted => 12,
        SKind::Keyword(_) => 13,
        SKind::Unknown => 14,
    }
}

fn kind_tag(k: &TokenKind) -> (r: u8)
    ensures
        r == spec_kind_tag(k@),
{
    match k {
        TokenKind::Ws => 0,
        TokenKind::Equal => 1,
        TokenKind::LParens => 2,
        TokenKind::RParens => 3,
        TokenKind::Comma => 4,
        TokenKind::Semicolon => 5,
        TokenKind::BitFormat => 6,
        TokenKind::HexaFormat => 7,
        TokenKind::DQuoteString => 8,
        TokenKind::SQuoteString => 9,
        TokenKind::Number => 10,
        TokenKind::IdentifierQuoted => 11,
        TokenKind::IdentifierUnquoted => 12,
        TokenKind::Keyword(_) => 13,
        TokenKind::Unknown => 14,
    }
}

/// Whether two token kinds are the same kind (keywords compare by name).
pub fn kind_eq(a: &TokenKind, b: &TokenKind) -> (r: bool)
    ensures
        r == (a@ == b@),
{
    match a {
        TokenKind::Keyword(x) => match b {
            TokenKind::Keyword(y) => *x == *y,
            _ => false,
        },
        _ => {
            let r = kind_tag(a) == kind_tag(b);
            proof {
                if r {
                    assert(a@ == b@) by {
                        match a@ {
                            SKind::Ws => {},
                            SKind::Equal => {},
                            SKind::LParens => {},
                            SKind::RParens => {},
                            SKind::Comma => {},
                            SKind::Semicolon => {},
                            SKind::BitFormat => {},
                            SKind::HexaFormat => {},
                            SKind::DQuoteString => {},
                            SKind::SQuoteString => {},
                            SKind::Number => {},
                            SKind::IdentifierQuoted => {},
                            SKind::IdentifierUnquoted => {},
                            SKind::Keyword(_) => {},
                            SKind::Unknown => {},
                        }
                    }
                }
            }
            r
        },
    }
}

// ---------------------------------------------------------------------------
// Character classes.

/// A word character for `\b`: an ASCII letter, digit or underscore.
pub open spec fn spec_is_word(c: char) -> bool {
    ('a' <= c <= 'z') || ('A' <= c <= 'Z') || ('0' <= c <= '9') || c == '_'
}

/// A character of an unquoted identifier: `[0-9a-zA-Z$_]`.
pub open spec fn spec_is_ident_char(c: char) -> bool {
    spec_is_word(c) || c == '$'
}

pub open spec fn spec_is_digit(c: char) -> bool {
    '0' <= c <= '9'
}

pub open spec fn spec_is_hex(c: char) -> bool {
    ('0' <= c <= '9') || ('a' <= c <= 'f') || ('A' <= c <= 'F')
}

pub open spec fn spec_is_bin(c: char) -> bool {
    c == '0' || c == '1'
}

/// A character with the Unicode `White_Space` property.
pub open spec fn spec_is_space(c: char) -> bool {
    ||| ('\u{9}' <= c <= '\u{d}')
    ||| c == ' '
    ||| c == '\u{85}'
    ||| c == '\u{a0}'
    ||| c == '\u{1680}'
    ||| ('\u{2000}' <= c <= '\u{200a}')
    ||| c == '\u{2028}'
    ||| c == '\u{2029}'
    ||| c == '\u{202f}'
    ||| c == '\u{205f}'
    ||| c == '\u{3000}'
}

pub open spec fn spec_not_eol(c: char) -> bool {
    c != '\n' && c != '\r'
}

/// The code of a character with ASCII uppercase letters folded to lowercase.
pub open spec fn spec_fold(c: char) -> u32 {
    if 'A' <= c <= 'Z' {
        (c as u32 + 32) as u32
    } else {
        c as u32
    }
}

pub fn is_word(c: char) -> (r: bool)
    ensures
        r == spec_is_word(c),
{
    ('a' <= c && c <= 'z') || ('A' <= c && c <= 'Z') || ('0' <= c && c <= '9') || c == '_'
}

pub fn is_ident_char(c: char) -> (r: bool)
    ensures
        r == spec_is_ident_char(c),
{
    is_word(c) || c == '$'
}

pub fn is_digit(c: char) -> (r: bool)
    ensures
        r == spec_is_digit(c),
{
    '0' <= c && c <= '9'
}

pub fn is_hex(c: char) -> (r: bool)
    ensures
        r == spec_is_hex(c),
{
    ('0' <= c && c <= '9') || ('a' <= c && c <= 'f') || ('A' <= c && c <= 'F')
}

pub fn is_space(c: char) -> (r: bool)
    ensures
        r == spec_is_space(c),
{
    ('\u{9}' <= c && c <= '\u{d}') || c == ' ' || c == '\u{85}' || c == '\u{a0}' || c
        == '\u{1680}' || ('\u{2000}' <= c && c <= '\u{200a}') || c == '\u{2028}' || c
        == '\u{2029}' || c == '\u{202f}' || c == '\u{205f}' || c == '\u{3000}'
}

pub fn fold(c: char) -> (r: u32)
    ensures
        r == spec_fold(c),
{
    if 'A' <= c && c <= 'Z' {
        c as u32 + 32
    } else {
        c as u32
    }
}

// ---------------------------------------------------------------------------
// The keyword table.

/// The number of keywords the lexer knows.
pub const NUM_KEYWORDS: usize = 173;

/// The keyword names, longest first.
pub open spec fn spec_keyword(i: int) -> Seq<char> {
    keyword_table(i as usize)
}

pub open spec fn keyword_table(i: usize) -> Seq<char> {
    match i {
        0 => "GEOMETRYCOLLECTION"@,
        1 => "STATS_SAMPLE_PAGES"@,
        2 => "CURRENT_TIMESTAMP"@,
        3 => "ENCRYPTION_KEY_ID"@,
        4 => "STATS_AUTO_RECALC"@,
        5 => "STATS_PERSISTENT"@,
        6 => "UNIQUEIDENTIFIER"@,
        7 => "DELAY_KEY_WRITE"@,
        8 => "MULTILINESTRING"@,
        9 => "AUTO_INCREMENT"@,
        10 => "AVG_ROW_LENGTH"@,
        11 => "KEY_BLOCK_SIZE"@,
        12 => "COLUMN_FORMAT"@,
        13 => "INSERT_METHOD"@,
        14 => "PAGE_CHECKSUM"@,
        15 => "TRANSACTIONAL"@,
        16 => "MULTIPOLYGON"@,
        17 => "COMPRESSION"@,
        18 => "IETF_QUOTES"@,
        19 => "SYSTEM_TIME"@,
        20 => "COMPRESSED"@,
        21 => "CONNECTION"@,
        22 => "CONSTRAINT"@,
        23 => "ENCRYPTION"@,
        24 => "LINESTRING"@,
        25 => "MEDIUMBLOB"@,
        26 => "MEDIUMTEXT"@,
        27 => "MULTIPOINT"@,
        28 => "REFERENCES"@,
        29 => "ROW_FORMAT"@,
        30 => "TABLESPACE"@,
        31 => "VALIDATION"@,
        32 => "VERSIONING"@,
        33 => "ALGORITHM"@,
        34 => "CHARACTER"@,
        35 => "DIRECTORY"@,
        36 => "EXCLUSIVE"@,
        37 => "INVISIBLE"@,
        38 => "MEDIUMINT"@,
        39 => "PACK_KEYS"@,
        40 => "REDUNDANT"@,
        41 => "TEMPORARY"@,
        42 => "TIMESTAMP"@,
        43 => "VARBINARY"@,
        44 => "CHECKSUM"@,
        45 => "DATABASE"@,
        46 => "DATETIME"@,
        47 => "FULLTEXT"@,
        48 => "GEOMETRY"@,
        49 => "LONGBLOB"@,
        50 => "LONGTEXT"@,
        51 => "MAX_ROWS"@,
        52 => "MIN_ROWS"@,
        53 => "NATIONAL"@,
        54 => "NVARCHAR"@,
        55 => "PASSWORD"@,
        56 => "RESTRICT"@,
        57 => "SMALLINT"@,
        58 => "TINYBLOB"@,
        59 => "TINYTEXT"@,
        60 => "UNSIGNED"@,
        61 => "ZEROFILL"@,
        62 => "BOOLEAN"@,
        63 => "CASCADE"@,
        64 => "CHARSET"@,
        65 => "COLLATE"@,
        66 => "COMMENT"@,
        67 => "COMPACT"@,
        68 => "CONVERT"@,
        69 => "DECIMAL"@,
        70 => "DEFAULT"@,
        71 => "DISABLE"@,
        72 => "DISCARD"@,
        73 => "DYNAMIC"@,
        74 => "FOREIGN"@,
        75 => "INPLACE"@,
        76 => "INTEGER"@,
        77 => "NUMERIC"@,
        78 => "OFFLINE"@,
        79 => "PARTIAL"@,
        80 => "POLYGON"@,
        81 => "PRIMARY"@,
        82 => "REPLACE"@,
        83 => "SPATIAL"@,
        84 => "STORAGE"@,
        85 => "TINYINT"@,
        86 => "VARCHAR"@,
        87 => "WITHOUT"@,
        88 => "ACTION"@,
        89 => "BIGINT"@,
        90 => "BINARY"@,
        91 => "CHANGE"@,
        92 => "COLUMN"@,
        93 => "CREATE"@,
        94 => "DELETE"@,
        95 => "DOUBLE"@,
        96 => "ENABLE"@,
        97 => "ENGINE"@,
        98 => "EXISTS"@,
        99 => "IGNORE"@,
        100 => "IMPORT"@,
        101 => "MEMORY"@,
        102 => "MODIFY"@,
        103 => "NOWAIT"@,
        104 => "ONLINE"@,
        105 => "PARSER"@,
        106 => "PERIOD"@,
        107 => "RENAME"@,
        108 => "SCHEMA"@,
        109 => "SHARED"@,
        110 => "SIMPLE"@,
        111 => "SYSTEM"@,
        112 => "UNIQUE"@,
        113 => "UPDATE"@,
        114 => "AFTER"@,
        115 => "ALTER"@,
        116 => "BTREE"@,
        117 => "FIRST"@,
        118 => "FIXED"@,
        119 => "FLOAT"@,
        120 => "FORCE"@,
        121 => "INDEX"@,
        122 => "MATCH"@,
        123 => "NCHAR"@,
        124 => "ORDER"@,
        125 => "POINT"@,
        126 => "RTREE"@,
        127 => "TABLE"@,
        128 => "UNION"@,
        129 => "USING"@,
        130 => "BLOB"@,
        131 => "BOOL"@,
        132 => "CHAR"@,
        133 => "COPY"@,
        134 => "DATA"@,
        135 => "DATE"@,
        136 => "DESC"@,
        137 => "DISK"@,
        138 => "DROP"@,
        139 => "ENUM"@,
        140 => "FULL"@,
        141 => "HASH"@,
        142 => "JSON"@,
        143 => "KEYS"@,
        144 => "LAST"@,
        145 => "LIKE"@,
        146 => "LOCK"@,
        147 => "NONE"@,
        148 => "NULL"@,
        149 => "PAGE"@,
        150 => "TEXT"@,
        151 => "TIME"@,
        152 => "UUID"@,
        153 => "WAIT"@,
        154 => "WITH"@,
        155 => "YEAR"@,
        156 => "ADD"@,
        157 => "ASC"@,
        158 => "BIT"@,
        159 => "FOR"@,
        160 => "INT"@,
        161 => "KEY"@,
        162 => "NOT"@,
        163 => "SET"@,
        164 => "USE"@,
        165 => "YES"@,
        166 => "AS"@,
        167 => "BY"@,
        168 => "IF"@,
        169 => "NO"@,
        170 => "ON"@,
        171 => "OR"@,
        172 => "TO"@,
        _ => Seq::empty(),
    }
}

/// The name of keyword number `i`, in declaration order.
pub fn keyword_name(i: usize) -> (r: &'static str)
    requires
        i < NUM_KEYWORDS,
    ensures
        r@ == spec_keyword(i as int),
{
    match i {
        0 => "GEOMETRYCOLLECTION",
        1 => "STATS_SAMPLE_PAGES",
        2 => "CURRENT_TIMESTAMP",
        3 => "ENCRYPTION_KEY_ID",
        4 => "STATS_AUTO_RECALC",
        5 => "STATS_PERSISTENT",
        6 => "UNIQUEIDENTIFIER",
        7 => "DELAY_KEY_WRITE",
        8 => "MULTILINESTRING",
        9 => "AUTO_INCREMENT",
        10 => "AVG_ROW_LENGTH",
        11 => "KEY_BLOCK_SIZE",
        12 => "COLUMN_FORMAT",
        13 => "INSERT_METHOD",
        14 => "PAGE_CHECKSUM",
        15 => "TRANSACTIONAL",
        16 => "MULTIPOLYGON",
        17 => "COMPRESSION",
        18 => "IETF_QUOTES",
        19 => "SYSTEM_TIME",
        20 => "COMPRESSED",
        21 => "CONNECTION",
        22 => "CONSTRAINT",
        23 => "ENCRYPTION",
        24 => "LINESTRING",
        25 => "MEDIUMBLOB",
        26 => "MEDIUMTEXT",
        27 => "MULTIPOINT",
        28 => "REFERENCES",
        29 => "ROW_FORMAT",
        30 => "TABLESPACE",
        31 => "VALIDATION",
        32 => "VERSIONING",
        33 => "ALGORITHM",
        34 => "CHARACTER",
        35 => "DIRECTORY",
        36 => "EXCLUSIVE",
        37 => "INVISIBLE",
        38 => "MEDIUMINT",
        39 => "PACK_KEYS",
        40 => "REDUNDANT",
        41 => "TEMPORARY",
        42 => "TIMESTAMP",
        43 => "VARBINARY",
        44 => "CHECKSUM",
        45 => "DATABASE",
        46 => "DATETIME",
        47 => "FULLTEXT",
        48 => "GEOMETRY",
        49 => "LONGBLOB",
        50 => "LONGTEXT",
        51 => "MAX_ROWS",
        52 => "MIN_ROWS",
        53 => "NATIONAL",
        54 => "NVARCHAR",
        55 => "PASSWORD",
        56 => "RESTRICT",
        57 => "SMALLINT",
        58 => "TINYBLOB",
        59 => "TINYTEXT",
        60 => "UNSIGNED",
        61 => "ZEROFILL",
        62 => "BOOLEAN",
        63 => "CASCADE",
        64 => "CHARSET",
        65 => "COLLATE",
        66 => "COMMENT",
        67 => "COMPACT",
        68 => "CONVERT",
        69 => "DECIMAL",
        70 => "DEFAULT",
        71 => "DISABLE",
        72 => "DISCARD",
        73 => "DYNAMIC",
        74 => "FOREIGN",
        75 => "INPLACE",
        76 => "INTEGER",
        77 => "NUMERIC",
        78 => "OFFLINE",
        79 => "PARTIAL",
        80 => "POLYGON",
        81 => "PRIMARY",
        82 => "REPLACE",
        83 => "SPATIAL",
        84 => "STORAGE",
        85 => "TINYINT",
        86 => "VARCHAR",
        87 => "WITHOUT",
        88 => "ACTION",
        89 => "BIGINT",
        90 => "BINARY",
        91 => "CHANGE",
        92 => "COLUMN",
        93 => "CREATE",
        94 => "DELETE",
        95 => "DOUBLE",
        96 => "ENABLE",
        97 => "ENGINE",
        98 => "EXISTS",
        99 => "IGNORE",
        100 => "IMPORT",
        101 => "MEMORY",
        102 => "MODIFY",
        103 => "NOWAIT",
        104 => "ONLINE",
        105 => "PARSER",
        106 => "PERIOD",
        107 => "RENAME",
        108 => "SCHEMA",
        109 => "SHARED",
        110 => "SIMPLE",
        111 => "SYSTEM",
        112 => "UNIQUE",
        113 => "UPDATE",
        114 => "AFTER",
        115 => "ALTER",
        116 => "BTREE",
        117 => "FIRST",
        118 => "FIXED",
        119 => "FLOAT",
        120 => "FORCE",
        121 => "INDEX",
        122 => "MATCH",
        123 => "NCHAR",
        124 => "ORDER",
        125 => "POINT",
        126 => "RTREE",
        127 => "TABLE",
        128 => "UNION",
        129 => "USING",
        130 => "BLOB",
        131 => "BOOL",
        132 => "CHAR",
        133 => "COPY",
        134 => "DATA",
        135 => "DATE",
        136 => "DESC",
        137 => "DISK",
        138 => "DROP",
        139 => "ENUM",
        140 => "FULL",
        141 => "HASH",
        142 => "JSON",
        143 => "KEYS",
        144 => "LAST",
        145 => "LIKE",
        146 => "LOCK",
        147 => "NONE",
        148 => "NULL",
        149 => "PAGE",
        150 => "TEXT",
        151 => "TIME",
        152 => "UUID",
        153 => "WAIT",
        154 => "WITH",
        155 => "YEAR",
        156 => "ADD",
        157 => "ASC",
        158 => "BIT",
        159 => "FOR",
        160 => "INT",
        161 => "KEY",
        162 => "NOT",
        163 => "SET",
        164 => "USE",
        165 => "YES",
        166 => "AS",
        167 => "BY",
        168 => "IF",
        169 => "NO",
        170 => "ON",
        171 => "OR",
        172 => "TO",
        _ => "",
    }
}

// ---------------------------------------------------------------------------
// Runs of characters of one class.

/// Digits.
pub const CLASS_DIGIT: u8 = 0;
/// Hexadecimal digits.
pub const CLASS_HEX: u8 = 1;
/// Binary digits.
pub const CLASS_BIN: u8 = 2;
/// Unicode whitespace.
pub const CLASS_SPACE: u8 = 3;
/// Anything but a line break.
pub const CLASS_NOT_EOL: u8 = 4;
/// Characters of an unquoted identifier.
pub const CLASS_IDENT: u8 = 5;
/// The space character itself.
pub const CLASS_BLANK: u8 = 6;

pub open spec fn in_class(cls: u8, c: char) -> bool {
    if cls == CLASS_DIGIT {
        spec_is_digit(c)
    } else if cls == CLASS_HEX {
        spec_is_hex(c)
    } else if cls == CLASS_BIN {
        spec_is_bin(c)
    } else if cls == CLASS_SPACE {
        spec_is_space(c)
    } else if cls == CLASS_NOT_EOL {
        spec_not_eol(c)
    } else if cls == CLASS_IDENT {
        spec_is_ident_char(c)
    } else {
        c == ' '
    }
}

/// The end of the run of characters of class `cls` that starts at `i`.
pub open spec fn run_end(cs: Seq<char>, i: int, cls: u8) -> int
    decreases cs.len() - i,
{
    if 0 <= i < cs.len() && in_class(cls, cs[i]) {
        run_end(cs, i + 1, cls)
    } else {
        i
    }
}

pub proof fn lemma_run_end(cs: Seq<char>, i: int, cls: u8)
    requires
        0 <= i <= cs.len(),
    ensures
        i <= run_end(cs, i, cls) <= cs.len(),
        forall|k: int| i <= k < run_end(cs, i, cls) ==> in_class(cls, #[trigger] cs[k]),
        run_end(cs, i, cls) < cs.len() ==> !in_class(cls, cs[run_end(cs, i, cls)]),
    decreases cs.len() - i,
{
    if i < cs.len() && in_class(cls, cs[i]) {
        lemma_run_end(cs, i + 1, cls);
    }
}

fn in_class_exec(cls: u8, c: char) -> (r: bool)
    ensures
        r == in_class(cls, c),
{
    if cls == CLASS_DIGIT {
        is_digit(c)
    } else if cls == CLASS_HEX {
        is_hex(c)
    } else if cls == CLASS_BIN {
        c == '0' || c == '1'
    } else if cls == CLASS_SPACE {
        is_space(c)
    } else if cls == CLASS_NOT_EOL {
        c != '\n' && c != '\r'
    } else if cls == CLASS_IDENT {
        is_ident_char(c)
    } else {
        c == ' '
    }
}

/// Advances over the run of characters of class `cls` that starts at `i`.
pub fn run(cs: &[char], i: usize, cls: u8) -> (r: usize)
    requires
        i <= cs@.len(),
    ensures
        r == run_end(cs@, i as int, cls),
        i <= r <= cs@.len(),
{
    proof {
        lemma_run_end(cs@, i as int, cls);
    }
    let mut pos = i;
    while pos < cs.len() && in_class_exec(cls, cs[pos])
        invariant
            i <= pos <= cs@.len(),
            run_end(cs@, i as int, cls) == run_end(cs@, pos as int, cls),
        decreases cs@.len() - pos,
    {
        pos += 1;
    }
    pos
}

// ---------------------------------------------------------------------------
// Keywords.

/// Whether the keyword `name` matches at `start`: the letters agree ignoring
/// ASCII case, and a word boundary stands before and after the match.
pub open spec fn kw_matches(cs: Seq<char>, start: int, name: Seq<char>) -> bool {
    let n = name.len();
    &&& n > 0
    &&& start + n <= cs.len()
    &&& forall|i: int| 0 <= i < n ==> spec_fold(cs[start + i]) == spec_fold(#[trigger] name[i])
    &&& !(start > 0 && spec_is_word(cs[start - 1]) && spec_is_word(name[0]))
    &&& !(start + n < cs.len() && spec_is_word(cs[start + n]) && spec_is_word(name[n - 1]))
}

/// The first keyword at index `k` or later that matches at `start`.
pub open spec fn first_keyword(cs: Seq<char>, start: int, k: int) -> Option<int>
    decreases NUM_KEYWORDS - k,
{
    if k < 0 || k >= NUM_KEYWORDS {
        None
    } else if kw_matches(cs, start, spec_keyword(k)) {
        Some(k)
    } else {
        first_keyword(cs, start, k + 1)
    }
}

/// Matches one keyword at `start`; returns its length.
pub fn match_keyword(cs: &[char], start: usize, name: &str) -> (r: Option<usize>)
    requires
        start < cs@.len(),
    ensures
        r matches Some(n) ==> kw_matches(cs@, start as int, name@) && n == name@.len(),
        r is None ==> !kw_matches(cs@, start as int, name@),
{
    let n = name.unicode_len();
    let clen = cs.len();
    if n == 0 || n > clen - start {
        return None;
    }
    let mut i: usize = 0;
    while i < n
        invariant
            0 <= i <= n,
            clen == cs@.len(),
            n == name@.len(),
            start + n <= cs@.len(),
            forall|j: int| 0 <= j < i ==> spec_fold(cs@[start + j]) == spec_fold(#[trigger] name@[j]),
        decreases n - i,
    {
        let got = cs[start + i];
        let want = name.get_char(i);
        if fold(got) != fold(want) {
            return None;
        }
        i += 1;
    }
    if start > 0 && is_word(cs[start - 1]) && is_word(name.get_char(0)) {
        return None;
    }
    let after = start + n;
    if after < cs.len() && is_word(cs[after]) && is_word(name.get_char(n - 1)) {
        return None;
    }
    Some(n)
}

// ---------------------------------------------------------------------------
// Whitespace and comments.

/// The first index at or after `e` that closes a block comment, or the last
/// index when none does.
pub open spec fn block_close(cs: Seq<char>, e: int) -> int
    decreases cs.len() - e,
{
    if 0 <= e && e + 1 < cs.len() && !(cs[e] == '*' && cs[e + 1] == '/') {
        block_close(cs, e + 1)
    } else {
        e
    }
}

/// One round of whitespace: a run of spaces, then a `#` comment, then a
/// `-- ` comment, then a closed `/* */` comment, each when present.
pub open spec fn ws_round(cs: Seq<char>, pos: int) -> int {
    let p1 = run_end(cs, pos, CLASS_SPACE);
    let p2 = if p1 < cs.len() && cs[p1] == '#' {
        run_end(cs, p1, CLASS_NOT_EOL)
    } else {
        p1
    };
    let p3 = if p2 + 2 < cs.len() && cs[p2] == '-' && cs[p2 + 1] == '-' && cs[p2 + 2] == ' ' {
        run_end(cs, run_end(cs, p2 + 2, CLASS_BLANK), CLASS_NOT_EOL)
    } else {
        p2
    };
    if p3 + 1 < cs.len() && cs[p3] == '/' && cs[p3 + 1] == '*' {
        let e = block_close(cs, p3 + 2);
        if e + 1 < cs.len() {
            e + 2
        } else {
            p3
        }
    } else {
        p3
    }
}

/// Repeats rounds of whitespace until one makes no progress.
pub open spec fn ws_total(cs: Seq<char>, pos: int) -> int
    decreases cs.len() - pos,
{
    let r = ws_round(cs, pos);
    if pos < r <= cs.len() {
        ws_total(cs, r)
    } else {
        pos
    }
}

pub open spec fn spec_match_ws(cs: Seq<char>, start: int) -> Option<int> {
    let t = ws_total(cs, start);
    if t > start {
        Some(t - start)
    } else {
        None
    }
}

pub proof fn lemma_block_close(cs: Seq<char>, e: int)
    requires
        0 <= e <= cs.len(),
    ensures
        e <= block_close(cs, e) <= cs.len(),
    decreases cs.len() - e,
{
    if e + 1 < cs.len() && !(cs[e] == '*' && cs[e + 1] == '/') {
        lemma_block_close(cs, e + 1);
    }
}

pub proof fn lemma_ws_round(cs: Seq<char>, pos: int)
    requires
        0 <= pos <= cs.len(),
    ensures
        pos <= ws_round(cs, pos) <= cs.len(),
{
    let p1 = run_end(cs, pos, CLASS_SPACE);
    lemma_run_end(cs, pos, CLASS_SPACE);
    let p2 = if p1 < cs.len() && cs[p1] == '#' {
        run_end(cs, p1, CLASS_NOT_EOL)
    } else {
        p1
    };
    lemma_run_end(cs, p1, CLASS_NOT_EOL);
    if p2 + 2 < cs.len() && cs[p2] == '-' && cs[p2 + 1] == '-' && cs[p2 + 2] == ' ' {
        lemma_run_end(cs, p2 + 2, CLASS_BLANK);
        lemma_run_end(cs, run_end(cs, p2 + 2, CLASS_BLANK), CLASS_NOT_EOL);
    }
    let p3 = if p2 + 2 < cs.len() && cs[p2] == '-' && cs[p2 + 1] == '-' && cs[p2 + 2] == ' ' {
        run_end(cs, run_end(cs, p2 + 2, CLASS_BLANK), CLASS_NOT_EOL)
    } else {
        p2
    };
    if p3 + 1 < cs.len() && cs[p3] == '/' && cs[p3 + 1] == '*' {
        lemma_block_close(cs, p3 + 2);
    }
}

/// Matches whitespace and comments: runs of `\s`, `#...`, `-- ...`, `/* ... */`.
pub fn match_ws(cs: &[char], start: usize) -> (r: Option<usize>)
    requires
        start < cs@.len(),
    ensures
        r matches Some(n) ==> spec_match_ws(cs@, start as int) == Some(n as int),
        r is None ==> spec_match_ws(cs@, start as int) is None,
{
    let len = cs.len();
    let mut pos = start;
    loop
        invariant
            start <= pos <= len,
            len == cs@.len(),
            ws_total(cs@, start as int) == ws_total(cs@, pos as int),
        ensures
            start <= pos <= len,
            ws_total(cs@, start as int) == pos,
        decreases len - pos,
    {
        let before = pos;
        proof {
            lemma_ws_round(cs@, pos as int);
        }
        pos = run(cs, pos, CLASS_SPACE);
        if pos < len && cs[pos] == '#' {
            pos = run(cs, pos, CLASS_NOT_EOL);
        }
        if pos < len && len - pos > 2 && cs[pos] == '-' && cs[pos + 1] == '-' && cs[pos + 2] == ' ' {
            let q = run(cs, pos + 2, CLASS_BLANK);
            pos = run(cs, q, CLASS_NOT_EOL);
        }
        if pos < len && len - pos > 1 && cs[pos] == '/' && cs[pos + 1] == '*' {
            let mut end = pos + 2;
            while len - end > 1 && !(cs[end] == '*' && cs[end + 1] == '/')
                invariant
                    pos + 2 <= end <= len,
                    len == cs@.len(),
                    block_close(cs@, (pos + 2) as int) == block_close(cs@, end as int),
                decreases len - end,
            {
                end += 1;
            }
            if len - end > 1 {
                pos = end + 2;
            }
        }
        assert(pos == ws_round(cs@, before as int));
        if pos == before {
            break;
        }
    }
    if pos > start {
        Some(pos - start)
    } else {
        None
    }
}

// ---------------------------------------------------------------------------
// Literals.

/// `b'[01]+'` or `0b[01]+`.
pub open spec fn spec_match_bit(cs: Seq<char>, start: int) -> Option<int> {
    let quoted = if cs[start] == 'b' && start + 1 < cs.len() && cs[start + 1] == '\'' {
        let e = run_end(cs, start + 2, CLASS_BIN);
        if e > start + 2 && e < cs.len() && cs[e] == '\'' {
            Some(e + 1 - start)
        } else {
            None
        }
    } else {
        None
    };
    match quoted {
        Some(n) => Some(n),
        None => if cs[start] == '0' && start + 1 < cs.len() && cs[start + 1] == 'b' {
            let e = run_end(cs, start + 2, CLASS_BIN);
            if e > start + 2 {
                Some(e - start)
            } else {
                None
            }
        } else {
            None
        },
    }
}

/// `[Xx]'[0-9a-fA-F]+'` or `0x[0-9a-fA-F]+`.
pub open spec fn spec_match_hexa(cs: Seq<char>, start: int) -> Option<int> {
    let quoted = if (cs[start] == 'X' || cs[start] == 'x') && start + 1 < cs.len() && cs[start + 1]
        == '\'' {
        let e = run_end(cs, start + 2, CLASS_HEX);
        if e > start + 2 && e < cs.len() && cs[e] == '\'' {
            Some(e + 1 - start)
        } else {
            None
        }
    } else {
        None
    };
    match quoted {
        Some(n) => Some(n),
        None => if cs[start] == '0' && start + 1 < cs.len() && cs[start + 1] == 'x' {
            let e = run_end(cs, start + 2, CLASS_HEX);
            if e > start + 2 {
                Some(e - start)
            } else {
                None
            }
        } else {
            None
        },
    }
}

/// Matches a bit literal.
pub fn match_bit(cs: &[char], start: usize) -> (r: Option<usize>)
    requires
        start < cs@.len(),
    ensures
        r matches Some(n) ==> spec_match_bit(cs@, start as int) == Some(n as int),
        r is None ==> spec_match_bit(cs@, start as int) is None,
{
    let len = cs.len();
    if cs[start] == 'b' && start + 1 < len && cs[start + 1] == '\'' {
        let pos = run(cs, start + 2, CLASS_BIN);
        if pos > start + 2 && pos < len && cs[pos] == '\'' {
            return Some(pos + 1 - start);
        }
    }
    if cs[start] == '0' && start + 1 < len && cs[start + 1] == 'b' {
        let pos = run(cs, start + 2, CLASS_BIN);
        if pos > start + 2 {
            return Some(pos - start);
        }
    }
    None
}

/// Matches a hexadecimal literal.
pub fn match_hexa(cs: &[char], start: usize) -> (r: Option<usize>)
    requires
        start < cs@.len(),
    ensures
        r matches Some(n) ==> spec_match_hexa(cs@, start as int) == Some(n as int),
        r is None ==> spec_match_hexa(cs@, start as int) is None,
{
    let len = cs.len();
    if (cs[start] == 'X' || cs[start] == 'x') && start + 1 < len && cs[start + 1] == '\'' {
        let pos = run(cs, start + 2, CLASS_HEX);
        if pos > start + 2 && pos < len && cs[pos] == '\'' {
            return Some(pos + 1 - start);
        }
    }
    if cs[start] == '0' && start + 1 < len && cs[start + 1] == 'x' {
        let pos = run(cs, start + 2, CLASS_HEX);
        if pos > start + 2 {
            return Some(pos - start);
        }
    }
    None
}

/// Scans the body of a string quoted by `q` from `pos` (just after the
/// opening quote): a doubled quote stands for one quote, a backslash before
/// the quote stands for the quote, any other backslash pair is kept as is.
/// Returns the index after the closing quote and the decoded text.
pub open spec fn scan_quoted(cs: Seq<char>, pos: int, q: char) -> Option<(int, Seq<char>)>
    decreases cs.len() - pos,
{
    if pos < 0 || pos >= cs.len() {
        None
    } else if cs[pos] == q {
        if pos + 1 < cs.len() && cs[pos + 1] == q {
            match scan_quoted(cs, pos + 2, q) {
                Some((e, v)) => Some((e, seq![q] + v)),
                None => None,
            }
        } else {
            Some((pos + 1, Seq::empty()))
        }
    } else if cs[pos] == '\\' {
        if pos + 1 < cs.len() {
            let pre = if cs[pos + 1] == q {
                seq![q]
            } else {
                seq!['\\', cs[pos + 1]]
            };
            match scan_quoted(cs, pos + 2, q) {
                Some((e, v)) => Some((e, pre + v)),
                None => None,
            }
        } else {
            None
        }
    } else {
        match scan_quoted(cs, pos + 1, q) {
            Some((e, v)) => Some((e, seq![cs[pos]] + v)),
            None => None,
        }
    }
}

/// A string quoted by `q` at `start`: its length and decoded text. Two
/// quotes alone make the empty string when no longer string matches.
pub open spec fn spec_match_quoted(cs: Seq<char>, start: int, q: char) -> Option<(int, Seq<char>)> {
    if cs[start] != q {
        None
    } else if start + 1 < cs.len() && cs[start + 1] == q {
        match scan_quoted(cs, start + 1, q) {
            Some((e, v)) => Some((e - start, v)),
            None => Some((2, Seq::empty())),
        }
    } else {
        match scan_quoted(cs, start + 1, q) {
            Some((e, v)) => Some((e - start, v)),
            None => None,
        }
    }
}

pub proof fn lemma_scan_quoted(cs: Seq<char>, pos: int, q: char)
    ensures
        scan_quoted(cs, pos, q) matches Some((e, v)) ==> pos < e <= cs.len(),
    decreases cs.len() - pos,
{
    if 0 <= pos < cs.len() {
        if cs[pos] == q {
            if pos + 1 < cs.len() && cs[pos + 1] == q {
                lemma_scan_quoted(cs, pos + 2, q);
            }
        } else if cs[pos] == '\\' {
            if pos + 1 < cs.len() {
                lemma_scan_quoted(cs, pos + 2, q);
            }
        } else {
            lemma_scan_quoted(cs, pos + 1, q);
        }
    }
}

/// Scans a quoted string body.
fn scan_quoted_body(cs: &[char], start: usize, q: char) -> (r: Option<(usize, Vec<char>)>)
    requires
        start < cs@.len(),
    ensures
        r matches Some((n, v)) ==> scan_quoted(cs@, start + 1, q) == Some(((start + n) as int, v@)),
        r is None ==> scan_quoted(cs@, start + 1, q) is None,
{
    let len = cs.len();
    let mut pos = start + 1;
    let mut value: Vec<char> = Vec::new();
    while pos < len
        invariant
            start + 1 <= pos,
            len == cs@.len(),
            scan_quoted(cs@, start + 1, q) == match scan_quoted(cs@, pos as int, q) {
                Some((e, v)) => Some((e, value@ + v)),
                None => None,
            },
        decreases len - pos,
    {
        let c = cs[pos];
        if c == q {
            if pos + 1 < len && cs[pos + 1] == q {
                proof {
                    assert(forall|v: Seq<char>| value@.push(q) + v =~= value@ + (seq![q] + v));
                }
                value.push(q);
                pos += 2;
                continue;
            }
            assert(value@ + Seq::<char>::empty() =~= value@);
            return Some((pos + 1 - start, value));
        }
        if c == '\\' {
            if pos + 1 < len {
                let next = cs[pos + 1];
                if next == q {
                    proof {
                        assert(forall|v: Seq<char>| value@.push(q) + v =~= value@ + (seq![q] + v));
                    }
                    value.push(q);
                } else {
                    proof {
                        assert(forall|v: Seq<char>|
                            value@.push('\\').push(next) + v =~= value@ + (seq!['\\', next] + v));
                    }
                    value.push('\\');
                    value.push(next);
                }
                pos += 2;
                continue;
            }
            return None;
        }
        proof {
            assert(forall|v: Seq<char>| value@.push(c) + v =~= value@ + (seq![c] + v));
        }
        value.push(c);
        pos += 1;
    }
    None
}

/// Matches a string quoted by `q`; returns its length and decoded text.
pub fn match_quoted(cs: &[char], start: usize, q: char) -> (r: Option<(usize, Vec<char>)>)
    requires
        start < cs@.len(),
    ensures
        r matches Some((n, v)) ==> spec_match_quoted(cs@, start as int, q) == Some((n as int, v@)),
        r is None ==> spec_match_quoted(cs@, start as int, q) is None,
{
    if cs[start] != q {
        return None;
    }
    if start + 1 < cs.len() && cs[start + 1] == q {
        if let Some(res) = scan_quoted_body(cs, start, q) {
            return Some(res);
        }
        return Some((2, Vec::new()));
    }
    scan_quoted_body(cs, start, q)
}

/// `[+-]?\d+(\.\d+)?([Ee][+-]?\d+)?`: the length of the number at `start`.
pub open spec fn spec_match_number(cs: Seq<char>, start: int) -> Option<int> {
    let p0 = if start < cs.len() && (cs[start] == '+' || cs[start] == '-') {
        start + 1
    } else {
        start
    };
    let p1 = run_end(cs, p0, CLASS_DIGIT);
    if p1 == p0 {
        None
    } else {
        let p2 = if p1 < cs.len() && cs[p1] == '.' && run_end(cs, p1 + 1, CLASS_DIGIT) > p1 + 1 {
            run_end(cs, p1 + 1, CLASS_DIGIT)
        } else {
            p1
        };
        let p3 = if p2 < cs.len() && (cs[p2] == 'e' || cs[p2] == 'E') {
            let s = if p2 + 1 < cs.len() && (cs[p2 + 1] == '+' || cs[p2 + 1] == '-') {
                p2 + 2
            } else {
                p2 + 1
            };
            let e = run_end(cs, s, CLASS_DIGIT);
            if e > s {
                e
            } else {
                p2
            }
        } else {
            p2
        };
        Some(p3 - start)
    }
}

/// Matches a numeric literal.
pub fn match_number(cs: &[char], start: usize) -> (r: Option<usize>)
    requires
        start < cs@.len(),
    ensures
        r matches Some(n) ==> spec_match_number(cs@, start as int) == Some(n as int) && n >= 1,
        r is None ==> spec_match_number(cs@, start as int) is None,
{
    let len = cs.len();
    let mut pos = start;
    if cs[pos] == '+' || cs[pos] == '-' {
        pos += 1;
    }
    let int_start = pos;
    pos = run(cs, pos, CLASS_DIGIT);
    if pos == int_start {
        return None;
    }
    if pos < len && cs[pos] == '.' {
        let p = run(cs, pos + 1, CLASS_DIGIT);
        if p > pos + 1 {
            pos = p;
        }
    }
    if pos < len && (cs[pos] == 'e' || cs[pos] == 'E') {
        let mut p = pos + 1;
        if p < len && (cs[p] == '+' || cs[p] == '-') {
            p += 1;
        }
        let exp_start = p;
        p = run(cs, p, CLASS_DIGIT);
        if p > exp_start {
            pos = p;
        }
    }
    Some(pos - start)
}

/// Scans the body of a backtick-quoted identifier from `pos`: a doubled
/// backtick stands for one backtick, and a backslash ends the match.
pub open spec fn scan_ident(cs: Seq<char>, pos: int) -> Option<(int, Seq<char>)>
    decreases cs.len() - pos,
{
    if pos < 0 || pos >= cs.len() {
        None
    } else if cs[pos] == '`' {
        if pos + 1 < cs.len() && cs[pos + 1] == '`' {
            match scan_ident(cs, pos + 2) {
                Some((e, v)) => Some((e, seq!['`'] + v)),
                None => None,
            }
        } else {
            Some((pos + 1, Seq::empty()))
        }
    } else if cs[pos] == '\\' {
        None
    } else {
        match scan_ident(cs, pos + 1) {
            Some((e, v)) => Some((e, seq![cs[pos]] + v)),
            None => None,
        }
    }
}

pub open spec fn spec_match_ident_quoted(cs: Seq<char>, start: int) -> Option<(int, Seq<char>)> {
    if cs[start] != '`' {
        None
    } else {
        match scan_ident(cs, start + 1) {
            Some((e, v)) => Some((e - start, v)),
            None => None,
        }
    }
}

pub proof fn lemma_scan_ident(cs: Seq<char>, pos: int)
    ensures
        scan_ident(cs, pos) matches Some((e, v)) ==> pos < e <= cs.len(),
    decreases cs.len() - pos,
{
    if 0 <= pos < cs.len() {
        if cs[pos] == '`' {
            if pos + 1 < cs.len() && cs[pos + 1] == '`' {
                lemma_scan_ident(cs, pos + 2);
            }
        } else if cs[pos] != '\\' {
            lemma_scan_ident(cs, pos + 1);
        }
    }
}

/// Matches a backtick-quoted identifier; returns its length and name.
pub fn match_ident_quoted(cs: &[char], start: usize) -> (r: Option<(usize, Vec<char>)>)
    requires
        start < cs@.len(),
    ensures
        r matches Some((n, v)) ==> spec_match_ident_quoted(cs@, start as int) == Some((n as int, v@)),
        r is None ==> spec_match_ident_quoted(cs@, start as int) is None,
{
    if cs[start] != '`' {
        return None;
    }
    let len = cs.len();
    let mut pos = start + 1;
    let mut value: Vec<char> = Vec::new();
    while pos < len
        invariant
            start + 1 <= pos,
            len == cs@.len(),
            cs@[start as int] == '`',
            scan_ident(cs@, start + 1) == match scan_ident(cs@, pos as int) {
                Some((e, v)) => Some((e, value@ + v)),
                None => None,
            },
        decreases len - pos,
    {
        let c = cs[pos];
        if c == '`' {
            if pos + 1 < len && cs[pos + 1] == '`' {
                proof {
                    assert(forall|v: Seq<char>| value@.push('`') + v =~= value@ + (seq!['`'] + v));
                }
                value.push('`');
                pos += 2;
                continue;
            }
            assert(value@ + Seq::<char>::empty() =~= value@);
            return Some((pos + 1 - start, value));
        }
        if c == '\\' {
            return None;
        }
        proof {
            assert(forall|v: Seq<char>| value@.push(c) + v =~= value@ + (seq![c] + v));
        }
        value.push(c);
        pos += 1;
    }
    None
}

pub open spec fn spec_match_ident_unquoted(cs: Seq<char>, start: int) -> Option<int> {
    let e = run_end(cs, start, CLASS_IDENT);
    if e > start {
        Some(e - start)
    } else {
        None
    }
}

/// Matches an unquoted identifier: `[0-9a-zA-Z$_]+`.
pub fn match_ident_unquoted(cs: &[char], start: usize) -> (r: Option<usize>)
    requires
        start < cs@.len(),
    ensures
        r matches Some(n) ==> spec_match_ident_unquoted(cs@, start as int) == Some(n as int),
        r is None ==> spec_match_ident_unquoted(cs@, start as int) is None,
{
    let pos = run(cs, start, CLASS_IDENT);
    if pos > start {
        Some(pos - start)
    } else {
        None
    }
}

/// The fallback: the rest of the line, at least one character.
pub open spec fn spec_unknown_len(cs: Seq<char>, start: int) -> int {
    let e = run_end(cs, start, CLASS_NOT_EOL);
    if e - start > 0 {
        e - start
    } else {
        1
    }
}

// ---------------------------------------------------------------------------
// Tokens.

/// A token whose value is the raw matched text.
pub open spec fn raw_token(cs: Seq<char>, start: int, kind: SKind, n: int) -> (SToken, int) {
    (SToken { kind, value: cs.subrange(start, start + n) }, n)
}

/// The token at `start` and the number of characters it takes. The rules
/// are tried in order and the first that matches wins.
pub open spec fn spec_next_token(cs: Seq<char>, start: int) -> (SToken, int) {
    match first_keyword(cs, start, 0) {
        Some(k) => raw_token(cs, start, SKind::Keyword(spec_keyword(k)), spec_keyword(k).len() as int),
        None => match spec_match_ws(cs, start) {
            Some(n) => raw_token(cs, start, SKind::Ws, n),
            None => if cs[start] == '=' {
                raw_token(cs, start, SKind::Equal, 1)
            } else if cs[start] == '(' {
                raw_token(cs, start, SKind::LParens, 1)
            } else if cs[start] == ')' {
                raw_token(cs, start, SKind::RParens, 1)
            } else if cs[start] == ',' {
                raw_token(cs, start, SKind::Comma, 1)
            } else if cs[start] == ';' {
                raw_token(cs, start, SKind::Semicolon, 1)
            } else {
                match spec_match_bit(cs, start) {
                    Some(n) => raw_token(cs, start, SKind::BitFormat, n),
                    None => match spec_match_hexa(cs, start) {
                        Some(n) => raw_token(cs, start, SKind::HexaFormat, n),
                        None => match spec_match_quoted(cs, start, '"') {
                            Some((n, v)) => (SToken { kind: SKind::DQuoteString, value: v }, n),
                            None => match spec_match_quoted(cs, start, '\'') {
                                Some((n, v)) => (SToken { kind: SKind::SQuoteString, value: v }, n),
                                None => match spec_match_number(cs, start) {
                                    Some(n) => raw_token(cs, start, SKind::Number, n),
                                    None => match spec_match_ident_quoted(cs, start) {
                                        Some((n, v)) => (
                                            SToken { kind: SKind::IdentifierQuoted, value: v },
                                            n,
                                        ),
                                        None => match spec_match_ident_unquoted(cs, start) {
                                            Some(n) => raw_token(
                                                cs,
                                                start,
                                                SKind::IdentifierUnquoted,
                                                n,
                                            ),
                                            None => raw_token(
                                                cs,
                                                start,
                                                SKind::Unknown,
                                                spec_unknown_len(cs, start),
                                            ),
                                        },
                                    },
                                },
                            },
                        },
                    },
                }
            },
        },
    }
}

/// The tokens of `cs` from `pos` on.
pub open spec fn spec_lex(cs: Seq<char>, pos: int) -> Seq<SToken>
    decreases cs.len() - pos,
{
    if pos < 0 || pos >= cs.len() {
        Seq::empty()
    } else {
        let n = spec_next_token(cs, pos).1;
        if n >= 1 && pos + n <= cs.len() {
            seq![spec_next_token(cs, pos).0] + spec_lex(cs, pos + n)
        } else {
            Seq::empty()
        }
    }
}

/// The raw text each token of `cs` from `pos` on was matched from.
pub open spec fn spec_lex_raw(cs: Seq<char>, pos: int) -> Seq<Seq<char>>
    decreases cs.len() - pos,
{
    if pos < 0 || pos >= cs.len() {
        Seq::empty()
    } else {
        let n = spec_next_token(cs, pos).1;
        if n >= 1 && pos + n <= cs.len() {
            seq![cs.subrange(pos, pos + n)] + spec_lex_raw(cs, pos + n)
        } else {
            Seq::empty()
        }
    }
}

proof fn lemma_ws_total(cs: Seq<char>, pos: int)
    requires
        0 <= pos <= cs.len(),
    ensures
        pos <= ws_total(cs, pos) <= cs.len(),
    decreases cs.len() - pos,
{
    lemma_ws_round(cs, pos);
    let r = ws_round(cs, pos);
    if pos < r <= cs.len() {
        lemma_ws_total(cs, r);
    }
}

pub proof fn lemma_first_keyword(cs: Seq<char>, start: int, k: int)
    ensures
        first_keyword(cs, start, k) matches Some(i) ==> kw_matches(cs, start, spec_keyword(i)),
    decreases NUM_KEYWORDS - k,
{
    if 0 <= k < NUM_KEYWORDS && !kw_matches(cs, start, spec_keyword(k)) {
        lemma_first_keyword(cs, start, k + 1);
    }
}

/// Every token takes at least one character and stays within the input.
pub proof fn lemma_next_token_len(cs: Seq<char>, start: int)
    requires
        0 <= start < cs.len(),
    ensures
        1 <= spec_next_token(cs, start).1,
        start + spec_next_token(cs, start).1 <= cs.len(),
{
    lemma_first_keyword(cs, start, 0);
    lemma_ws_total(cs, start);
    if start + 2 <= cs.len() {
        lemma_run_end(cs, start + 2, CLASS_BIN);
        lemma_run_end(cs, start + 2, CLASS_HEX);
    }
    lemma_scan_quoted(cs, start + 1, '"');
    lemma_scan_quoted(cs, start + 1, '\'');
    lemma_scan_ident(cs, start + 1);
    lemma_run_end(cs, start, CLASS_IDENT);
    lemma_run_end(cs, start, CLASS_NOT_EOL);
    let p0 = if start < cs.len() && (cs[start] == '+' || cs[start] == '-') {
        start + 1
    } else {
        start
    };
    lemma_run_end(cs, p0, CLASS_DIGIT);
    let p1 = run_end(cs, p0, CLASS_DIGIT);
    if p1 < cs.len() {
        lemma_run_end(cs, p1 + 1, CLASS_DIGIT);
    }
    let p2 = if p1 < cs.len() && cs[p1] == '.' && run_end(cs, p1 + 1, CLASS_DIGIT) > p1 + 1 {
        run_end(cs, p1 + 1, CLASS_DIGIT)
    } else {
        p1
    };
    if p2 + 1 < cs.len() {
        lemma_run_end(cs, p2 + 2, CLASS_DIGIT);
    }
    if p2 < cs.len() {
        lemma_run_end(cs, p2 + 1, CLASS_DIGIT);
    }
}

/// The tokens cover the input: their raw texts, in order, make up the whole
/// input, and each takes at least one character.
pub proof fn law_tokens_cover_input(cs: Seq<char>, pos: int)
    requires
        0 <= pos <= cs.len(),
    ensures
        spec_lex_raw(cs, pos).flatten() == cs.subrange(pos, cs.len() as int),
        spec_lex_raw(cs, pos).len() == spec_lex(cs, pos).len(),
        forall|i: int| 0 <= i < spec_lex_raw(cs, pos).len() ==> #[trigger] spec_lex_raw(cs, pos)[i].len() >= 1,
    decreases cs.len() - pos,
{
    if pos < cs.len() {
        lemma_next_token_len(cs, pos);
        let n = spec_next_token(cs, pos).1;
        law_tokens_cover_input(cs, pos + n);
        let rest = spec_lex_raw(cs, pos + n);
        let all = seq![cs.subrange(pos, pos + n)] + rest;
        assert(all.drop_first() =~= rest);
        assert(all.flatten() == all[0] + all.drop_first().flatten());
        assert(cs.subrange(pos, cs.len() as int) =~= cs.subrange(pos, pos + n) + cs.subrange(
            pos + n,
            cs.len() as int,
        ));
        assert forall|i: int| 0 <= i < all.len() implies #[trigger] all[i].len() >= 1 by {
            if i > 0 {
                assert(all[i] == rest[i - 1]);
            }
        }
    } else {
        assert(spec_lex_raw(cs, pos) =~= Seq::<Seq<char>>::empty());
        assert(cs.subrange(pos, cs.len() as int) =~= Seq::<char>::empty());
    }
}

/// Apart from quoted strings and quoted identifiers, a token's value is the
/// text it was matched from.
pub proof fn law_token_value_is_raw(cs: Seq<char>, pos: int, i: int)
    requires
        0 <= pos <= cs.len(),
        0 <= i < spec_lex(cs, pos).len(),
        !(spec_lex(cs, pos)[i].kind is DQuoteString),
        !(spec_lex(cs, pos)[i].kind is SQuoteString),
        !(spec_lex(cs, pos)[i].kind is IdentifierQuoted),
    ensures
        i < spec_lex_raw(cs, pos).len(),
        spec_lex(cs, pos)[i].value == spec_lex_raw(cs, pos)[i],
    decreases cs.len() - pos,
{
    if pos < cs.len() {
        lemma_next_token_len(cs, pos);
        let n = spec_next_token(cs, pos).1;
        if i > 0 {
            law_token_value_is_raw(cs, pos + n, i - 1);
        }
    }
}

/// Text without quote characters lexes to no quoted strings and no quoted
/// identifiers: every token's value is then the raw text it was matched from.
pub proof fn law_no_quotes_no_quoted_tokens(cs: Seq<char>, pos: int)
    requires
        0 <= pos <= cs.len(),
        forall|j: int| pos <= j < cs.len() ==> cs[j] != '"' && cs[j] != '\'' && cs[j] != '`',
    ensures
        forall|i: int|
            0 <= i < spec_lex(cs, pos).len() ==> {
                let k = #[trigger] spec_lex(cs, pos)[i].kind;
                !(k is DQuoteString) && !(k is SQuoteString) && !(k is IdentifierQuoted)
            },
    decreases cs.len() - pos,
{
    if pos < cs.len() {
        lemma_next_token_len(cs, pos);
        let n = spec_next_token(cs, pos).1;
        law_no_quotes_no_quoted_tokens(cs, pos + n);
        let t = spec_next_token(cs, pos).0;
        assert(!(t.kind is DQuoteString) && !(t.kind is SQuoteString) && !(t.kind is IdentifierQuoted));
        assert forall|i: int| 0 <= i < spec_lex(cs, pos).len() implies {
            let k = #[trigger] spec_lex(cs, pos)[i].kind;
            !(k is DQuoteString) && !(k is SQuoteString) && !(k is IdentifierQuoted)
        } by {
            if i > 0 {
                assert(spec_lex(cs, pos)[i] == spec_lex(cs, pos + n)[i - 1]);
            }
        }
    }
}

/// Whether a text holds neither the quote `q` nor a backslash: inside a
/// string quoted by `q` it stands for itself.
pub open spec fn plain_in_quotes(s: Seq<char>, q: char) -> bool {
    forall|j: int| 0 <= j < s.len() ==> s[j] != q && s[j] != '\\'
}

/// A run of plain characters inside a quoted string is kept as it is.
proof fn lemma_scan_plain(cs: Seq<char>, pos: int, q: char, s: Seq<char>)
    requires
        0 <= pos,
        pos + s.len() <= cs.len(),
        cs.subrange(pos, pos + s.len()) == s,
        plain_in_quotes(s, q),
    ensures
        scan_quoted(cs, pos, q) == match scan_quoted(cs, pos + s.len(), q) {
            Some((e, v)) => Some((e, s + v)),
            None => None,
        },
    decreases s.len(),
{
    if s.len() == 0 {
        assert(forall|v: Seq<char>| s + v =~= v);
    } else {
        let t = s.drop_first();
        assert(cs.subrange(pos + 1, pos + 1 + t.len()) =~= t);
        assert(cs[pos] == s[0]);
        lemma_scan_plain(cs, pos + 1, q, t);
        assert(forall|v: Seq<char>| seq![s[0]] + (t + v) =~= s + v);
    }
}

/// A doubled quote inside a quoted string decodes to one quote: for texts
/// `s1` and `s2` without the quote or a backslash, the string
/// `q s1 q q s2 q`, when no quote follows it, is matched whole and decodes
/// to `s1 q s2`.
pub proof fn law_doubled_quote_decodes_to_one(cs: Seq<char>, start: int, q: char, s1: Seq<char>, s2: Seq<char>)
    requires
        0 <= start,
        plain_in_quotes(s1, q),
        plain_in_quotes(s2, q),
        start + s1.len() + s2.len() + 4 <= cs.len(),
        cs.subrange(start, start + s1.len() + s2.len() + 4) == seq![q] + s1 + seq![q, q] + s2 + seq![q],
        start + s1.len() + s2.len() + 4 == cs.len() || cs[start + s1.len() + s2.len() + 4] != q,
    ensures
        spec_match_quoted(cs, start, q) == Some(((s1.len() + s2.len() + 4) as int, s1 + seq![q] + s2)),
{
    let pat = seq![q] + s1 + seq![q, q] + s2 + seq![q];
    let n1 = s1.len() as int;
    let n2 = s2.len() as int;
    let p1 = start + 1;
    let p2 = p1 + n1 + 2;
    let p3 = p2 + n2;
    assert forall|j: int| 0 <= j < pat.len() implies cs[start + j] == #[trigger] pat[j] by {
        assert(cs.subrange(start, start + n1 + n2 + 4)[j] == cs[start + j]);
    }
    assert(cs[start] == pat[0]);
    assert(cs[p1 + n1] == pat[1 + n1]);
    assert(cs[p1 + n1 + 1] == pat[2 + n1]);
    assert(cs[p3] == pat[n1 + n2 + 3]);
    assert(cs.subrange(p1, p1 + n1) =~= s1) by {
        assert forall|j: int| 0 <= j < n1 implies cs.subrange(p1, p1 + n1)[j] == s1[j] by {
            assert(cs[p1 + j] == pat[1 + j]);
        }
    }
    assert(cs.subrange(p2, p2 + n2) =~= s2) by {
        assert forall|j: int| 0 <= j < n2 implies cs.subrange(p2, p2 + n2)[j] == s2[j] by {
            assert(cs[p2 + j] == pat[n1 + 3 + j]);
        }
    }
    assert(scan_quoted(cs, p3, q) == Some((p3 + 1, Seq::<char>::empty())));
    lemma_scan_plain(cs, p2, q, s2);
    assert(s2 + Seq::<char>::empty() =~= s2);
    assert(scan_quoted(cs, p2, q) == Some((p3 + 1, s2)));
    assert(scan_quoted(cs, p1 + n1, q) == Some((p3 + 1, seq![q] + s2)));
    lemma_scan_plain(cs, p1, q, s1);
    assert(s1 + (seq![q] + s2) =~= s1 + seq![q] + s2);
    assert(scan_quoted(cs, p1, q) == Some((p3 + 1, s1 + seq![q] + s2)));
}

/// A backslash pair inside a quoted string: a backslash before the quote
/// decodes to the quote, and before any other character both are kept. For
/// texts `s1` and `s2` without the quote or a backslash, the string
/// `q s1 \ c s2 q`, when no quote follows it, is matched whole and decodes
/// to `s1 q s2` when `c` is the quote, and to `s1 \ c s2` otherwise.
pub proof fn law_backslash_pair_decodes(
    cs: Seq<char>,
    start: int,
    q: char,
    s1: Seq<char>,
    c: char,
    s2: Seq<char>,
)
    requires
        0 <= start,
        plain_in_quotes(s1, q),
        plain_in_quotes(s2, q),
        q != '\\',
        start + s1.len() + s2.len() + 4 <= cs.len(),
        cs.subrange(start, start + s1.len() + s2.len() + 4) == seq![q] + s1 + seq!['\\', c] + s2 + seq![q],
        start + s1.len() + s2.len() + 4 == cs.len() || cs[start + s1.len() + s2.len() + 4] != q,
    ensures
        spec_match_quoted(cs, start, q) == Some(
            (
                (s1.len() + s2.len() + 4) as int,
                s1 + (if c == q {
                    seq![q]
                } else {
                    seq!['\\', c]
                }) + s2,
            ),
        ),
{
    let pat = seq![q] + s1 + seq!['\\', c] + s2 + seq![q];
    let pre = if c == q {
        seq![q]
    } else {
        seq!['\\', c]
    };
    let n1 = s1.len() as int;
    let n2 = s2.len() as int;
    let p1 = start + 1;
    let p2 = p1 + n1 + 2;
    let p3 = p2 + n2;
    assert forall|j: int| 0 <= j < pat.len() implies cs[start + j] == #[trigger] pat[j] by {
        assert(cs.subrange(start, start + n1 + n2 + 4)[j] == cs[start + j]);
    }
    assert(cs[start] == pat[0]);
    assert(cs[p1 + n1] == pat[1 + n1]);
    assert(cs[p1 + n1 + 1] == pat[2 + n1]);
    assert(cs[p3] == pat[n1 + n2 + 3]);
    assert(cs.subrange(p1, p1 + n1) =~= s1) by {
        assert forall|j: int| 0 <= j < n1 implies cs.subrange(p1, p1 + n1)[j] == s1[j] by {
            assert(cs[p1 + j] == pat[1 + j]);
        }
    }
    assert(cs.subrange(p2, p2 + n2) =~= s2) by {
        assert forall|j: int| 0 <= j < n2 implies cs.subrange(p2, p2 + n2)[j] == s2[j] by {
            assert(cs[p2 + j] == pat[n1 + 3 + j]);
        }
    }
    assert(scan_quoted(cs, p3, q) == Some((p3 + 1, Seq::<char>::empty())));
    lemma_scan_plain(cs, p2, q, s2);
    assert(s2 + Seq::<char>::empty() =~= s2);
    assert(scan_quoted(cs, p2, q) == Some((p3 + 1, s2)));
    assert(scan_quoted(cs, p1 + n1, q) == Some((p3 + 1, pre + s2)));
    lemma_scan_plain(cs, p1, q, s1);
    assert(s1 + (pre + s2) =~= s1 + pre + s2);
    assert(scan_quoted(cs, p1, q) == Some((p3 + 1, s1 + pre + s2)));
}

/// A token whose value is the raw matched text.
fn tok(kind: TokenKind, cs: &[char], start: usize, len: usize) -> (r: Token)
    requires
        start + len <= cs@.len(),
    ensures
        r@ == raw_token(cs@, start as int, kind@, len as int).0,
{
    let _n = cs.len();
    let slice = slice_subrange(cs, start, start + len);
    Token { kind, value: chars_to_string(slice) }
}

/// Matches one token at `start`; returns the token and its length.
pub fn next_token(cs: &[char], start: usize) -> (r: (Token, usize))
    requires
        start < cs@.len(),
    ensures
        (r.0@, r.1 as int) == spec_next_token(cs@, start as int),
        1 <= r.1,
        start + r.1 <= cs@.len(),
{
    proof {
        lemma_next_token_len(cs@, start as int);
    }
    let mut k: usize = 0;
    while k < NUM_KEYWORDS
        invariant
            0 <= k <= NUM_KEYWORDS,
            start < cs@.len(),
            first_keyword(cs@, start as int, 0) == first_keyword(cs@, start as int, k as int),
        decreases NUM_KEYWORDS - k,
    {
        let name = keyword_name(k);
        if let Some(len) = match_keyword(cs, start, name) {
            let t = tok(TokenKind::Keyword(string_of(name)), cs, start, len);
            return (t, len);
        }
        k += 1;
    }
    if let Some(len) = match_ws(cs, start) {
        return (tok(TokenKind::Ws, cs, start, len), len);
    }
    if cs[start] == '=' {
        return (tok(TokenKind::Equal, cs, start, 1), 1);
    }
    if cs[start] == '(' {
        return (tok(TokenKind::LParens, cs, start, 1), 1);
    }
    if cs[start] == ')' {
        return (tok(TokenKind::RParens, cs, start, 1), 1);
    }
    if cs[start] == ',' {
        return (tok(TokenKind::Comma, cs, start, 1), 1);
    }
    if cs[start] == ';' {
        return (tok(TokenKind::Semicolon, cs, start, 1), 1);
    }
    if let Some(len) = match_bit(cs, start) {
        return (tok(TokenKind::BitFormat, cs, start, len), len);
    }
    if let Some(len) = match_hexa(cs, start) {
        return (tok(TokenKind::HexaFormat, cs, start, len), len);
    }
    if let Some((len, value)) = match_quoted(cs, start, '"') {
        return (Token { kind: TokenKind::DQuoteString, value: chars_to_string(value.as_slice()) }, len);
    }
    if let Some((len, value)) = match_quoted(cs, start, '\'') {
        return (Token { kind: TokenKind::SQuoteString, value: chars_to_string(value.as_slice()) }, len);
    }
    if let Some(len) = match_number(cs, start) {
        return (tok(TokenKind::Number, cs, start, len), len);
    }
    if let Some((len, value)) = match_ident_quoted(cs, start) {
        return (
            Token { kind: TokenKind::IdentifierQuoted, value: chars_to_string(value.as_slice()) },
            len,
        );
    }
    if let Some(len) = match_ident_unquoted(cs, start) {
        return (tok(TokenKind::IdentifierUnquoted, cs, start, len), len);
    }
    let end = run(cs, start, CLASS_NOT_EOL);
    let unknown_len = if end - start > 0 {
        end - start
    } else {
        1
    };
    (tok(TokenKind::Unknown, cs, start, unknown_len), unknown_len)
}

/// Tokenizes a whole statement, whitespace tokens included. Every input
/// tokenizes: a character that starts no other token starts an `Unknown`
/// token.
pub fn tokenize(input: &str) -> (r: Result<Vec<Token>, LexError>)
    ensures
        r matches Ok(ts) && view_tokens(ts@) == spec_lex(input@, 0),
{
    let cs = chars_of(input);
    let mut pos: usize = 0;
    let mut tokens: Vec<Token> = Vec::new();
    while pos < cs.len()
        invariant
            0 <= pos <= cs@.len(),
            cs@ == input@,
            spec_lex(cs@, 0) == view_tokens(tokens@) + spec_lex(cs@, pos as int),
        decreases cs@.len() - pos,
    {
        let (t, n) = next_token(cs.as_slice(), pos);
        proof {
            assert(view_tokens(tokens@.push(t)) =~= view_tokens(tokens@).push(t@));
            assert(spec_lex(cs@, pos as int) == seq![t@] + spec_lex(cs@, (pos + n) as int));
            assert(view_tokens(tokens@).push(t@) + spec_lex(cs@, (pos + n) as int)
                =~= view_tokens(tokens@) + (seq![t@] + spec_lex(cs@, (pos + n) as int)));
        }
        tokens.push(t);
        pos += n;
    }
    assert(spec_lex(cs@, pos as int) =~= Seq::<SToken>::empty());
    assert(view_tokens(tokens@) + Seq::<SToken>::empty() =~= view_tokens(tokens@));
    Ok(tokens)
}

} // verus!
