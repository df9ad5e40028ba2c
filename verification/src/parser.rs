//! The public `Parser`: a streaming statement splitter, statement parsing,
//! and the two formatters.

use vstd::prelude::*;

use crate::compact::util::{nat_text, push_nat_text};
use crate::compact::{format_error, spec_compact};
use crate::grammar::{furthest_reached, parse_statement, spec_line_at, spec_parse_statement};
use crate::json::{chars_of, chars_to_string, concat2, concat3, is_node, str_eq, string_of, view_arr, Json, JsonV};
use crate::json_schema::spec_table_schema;
use crate::lexer::spec_lex;

verus! {

/// An error of the parser.
#[derive(Debug, Clone)]
pub enum Error {
    /// The constructor was given a dialect it does not support.
    UnsupportedDialect(String),
    /// A statement failed to parse; the message names the line in the fed
    /// text.
    Parse(String),
    /// A formatter was given JSON that is not the root of a parse tree.
    Format(String),
}

/// The message of an unsupported dialect.
pub open spec fn dialect_message(d: Seq<char>) -> Seq<char> {
    "Unsupported SQL dialect given to parser: '"@ + d
        + ". Please provide 'mysql', 'mariadb' or none to use default."@
}

/// The message of an error.
pub open spec fn error_message(e: Error) -> Seq<char> {
    match e {
        Error::UnsupportedDialect(d) => dialect_message(d@),
        Error::Parse(m) => m@,
        Error::Format(m) => m@,
    }
}

impl Error {
    /// The message of this error.
    pub fn to_string(&self) -> (r: String)
        ensures
            r@ == error_message(*self),
    {
        match self {
            Error::UnsupportedDialect(d) => concat3(
                "Unsupported SQL dialect given to parser: '",
                d.as_str(),
                ". Please provide 'mysql', 'mariadb' or none to use default.",
            ),
            Error::Parse(m) => m.clone(),
            Error::Format(m) => m.clone(),
        }
    }
}

/// Options for JSON Schema output.
#[derive(Debug, Clone, Copy)]
pub struct JsonSchemaOptions {
    /// Whether column schemas stand under `definitions` and `properties`
    /// refers to them with `$ref`. Without it, the schemas stand under
    /// `properties`.
    pub use_ref: bool,
}

impl Default for JsonSchemaOptions {
    fn default() -> (r: Self)
        ensures
            r.use_ref,
    {
        JsonSchemaOptions { use_ref: true }
    }
}

/// Where the splitter stands with respect to comments: in code, after a
/// `-`, after `--`, after a `/`, in a line comment, in a block comment, or
/// in a block comment after a `*`.
#[derive(Debug, Clone, Copy, PartialEq, Eq, Structural)]
pub enum Comment {
    Code,
    Dash,
    DashDash,
    Slash,
    Line,
    Block,
    BlockStar,
}

/// Whether a character opens or closes a quoted region.
pub open spec fn spec_is_quote(c: char) -> bool {
    c == '"' || c == '\'' || c == '`'
}

/// One character of code: a backslash toggles the escape; an unescaped quote
/// opens a region or closes the one it opened; a semicolon outside quotes
/// ends a statement, escaped or not. Gives the escape, the open quote, and
/// whether the statement ends.
pub open spec fn code_step(escaped: bool, quoted: Option<char>, c: char) -> (bool, Option<char>, bool) {
    if c == '\\' {
        (!escaped, quoted, false)
    } else if !escaped && spec_is_quote(c) {
        (
            false,
            match quoted {
                Some(open) => if open == c {
                    None
                } else {
                    Some(open)
                },
                None => Some(c),
            },
            false,
        )
    } else if c == ';' && quoted is None {
        (false, quoted, true)
    } else {
        (false, quoted, false)
    }
}

/// One character where a comment may start: `#`, `-` and `/` outside quotes
/// and escapes begin one, anything else is code.
pub open spec fn code_or_comment(escaped: bool, quoted: Option<char>, c: char) -> (bool, Option<char>, Comment, bool) {
    if !escaped && quoted is None && c == '#' {
        (false, quoted, Comment::Line, false)
    } else if !escaped && quoted is None && c == '-' {
        (false, quoted, Comment::Dash, false)
    } else if !escaped && quoted is None && c == '/' {
        (false, quoted, Comment::Slash, false)
    } else {
        let (e, q, split) = code_step(escaped, quoted, c);
        (e, q, Comment::Code, split)
    }
}

/// One character of the splitter: comments (`#` and `-- ` to the end of the
/// line, `/* ... */`) hide quotes and semicolons; elsewhere `code_or_comment`
/// applies.
pub open spec fn scan_step(escaped: bool, quoted: Option<char>, comment: Comment, c: char) -> (
    bool,
    Option<char>,
    Comment,
    bool,
) {
    match comment {
        Comment::Line => if c == '\n' || c == '\r' {
            (escaped, quoted, Comment::Code, false)
        } else {
            (escaped, quoted, Comment::Line, false)
        },
        Comment::Block => if c == '*' {
            (escaped, quoted, Comment::BlockStar, false)
        } else {
            (escaped, quoted, Comment::Block, false)
        },
        Comment::BlockStar => if c == '/' {
            (escaped, quoted, Comment::Code, false)
        } else if c == '*' {
            (escaped, quoted, Comment::BlockStar, false)
        } else {
            (escaped, quoted, Comment::Block, false)
        },
        Comment::Dash => if c == '-' {
            (false, quoted, Comment::DashDash, false)
        } else {
            code_or_comment(escaped, quoted, c)
        },
        Comment::DashDash => if c == ' ' {
            (false, quoted, Comment::Line, false)
        } else {
            code_or_comment(escaped, quoted, c)
        },
        Comment::Slash => if c == '*' {
            (false, quoted, Comment::Block, false)
        } else {
            code_or_comment(escaped, quoted, c)
        },
        Comment::Code => code_or_comment(escaped, quoted, c),
    }
}

/// The value of a [`Parser`]: the statements split so far, the text of the
/// statement still open, and the splitter's state.
pub struct ParserV {
    pub statements: Seq<Seq<char>>,
    pub remains: Seq<char>,
    pub escaped: bool,
    pub quoted: Option<char>,
    pub comment: Comment,
}

/// One character fed to the splitter: it joins the open statement, which is
/// closed when the character ends it.
pub open spec fn feed_char(p: ParserV, c: char) -> ParserV {
    let (e, q, m, split) = scan_step(p.escaped, p.quoted, p.comment, c);
    let buf = p.remains.push(c);
    if split {
        ParserV { statements: p.statements.push(buf), remains: Seq::empty(), escaped: e, quoted: q, comment: m }
    } else {
        ParserV { statements: p.statements, remains: buf, escaped: e, quoted: q, comment: m }
    }
}

/// Text fed to the splitter, character by character.
pub open spec fn feed_spec(p: ParserV, cs: Seq<char>) -> ParserV
    decreases cs.len(),
{
    if cs.len() == 0 {
        p
    } else {
        feed_char(feed_spec(p, cs.drop_last()), cs.last())
    }
}

/// A parser with nothing fed.
pub open spec fn fresh() -> ParserV {
    ParserV {
        statements: Seq::empty(),
        remains: Seq::empty(),
        escaped: false,
        quoted: None,
        comment: Comment::Code,
    }
}

/// The texts joined end to end.
pub open spec fn flat(ss: Seq<Seq<char>>) -> Seq<char>
    decreases ss.len(),
{
    if ss.len() == 0 {
        Seq::empty()
    } else {
        flat(ss.drop_last()) + ss.last()
    }
}

/// Feeding text in two chunks is feeding it at once.
pub proof fn law_feed_chunks(p: ParserV, a: Seq<char>, b: Seq<char>)
    ensures
        feed_spec(feed_spec(p, a), b) == feed_spec(p, a + b),
    decreases b.len(),
{
    if b.len() == 0 {
        assert(a + b =~= a);
    } else {
        law_feed_chunks(p, a, b.drop_last());
        assert((a + b).drop_last() =~= a + b.drop_last());
        assert((a + b).last() == b.last());
    }
}

/// Nothing fed is lost or changed: the statements and the open statement
/// hold what they held before, then the fed text.
pub proof fn law_feed_keeps_text(p: ParserV, cs: Seq<char>)
    ensures
        flat(feed_spec(p, cs).statements) + feed_spec(p, cs).remains == flat(p.statements) + p.remains + cs,
    decreases cs.len(),
{
    if cs.len() > 0 {
        law_feed_keeps_text(p, cs.drop_last());
        let q = feed_spec(p, cs.drop_last());
        let r = feed_spec(p, cs);
        assert(cs =~= cs.drop_last().push(cs.last()));
        if r.statements.len() > q.statements.len() {
            assert(r.statements.drop_last() =~= q.statements);
            assert(flat(r.statements) + r.remains =~= flat(q.statements) + q.remains.push(cs.last()));
        } else {
            assert(flat(r.statements) + r.remains =~= flat(q.statements) + q.remains.push(cs.last()));
        }
        assert(flat(p.statements) + p.remains + cs =~= (flat(p.statements) + p.remains + cs.drop_last()).push(cs.last()));
    }
}

/// Every statement the splitter closes ends with a semicolon.
pub proof fn law_statements_end_with_semicolon(p: ParserV, cs: Seq<char>)
    requires
        forall|i: int| 0 <= i < p.statements.len() ==> (#[trigger] p.statements[i]).len() > 0
            && p.statements[i].last() == ';',
    ensures
        forall|i: int| 0 <= i < feed_spec(p, cs).statements.len() ==> (#[trigger] feed_spec(p, cs).statements[i]).len() > 0
            && feed_spec(p, cs).statements[i].last() == ';',
    decreases cs.len(),
{
    if cs.len() > 0 {
        law_statements_end_with_semicolon(p, cs.drop_last());
        let q = feed_spec(p, cs.drop_last());
        let c = cs.last();
        let (e, qu, m, split) = scan_step(q.escaped, q.quoted, q.comment, c);
        if split {
            assert(c == ';');
        }
    }
}

/// The number of line breaks in a text: `\r\n`, `\r` and `\n` count one
/// each.
pub open spec fn line_breaks(s: Seq<char>) -> nat
    decreases s.len(),
{
    if s.len() == 0 {
        0
    } else if s[0] == '\r' && s.len() > 1 && s[1] == '\n' {
        1 + line_breaks(s.skip(2))
    } else if s[0] == '\r' || s[0] == '\n' {
        1 + line_breaks(s.skip(1))
    } else {
        line_breaks(s.skip(1))
    }
}

/// Counts the line breaks of a text.
pub fn count_line_breaks(s: &str) -> (r: usize)
    ensures
        r == (if line_breaks(s@) <= usize::MAX {
            line_breaks(s@) as int
        } else {
            usize::MAX as int
        }),
{
    let cs = chars_of(s);
    let mut count: usize = 0;
    let mut i: usize = 0;
    assert(cs@.skip(0) =~= cs@);
    while i < cs.len()
        invariant
            0 <= i <= cs.len(),
            cs@ == s@,
            count + line_breaks(cs@.skip(i as int)) == line_breaks(cs@) || count == usize::MAX,
            count <= line_breaks(cs@),
            count == usize::MAX ==> line_breaks(cs@) >= usize::MAX,
        decreases cs.len() - i,
    {
        let ghost rest = cs@.skip(i as int);
        if cs[i] == '\r' {
            if i + 1 < cs.len() && cs[i + 1] == '\n' {
                assert(rest.skip(2) =~= cs@.skip(i + 2));
                i += 2;
            } else {
                assert(rest.skip(1) =~= cs@.skip(i + 1));
                i += 1;
            }
            if count < usize::MAX {
                count += 1;
            }
        } else if cs[i] == '\n' {
            assert(rest.skip(1) =~= cs@.skip(i + 1));
            i += 1;
            if count < usize::MAX {
                count += 1;
            }
        } else {
            assert(rest.skip(1) =~= cs@.skip(i + 1));
            i += 1;
        }
    }
    assert(cs@.skip(i as int).len() == 0);
    count
}

/// Whether a character opens or closes a quoted region.
pub fn is_quote_char(ch: Option<char>) -> (r: bool)
    ensures
        r == (ch matches Some(c) && spec_is_quote(c)),
{
    match ch {
        Some(c) => c == '"' || c == '\'' || c == '`',
        None => false,
    }
}

/// One character of the splitter.
fn scan(escaped: bool, quoted: Option<char>, comment: Comment, c: char) -> (r: (bool, Option<char>, Comment, bool))
    ensures
        r == scan_step(escaped, quoted, comment, c),
{
    match comment {
        Comment::Line => if c == '\n' || c == '\r' {
            (escaped, quoted, Comment::Code, false)
        } else {
            (escaped, quoted, Comment::Line, false)
        },
        Comment::Block => if c == '*' {
            (escaped, quoted, Comment::BlockStar, false)
        } else {
            (escaped, quoted, Comment::Block, false)
        },
        Comment::BlockStar => if c == '/' {
            (escaped, quoted, Comment::Code, false)
        } else if c == '*' {
            (escaped, quoted, Comment::BlockStar, false)
        } else {
            (escaped, quoted, Comment::Block, false)
        },
        Comment::Dash => if c == '-' {
            (false, quoted, Comment::DashDash, false)
        } else {
            code_or_comment_step(escaped, quoted, c)
        },
        Comment::DashDash => if c == ' ' {
            (false, quoted, Comment::Line, false)
        } else {
            code_or_comment_step(escaped, quoted, c)
        },
        Comment::Slash => if c == '*' {
            (false, quoted, Comment::Block, false)
        } else {
            code_or_comment_step(escaped, quoted, c)
        },
        Comment::Code => code_or_comment_step(escaped, quoted, c),
    }
}

/// One character where a comment may start.
fn code_or_comment_step(escaped: bool, quoted: Option<char>, c: char) -> (r: (bool, Option<char>, Comment, bool))
    ensures
        r == code_or_comment(escaped, quoted, c),
{
    if !escaped && quoted.is_none() && c == '#' {
        (false, quoted, Comment::Line, false)
    } else if !escaped && quoted.is_none() && c == '-' {
        (false, quoted, Comment::Dash, false)
    } else if !escaped && quoted.is_none() && c == '/' {
        (false, quoted, Comment::Slash, false)
    } else if c == '\\' {
        (!escaped, quoted, Comment::Code, false)
    } else if !escaped && is_quote_char(Some(c)) {
        let q = match quoted {
            Some(open) => if open == c {
                None
            } else {
                Some(open)
            },
            None => Some(c),
        };
        (false, q, Comment::Code, false)
    } else if c == ';' && quoted.is_none() {
        (false, quoted, Comment::Code, true)
    } else {
        (false, quoted, Comment::Code, false)
    }
}

/// The text of a natural number.
fn usize_text(n: usize) -> (r: String)
    ensures
        r@ == nat_text(n as nat),
{
    let mut out: Vec<char> = Vec::new();
    push_nat_text(&mut out, n as u64);
    assert(out@ =~= nat_text(n as nat));
    chars_to_string(out.as_slice())
}

/// The line breaks of the first `j` statements, from line 1.
pub open spec fn lines_before(stmts: Seq<Seq<char>>, j: int) -> nat
    decreases j,
{
    if j <= 0 {
        0
    } else {
        lines_before(stmts, j - 1) + line_breaks(stmts[j - 1])
    }
}

/// How many statements are parsed: those before the first empty one.
pub open spec fn parsed_count(stmts: Seq<Seq<char>>) -> int {
    match super::compact::util::first_index(stmts, |s: Seq<char>| s.len() == 0) {
        Some(k) => k,
        None => stmts.len() as int,
    }
}

/// A number capped at the largest `usize`.
pub open spec fn cap(n: int) -> int {
    if n <= usize::MAX {
        n
    } else {
        usize::MAX as int
    }
}

/// The message of a statement that fails to parse at line `line` of its own
/// text, when the statements before it hold `before` line breaks.
pub open spec fn parse_message(before: nat, line: int) -> Seq<char> {
    "invalid syntax at line "@ + nat_text(cap(cap((1 + before) as int) + line - 1) as nat)
}

/// The statements that are parsed: those before the first empty one.
pub open spec fn parsed(stmts: Seq<Seq<char>>) -> Seq<Seq<char>> {
    stmts.take(parsed_count(stmts))
}

/// The first parsed statement that is no statement of the grammar.
pub open spec fn first_failure(stmts: Seq<Seq<char>>) -> Option<int> {
    super::compact::util::first_index(parsed(stmts), |s: Seq<char>| spec_parse_statement(s) is None)
}

/// Whether `m` is the message of a failure to parse statement `j`: the line
/// in the fed text of the furthest token any rule reached in that statement.
pub open spec fn failure_message(stmts: Seq<Seq<char>>, j: int, m: Seq<char>) -> bool {
    m == parse_message(
        lines_before(stmts, j),
        spec_line_at(spec_lex(stmts[j], 0), furthest_reached(spec_lex(stmts[j], 0))),
    )
}

/// The JSON Schema documents of compact tables.
pub open spec fn schemas_of(tables: Seq<JsonV>, use_ref: bool) -> Seq<JsonV> {
    tables.map_values(|x: JsonV| spec_table_schema(x, use_ref))
}

/// The parse trees of the first `n` statements.
pub open spec fn trees(stmts: Seq<Seq<char>>, n: int) -> Seq<JsonV> {
    Seq::new(n as nat, |j: int| spec_parse_statement(stmts[j])->Some_0)
}

/// The root of the parse trees of all parsed statements.
pub open spec fn main_tree(stmts: Seq<Seq<char>>) -> JsonV {
    JsonV::Obj(
        seq![("id"@, JsonV::Str("MAIN"@)), ("def"@, JsonV::Arr(trees(stmts, parsed_count(stmts))))],
    )
}

/// Parser for MySQL and MariaDB DDL.
///
/// Feed SQL in one or more chunks, then read the parse tree, the compact
/// table model, or JSON Schema documents.
pub struct Parser {
    statements: Vec<String>,
    remains: Vec<char>,
    escaped: bool,
    quoted: Option<char>,
    comment: Comment,
}

impl View for Parser {
    type V = ParserV;

    closed spec fn view(&self) -> ParserV {
        ParserV {
            statements: self.statements@.map_values(|s: String| s@),
            remains: self.remains@,
            escaped: self.escaped,
            quoted: self.quoted,
            comment: self.comment,
        }
    }
}

/// Whether a dialect is supported: empty, `mysql` or `mariadb`.
pub open spec fn supported_dialect(d: Seq<char>) -> bool {
    d.len() == 0 || d == "mysql"@ || d == "mariadb"@
}

impl Parser {
    /// Builds a parser for a dialect: empty, `mysql` and `mariadb` select the
    /// MySQL grammar; any other is refused.
    pub fn new(dialect: &str) -> (r: Result<Parser, Error>)
        ensures
            r is Ok <==> supported_dialect(dialect@),
            r matches Ok(p) ==> p@ == fresh(),
            r matches Err(e) ==> e matches Error::UnsupportedDialect(d) && d@ == dialect@,
    {
        if dialect.unicode_len() == 0 || str_eq(dialect, "mysql") || str_eq(dialect, "mariadb") {
            let p = Parser {
                statements: Vec::new(),
                remains: Vec::new(),
                escaped: false,
                quoted: None,
                comment: Comment::Code,
            };
            assert(p@.statements =~= Seq::<Seq<char>>::empty());
            Ok(p)
        } else {
            Err(Error::UnsupportedDialect(string_of(dialect)))
        }
    }

    /// Feeds a chunk of SQL: statements are split at semicolons outside
    /// quotes and comments, and the state carries over to the next chunk.
    pub fn feed(&mut self, chunk: &str) -> (r: &mut Self)
        ensures
            (*r)@ == feed_spec(old(self)@, chunk@),
            *final(self) == *final(r),
    {
        let cs = chars_of(chunk);
        let mut i: usize = 0;
        while i < cs.len()
            invariant
                0 <= i <= cs.len(),
                self@ == feed_spec(old(self)@, cs@.take(i as int)),
            decreases cs.len() - i,
        {
            let c = cs[i];
            assert(cs@.take(i + 1).drop_last() =~= cs@.take(i as int));
            let ghost before = self@;
            let (e, q, m, split) = scan(self.escaped, self.quoted, self.comment, c);
            self.remains.push(c);
            if split {
                let st = chars_to_string(self.remains.as_slice());
                let ghost old_st = self.statements@;
                self.statements.push(st);
                self.remains = Vec::new();
                assert(self.statements@.map_values(|s: String| s@) =~= old_st.map_values(|s: String| s@).push(st@));
            }
            self.escaped = e;
            self.quoted = q;
            self.comment = m;
            assert(self@ == feed_char(before, c)) by {
                assert(self@.remains =~= feed_char(before, c).remains);
                assert(self@.statements =~= feed_char(before, c).statements);
            }
            i += 1;
        }
        assert(cs@.take(cs.len() as int) =~= cs@);
        self
    }

    /// Empties the parser.
    fn reset(&mut self)
        ensures
            final(self)@ == fresh(),
    {
        self.statements = Vec::new();
        self.remains = Vec::new();
        self.escaped = false;
        self.quoted = None;
        self.comment = Comment::Code;
        assert(self@.statements =~= Seq::<Seq<char>>::empty());
    }

    /// Parses the statements fed so far into the root `{ id: "MAIN", def }`
    /// of a parse tree, one `P_DDS` node per statement up to the first empty
    /// one, and empties the parser. On a statement that fails to parse the
    /// error names the line, in the fed text, of the token where parsing
    /// broke.
    pub fn results(&mut self) -> (r: Result<Json, Error>)
        ensures
            final(self)@ == fresh(),
            r matches Ok(v) ==> v@ is Obj && v@->Obj_0.len() == 2 && v@->Obj_0[0] == ("id"@, JsonV::Str("MAIN"@))
                && v@->Obj_0[1].0 == "def"@ && v@->Obj_0[1].1 is Arr && v@->Obj_0[1].1->Arr_0.len() == parsed_count(
                old(self)@.statements,
            ) && forall|i: int| 0 <= i < parsed_count(old(self)@.statements) ==> is_node(
                #[trigger] v@->Obj_0[1].1->Arr_0[i],
                "P_DDS"@,
            ),
            r matches Err(e) ==> e is Parse && first_failure(old(self)@.statements) is Some,
            first_failure(old(self)@.statements) is None ==> (r matches Ok(v) && v@ == main_tree(
                old(self)@.statements,
            )),
            first_failure(old(self)@.statements) matches Some(j) ==> (r matches Err(e) && e matches Error::Parse(
                m,
            ) && failure_message(old(self)@.statements, j, m@)),
    {
        let ghost stmts = self@.statements;
        let mut statements: Vec<String> = Vec::new();
        std::mem::swap(&mut statements, &mut self.statements);
        assert(statements@.map_values(|s: String| s@) == stmts);
        let mut line_count: usize = 1;
        let mut results: Vec<Json> = Vec::new();
        let mut i: usize = 0;
        let mut stop = false;
        while i < statements.len() && !stop
            invariant
                0 <= i <= statements.len(),
                statements@.map_values(|s: String| s@) == stmts,
                stmts == old(self)@.statements,
                !stop ==> forall|k: int| 0 <= k < i ==> (#[trigger] stmts[k]).len() > 0,
                stop ==> i < statements.len() && stmts[i as int].len() == 0 && forall|k: int|
                    0 <= k < i ==> (#[trigger] stmts[k]).len() > 0,
                line_count == cap((1 + lines_before(stmts, i as int)) as int),
                view_arr(results@).len() == i,
                forall|k: int| 0 <= k < i ==> is_node(#[trigger] view_arr(results@)[k], "P_DDS"@),
                view_arr(results@) == trees(stmts, i as int),
                forall|k: int| 0 <= k < i ==> (#[trigger] spec_parse_statement(stmts[k])) is Some,
            decreases statements.len() - i, if stop { 0int } else { 1int },
        {
            let statement = statements[i].as_str();
            assert(stmts[i as int] == statement@);
            if statement.unicode_len() == 0 {
                stop = true;
            } else {
                match parse_statement(statement) {
                    Ok(node) => {
                        let n = count_line_breaks(statement);
                        line_count = if line_count <= usize::MAX - n {
                            line_count + n
                        } else {
                            usize::MAX
                        };
                        proof {
                            crate::json::lemma_view_arr_push(results@, node);
                        }
                        results.push(node);
                        assert(view_arr(results@) =~= trees(stmts, i + 1));
                        i += 1;
                    },
                    Err(e) => {
                        let error_line = e.line;
                        let new_count = if line_count <= usize::MAX - error_line {
                            line_count + error_line - 1
                        } else {
                            usize::MAX
                        };
                        self.reset();
                        proof {
                            super::compact::util::lemma_first_index(stmts, |s: Seq<char>| s.len() == 0);
                        }
                        let msg = concat2("invalid syntax at line ", usize_text(new_count).as_str());
                        proof {
                            let f = furthest_reached(spec_lex(statement@, 0));
                            let p = |s: Seq<char>| s.len() == 0;
                            if let Some(k) = super::compact::util::first_index(stmts, p) {
                                assert(p(stmts[k]));
                                assert(k > i);
                            }
                            assert(0 <= i < parsed_count(stmts));
                            assert(error_line >= 1);
                            assert(msg@ == parse_message(lines_before(stmts, i as int), spec_line_at(spec_lex(stmts[i as int], 0), f)));
                            let jj = i as int;
                            assert(stmts == old(self)@.statements);
                            assert(0 <= jj < parsed_count(stmts) && failure_message(stmts, jj, msg@));

                            let q = |s: Seq<char>| spec_parse_statement(s) is None;
                            let ps = parsed(stmts);
                            assert forall|k: int| 0 <= k < i implies !q(#[trigger] ps[k]) by {
                                assert(ps[k] == stmts[k]);
                            }
                            assert(ps[i as int] == stmts[i as int]);
                            assert(spec_parse_statement(statement@) is None);
                            assert(q(ps[i as int]));
                            super::compact::util::lemma_first_index_at(ps, q, i as int);
                            assert(first_failure(stmts) == Some(i as int));
                            assert(failure_message(stmts, i as int, msg@));
                        }
                        return Err(Error::Parse(msg));
                    },
                }
            }
        }
        proof {
            super::compact::util::lemma_first_index(stmts, |s: Seq<char>| s.len() == 0);
            if stop {
                super::compact::util::lemma_first_index_at(stmts, |s: Seq<char>| s.len() == 0, i as int);
            } else {
                super::compact::util::lemma_first_index_none(stmts, |s: Seq<char>| s.len() == 0);
            }
        }
        proof {
            let q = |s: Seq<char>| spec_parse_statement(s) is None;
            let ps = parsed(stmts);
            assert(parsed_count(stmts) == i);
            assert forall|k: int| 0 <= k < ps.len() implies !q(#[trigger] ps[k]) by {
                assert(ps[k] == stmts[k]);
            }
            super::compact::util::lemma_first_index_none(ps, q);
        }
        self.reset();
        let ghost rv = view_arr(results@);
        let mut root: Vec<(String, Json)> = Vec::new();
        crate::json::put(&mut root, "id", Json::str_lit("MAIN"));
        crate::json::put(&mut root, "def", Json::Arr(results));
        assert(crate::json::view_obj(root@) =~= seq![("id"@, JsonV::Str("MAIN"@)), ("def"@, JsonV::Arr(rv))]);
        Ok(Json::Obj(root))
    }

    /// Parses the statements fed so far; the same as [`Parser::results`].
    pub fn parse(&mut self) -> (r: Result<Json, Error>)
        ensures
            final(self)@ == fresh(),
            r matches Ok(v) ==> v@ is Obj && v@->Obj_0.len() == 2 && v@->Obj_0[0] == ("id"@, JsonV::Str("MAIN"@))
                && v@->Obj_0[1].0 == "def"@ && v@->Obj_0[1].1 is Arr && v@->Obj_0[1].1->Arr_0.len() == parsed_count(
                old(self)@.statements,
            ),
            r matches Err(e) ==> e is Parse,
            first_failure(old(self)@.statements) is None ==> (r matches Ok(v) && v@ == main_tree(
                old(self)@.statements,
            )),
            first_failure(old(self)@.statements) matches Some(j) ==> (r matches Err(e) && e matches Error::Parse(
                m,
            ) && failure_message(old(self)@.statements, j, m@)),
    {
        self.results()
    }

    /// Formats a parse tree into the compact table model; without a tree,
    /// parses the statements fed so far first.
    pub fn to_compact_json(&mut self, json: Option<Json>) -> (r: Result<Vec<Json>, Error>)
        ensures
            json is Some ==> final(self)@ == old(self)@,
            json is None ==> final(self)@ == fresh(),
            json matches Some(t) ==> (r is Ok <==> t@.get_str("id"@) == Some("MAIN"@)),
            json matches Some(t) ==> (r matches Ok(v) ==> view_arr(v@) == spec_compact(t@)),
            json is None ==> (r matches Err(e) ==> e is Parse),
            r matches Err(e) ==> (e is Parse || (e matches Error::Format(m) && m@ == format_error())),
            json is None && first_failure(old(self)@.statements) is None ==> (r matches Ok(v) && view_arr(v@)
                == spec_compact(main_tree(old(self)@.statements))),
            json is None ==> (first_failure(old(self)@.statements) matches Some(j) ==> (r matches Err(e)
                && e matches Error::Parse(m) && failure_message(old(self)@.statements, j, m@))),
    {
        let tree = match json {
            Some(v) => v,
            None => match self.results() {
                Ok(v) => {
                    proof {
                        crate::json::lemma_key_index_first(v@->Obj_0, "id"@, 0);
                    }
                    v
                },
                Err(e) => return Err(e),
            },
        };
        compact_from_tree(&tree)
    }

    /// Parses the statements fed so far into the compact table model.
    pub fn parse_compact(&mut self) -> (r: Result<Vec<Json>, Error>)
        ensures
            final(self)@ == fresh(),
            r matches Err(e) ==> e is Parse,
            first_failure(old(self)@.statements) is None ==> (r matches Ok(v) && view_arr(v@) == spec_compact(
                main_tree(old(self)@.statements),
            )),
            first_failure(old(self)@.statements) matches Some(j) ==> (r matches Err(e) && e matches Error::Parse(
                m,
            ) && failure_message(old(self)@.statements, j, m@)),
    {
        self.to_compact_json(None)
    }

    /// Formats compact tables into JSON Schema documents, one per table;
    /// without tables, parses the statements fed so far and builds the
    /// compact model first. Options default to using `$ref`.
    pub fn to_json_schema_array(&mut self, options: Option<JsonSchemaOptions>, tables: Option<Vec<Json>>) -> (r:
        Result<Vec<Json>, Error>)
        ensures
            tables is Some ==> final(self)@ == old(self)@,
            tables is None ==> final(self)@ == fresh(),
            tables matches Some(t) ==> r matches Ok(v) && view_arr(v@) == schemas_of(
                view_arr(t@),
                match options {
                    Some(o) => o.use_ref,
                    None => true,
                },
            ),
            r matches Err(e) ==> e is Parse,
            tables is None && first_failure(old(self)@.statements) is None ==> (r matches Ok(v) && view_arr(v@)
                == schemas_of(
                spec_compact(main_tree(old(self)@.statements)),
                match options {
                    Some(o) => o.use_ref,
                    None => true,
                },
            )),
            tables is None ==> (first_failure(old(self)@.statements) matches Some(j) ==> (r matches Err(e)
                && e matches Error::Parse(m) && failure_message(old(self)@.statements, j, m@))),
    {
        let opts = match options {
            Some(o) => o,
            None => JsonSchemaOptions::default(),
        };
        let tables = match tables {
            Some(t) => t,
            None => match self.parse_compact() {
                Ok(t) => t,
                Err(e) => return Err(e),
            },
        };
        Ok(json_schema_from_tables(&tables, opts))
    }

    /// Parses the statements fed so far into JSON Schema documents.
    pub fn parse_json_schema(&mut self, options: JsonSchemaOptions) -> (r: Result<Vec<Json>, Error>)
        ensures
            final(self)@ == fresh(),
            r matches Err(e) ==> e is Parse,
            first_failure(old(self)@.statements) is None ==> (r matches Ok(v) && view_arr(v@) == schemas_of(
                spec_compact(main_tree(old(self)@.statements)),
                options.use_ref,
            )),
            first_failure(old(self)@.statements) matches Some(j) ==> (r matches Err(e) && e matches Error::Parse(
                m,
            ) && failure_message(old(self)@.statements, j, m@)),
    {
        self.to_json_schema_array(Some(options), None)
    }

    /// Whether the splitter is inside an escape.
    pub fn is_escaped(&self) -> (r: bool)
        ensures
            r == self@.escaped,
    {
        self.escaped
    }

    /// The quote that opened the current quoted region, if any.
    pub fn quoted_char(&self) -> (r: Option<char>)
        ensures
            r == self@.quoted,
    {
        self.quoted
    }

    /// The number of statements split and not yet parsed.
    pub fn statement_count(&self) -> (r: usize)
        ensures
            r == self@.statements.len(),
    {
        self.statements.len()
    }
}

/// Formats a parse tree into the compact table model. A tree whose root is
/// not `{ id: "MAIN", ... }` is refused.
pub fn compact_from_tree(tree: &Json) -> (r: Result<Vec<Json>, Error>)
    ensures
        r is Ok <==> tree@.get_str("id"@) == Some("MAIN"@),
        r matches Ok(v) ==> view_arr(v@) == spec_compact(tree@),
        r matches Err(e) ==> e matches Error::Format(m) && m@ == format_error(),
{
    match crate::compact::format(tree) {
        Ok(v) => Ok(v),
        Err(m) => Err(Error::Format(m)),
    }
}

/// Formats compact tables into JSON Schema documents, one per table.
pub fn json_schema_from_tables(tables: &Vec<Json>, options: JsonSchemaOptions) -> (r: Vec<Json>)
    ensures
        view_arr(r@) == view_arr(tables@).map_values(|t: JsonV| spec_table_schema(t, options.use_ref)),
{
    crate::json_schema::format(tables, options)
}

} // verus!
