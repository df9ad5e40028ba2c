//! Shared grammar helpers: identifiers, quoted strings, and numbers.

use vstd::prelude::*;

use crate::json::{Json, JsonV};
use crate::lexer::{SKind, SToken, TokenKind};

use super::stream::{frame, reached, Stream};

verus! {

broadcast use super::stream::lemma_stream_bounds;

/// The token at the cursor, if any.
pub open spec fn cur(s: Stream) -> Option<SToken> {
    if 0 <= s.spec_pos() < s.spec_tokens().len() {
        Some(s.spec_tokens()[s.spec_pos()])
    } else {
        None
    }
}

/// Kinds that may stand for an identifier: quoted and unquoted identifiers
/// and any keyword.
pub open spec fn is_ident_kind(k: SKind) -> bool {
    k is IdentifierQuoted || k is IdentifierUnquoted || k is Keyword
}

/// Kinds of quoted strings.
pub open spec fn is_string_kind(k: SKind) -> bool {
    k is DQuoteString || k is SQuoteString
}

/// Whether the cursor stands on a token of a kind `p` accepts, and `v` is
/// that token's value, and the cursor moved past it; or not, and the cursor
/// did not move.
pub open spec fn took_one(a: Stream, b: Stream, r: Option<Seq<char>>, p: spec_fn(SKind) -> bool) -> bool {
    match r {
        Some(v) => {
            &&& cur(a) matches Some(t) && p(t.kind) && v == t.value
            &&& b.spec_pos() == a.spec_pos() + 1
            &&& reached(a, b, b.spec_pos())
        },
        None => {
            &&& !(cur(a) matches Some(t) && p(t.kind))
            &&& b.spec_pos() == a.spec_pos()
            &&& b.spec_furthest() == a.spec_furthest()
        },
    }
}

pub open spec fn opt_view(r: Option<String>) -> Option<Seq<char>> {
    match r {
        Some(v) => Some(v@),
        None => None,
    }
}

/// Parse `S_IDENTIFIER`: a quoted identifier, an unquoted identifier, or any
/// keyword used as an identifier. Returns the decoded value.
pub fn s_identifier(s: &mut Stream) -> (r: Option<String>)
    ensures
        frame(*old(s), *final(s)),
        took_one(*old(s), *final(s), opt_view(r), |k: SKind| is_ident_kind(k)),
{
    match s.peek() {
        Some(t) => match &t.kind {
            TokenKind::IdentifierQuoted | TokenKind::IdentifierUnquoted | TokenKind::Keyword(_) => {
                let v = t.value.clone();
                s.bump();
                Some(v)
            },
            _ => None,
        },
        None => None,
    }
}

/// Parse `O_QUOTED_STRING`: a double- or single-quoted string value.
pub fn o_quoted_string(s: &mut Stream) -> (r: Option<String>)
    ensures
        frame(*old(s), *final(s)),
        took_one(*old(s), *final(s), opt_view(r), |k: SKind| is_string_kind(k)),
{
    match s.peek() {
        Some(t) => match &t.kind {
            TokenKind::DQuoteString | TokenKind::SQuoteString => {
                let v = t.value.clone();
                s.bump();
                Some(v)
            },
            _ => None,
        },
        None => None,
    }
}

/// Parse `O_CHARSET`, `O_COLLATION`, `O_ENGINE`: a quoted string or identifier.
pub fn o_string_or_ident(s: &mut Stream) -> (r: Option<String>)
    ensures
        frame(*old(s), *final(s)),
        took_one(
            *old(s),
            *final(s),
            opt_view(r),
            |k: SKind| is_string_kind(k) || is_ident_kind(k),
        ),
{
    if let Some(v) = o_quoted_string(s) {
        return Some(v);
    }
    s_identifier(s)
}

/// Parse the value of `S_NUMBER` as a JSON number holding the literal text.
pub fn s_number(s: &mut Stream) -> (r: Option<Json>)
    ensures
        frame(*old(s), *final(s)),
        took_one(
            *old(s),
            *final(s),
            match r {
                Some(j) => match j@ {
                    JsonV::Num(t) => Some(t),
                    _ => None,
                },
                None => None,
            },
            |k: SKind| k is Number,
        ),
        r matches Some(j) ==> j@ is Num,
{
    match s.eat(&TokenKind::Number) {
        Some(t) => Some(Json::Num(t)),
        None => None,
    }
}

/// A table option value at `p`: a quoted string or identifier as a string,
/// or a number.
pub open spec fn option_value_at(ts: Seq<SToken>, p: int) -> Option<JsonV> {
    if !(0 <= p < ts.len()) {
        None
    } else if is_string_kind(ts[p].kind) || is_ident_kind(ts[p].kind) {
        Some(JsonV::Str(ts[p].value))
    } else if ts[p].kind is Number {
        Some(JsonV::Num(ts[p].value))
    } else {
        None
    }
}

/// Parse `O_TABLE_OPTION_VALUE`: a quoted string, identifier, or number. A
/// number stays numeric.
pub fn o_table_option_value(s: &mut Stream) -> (r: Option<Json>)
    ensures
        frame(*old(s), *final(s)),
        r is Some ==> final(s).spec_pos() == old(s).spec_pos() + 1,
        r is None ==> final(s).spec_pos() == old(s).spec_pos(),
        reached(*old(s), *final(s), final(s).spec_pos()),
        r matches Some(j) ==> j@ is Str || j@ is Num,
        match option_value_at(old(s).spec_tokens(), old(s).spec_pos()) {
            Some(v) => r matches Some(j) && j@ == v,
            None => r is None,
        },
{
    if let Some(v) = o_quoted_string(s) {
        return Some(Json::Str(v));
    }
    let save = s.pos();
    if let Some(v) = s_identifier(s) {
        return Some(Json::Str(v));
    }
    s.set(save);
    s_number(s)
}

} // verus!
