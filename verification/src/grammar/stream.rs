//! Token cursor with backtracking used by the recursive-descent grammar.

use vstd::prelude::*;

use crate::json::str_eq;
use crate::lexer::{kind_eq, view_tokens, SKind, SToken, Token, TokenKind};

verus! {

/// A cursor over a token slice. Whitespace tokens stay in place so rules can
/// require or allow them explicitly.
///
/// The cursor also keeps a high-water mark: the furthest position any rule
/// reached, even after backtracking. Error reporting uses it to name the token
/// where parsing broke.
pub struct Stream<'a> {
    tokens: &'a [Token],
    pos: usize,
    furthest: usize,
}

/// The end of the run of whitespace tokens that starts at `p`.
pub open spec fn ws_end(ts: Seq<SToken>, p: int) -> int
    decreases ts.len() - p,
{
    if 0 <= p < ts.len() && ts[p].kind is Ws {
        ws_end(ts, p + 1)
    } else {
        p
    }
}

pub proof fn lemma_ws_end(ts: Seq<SToken>, p: int)
    requires
        0 <= p <= ts.len(),
    ensures
        p <= ws_end(ts, p) <= ts.len(),
    decreases ts.len() - p,
{
    if p < ts.len() && ts[p].kind is Ws {
        lemma_ws_end(ts, p + 1);
    }
}

/// The larger of two positions.
pub open spec fn mx(a: int, b: int) -> int {
    if a >= b {
        a
    } else {
        b
    }
}

/// Whether the furthest position reached after `a` is what it was, or `r`
/// when that is further: the position `r` is the furthest any step from
/// `a` to `b` reached.
pub open spec fn reached(a: Stream, b: Stream, r: int) -> bool {
    b.spec_furthest() == mx(a.spec_furthest(), r)
}

/// Whether the token at `p` is the keyword `name`.
pub open spec fn is_keyword_at(ts: Seq<SToken>, p: int, name: Seq<char>) -> bool {
    0 <= p < ts.len() && ts[p].kind == SKind::Keyword(name)
}

/// Whether the token at `p` has the kind `kind`.
pub open spec fn is_kind_at(ts: Seq<SToken>, p: int, kind: SKind) -> bool {
    0 <= p < ts.len() && ts[p].kind == kind
}

/// The recorded high-water mark stays within the tokens; the mark a rule
/// reads from is that or the position, whichever is further.
pub broadcast proof fn lemma_stream_bounds(s: Stream)
    ensures
        0 <= #[trigger] s.spec_pos(),
        0 <= #[trigger] s.spec_mark() <= s.spec_tokens().len(),
        #[trigger] s.spec_furthest() == mx(s.spec_mark(), s.spec_pos()),
{
    s.lemma_bounds_inner();
}

/// A step from `a` to `b` that raises the recorded mark to the position
/// whenever it moves the position at all.
pub open spec fn steps(a: Stream, b: Stream) -> bool {
    &&& b.spec_mark() >= a.spec_mark()
    &&& (b.spec_pos() == a.spec_pos() || b.spec_pos() <= b.spec_mark())
}

/// A cursor step from `a` to `b` that records the new position as reached
/// when it moves forward, and leaves the recorded mark alone when it does
/// not move.
pub open spec fn marks(a: Stream, b: Stream) -> bool {
    b.spec_mark() == if b.spec_pos() > a.spec_pos() {
        mx(a.spec_mark(), b.spec_pos())
    } else {
        a.spec_mark()
    }
}

/// What every grammar rule keeps: the tokens, a high-water mark that never
/// falls, and a position that never moves back past where the rule started.
pub open spec fn frame(a: Stream, b: Stream) -> bool {
    &&& b.spec_tokens() == a.spec_tokens()
    &&& b.spec_furthest() >= a.spec_furthest()
    &&& b.spec_pos() >= a.spec_pos()
    &&& steps(a, b)
}

/// Whether a token is whitespace.
pub fn is_ws_token(t: &Token) -> (r: bool)
    ensures
        r == (t.kind@ is Ws),
{
    match t.kind {
        TokenKind::Ws => true,
        _ => false,
    }
}

impl<'a> Stream<'a> {
    #[verifier::type_invariant]
    spec fn inv(self) -> bool {
        self.furthest <= self.tokens@.len()
    }

    /// The tokens.
    pub closed spec fn spec_tokens(self) -> Seq<SToken> {
        view_tokens(self.tokens@)
    }

    /// The current position. A restored position may lie past the end.
    pub closed spec fn spec_pos(self) -> int {
        self.pos as int
    }

    /// The recorded high-water mark: the furthest position any step reached.
    pub closed spec fn spec_mark(self) -> int {
        if self.furthest <= self.tokens@.len() {
            self.furthest as int
        } else {
            self.tokens@.len() as int
        }
    }

    /// The furthest position reached, counting the current one: a position
    /// restored past the recorded mark counts as reached.
    pub closed spec fn spec_furthest(self) -> int {
        mx(self.spec_mark(), self.spec_pos())
    }

    proof fn lemma_bounds_inner(self)
        ensures
            0 <= self.spec_pos(),
            0 <= self.spec_mark() <= self.spec_tokens().len(),
            self.spec_furthest() == mx(self.spec_mark(), self.spec_pos()),
    {
    }

    /// Build a cursor at the start of the tokens.
    pub fn new(tokens: &'a [Token]) -> (r: Self)
        ensures
            r.spec_tokens() == view_tokens(tokens@),
            r.spec_pos() == 0,
            r.spec_mark() == 0,
            r.spec_furthest() == 0,
    {
        Stream { tokens, pos: 0, furthest: 0 }
    }

    /// Current position, for save and restore.
    pub fn pos(&self) -> (r: usize)
        ensures
            r == self.spec_pos(),
    {
        proof {
            use_type_invariant(self);
        }
        self.pos
    }

    /// The furthest position reached, across all attempts including ones that
    /// backtracked.
    pub fn furthest(&self) -> (r: usize)
        ensures
            r == self.spec_mark(),
            r <= self.spec_tokens().len(),
    {
        proof {
            use_type_invariant(self);
        }
        self.furthest
    }

    /// Restore a saved position. Neither lowers nor raises the recorded
    /// high-water mark. Restoring a position no further than the mark, from
    /// a position the mark covers or to the same position, keeps the
    /// furthest position reached.
    pub fn set(&mut self, pos: usize)
        ensures
            final(self).spec_pos() == pos,
            final(self).spec_mark() == old(self).spec_mark(),
            final(self).spec_tokens() == old(self).spec_tokens(),
            pos <= old(self).spec_furthest() && (old(self).spec_pos() <= old(self).spec_mark() || pos
                == old(self).spec_pos()) ==> final(self).spec_furthest() == old(self).spec_furthest(),
    {
        proof {
            use_type_invariant(&*self);
        }
        self.pos = pos;
    }

    /// Advance the cursor and raise the high-water mark if needed.
    fn advance_to(&mut self, pos: usize)
        requires
            pos <= old(self).spec_tokens().len(),
            pos > old(self).spec_pos(),
        ensures
            final(self).spec_pos() == pos,
            final(self).spec_furthest() == if pos > old(self).spec_furthest() {
                pos as int
            } else {
                old(self).spec_furthest()
            },
            final(self).spec_tokens() == old(self).spec_tokens(),
            final(self).spec_pos() <= final(self).spec_mark(),
            final(self).spec_mark() >= old(self).spec_mark(),
    {
        proof {
            use_type_invariant(&*self);
        }
        if pos > self.furthest {
            self.furthest = pos;
        }
        self.pos = pos;
    }

    /// Whether the cursor is at end of input.
    pub fn at_end(&self) -> (r: bool)
        ensures
            r == (self.spec_pos() >= self.spec_tokens().len()),
    {
        self.pos >= self.tokens.len()
    }

    /// Peek at the current token without consuming.
    pub fn peek(&self) -> (r: Option<&'a Token>)
        ensures
            match r {
                Some(t) => self.spec_pos() < self.spec_tokens().len() && t@ == self.spec_tokens()[self.spec_pos()],
                None => self.spec_pos() >= self.spec_tokens().len(),
            },
    {
        if self.pos < self.tokens.len() {
            Some(&self.tokens[self.pos])
        } else {
            None
        }
    }

    /// Peek at the token at an absolute position.
    pub fn at(&self, pos: usize) -> (r: Option<&'a Token>)
        ensures
            match r {
                Some(t) => pos < self.spec_tokens().len() && t@ == self.spec_tokens()[pos as int],
                None => pos >= self.spec_tokens().len(),
            },
    {
        if pos < self.tokens.len() {
            Some(&self.tokens[pos])
        } else {
            None
        }
    }

    /// Consume the current token.
    pub fn bump(&mut self) -> (r: Option<&'a Token>)
        ensures
            final(self).spec_tokens() == old(self).spec_tokens(),
            steps(*old(self), *final(self)),
            marks(*old(self), *final(self)),
            final(self).spec_furthest() >= old(self).spec_furthest(),
            match r {
                Some(t) => {
                    &&& old(self).spec_pos() < old(self).spec_tokens().len()
                    &&& t@ == old(self).spec_tokens()[old(self).spec_pos()]
                    &&& final(self).spec_pos() == old(self).spec_pos() + 1
                    &&& final(self).spec_furthest() == mx(old(self).spec_furthest(), old(self).spec_pos() + 1)
                },
                None => {
                    &&& old(self).spec_pos() >= old(self).spec_tokens().len()
                    &&& final(self).spec_pos() == old(self).spec_pos()
                    &&& final(self).spec_furthest() == old(self).spec_furthest()
                },
            },
    {
        proof {
            use_type_invariant(&*self);
        }
        if self.pos < self.tokens.len() {
            let t = &self.tokens[self.pos];
            self.advance_to(self.pos + 1);
            Some(t)
        } else {
            None
        }
    }

    /// Consume the current token if its kind matches, returning its value.
    pub fn eat(&mut self, kind: &TokenKind) -> (r: Option<String>)
        ensures
            final(self).spec_tokens() == old(self).spec_tokens(),
            steps(*old(self), *final(self)),
            marks(*old(self), *final(self)),
            final(self).spec_furthest() >= old(self).spec_furthest(),
            match r {
                Some(v) => {
                    &&& is_kind_at(old(self).spec_tokens(), old(self).spec_pos(), kind@)
                    &&& v@ == old(self).spec_tokens()[old(self).spec_pos()].value
                    &&& final(self).spec_pos() == old(self).spec_pos() + 1
                    &&& final(self).spec_furthest() == mx(old(self).spec_furthest(), old(self).spec_pos() + 1)
                },
                None => {
                    &&& !is_kind_at(old(self).spec_tokens(), old(self).spec_pos(), kind@)
                    &&& final(self).spec_pos() == old(self).spec_pos()
                    &&& final(self).spec_furthest() == old(self).spec_furthest()
                },
            },
    {
        proof {
            use_type_invariant(&*self);
        }
        if self.pos < self.tokens.len() {
            let t = &self.tokens[self.pos];
            if kind_eq(&t.kind, kind) {
                let v = t.value.clone();
                self.advance_to(self.pos + 1);
                return Some(v);
            }
        }
        None
    }

    /// Consume a keyword by name, returning its raw value.
    pub fn eat_keyword(&mut self, name: &str) -> (r: Option<String>)
        ensures
            final(self).spec_tokens() == old(self).spec_tokens(),
            steps(*old(self), *final(self)),
            marks(*old(self), *final(self)),
            final(self).spec_furthest() >= old(self).spec_furthest(),
            match r {
                Some(v) => {
                    &&& is_keyword_at(old(self).spec_tokens(), old(self).spec_pos(), name@)
                    &&& v@ == old(self).spec_tokens()[old(self).spec_pos()].value
                    &&& final(self).spec_pos() == old(self).spec_pos() + 1
                    &&& final(self).spec_furthest() == mx(old(self).spec_furthest(), old(self).spec_pos() + 1)
                },
                None => {
                    &&& !is_keyword_at(old(self).spec_tokens(), old(self).spec_pos(), name@)
                    &&& final(self).spec_pos() == old(self).spec_pos()
                    &&& final(self).spec_furthest() == old(self).spec_furthest()
                },
            },
    {
        proof {
            use_type_invariant(&*self);
        }
        if self.pos < self.tokens.len() {
            let t = &self.tokens[self.pos];
            match &t.kind {
                TokenKind::Keyword(k) => {
                    if str_eq(k.as_str(), name) {
                        let v = t.value.clone();
                        self.advance_to(self.pos + 1);
                        return Some(v);
                    }
                },
                _ => {},
            }
        }
        None
    }

    /// Consume zero or more whitespace tokens.
    pub fn ws0(&mut self)
        ensures
            final(self).spec_tokens() == old(self).spec_tokens(),
            steps(*old(self), *final(self)),
            marks(*old(self), *final(self)),
            final(self).spec_furthest() >= old(self).spec_furthest(),
            final(self).spec_pos() == ws_end(old(self).spec_tokens(), old(self).spec_pos()),
            final(self).spec_pos() >= old(self).spec_pos(),
            final(self).spec_furthest() == mx(old(self).spec_furthest(), final(self).spec_pos()),
    {
        proof {
            use_type_invariant(&*self);
        }
        if self.pos >= self.tokens.len() {
            return;
        }
        proof {
            lemma_ws_end(view_tokens(self.tokens@), self.pos as int);
        }
        let ghost start = self.pos as int;
        let ghost f0 = self.furthest as int;
        while self.pos < self.tokens.len() && is_ws_token(&self.tokens[self.pos])
            invariant
                view_tokens(self.tokens@) == old(self).spec_tokens(),
                self.tokens@ == old(self).tokens@,
                self.pos <= self.tokens@.len(),
                self.furthest <= self.tokens@.len(),
                start == old(self).pos,
                f0 == old(self).furthest,
                start <= self.pos,
                self.pos == start ==> self.furthest == f0,
                self.pos > start ==> self.furthest == mx(f0, self.pos as int),
                ws_end(view_tokens(self.tokens@), start) == ws_end(view_tokens(self.tokens@), self.pos as int),
            decreases self.tokens@.len() - self.pos,
        {
            let next = self.pos + 1;
            if next > self.furthest {
                self.furthest = next;
            }
            self.pos = next;
        }
    }

    /// Consume one or more whitespace tokens; false, consuming nothing, when
    /// none is present.
    pub fn ws1(&mut self) -> (r: bool)
        ensures
            final(self).spec_tokens() == old(self).spec_tokens(),
            steps(*old(self), *final(self)),
            marks(*old(self), *final(self)),
            final(self).spec_furthest() >= old(self).spec_furthest(),
            final(self).spec_pos() == ws_end(old(self).spec_tokens(), old(self).spec_pos()),
            final(self).spec_pos() >= old(self).spec_pos(),
            final(self).spec_furthest() == mx(old(self).spec_furthest(), final(self).spec_pos()),
            r == (final(self).spec_pos() > old(self).spec_pos()),
    {
        let start = self.pos;
        self.ws0();
        proof {
            use_type_invariant(&*self);
        }
        self.pos > start
    }
}

} // verus!
