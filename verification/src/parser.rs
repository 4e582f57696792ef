//! The parser: consumes the token stream in statement-terminator–delimited
//! chunks and dispatches purely on statement length and the token kinds at
//! fixed offsets — the grammar has no nesting. Each production is specified
//! by a spec function; the executable parser is proved to return exactly
//! what the specification says, so parsing is a function of the tokens
//! alone.

use vstd::prelude::*;
use vstd::string::*;

use crate::errors::Error;
use crate::lexer::{lemma_first_eos, spec_first_eos};
use crate::statements::{
    BinOpV, CallTarget, CallTargetV, CompareV, Statement, StatementContext, StatementContextV,
    StatementV, Value, ValueV, BinOp, Compare,
};
use crate::token::{Token, TokenType, TokenTypeV, TokenV};

verus! {

// ---------------------------------------------------------------------------
// The grammar, specified
// ---------------------------------------------------------------------------

/// The value a literal or identifier token denotes.
pub open spec fn tok_value(k: TokenTypeV) -> ValueV {
    match k {
        TokenTypeV::Bool(b) => ValueV::Bool(b),
        TokenTypeV::Int(i) => ValueV::Int(i),
        TokenTypeV::Float(f) => ValueV::Float(f),
        TokenTypeV::Str(s) => ValueV::Str(s),
        TokenTypeV::Identifier(n) => ValueV::Identifier(n),
        _ => ValueV::Bool(false),
    }
}

/// The current statement's tokens: from the cursor up to and including the
/// next end-of-statement token; `None` if no end-of-statement token follows
/// (an incomplete statement).
pub open spec fn spec_get_statement(ts: Seq<TokenV>, cur: int) -> Option<Seq<TokenV>> {
    let k = spec_first_eos(ts.skip(cur));
    if cur + k >= ts.len() {
        None
    } else {
        Some(ts.subrange(cur, cur + k + 1))
    }
}

/// The arguments at offsets `start .. start + n` of a statement's tokens:
/// each must be a literal or an identifier.
pub open spec fn spec_args(sl: Seq<TokenV>, start: int, n: int) -> Option<Seq<ValueV>> {
    if forall|i: int| 0 <= i < n ==> (#[trigger] sl[start + i]).token_type.is_value() {
        Some(Seq::new(n as nat, |i: int| tok_value(sl[start + i].token_type)))
    } else {
        None
    }
}

/// A parsed statement and the cursor position after it.
pub struct Parsed {
    pub stmt: StatementV,
    pub next: int,
}

/// A statement value built from a statement's tokens.
pub open spec fn mk_stmt(sl: Seq<TokenV>, c: StatementContextV) -> StatementV {
    StatementV { line: sl[0].line, file: sl[0].file, context: c }
}

/// `~ label ;` — a label definition.
pub open spec fn spec_parse_goto_def(ts: Seq<TokenV>, cur: int) -> Result<Parsed, ()> {
    match spec_get_statement(ts, cur) {
        None => Err(()),
        Some(sl) => {
            if sl.len() != 3 {
                Err(())
            } else if !(sl[1].token_type is Identifier) {
                Err(())
            } else {
                Ok(
                    Parsed {
                        stmt: mk_stmt(
                            sl,
                            StatementContextV::GotoDef(sl[1].token_type->Identifier_0),
                        ),
                        next: cur + 3,
                    },
                )
            }
        },
    }
}

/// `goto label ;` — an unconditional jump.
pub open spec fn spec_parse_goto_always(ts: Seq<TokenV>, cur: int) -> Result<Parsed, ()> {
    match spec_get_statement(ts, cur) {
        None => Err(()),
        Some(sl) => {
            if !(sl[1].token_type is Identifier) {
                Err(())
            } else {
                Ok(
                    Parsed {
                        stmt: mk_stmt(
                            sl,
                            StatementContextV::Goto(sl[1].token_type->Identifier_0),
                        ),
                        next: cur + 3,
                    },
                )
            }
        },
    }
}

/// The comparison a comparator token forms over two operands.
pub open spec fn mk_compare(k: TokenTypeV, l: ValueV, r: ValueV) -> CompareV {
    match k {
        TokenTypeV::EqualsEquals => CompareV::Equals(l, r),
        TokenTypeV::BangEquals => CompareV::NotEquals(l, r),
        TokenTypeV::Less => CompareV::LessThan(l, r),
        TokenTypeV::Greater => CompareV::GreaterThan(l, r),
        TokenTypeV::LessEquals => CompareV::LessThanEquals(l, r),
        _ => CompareV::GreaterThanEquals(l, r),
    }
}

/// `goto label if value cmp value ;` — a conditional jump.
pub open spec fn spec_parse_goto_if(ts: Seq<TokenV>, cur: int) -> Result<Parsed, ()> {
    match spec_get_statement(ts, cur) {
        None => Err(()),
        Some(sl) => {
            if !(sl[1].token_type is Identifier) {
                Err(())
            } else if !(sl[2].token_type is If) {
                Err(())
            } else if !sl[3].token_type.is_value() {
                Err(())
            } else if !sl[4].token_type.is_compare() {
                Err(())
            } else if !sl[5].token_type.is_value() {
                Err(())
            } else {
                Ok(
                    Parsed {
                        stmt: mk_stmt(
                            sl,
                            StatementContextV::GotoIf(
                                sl[1].token_type->Identifier_0,
                                mk_compare(
                                    sl[4].token_type,
                                    tok_value(sl[3].token_type),
                                    tok_value(sl[5].token_type),
                                ),
                            ),
                        ),
                        next: cur + 7,
                    },
                )
            }
        },
    }
}

/// `goto …` — dispatched on the statement's length: three tokens for the
/// unconditional form, seven for the conditional one.
pub open spec fn spec_parse_goto(ts: Seq<TokenV>, cur: int) -> Result<Parsed, ()> {
    match spec_get_statement(ts, cur) {
        None => Err(()),
        Some(sl) => {
            if !(sl[1].token_type is Identifier) {
                Err(())
            } else if sl.len() == 3 {
                spec_parse_goto_always(ts, cur)
            } else if sl.len() == 7 {
                spec_parse_goto_if(ts, cur)
            } else {
                Err(())
            }
        },
    }
}

/// The operation an operator token forms over two operands.
pub open spec fn mk_binop(k: TokenTypeV, l: ValueV, r: ValueV) -> BinOpV {
    match k {
        TokenTypeV::Plus => BinOpV::Add(l, r),
        TokenTypeV::Minus => BinOpV::Sub(l, r),
        TokenTypeV::Star => BinOpV::Mul(l, r),
        TokenTypeV::Slash => BinOpV::Div(l, r),
        _ => BinOpV::Mod(l, r),
    }
}

/// `name = value ;` — assignment of a literal or of another variable.
pub open spec fn spec_parse_assign_literal(ts: Seq<TokenV>, cur: int) -> Result<Parsed, ()> {
    match spec_get_statement(ts, cur) {
        None => Err(()),
        Some(sl) => {
            if !(sl[1].token_type is Equals) {
                Err(())
            } else if !sl[2].token_type.is_value() {
                Err(())
            } else {
                Ok(
                    Parsed {
                        stmt: mk_stmt(
                            sl,
                            StatementContextV::AssignLiteral(
                                sl[0].token_type->Identifier_0,
                                tok_value(sl[2].token_type),
                            ),
                        ),
                        next: cur + 4,
                    },
                )
            }
        },
    }
}

/// `name = value op value ;` — assignment of an arithmetic result.
pub open spec fn spec_parse_assign_binop(ts: Seq<TokenV>, cur: int) -> Result<Parsed, ()> {
    match spec_get_statement(ts, cur) {
        None => Err(()),
        Some(sl) => {
            if !sl[2].token_type.is_value() {
                Err(())
            } else if !sl[4].token_type.is_value() {
                Err(())
            } else {
                Ok(
                    Parsed {
                        stmt: mk_stmt(
                            sl,
                            StatementContextV::AssignBinOp(
                                sl[0].token_type->Identifier_0,
                                mk_binop(
                                    sl[3].token_type,
                                    tok_value(sl[2].token_type),
                                    tok_value(sl[4].token_type),
                                ),
                            ),
                        ),
                        next: cur + 6,
                    },
                )
            }
        },
    }
}

/// `name = @ module : function value* ;` — assignment of a native call's
/// result.
pub open spec fn spec_parse_assign_call(ts: Seq<TokenV>, cur: int) -> Result<Parsed, ()> {
    match spec_get_statement(ts, cur) {
        None => Err(()),
        Some(sl) => {
            if !(sl[2].token_type is At) {
                Err(())
            } else if !(sl[3].token_type is Identifier) {
                Err(())
            } else if !(sl[4].token_type is Colon) {
                Err(())
            } else if !(sl[5].token_type is Identifier) {
                Err(())
            } else {
                match spec_args(sl, 6, sl.len() - 7) {
                    None => Err(()),
                    Some(vs) => Ok(
                        Parsed {
                            stmt: mk_stmt(
                                sl,
                                StatementContextV::AssignCall(
                                    sl[0].token_type->Identifier_0,
                                    CallTargetV {
                                        module: sl[3].token_type->Identifier_0,
                                        function: sl[5].token_type->Identifier_0,
                                    },
                                    vs,
                                ),
                            ),
                            next: cur + sl.len(),
                        },
                    ),
                }
            }
        },
    }
}

/// `name = …` — dispatched on the statement's length and the token at
/// offset three: four tokens for a literal, six with an operator for an
/// operation, seven or more without one for a native call.
pub open spec fn spec_parse_assign(ts: Seq<TokenV>, cur: int) -> Result<Parsed, ()> {
    match spec_get_statement(ts, cur) {
        None => Err(()),
        Some(sl) => {
            if !(sl[1].token_type is Equals) {
                Err(())
            } else if sl.len() < 4 {
                Err(())
            } else if sl.len() == 4 {
                spec_parse_assign_literal(ts, cur)
            } else if sl.len() == 6 && sl[3].token_type.is_binop() {
                spec_parse_assign_binop(ts, cur)
            } else if sl.len() >= 7 && !sl[3].token_type.is_binop() {
                spec_parse_assign_call(ts, cur)
            } else {
                Err(())
            }
        },
    }
}

/// `@ module : function value* ;` — a native call whose result is
/// discarded.
pub open spec fn spec_parse_call(ts: Seq<TokenV>, cur: int) -> Result<Parsed, ()> {
    match spec_get_statement(ts, cur) {
        None => Err(()),
        Some(sl) => {
            if !(sl[1].token_type is Identifier) {
                Err(())
            } else if !(sl[2].token_type is Colon) {
                Err(())
            } else if !(sl[3].token_type is Identifier) {
                Err(())
            } else {
                match spec_args(sl, 4, sl.len() - 5) {
                    None => Err(()),
                    Some(vs) => Ok(
                        Parsed {
                            stmt: mk_stmt(
                                sl,
                                StatementContextV::Call(
                                    CallTargetV {
                                        module: sl[1].token_type->Identifier_0,
                                        function: sl[3].token_type->Identifier_0,
                                    },
                                    vs,
                                ),
                            ),
                            next: cur + sl.len(),
                        },
                    ),
                }
            }
        },
    }
}

/// `call label ;` — a language-level subroutine call.
pub open spec fn spec_parse_call_label(ts: Seq<TokenV>, cur: int) -> Result<Parsed, ()> {
    match spec_get_statement(ts, cur) {
        None => Err(()),
        Some(sl) => {
            if sl.len() != 3 {
                Err(())
            } else if !(sl[1].token_type is Identifier) {
                Err(())
            } else {
                Ok(
                    Parsed {
                        stmt: mk_stmt(
                            sl,
                            StatementContextV::CallLabel(sl[1].token_type->Identifier_0),
                        ),
                        next: cur + 3,
                    },
                )
            }
        },
    }
}

/// `ret ;` — return from a subroutine call.
pub open spec fn spec_parse_ret(ts: Seq<TokenV>, cur: int) -> Result<Parsed, ()> {
    match spec_get_statement(ts, cur) {
        None => Err(()),
        Some(sl) => {
            if sl.len() != 2 {
                Err(())
            } else {
                Ok(Parsed { stmt: mk_stmt(sl, StatementContextV::Ret), next: cur + 2 })
            }
        },
    }
}

/// One statement at the cursor, dispatched on its first token.
pub open spec fn spec_parse_statement(ts: Seq<TokenV>, cur: int) -> Result<Parsed, ()> {
    if !(0 <= cur < ts.len()) {
        Err(())
    } else {
        match ts[cur].token_type {
            TokenTypeV::Tilde => spec_parse_goto_def(ts, cur),
            TokenTypeV::At => spec_parse_call(ts, cur),
            TokenTypeV::Goto => spec_parse_goto(ts, cur),
            TokenTypeV::Identifier(_) => spec_parse_assign(ts, cur),
            TokenTypeV::Call => spec_parse_call_label(ts, cur),
            TokenTypeV::Ret => spec_parse_ret(ts, cur),
            _ => Err(()),
        }
    }
}

/// A parsed statement consumes at least its end-of-statement token: the
/// cursor always advances.
pub proof fn lemma_parse_statement_advances(ts: Seq<TokenV>, cur: int)
    requires
        0 <= cur <= ts.len(),
    ensures
        match spec_parse_statement(ts, cur) {
            Ok(p) => cur < p.next <= ts.len(),
            Err(()) => true,
        },
{
    lemma_first_eos(ts.skip(cur));
    let k = spec_first_eos(ts.skip(cur));
    if cur < ts.len() && cur + k < ts.len() {
        let sl = ts.subrange(cur, cur + k + 1);
        assert(sl.len() == k + 1);
    }
}

/// The statement sequence of the whole token stream: statements parsed one
/// after another until the tokens are exhausted; an error anywhere aborts
/// the parse.
pub open spec fn spec_parse(ts: Seq<TokenV>, cur: int) -> Result<Seq<StatementV>, ()>
    decreases ts.len() - cur,
    via spec_parse_dec
{
    if !(0 <= cur) {
        Err(())
    } else if cur >= ts.len() {
        Ok(Seq::empty())
    } else {
        match spec_parse_statement(ts, cur) {
            Err(()) => Err(()),
            Ok(p) => match spec_parse(ts, p.next) {
                Err(()) => Err(()),
                Ok(rest) => Ok(seq![p.stmt] + rest),
            },
        }
    }
}

#[via_fn]
proof fn spec_parse_dec(ts: Seq<TokenV>, cur: int) {
    if 0 <= cur < ts.len() {
        lemma_parse_statement_advances(ts, cur);
    }
}

// ---------------------------------------------------------------------------
// The parser
// ---------------------------------------------------------------------------

/// The parser: a token stream and an explicit cursor into it. The parser
/// never backtracks; each production advances the cursor by exactly the
/// statement's token count.
pub struct Parser {
    pub tokens: Vec<Token>,
    pub current: usize,
}

impl Parser {
    /// A fresh parser at the start of `tokens`.
    pub fn new(tokens: Vec<Token>) -> (r: Parser)
        ensures
            r.tokens == tokens,
            r.current == 0,
    {
        Parser { tokens, current: 0 }
    }

    /// A short display name for a token's kind, used in diagnostics.
    fn kind_name(t: &Token) -> &'static str {
        match &t.token_type {
            TokenType::Bool(_) => "boolean literal",
            TokenType::Int(_) => "integer literal",
            TokenType::Float(_) => "float literal",
            TokenType::Str(_) => "string literal",
            TokenType::Identifier(_) => "identifier",
            TokenType::Goto => "'goto'",
            TokenType::If => "'if'",
            TokenType::Call => "'call'",
            TokenType::Ret => "'ret'",
            TokenType::Colon => "':'",
            TokenType::Equals => "'='",
            TokenType::At => "'@'",
            TokenType::Tilde => "'~'",
            TokenType::Plus => "'+'",
            TokenType::Minus => "'-'",
            TokenType::Star => "'*'",
            TokenType::Slash => "'/'",
            TokenType::Percent => "'%'",
            TokenType::Less => "'<'",
            TokenType::Greater => "'>'",
            TokenType::EqualsEquals => "'=='",
            TokenType::BangEquals => "'!='",
            TokenType::LessEquals => "'<='",
            TokenType::GreaterEquals => "'>='",
            TokenType::EOS => "end of statement",
            TokenType::EOF => "end of file",
        }
    }

    /// A diagnostic at `t`: the expectation, and the kind actually found.
    fn expected(t: &Token, what: &str) -> Error {
        let mut m = String::from_str("Expected ");
        m.append(what);
        m.append(", found ");
        m.append(Parser::kind_name(t));
        t.error(m)
    }

    /// The value a literal or identifier token denotes (see [`tok_value`]).
    fn to_value(t: &Token) -> (r: Value)
        requires
            t@.token_type.is_value(),
        ensures
            r@ == tok_value(t@.token_type),
    {
        match &t.token_type {
            TokenType::Bool(b) => Value::Bool(*b),
            TokenType::Int(i) => Value::Int(*i),
            TokenType::Float(f) => Value::Float(*f),
            TokenType::Str(s) => Value::Str(s.clone()),
            TokenType::Identifier(n) => Value::Identifier(n.clone()),
            _ => {
                proof {
                    assert(false);
                }
                Value::Bool(false)
            },
        }
    }

    /// The current statement's tokens, up to and including the next
    /// end-of-statement token (see [`spec_get_statement`]).
    fn get_statement(&self) -> (r: Result<Vec<Token>, Error>)
        requires
            self.current < self.tokens@.len(),
        ensures
            match spec_get_statement(self.tokens.deep_view(), self.current as int) {
                Some(sl) => {
                    &&& r is Ok
                    &&& r->Ok_0.deep_view() == sl
                    &&& sl.len() >= 1
                    &&& self.current + sl.len() <= self.tokens@.len()
                    &&& forall|i: int|
                        0 <= i < sl.len() ==> sl[i] == self.tokens.deep_view()[self.current + i]
                    &&& forall|i: int|
                        0 <= i < sl.len() - 1 ==> !((#[trigger] sl[i]).token_type is EOS)
                    &&& sl[sl.len() - 1].token_type is EOS
                },
                None => r is Err,
            },
    {
        let ghost ts = self.tokens.deep_view();
        let ghost cur = self.current as int;
        let mut j = self.current;
        loop
            invariant
                self.current <= j <= self.tokens@.len(),
                ts == self.tokens.deep_view(),
                cur == self.current,
                forall|x: int| cur <= x < j ==> !((#[trigger] ts[x]).token_type is EOS),
            ensures
                self.current <= j <= self.tokens@.len(),
                ts == self.tokens.deep_view(),
                forall|x: int| cur <= x < j ==> !((#[trigger] ts[x]).token_type is EOS),
                j < self.tokens@.len() ==> ts[j as int].token_type is EOS,
            decreases self.tokens@.len() - j,
        {
            if j >= self.tokens.len() {
                break ;
            }
            proof {
                assert(ts[j as int] == self.tokens@[j as int]@);
            }
            if matches!(self.tokens[j].token_type, TokenType::EOS) {
                break ;
            }
            j = j + 1;
        }
        proof {
            lemma_first_eos(ts.skip(cur));
            let k = spec_first_eos(ts.skip(cur));
            assert forall|x: int| 0 <= x < j - cur implies ts.skip(cur)[x] == ts[cur + x] by {}
            if k < j - cur {
                assert(ts.skip(cur)[k].token_type is EOS);
                assert(ts.skip(cur)[k] == ts[cur + k]);
                assert(false);
            }
            if j < self.tokens@.len() && k > j - cur {
                assert(ts.skip(cur)[j - cur] == ts[j as int]);
                assert(false);
            }
        }
        let n = self.tokens.len();
        if j >= n {
            return Err(self.tokens[self.current].error(String::from_str("Incomplete statement")));
        }
        let mut sl: Vec<Token> = Vec::new();
        let mut x = self.current;
        while x < j + 1
            invariant
                self.current <= x <= j + 1,
                j < n,
                n == self.tokens@.len(),
                ts == self.tokens.deep_view(),
                cur == self.current,
                sl.deep_view() =~= ts.subrange(cur, x as int),
            decreases j + 1 - x,
        {
            let ghost pre = sl.deep_view();
            sl.push(self.tokens[x].dup());
            x = x + 1;
            proof {
                assert(sl.deep_view() =~= pre.push(ts[x - 1]));
                assert(pre.push(ts[x - 1]) =~= ts.subrange(cur, x as int));
            }
        }
        proof {
            let slv = ts.subrange(cur, j + 1);
            assert(slv[slv.len() - 1] == ts[j as int]);
            assert forall|i: int| 0 <= i < slv.len() - 1 implies !(
            (#[trigger] slv[i]).token_type is EOS) by {
                assert(slv[i] == ts[cur + i]);
            }
        }
        Ok(sl)
    }

    /// The current statement's tokens, required to be exactly `n` of them.
    fn require(&self, n: usize) -> (r: Result<Vec<Token>, Error>)
        requires
            self.current < self.tokens@.len(),
        ensures
            match spec_get_statement(self.tokens.deep_view(), self.current as int) {
                Some(sl) => {
                    if sl.len() == n {
                        &&& r is Ok
                        &&& r->Ok_0.deep_view() == sl
                        &&& self.current + sl.len() <= self.tokens@.len()
                        &&& forall|i: int|
                            0 <= i < sl.len() ==> sl[i] == self.tokens.deep_view()[self.current
                                + i]
                        &&& forall|i: int|
                            0 <= i < sl.len() - 1 ==> !((#[trigger] sl[i]).token_type is EOS)
                        &&& sl[sl.len() - 1].token_type is EOS
                    } else {
                        r is Err
                    }
                },
                None => r is Err,
            },
    {
        let stmt = self.get_statement()?;
        if stmt.len() != n {
            return Err(self.tokens[self.current].error(String::from_str("Incomplete statement")));
        }
        Ok(stmt)
    }
}

impl Parser {
    /// `~ label ;` (see [`spec_parse_goto_def`]).
    fn parse_goto_def(&mut self) -> (r: Result<Statement, Error>)
        requires
            old(self).current < old(self).tokens@.len(),
        ensures
            final(self).tokens == old(self).tokens,
            match spec_parse_goto_def(old(self).tokens.deep_view(), old(self).current as int) {
                Ok(p) => r is Ok && r->Ok_0@ == p.stmt && final(self).current == p.next,
                Err(()) => r is Err,
            },
    {
        let ghost ts = self.tokens.deep_view();
        let ghost cur = self.current as int;
        let n = self.tokens.len();
        let tokens = match self.require(3) {
            Ok(t) => t,
            Err(e) => {
                return Err(e);
            },
        };
        let ghost sl = spec_get_statement(ts, cur)->Some_0;
        if !tokens[1].is_identifier() {
            return Err(Parser::expected(&tokens[1], "identifier"));
        }
        self.current = self.current + 3;
        let name = match &tokens[1].token_type {
            TokenType::Identifier(n) => n.clone(),
            _ => {
                proof {
                    assert(false);
                }
                String::new()
            },
        };
        proof {
            assert(tokens.deep_view()[0] == tokens@[0]@);
            assert(tokens.deep_view()[1] == tokens@[1]@);
        }
        Ok(
            Statement {
                line: tokens[0].line,
                file: tokens[0].file.clone(),
                context: StatementContext::GotoDef(name),
            },
        )
    }

    /// `goto label ;` (see [`spec_parse_goto_always`]).
    fn parse_goto_always(&mut self) -> (r: Result<Statement, Error>)
        requires
            old(self).current < old(self).tokens@.len(),
            ({
                let g = spec_get_statement(
                    old(self).tokens.deep_view(),
                    old(self).current as int,
                );
                g is Some && g->Some_0.len() == 3
            }),
        ensures
            final(self).tokens == old(self).tokens,
            match spec_parse_goto_always(
                old(self).tokens.deep_view(),
                old(self).current as int,
            ) {
                Ok(p) => r is Ok && r->Ok_0@ == p.stmt && final(self).current == p.next,
                Err(()) => r is Err,
            },
    {
        let ghost ts = self.tokens.deep_view();
        let ghost cur = self.current as int;
        let n = self.tokens.len();
        let tokens = match self.get_statement() {
            Ok(t) => t,
            Err(e) => {
                return Err(e);
            },
        };
        let ghost sl = spec_get_statement(ts, cur)->Some_0;
        if !tokens[1].is_identifier() {
            return Err(Parser::expected(&tokens[1], "identifier"));
        }
        self.current = self.current + 3;
        let name = match &tokens[1].token_type {
            TokenType::Identifier(n) => n.clone(),
            _ => {
                proof {
                    assert(false);
                }
                String::new()
            },
        };
        proof {
            assert(tokens.deep_view()[0] == tokens@[0]@);
            assert(tokens.deep_view()[1] == tokens@[1]@);
        }
        Ok(
            Statement {
                line: tokens[0].line,
                file: tokens[0].file.clone(),
                context: StatementContext::Goto(name),
            },
        )
    }

    /// `goto label if value cmp value ;` (see [`spec_parse_goto_if`]).
    fn parse_goto_if(&mut self) -> (r: Result<Statement, Error>)
        requires
            old(self).current < old(self).tokens@.len(),
            ({
                let g = spec_get_statement(
                    old(self).tokens.deep_view(),
                    old(self).current as int,
                );
                g is Some && g->Some_0.len() == 7
            }),
        ensures
            final(self).tokens == old(self).tokens,
            match spec_parse_goto_if(old(self).tokens.deep_view(), old(self).current as int) {
                Ok(p) => r is Ok && r->Ok_0@ == p.stmt && final(self).current == p.next,
                Err(()) => r is Err,
            },
    {
        let ghost ts = self.tokens.deep_view();
        let ghost cur = self.current as int;
        let n = self.tokens.len();
        let tokens = match self.get_statement() {
            Ok(t) => t,
            Err(e) => {
                return Err(e);
            },
        };
        let ghost sl = spec_get_statement(ts, cur)->Some_0;
        if !tokens[1].is_identifier() {
            return Err(Parser::expected(&tokens[1], "identifier"));
        }
        if !matches!(tokens[2].token_type, TokenType::If) {
            return Err(Parser::expected(&tokens[2], "'if'"));
        }
        if !tokens[3].is_value() {
            return Err(Parser::expected(&tokens[3], "value"));
        }
        if !tokens[4].is_compare() {
            return Err(Parser::expected(&tokens[4], "comparison"));
        }
        if !tokens[5].is_value() {
            return Err(Parser::expected(&tokens[5], "value"));
        }
        self.current = self.current + 7;
        let goto_name = match &tokens[1].token_type {
            TokenType::Identifier(n) => n.clone(),
            _ => {
                proof {
                    assert(false);
                }
                String::new()
            },
        };
        let lhs = Parser::to_value(&tokens[3]);
        let rhs = Parser::to_value(&tokens[5]);
        let compare = match &tokens[4].token_type {
            TokenType::EqualsEquals => Compare::Equals(lhs, rhs),
            TokenType::BangEquals => Compare::NotEquals(lhs, rhs),
            TokenType::Less => Compare::LessThan(lhs, rhs),
            TokenType::Greater => Compare::GreaterThan(lhs, rhs),
            TokenType::LessEquals => Compare::LessThanEquals(lhs, rhs),
            _ => Compare::GreaterThanEquals(lhs, rhs),
        };
        proof {
            assert(tokens.deep_view()[0] == tokens@[0]@);
            assert(tokens.deep_view()[1] == tokens@[1]@);
            assert(tokens.deep_view()[3] == tokens@[3]@);
            assert(tokens.deep_view()[4] == tokens@[4]@);
            assert(tokens.deep_view()[5] == tokens@[5]@);
        }
        Ok(
            Statement {
                line: tokens[0].line,
                file: tokens[0].file.clone(),
                context: StatementContext::GotoIf(goto_name, compare),
            },
        )
    }

    /// `goto …` (see [`spec_parse_goto`]).
    fn parse_goto(&mut self) -> (r: Result<Statement, Error>)
        requires
            old(self).current < old(self).tokens@.len(),
            !(old(self).tokens.deep_view()[old(self).current as int].token_type is EOS),
        ensures
            final(self).tokens == old(self).tokens,
            match spec_parse_goto(old(self).tokens.deep_view(), old(self).current as int) {
                Ok(p) => r is Ok && r->Ok_0@ == p.stmt && final(self).current == p.next,
                Err(()) => r is Err,
            },
    {
        let ghost ts = self.tokens.deep_view();
        let ghost cur = self.current as int;
        let n = self.tokens.len();
        let tokens = match self.get_statement() {
            Ok(t) => t,
            Err(e) => {
                return Err(e);
            },
        };
        let ghost sl = spec_get_statement(ts, cur)->Some_0;
        proof {
            assert(sl[0] == ts[cur]);
            assert(sl.len() >= 2);
            assert(tokens.deep_view()[1] == tokens@[1]@);
        }
        if !tokens[1].is_identifier() {
            return Err(Parser::expected(&tokens[1], "identifier"));
        }
        if tokens.len() == 3 {
            self.parse_goto_always()
        } else if tokens.len() == 7 {
            self.parse_goto_if()
        } else {
            Err(tokens[1].error(String::from_str("Invalid goto statement")))
        }
    }

    /// `@ module : function value* ;` (see [`spec_parse_call`]).
    #[verifier::rlimit(60)]
    #[verifier::spinoff_prover]
    fn parse_call(&mut self) -> (r: Result<Statement, Error>)
        requires
            old(self).current < old(self).tokens@.len(),
            !(old(self).tokens.deep_view()[old(self).current as int].token_type is EOS),
        ensures
            final(self).tokens == old(self).tokens,
            match spec_parse_call(old(self).tokens.deep_view(), old(self).current as int) {
                Ok(p) => r is Ok && r->Ok_0@ == p.stmt && final(self).current == p.next,
                Err(()) => r is Err,
            },
    {
        let ghost ts = self.tokens.deep_view();
        let ghost cur = self.current as int;
        let n = self.tokens.len();
        let tokens = match self.get_statement() {
            Ok(t) => t,
            Err(e) => {
                return Err(e);
            },
        };
        let ghost sl = spec_get_statement(ts, cur)->Some_0;
        proof {
            assert(sl[0] == ts[cur]);
            assert(sl.len() >= 2);
        }
        if !tokens[1].is_identifier() {
            return Err(Parser::expected(&tokens[1], "identifier"));
        }
        proof {
            assert(tokens.deep_view()[1] == tokens@[1]@);
            assert(sl.len() >= 3);
        }
        if !matches!(tokens[2].token_type, TokenType::Colon) {
            return Err(Parser::expected(&tokens[2], "':'"));
        }
        proof {
            assert(tokens.deep_view()[2] == tokens@[2]@);
            assert(sl.len() >= 4);
        }
        if !tokens[3].is_identifier() {
            return Err(Parser::expected(&tokens[3], "identifier"));
        }
        proof {
            assert(tokens.deep_view()[3] == tokens@[3]@);
            assert(sl.len() >= 5);
        }
        let argl = tokens.len() - 5;
        let mut values: Vec<Value> = Vec::new();
        let mut i: usize = 0;
        while i < argl
            invariant
                i <= argl,
                argl == sl.len() - 5,
                sl.len() >= 5,
                ts == self.tokens.deep_view(),
                cur == self.current,
                self.current < self.tokens@.len(),
                spec_get_statement(ts, cur) == Some(sl),
                tokens.deep_view() == sl,
                tokens@.len() == sl.len(),
                values.deep_view().len() == i,
                forall|x: int|
                    0 <= x < i ==> (#[trigger] sl[4 + x]).token_type.is_value(),
                forall|x: int|
                    0 <= x < i ==> #[trigger] values.deep_view()[x] == tok_value(
                        sl[4 + x].token_type,
                    ),
            decreases argl - i,
        {
            let idx = 4 + i;
            proof {
                assert(idx < tokens@.len());
                assert(tokens.deep_view()[idx as int] == tokens@[idx as int]@);
            }
            if !tokens[idx].is_value() {
                proof {
                    assert(!sl[idx as int].token_type.is_value());
                    assert(spec_args(sl, 4, sl.len() - 5) is None) by {
                        if spec_args(sl, 4, sl.len() - 5) is Some {
                            assert(sl[4 + i as int].token_type.is_value());
                        }
                    }
                }
                return Err(Parser::expected(&tokens[idx], "value"));
            }
            let ghost prev = values.deep_view();
            values.push(Parser::to_value(&tokens[idx]));
            i = i + 1;
            proof {
                assert(values.deep_view() =~= prev.push(values@[values@.len() - 1]@));
            }
        }
        self.current = self.current + tokens.len();
        let module_name = match &tokens[1].token_type {
            TokenType::Identifier(n) => n.clone(),
            _ => {
                proof {
                    assert(false);
                }
                String::new()
            },
        };
        let function_name = match &tokens[3].token_type {
            TokenType::Identifier(n) => n.clone(),
            _ => {
                proof {
                    assert(false);
                }
                String::new()
            },
        };
        proof {
            assert(spec_args(sl, 4, sl.len() - 5) is Some);
            let vs = spec_args(sl, 4, sl.len() - 5)->Some_0;
            assert(values.deep_view() =~= vs);
            assert(tokens.deep_view()[0] == tokens@[0]@);
        }
        Ok(
            Statement {
                line: tokens[0].line,
                file: tokens[0].file.clone(),
                context: StatementContext::Call(
                    CallTarget { module: module_name, function: function_name },
                    values,
                ),
            },
        )
    }

    /// `name = value ;` (see [`spec_parse_assign_literal`]).
    fn parse_assign_literal(&mut self) -> (r: Result<Statement, Error>)
        requires
            old(self).current < old(self).tokens@.len(),
            old(self).tokens.deep_view()[old(self).current as int].token_type is Identifier,
            ({
                let g = spec_get_statement(
                    old(self).tokens.deep_view(),
                    old(self).current as int,
                );
                g is Some && g->Some_0.len() == 4
            }),
        ensures
            final(self).tokens == old(self).tokens,
            match spec_parse_assign_literal(
                old(self).tokens.deep_view(),
                old(self).current as int,
            ) {
                Ok(p) => r is Ok && r->Ok_0@ == p.stmt && final(self).current == p.next,
                Err(()) => r is Err,
            },
    {
        let ghost ts = self.tokens.deep_view();
        let ghost cur = self.current as int;
        let n = self.tokens.len();
        let tokens = match self.get_statement() {
            Ok(t) => t,
            Err(e) => {
                return Err(e);
            },
        };
        let ghost sl = spec_get_statement(ts, cur)->Some_0;
        if !matches!(tokens[1].token_type, TokenType::Equals) {
            return Err(Parser::expected(&tokens[1], "'='"));
        }
        if !tokens[2].is_value() {
            return Err(Parser::expected(&tokens[2], "literal"));
        }
        self.current = self.current + 4;
        let name = match &tokens[0].token_type {
            TokenType::Identifier(n) => n.clone(),
            _ => {
                proof {
                    assert(false);
                }
                String::new()
            },
        };
        let value = Parser::to_value(&tokens[2]);
        proof {
            assert(tokens.deep_view()[0] == tokens@[0]@);
            assert(tokens.deep_view()[1] == tokens@[1]@);
            assert(tokens.deep_view()[2] == tokens@[2]@);
            assert(sl[0] == ts[cur]);
        }
        Ok(
            Statement {
                line: tokens[0].line,
                file: tokens[0].file.clone(),
                context: StatementContext::AssignLiteral(name, value),
            },
        )
    }

    /// `name = value op value ;` (see [`spec_parse_assign_binop`]).
    fn parse_assign_binop(&mut self) -> (r: Result<Statement, Error>)
        requires
            old(self).current < old(self).tokens@.len(),
            old(self).tokens.deep_view()[old(self).current as int].token_type is Identifier,
            ({
                let g = spec_get_statement(
                    old(self).tokens.deep_view(),
                    old(self).current as int,
                );
                g is Some && g->Some_0.len() == 6 && g->Some_0[3].token_type.is_binop()
            }),
        ensures
            final(self).tokens == old(self).tokens,
            match spec_parse_assign_binop(
                old(self).tokens.deep_view(),
                old(self).current as int,
            ) {
                Ok(p) => r is Ok && r->Ok_0@ == p.stmt && final(self).current == p.next,
                Err(()) => r is Err,
            },
    {
        let ghost ts = self.tokens.deep_view();
        let ghost cur = self.current as int;
        let n = self.tokens.len();
        let tokens = match self.get_statement() {
            Ok(t) => t,
            Err(e) => {
                return Err(e);
            },
        };
        let ghost sl = spec_get_statement(ts, cur)->Some_0;
        if !tokens[2].is_value() {
            return Err(Parser::expected(&tokens[2], "value"));
        }
        if !tokens[4].is_value() {
            return Err(Parser::expected(&tokens[4], "value"));
        }
        self.current = self.current + 6;
        let name = match &tokens[0].token_type {
            TokenType::Identifier(n) => n.clone(),
            _ => {
                proof {
                    assert(false);
                }
                String::new()
            },
        };
        let lhs = Parser::to_value(&tokens[2]);
        let rhs = Parser::to_value(&tokens[4]);
        let binop = match &tokens[3].token_type {
            TokenType::Plus => BinOp::Add(lhs, rhs),
            TokenType::Minus => BinOp::Sub(lhs, rhs),
            TokenType::Star => BinOp::Mul(lhs, rhs),
            TokenType::Slash => BinOp::Div(lhs, rhs),
            _ => BinOp::Mod(lhs, rhs),
        };
        proof {
            assert(tokens.deep_view()[0] == tokens@[0]@);
            assert(tokens.deep_view()[2] == tokens@[2]@);
            assert(tokens.deep_view()[3] == tokens@[3]@);
            assert(tokens.deep_view()[4] == tokens@[4]@);
            assert(sl[0] == ts[cur]);
        }
        Ok(
            Statement {
                line: tokens[0].line,
                file: tokens[0].file.clone(),
                context: StatementContext::AssignBinOp(name, binop),
            },
        )
    }

    /// `name = @ module : function value* ;` (see
    /// [`spec_parse_assign_call`]).
    #[verifier::rlimit(60)]
    #[verifier::spinoff_prover]
    fn parse_assign_call(&mut self) -> (r: Result<Statement, Error>)
        requires
            old(self).current < old(self).tokens@.len(),
            old(self).tokens.deep_view()[old(self).current as int].token_type is Identifier,
            ({
                let g = spec_get_statement(
                    old(self).tokens.deep_view(),
                    old(self).current as int,
                );
                g is Some && g->Some_0.len() >= 7
            }),
        ensures
            final(self).tokens == old(self).tokens,
            match spec_parse_assign_call(
                old(self).tokens.deep_view(),
                old(self).current as int,
            ) {
                Ok(p) => r is Ok && r->Ok_0@ == p.stmt && final(self).current == p.next,
                Err(()) => r is Err,
            },
    {
        let ghost ts = self.tokens.deep_view();
        let ghost cur = self.current as int;
        let n = self.tokens.len();
        let tokens = match self.get_statement() {
            Ok(t) => t,
            Err(e) => {
                return Err(e);
            },
        };
        let ghost sl = spec_get_statement(ts, cur)->Some_0;
        if !matches!(tokens[2].token_type, TokenType::At) {
            return Err(Parser::expected(&tokens[2], "'@'"));
        }
        if !tokens[3].is_identifier() {
            return Err(Parser::expected(&tokens[3], "identifier"));
        }
        if !matches!(tokens[4].token_type, TokenType::Colon) {
            return Err(Parser::expected(&tokens[4], "':'"));
        }
        if !tokens[5].is_identifier() {
            return Err(Parser::expected(&tokens[5], "identifier"));
        }
        let argl = tokens.len() - 7;
        let mut values: Vec<Value> = Vec::new();
        let mut i: usize = 0;
        while i < argl
            invariant
                i <= argl,
                argl == sl.len() - 7,
                sl.len() >= 7,
                ts == self.tokens.deep_view(),
                cur == self.current,
                self.current < self.tokens@.len(),
                spec_get_statement(ts, cur) == Some(sl),
                tokens.deep_view() == sl,
                tokens@.len() == sl.len(),
                values.deep_view().len() == i,
                forall|x: int|
                    0 <= x < i ==> (#[trigger] sl[6 + x]).token_type.is_value(),
                forall|x: int|
                    0 <= x < i ==> #[trigger] values.deep_view()[x] == tok_value(
                        sl[6 + x].token_type,
                    ),
            decreases argl - i,
        {
            let idx = 6 + i;
            proof {
                assert(idx < tokens@.len());
                assert(tokens.deep_view()[idx as int] == tokens@[idx as int]@);
            }
            if !tokens[idx].is_value() {
                proof {
                    assert(!sl[idx as int].token_type.is_value());
                    assert(spec_args(sl, 6, sl.len() - 7) is None) by {
                        if spec_args(sl, 6, sl.len() - 7) is Some {
                            assert(sl[6 + i as int].token_type.is_value());
                        }
                    }
                }
                return Err(Parser::expected(&tokens[idx], "value"));
            }
            let ghost prev = values.deep_view();
            values.push(Parser::to_value(&tokens[idx]));
            i = i + 1;
            proof {
                assert(values.deep_view() =~= prev.push(values@[values@.len() - 1]@));
            }
        }
        self.current = self.current + tokens.len();
        let name = match &tokens[0].token_type {
            TokenType::Identifier(n) => n.clone(),
            _ => {
                proof {
                    assert(false);
                }
                String::new()
            },
        };
        let module_name = match &tokens[3].token_type {
            TokenType::Identifier(n) => n.clone(),
            _ => {
                proof {
                    assert(false);
                }
                String::new()
            },
        };
        let function_name = match &tokens[5].token_type {
            TokenType::Identifier(n) => n.clone(),
            _ => {
                proof {
                    assert(false);
                }
                String::new()
            },
        };
        proof {
            assert(spec_args(sl, 6, sl.len() - 7) is Some);
            let vs = spec_args(sl, 6, sl.len() - 7)->Some_0;
            assert(values.deep_view() =~= vs);
            assert(tokens.deep_view()[0] == tokens@[0]@);
            assert(tokens.deep_view()[2] == tokens@[2]@);
            assert(tokens.deep_view()[3] == tokens@[3]@);
            assert(tokens.deep_view()[4] == tokens@[4]@);
            assert(tokens.deep_view()[5] == tokens@[5]@);
            assert(sl[0] == ts[cur]);
        }
        Ok(
            Statement {
                line: tokens[0].line,
                file: tokens[0].file.clone(),
                context: StatementContext::AssignCall(
                    name,
                    CallTarget { module: module_name, function: function_name },
                    values,
                ),
            },
        )
    }

    /// `name = …` (see [`spec_parse_assign`]).
    fn parse_assign(&mut self) -> (r: Result<Statement, Error>)
        requires
            old(self).current < old(self).tokens@.len(),
            old(self).tokens.deep_view()[old(self).current as int].token_type is Identifier,
        ensures
            final(self).tokens == old(self).tokens,
            match spec_parse_assign(old(self).tokens.deep_view(), old(self).current as int) {
                Ok(p) => r is Ok && r->Ok_0@ == p.stmt && final(self).current == p.next,
                Err(()) => r is Err,
            },
    {
        let ghost ts = self.tokens.deep_view();
        let ghost cur = self.current as int;
        let n = self.tokens.len();
        let tokens = match self.get_statement() {
            Ok(t) => t,
            Err(e) => {
                return Err(e);
            },
        };
        let ghost sl = spec_get_statement(ts, cur)->Some_0;
        proof {
            assert(sl[0] == ts[cur]);
            assert(sl.len() >= 2);
            assert(tokens.deep_view()[1] == tokens@[1]@);
        }
        if !matches!(tokens[1].token_type, TokenType::Equals) {
            return Err(Parser::expected(&tokens[1], "'='"));
        }
        if tokens.len() < 4 {
            return Err(tokens[1].error(String::from_str("Invalid assignment")));
        }
        proof {
            assert(tokens.deep_view()[3] == tokens@[3]@);
        }
        let binop = tokens[3].is_binop();
        if tokens.len() == 4 {
            self.parse_assign_literal()
        } else if tokens.len() == 6 && binop {
            self.parse_assign_binop()
        } else if tokens.len() >= 7 && !binop {
            self.parse_assign_call()
        } else {
            Err(tokens[1].error(String::from_str("Invalid assignment")))
        }
    }

    /// `call label ;` (see [`spec_parse_call_label`]).
    fn parse_call_label(&mut self) -> (r: Result<Statement, Error>)
        requires
            old(self).current < old(self).tokens@.len(),
        ensures
            final(self).tokens == old(self).tokens,
            match spec_parse_call_label(
                old(self).tokens.deep_view(),
                old(self).current as int,
            ) {
                Ok(p) => r is Ok && r->Ok_0@ == p.stmt && final(self).current == p.next,
                Err(()) => r is Err,
            },
    {
        let ghost ts = self.tokens.deep_view();
        let ghost cur = self.current as int;
        let n = self.tokens.len();
        let tokens = match self.require(3) {
            Ok(t) => t,
            Err(e) => {
                return Err(e);
            },
        };
        let ghost sl = spec_get_statement(ts, cur)->Some_0;
        if !tokens[1].is_identifier() {
            return Err(Parser::expected(&tokens[1], "identifier"));
        }
        self.current = self.current + 3;
        let name = match &tokens[1].token_type {
            TokenType::Identifier(n) => n.clone(),
            _ => {
                proof {
                    assert(false);
                }
                String::new()
            },
        };
        proof {
            assert(tokens.deep_view()[0] == tokens@[0]@);
            assert(tokens.deep_view()[1] == tokens@[1]@);
        }
        Ok(
            Statement {
                line: tokens[0].line,
                file: tokens[0].file.clone(),
                context: StatementContext::CallLabel(name),
            },
        )
    }

    /// `ret ;` (see [`spec_parse_ret`]).
    fn parse_ret(&mut self) -> (r: Result<Statement, Error>)
        requires
            old(self).current < old(self).tokens@.len(),
        ensures
            final(self).tokens == old(self).tokens,
            match spec_parse_ret(old(self).tokens.deep_view(), old(self).current as int) {
                Ok(p) => r is Ok && r->Ok_0@ == p.stmt && final(self).current == p.next,
                Err(()) => r is Err,
            },
    {
        let ghost ts = self.tokens.deep_view();
        let ghost cur = self.current as int;
        let n = self.tokens.len();
        let tokens = match self.require(2) {
            Ok(t) => t,
            Err(e) => {
                return Err(e);
            },
        };
        let ghost sl = spec_get_statement(ts, cur)->Some_0;
        self.current = self.current + 2;
        proof {
            assert(tokens.deep_view()[0] == tokens@[0]@);
        }
        Ok(
            Statement {
                line: tokens[0].line,
                file: tokens[0].file.clone(),
                context: StatementContext::Ret,
            },
        )
    }

    /// One statement at the cursor, dispatched on its first token (see
    /// [`spec_parse_statement`]).
    fn parse_statement(&mut self) -> (r: Result<Statement, Error>)
        requires
            old(self).current < old(self).tokens@.len(),
        ensures
            final(self).tokens == old(self).tokens,
            match spec_parse_statement(old(self).tokens.deep_view(), old(self).current as int) {
                Ok(p) => r is Ok && r->Ok_0@ == p.stmt && final(self).current == p.next,
                Err(()) => r is Err,
            },
    {
        let ghost ts = self.tokens.deep_view();
        let ghost cur = self.current as int;
        proof {
            assert(ts[cur] == self.tokens@[cur]@);
        }
        if matches!(self.tokens[self.current].token_type, TokenType::Tilde) {
            self.parse_goto_def()
        } else if matches!(self.tokens[self.current].token_type, TokenType::At) {
            self.parse_call()
        } else if matches!(self.tokens[self.current].token_type, TokenType::Goto) {
            self.parse_goto()
        } else if matches!(self.tokens[self.current].token_type, TokenType::Identifier(_)) {
            self.parse_assign()
        } else if matches!(self.tokens[self.current].token_type, TokenType::Call) {
            self.parse_call_label()
        } else if matches!(self.tokens[self.current].token_type, TokenType::Ret) {
            self.parse_ret()
        } else {
            Err(self.tokens[self.current].error(String::from_str("Unexpected token")))
        }
    }

    /// Parses the whole token stream into its statement sequence (see
    /// [`spec_parse`]): statements one after another until the tokens are
    /// exhausted; the first error aborts the parse.
    pub fn parse(&mut self) -> (r: Result<Vec<Statement>, Error>)
        ensures
            final(self).tokens == old(self).tokens,
            match spec_parse(old(self).tokens.deep_view(), old(self).current as int) {
                Ok(sts) => r is Ok && r->Ok_0.deep_view() == sts,
                Err(()) => r is Err,
            },
    {
        let ghost ts = self.tokens.deep_view();
        let ghost top = spec_parse(ts, self.current as int);
        let mut statements: Vec<Statement> = Vec::new();
        proof {
            assert(statements.deep_view() =~= Seq::<StatementV>::empty());
            if top is Ok {
                assert(Seq::<StatementV>::empty() + top->Ok_0 =~= top->Ok_0);
            }
        }
        loop
            invariant
                self.current <= self.tokens@.len() || self.current as int >= ts.len(),
                self.tokens == old(self).tokens,
                ts == self.tokens.deep_view(),
                top == spec_parse(ts, old(self).current as int),
                ({
                    let rest = spec_parse(ts, self.current as int);
                    &&& (top is Ok) == (rest is Ok)
                    &&& (rest is Ok ==> top->Ok_0 == statements.deep_view() + rest->Ok_0)
                }),
            ensures
                top is Ok,
                top->Ok_0 == statements.deep_view(),
            decreases ts.len() - self.current,
        {
            if self.current >= self.tokens.len() {
                proof {
                    assert(spec_parse(ts, self.current as int) == Ok::<Seq<StatementV>, ()>(
                        Seq::empty(),
                    ));
                    assert(statements.deep_view() + Seq::<StatementV>::empty()
                        =~= statements.deep_view());
                }
                break ;
            }
            let ghost pcur = self.current as int;
            proof {
                lemma_parse_statement_advances(ts, pcur);
            }
            let st = match self.parse_statement() {
                Ok(st) => st,
                Err(e) => {
                    proof {
                        assert(spec_parse(ts, pcur) is Err);
                    }
                    return Err(e);
                },
            };
            let ghost p = spec_parse_statement(ts, pcur)->Ok_0;
            let ghost pre = statements.deep_view();
            proof {
                if spec_parse(ts, p.next) is Ok {
                    let rest2 = spec_parse(ts, p.next)->Ok_0;
                    assert(pre.push(st@) + rest2 =~= pre + (seq![p.stmt] + rest2));
                }
            }
            statements.push(st);
            proof {
                assert(statements.deep_view() =~= pre.push(statements@[statements@.len()
                    - 1]@));
            }
        }
        Ok(statements)
    }
}

} // verus!
