//! Statements: the closed set of statement shapes the parser produces, the
//! parse-time value type, and their source-form rendering used in runtime
//! diagnostics.

use vstd::prelude::*;
use vstd::string::*;

use crate::errors::{Error, ErrorLocation};
use crate::fp::fp_dec;
use crate::fp::fp_render;
use crate::strutil::{chars_to_string, i64_to_string, int_to_dec, str_to_chars};

verus! {

/// A parse-time value: a literal of one of the four scalar kinds, or a bare
/// identifier reference resolved at run time. Floats are carried as IEEE
/// double bit patterns.
#[derive(Debug, Clone, PartialEq)]
pub enum Value {
    Str(String),
    Int(i64),
    Float(u64),
    Bool(bool),
    Identifier(String),
}

/// The mathematical value of a [`Value`].
pub enum ValueV {
    Str(Seq<char>),
    Int(i64),
    Float(u64),
    Bool(bool),
    Identifier(Seq<char>),
}

impl View for Value {
    type V = ValueV;

    open spec fn view(&self) -> ValueV {
        match self {
            Value::Str(s) => ValueV::Str(s@),
            Value::Int(i) => ValueV::Int(*i),
            Value::Float(f) => ValueV::Float(*f),
            Value::Bool(b) => ValueV::Bool(*b),
            Value::Identifier(s) => ValueV::Identifier(s@),
        }
    }
}

impl DeepView for Value {
    type V = ValueV;

    open spec fn deep_view(&self) -> ValueV {
        self.view()
    }
}

/// An arithmetic operation over two operands.
#[derive(Debug, Clone, PartialEq)]
pub enum BinOp {
    Add(Value, Value),
    Sub(Value, Value),
    Mul(Value, Value),
    Div(Value, Value),
    Mod(Value, Value),
}

/// The mathematical value of a [`BinOp`].
pub enum BinOpV {
    Add(ValueV, ValueV),
    Sub(ValueV, ValueV),
    Mul(ValueV, ValueV),
    Div(ValueV, ValueV),
    Mod(ValueV, ValueV),
}

impl View for BinOp {
    type V = BinOpV;

    open spec fn view(&self) -> BinOpV {
        match self {
            BinOp::Add(a, b) => BinOpV::Add(a@, b@),
            BinOp::Sub(a, b) => BinOpV::Sub(a@, b@),
            BinOp::Mul(a, b) => BinOpV::Mul(a@, b@),
            BinOp::Div(a, b) => BinOpV::Div(a@, b@),
            BinOp::Mod(a, b) => BinOpV::Mod(a@, b@),
        }
    }
}

/// A comparison over two operands.
#[derive(Debug, Clone, PartialEq)]
pub enum Compare {
    Equals(Value, Value),
    NotEquals(Value, Value),
    LessThan(Value, Value),
    GreaterThan(Value, Value),
    LessThanEquals(Value, Value),
    GreaterThanEquals(Value, Value),
}

/// The mathematical value of a [`Compare`].
pub enum CompareV {
    Equals(ValueV, ValueV),
    NotEquals(ValueV, ValueV),
    LessThan(ValueV, ValueV),
    GreaterThan(ValueV, ValueV),
    LessThanEquals(ValueV, ValueV),
    GreaterThanEquals(ValueV, ValueV),
}

impl View for Compare {
    type V = CompareV;

    open spec fn view(&self) -> CompareV {
        match self {
            Compare::Equals(a, b) => CompareV::Equals(a@, b@),
            Compare::NotEquals(a, b) => CompareV::NotEquals(a@, b@),
            Compare::LessThan(a, b) => CompareV::LessThan(a@, b@),
            Compare::GreaterThan(a, b) => CompareV::GreaterThan(a@, b@),
            Compare::LessThanEquals(a, b) => CompareV::LessThanEquals(a@, b@),
            Compare::GreaterThanEquals(a, b) => CompareV::GreaterThanEquals(a@, b@),
        }
    }
}

/// A two-part native-function name, resolved at call time.
#[derive(Debug, Clone, PartialEq)]
pub struct CallTarget {
    pub module: String,
    pub function: String,
}

/// The mathematical value of a [`CallTarget`].
pub struct CallTargetV {
    pub module: Seq<char>,
    pub function: Seq<char>,
}

impl View for CallTarget {
    type V = CallTargetV;

    open spec fn view(&self) -> CallTargetV {
        CallTargetV { module: self.module@, function: self.function@ }
    }
}

/// The shape of one statement, with its operands.
#[derive(Debug, Clone, PartialEq)]
pub enum StatementContext {
    AssignLiteral(String, Value),
    AssignBinOp(String, BinOp),
    AssignCall(String, CallTarget, Vec<Value>),
    GotoDef(String),
    Goto(String),
    GotoIf(String, Compare),
    Call(CallTarget, Vec<Value>),
    CallLabel(String),
    Ret,
}

/// The mathematical value of a [`StatementContext`].
pub enum StatementContextV {
    AssignLiteral(Seq<char>, ValueV),
    AssignBinOp(Seq<char>, BinOpV),
    AssignCall(Seq<char>, CallTargetV, Seq<ValueV>),
    GotoDef(Seq<char>),
    Goto(Seq<char>),
    GotoIf(Seq<char>, CompareV),
    Call(CallTargetV, Seq<ValueV>),
    CallLabel(Seq<char>),
    Ret,
}

impl View for StatementContext {
    type V = StatementContextV;

    open spec fn view(&self) -> StatementContextV {
        match self {
            StatementContext::AssignLiteral(n, v) => StatementContextV::AssignLiteral(n@, v@),
            StatementContext::AssignBinOp(n, b) => StatementContextV::AssignBinOp(n@, b@),
            StatementContext::AssignCall(n, t, vs) => StatementContextV::AssignCall(
                n@,
                t@,
                vs.deep_view(),
            ),
            StatementContext::GotoDef(n) => StatementContextV::GotoDef(n@),
            StatementContext::Goto(n) => StatementContextV::Goto(n@),
            StatementContext::GotoIf(n, c) => StatementContextV::GotoIf(n@, c@),
            StatementContext::Call(t, vs) => StatementContextV::Call(t@, vs.deep_view()),
            StatementContext::CallLabel(n) => StatementContextV::CallLabel(n@),
            StatementContext::Ret => StatementContextV::Ret,
        }
    }
}

/// One statement, with the file and line of its leading token for
/// diagnostics. A statement is self-contained: it refers to labels and
/// variables by name only.
#[derive(Debug, Clone, PartialEq)]
pub struct Statement {
    pub line: usize,
    pub file: String,

    pub context: StatementContext,
}

/// The mathematical value of a [`Statement`].
pub struct StatementV {
    pub line: int,
    pub file: Seq<char>,
    pub context: StatementContextV,
}

impl View for Statement {
    type V = StatementV;

    open spec fn view(&self) -> StatementV {
        StatementV { line: self.line as int, file: self.file@, context: self.context@ }
    }
}

impl DeepView for Statement {
    type V = StatementV;

    open spec fn deep_view(&self) -> StatementV {
        self.view()
    }
}

// ---------------------------------------------------------------------------
// Source-form rendering
// ---------------------------------------------------------------------------

/// The escape sequence a character is rendered as inside a quoted string.
pub open spec fn esc_char(c: char) -> Seq<char> {
    if c == '\\' {
        seq!['\\', '\\']
    } else if c == '"' {
        seq!['\\', '"']
    } else if c == '\n' {
        seq!['\\', 'n']
    } else if c == '\t' {
        seq!['\\', 't']
    } else if c == '\r' {
        seq!['\\', 'r']
    } else if c == '\0' {
        seq!['\\', '0']
    } else {
        seq![c]
    }
}

/// A string's contents with every special character escaped.
pub open spec fn spec_escape(s: Seq<char>) -> Seq<char>
    decreases s.len(),
{
    if s.len() == 0 {
        Seq::empty()
    } else {
        esc_char(s[0]) + spec_escape(s.skip(1))
    }
}

/// The source form of a value: a quoted, escaped string, a decimal number,
/// `true` or `false`, or an identifier's name.
pub open spec fn spec_value_rewrite(v: ValueV) -> Seq<char> {
    match v {
        ValueV::Str(s) => seq!['"'] + spec_escape(s) + seq!['"'],
        ValueV::Int(i) => int_to_dec(i as int),
        ValueV::Float(b) => fp_dec(b),
        ValueV::Bool(b) => if b {
            seq!['t', 'r', 'u', 'e']
        } else {
            seq!['f', 'a', 'l', 's', 'e']
        },
        ValueV::Identifier(n) => n,
    }
}

/// The source form of an operation: the two operands around its symbol.
pub open spec fn spec_binop_rewrite(b: BinOpV) -> Seq<char> {
    match b {
        BinOpV::Add(l, r) => spec_value_rewrite(l) + seq![' ', '+', ' '] + spec_value_rewrite(r),
        BinOpV::Sub(l, r) => spec_value_rewrite(l) + seq![' ', '-', ' '] + spec_value_rewrite(r),
        BinOpV::Mul(l, r) => spec_value_rewrite(l) + seq![' ', '*', ' '] + spec_value_rewrite(r),
        BinOpV::Div(l, r) => spec_value_rewrite(l) + seq![' ', '/', ' '] + spec_value_rewrite(r),
        BinOpV::Mod(l, r) => spec_value_rewrite(l) + seq![' ', '%', ' '] + spec_value_rewrite(r),
    }
}

/// The source form of a comparison: the two operands around its symbol.
pub open spec fn spec_compare_rewrite(c: CompareV) -> Seq<char> {
    match c {
        CompareV::Equals(l, r) => spec_value_rewrite(l) + seq![' ', '=', '=', ' ']
            + spec_value_rewrite(r),
        CompareV::NotEquals(l, r) => spec_value_rewrite(l) + seq![' ', '!', '=', ' ']
            + spec_value_rewrite(r),
        CompareV::LessThan(l, r) => spec_value_rewrite(l) + seq![' ', '<', ' ']
            + spec_value_rewrite(r),
        CompareV::GreaterThan(l, r) => spec_value_rewrite(l) + seq![' ', '>', ' ']
            + spec_value_rewrite(r),
        CompareV::LessThanEquals(l, r) => spec_value_rewrite(l) + seq![' ', '<', '=', ' ']
            + spec_value_rewrite(r),
        CompareV::GreaterThanEquals(l, r) => spec_value_rewrite(l) + seq![' ', '>', '=', ' ']
            + spec_value_rewrite(r),
    }
}

/// The source form of a call target: `@module:function`.
pub open spec fn spec_target_rewrite(t: CallTargetV) -> Seq<char> {
    seq!['@'] + t.module + seq![':'] + t.function
}

/// The source forms of arguments after the first, each preceded by a space.
pub open spec fn spec_join_tail(vs: Seq<ValueV>) -> Seq<char>
    decreases vs.len(),
{
    if vs.len() == 0 {
        Seq::empty()
    } else {
        seq![' '] + spec_value_rewrite(vs[0]) + spec_join_tail(vs.skip(1))
    }
}

/// The source forms of arguments, separated by single spaces.
pub open spec fn spec_join(vs: Seq<ValueV>) -> Seq<char> {
    if vs.len() == 0 {
        Seq::empty()
    } else {
        spec_value_rewrite(vs[0]) + spec_join_tail(vs.skip(1))
    }
}

/// The source form of one statement.
pub open spec fn spec_stmt_rewrite(c: StatementContextV) -> Seq<char> {
    match c {
        StatementContextV::AssignLiteral(n, v) => n + seq![' ', '=', ' ']
            + spec_value_rewrite(v),
        StatementContextV::AssignBinOp(n, b) => n + seq![' ', '=', ' '] + spec_binop_rewrite(b),
        StatementContextV::AssignCall(n, t, vs) => n + seq![' ', '=', ' ']
            + spec_target_rewrite(t) + seq![' '] + spec_join(vs),
        StatementContextV::GotoDef(n) => seq!['~'] + n,
        StatementContextV::Goto(n) => seq!['g', 'o', 't', 'o', ' '] + n,
        StatementContextV::GotoIf(n, c) => seq!['g', 'o', 't', 'o', ' '] + n + seq![
            ' ', 'i', 'f', ' ',
        ] + spec_compare_rewrite(c),
        StatementContextV::Call(t, vs) => spec_target_rewrite(t) + seq![' '] + spec_join(vs),
        StatementContextV::CallLabel(n) => seq!['c', 'a', 'l', 'l', ' '] + n,
        StatementContextV::Ret => seq!['r', 'e', 't'],
    }
}

/// A string's contents with every special character escaped (see
/// [`spec_escape`]).
fn escape_string(s: &String) -> (r: String)
    ensures
        r@ == spec_escape(s@),
{
    let cs = str_to_chars(s.as_str());
    let ghost sv = s@;
    let mut out: Vec<char> = Vec::new();
    let mut i: usize = 0;
    proof {
        assert(sv.skip(0) =~= sv);
        assert(out@ + spec_escape(sv) =~= spec_escape(sv));
    }
    while i < cs.len()
        invariant
            i <= cs@.len(),
            cs@ == sv,
            spec_escape(sv) == out@ + spec_escape(sv.skip(i as int)),
        decreases cs@.len() - i,
    {
        let ghost pre = out@;
        let ghost tail = sv.skip(i as int);
        let c = cs[i];
        proof {
            assert(tail[0] == sv[i as int]);
            assert(tail.skip(1) =~= sv.skip(i + 1));
        }
        if c == '\\' {
            out.push('\\');
            out.push('\\');
        } else if c == '"' {
            out.push('\\');
            out.push('"');
        } else if c == '\n' {
            out.push('\\');
            out.push('n');
        } else if c == '\t' {
            out.push('\\');
            out.push('t');
        } else if c == '\r' {
            out.push('\\');
            out.push('r');
        } else if c == '\0' {
            out.push('\\');
            out.push('0');
        } else {
            out.push(c);
        }
        proof {
            assert(out@ =~= pre + esc_char(sv[i as int]));
            assert((pre + esc_char(sv[i as int])) + spec_escape(sv.skip(i + 1)) =~= pre
                + (esc_char(sv[i as int]) + spec_escape(sv.skip(i + 1))));
        }
        i = i + 1;
    }
    proof {
        assert(sv.skip(i as int) =~= Seq::<char>::empty());
        assert(out@ + Seq::<char>::empty() =~= out@);
    }
    chars_to_string(&out)
}

impl Value {
    /// An equal copy of this value.
    pub fn dup(&self) -> (r: Value)
        ensures
            r == *self,
    {
        match self {
            Value::Str(s) => Value::Str(s.clone()),
            Value::Int(i) => Value::Int(*i),
            Value::Float(f) => Value::Float(*f),
            Value::Bool(b) => Value::Bool(*b),
            Value::Identifier(s) => Value::Identifier(s.clone()),
        }
    }

    /// The source form of this value (see [`spec_value_rewrite`]).
    pub fn rewrite(&self) -> (r: String)
        ensures
            r@ == spec_value_rewrite(self@),
    {
        match self {
            Value::Str(s) => {
                let mut r = String::from_str("\"");
                let e = escape_string(s);
                r.append(e.as_str());
                r.append("\"");
                proof {
                    reveal_strlit("\"");
                    assert("\""@ =~= seq!['"']);
                    assert(r@ =~= seq!['"'] + spec_escape(s@) + seq!['"']);
                }
                r
            },
            Value::Int(i) => i64_to_string(*i),
            Value::Float(b) => fp_render(*b),
            Value::Bool(b) => {
                if *b {
                    let r = String::from_str("true");
                    proof {
                        reveal_strlit("true");
                        assert(r@ =~= seq!['t', 'r', 'u', 'e']);
                    }
                    r
                } else {
                    let r = String::from_str("false");
                    proof {
                        reveal_strlit("false");
                        assert(r@ =~= seq!['f', 'a', 'l', 's', 'e']);
                    }
                    r
                }
            },
            Value::Identifier(n) => n.clone(),
        }
    }
}

impl BinOp {
    /// An equal copy of this operation.
    pub fn dup(&self) -> (r: BinOp)
        ensures
            r == *self,
    {
        match self {
            BinOp::Add(a, b) => BinOp::Add(a.dup(), b.dup()),
            BinOp::Sub(a, b) => BinOp::Sub(a.dup(), b.dup()),
            BinOp::Mul(a, b) => BinOp::Mul(a.dup(), b.dup()),
            BinOp::Div(a, b) => BinOp::Div(a.dup(), b.dup()),
            BinOp::Mod(a, b) => BinOp::Mod(a.dup(), b.dup()),
        }
    }

    /// The source form of this operation (see [`spec_binop_rewrite`]).
    pub fn rewrite(&self) -> (r: String)
        ensures
            r@ == spec_binop_rewrite(self@),
    {
        let (l, op, rr) = match self {
            BinOp::Add(a, b) => (a, " + ", b),
            BinOp::Sub(a, b) => (a, " - ", b),
            BinOp::Mul(a, b) => (a, " * ", b),
            BinOp::Div(a, b) => (a, " / ", b),
            BinOp::Mod(a, b) => (a, " % ", b),
        };
        let mut r = l.rewrite();
        r.append(op);
        let rs = rr.rewrite();
        r.append(rs.as_str());
        proof {
            reveal_strlit(" + ");
            reveal_strlit(" - ");
            reveal_strlit(" * ");
            reveal_strlit(" / ");
            reveal_strlit(" % ");
            assert(" + "@ =~= seq![' ', '+', ' ']);
            assert(" - "@ =~= seq![' ', '-', ' ']);
            assert(" * "@ =~= seq![' ', '*', ' ']);
            assert(" / "@ =~= seq![' ', '/', ' ']);
            assert(" % "@ =~= seq![' ', '%', ' ']);
        }
        r
    }
}

impl Compare {
    /// An equal copy of this comparison.
    pub fn dup(&self) -> (r: Compare)
        ensures
            r == *self,
    {
        match self {
            Compare::Equals(a, b) => Compare::Equals(a.dup(), b.dup()),
            Compare::NotEquals(a, b) => Compare::NotEquals(a.dup(), b.dup()),
            Compare::LessThan(a, b) => Compare::LessThan(a.dup(), b.dup()),
            Compare::GreaterThan(a, b) => Compare::GreaterThan(a.dup(), b.dup()),
            Compare::LessThanEquals(a, b) => Compare::LessThanEquals(a.dup(), b.dup()),
            Compare::GreaterThanEquals(a, b) => Compare::GreaterThanEquals(a.dup(), b.dup()),
        }
    }

    /// The source form of this comparison (see [`spec_compare_rewrite`]).
    pub fn rewrite(&self) -> (r: String)
        ensures
            r@ == spec_compare_rewrite(self@),
    {
        let (l, op, rr) = match self {
            Compare::Equals(a, b) => (a, " == ", b),
            Compare::NotEquals(a, b) => (a, " != ", b),
            Compare::LessThan(a, b) => (a, " < ", b),
            Compare::GreaterThan(a, b) => (a, " > ", b),
            Compare::LessThanEquals(a, b) => (a, " <= ", b),
            Compare::GreaterThanEquals(a, b) => (a, " >= ", b),
        };
        let mut r = l.rewrite();
        r.append(op);
        let rs = rr.rewrite();
        r.append(rs.as_str());
        proof {
            reveal_strlit(" == ");
            reveal_strlit(" != ");
            reveal_strlit(" < ");
            reveal_strlit(" > ");
            reveal_strlit(" <= ");
            reveal_strlit(" >= ");
            assert(" == "@ =~= seq![' ', '=', '=', ' ']);
            assert(" != "@ =~= seq![' ', '!', '=', ' ']);
            assert(" < "@ =~= seq![' ', '<', ' ']);
            assert(" > "@ =~= seq![' ', '>', ' ']);
            assert(" <= "@ =~= seq![' ', '<', '=', ' ']);
            assert(" >= "@ =~= seq![' ', '>', '=', ' ']);
        }
        r
    }
}

impl CallTarget {
    /// An equal copy of this call target.
    pub fn dup(&self) -> (r: CallTarget)
        ensures
            r == *self,
    {
        CallTarget { module: self.module.clone(), function: self.function.clone() }
    }

    /// The source form of this call target (see [`spec_target_rewrite`]).
    pub fn rewrite(&self) -> (r: String)
        ensures
            r@ == spec_target_rewrite(self@),
    {
        let mut r = String::from_str("@");
        r.append(self.module.as_str());
        r.append(":");
        r.append(self.function.as_str());
        proof {
            reveal_strlit("@");
            reveal_strlit(":");
            assert("@"@ =~= seq!['@']);
            assert(":"@ =~= seq![':']);
            assert(r@ =~= seq!['@'] + self.module@ + seq![':'] + self.function@);
        }
        r
    }
}

/// The source forms of `vs`, separated by single spaces (see [`spec_join`]).
fn join_values(vs: &Vec<Value>) -> (r: String)
    ensures
        r@ == spec_join(vs.deep_view()),
{
    let ghost vv = vs.deep_view();
    if vs.len() == 0 {
        let r = String::new();
        assert(r@ =~= spec_join(vv));
        r
    } else {
        let mut r = vs[0].rewrite();
        let mut i: usize = 1;
        proof {
            assert(vv[0] == vs@[0]@);
            assert(r@ + spec_join_tail(vv.skip(1)) =~= spec_value_rewrite(vv[0])
                + spec_join_tail(vv.skip(1)));
        }
        while i < vs.len()
            invariant
                1 <= i <= vv.len(),
                vv == vs.deep_view(),
                spec_join(vv) == r@ + spec_join_tail(vv.skip(i as int)),
            decreases vv.len() - i,
        {
            let ghost pre = r@;
            let ghost tail = vv.skip(i as int);
            proof {
                assert(tail[0] == vv[i as int]);
                assert(tail.skip(1) =~= vv.skip(i + 1));
                assert(vv[i as int] == vs@[i as int]@);
            }
            r.append(" ");
            let p = vs[i].rewrite();
            r.append(p.as_str());
            proof {
                reveal_strlit(" ");
                assert(" "@ =~= seq![' ']);
                assert(r@ =~= pre + (seq![' '] + spec_value_rewrite(vv[i as int])));
                assert((pre + (seq![' '] + spec_value_rewrite(vv[i as int]))) + spec_join_tail(
                    vv.skip(i + 1),
                ) =~= pre + (seq![' '] + spec_value_rewrite(vv[i as int]) + spec_join_tail(
                    vv.skip(i + 1),
                )));
            }
            i = i + 1;
        }
        proof {
            assert(vv.skip(i as int) =~= Seq::<ValueV>::empty());
            assert(r@ + Seq::<char>::empty() =~= r@);
        }
        r
    }
}

impl StatementContext {
    /// A copy of this statement shape, equal in value.
    pub fn dup(&self) -> (r: StatementContext)
        ensures
            r@ == self@,
    {
        match self {
            StatementContext::AssignLiteral(n, v) => StatementContext::AssignLiteral(
                n.clone(),
                v.dup(),
            ),
            StatementContext::AssignBinOp(n, b) => StatementContext::AssignBinOp(
                n.clone(),
                b.dup(),
            ),
            StatementContext::AssignCall(n, t, vs) => {
                let mut nvs: Vec<Value> = Vec::new();
                let mut i: usize = 0;
                while i < vs.len()
                    invariant
                        i <= vs@.len(),
                        nvs@ =~= vs@.take(i as int),
                    decreases vs@.len() - i,
                {
                    nvs.push(vs[i].dup());
                    i = i + 1;
                    assert(nvs@ =~= vs@.take(i as int));
                }
                proof {
                    assert(vs@.take(vs@.len() as int) =~= vs@);
                }
                StatementContext::AssignCall(n.clone(), t.dup(), nvs)
            },
            StatementContext::GotoDef(n) => StatementContext::GotoDef(n.clone()),
            StatementContext::Goto(n) => StatementContext::Goto(n.clone()),
            StatementContext::GotoIf(n, c) => StatementContext::GotoIf(n.clone(), c.dup()),
            StatementContext::Call(t, vs) => {
                let mut nvs: Vec<Value> = Vec::new();
                let mut i: usize = 0;
                while i < vs.len()
                    invariant
                        i <= vs@.len(),
                        nvs@ =~= vs@.take(i as int),
                    decreases vs@.len() - i,
                {
                    nvs.push(vs[i].dup());
                    i = i + 1;
                    assert(nvs@ =~= vs@.take(i as int));
                }
                proof {
                    assert(vs@.take(vs@.len() as int) =~= vs@);
                }
                StatementContext::Call(t.dup(), nvs)
            },
            StatementContext::CallLabel(n) => StatementContext::CallLabel(n.clone()),
            StatementContext::Ret => StatementContext::Ret,
        }
    }

    /// The source form of this statement (see [`spec_stmt_rewrite`]).
    pub fn rewrite(&self) -> (r: String)
        ensures
            r@ == spec_stmt_rewrite(self@),
    {
        match self {
            StatementContext::AssignLiteral(n, v) => {
                let mut r = n.clone();
                r.append(" = ");
                let vr = v.rewrite();
                r.append(vr.as_str());
                proof {
                    reveal_strlit(" = ");
                    assert(" = "@ =~= seq![' ', '=', ' ']);
                }
                r
            },
            StatementContext::AssignBinOp(n, b) => {
                let mut r = n.clone();
                r.append(" = ");
                let br = b.rewrite();
                r.append(br.as_str());
                proof {
                    reveal_strlit(" = ");
                    assert(" = "@ =~= seq![' ', '=', ' ']);
                }
                r
            },
            StatementContext::AssignCall(n, t, vs) => {
                let mut r = n.clone();
                r.append(" = ");
                let tr = t.rewrite();
                r.append(tr.as_str());
                r.append(" ");
                let js = join_values(vs);
                r.append(js.as_str());
                proof {
                    reveal_strlit(" = ");
                    reveal_strlit(" ");
                    assert(" = "@ =~= seq![' ', '=', ' ']);
                    assert(" "@ =~= seq![' ']);
                }
                r
            },
            StatementContext::GotoDef(n) => {
                let mut r = String::from_str("~");
                r.append(n.as_str());
                proof {
                    reveal_strlit("~");
                    assert("~"@ =~= seq!['~']);
                }
                r
            },
            StatementContext::Goto(n) => {
                let mut r = String::from_str("goto ");
                r.append(n.as_str());
                proof {
                    reveal_strlit("goto ");
                    assert("goto "@ =~= seq!['g', 'o', 't', 'o', ' ']);
                }
                r
            },
            StatementContext::GotoIf(n, c) => {
                let mut r = String::from_str("goto ");
                r.append(n.as_str());
                r.append(" if ");
                let cr = c.rewrite();
                r.append(cr.as_str());
                proof {
                    reveal_strlit("goto ");
                    reveal_strlit(" if ");
                    assert("goto "@ =~= seq!['g', 'o', 't', 'o', ' ']);
                    assert(" if "@ =~= seq![' ', 'i', 'f', ' ']);
                }
                r
            },
            StatementContext::Call(t, vs) => {
                let mut r = t.rewrite();
                r.append(" ");
                let js = join_values(vs);
                r.append(js.as_str());
                proof {
                    reveal_strlit(" ");
                    assert(" "@ =~= seq![' ']);
                }
                r
            },
            StatementContext::CallLabel(n) => {
                let mut r = String::from_str("call ");
                r.append(n.as_str());
                proof {
                    reveal_strlit("call ");
                    assert("call "@ =~= seq!['c', 'a', 'l', 'l', ' ']);
                }
                r
            },
            StatementContext::Ret => {
                let r = String::from_str("ret");
                proof {
                    reveal_strlit("ret");
                    assert("ret"@ =~= seq!['r', 'e', 't']);
                }
                r
            },
        }
    }
}

impl Statement {
    /// A copy of this statement, equal in value.
    pub fn dup(&self) -> (r: Statement)
        ensures
            r@ == self@,
    {
        Statement { line: self.line, file: self.file.clone(), context: self.context.dup() }
    }

    /// A runtime-stage diagnostic anchored at this statement: the context
    /// shown is the statement's own source form, underlined whole.
    pub fn error(&self, message: String) -> (r: Error)
        ensures
            r.line == self.line,
            r.column == 1,
            r.index == 0,
            r.width == spec_stmt_rewrite(self.context@).len(),
            r.file == self.file,
            r.message == message,
            r.context@ == spec_stmt_rewrite(self.context@),
            r.location == ErrorLocation::Interpreter,
    {
        let line = self.context.rewrite();
        let width = line.as_str().unicode_len();
        Error::new(
            self.line,
            1,
            0,
            width,
            self.file.clone(),
            message,
            line,
            ErrorLocation::Interpreter,
        )
    }
}

} // verus!
