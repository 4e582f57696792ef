//! The virtual machine: holds the statement sequence, the label table, the
//! variable environment, the array store, the native-function registry and
//! the call stack, and executes statements one at a time.
//!
//! Execution is specified per statement: [`VM::step`]'s contract gives the
//! exact state transition for every statement shape, over the mathematical
//! view [`VmV`] of the machine. Native functions are dispatched through the
//! registry; built-in natives run inside the machine, host natives (I/O and
//! the environment) suspend the machine with a [`HostRequest`] that the
//! caller performs before resuming.

use vstd::prelude::*;
use vstd::string::*;
use vstd::hash_map::StringHashMap;

use crate::errors::Error;
use crate::statements::{
    BinOpV, CallTarget, CallTargetV, CompareV, Statement, StatementContext, StatementContextV,
    StatementV, Value, ValueV,
};
use crate::value::{
    spec_add_vals, spec_div_vals, spec_eq_vals, spec_lt_vals, spec_mod_vals, spec_mul_vals,
    spec_sub_vals, VMValue, VMValueV,
};

verus! {

/// A built-in native function, dispatched by the registry.
#[derive(Debug, Clone, Copy, PartialEq, Eq, Structural)]
pub enum BuiltinFn {
    ArrayNew,
    ArrayGet,
    ArrayPop,
    ArrayPopat,
    ArrayPush,
    ArrayIndex,
    ArrayReverse,
    ArraySort,
    ArrayLen,
    ArrayClone,
    ArrayIs,
    StringSplit,
    StringJoin,
    StringNotempty,
    StringContains,
    StringLen,
    StringToarray,
    ConvertAtoi,
    ConvertItoa,
    ConvertAtof,
    ConvertFtoa,
    MathSum,
    MathMax,
    StackPush,
    StackPop,
    StackLen,
    TestIs,
    RuntimeGoto,
    RuntimeBreakpoint,
    IterIterate,
    IterEnd,
    StdMap,
    StdMapdrop,
    StdFilter,
    IoSprint,
    IoSprintf,
}

/// A registry entry: a built-in native executed by the machine itself, or a
/// host native performed by the caller (I/O, the environment, the process).
#[derive(Debug, Clone, Copy, PartialEq, Eq, Structural)]
pub enum NativeKind {
    Builtin(BuiltinFn),
    Host,
}

/// A suspended host-native call: what the caller must perform. `idts` holds
/// the argument names as written at the call site (`None` for literals), so
/// a host native can write results back into the caller's variables through
/// the machine once resumed.
#[derive(Debug)]
pub struct HostRequest {
    pub module: String,
    pub function: String,
    pub idts: Vec<Option<String>>,
    pub args: Vec<VMValue>,
}

/// The mathematical value of a [`HostRequest`].
pub struct HostRequestV {
    pub module: Seq<char>,
    pub function: Seq<char>,
    pub idts: Seq<Option<Seq<char>>>,
    pub args: Seq<VMValueV>,
}

impl View for HostRequest {
    type V = HostRequestV;

    open spec fn view(&self) -> HostRequestV {
        HostRequestV {
            module: self.module@,
            function: self.function@,
            idts: self.idts.deep_view(),
            args: self.args.deep_view(),
        }
    }
}

/// The bookkeeping for a suspended host-native call.
pub struct PendingHost {
    pub assign_to: Option<String>,
    pub target: CallTarget,
    pub statement: Statement,
}

/// The mathematical value of a [`PendingHost`].
pub struct PendingHostV {
    pub assign_to: Option<Seq<char>>,
    pub target: CallTargetV,
    pub statement: StatementV,
}

impl View for PendingHost {
    type V = PendingHostV;

    open spec fn view(&self) -> PendingHostV {
        PendingHostV {
            assign_to: self.assign_to.deep_view(),
            target: self.target@,
            statement: self.statement@,
        }
    }
}

/// What one successful step produced: the machine moved on, or it suspended
/// on a host-native call.
#[derive(Debug)]
pub enum StepOutcome {
    Continue,
    HostCall(HostRequest),
}

/// What a run produced: the program ended, a breakpoint was reached, the
/// machine suspended on a host-native call, or the step budget ran out.
#[derive(Debug)]
pub enum RunOutcome {
    Done,
    Breakpoint,
    HostCall(HostRequest),
    Paused,
}

/// The mathematical state of the machine.
pub struct VmV {
    pub statements: Seq<StatementV>,
    pub funcs: Map<Seq<char>, NativeKind>,
    pub gotos: Map<Seq<char>, usize>,
    pub variables: Map<Seq<char>, VMValueV>,
    pub arrays: Seq<Seq<VMValueV>>,
    pub index: int,
    pub call_stack: Seq<usize>,
    pub stack: Seq<VMValueV>,
    pub breakpoint: bool,
    pub started: bool,
    pub pending: Option<PendingHostV>,
}

/// The virtual machine.
pub struct VM {
    pub statements: Vec<Statement>,
    pub funcs: StringHashMap<NativeKind>,
    pub gotos: StringHashMap<usize>,
    pub variables: StringHashMap<VMValue>,
    pub arrays: Vec<Vec<VMValue>>,
    pub index: usize,
    pub call_stack: Vec<usize>,
    pub stack: Vec<VMValue>,
    pub breakpoint: bool,
    pub started: bool,
    pub pending: Option<PendingHost>,
}

impl View for VM {
    type V = VmV;

    open spec fn view(&self) -> VmV {
        VmV {
            statements: self.statements.deep_view(),
            funcs: self.funcs@,
            gotos: self.gotos@,
            variables: vmap(self.variables@),
            arrays: self.arrays.deep_view(),
            index: self.index as int,
            call_stack: self.call_stack@,
            stack: self.stack.deep_view(),
            breakpoint: self.breakpoint,
            started: self.started,
            pending: match self.pending {
                Some(p) => Some(p@),
                None => None,
            },
        }
    }
}

/// The mathematical view of an exec variable map: each value viewed.
pub open spec fn vmap(m: Map<Seq<char>, VMValue>) -> Map<Seq<char>, VMValueV> {
    m.map_values(|v: VMValue| v@)
}

/// Inserting into a variable map and viewing commute.
pub proof fn lemma_vmap_insert(m: Map<Seq<char>, VMValue>, k: Seq<char>, v: VMValue)
    ensures
        vmap(m.insert(k, v)) == vmap(m).insert(k, v@),
{
    assert(vmap(m.insert(k, v)) =~= vmap(m).insert(k, v@));
}

/// Consistency follows a state change that leaves every checked component
/// alone and keeps the program counter in range.
pub proof fn lemma_wf_frame(pre: VmV, post: VmV)
    requires
        vm_wf(pre),
        forall|k: Seq<char>|
            #[trigger] post.variables.contains_key(k) ==> (pre.variables.contains_key(k)
                && post.variables[k] == pre.variables[k]) || val_wf(
                post.variables[k],
                post.arrays.len() as int,
            ),
        post.arrays == pre.arrays,
        post.stack == pre.stack,
        forall|i: int|
            0 <= i < post.call_stack.len() ==> (#[trigger] post.call_stack[i])
                < post.statements.len(),
        post.gotos == pre.gotos,
        post.statements == pre.statements,
        post.index <= post.statements.len(),
    ensures
        vm_wf(post),
{
    assert forall|k: Seq<char>| post.variables.contains_key(k) implies val_wf(
        #[trigger] post.variables[k],
        post.arrays.len() as int,
    ) by {
        if pre.variables.contains_key(k) && post.variables[k] == pre.variables[k] {
            assert(val_wf(pre.variables[k], pre.arrays.len() as int));
        }
    }
    assert forall|i: int, j: int|
        0 <= i < post.arrays.len() && 0 <= j < post.arrays[i].len() implies val_wf(
        #[trigger] post.arrays[i][j],
        post.arrays.len() as int,
    ) by {
        assert(val_wf(pre.arrays[i][j], pre.arrays.len() as int));
    }
    assert forall|i: int| 0 <= i < post.stack.len() implies val_wf(
        #[trigger] post.stack[i],
        post.arrays.len() as int,
    ) by {
        assert(val_wf(pre.stack[i], pre.arrays.len() as int));
    }
    assert forall|k: Seq<char>| post.gotos.contains_key(k) implies (
    #[trigger] post.gotos[k]) < post.statements.len() by {
        assert(pre.gotos[k] < pre.statements.len());
    }
}

/// Removing from a variable map and viewing commute.
pub proof fn lemma_vmap_remove(m: Map<Seq<char>, VMValue>, k: Seq<char>)
    ensures
        vmap(m.remove(k)) == vmap(m).remove(k),
{
    assert(vmap(m.remove(k)) =~= vmap(m).remove(k));
}

/// Consistency survives inserting a label that points at a statement.
pub proof fn lemma_wf_gotos_insert(pre: VmV, post: VmV, k: Seq<char>, v: usize)
    requires
        vm_wf(pre),
        post == (VmV { gotos: pre.gotos.insert(k, v), ..pre }),
        v < pre.statements.len(),
    ensures
        vm_wf(post),
{
    assert forall|k2: Seq<char>| post.gotos.contains_key(k2) implies (
    #[trigger] post.gotos[k2]) < post.statements.len() by {
        if k2 != k {
            assert(pre.gotos.contains_key(k2));
            assert(post.gotos[k2] == pre.gotos[k2]);
            assert(pre.gotos[k2] < pre.statements.len());
        }
    }
    assert forall|k2: Seq<char>| post.variables.contains_key(k2) implies val_wf(
        #[trigger] post.variables[k2],
        post.arrays.len() as int,
    ) by {
        assert(pre.variables.contains_key(k2));
        assert(val_wf(pre.variables[k2], pre.arrays.len() as int));
    }
    assert forall|i2: int, j2: int|
        0 <= i2 < post.arrays.len() && 0 <= j2 < post.arrays[i2].len() implies val_wf(
        #[trigger] post.arrays[i2][j2],
        post.arrays.len() as int,
    ) by {
        assert(val_wf(pre.arrays[i2][j2], pre.arrays.len() as int));
    }
    assert forall|i2: int| 0 <= i2 < post.stack.len() implies val_wf(
        #[trigger] post.stack[i2],
        post.arrays.len() as int,
    ) by {
        assert(val_wf(pre.stack[i2], pre.arrays.len() as int));
    }
    assert forall|i2: int| 0 <= i2 < post.call_stack.len() implies (
    #[trigger] post.call_stack[i2]) < post.statements.len() by {
        assert(pre.call_stack[i2] < pre.statements.len());
    }
}

/// Consistency survives appending one array to the store, provided its
/// elements' handles fit the grown store.
pub proof fn lemma_wf_arrays_push(pre: VmV, post: VmV, row: Seq<VMValueV>)
    requires
        vm_wf(pre),
        post == (VmV { arrays: pre.arrays.push(row), ..pre }),
        forall|j: int|
            0 <= j < row.len() ==> val_wf(#[trigger] row[j], pre.arrays.len() as int + 1),
    ensures
        vm_wf(post),
{
    assert forall|k2: Seq<char>| post.variables.contains_key(k2) implies val_wf(
        #[trigger] post.variables[k2],
        post.arrays.len() as int,
    ) by {
        assert(val_wf(pre.variables[k2], pre.arrays.len() as int));
    }
    assert forall|i2: int, j2: int|
        0 <= i2 < post.arrays.len() && 0 <= j2 < post.arrays[i2].len() implies val_wf(
        #[trigger] post.arrays[i2][j2],
        post.arrays.len() as int,
    ) by {
        if i2 < pre.arrays.len() {
            assert(post.arrays[i2] == pre.arrays[i2]);
            assert(val_wf(pre.arrays[i2][j2], pre.arrays.len() as int));
        } else {
            assert(post.arrays[i2] == row);
            assert(val_wf(row[j2], pre.arrays.len() as int + 1));
        }
    }
    assert forall|i2: int| 0 <= i2 < post.stack.len() implies val_wf(
        #[trigger] post.stack[i2],
        post.arrays.len() as int,
    ) by {
        assert(val_wf(pre.stack[i2], pre.arrays.len() as int));
    }
    assert forall|i2: int| 0 <= i2 < post.call_stack.len() implies (
    #[trigger] post.call_stack[i2]) < post.statements.len() by {
        assert(pre.call_stack[i2] < pre.statements.len());
    }
    assert forall|k2: Seq<char>| post.gotos.contains_key(k2) implies (
    #[trigger] post.gotos[k2]) < post.statements.len() by {
        assert(pre.gotos[k2] < pre.statements.len());
    }
}

/// Consistency survives dropping labels and variables.
pub proof fn lemma_wf_shrink(pre: VmV, post: VmV)
    requires
        vm_wf(pre),
        post.arrays == pre.arrays,
        post.stack == pre.stack,
        post.call_stack == pre.call_stack,
        post.statements == pre.statements,
        post.index <= post.statements.len(),
        forall|k: Seq<char>|
            #[trigger] post.variables.contains_key(k) ==> pre.variables.contains_key(k)
                && post.variables[k] == pre.variables[k],
        forall|k: Seq<char>|
            #[trigger] post.gotos.contains_key(k) ==> pre.gotos.contains_key(k)
                && post.gotos[k] == pre.gotos[k],
    ensures
        vm_wf(post),
{
    assert forall|k2: Seq<char>| post.variables.contains_key(k2) implies val_wf(
        #[trigger] post.variables[k2],
        post.arrays.len() as int,
    ) by {
        assert(pre.variables.contains_key(k2) && post.variables[k2] == pre.variables[k2]);
        assert(val_wf(pre.variables[k2], pre.arrays.len() as int));
    }
    assert forall|k2: Seq<char>| post.gotos.contains_key(k2) implies (
    #[trigger] post.gotos[k2]) < post.statements.len() by {
        assert(pre.gotos.contains_key(k2) && post.gotos[k2] == pre.gotos[k2]);
        assert(pre.gotos[k2] < pre.statements.len());
    }
    assert forall|i2: int, j2: int|
        0 <= i2 < post.arrays.len() && 0 <= j2 < post.arrays[i2].len() implies val_wf(
        #[trigger] post.arrays[i2][j2],
        post.arrays.len() as int,
    ) by {
        assert(val_wf(pre.arrays[i2][j2], pre.arrays.len() as int));
    }
    assert forall|i2: int| 0 <= i2 < post.stack.len() implies val_wf(
        #[trigger] post.stack[i2],
        post.arrays.len() as int,
    ) by {
        assert(val_wf(pre.stack[i2], pre.arrays.len() as int));
    }
    assert forall|i2: int| 0 <= i2 < post.call_stack.len() implies (
    #[trigger] post.call_stack[i2]) < post.statements.len() by {
        assert(pre.call_stack[i2] < pre.statements.len());
    }
}

/// A value's array handle, if it has one, lies within the store.
pub open spec fn val_wf(v: VMValueV, n: int) -> bool {
    v is Array ==> 0 <= v->Array_0 < n
}

/// The machine state is consistent: every array handle held anywhere points
/// into the store, every recorded label and return address points into the
/// statement sequence, and the program counter is in range.
pub open spec fn vm_wf(s: VmV) -> bool {
    &&& forall|k: Seq<char>|
        s.variables.contains_key(k) ==> val_wf(#[trigger] s.variables[k], s.arrays.len() as int)
    &&& forall|i: int, j: int|
        0 <= i < s.arrays.len() && 0 <= j < s.arrays[i].len() ==> val_wf(
            #[trigger] s.arrays[i][j],
            s.arrays.len() as int,
        )
    &&& forall|i: int|
        0 <= i < s.stack.len() ==> val_wf(#[trigger] s.stack[i], s.arrays.len() as int)
    &&& forall|i: int|
        0 <= i < s.call_stack.len() ==> (#[trigger] s.call_stack[i]) < s.statements.len()
    &&& forall|k: Seq<char>|
        s.gotos.contains_key(k) ==> (#[trigger] s.gotos[k]) < s.statements.len()
    &&& s.index <= s.statements.len()
}

/// The label table of a statement prefix: every label definition among the
/// first `n` statements, mapped to its statement index; a repeated label
/// keeps its last definition.
pub open spec fn spec_label_table(sts: Seq<StatementV>, n: int) -> Map<Seq<char>, usize>
    decreases n,
{
    if n <= 0 {
        Map::empty()
    } else {
        let m = spec_label_table(sts, n - 1);
        match sts[n - 1].context {
            StatementContextV::GotoDef(l) => m.insert(l, (n - 1) as usize),
            _ => m,
        }
    }
}

/// The registry key of a call target: `module:function`.
pub open spec fn target_key(t: CallTargetV) -> Seq<char> {
    t.module + seq![':'] + t.function
}

/// The runtime value a parse-time value denotes directly (an identifier
/// keeps its name; the machine resolves it instead of using this).
pub open spec fn spec_of_value(v: ValueV) -> VMValueV {
    match v {
        ValueV::Bool(b) => VMValueV::Bool(b),
        ValueV::Int(i) => VMValueV::Int(i),
        ValueV::Float(f) => VMValueV::Float(f),
        ValueV::Str(s) => VMValueV::Str(s),
        ValueV::Identifier(n) => VMValueV::Identifier(n),
    }
}

/// An operand resolved against the variables: an identifier is looked up
/// (an error if absent), any literal denotes itself.
pub open spec fn spec_resolve(vars: Map<Seq<char>, VMValueV>, v: ValueV) -> Result<VMValueV, ()> {
    match v {
        ValueV::Identifier(n) => {
            if vars.contains_key(n) {
                Ok(vars[n])
            } else {
                Err(())
            }
        },
        _ => Ok(spec_of_value(v)),
    }
}

/// An operation's operands resolved and the operation applied (see the
/// `spec_*_vals` functions of the value model).
pub open spec fn spec_eval_binop(
    vars: Map<Seq<char>, VMValueV>,
    b: BinOpV,
) -> Result<VMValueV, ()> {
    let (l, r, which) = match b {
        BinOpV::Add(l, r) => (l, r, 0int),
        BinOpV::Sub(l, r) => (l, r, 1int),
        BinOpV::Mul(l, r) => (l, r, 2int),
        BinOpV::Div(l, r) => (l, r, 3int),
        BinOpV::Mod(l, r) => (l, r, 4int),
    };
    match (spec_resolve(vars, l), spec_resolve(vars, r)) {
        (Ok(a), Ok(c)) => {
            if which == 0 {
                spec_add_vals(a, c)
            } else if which == 1 {
                spec_sub_vals(a, c)
            } else if which == 2 {
                spec_mul_vals(a, c)
            } else if which == 3 {
                spec_div_vals(a, c)
            } else {
                spec_mod_vals(a, c)
            }
        },
        _ => Err(()),
    }
}

/// A comparison's operands resolved and the comparator applied: equality
/// and inequality over like-typed pairs, order over numeric pairs.
pub open spec fn spec_eval_compare(
    vars: Map<Seq<char>, VMValueV>,
    c: CompareV,
) -> Result<bool, ()> {
    match c {
        CompareV::Equals(l, r) => match (spec_resolve(vars, l), spec_resolve(vars, r)) {
            (Ok(a), Ok(b)) => spec_eq_vals(a, b),
            _ => Err(()),
        },
        CompareV::NotEquals(l, r) => match (spec_resolve(vars, l), spec_resolve(vars, r)) {
            (Ok(a), Ok(b)) => match spec_eq_vals(a, b) {
                Ok(e) => Ok(!e),
                Err(()) => Err(()),
            },
            _ => Err(()),
        },
        CompareV::LessThan(l, r) => match (spec_resolve(vars, l), spec_resolve(vars, r)) {
            (Ok(a), Ok(b)) => spec_lt_vals(a, b),
            _ => Err(()),
        },
        CompareV::GreaterThan(l, r) => match (spec_resolve(vars, l), spec_resolve(vars, r)) {
            (Ok(a), Ok(b)) => spec_lt_vals(b, a),
            _ => Err(()),
        },
        CompareV::LessThanEquals(l, r) => match (spec_resolve(vars, l), spec_resolve(vars, r)) {
            (Ok(a), Ok(b)) => match (spec_lt_vals(a, b), spec_eq_vals(a, b)) {
                (Ok(lt), Ok(e)) => Ok(lt || e),
                _ => Err(()),
            },
            _ => Err(()),
        },
        CompareV::GreaterThanEquals(l, r) => match (
            spec_resolve(vars, l),
            spec_resolve(vars, r),
        ) {
            (Ok(a), Ok(b)) => match (spec_lt_vals(b, a), spec_eq_vals(a, b)) {
                (Ok(gt), Ok(e)) => Ok(gt || e),
                _ => Err(()),
            },
            _ => Err(()),
        },
    }
}

/// Call-site arguments resolved against the variables: the values, and the
/// names they were written as (`None` for literals).
pub struct ResolvedArgs {
    pub idts: Seq<Option<Seq<char>>>,
    pub args: Seq<VMValueV>,
}

/// Resolves every call-site argument in order: an identifier is looked up
/// (an error if absent) and remembered by name, a literal denotes itself.
pub open spec fn spec_resolve_args(
    vars: Map<Seq<char>, VMValueV>,
    vs: Seq<ValueV>,
) -> Result<ResolvedArgs, ()>
    decreases vs.len(),
{
    if vs.len() == 0 {
        Ok(ResolvedArgs { idts: Seq::empty(), args: Seq::empty() })
    } else {
        match spec_resolve_args(vars, vs.drop_last()) {
            Err(()) => Err(()),
            Ok(rv) => match vs.last() {
                ValueV::Identifier(n) => {
                    if vars.contains_key(n) {
                        Ok(
                            ResolvedArgs {
                                idts: rv.idts.push(Some(n)),
                                args: rv.args.push(vars[n]),
                            },
                        )
                    } else {
                        Err(())
                    }
                },
                v => Ok(
                    ResolvedArgs { idts: rv.idts.push(None), args: rv.args.push(spec_of_value(v)) },
                ),
            },
        }
    }
}

/// What holds of every native call, whatever it did: the program, the
/// registry and the suspension bookkeeping are untouched, the array store
/// only grows (so handles stay valid), and the program counter is either
/// untouched or moved to a statement (so the step that follows stays in
/// range).
pub open spec fn native_common(pre: VmV, post: VmV) -> bool {
    &&& post.statements == pre.statements
    &&& post.funcs == pre.funcs
    &&& post.pending == pre.pending
    &&& post.started == pre.started
    &&& pre.arrays.len() <= post.arrays.len()
    &&& (post.index == pre.index || post.index < post.statements.len() as int)
}

/// The effect of one built-in native call: the common guarantees, the
/// result value holding only valid handles, and the native's own contract.
pub open spec fn builtin_post(
    b: BuiltinFn,
    pre: VmV,
    post: VmV,
    idts: Seq<Option<Seq<char>>>,
    args: Seq<VMValueV>,
    r: Result<Option<VMValueV>, ()>,
) -> bool {
    &&& native_common(pre, post)
    &&& post.call_stack == pre.call_stack
    &&& vm_wf(post)
    &&& (match r {
        Ok(Some(v)) => val_wf(v, post.arrays.len() as int),
        _ => true,
    })
    &&& match b {
        BuiltinFn::ArrayNew => crate::stdlib::array::array_new_post(pre, post, idts, args, r),
        BuiltinFn::ArrayGet => crate::stdlib::array::array_get_post(pre, post, idts, args, r),
        BuiltinFn::ArrayPop => crate::stdlib::array::array_pop_post(pre, post, idts, args, r),
        BuiltinFn::ArrayPopat => crate::stdlib::array::array_popat_post(pre, post, idts, args, r),
        BuiltinFn::ArrayPush => crate::stdlib::array::array_push_post(pre, post, idts, args, r),
        BuiltinFn::ArrayIndex => crate::stdlib::array::array_index_post(pre, post, idts, args, r),
        BuiltinFn::ArrayReverse => crate::stdlib::array::array_reverse_post(
            pre,
            post,
            idts,
            args,
            r,
        ),
        BuiltinFn::ArraySort => crate::stdlib::array::array_sort_post(pre, post, idts, args, r),
        BuiltinFn::ArrayLen => crate::stdlib::array::array_len_post(pre, post, idts, args, r),
        BuiltinFn::ArrayClone => crate::stdlib::array::array_clone_post(pre, post, idts, args, r),
        BuiltinFn::ArrayIs => crate::stdlib::array::array_is_post(pre, post, idts, args, r),
        BuiltinFn::StringSplit => crate::stdlib::string::string_split_post(
            pre,
            post,
            idts,
            args,
            r,
        ),
        BuiltinFn::StringJoin => crate::stdlib::string::string_join_post(pre, post, idts, args, r),
        BuiltinFn::StringNotempty => crate::stdlib::string::string_notempty_post(
            pre,
            post,
            idts,
            args,
            r,
        ),
        BuiltinFn::StringContains => crate::stdlib::string::string_contains_post(
            pre,
            post,
            idts,
            args,
            r,
        ),
        BuiltinFn::StringLen => crate::stdlib::string::string_len_post(pre, post, idts, args, r),
        BuiltinFn::StringToarray => crate::stdlib::string::string_toarray_post(
            pre,
            post,
            idts,
            args,
            r,
        ),
        BuiltinFn::ConvertAtoi => crate::stdlib::convert::convert_atoi_post(
            pre,
            post,
            idts,
            args,
            r,
        ),
        BuiltinFn::ConvertItoa => crate::stdlib::convert::convert_itoa_post(
            pre,
            post,
            idts,
            args,
            r,
        ),
        BuiltinFn::ConvertAtof => crate::stdlib::convert::convert_atof_post(
            pre,
            post,
            idts,
            args,
            r,
        ),
        BuiltinFn::ConvertFtoa => crate::stdlib::convert::convert_ftoa_post(
            pre,
            post,
            idts,
            args,
            r,
        ),
        BuiltinFn::MathSum => crate::stdlib::math::math_sum_post(pre, post, idts, args, r),
        BuiltinFn::MathMax => crate::stdlib::math::math_max_post(pre, post, idts, args, r),
        BuiltinFn::StackPush => crate::stdlib::stack::stack_push_post(pre, post, idts, args, r),
        BuiltinFn::StackPop => crate::stdlib::stack::stack_pop_post(pre, post, idts, args, r),
        BuiltinFn::StackLen => crate::stdlib::stack::stack_len_post(pre, post, idts, args, r),
        BuiltinFn::TestIs => crate::stdlib::test::test_is_post(pre, post, idts, args, r),
        BuiltinFn::RuntimeGoto => crate::stdlib::runtime::runtime_goto_post(
            pre,
            post,
            idts,
            args,
            r,
        ),
        BuiltinFn::RuntimeBreakpoint => crate::stdlib::runtime::runtime_breakpoint_post(
            pre,
            post,
            idts,
            args,
            r,
        ),
        BuiltinFn::IterIterate => crate::stdlib::iter::iter_iterate_post(pre, post, idts, args, r),
        BuiltinFn::IterEnd => crate::stdlib::iter::iter_end_post(pre, post, idts, args, r),
        BuiltinFn::StdMap => crate::stdlib::stdfns::std_map_post(pre, post, idts, args, r),
        BuiltinFn::StdMapdrop => crate::stdlib::stdfns::std_mapdrop_post(pre, post, idts, args, r),
        BuiltinFn::StdFilter => crate::stdlib::stdfns::std_filter_post(pre, post, idts, args, r),
        BuiltinFn::IoSprint => crate::stdlib::io::io_sprint_post(pre, post, idts, args, r),
        BuiltinFn::IoSprintf => crate::stdlib::io::io_sprintf_post(pre, post, idts, args, r),
    }
}

/// The effect of a native-call statement: arguments resolved, the registry
/// consulted (a miss is an error), a host native suspending the machine, a
/// built-in native running and — for the assigning form — its result stored
/// (a built-in returning nothing to an assignment is an error).
pub open spec fn call_stmt_post(
    pre: VmV,
    post: VmV,
    assign: Option<Seq<char>>,
    t: CallTargetV,
    ra: ResolvedArgs,
    r: Result<Option<HostRequestV>, ()>,
) -> bool {
    {
        {
            let key = target_key(t);
            if !pre.funcs.contains_key(key) {
                r is Err && post == pre
            } else {
                match pre.funcs[key] {
                    NativeKind::Host => {
                        &&& r == Ok::<Option<HostRequestV>, ()>(
                            Some(
                                HostRequestV {
                                    module: t.module,
                                    function: t.function,
                                    idts: ra.idts,
                                    args: ra.args,
                                },
                            ),
                        )
                        &&& post == VmV {
                            pending: Some(
                                PendingHostV {
                                    assign_to: assign,
                                    target: t,
                                    statement: pre.statements[pre.index],
                                },
                            ),
                            ..pre
                        }
                    },
                    NativeKind::Builtin(b) => exists|mid: VmV, nr: Result<Option<VMValueV>, ()>|
                        {
                            &&& #[trigger] builtin_post(b, pre, mid, ra.idts, ra.args, nr)
                            &&& match nr {
                                Err(()) => r is Err && post == mid,
                                Ok(opt) => match assign {
                                    Some(name) => match opt {
                                        Some(v) => r == Ok::<Option<HostRequestV>, ()>(None)
                                            && post == VmV {
                                            variables: mid.variables.insert(name, v),
                                            index: mid.index + 1,
                                            ..mid
                                        },
                                        None => r is Err && post == mid,
                                    },
                                    None => r == Ok::<Option<HostRequestV>, ()>(None) && post
                                        == VmV { index: mid.index + 1, ..mid },
                                },
                            }
                        },
                }
            }
        }
    }
}

/// A step that suspends on a host request leaves the machine suspended on
/// the statement it was executing.
pub proof fn lemma_host_outcome(pre: VmV, post: VmV, rq: HostRequestV)
    requires
        0 <= pre.index < pre.statements.len(),
        step_post(pre, post, Ok(Some(rq))),
    ensures
        post.pending is Some,
        post.index == pre.index,
        post.index < post.statements.len(),
{
    match pre.statements[pre.index].context {
        StatementContextV::AssignCall(name, t, vs) => {
            assert(post.pending is Some && post.statements == pre.statements
                && post.index == pre.index);
        },
        StatementContextV::Call(t, vs) => {
            assert(post.pending is Some && post.statements == pre.statements
                && post.index == pre.index);
        },
        _ => {
            assert(false);
        },
    }
}

/// The state a run steps from: the first run registers the host native
/// `vm:debug` and builds the label table over the whole program, exactly
/// once; later runs step from the machine as it stands.
pub open spec fn run_start(pre: VmV) -> VmV {
    if pre.started {
        pre
    } else {
        VmV {
            started: true,
            funcs: pre.funcs.insert("vm"@ + seq![':'] + "debug"@, NativeKind::Host),
            gotos: spec_label_table(pre.statements, pre.statements.len() as int),
            ..pre
        }
    }
}

/// A chain of machine states in which each next state follows from its
/// predecessor by one completed step: the statement at the counter is
/// fetched and executed with the machine moving on (see [`step_post`] with
/// outcome `Ok(None)`).
pub open spec fn is_step_chain(chain: Seq<VmV>) -> bool {
    forall|i: int|
        0 <= i < chain.len() - 1 ==> {
            &&& 0 <= (#[trigger] chain[i]).index < chain[i].statements.len()
            &&& step_post(chain[i], chain[i + 1], Ok(None))
        }
}

/// `post` is reached from `pre` by exactly `k` completed steps.
pub open spec fn steps_to(pre: VmV, post: VmV, k: nat) -> bool {
    exists|chain: Seq<VmV>|
        {
            &&& #[trigger] is_step_chain(chain)
            &&& chain.len() == k + 1
            &&& chain.first() == pre
            &&& chain.last() == post
        }
}

/// A machine reaches itself by zero steps.
pub proof fn lemma_steps_refl(s: VmV)
    ensures
        steps_to(s, s, 0),
{
    let chain = seq![s];
    assert(is_step_chain(chain));
    assert(chain.len() == 1 && chain.first() == s && chain.last() == s);
}

/// A completed step extends a step chain by one.
pub proof fn lemma_steps_extend(pre: VmV, mid: VmV, post: VmV, k: nat)
    requires
        steps_to(pre, mid, k),
        0 <= mid.index < mid.statements.len(),
        step_post(mid, post, Ok(None)),
    ensures
        steps_to(pre, post, (k + 1) as nat),
{
    let chain0 = choose|c: Seq<VmV>|
        {
            &&& #[trigger] is_step_chain(c)
            &&& c.len() == k + 1
            &&& c.first() == pre
            &&& c.last() == mid
        };
    let c2 = chain0.push(post);
    assert(c2.len() == k + 2);
    assert(c2.first() == pre);
    assert(c2.last() == post);
    assert forall|i: int| 0 <= i < c2.len() - 1 implies {
        &&& 0 <= (#[trigger] c2[i]).index < c2[i].statements.len()
        &&& step_post(c2[i], c2[i + 1], Ok(None))
    } by {
        if i < chain0.len() - 1 {
            assert(c2[i] == chain0[i]);
            assert(c2[i + 1] == chain0[i + 1]);
        } else {
            assert(c2[i] == chain0.last());
            assert(c2[i + 1] == post);
        }
    }
    assert(is_step_chain(c2));
}

/// The exact transition of one step, per statement shape. `r` is `Ok(None)`
/// when the machine moved on, `Ok(Some(rq))` when it suspended on the host
/// request `rq`, and an error when the statement failed.
pub open spec fn step_post(pre: VmV, post: VmV, r: Result<Option<HostRequestV>, ()>) -> bool {
    match pre.statements[pre.index].context {
        StatementContextV::AssignLiteral(name, v) => match spec_resolve(pre.variables, v) {
            Ok(val) => r == Ok::<Option<HostRequestV>, ()>(None) && post == VmV {
                variables: pre.variables.insert(name, val),
                index: pre.index + 1,
                ..pre
            },
            Err(()) => r is Err && post == pre,
        },
        StatementContextV::AssignBinOp(name, b) => match spec_eval_binop(pre.variables, b) {
            Ok(val) => r == Ok::<Option<HostRequestV>, ()>(None) && post == VmV {
                variables: pre.variables.insert(name, val),
                index: pre.index + 1,
                ..pre
            },
            Err(()) => r is Err && post == pre,
        },
        StatementContextV::AssignCall(name, t, vs) => match spec_resolve_args(
            pre.variables,
            vs,
        ) {
            Err(()) => r is Err && post == pre,
            Ok(ra) => call_stmt_post(pre, post, Some(name), t, ra, r),
        },
        StatementContextV::GotoDef(_) => r == Ok::<Option<HostRequestV>, ()>(None) && post
            == VmV { index: pre.index + 1, ..pre },
        StatementContextV::Goto(l) => {
            if pre.gotos.contains_key(l) {
                r == Ok::<Option<HostRequestV>, ()>(None) && post == VmV {
                    index: pre.gotos[l] + 1,
                    ..pre
                }
            } else {
                r is Err && post == pre
            }
        },
        StatementContextV::GotoIf(l, c) => match spec_eval_compare(pre.variables, c) {
            Ok(jump) => {
                if jump {
                    if pre.gotos.contains_key(l) {
                        r == Ok::<Option<HostRequestV>, ()>(None) && post == VmV {
                            index: pre.gotos[l] + 1,
                            ..pre
                        }
                    } else {
                        r is Err && post == pre
                    }
                } else {
                    r == Ok::<Option<HostRequestV>, ()>(None) && post == VmV {
                        index: pre.index + 1,
                        ..pre
                    }
                }
            },
            Err(()) => r is Err && post == pre,
        },
        StatementContextV::Call(t, vs) => match spec_resolve_args(pre.variables, vs) {
            Err(()) => r is Err && post == pre,
            Ok(ra) => call_stmt_post(pre, post, None, t, ra, r),
        },
        StatementContextV::CallLabel(l) => {
            if pre.gotos.contains_key(l) {
                r == Ok::<Option<HostRequestV>, ()>(None) && post == VmV {
                    call_stack: pre.call_stack.push(pre.index as usize),
                    index: pre.gotos[l] + 1,
                    ..pre
                }
            } else {
                r is Err && post == pre
            }
        },
        StatementContextV::Ret => {
            if pre.call_stack.len() > 0 {
                r == Ok::<Option<HostRequestV>, ()>(None) && post == VmV {
                    call_stack: pre.call_stack.drop_last(),
                    index: pre.call_stack.last() + 1,
                    ..pre
                }
            } else {
                r is Err && post == pre
            }
        },
    }
}

/// The view of a native call's result: the optional value viewed, the error
/// text dropped.
pub open spec fn res_view(r: Result<Option<VMValue>, String>) -> Result<Option<VMValueV>, ()> {
    match r {
        Ok(None) => Ok(None),
        Ok(Some(v)) => Ok(Some(v@)),
        Err(_) => Err(()),
    }
}

/// The view of a step's result: `Ok(None)` for a completed step,
/// `Ok(Some(rq))` for a suspension on the host request `rq`.
pub open spec fn outcome_view(r: Result<StepOutcome, Error>) -> Result<Option<HostRequestV>, ()> {
    match r {
        Ok(StepOutcome::Continue) => Ok(None),
        Ok(StepOutcome::HostCall(rq)) => Ok(Some(rq@)),
        Err(_) => Err(()),
    }
}

/// If a prefix of the call-site arguments fails to resolve, the whole
/// argument list fails to resolve.
pub proof fn lemma_resolve_args_err(vars: Map<Seq<char>, VMValueV>, vs: Seq<ValueV>, j: int)
    requires
        0 <= j <= vs.len(),
        spec_resolve_args(vars, vs.take(j)) is Err,
    ensures
        spec_resolve_args(vars, vs) is Err,
    decreases vs.len() - j,
{
    if j < vs.len() {
        assert(vs.take(j + 1).drop_last() =~= vs.take(j));
        assert(spec_resolve_args(vars, vs.take(j + 1)) is Err);
        lemma_resolve_args_err(vars, vs, j + 1);
    } else {
        assert(vs.take(j) =~= vs);
    }
}

impl VM {
    /// The machine state is consistent (see [`vm_wf`]).
    pub open spec fn wf(self) -> bool {
        vm_wf(self@)
    }

    /// A fresh machine over `statements`: empty environment, registry,
    /// array store and stacks, the program counter at the first statement.
    pub fn new(statements: Vec<Statement>) -> (r: VM)
        ensures
            r.wf(),
            r@.statements == statements.deep_view(),
            r@.funcs == Map::<Seq<char>, NativeKind>::empty(),
            r@.gotos == Map::<Seq<char>, usize>::empty(),
            r@.variables == Map::<Seq<char>, VMValueV>::empty(),
            r@.arrays == Seq::<Seq<VMValueV>>::empty(),
            r@.index == 0,
            r@.call_stack == Seq::<usize>::empty(),
            r@.stack == Seq::<VMValueV>::empty(),
            r@.breakpoint == false,
            r@.started == false,
            r@.pending is None,
    {
        let r = VM {
            statements,
            funcs: StringHashMap::new(),
            gotos: StringHashMap::new(),
            variables: StringHashMap::new(),
            arrays: Vec::new(),
            index: 0,
            call_stack: Vec::new(),
            stack: Vec::new(),
            breakpoint: false,
            started: false,
            pending: None,
        };
        proof {
            assert(r@.variables =~= Map::<Seq<char>, VMValueV>::empty());
            assert(r@.arrays =~= Seq::<Seq<VMValueV>>::empty());
            assert(r@.stack =~= Seq::<VMValueV>::empty());
        }
        r
    }

    /// Registers a native under `module:function`. The registry is built
    /// before a run starts; nothing checks registrations made later.
    pub fn register(&mut self, module: &str, name: &str, kind: NativeKind)
        ensures
            final(self)@ == (VmV {
                funcs: old(self)@.funcs.insert(module@ + seq![':'] + name@, kind),
                ..old(self)@
            }),
            old(self).wf() ==> final(self).wf(),
    {
        let mut key = String::from_str(module);
        key.append(":");
        key.append(name);
        proof {
            reveal_strlit(":");
            assert(":"@ =~= seq![':']);
            assert(key@ =~= module@ + seq![':'] + name@);
        }
        self.funcs.insert(key, kind);
    }

    /// Builds the label table: one pass over all statements, each label
    /// definition recording its statement index (see [`spec_label_table`]).
    fn build_gotos(&mut self)
        requires
            old(self).wf(),
        ensures
            final(self).wf(),
            final(self)@ == (VmV {
                gotos: spec_label_table(old(self)@.statements, old(self)@.statements.len() as int),
                ..old(self)@
            }),
    {
        let ghost sts = self@.statements;
        let n = self.statements.len();
        let mut i: usize = 0;
        // start from an empty table so a rerun rebuilds it exactly
        self.gotos = StringHashMap::new();
        proof {
            assert(self@.gotos =~= spec_label_table(sts, 0));
            assert(self@ == (VmV { gotos: spec_label_table(sts, 0), ..old(self)@ }));
        }
        while i < n
            invariant
                i <= n,
                n == self.statements@.len(),
                sts == self.statements.deep_view(),
                self.wf(),
                self@ == (VmV { gotos: spec_label_table(sts, i as int), ..old(self)@ }),
            decreases n - i,
        {
            proof {
                assert(sts[i as int] == self.statements@[i as int]@);
            }
            let ghost t = spec_label_table(sts, i as int);
            match &self.statements[i].context {
                StatementContext::GotoDef(l) => {
                    let key = l.clone();
                    let ghost pv = self@;
                    self.gotos.insert(key, i);
                    proof {
                        assert(sts[i as int].context is GotoDef);
                        assert(sts[i as int].context->GotoDef_0 == l@);
                        assert(key@ == l@);
                        assert(self@.gotos == t.insert(l@, i));
                        assert(spec_label_table(sts, i + 1) == t.insert(
                            sts[i as int].context->GotoDef_0,
                            i,
                        ));
                        assert(self@ == (VmV {
                            gotos: spec_label_table(sts, i + 1),
                            ..old(self)@
                        }));
                        assert forall|k2: Seq<char>|
                            self@.gotos.contains_key(k2) implies (
                        #[trigger] self@.gotos[k2]) < self@.statements.len() by {
                            if k2 == key@ {
                                assert(self@.gotos[k2] == i);
                            } else {
                                assert(self@.gotos[k2] == pv.gotos[k2]);
                                assert(pv.gotos.contains_key(k2));
                                assert(pv.gotos[k2] < pv.statements.len());
                            }
                        }
                        assert forall|k2: Seq<char>|
                            self@.variables.contains_key(k2) implies val_wf(
                            #[trigger] self@.variables[k2],
                            self@.arrays.len() as int,
                        ) by {
                            assert(val_wf(pv.variables[k2], pv.arrays.len() as int));
                        }
                        assert forall|i2: int, j2: int|
                            0 <= i2 < self@.arrays.len() && 0 <= j2
                                < self@.arrays[i2].len() implies val_wf(
                            #[trigger] self@.arrays[i2][j2],
                            self@.arrays.len() as int,
                        ) by {
                            assert(val_wf(pv.arrays[i2][j2], pv.arrays.len() as int));
                        }
                        assert forall|i2: int| 0 <= i2 < self@.stack.len() implies val_wf(
                            #[trigger] self@.stack[i2],
                            self@.arrays.len() as int,
                        ) by {
                            assert(val_wf(pv.stack[i2], pv.arrays.len() as int));
                        }
                        assert forall|i2: int|
                            0 <= i2 < self@.call_stack.len() implies (
                        #[trigger] self@.call_stack[i2]) < self@.statements.len() by {
                            assert(pv.call_stack[i2] < pv.statements.len());
                        }
                        assert(vm_wf(self@));
                    }
                },
                _ => {
                    proof {
                        assert(!(sts[i as int].context is GotoDef));
                        assert(spec_label_table(sts, i + 1) == t);
                    }
                },
            }
            i = i + 1;
        }
    }

    /// An operand resolved against the variables (see [`spec_resolve`]): an
    /// absent identifier is the `variable not found` error.
    fn resolve(&self, v: &Value) -> (r: Result<VMValue, String>)
        ensures
            match spec_resolve(self@.variables, v@) {
                Ok(val) => r is Ok && r->Ok_0@ == val,
                Err(()) => r is Err,
            },
    {
        match v {
            Value::Identifier(n) => {
                proof {
                    assert(self@.variables.contains_key(n@) == self.variables@.contains_key(n@));
                    if self.variables@.contains_key(n@) {
                        assert(self@.variables[n@] == self.variables@[n@]@);
                    }
                }
                match self.variables.get(n.as_str()) {
                    Some(val) => Ok(val.dup()),
                    None => {
                        let mut m = String::from_str("variable not found: ");
                        m.append(n.as_str());
                        Err(m)
                    },
                }
            },
            _ => Ok(VMValue::from(v.dup())),
        }
    }

    /// Every call-site argument resolved in order (see
    /// [`spec_resolve_args`]).
    fn resolve_args(&self, vs: &Vec<Value>) -> (r: Result<(Vec<Option<String>>, Vec<VMValue>), String>)
        ensures
            match spec_resolve_args(self@.variables, vs.deep_view()) {
                Ok(ra) => {
                    &&& r is Ok
                    &&& r->Ok_0.0.deep_view() == ra.idts
                    &&& r->Ok_0.1.deep_view() == ra.args
                },
                Err(()) => r is Err,
            },
    {
        let ghost vv = vs.deep_view();
        let mut idts: Vec<Option<String>> = Vec::new();
        let mut args: Vec<VMValue> = Vec::new();
        let mut i: usize = 0;
        proof {
            assert(vv.take(0) =~= Seq::<ValueV>::empty());
            assert(idts.deep_view() =~= Seq::<Option<Seq<char>>>::empty());
            assert(args.deep_view() =~= Seq::<VMValueV>::empty());
        }
        while i < vs.len()
            invariant
                i <= vv.len(),
                vv == vs.deep_view(),
                spec_resolve_args(self@.variables, vv.take(i as int)) == Ok::<ResolvedArgs, ()>(
                    ResolvedArgs { idts: idts.deep_view(), args: args.deep_view() },
                ),
            decreases vv.len() - i,
        {
            let ghost pre_i = idts.deep_view();
            let ghost pre_a = args.deep_view();
            proof {
                assert(vv.take(i + 1).drop_last() =~= vv.take(i as int));
                assert(vv.take(i + 1).last() == vv[i as int]);
                assert(vv[i as int] == vs@[i as int]@);
            }
            match &vs[i] {
                Value::Identifier(n) => {
                    proof {
                        assert(self@.variables.contains_key(n@) == self.variables@.contains_key(
                            n@,
                        ));
                        if self.variables@.contains_key(n@) {
                            assert(self@.variables[n@] == self.variables@[n@]@);
                        }
                    }
                    match self.variables.get(n.as_str()) {
                        Some(val) => {
                            idts.push(Some(n.clone()));
                            args.push(val.dup());
                        },
                        None => {
                            proof {
                                assert(spec_resolve_args(
                                    self@.variables,
                                    vv.take(i + 1),
                                ) is Err);
                                lemma_resolve_args_err(self@.variables, vv, i + 1);
                            }
                            let mut m = String::from_str("variable not found: ");
                            m.append(n.as_str());
                            return Err(m);
                        },
                    }
                },
                other => {
                    idts.push(None);
                    args.push(VMValue::from(other.dup()));
                },
            }
            i = i + 1;
            proof {
                assert(idts.deep_view() =~= pre_i.push(idts@[idts@.len() - 1].deep_view()));
                assert(args.deep_view() =~= pre_a.push(args@[args@.len() - 1]@));
            }
        }
        proof {
            assert(vv.take(i as int) =~= vv);
        }
        Ok((idts, args))
    }
}

impl VM {
    /// Every argument resolved from a consistent machine holds only valid
    /// handles.
    proof fn lemma_resolve_args_wf(s: VmV, vs: Seq<ValueV>)
        requires
            vm_wf(s),
            spec_resolve_args(s.variables, vs) is Ok,
        ensures
            ({
                let ra = spec_resolve_args(s.variables, vs)->Ok_0;
                forall|i: int|
                    0 <= i < ra.args.len() ==> val_wf(#[trigger] ra.args[i], s.arrays.len() as int)
            }),
        decreases vs.len(),
    {
        if vs.len() > 0 {
            Self::lemma_resolve_args_wf(s, vs.drop_last());
        }
    }

    /// A comparison evaluated against the variables (see
    /// [`spec_eval_compare`]).
    fn eval_compare(&self, c: &crate::statements::Compare) -> (r: Result<bool, String>)
        ensures
            match spec_eval_compare(self@.variables, c@) {
                Ok(b) => r is Ok && r->Ok_0 == b,
                Err(()) => r is Err,
            },
    {
        let (l, rr, which) = match c {
            crate::statements::Compare::Equals(l, rv) => (l, rv, 0usize),
            crate::statements::Compare::NotEquals(l, rv) => (l, rv, 1usize),
            crate::statements::Compare::LessThan(l, rv) => (l, rv, 2usize),
            crate::statements::Compare::GreaterThan(l, rv) => (l, rv, 3usize),
            crate::statements::Compare::LessThanEquals(l, rv) => (l, rv, 4usize),
            crate::statements::Compare::GreaterThanEquals(l, rv) => (l, rv, 5usize),
        };
        let a = match self.resolve(l) {
            Ok(v) => v,
            Err(m) => {
                return Err(m);
            },
        };
        let b = match self.resolve(rr) {
            Ok(v) => v,
            Err(m) => {
                return Err(m);
            },
        };
        let res = if which == 0 {
            a.equals(&b)
        } else if which == 1 {
            a.not_equals(&b)
        } else if which == 2 {
            a.less(&b)
        } else if which == 3 {
            a.greater(&b)
        } else if which == 4 {
            a.less_equals(&b)
        } else {
            a.greater_equals(&b)
        };
        match res {
            Ok(VMValue::Bool(x)) => Ok(x),
            Ok(_) => {
                proof {
                    assert(false);
                }
                Err(String::new())
            },
            Err(m) => Err(m),
        }
    }

    /// An operation evaluated against the variables (see
    /// [`spec_eval_binop`]).
    fn eval_binop(&self, b: &crate::statements::BinOp) -> (r: Result<VMValue, String>)
        ensures
            match spec_eval_binop(self@.variables, b@) {
                Ok(v) => r is Ok && r->Ok_0@ == v,
                Err(()) => r is Err,
            },
    {
        let (l, rr, which) = match b {
            crate::statements::BinOp::Add(l, rv) => (l, rv, 0usize),
            crate::statements::BinOp::Sub(l, rv) => (l, rv, 1usize),
            crate::statements::BinOp::Mul(l, rv) => (l, rv, 2usize),
            crate::statements::BinOp::Div(l, rv) => (l, rv, 3usize),
            crate::statements::BinOp::Mod(l, rv) => (l, rv, 4usize),
        };
        let a = match self.resolve(l) {
            Ok(v) => v,
            Err(m) => {
                return Err(m);
            },
        };
        let c = match self.resolve(rr) {
            Ok(v) => v,
            Err(m) => {
                return Err(m);
            },
        };
        if which == 0 {
            a.add(&c)
        } else if which == 1 {
            a.sub(&c)
        } else if which == 2 {
            a.mul(&c)
        } else if which == 3 {
            a.div(&c)
        } else {
            a.mod_(&c)
        }
    }

    /// The registry key of a target: `module:function`.
    fn make_key(target: &CallTarget) -> (r: String)
        ensures
            r@ == target_key(target@),
    {
        let mut key = target.module.clone();
        key.append(":");
        key.append(target.function.as_str());
        proof {
            reveal_strlit(":");
            assert(":"@ =~= seq![':']);
            assert(key@ =~= target@.module + seq![':'] + target@.function);
        }
        key
    }

    /// Executes a native-call statement once its arguments are resolved
    /// (see [`call_stmt_post`]): registry lookup, host suspension or
    /// built-in dispatch, and the assignment of the result.
    fn do_call(
        &mut self,
        assign: Option<String>,
        target: CallTarget,
        idts: Vec<Option<String>>,
        vmargs: Vec<VMValue>,
        statement: &Statement,
        Ghost(ra): Ghost<ResolvedArgs>,
    ) -> (r: Result<StepOutcome, Error>)
        requires
            old(self).wf(),
            old(self)@.pending is None,
            old(self)@.index < old(self)@.statements.len(),
            statement@ == old(self)@.statements[old(self)@.index],
            idts.deep_view() == ra.idts,
            vmargs.deep_view() == ra.args,
            forall|i: int|
                0 <= i < ra.args.len() ==> val_wf(
                    #[trigger] ra.args[i],
                    old(self)@.arrays.len() as int,
                ),
        ensures
            final(self).wf(),
            call_stmt_post(
                old(self)@,
                final(self)@,
                match assign {
                    Some(n) => Some(n@),
                    None => None,
                },
                target@,
                ra,
                outcome_view(r),
            ),
    {
        let ghost pre = self@;
        let key = VM::make_key(&target);
        let kind = match self.funcs.get(key.as_str()) {
            Some(k) => *k,
            None => {
                let mut m = String::from_str("function not found: ");
                m.append(target.module.as_str());
                m.append(":");
                m.append(target.function.as_str());
                return Err(statement.error(m));
            },
        };
        match kind {
            NativeKind::Host => {
                let ghost av = assign.deep_view();
                let rq = HostRequest {
                    module: target.module.clone(),
                    function: target.function.clone(),
                    idts,
                    args: vmargs,
                };
                let ghost tv = target@;
                self.pending = Some(
                    PendingHost { assign_to: assign, target, statement: statement.dup() },
                );
                proof {
                    assert(self@ == (VmV {
                        pending: Some(
                            PendingHostV {
                                assign_to: av,
                                target: tv,
                                statement: pre.statements[pre.index],
                            },
                        ),
                        ..pre
                    }));
                    assert forall|ci: int|
                        0 <= ci < self@.call_stack.len() implies (
                    #[trigger] self@.call_stack[ci]) < self@.statements.len() by {
                        assert(pre.call_stack[ci] < pre.statements.len());
                    }
                    lemma_wf_frame(pre, self@);
                }
                Ok(StepOutcome::HostCall(rq))
            },
            NativeKind::Builtin(b) => {
                let res = self.call_builtin(b, &idts, &vmargs);
                let ghost mid = self@;
                let n2 = self.statements.len();
                match res {
                    Err(m) => {
                        proof {
                            assert(builtin_post(b, pre, mid, ra.idts, ra.args, Err(())));
                        }
                        Err(statement.error(m))
                    },
                    Ok(opt) => {
                        let ghost nr = res_view(Ok(opt));
                        proof {
                            assert(builtin_post(b, pre, mid, ra.idts, ra.args, nr));
                            assert(self@.index < self@.statements.len());
                            assert(self.index < n2);
                        }
                        match assign {
                            Some(name) => match opt {
                                Some(v) => {
                                    let ghost vv = v@;
                                    let ghost namev = name@;
                                    proof {
                                        assert(val_wf(vv, mid.arrays.len() as int));
                                        assert(val_wf(vv, self@.arrays.len() as int));
                                        lemma_vmap_insert(self.variables@, name@, v);
                                    }
                                    self.variables.insert(name, v);
                                    self.index = self.index + 1;
                                    proof {
                                        assert(self@ == (VmV {
                                            variables: mid.variables.insert(namev, vv),
                                            index: mid.index + 1,
                                            ..mid
                                        }));
                                        assert forall|ci: int|
                                            0 <= ci < self@.call_stack.len() implies (
                                        #[trigger] self@.call_stack[ci])
                                            < self@.statements.len() by {
                                            assert(mid.call_stack[ci]
                                                < mid.statements.len());
                                        }
                                        lemma_wf_frame(mid, self@);
                                        assert(call_stmt_post(
                                            pre,
                                            self@,
                                            Some(namev),
                                            target@,
                                            ra,
                                            Ok(None),
                                        ));
                                    }
                                    Ok(StepOutcome::Continue)
                                },
                                None => {
                                    let mut m = String::from_str(
                                        "function did not return a value: @",
                                    );
                                    m.append(target.module.as_str());
                                    m.append(":");
                                    m.append(target.function.as_str());
                                    proof {
                                        assert(call_stmt_post(
                                            pre,
                                            self@,
                                            Some(name@),
                                            target@,
                                            ra,
                                            Err(()),
                                        ));
                                    }
                                    Err(statement.error(m))
                                },
                            },
                            None => {
                                self.index = self.index + 1;
                                proof {
                                    assert(self@ == (VmV { index: mid.index + 1, ..mid }));
                                    assert forall|ci: int|
                                        0 <= ci < self@.call_stack.len() implies (
                                    #[trigger] self@.call_stack[ci])
                                        < self@.statements.len() by {
                                        assert(mid.call_stack[ci] < mid.statements.len());
                                    }
                                    lemma_wf_frame(mid, self@);
                                    assert(call_stmt_post(
                                        pre,
                                        self@,
                                        None::<Seq<char>>,
                                        target@,
                                        ra,
                                        Ok(None),
                                    ));
                                }
                                Ok(StepOutcome::Continue)
                            },
                        }
                    },
                }
            },
        }
    }

    /// Executes the statement at the program counter (see [`step_post`] for
    /// the exact transition). A failing statement's error is wrapped with
    /// the statement's position; a host-native call suspends the machine
    /// instead of completing.
    pub fn step(&mut self) -> (r: Result<StepOutcome, Error>)
        requires
            old(self).wf(),
            old(self)@.pending is None,
            old(self)@.index < old(self)@.statements.len(),
        ensures
            final(self).wf(),
            step_post(old(self)@, final(self)@, outcome_view(r)),
    {
        let ghost pre = self@;
        proof {
            assert(pre.statements[pre.index] == self.statements@[self.index as int]@);
        }
        let statement = self.statements[self.index].dup();
        let n = self.statements.len();
        let ctx = statement.context.dup();
        match ctx {
            StatementContext::AssignLiteral(name, value) => {
                match self.resolve(&value) {
                    Ok(v) => {
                        proof {
                            assert(val_wf(v@, pre.arrays.len() as int));
                            lemma_vmap_insert(self.variables@, name@, v);
                        }
                        self.variables.insert(name, v);
                        self.index = self.index + 1;
                        proof {
                            assert forall|ci: int|
                                0 <= ci < self@.call_stack.len() implies (
                            #[trigger] self@.call_stack[ci]) < self@.statements.len() by {
                                assert(pre.call_stack[ci] < pre.statements.len());
                            }
                            lemma_wf_frame(pre, self@);
                        }
                        Ok(StepOutcome::Continue)
                    },
                    Err(m) => Err(statement.error(m)),
                }
            },
            StatementContext::AssignBinOp(name, binop) => {
                match self.eval_binop(&binop) {
                    Ok(v) => {
                        proof {
                            // arithmetic yields integers and floats only
                            assert(val_wf(v@, pre.arrays.len() as int));
                            lemma_vmap_insert(self.variables@, name@, v);
                        }
                        self.variables.insert(name, v);
                        self.index = self.index + 1;
                        proof {
                            assert forall|ci: int|
                                0 <= ci < self@.call_stack.len() implies (
                            #[trigger] self@.call_stack[ci]) < self@.statements.len() by {
                                assert(pre.call_stack[ci] < pre.statements.len());
                            }
                            lemma_wf_frame(pre, self@);
                        }
                        Ok(StepOutcome::Continue)
                    },
                    Err(m) => Err(statement.error(m)),
                }
            },
            StatementContext::AssignCall(name, target, cargs) => {
                let resolved = match self.resolve_args(&cargs) {
                    Ok(p) => p,
                    Err(m) => {
                        return Err(statement.error(m));
                    },
                };
                let (idts, vmargs) = resolved;
                let ghost ra = spec_resolve_args(pre.variables, cargs.deep_view())->Ok_0;
                proof {
                    VM::lemma_resolve_args_wf(pre, cargs.deep_view());
                }
                self.do_call(Some(name), target, idts, vmargs, &statement, Ghost(ra))
            },
            StatementContext::Call(target, cargs) => {
                let resolved = match self.resolve_args(&cargs) {
                    Ok(p) => p,
                    Err(m) => {
                        return Err(statement.error(m));
                    },
                };
                let (idts, vmargs) = resolved;
                let ghost ra = spec_resolve_args(pre.variables, cargs.deep_view())->Ok_0;
                proof {
                    VM::lemma_resolve_args_wf(pre, cargs.deep_view());
                }
                self.do_call(None, target, idts, vmargs, &statement, Ghost(ra))
            },
            StatementContext::GotoDef(_) => {
                self.index = self.index + 1;
                Ok(StepOutcome::Continue)
            },
            StatementContext::Goto(label) => {
                match self.gotos.get(label.as_str()) {
                    Some(ix) => {
                        let ix = *ix;
                        proof {
                            assert(self@.gotos.contains_key(label@));
                            assert(self@.gotos[label@] < self@.statements.len());
                            assert(ix < n);
                        }
                        self.index = ix + 1;
                        proof {
                            assert forall|ci: int|
                                0 <= ci < self@.call_stack.len() implies (
                            #[trigger] self@.call_stack[ci]) < self@.statements.len() by {
                                assert(pre.call_stack[ci] < pre.statements.len());
                            }
                            lemma_wf_frame(pre, self@);
                        }
                        Ok(StepOutcome::Continue)
                    },
                    None => {
                        let mut m = String::from_str("goto not found: ");
                        m.append(label.as_str());
                        Err(statement.error(m))
                    },
                }
            },
            StatementContext::GotoIf(label, compare) => {
                match self.eval_compare(&compare) {
                    Ok(jump) => {
                        if jump {
                            match self.gotos.get(label.as_str()) {
                                Some(ix) => {
                                    let ix = *ix;
                                    proof {
                                        assert(self@.gotos.contains_key(label@));
                                        assert(self@.gotos[label@] < self@.statements.len());
                                        assert(ix < n);
                                    }
                                    self.index = ix + 1;
                                    proof {
                                        assert forall|ci: int|
                                            0 <= ci < self@.call_stack.len() implies (
                                        #[trigger] self@.call_stack[ci])
                                            < self@.statements.len() by {
                                            assert(pre.call_stack[ci] < pre.statements.len());
                                        }
                                        lemma_wf_frame(pre, self@);
                                    }
                                    Ok(StepOutcome::Continue)
                                },
                                None => {
                                    let mut m = String::from_str("goto not found: ");
                                    m.append(label.as_str());
                                    Err(statement.error(m))
                                },
                            }
                        } else {
                            self.index = self.index + 1;
                            Ok(StepOutcome::Continue)
                        }
                    },
                    Err(m) => Err(statement.error(m)),
                }
            },
            StatementContext::CallLabel(label) => {
                match self.gotos.get(label.as_str()) {
                    Some(ix) => {
                        let ix = *ix;
                        proof {
                            assert(self@.gotos.contains_key(label@));
                            assert(self@.gotos[label@] < self@.statements.len());
                            assert(ix < n);
                        }
                        self.call_stack.push(self.index);
                        self.index = ix + 1;
                        proof {
                            assert(self@.call_stack == pre.call_stack.push(
                                pre.index as usize,
                            ));
                            assert forall|i2: int|
                                0 <= i2 < self@.call_stack.len() implies (
                            #[trigger] self@.call_stack[i2]) < self@.statements.len() by {
                                if i2 < pre.call_stack.len() {
                                    assert(self@.call_stack[i2] == pre.call_stack[i2]);
                                }
                            }
                            lemma_wf_frame(pre, self@);
                        }
                        Ok(StepOutcome::Continue)
                    },
                    None => {
                        let mut m = String::from_str("goto not found: ");
                        m.append(label.as_str());
                        Err(statement.error(m))
                    },
                }
            },
            StatementContext::Ret => {
                match self.call_stack.pop() {
                    Some(ix) => {
                        proof {
                            assert(pre.call_stack.last() == ix);
                            assert(ix < n);
                        }
                        self.index = ix + 1;
                        proof {
                            assert forall|ci: int|
                                0 <= ci < self@.call_stack.len() implies (
                            #[trigger] self@.call_stack[ci]) < self@.statements.len() by {
                                assert(pre.call_stack[ci] < pre.statements.len());
                            }
                            lemma_wf_frame(pre, self@);
                        }
                        Ok(StepOutcome::Continue)
                    },
                    None => Err(statement.error(String::from_str("call stack is empty"))),
                }
            },
        }
    }

    /// Dispatches one built-in native (see [`builtin_post`]).
    fn call_builtin(
        &mut self,
        b: BuiltinFn,
        idts: &Vec<Option<String>>,
        args: &Vec<VMValue>,
    ) -> (r: Result<Option<VMValue>, String>)
        requires
            old(self).wf(),
            forall|i: int|
                0 <= i < args.deep_view().len() ==> val_wf(
                    #[trigger] args.deep_view()[i],
                    old(self)@.arrays.len() as int,
                ),
        ensures
            final(self).wf(),
            builtin_post(b, old(self)@, final(self)@, idts.deep_view(), args.deep_view(), res_view(r)),
    {
        match b {
            BuiltinFn::ArrayNew => crate::stdlib::array::array_new(self, idts, args),
            BuiltinFn::ArrayGet => crate::stdlib::array::array_get(self, idts, args),
            BuiltinFn::ArrayPop => crate::stdlib::array::array_pop(self, idts, args),
            BuiltinFn::ArrayPopat => crate::stdlib::array::array_popat(self, idts, args),
            BuiltinFn::ArrayPush => crate::stdlib::array::array_push(self, idts, args),
            BuiltinFn::ArrayIndex => crate::stdlib::array::array_index(self, idts, args),
            BuiltinFn::ArrayReverse => crate::stdlib::array::array_reverse(self, idts, args),
            BuiltinFn::ArraySort => crate::stdlib::array::array_sort(self, idts, args),
            BuiltinFn::ArrayLen => crate::stdlib::array::array_len(self, idts, args),
            BuiltinFn::ArrayClone => crate::stdlib::array::array_clone(self, idts, args),
            BuiltinFn::ArrayIs => crate::stdlib::array::array_is(self, idts, args),
            BuiltinFn::StringSplit => crate::stdlib::string::string_split(self, idts, args),
            BuiltinFn::StringJoin => crate::stdlib::string::string_join(self, idts, args),
            BuiltinFn::StringNotempty => crate::stdlib::string::string_notempty(self, idts, args),
            BuiltinFn::StringContains => crate::stdlib::string::string_contains(self, idts, args),
            BuiltinFn::StringLen => crate::stdlib::string::string_len(self, idts, args),
            BuiltinFn::StringToarray => crate::stdlib::string::string_toarray(self, idts, args),
            BuiltinFn::ConvertAtoi => crate::stdlib::convert::convert_atoi(self, idts, args),
            BuiltinFn::ConvertItoa => crate::stdlib::convert::convert_itoa(self, idts, args),
            BuiltinFn::ConvertAtof => crate::stdlib::convert::convert_atof(self, idts, args),
            BuiltinFn::ConvertFtoa => crate::stdlib::convert::convert_ftoa(self, idts, args),
            BuiltinFn::MathSum => crate::stdlib::math::math_sum(self, idts, args),
            BuiltinFn::MathMax => crate::stdlib::math::math_max(self, idts, args),
            BuiltinFn::StackPush => crate::stdlib::stack::stack_push(self, idts, args),
            BuiltinFn::StackPop => crate::stdlib::stack::stack_pop(self, idts, args),
            BuiltinFn::StackLen => crate::stdlib::stack::stack_len(self, idts, args),
            BuiltinFn::TestIs => crate::stdlib::test::test_is(self, idts, args),
            BuiltinFn::RuntimeGoto => crate::stdlib::runtime::runtime_goto(self, idts, args),
            BuiltinFn::RuntimeBreakpoint => crate::stdlib::runtime::runtime_breakpoint(
                self,
                idts,
                args,
            ),
            BuiltinFn::IterIterate => crate::stdlib::iter::iter_iterate(self, idts, args),
            BuiltinFn::IterEnd => crate::stdlib::iter::iter_end(self, idts, args),
            BuiltinFn::StdMap => crate::stdlib::stdfns::std_map(self, idts, args),
            BuiltinFn::StdMapdrop => crate::stdlib::stdfns::std_mapdrop(self, idts, args),
            BuiltinFn::StdFilter => crate::stdlib::stdfns::std_filter(self, idts, args),
            BuiltinFn::IoSprint => crate::stdlib::io::io_sprint(self, idts, args),
            BuiltinFn::IoSprintf => crate::stdlib::io::io_sprintf(self, idts, args),
        }
    }

    /// Calls a native by name, as the meta natives do: a registry miss or a
    /// host native is an error here; a built-in runs as from a call
    /// statement (see [`builtin_post`]).
    pub fn call(
        &mut self,
        module: String,
        name: String,
        idts: Vec<Option<String>>,
        args: Vec<VMValue>,
    ) -> (r: Result<Option<VMValue>, String>)
        requires
            old(self).wf(),
            forall|i: int|
                0 <= i < args.deep_view().len() ==> val_wf(
                    #[trigger] args.deep_view()[i],
                    old(self)@.arrays.len() as int,
                ),
        ensures
            final(self).wf(),
            ({
                let key = module@ + seq![':'] + name@;
                if !old(self)@.funcs.contains_key(key) {
                    r is Err && final(self)@ == old(self)@
                } else {
                    match old(self)@.funcs[key] {
                        NativeKind::Host => r is Err && final(self)@ == old(self)@,
                        NativeKind::Builtin(b) => builtin_post(
                            b,
                            old(self)@,
                            final(self)@,
                            idts.deep_view(),
                            args.deep_view(),
                            res_view(r),
                        ),
                    }
                }
            }),
    {
        let target = CallTarget { module, function: name };
        let key = VM::make_key(&target);
        let kind = match self.funcs.get(key.as_str()) {
            Some(k) => *k,
            None => {
                let mut m = String::from_str("function not found: ");
                m.append(key.as_str());
                return Err(m);
            },
        };
        match kind {
            NativeKind::Host => Err(
                String::from_str("cannot call a host function by name here"),
            ),
            NativeKind::Builtin(b) => self.call_builtin(b, &idts, &args),
        }
    }

    /// Calls a non-meta native by name, for the iterating natives: a meta
    /// native here reports its arity error instead of recursing.
    pub(crate) fn call_leaf(
        &mut self,
        module: &String,
        name: &String,
        idts: &Vec<Option<String>>,
        args: &Vec<VMValue>,
    ) -> (r: Result<Option<VMValue>, String>)
        requires
            old(self).wf(),
            forall|i: int|
                0 <= i < args.deep_view().len() ==> val_wf(
                    #[trigger] args.deep_view()[i],
                    old(self)@.arrays.len() as int,
                ),
        ensures
            final(self).wf(),
            native_common(old(self)@, final(self)@),
            final(self)@.call_stack == old(self)@.call_stack,
            match r {
                Ok(Some(v)) => val_wf(v@, final(self)@.arrays.len() as int),
                _ => true,
            },
    {
        let target = CallTarget { module: module.clone(), function: name.clone() };
        let key = VM::make_key(&target);
        let kind = match self.funcs.get(key.as_str()) {
            Some(k) => *k,
            None => {
                let mut m = String::from_str("function not found: ");
                m.append(key.as_str());
                return Err(m);
            },
        };
        match kind {
            NativeKind::Host => Err(
                String::from_str("cannot call a host function from an iterating native"),
            ),
            NativeKind::Builtin(b) => match b {
                BuiltinFn::StdMap | BuiltinFn::StdMapdrop | BuiltinFn::StdFilter => {
                    let mut m = String::from_str("expected 2 arguments, got ");
                    let c = crate::strutil::usize_to_string(args.len());
                    m.append(c.as_str());
                    Err(m)
                },
                BuiltinFn::ArrayNew => crate::stdlib::array::array_new(self, idts, args),
                BuiltinFn::ArrayGet => crate::stdlib::array::array_get(self, idts, args),
                BuiltinFn::ArrayPop => crate::stdlib::array::array_pop(self, idts, args),
                BuiltinFn::ArrayPopat => crate::stdlib::array::array_popat(self, idts, args),
                BuiltinFn::ArrayPush => crate::stdlib::array::array_push(self, idts, args),
                BuiltinFn::ArrayIndex => crate::stdlib::array::array_index(self, idts, args),
                BuiltinFn::ArrayReverse => crate::stdlib::array::array_reverse(
                    self,
                    idts,
                    args,
                ),
                BuiltinFn::ArraySort => crate::stdlib::array::array_sort(self, idts, args),
                BuiltinFn::ArrayLen => crate::stdlib::array::array_len(self, idts, args),
                BuiltinFn::ArrayClone => crate::stdlib::array::array_clone(self, idts, args),
                BuiltinFn::ArrayIs => crate::stdlib::array::array_is(self, idts, args),
                BuiltinFn::StringSplit => crate::stdlib::string::string_split(
                    self,
                    idts,
                    args,
                ),
                BuiltinFn::StringJoin => crate::stdlib::string::string_join(self, idts, args),
                BuiltinFn::StringNotempty => crate::stdlib::string::string_notempty(
                    self,
                    idts,
                    args,
                ),
                BuiltinFn::StringContains => crate::stdlib::string::string_contains(
                    self,
                    idts,
                    args,
                ),
                BuiltinFn::StringLen => crate::stdlib::string::string_len(self, idts, args),
                BuiltinFn::StringToarray => crate::stdlib::string::string_toarray(
                    self,
                    idts,
                    args,
                ),
                BuiltinFn::ConvertAtoi => crate::stdlib::convert::convert_atoi(
                    self,
                    idts,
                    args,
                ),
                BuiltinFn::ConvertItoa => crate::stdlib::convert::convert_itoa(
                    self,
                    idts,
                    args,
                ),
                BuiltinFn::ConvertAtof => crate::stdlib::convert::convert_atof(
                    self,
                    idts,
                    args,
                ),
                BuiltinFn::ConvertFtoa => crate::stdlib::convert::convert_ftoa(
                    self,
                    idts,
                    args,
                ),
                BuiltinFn::MathSum => crate::stdlib::math::math_sum(self, idts, args),
                BuiltinFn::MathMax => crate::stdlib::math::math_max(self, idts, args),
                BuiltinFn::StackPush => crate::stdlib::stack::stack_push(self, idts, args),
                BuiltinFn::StackPop => crate::stdlib::stack::stack_pop(self, idts, args),
                BuiltinFn::StackLen => crate::stdlib::stack::stack_len(self, idts, args),
                BuiltinFn::TestIs => crate::stdlib::test::test_is(self, idts, args),
                BuiltinFn::RuntimeGoto => crate::stdlib::runtime::runtime_goto(
                    self,
                    idts,
                    args,
                ),
                BuiltinFn::RuntimeBreakpoint => crate::stdlib::runtime::runtime_breakpoint(
                    self,
                    idts,
                    args,
                ),
                BuiltinFn::IterIterate => crate::stdlib::iter::iter_iterate(self, idts, args),
                BuiltinFn::IterEnd => crate::stdlib::iter::iter_end(self, idts, args),
                BuiltinFn::IoSprint => crate::stdlib::io::io_sprint(self, idts, args),
                BuiltinFn::IoSprintf => crate::stdlib::io::io_sprintf(self, idts, args),
            },
        }
    }

    /// Runs the machine for at most `fuel` steps: builds the label table on
    /// the first run, then fetches and executes statements until the
    /// program ends, a breakpoint or host-native call suspends it, an error
    /// aborts it, or the budget runs out (the caller may simply run again).
    pub fn run(&mut self, fuel: u64) -> (r: Result<RunOutcome, Error>)
        requires
            old(self).wf(),
            old(self)@.pending is None,
        ensures
            final(self).wf(),
            ({
                let start = run_start(old(self)@);
                let post = final(self)@;
                match r {
                    Ok(RunOutcome::Done) => {
                        &&& (exists|k: nat| #[trigger] steps_to(start, post, k))
                        &&& post.index >= post.statements.len()
                        &&& post.pending is None
                    },
                    Ok(RunOutcome::Paused) => {
                        &&& steps_to(start, post, fuel as nat)
                        &&& post.index < post.statements.len()
                        &&& post.pending is None
                    },
                    Ok(RunOutcome::Breakpoint) => {
                        &&& (exists|k: nat| #[trigger] steps_to(
                            start,
                            VmV { breakpoint: true, ..post },
                            k,
                        ))
                        &&& post.breakpoint == false
                        &&& post.pending is None
                    },
                    Ok(RunOutcome::HostCall(rq)) => {
                        &&& (exists|k: nat, mid: VmV|
                            {
                                &&& #[trigger] steps_to(start, mid, k)
                                &&& 0 <= mid.index < mid.statements.len()
                                &&& step_post(mid, post, Ok(Some(rq@)))
                            })
                        &&& post.pending is Some
                        &&& post.index < post.statements.len()
                    },
                    Err(_) => exists|k: nat, mid: VmV|
                        {
                            &&& #[trigger] steps_to(start, mid, k)
                            &&& 0 <= mid.index < mid.statements.len()
                            &&& step_post(mid, post, Err(()))
                        },
                }
            }),
    {
        let ghost start = run_start(old(self)@);
        if !self.started {
            self.started = true;
            proof {
                assert forall|ci: int|
                    0 <= ci < self@.call_stack.len() implies (
                #[trigger] self@.call_stack[ci]) < self@.statements.len() by {
                    assert(old(self)@.call_stack[ci] < old(self)@.statements.len());
                }
                lemma_wf_frame(old(self)@, self@);
            }
            self.register("vm", "debug", NativeKind::Host);
            self.build_gotos();
        }
        proof {
            assert(self@ == start);
            lemma_steps_refl(start);
        }
        let ghost fuel0 = fuel;
        let mut remaining = fuel;
        loop
            invariant
                self.wf(),
                self@.pending is None,
                start == run_start(old(self)@),
                fuel0 == fuel,
                remaining <= fuel0,
                steps_to(start, self@, (fuel0 - remaining) as nat),
            decreases remaining,
        {
            if self.index >= self.statements.len() {
                proof {
                    assert(steps_to(start, self@, (fuel0 - remaining) as nat));
                }
                return Ok(RunOutcome::Done);
            }
            if remaining == 0 {
                proof {
                    assert(steps_to(start, self@, fuel0 as nat));
                }
                return Ok(RunOutcome::Paused);
            }
            remaining = remaining - 1;
            let ghost pre_step = self@;
            let ghost done = ((fuel0 - remaining) - 1) as nat;
            proof {
                assert(steps_to(start, pre_step, done));
            }
            match self.step() {
                Err(e) => {
                    proof {
                        assert(step_post(pre_step, self@, Err(())));
                    }
                    return Err(e);
                },
                Ok(StepOutcome::HostCall(rq)) => {
                    proof {
                        assert(step_post(pre_step, self@, Ok(Some(rq@))));
                        assert(self@.pending is Some && self@.index
                            < self@.statements.len()) by {
                            lemma_host_outcome(pre_step, self@, rq@);
                        }
                    }
                    return Ok(RunOutcome::HostCall(rq));
                },
                Ok(StepOutcome::Continue) => {
                    proof {
                        let k = (fuel0 - remaining) as nat;
                        assert(steps_to(start, pre_step, (k - 1) as nat));
                        assert(0 <= pre_step.index < pre_step.statements.len());
                        assert(step_post(pre_step, self@, Ok(None)));
                        lemma_steps_extend(start, pre_step, self@, (k - 1) as nat);
                        assert((((k - 1) as nat) + 1) as nat == k);
                        assert(steps_to(start, self@, k));
                    }
                    if self.breakpoint {
                        let ghost stepped = self@;
                        self.breakpoint = false;
                        proof {
                            assert(stepped == (VmV { breakpoint: true, ..self@ }));
                            assert(steps_to(
                                start,
                                VmV { breakpoint: true, ..self@ },
                                (fuel0 - remaining) as nat,
                            ));
                            assert forall|ci: int|
                                0 <= ci < self@.call_stack.len() implies (
                            #[trigger] self@.call_stack[ci]) < self@.statements.len() by {
                                assert(stepped.call_stack[ci] < stepped.statements.len());
                            }
                            lemma_wf_frame(stepped, self@);
                        }
                        return Ok(RunOutcome::Breakpoint);
                    }
                },
            }
        }
    }

    /// Hands the result of a suspended host-native call back to the
    /// machine: an error aborts the statement, an assigning call stores the
    /// value (a missing value is an error), and execution moves past the
    /// statement.
    pub fn resume_host(&mut self, result: Result<Option<VMValue>, String>) -> (r: Result<
        (),
        Error,
    >)
        requires
            old(self).wf(),
            old(self)@.pending is Some,
            old(self)@.index < old(self)@.statements.len(),
            match result {
                Ok(Some(v)) => val_wf(v@, old(self)@.arrays.len() as int),
                _ => true,
            },
        ensures
            final(self).wf(),
            ({
                let pre = old(self)@;
                let post = final(self)@;
                let p = pre.pending->Some_0;
                match result {
                    Err(_) => r is Err && post == pre,
                    Ok(opt) => match p.assign_to {
                        Some(name) => match opt {
                            Some(v) => r is Ok && post == VmV {
                                variables: pre.variables.insert(name, v@),
                                index: pre.index + 1,
                                pending: None,
                                ..pre
                            },
                            None => r is Err && post == pre,
                        },
                        None => r is Ok && post == VmV {
                            index: pre.index + 1,
                            pending: None,
                            ..pre
                        },
                    },
                }
            }),
    {
        let n2 = self.statements.len();
        let (assign_to, target, statement) = match &self.pending {
            Some(p) => {
                let a = match &p.assign_to {
                    Some(n) => Some(n.clone()),
                    None => None,
                };
                (a, p.target.dup(), p.statement.dup())
            },
            None => {
                proof {
                    assert(false);
                }
                return Ok(());
            },
        };
        match result {
            Err(m) => Err(statement.error(m)),
            Ok(opt) => {
                match assign_to {
                    Some(name) => match opt {
                        Some(v) => {
                            proof {
                                assert(val_wf(v@, self@.arrays.len() as int));
                                lemma_vmap_insert(self.variables@, name@, v);
                            }
                            self.variables.insert(name, v);
                            proof {
                                assert(self.index < n2);
                            }
                            self.index = self.index + 1;
                            self.pending = None;
                            proof {
                                assert forall|ci: int|
                                    0 <= ci < self@.call_stack.len() implies (
                                #[trigger] self@.call_stack[ci])
                                    < self@.statements.len() by {
                                    assert(old(self)@.call_stack[ci]
                                        < old(self)@.statements.len());
                                }
                                lemma_wf_frame(old(self)@, self@);
                            }
                            Ok(())
                        },
                        None => {
                            let mut m = String::from_str(
                                "function did not return a value: @",
                            );
                            m.append(target.module.as_str());
                            m.append(":");
                            m.append(target.function.as_str());
                            Err(statement.error(m))
                        },
                    },
                    None => {
                        proof {
                            assert(self.index < n2);
                        }
                        self.index = self.index + 1;
                        self.pending = None;
                        proof {
                            assert forall|ci: int|
                                0 <= ci < self@.call_stack.len() implies (
                            #[trigger] self@.call_stack[ci]) < self@.statements.len() by {
                                assert(old(self)@.call_stack[ci]
                                    < old(self)@.statements.len());
                            }
                            lemma_wf_frame(old(self)@, self@);
                        }
                        Ok(())
                    },
                }
            },
        }
    }
}

} // verus!
