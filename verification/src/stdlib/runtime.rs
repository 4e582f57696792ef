//! The runtime natives: jumping to a label by its name, and arming the
//! breakpoint flag for the caller's debugger.

use vstd::prelude::*;
use vstd::string::*;

use crate::stdlib::array::{arity_error, type_error};
use crate::value::{VMValue, VMValueV};
use crate::vm::{val_wf, native_common, NativeKind, BuiltinFn, VmV, VM, res_view};

verus! {

/// `runtime:gotolabel` jumps to the label named by its string argument:
/// the program counter moves to the label's statement (execution resumes
/// just after it); an unknown label is an error.
pub open spec fn runtime_goto_post(
    pre: VmV,
    post: VmV,
    idts: Seq<Option<Seq<char>>>,
    args: Seq<VMValueV>,
    r: Result<Option<VMValueV>, ()>,
) -> bool {
    if args.len() == 1 && args[0] is Str && pre.gotos.contains_key(args[0]->Str_0) {
        &&& r == Ok::<Option<VMValueV>, ()>(None)
        &&& post == (VmV { index: pre.gotos[args[0]->Str_0] as int, ..pre })
    } else {
        r is Err && post == pre
    }
}

pub fn runtime_goto(vm: &mut VM, idts: &Vec<Option<String>>, args: &Vec<VMValue>) -> (r: Result<
    Option<VMValue>,
    String,
>)
    requires
        old(vm).wf(),
        forall|i: int|
            0 <= i < args.deep_view().len() ==> val_wf(
                #[trigger] args.deep_view()[i],
                old(vm)@.arrays.len() as int,
            ),
    ensures
        final(vm).wf(),
        native_common(old(vm)@, final(vm)@),
        final(vm)@.call_stack == old(vm)@.call_stack,
        match res_view(r) {
            Ok(Some(v)) => val_wf(v, final(vm)@.arrays.len() as int),
            _ => true,
        },
        runtime_goto_post(old(vm)@, final(vm)@, idts.deep_view(), args.deep_view(), res_view(r)),
{
    if args.len() != 1 {
        return Err(arity_error("1", args.len()));
    }
    let label = match &args[0] {
        VMValue::Str(s) => s,
        other => {
            return Err(type_error("string", other));
        },
    };
    proof {
        assert(args.deep_view()[0] == args@[0]@);
    }
    match vm.gotos.get(label.as_str()) {
        Some(ix) => {
            let ix = *ix;
            let ghost s0 = vm@;
            proof {
                assert(vm@.gotos.contains_key(label@));
                assert(vm@.gotos[label@] < vm@.statements.len());
            }
            vm.index = ix;
            proof {
                assert forall|ci: int|
                    0 <= ci < vm@.call_stack.len() implies (
                #[trigger] vm@.call_stack[ci]) < vm@.statements.len() by {
                    assert(s0.call_stack[ci] < s0.statements.len());
                }
                crate::vm::lemma_wf_frame(s0, vm@);
            }
            Ok(None)
        },
        None => {
            let mut m = String::from_str("label ");
            m.append(label.as_str());
            m.append(" not found");
            Err(m)
        },
    }
}

/// `runtime:breakpoint` arms the breakpoint flag; the run loop hands
/// control to the caller after this statement.
pub open spec fn runtime_breakpoint_post(
    pre: VmV,
    post: VmV,
    idts: Seq<Option<Seq<char>>>,
    args: Seq<VMValueV>,
    r: Result<Option<VMValueV>, ()>,
) -> bool {
    &&& r == Ok::<Option<VMValueV>, ()>(None)
    &&& post == (VmV { breakpoint: true, ..pre })
}

pub fn runtime_breakpoint(vm: &mut VM, idts: &Vec<Option<String>>, args: &Vec<VMValue>) -> (r:
    Result<Option<VMValue>, String>)
    requires
        old(vm).wf(),
        forall|i: int|
            0 <= i < args.deep_view().len() ==> val_wf(
                #[trigger] args.deep_view()[i],
                old(vm)@.arrays.len() as int,
            ),
    ensures
        final(vm).wf(),
        native_common(old(vm)@, final(vm)@),
        final(vm)@.call_stack == old(vm)@.call_stack,
        match res_view(r) {
            Ok(Some(v)) => val_wf(v, final(vm)@.arrays.len() as int),
            _ => true,
        },
        runtime_breakpoint_post(
            old(vm)@,
            final(vm)@,
            idts.deep_view(),
            args.deep_view(),
            res_view(r),
        ),
{
    let ghost s0 = vm@;
    vm.breakpoint = true;
    proof {
        assert forall|ci: int|
            0 <= ci < vm@.call_stack.len() implies (#[trigger] vm@.call_stack[ci])
                < vm@.statements.len() by {
            assert(s0.call_stack[ci] < s0.statements.len());
        }
        crate::vm::lemma_wf_frame(s0, vm@);
    }
    Ok(None)
}

/// Registers the runtime natives.
pub fn register(vm: &mut VM)
    requires
        old(vm).wf(),
    ensures
        final(vm).wf(),
        final(vm)@ == (VmV {
            funcs: old(vm)@.funcs.insert(
                "runtime"@ + seq![':'] + "gotolabel"@,
                NativeKind::Builtin(BuiltinFn::RuntimeGoto),
            ).insert(
                "runtime"@ + seq![':'] + "breakpoint"@,
                NativeKind::Builtin(BuiltinFn::RuntimeBreakpoint),
            ),
            ..old(vm)@
        }),
{
    vm.register("runtime", "gotolabel", NativeKind::Builtin(BuiltinFn::RuntimeGoto));
    vm.register("runtime", "breakpoint", NativeKind::Builtin(BuiltinFn::RuntimeBreakpoint));
}

} // verus!
