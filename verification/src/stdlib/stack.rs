//! The operand-stack natives: a LIFO value stack on the machine, distinct
//! from the call stack.

use vstd::prelude::*;
use vstd::string::*;

use crate::stdlib::array::arity_error;
use crate::value::{VMValue, VMValueV};
use crate::vm::{val_wf, native_common, NativeKind, BuiltinFn, VmV, VM, res_view};

verus! {

/// `stack:push` pushes its argument onto the value stack.
pub open spec fn stack_push_post(
    pre: VmV,
    post: VmV,
    idts: Seq<Option<Seq<char>>>,
    args: Seq<VMValueV>,
    r: Result<Option<VMValueV>, ()>,
) -> bool {
    if args.len() == 1 {
        &&& r == Ok::<Option<VMValueV>, ()>(None)
        &&& post == (VmV { stack: pre.stack.push(args[0]), ..pre })
    } else {
        r is Err && post == pre
    }
}

pub fn stack_push(vm: &mut VM, idts: &Vec<Option<String>>, args: &Vec<VMValue>) -> (r: Result<
    Option<VMValue>,
    String,
>)
    requires
        old(vm).wf(),
        forall|i: int|
            0 <= i < args.deep_view().len() ==> val_wf(
                #[trigger] args.deep_view()[i],
                old(vm)@.arrays.len() as int,
            ),
    ensures
        final(vm).wf(),
        native_common(old(vm)@, final(vm)@),
        final(vm)@.call_stack == old(vm)@.call_stack,
        match res_view(r) {
            Ok(Some(v)) => val_wf(v, final(vm)@.arrays.len() as int),
            _ => true,
        },
        stack_push_post(old(vm)@, final(vm)@, idts.deep_view(), args.deep_view(), res_view(r)),
{
    if args.len() != 1 {
        return Err(arity_error("1", args.len()));
    }
    let ghost pre = vm@;
    proof {
        assert(args.deep_view()[0] == args@[0]@);
    }
    vm.stack.push(args[0].dup());
    proof {
        assert(vm@.stack =~= pre.stack.push(args.deep_view()[0]));
        assert(vm@ == (VmV { stack: pre.stack.push(args.deep_view()[0]), ..pre }));
    }
    Ok(None)
}

/// `stack:pop` removes and returns the top of the value stack; an empty
/// stack is an error.
pub open spec fn stack_pop_post(
    pre: VmV,
    post: VmV,
    idts: Seq<Option<Seq<char>>>,
    args: Seq<VMValueV>,
    r: Result<Option<VMValueV>, ()>,
) -> bool {
    if pre.stack.len() > 0 {
        &&& r == Ok::<Option<VMValueV>, ()>(Some(pre.stack.last()))
        &&& post == (VmV { stack: pre.stack.drop_last(), ..pre })
    } else {
        r is Err && post == pre
    }
}

pub fn stack_pop(vm: &mut VM, idts: &Vec<Option<String>>, args: &Vec<VMValue>) -> (r: Result<
    Option<VMValue>,
    String,
>)
    requires
        old(vm).wf(),
        forall|i: int|
            0 <= i < args.deep_view().len() ==> val_wf(
                #[trigger] args.deep_view()[i],
                old(vm)@.arrays.len() as int,
            ),
    ensures
        final(vm).wf(),
        native_common(old(vm)@, final(vm)@),
        final(vm)@.call_stack == old(vm)@.call_stack,
        match res_view(r) {
            Ok(Some(v)) => val_wf(v, final(vm)@.arrays.len() as int),
            _ => true,
        },
        stack_pop_post(old(vm)@, final(vm)@, idts.deep_view(), args.deep_view(), res_view(r)),
{
    let ghost pre = vm@;
    match vm.stack.pop() {
        Some(v) => {
            proof {
                assert(vm@.stack =~= pre.stack.drop_last());
                assert(vm@ == (VmV { stack: pre.stack.drop_last(), ..pre }));
                assert(v@ == pre.stack.last());
            }
            Ok(Some(v))
        },
        None => Err(String::from_str("stack is empty")),
    }
}

/// `stack:len` returns the number of values on the value stack.
pub open spec fn stack_len_post(
    pre: VmV,
    post: VmV,
    idts: Seq<Option<Seq<char>>>,
    args: Seq<VMValueV>,
    r: Result<Option<VMValueV>, ()>,
) -> bool {
    &&& post == pre
    &&& if pre.stack.len() <= i64::MAX {
        r == Ok::<Option<VMValueV>, ()>(Some(VMValueV::Int(pre.stack.len() as i64)))
    } else {
        r is Err
    }
}

pub fn stack_len(vm: &mut VM, idts: &Vec<Option<String>>, args: &Vec<VMValue>) -> (r: Result<
    Option<VMValue>,
    String,
>)
    requires
        old(vm).wf(),
        forall|i: int|
            0 <= i < args.deep_view().len() ==> val_wf(
                #[trigger] args.deep_view()[i],
                old(vm)@.arrays.len() as int,
            ),
    ensures
        final(vm).wf(),
        native_common(old(vm)@, final(vm)@),
        final(vm)@.call_stack == old(vm)@.call_stack,
        match res_view(r) {
            Ok(Some(v)) => val_wf(v, final(vm)@.arrays.len() as int),
            _ => true,
        },
        stack_len_post(old(vm)@, final(vm)@, idts.deep_view(), args.deep_view(), res_view(r)),
{
    let n = vm.stack.len();
    if (n as u64) > 0x7fff_ffff_ffff_ffffu64 {
        return Err(String::from_str("stack too large"));
    }
    Ok(Some(VMValue::Int(n as i64)))
}

/// Registers the stack natives.
pub fn register(vm: &mut VM)
    requires
        old(vm).wf(),
    ensures
        final(vm).wf(),
        final(vm)@ == (VmV {
            funcs: old(vm)@.funcs.insert(
                "stack"@ + seq![':'] + "push"@,
                NativeKind::Builtin(BuiltinFn::StackPush),
            ).insert("stack"@ + seq![':'] + "pop"@, NativeKind::Builtin(BuiltinFn::StackPop))
                .insert("stack"@ + seq![':'] + "len"@, NativeKind::Builtin(BuiltinFn::StackLen)),
            ..old(vm)@
        }),
{
    vm.register("stack", "push", NativeKind::Builtin(BuiltinFn::StackPush));
    vm.register("stack", "pop", NativeKind::Builtin(BuiltinFn::StackPop));
    vm.register("stack", "len", NativeKind::Builtin(BuiltinFn::StackLen));
}

} // verus!
