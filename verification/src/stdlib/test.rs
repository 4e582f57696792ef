//! The test native: an in-language assertion of equality.

use vstd::prelude::*;
use vstd::string::*;

use crate::stdlib::array::arity_error;
use crate::value::{spec_eq_vals, VMValue, VMValueV};
use crate::vm::{val_wf, native_common, NativeKind, BuiltinFn, VmV, VM, res_view};

verus! {

/// `test:is` succeeds exactly when its two arguments compare equal;
/// inequality and incomparable types are errors.
pub open spec fn test_is_post(
    pre: VmV,
    post: VmV,
    idts: Seq<Option<Seq<char>>>,
    args: Seq<VMValueV>,
    r: Result<Option<VMValueV>, ()>,
) -> bool {
    &&& post == pre
    &&& if args.len() == 2 {
        match spec_eq_vals(args[0], args[1]) {
            Ok(true) => r == Ok::<Option<VMValueV>, ()>(None),
            _ => r is Err,
        }
    } else {
        r is Err
    }
}

pub fn test_is(vm: &mut VM, idts: &Vec<Option<String>>, args: &Vec<VMValue>) -> (r: Result<
    Option<VMValue>,
    String,
>)
    requires
        old(vm).wf(),
        forall|i: int|
            0 <= i < args.deep_view().len() ==> val_wf(
                #[trigger] args.deep_view()[i],
                old(vm)@.arrays.len() as int,
            ),
    ensures
        final(vm).wf(),
        native_common(old(vm)@, final(vm)@),
        final(vm)@.call_stack == old(vm)@.call_stack,
        match res_view(r) {
            Ok(Some(v)) => val_wf(v, final(vm)@.arrays.len() as int),
            _ => true,
        },
        test_is_post(old(vm)@, final(vm)@, idts.deep_view(), args.deep_view(), res_view(r)),
{
    if args.len() != 2 {
        return Err(arity_error("2", args.len()));
    }
    proof {
        assert(args.deep_view()[0] == args@[0]@);
        assert(args.deep_view()[1] == args@[1]@);
    }
    match args[0].equals(&args[1]) {
        Ok(VMValue::Bool(true)) => Ok(None),
        Ok(_) => {
            let mut m = String::from_str("expected ");
            let a = args[0].name();
            m.append(a.as_str());
            m.append(" to equal ");
            let b = args[1].name();
            m.append(b.as_str());
            Err(m)
        },
        Err(e) => Err(e),
    }
}

/// Registers the test native.
pub fn register(vm: &mut VM)
    requires
        old(vm).wf(),
    ensures
        final(vm).wf(),
        final(vm)@ == (VmV {
            funcs: old(vm)@.funcs.insert(
                "test"@ + seq![':'] + "is"@,
                NativeKind::Builtin(BuiltinFn::TestIs),
            ),
            ..old(vm)@
        }),
{
    vm.register("test", "is", NativeKind::Builtin(BuiltinFn::TestIs));
}

} // verus!
