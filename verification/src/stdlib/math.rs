//! The math natives: wrapping sum and maximum over integer arrays.

use vstd::prelude::*;
use vstd::string::*;

use crate::stdlib::array::{arity_error, type_error};
use crate::value::{VMValue, VMValueV};
use crate::vm::{val_wf, native_common, NativeKind, BuiltinFn, VmV, VM, res_view};

verus! {

/// The wrapping sum of integer elements; `None` where one is not an
/// integer.
pub open spec fn spec_sum_ints(s: Seq<VMValueV>) -> Option<i64>
    decreases s.len(),
{
    if s.len() == 0 {
        Some(0)
    } else if !(s.last() is Int) {
        None
    } else {
        match spec_sum_ints(s.drop_last()) {
            None => None,
            Some(acc) => Some(
                vstd::wrapping::i64_specs::wrapping_add(acc, s.last()->Int_0),
            ),
        }
    }
}

/// The maximum of integer elements, starting from `i64::MIN`; `None` where
/// one is not an integer.
pub open spec fn spec_max_ints(s: Seq<VMValueV>) -> Option<i64>
    decreases s.len(),
{
    if s.len() == 0 {
        Some(i64::MIN)
    } else if !(s.last() is Int) {
        None
    } else {
        match spec_max_ints(s.drop_last()) {
            None => None,
            Some(acc) => Some(
                if s.last()->Int_0 > acc {
                    s.last()->Int_0
                } else {
                    acc
                },
            ),
        }
    }
}

/// A non-integer element anywhere makes the fold undefined.
pub proof fn lemma_ints_err(s: Seq<VMValueV>, i: int)
    requires
        0 <= i < s.len(),
        !(s[i] is Int),
    ensures
        spec_sum_ints(s) is None,
        spec_max_ints(s) is None,
    decreases s.len(),
{
    if s.len() > 0 && i < s.len() - 1 {
        assert(s.drop_last()[i] == s[i]);
        lemma_ints_err(s.drop_last(), i);
    }
}

/// `math:sum` adds the integers of an array with wrapping arithmetic.
pub open spec fn math_sum_post(
    pre: VmV,
    post: VmV,
    idts: Seq<Option<Seq<char>>>,
    args: Seq<VMValueV>,
    r: Result<Option<VMValueV>, ()>,
) -> bool {
    &&& post == pre
    &&& if args.len() == 1 && args[0] is Array {
        match spec_sum_ints(pre.arrays[args[0]->Array_0]) {
            Some(v) => r == Ok::<Option<VMValueV>, ()>(Some(VMValueV::Int(v))),
            None => r is Err,
        }
    } else {
        r is Err
    }
}

pub fn math_sum(vm: &mut VM, idts: &Vec<Option<String>>, args: &Vec<VMValue>) -> (r: Result<
    Option<VMValue>,
    String,
>)
    requires
        old(vm).wf(),
        forall|i: int|
            0 <= i < args.deep_view().len() ==> val_wf(
                #[trigger] args.deep_view()[i],
                old(vm)@.arrays.len() as int,
            ),
    ensures
        final(vm).wf(),
        native_common(old(vm)@, final(vm)@),
        final(vm)@.call_stack == old(vm)@.call_stack,
        match res_view(r) {
            Ok(Some(v)) => val_wf(v, final(vm)@.arrays.len() as int),
            _ => true,
        },
        math_sum_post(old(vm)@, final(vm)@, idts.deep_view(), args.deep_view(), res_view(r)),
{
    if args.len() != 1 {
        return Err(arity_error("1", args.len()));
    }
    let h = match &args[0] {
        VMValue::Array(h) => *h,
        other => {
            return Err(type_error("array", other));
        },
    };
    proof {
        assert(args.deep_view()[0] == args@[0]@);
        assert(vm@.arrays[h as int] == vm.arrays@[h as int].deep_view());
    }
    let ghost s = vm@.arrays[h as int];
    let n = vm.arrays[h].len();
    let mut acc: i64 = 0;
    let mut i: usize = 0;
    proof {
        assert(s.take(0) =~= Seq::<VMValueV>::empty());
    }
    while i < n
        invariant
            vm.wf(),
            vm@ == old(vm)@,
            h < vm.arrays@.len(),
            s == vm@.arrays[h as int],
            args.deep_view().len() == 1,
            args.deep_view()[0] is Array,
            args.deep_view()[0]->Array_0 == h as int,
            n == s.len(),
            i <= n,
            spec_sum_ints(s.take(i as int)) == Some(acc),
        decreases n - i,
    {
        proof {
            assert(s[i as int] == vm.arrays@[h as int]@[i as int]@);
            assert(s.take(i + 1).drop_last() =~= s.take(i as int));
            assert(s.take(i + 1).last() == s[i as int]);
        }
        let v = match &vm.arrays[h][i] {
            VMValue::Int(v) => *v,
            other => {
                proof {
                    lemma_ints_err(s, i as int);
                }
                let mut m = String::from_str("expected int in array, got ");
                let nm = other.name();
                m.append(nm.as_str());
                return Err(m);
            },
        };
        acc = acc.wrapping_add(v);
        i = i + 1;
    }
    proof {
        assert(s.take(i as int) =~= s);
    }
    Ok(Some(VMValue::Int(acc)))
}

/// `math:max` returns the largest integer of an array (`i64::MIN` for an
/// empty one).
pub open spec fn math_max_post(
    pre: VmV,
    post: VmV,
    idts: Seq<Option<Seq<char>>>,
    args: Seq<VMValueV>,
    r: Result<Option<VMValueV>, ()>,
) -> bool {
    &&& post == pre
    &&& if args.len() == 1 && args[0] is Array {
        match spec_max_ints(pre.arrays[args[0]->Array_0]) {
            Some(v) => r == Ok::<Option<VMValueV>, ()>(Some(VMValueV::Int(v))),
            None => r is Err,
        }
    } else {
        r is Err
    }
}

pub fn math_max(vm: &mut VM, idts: &Vec<Option<String>>, args: &Vec<VMValue>) -> (r: Result<
    Option<VMValue>,
    String,
>)
    requires
        old(vm).wf(),
        forall|i: int|
            0 <= i < args.deep_view().len() ==> val_wf(
                #[trigger] args.deep_view()[i],
                old(vm)@.arrays.len() as int,
            ),
    ensures
        final(vm).wf(),
        native_common(old(vm)@, final(vm)@),
        final(vm)@.call_stack == old(vm)@.call_stack,
        match res_view(r) {
            Ok(Some(v)) => val_wf(v, final(vm)@.arrays.len() as int),
            _ => true,
        },
        math_max_post(old(vm)@, final(vm)@, idts.deep_view(), args.deep_view(), res_view(r)),
{
    if args.len() != 1 {
        return Err(arity_error("1", args.len()));
    }
    let h = match &args[0] {
        VMValue::Array(h) => *h,
        other => {
            return Err(type_error("array", other));
        },
    };
    proof {
        assert(args.deep_view()[0] == args@[0]@);
        assert(vm@.arrays[h as int] == vm.arrays@[h as int].deep_view());
    }
    let ghost s = vm@.arrays[h as int];
    let n = vm.arrays[h].len();
    let mut acc: i64 = i64::MIN;
    let mut i: usize = 0;
    proof {
        assert(s.take(0) =~= Seq::<VMValueV>::empty());
    }
    while i < n
        invariant
            vm.wf(),
            vm@ == old(vm)@,
            h < vm.arrays@.len(),
            s == vm@.arrays[h as int],
            args.deep_view().len() == 1,
            args.deep_view()[0] is Array,
            args.deep_view()[0]->Array_0 == h as int,
            n == s.len(),
            i <= n,
            spec_max_ints(s.take(i as int)) == Some(acc),
        decreases n - i,
    {
        proof {
            assert(s[i as int] == vm.arrays@[h as int]@[i as int]@);
            assert(s.take(i + 1).drop_last() =~= s.take(i as int));
            assert(s.take(i + 1).last() == s[i as int]);
        }
        let v = match &vm.arrays[h][i] {
            VMValue::Int(v) => *v,
            other => {
                proof {
                    lemma_ints_err(s, i as int);
                }
                let mut m = String::from_str("expected int in array, got ");
                let nm = other.name();
                m.append(nm.as_str());
                return Err(m);
            },
        };
        if v > acc {
            acc = v;
        }
        i = i + 1;
    }
    proof {
        assert(s.take(i as int) =~= s);
    }
    Ok(Some(VMValue::Int(acc)))
}

/// Registers the math natives.
pub fn register(vm: &mut VM)
    requires
        old(vm).wf(),
    ensures
        final(vm).wf(),
        final(vm)@ == (VmV {
            funcs: old(vm)@.funcs.insert(
                "math"@ + seq![':'] + "sum"@,
                NativeKind::Builtin(BuiltinFn::MathSum),
            ).insert("math"@ + seq![':'] + "max"@, NativeKind::Builtin(BuiltinFn::MathMax)),
            ..old(vm)@
        }),
{
    vm.register("math", "sum", NativeKind::Builtin(BuiltinFn::MathSum));
    vm.register("math", "max", NativeKind::Builtin(BuiltinFn::MathMax));
}

} // verus!
