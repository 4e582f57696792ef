//! The iteration natives: a counted loop kept in ordinary variables and an
//! internal label. `iter:iterate` binds the counter and records the loop
//! position; `iter:end` either steps the counter and jumps back, or tears
//! the bookkeeping down and falls through. Both contracts state the exact
//! variable, label and counter updates.

use vstd::prelude::*;
use vstd::string::*;

use crate::stdlib::array::{arity_error, type_error};
use crate::value::{VMValue, VMValueV};
use crate::vm::{val_wf, native_common, NativeKind, BuiltinFn, VmV, VM, res_view};

verus! {

/// The variable that holds a counted loop's final counter value.
pub open spec fn iter_end_key(v: Seq<char>) -> Seq<char> {
    "@internal:iter:end:"@ + v
}

/// The label that a counted loop jumps back to.
pub open spec fn iter_label_key(v: Seq<char>) -> Seq<char> {
    "@internal:iter:"@ + v
}

/// `iter:iterate` starts a counted loop over `[start, end)`: it binds the
/// named counter to `start`, records `end - 1` under an internal variable,
/// and records the current statement as the loop's jump-back point under an
/// internal label. An empty or reversed range is an error.
pub open spec fn iter_iterate_post(
    pre: VmV,
    post: VmV,
    idts: Seq<Option<Seq<char>>>,
    args: Seq<VMValueV>,
    r: Result<Option<VMValueV>, ()>,
) -> bool {
    if args.len() == 3 && args[0] is Str && args[1] is Int && args[2] is Int
        && args[2]->Int_0 != i64::MIN && args[1]->Int_0 <= args[2]->Int_0 - 1 && pre.index
        < pre.statements.len() {
        let v = args[0]->Str_0;
        let start = args[1]->Int_0;
        let end = (args[2]->Int_0 - 1) as i64;
        &&& r == Ok::<Option<VMValueV>, ()>(None)
        &&& post == (VmV {
            variables: pre.variables.insert(v, VMValueV::Int(start)).insert(
                iter_end_key(v),
                VMValueV::Int(end),
            ),
            gotos: pre.gotos.insert(iter_label_key(v), pre.index as usize),
            ..pre
        })
    } else {
        r is Err && post == pre
    }
}

pub fn iter_iterate(vm: &mut VM, idts: &Vec<Option<String>>, args: &Vec<VMValue>) -> (r: Result<
    Option<VMValue>,
    String,
>)
    requires
        old(vm).wf(),
        forall|i: int|
            0 <= i < args.deep_view().len() ==> val_wf(
                #[trigger] args.deep_view()[i],
                old(vm)@.arrays.len() as int,
            ),
    ensures
        final(vm).wf(),
        native_common(old(vm)@, final(vm)@),
        final(vm)@.call_stack == old(vm)@.call_stack,
        match res_view(r) {
            Ok(Some(v)) => val_wf(v, final(vm)@.arrays.len() as int),
            _ => true,
        },
        iter_iterate_post(old(vm)@, final(vm)@, idts.deep_view(), args.deep_view(), res_view(r)),
{
    if args.len() != 3 {
        return Err(arity_error("3", args.len()));
    }
    let varname = match &args[0] {
        VMValue::Str(s) => s.clone(),
        other => {
            return Err(type_error("string", other));
        },
    };
    let start = match &args[1] {
        VMValue::Int(i) => *i,
        other => {
            return Err(type_error("int", other));
        },
    };
    let end0 = match &args[2] {
        VMValue::Int(i) => *i,
        other => {
            return Err(type_error("int", other));
        },
    };
    if end0 == i64::MIN {
        return Err(String::from_str("start must be less than end"));
    }
    let end = end0 - 1;
    if start > end {
        return Err(String::from_str("start must be less than end"));
    }
    if vm.index >= vm.statements.len() {
        return Err(String::from_str("no statement is executing"));
    }
    let mut end_key = String::from_str("@internal:iter:end:");
    end_key.append(varname.as_str());
    let mut label_key = String::from_str("@internal:iter:");
    label_key.append(varname.as_str());
    let ghost s0 = vm@;
    let ghost vv = varname@;
    proof {
        assert(end_key@ == iter_end_key(vv));
        assert(label_key@ == iter_label_key(vv));
        crate::vm::lemma_vmap_insert(vm.variables@, varname@, VMValue::Int(start));
    }
    vm.variables.insert(varname, VMValue::Int(start));
    let ghost s1 = vm@;
    proof {
        assert forall|ci: int|
            0 <= ci < s1.call_stack.len() implies (#[trigger] s1.call_stack[ci])
                < s1.statements.len() by {
            assert(s0.call_stack[ci] < s0.statements.len());
        }
        crate::vm::lemma_wf_frame(s0, s1);
        crate::vm::lemma_vmap_insert(vm.variables@, end_key@, VMValue::Int(end));
    }
    vm.variables.insert(end_key, VMValue::Int(end));
    let ghost s2 = vm@;
    proof {
        assert forall|ci: int|
            0 <= ci < s2.call_stack.len() implies (#[trigger] s2.call_stack[ci])
                < s2.statements.len() by {
            assert(s1.call_stack[ci] < s1.statements.len());
        }
        crate::vm::lemma_wf_frame(s1, s2);
    }
    let here = vm.index;
    vm.gotos.insert(label_key, here);
    proof {
        assert(vm@ == (VmV { gotos: s2.gotos.insert(iter_label_key(vv), here), ..s2 }));
        crate::vm::lemma_wf_gotos_insert(s2, vm@, iter_label_key(vv), here);
        assert(vm@ == (VmV {
            variables: s0.variables.insert(vv, VMValueV::Int(start)).insert(
                iter_end_key(vv),
                VMValueV::Int(end),
            ),
            gotos: s0.gotos.insert(iter_label_key(vv), here),
            ..s0
        }));
    }
    Ok(None)
}

/// `iter:end` steps or finishes a counted loop: while the named counter is
/// below its recorded final value it is incremented and the machine jumps
/// back to the recorded loop point; once it reaches the final value the
/// counter, the internal variable and the internal label are removed and
/// execution falls through.
pub open spec fn iter_end_post(
    pre: VmV,
    post: VmV,
    idts: Seq<Option<Seq<char>>>,
    args: Seq<VMValueV>,
    r: Result<Option<VMValueV>, ()>,
) -> bool {
    if args.len() == 1 && args[0] is Str {
        let v = args[0]->Str_0;
        if pre.variables.contains_key(v) && pre.variables[v] is Int
            && pre.variables.contains_key(iter_end_key(v)) && pre.variables[iter_end_key(
            v,
        )] is Int {
            let c = pre.variables[v]->Int_0;
            let e = pre.variables[iter_end_key(v)]->Int_0;
            if c >= e {
                &&& r == Ok::<Option<VMValueV>, ()>(None)
                &&& post == (VmV {
                    variables: pre.variables.remove(iter_end_key(v)).remove(v),
                    gotos: pre.gotos.remove(iter_label_key(v)),
                    ..pre
                })
            } else if pre.gotos.contains_key(iter_label_key(v)) {
                &&& r == Ok::<Option<VMValueV>, ()>(None)
                &&& post == (VmV {
                    variables: pre.variables.insert(v, VMValueV::Int((c + 1) as i64)),
                    index: pre.gotos[iter_label_key(v)] as int,
                    ..pre
                })
            } else {
                r is Err && post == pre
            }
        } else {
            r is Err && post == pre
        }
    } else {
        r is Err && post == pre
    }
}

pub fn iter_end(vm: &mut VM, idts: &Vec<Option<String>>, args: &Vec<VMValue>) -> (r: Result<
    Option<VMValue>,
    String,
>)
    requires
        old(vm).wf(),
        forall|i: int|
            0 <= i < args.deep_view().len() ==> val_wf(
                #[trigger] args.deep_view()[i],
                old(vm)@.arrays.len() as int,
            ),
    ensures
        final(vm).wf(),
        native_common(old(vm)@, final(vm)@),
        final(vm)@.call_stack == old(vm)@.call_stack,
        match res_view(r) {
            Ok(Some(v)) => val_wf(v, final(vm)@.arrays.len() as int),
            _ => true,
        },
        iter_end_post(old(vm)@, final(vm)@, idts.deep_view(), args.deep_view(), res_view(r)),
{
    if args.len() != 1 {
        return Err(arity_error("1", args.len()));
    }
    let varname = match &args[0] {
        VMValue::Str(s) => s.clone(),
        other => {
            return Err(type_error("string", other));
        },
    };
    let ghost vv = varname@;
    proof {
        assert(vm@.variables.contains_key(vv) == vm.variables@.contains_key(vv));
        if vm.variables@.contains_key(vv) {
            assert(vm@.variables[vv] == vm.variables@[vv]@);
        }
    }
    let current = match vm.variables.get(varname.as_str()) {
        Some(VMValue::Int(c)) => *c,
        _ => {
            return Err(String::from_str("invalid iter for current"));
        },
    };
    let mut end_key = String::from_str("@internal:iter:end:");
    end_key.append(varname.as_str());
    proof {
        assert(end_key@ == iter_end_key(vv));
        assert(vm@.variables.contains_key(end_key@) == vm.variables@.contains_key(end_key@));
        if vm.variables@.contains_key(end_key@) {
            assert(vm@.variables[end_key@] == vm.variables@[end_key@]@);
        }
    }
    let end = match vm.variables.get(end_key.as_str()) {
        Some(VMValue::Int(e)) => *e,
        _ => {
            return Err(String::from_str("invalid iter for end"));
        },
    };
    let mut label_key = String::from_str("@internal:iter:");
    label_key.append(varname.as_str());
    proof {
        assert(label_key@ == iter_label_key(vv));
    }
    if current >= end {
        let ghost s0 = vm@;
        vm.gotos.remove(label_key.as_str());
        proof {
            crate::vm::lemma_vmap_remove(vm.variables@, end_key@);
        }
        vm.variables.remove(end_key.as_str());
        proof {
            crate::vm::lemma_vmap_remove(vm.variables@, varname@);
        }
        vm.variables.remove(varname.as_str());
        proof {
            assert(vm@ == (VmV {
                variables: s0.variables.remove(iter_end_key(vv)).remove(vv),
                gotos: s0.gotos.remove(iter_label_key(vv)),
                ..s0
            }));
            assert forall|k: Seq<char>|
                vm@.variables.contains_key(k) implies s0.variables.contains_key(k)
                && #[trigger] vm@.variables[k] == s0.variables[k] by {}
            assert forall|k: Seq<char>|
                vm@.gotos.contains_key(k) implies s0.gotos.contains_key(k)
                && #[trigger] vm@.gotos[k] == s0.gotos[k] by {}
            crate::vm::lemma_wf_shrink(s0, vm@);
        }
        Ok(None)
    } else {
        let back = match vm.gotos.get(label_key.as_str()) {
            Some(ix) => *ix,
            None => {
                return Err(String::from_str("invalid iter for label"));
            },
        };
        let next = current + 1;
        let ghost s0 = vm@;
        proof {
            crate::vm::lemma_vmap_insert(vm.variables@, varname@, VMValue::Int(next));
        }
        vm.variables.insert(varname, VMValue::Int(next));
        proof {
            assert forall|ci: int|
                0 <= ci < vm@.call_stack.len() implies (#[trigger] vm@.call_stack[ci])
                    < vm@.statements.len() by {
                assert(s0.call_stack[ci] < s0.statements.len());
            }
            crate::vm::lemma_wf_frame(s0, vm@);
            assert(s0.gotos.contains_key(label_key@));
            assert(s0.gotos[label_key@] < s0.statements.len());
            assert(back < vm.statements@.len());
        }
        vm.index = back;
        proof {
            assert forall|ci: int|
                0 <= ci < vm@.call_stack.len() implies (#[trigger] vm@.call_stack[ci])
                    < vm@.statements.len() by {
                assert(s0.call_stack[ci] < s0.statements.len());
            }
            crate::vm::lemma_wf_frame(s0, vm@);
            assert(vm@ == (VmV {
                variables: s0.variables.insert(vv, VMValueV::Int(next)),
                index: s0.gotos[iter_label_key(vv)] as int,
                ..s0
            }));
        }
        Ok(None)
    }
}

/// Registers the iteration natives.
pub fn register(vm: &mut VM)
    requires
        old(vm).wf(),
    ensures
        final(vm).wf(),
        final(vm)@ == (VmV {
            funcs: old(vm)@.funcs.insert(
                "iter"@ + seq![':'] + "iterate"@,
                NativeKind::Builtin(BuiltinFn::IterIterate),
            ).insert("iter"@ + seq![':'] + "end"@, NativeKind::Builtin(BuiltinFn::IterEnd)),
            ..old(vm)@
        }),
{
    vm.register("iter", "iterate", NativeKind::Builtin(BuiltinFn::IterIterate));
    vm.register("iter", "end", NativeKind::Builtin(BuiltinFn::IterEnd));
}

} // verus!
