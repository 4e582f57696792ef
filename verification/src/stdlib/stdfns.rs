//! The mapping natives, registered under the `std` module name: applying a
//! named native to every element of an array (a snapshot taken before the
//! first call), collecting, discarding, or filtering by the results. The
//! callee is named by two strings at run time and must be a non-meta
//! built-in — naming a host native here is an error, since host work is
//! performed by the embedder between runs. What each invocation does to
//! the machine is the callee's own contract; these contracts state the
//! argument shape, the fresh result array and its size, the common native
//! guarantees and the machine's consistency.

use vstd::prelude::*;
use vstd::string::*;

use crate::stdlib::array::{arity_error, type_error};
use crate::value::{VMValue, VMValueV};
use crate::vm::{val_wf, native_common, NativeKind, BuiltinFn, VmV, VM, res_view};

verus! {

/// `std:map` applies a native to each element in order and collects the
/// results into a fresh array appended to the store, one result per
/// element; a failing or valueless invocation aborts with its error.
pub open spec fn std_map_post(
    pre: VmV,
    post: VmV,
    idts: Seq<Option<Seq<char>>>,
    args: Seq<VMValueV>,
    r: Result<Option<VMValueV>, ()>,
) -> bool {
    if args.len() == 3 && args[0] is Str && args[1] is Str && args[2] is Array {
        let h = args[2]->Array_0;
        match r {
            Ok(opt) => {
                &&& post.arrays.len() > pre.arrays.len()
                &&& opt == Some(VMValueV::Array(post.arrays.len() - 1))
                &&& post.arrays.last().len() == pre.arrays[h].len()
            },
            Err(()) => true,
        }
    } else {
        r is Err
    }
}

pub fn std_map(vm: &mut VM, idts: &Vec<Option<String>>, args: &Vec<VMValue>) -> (r: Result<
    Option<VMValue>,
    String,
>)
    requires
        old(vm).wf(),
        forall|i: int|
            0 <= i < args.deep_view().len() ==> val_wf(
                #[trigger] args.deep_view()[i],
                old(vm)@.arrays.len() as int,
            ),
    ensures
        final(vm).wf(),
        native_common(old(vm)@, final(vm)@),
        final(vm)@.call_stack == old(vm)@.call_stack,
        match res_view(r) {
            Ok(Some(v)) => val_wf(v, final(vm)@.arrays.len() as int),
            _ => true,
        },
        std_map_post(old(vm)@, final(vm)@, idts.deep_view(), args.deep_view(), res_view(r)),
{
    if args.len() != 3 {
        return Err(arity_error("2", args.len()));
    }
    let module = match &args[0] {
        VMValue::Str(s) => s.clone(),
        other => {
            return Err(type_error("string", other));
        },
    };
    let function = match &args[1] {
        VMValue::Str(s) => s.clone(),
        other => {
            return Err(type_error("string", other));
        },
    };
    let h = match &args[2] {
        VMValue::Array(h) => *h,
        other => {
            return Err(type_error("array", other));
        },
    };
    proof {
        assert(args.deep_view()[2] == args@[2]@);
    }
    // snapshot the elements: the callee may grow or change the store
    let n = vm.arrays[h].len();
    proof {
        assert(n == old(vm)@.arrays[h as int].len());
    }
    let mut elements: Vec<VMValue> = Vec::new();
    let mut i: usize = 0;
    while i < n
        invariant
            vm.wf(),
            vm@ == old(vm)@,
            h < vm.arrays@.len(),
            n == vm.arrays@[h as int]@.len(),
            i <= n,
            elements@.len() == i,
            forall|x: int|
                0 <= x < i ==> val_wf(
                    #[trigger] elements.deep_view()[x],
                    vm@.arrays.len() as int,
                ),
        decreases n - i,
    {
        let ghost pre_e = elements.deep_view();
        proof {
            assert(vm@.arrays[h as int][i as int] == vm.arrays@[h as int]@[i as int]@);
            assert(val_wf(vm@.arrays[h as int][i as int], vm@.arrays.len() as int));
        }
        elements.push(vm.arrays[h][i].dup());
        i = i + 1;
        proof {
            assert(elements.deep_view() =~= pre_e.push(
                elements@[elements@.len() - 1]@,
            ));
        }
    }
    let mut out: Vec<VMValue> = Vec::new();
    let mut j: usize = 0;
    while j < elements.len()
        invariant
            vm.wf(),
            native_common(old(vm)@, vm@),
            vm@.call_stack == old(vm)@.call_stack,
            j <= elements@.len(),
            elements@.len() == n,
            n == old(vm)@.arrays[h as int].len(),
            out@.len() == j,
            forall|x: int|
                0 <= x < elements@.len() ==> val_wf(
                    #[trigger] elements.deep_view()[x],
                    vm@.arrays.len() as int,
                ),
            forall|x: int|
                0 <= x < out@.len() ==> val_wf(
                    #[trigger] out.deep_view()[x],
                    vm@.arrays.len() as int,
                ),
        decreases elements@.len() - j,
    {
        let mut idts2: Vec<Option<String>> = Vec::new();
        idts2.push(Some(String::from_str("value")));
        let mut one: Vec<VMValue> = Vec::new();
        one.push(elements[j].dup());
        let ghost before = vm@;
        proof {
            assert(one.deep_view() =~= seq![elements.deep_view()[j as int]]);
            assert forall|x: int| 0 <= x < one.deep_view().len() implies val_wf(
                #[trigger] one.deep_view()[x],
                vm@.arrays.len() as int,
            ) by {
                assert(val_wf(elements.deep_view()[j as int], vm@.arrays.len() as int));
            }
        }
        let res = vm.call_leaf(&module, &function, &idts2, &one);
        proof {
            assert(native_common(old(vm)@, vm@)) by {
                if vm@.index == before.index {
                } else {
                }
            }
            assert forall|x: int| 0 <= x < elements@.len() implies val_wf(
                #[trigger] elements.deep_view()[x],
                vm@.arrays.len() as int,
            ) by {
                assert(val_wf(elements.deep_view()[x], before.arrays.len() as int));
            }
            assert forall|x: int| 0 <= x < out@.len() implies val_wf(
                #[trigger] out.deep_view()[x],
                vm@.arrays.len() as int,
            ) by {
                assert(val_wf(out.deep_view()[x], before.arrays.len() as int));
            }
        }
        match res {
            Ok(Some(v)) => {
                let ghost pre_o = out.deep_view();
                out.push(v);
                proof {
                    assert(out.deep_view() =~= pre_o.push(out@[out@.len() - 1]@));
                }
            },
            Ok(None) => {
                return Err(String::from_str("expected return value, got none"));
            },
            Err(e) => {
                return Err(e);
            },
        }
        j = j + 1;
    }
    let nh = vm.arrays.len();
    let ghost preP = vm@;
    let ghost rowV = out.deep_view();
    vm.arrays.push(out);
    proof {
        assert(vm@.arrays =~~= preP.arrays.push(rowV));
        assert(vm@ == (VmV { arrays: preP.arrays.push(rowV), ..preP }));
        assert forall|j2: int| 0 <= j2 < rowV.len() implies val_wf(
            #[trigger] rowV[j2],
            preP.arrays.len() as int + 1,
        ) by {
            assert(val_wf(rowV[j2], preP.arrays.len() as int));
        }
        crate::vm::lemma_wf_arrays_push(preP, vm@, rowV);
        assert(vm@.arrays.last() == rowV);
        assert(rowV.len() == old(vm)@.arrays[h as int].len());
        assert(nh == vm@.arrays.len() - 1);
        assert(vm@.arrays.len() > old(vm)@.arrays.len());
    }
    Ok(Some(VMValue::Array(nh)))
}

/// `std:mapdrop` applies a native to each element in order and discards
/// the results; a failing invocation aborts with its error.
pub open spec fn std_mapdrop_post(
    pre: VmV,
    post: VmV,
    idts: Seq<Option<Seq<char>>>,
    args: Seq<VMValueV>,
    r: Result<Option<VMValueV>, ()>,
) -> bool {
    if args.len() == 3 && args[0] is Str && args[1] is Str && args[2] is Array {
        match r {
            Ok(opt) => opt is None,
            Err(()) => true,
        }
    } else {
        r is Err
    }
}

pub fn std_mapdrop(vm: &mut VM, idts: &Vec<Option<String>>, args: &Vec<VMValue>) -> (r: Result<
    Option<VMValue>,
    String,
>)
    requires
        old(vm).wf(),
        forall|i: int|
            0 <= i < args.deep_view().len() ==> val_wf(
                #[trigger] args.deep_view()[i],
                old(vm)@.arrays.len() as int,
            ),
    ensures
        final(vm).wf(),
        native_common(old(vm)@, final(vm)@),
        final(vm)@.call_stack == old(vm)@.call_stack,
        match res_view(r) {
            Ok(Some(v)) => val_wf(v, final(vm)@.arrays.len() as int),
            _ => true,
        },
        std_mapdrop_post(old(vm)@, final(vm)@, idts.deep_view(), args.deep_view(), res_view(r)),
{
    if args.len() != 3 {
        return Err(arity_error("2", args.len()));
    }
    let module = match &args[0] {
        VMValue::Str(s) => s.clone(),
        other => {
            return Err(type_error("string", other));
        },
    };
    let function = match &args[1] {
        VMValue::Str(s) => s.clone(),
        other => {
            return Err(type_error("string", other));
        },
    };
    let h = match &args[2] {
        VMValue::Array(h) => *h,
        other => {
            return Err(type_error("array", other));
        },
    };
    proof {
        assert(args.deep_view()[2] == args@[2]@);
    }
    let n = vm.arrays[h].len();
    let mut elements: Vec<VMValue> = Vec::new();
    let mut i: usize = 0;
    while i < n
        invariant
            vm.wf(),
            vm@ == old(vm)@,
            h < vm.arrays@.len(),
            n == vm.arrays@[h as int]@.len(),
            i <= n,
            elements@.len() == i,
            forall|x: int|
                0 <= x < i ==> val_wf(
                    #[trigger] elements.deep_view()[x],
                    vm@.arrays.len() as int,
                ),
        decreases n - i,
    {
        let ghost pre_e = elements.deep_view();
        proof {
            assert(vm@.arrays[h as int][i as int] == vm.arrays@[h as int]@[i as int]@);
            assert(val_wf(vm@.arrays[h as int][i as int], vm@.arrays.len() as int));
        }
        elements.push(vm.arrays[h][i].dup());
        i = i + 1;
        proof {
            assert(elements.deep_view() =~= pre_e.push(
                elements@[elements@.len() - 1]@,
            ));
        }
    }
    let mut j: usize = 0;
    while j < elements.len()
        invariant
            vm.wf(),
            native_common(old(vm)@, vm@),
            vm@.call_stack == old(vm)@.call_stack,
            j <= elements@.len(),
            forall|x: int|
                0 <= x < elements@.len() ==> val_wf(
                    #[trigger] elements.deep_view()[x],
                    vm@.arrays.len() as int,
                ),
        decreases elements@.len() - j,
    {
        let mut idts2: Vec<Option<String>> = Vec::new();
        idts2.push(Some(String::from_str("value")));
        let mut one: Vec<VMValue> = Vec::new();
        one.push(elements[j].dup());
        let ghost before = vm@;
        proof {
            assert(one.deep_view() =~= seq![elements.deep_view()[j as int]]);
            assert forall|x: int| 0 <= x < one.deep_view().len() implies val_wf(
                #[trigger] one.deep_view()[x],
                vm@.arrays.len() as int,
            ) by {
                assert(val_wf(elements.deep_view()[j as int], vm@.arrays.len() as int));
            }
        }
        let res = vm.call_leaf(&module, &function, &idts2, &one);
        proof {
            assert(native_common(old(vm)@, vm@)) by {
                if vm@.index == before.index {
                } else {
                }
            }
            assert forall|x: int| 0 <= x < elements@.len() implies val_wf(
                #[trigger] elements.deep_view()[x],
                vm@.arrays.len() as int,
            ) by {
                assert(val_wf(elements.deep_view()[x], before.arrays.len() as int));
            }
        }
        match res {
            Err(e) => {
                return Err(e);
            },
            _ => {},
        }
        j = j + 1;
    }
    Ok(None)
}

/// `std:filter` applies a boolean native to each element in order and
/// collects the accepted elements into a fresh array appended to the
/// store, never more of them than the array held; a failing, valueless or
/// non-boolean invocation aborts with its error.
pub open spec fn std_filter_post(
    pre: VmV,
    post: VmV,
    idts: Seq<Option<Seq<char>>>,
    args: Seq<VMValueV>,
    r: Result<Option<VMValueV>, ()>,
) -> bool {
    if args.len() == 3 && args[0] is Str && args[1] is Str && args[2] is Array {
        let h = args[2]->Array_0;
        match r {
            Ok(opt) => {
                &&& post.arrays.len() > pre.arrays.len()
                &&& opt == Some(VMValueV::Array(post.arrays.len() - 1))
                &&& post.arrays.last().len() <= pre.arrays[h].len()
            },
            Err(()) => true,
        }
    } else {
        r is Err
    }
}

pub fn std_filter(vm: &mut VM, idts: &Vec<Option<String>>, args: &Vec<VMValue>) -> (r: Result<
    Option<VMValue>,
    String,
>)
    requires
        old(vm).wf(),
        forall|i: int|
            0 <= i < args.deep_view().len() ==> val_wf(
                #[trigger] args.deep_view()[i],
                old(vm)@.arrays.len() as int,
            ),
    ensures
        final(vm).wf(),
        native_common(old(vm)@, final(vm)@),
        final(vm)@.call_stack == old(vm)@.call_stack,
        match res_view(r) {
            Ok(Some(v)) => val_wf(v, final(vm)@.arrays.len() as int),
            _ => true,
        },
        std_filter_post(old(vm)@, final(vm)@, idts.deep_view(), args.deep_view(), res_view(r)),
{
    if args.len() != 3 {
        return Err(arity_error("2", args.len()));
    }
    let module = match &args[0] {
        VMValue::Str(s) => s.clone(),
        other => {
            return Err(type_error("string", other));
        },
    };
    let function = match &args[1] {
        VMValue::Str(s) => s.clone(),
        other => {
            return Err(type_error("string", other));
        },
    };
    let h = match &args[2] {
        VMValue::Array(h) => *h,
        other => {
            return Err(type_error("array", other));
        },
    };
    proof {
        assert(args.deep_view()[2] == args@[2]@);
    }
    let n = vm.arrays[h].len();
    proof {
        assert(n == old(vm)@.arrays[h as int].len());
    }
    let mut elements: Vec<VMValue> = Vec::new();
    let mut i: usize = 0;
    while i < n
        invariant
            vm.wf(),
            vm@ == old(vm)@,
            h < vm.arrays@.len(),
            n == vm.arrays@[h as int]@.len(),
            i <= n,
            elements@.len() == i,
            forall|x: int|
                0 <= x < i ==> val_wf(
                    #[trigger] elements.deep_view()[x],
                    vm@.arrays.len() as int,
                ),
        decreases n - i,
    {
        let ghost pre_e = elements.deep_view();
        proof {
            assert(vm@.arrays[h as int][i as int] == vm.arrays@[h as int]@[i as int]@);
            assert(val_wf(vm@.arrays[h as int][i as int], vm@.arrays.len() as int));
        }
        elements.push(vm.arrays[h][i].dup());
        i = i + 1;
        proof {
            assert(elements.deep_view() =~= pre_e.push(
                elements@[elements@.len() - 1]@,
            ));
        }
    }
    let mut out: Vec<VMValue> = Vec::new();
    let mut j: usize = 0;
    while j < elements.len()
        invariant
            vm.wf(),
            native_common(old(vm)@, vm@),
            vm@.call_stack == old(vm)@.call_stack,
            j <= elements@.len(),
            elements@.len() == n,
            n == old(vm)@.arrays[h as int].len(),
            out@.len() <= j,
            forall|x: int|
                0 <= x < elements@.len() ==> val_wf(
                    #[trigger] elements.deep_view()[x],
                    vm@.arrays.len() as int,
                ),
            forall|x: int|
                0 <= x < out@.len() ==> val_wf(
                    #[trigger] out.deep_view()[x],
                    vm@.arrays.len() as int,
                ),
        decreases elements@.len() - j,
    {
        let mut idts2: Vec<Option<String>> = Vec::new();
        idts2.push(Some(String::from_str("value")));
        let mut one: Vec<VMValue> = Vec::new();
        one.push(elements[j].dup());
        let ghost before = vm@;
        proof {
            assert(one.deep_view() =~= seq![elements.deep_view()[j as int]]);
            assert forall|x: int| 0 <= x < one.deep_view().len() implies val_wf(
                #[trigger] one.deep_view()[x],
                vm@.arrays.len() as int,
            ) by {
                assert(val_wf(elements.deep_view()[j as int], vm@.arrays.len() as int));
            }
        }
        let res = vm.call_leaf(&module, &function, &idts2, &one);
        proof {
            assert(native_common(old(vm)@, vm@)) by {
                if vm@.index == before.index {
                } else {
                }
            }
            assert forall|x: int| 0 <= x < elements@.len() implies val_wf(
                #[trigger] elements.deep_view()[x],
                vm@.arrays.len() as int,
            ) by {
                assert(val_wf(elements.deep_view()[x], before.arrays.len() as int));
            }
            assert forall|x: int| 0 <= x < out@.len() implies val_wf(
                #[trigger] out.deep_view()[x],
                vm@.arrays.len() as int,
            ) by {
                assert(val_wf(out.deep_view()[x], before.arrays.len() as int));
            }
        }
        match res {
            Ok(Some(VMValue::Bool(keep))) => {
                if keep {
                    let ghost pre_o = out.deep_view();
                    out.push(elements[j].dup());
                    proof {
                        assert(out.deep_view() =~= pre_o.push(out@[out@.len() - 1]@));
                    }
                }
            },
            Ok(Some(other)) => {
                let m = type_error("boolean", &other);
                return Err(m);
            },
            Ok(None) => {
                return Err(String::from_str("expected return value, got none"));
            },
            Err(e) => {
                return Err(e);
            },
        }
        j = j + 1;
    }
    let nh = vm.arrays.len();
    let ghost preP = vm@;
    let ghost rowV = out.deep_view();
    vm.arrays.push(out);
    proof {
        assert(vm@.arrays =~~= preP.arrays.push(rowV));
        assert(vm@ == (VmV { arrays: preP.arrays.push(rowV), ..preP }));
        assert forall|j2: int| 0 <= j2 < rowV.len() implies val_wf(
            #[trigger] rowV[j2],
            preP.arrays.len() as int + 1,
        ) by {
            assert(val_wf(rowV[j2], preP.arrays.len() as int));
        }
        crate::vm::lemma_wf_arrays_push(preP, vm@, rowV);
        assert(vm@.arrays.last() == rowV);
        assert(rowV.len() <= old(vm)@.arrays[h as int].len());
        assert(nh == vm@.arrays.len() - 1);
        assert(vm@.arrays.len() > old(vm)@.arrays.len());
    }
    Ok(Some(VMValue::Array(nh)))
}

/// Registers the mapping natives under the `std` module name.
pub fn register(vm: &mut VM)
    requires
        old(vm).wf(),
    ensures
        final(vm).wf(),
        final(vm)@ == (VmV {
            funcs: old(vm)@.funcs.insert(
                "std"@ + seq![':'] + "map"@,
                NativeKind::Builtin(BuiltinFn::StdMap),
            ).insert("std"@ + seq![':'] + "mapdrop"@, NativeKind::Builtin(BuiltinFn::StdMapdrop))
                .insert(
                "std"@ + seq![':'] + "filter"@,
                NativeKind::Builtin(BuiltinFn::StdFilter),
            ),
            ..old(vm)@
        }),
{
    vm.register("std", "map", NativeKind::Builtin(BuiltinFn::StdMap));
    vm.register("std", "mapdrop", NativeKind::Builtin(BuiltinFn::StdMapdrop));
    vm.register("std", "filter", NativeKind::Builtin(BuiltinFn::StdFilter));
}

} // verus!
