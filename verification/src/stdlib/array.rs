//! The array natives. Arrays are shared by handle: `push`, `popat`,
//! `reverse` and `sort` mutate the backing sequence in place (visible
//! through every alias), `pop` produces a new detached sequence, `clone`
//! produces a fresh copy, and `new` builds a fresh array from its
//! arguments. The natives that mutate write the array back into the
//! caller's variable under the name given at the call site.

use vstd::prelude::*;
use vstd::string::*;

use crate::value::{VMValue, VMValueV};
use crate::vm::{val_wf, native_common, NativeKind, BuiltinFn, VmV, VM, res_view};

verus! {

/// The error for a wrong argument count.
pub(crate) fn arity_error(expected: &str, got: usize) -> String {
    let mut m = String::from_str("expected ");
    m.append(expected);
    m.append(" arguments, got ");
    let c = crate::strutil::usize_to_string(got);
    m.append(c.as_str());
    m
}

/// The error for a wrong argument type.
pub(crate) fn type_error(expected: &str, got: &VMValue) -> String {
    let mut m = String::from_str("expected ");
    m.append(expected);
    m.append(", got ");
    let n = got.name();
    m.append(n.as_str());
    m
}

/// `array:new` builds a fresh array holding exactly its arguments and
/// returns its handle.
pub open spec fn array_new_post(
    pre: VmV,
    post: VmV,
    idts: Seq<Option<Seq<char>>>,
    args: Seq<VMValueV>,
    r: Result<Option<VMValueV>, ()>,
) -> bool {
    &&& r == Ok::<Option<VMValueV>, ()>(Some(VMValueV::Array(pre.arrays.len() as int)))
    &&& post == (VmV { arrays: pre.arrays.push(args), ..pre })
}

pub fn array_new(vm: &mut VM, idts: &Vec<Option<String>>, args: &Vec<VMValue>) -> (r: Result<
    Option<VMValue>,
    String,
>)
    requires
        old(vm).wf(),
        forall|i: int|
            0 <= i < args.deep_view().len() ==> val_wf(
                #[trigger] args.deep_view()[i],
                old(vm)@.arrays.len() as int,
            ),
    ensures
        final(vm).wf(),
        native_common(old(vm)@, final(vm)@),
        final(vm)@.call_stack == old(vm)@.call_stack,
        match res_view(r) {
            Ok(Some(v)) => val_wf(v, final(vm)@.arrays.len() as int),
            _ => true,
        },
        array_new_post(old(vm)@, final(vm)@, idts.deep_view(), args.deep_view(), res_view(r)),
{
    let h = vm.arrays.len();
    let mut v: Vec<VMValue> = Vec::new();
    let mut i: usize = 0;
    proof {
        assert(v.deep_view() =~= args.deep_view().take(0));
    }
    while i < args.len()
        invariant
            i <= args@.len(),
            v.deep_view() =~= args.deep_view().take(i as int),
        decreases args@.len() - i,
    {
        let ghost pre_v = v.deep_view();
        v.push(args[i].dup());
        i = i + 1;
        proof {
            assert(v.deep_view() =~= pre_v.push(v@[v@.len() - 1]@));
            assert(pre_v.push(args.deep_view()[i - 1]) =~= args.deep_view().take(i as int));
        }
    }
    proof {
        assert(args.deep_view().take(args.deep_view().len() as int) =~= args.deep_view());
    }
    let ghost pre = vm@;
    vm.arrays.push(v);
    proof {
        assert(vm@.arrays =~~= pre.arrays.push(args.deep_view()));
        assert(vm@ == (VmV { arrays: pre.arrays.push(args.deep_view()), ..pre }));
    }
    Ok(Some(VMValue::Array(h)))
}

/// `array:get` reads the element at an index; a handle and an in-range
/// integer index are required.
pub open spec fn array_get_post(
    pre: VmV,
    post: VmV,
    idts: Seq<Option<Seq<char>>>,
    args: Seq<VMValueV>,
    r: Result<Option<VMValueV>, ()>,
) -> bool {
    &&& post == pre
    &&& if args.len() == 2 && args[0] is Array && args[1] is Int && 0 <= args[1]->Int_0
        && args[1]->Int_0 < pre.arrays[args[0]->Array_0].len() {
        r == Ok::<Option<VMValueV>, ()>(
            Some(pre.arrays[args[0]->Array_0][args[1]->Int_0 as int]),
        )
    } else {
        r is Err
    }
}

pub fn array_get(vm: &mut VM, idts: &Vec<Option<String>>, args: &Vec<VMValue>) -> (r: Result<
    Option<VMValue>,
    String,
>)
    requires
        old(vm).wf(),
        forall|i: int|
            0 <= i < args.deep_view().len() ==> val_wf(
                #[trigger] args.deep_view()[i],
                old(vm)@.arrays.len() as int,
            ),
    ensures
        final(vm).wf(),
        native_common(old(vm)@, final(vm)@),
        final(vm)@.call_stack == old(vm)@.call_stack,
        match res_view(r) {
            Ok(Some(v)) => val_wf(v, final(vm)@.arrays.len() as int),
            _ => true,
        },
        array_get_post(old(vm)@, final(vm)@, idts.deep_view(), args.deep_view(), res_view(r)),
{
    if args.len() != 2 {
        return Err(arity_error("2", args.len()));
    }
    let h = match &args[0] {
        VMValue::Array(h) => *h,
        other => {
            return Err(type_error("array", other));
        },
    };
    let ix = match &args[1] {
        VMValue::Int(i) => *i,
        other => {
            return Err(type_error("int", other));
        },
    };
    proof {
        assert(args.deep_view()[0] == args@[0]@);
        assert(args.deep_view()[1] == args@[1]@);
        assert(vm@.arrays[h as int] == vm.arrays@[h as int].deep_view());
    }
    let n = vm.arrays[h].len();
    if ix < 0 || (ix as u64) >= (n as u64) {
        let mut m = String::from_str("index out of bounds: ");
        let c = crate::strutil::i64_to_string(ix);
        m.append(c.as_str());
        return Err(m);
    }
    let iu = ix as usize;
    proof {
        assert(val_wf(vm@.arrays[h as int][iu as int], vm@.arrays.len() as int));
    }
    Ok(Some(vm.arrays[h][iu].dup()))
}

/// `array:pop` removes the last element: the variable named at the call
/// site is rebound to a new detached array without it (other aliases keep
/// the full array), and the element is returned.
pub open spec fn array_pop_post(
    pre: VmV,
    post: VmV,
    idts: Seq<Option<Seq<char>>>,
    args: Seq<VMValueV>,
    r: Result<Option<VMValueV>, ()>,
) -> bool {
    if args.len() == 1 && args[0] is Array && pre.arrays[args[0]->Array_0].len() > 0
        && idts.len() >= 1 && idts[0] is Some {
        let h = args[0]->Array_0;
        let contents = pre.arrays[h];
        &&& r == Ok::<Option<VMValueV>, ()>(Some(contents.last()))
        &&& post == (VmV {
            arrays: pre.arrays.push(contents.drop_last()),
            variables: pre.variables.insert(
                idts[0]->Some_0,
                VMValueV::Array(pre.arrays.len() as int),
            ),
            ..pre
        })
    } else {
        r is Err && post == pre
    }
}

pub fn array_pop(vm: &mut VM, idts: &Vec<Option<String>>, args: &Vec<VMValue>) -> (r: Result<
    Option<VMValue>,
    String,
>)
    requires
        old(vm).wf(),
        forall|i: int|
            0 <= i < args.deep_view().len() ==> val_wf(
                #[trigger] args.deep_view()[i],
                old(vm)@.arrays.len() as int,
            ),
    ensures
        final(vm).wf(),
        native_common(old(vm)@, final(vm)@),
        final(vm)@.call_stack == old(vm)@.call_stack,
        match res_view(r) {
            Ok(Some(v)) => val_wf(v, final(vm)@.arrays.len() as int),
            _ => true,
        },
        array_pop_post(old(vm)@, final(vm)@, idts.deep_view(), args.deep_view(), res_view(r)),
{
    if args.len() != 1 {
        return Err(arity_error("1", args.len()));
    }
    let h = match &args[0] {
        VMValue::Array(h) => *h,
        other => {
            return Err(type_error("array", other));
        },
    };
    proof {
        assert(args.deep_view()[0] == args@[0]@);
        assert(vm@.arrays[h as int] == vm.arrays@[h as int].deep_view());
    }
    if vm.arrays[h].len() == 0 {
        return Err(String::from_str("cannot pop from empty array"));
    }
    if idts.len() < 1 {
        return Err(String::from_str("expected an array variable"));
    }
    let name = match &idts[0] {
        Some(n) => n.clone(),
        None => {
            return Err(String::from_str("expected an array variable"));
        },
    };
    proof {
        assert(idts.deep_view()[0] == idts@[0].deep_view());
    }
    let n = vm.arrays[h].len();
    proof {
        assert(val_wf(vm@.arrays[h as int][n - 1], vm@.arrays.len() as int));
    }
    let popped = vm.arrays[h][n - 1].dup();
    let mut detached: Vec<VMValue> = Vec::new();
    let mut i: usize = 0;
    proof {
        assert(detached.deep_view() =~= vm@.arrays[h as int].drop_last().take(0));
    }
    while i < n - 1
        invariant
            vm.wf(),
            h < vm.arrays@.len(),
            n == vm.arrays@[h as int]@.len(),
            n >= 1,
            i <= n - 1,
            detached.deep_view() =~= vm@.arrays[h as int].take(i as int),
        decreases n - 1 - i,
    {
        let ghost pre_d = detached.deep_view();
        detached.push(vm.arrays[h][i].dup());
        i = i + 1;
        proof {
            assert(detached.deep_view() =~= pre_d.push(
                detached@[detached@.len() - 1]@,
            ));
            assert(pre_d.push(vm@.arrays[h as int][i - 1]) =~= vm@.arrays[h as int].take(
                i as int,
            ));
        }
    }
    let ghost pre = vm@;
    let nh = vm.arrays.len();
    vm.arrays.push(detached);
    proof {
        assert(pre.arrays[h as int].take(n - 1) =~= pre.arrays[h as int].drop_last());
        assert(vm@.arrays =~~= pre.arrays.push(pre.arrays[h as int].drop_last()));
    }
    proof {
        crate::vm::lemma_vmap_insert(vm.variables@, name@, VMValue::Array(nh));
    }
    vm.variables.insert(name, VMValue::Array(nh));
    proof {
        assert(vm@ == (VmV {
            arrays: pre.arrays.push(pre.arrays[h as int].drop_last()),
            variables: pre.variables.insert(
                idts.deep_view()[0]->Some_0,
                VMValueV::Array(pre.arrays.len() as int),
            ),
            ..pre
        }));
    }
    Ok(Some(popped))
}

/// `array:push` appends a value to the shared backing sequence, visible
/// through every alias, and rebinds the named variable to the same handle.
pub open spec fn array_push_post(
    pre: VmV,
    post: VmV,
    idts: Seq<Option<Seq<char>>>,
    args: Seq<VMValueV>,
    r: Result<Option<VMValueV>, ()>,
) -> bool {
    if args.len() == 2 && args[0] is Array && idts.len() >= 1 && idts[0] is Some {
        let h = args[0]->Array_0;
        &&& r == Ok::<Option<VMValueV>, ()>(None)
        &&& post == (VmV {
            arrays: pre.arrays.update(h, pre.arrays[h].push(args[1])),
            variables: pre.variables.insert(idts[0]->Some_0, VMValueV::Array(h)),
            ..pre
        })
    } else {
        r is Err && post == pre
    }
}

pub fn array_push(vm: &mut VM, idts: &Vec<Option<String>>, args: &Vec<VMValue>) -> (r: Result<
    Option<VMValue>,
    String,
>)
    requires
        old(vm).wf(),
        forall|i: int|
            0 <= i < args.deep_view().len() ==> val_wf(
                #[trigger] args.deep_view()[i],
                old(vm)@.arrays.len() as int,
            ),
    ensures
        final(vm).wf(),
        native_common(old(vm)@, final(vm)@),
        final(vm)@.call_stack == old(vm)@.call_stack,
        match res_view(r) {
            Ok(Some(v)) => val_wf(v, final(vm)@.arrays.len() as int),
            _ => true,
        },
        array_push_post(old(vm)@, final(vm)@, idts.deep_view(), args.deep_view(), res_view(r)),
{
    if args.len() != 2 {
        return Err(arity_error("2", args.len()));
    }
    let h = match &args[0] {
        VMValue::Array(h) => *h,
        other => {
            return Err(type_error("array", other));
        },
    };
    if idts.len() < 1 {
        return Err(String::from_str("expected an array variable"));
    }
    let name = match &idts[0] {
        Some(n) => n.clone(),
        None => {
            return Err(String::from_str("expected an array variable"));
        },
    };
    proof {
        assert(args.deep_view()[0] == args@[0]@);
        assert(args.deep_view()[1] == args@[1]@);
        assert(idts.deep_view()[0] == idts@[0].deep_view());
        assert(vm@.arrays[h as int] == vm.arrays@[h as int].deep_view());
    }
    let ghost pre = vm@;
    let value = args[1].dup();
    vm.arrays[h].push(value);
    proof {
        assert(vm@.arrays =~~= pre.arrays.update(
            h as int,
            pre.arrays[h as int].push(args.deep_view()[1]),
        ));
    }
    proof {
        crate::vm::lemma_vmap_insert(vm.variables@, name@, VMValue::Array(h));
    }
    vm.variables.insert(name, VMValue::Array(h));
    proof {
        assert(vm@ == (VmV {
            arrays: pre.arrays.update(h as int, pre.arrays[h as int].push(args.deep_view()[1])),
            variables: pre.variables.insert(
                idts.deep_view()[0]->Some_0,
                VMValueV::Array(h as int),
            ),
            ..pre
        }));
    }
    Ok(None)
}

/// `array:clone` builds a fresh array with the same contents and returns
/// the new handle: a later push to the clone leaves the original untouched.
pub open spec fn array_clone_post(
    pre: VmV,
    post: VmV,
    idts: Seq<Option<Seq<char>>>,
    args: Seq<VMValueV>,
    r: Result<Option<VMValueV>, ()>,
) -> bool {
    if args.len() == 1 && args[0] is Array {
        let h = args[0]->Array_0;
        &&& r == Ok::<Option<VMValueV>, ()>(Some(VMValueV::Array(pre.arrays.len() as int)))
        &&& post == (VmV { arrays: pre.arrays.push(pre.arrays[h]), ..pre })
    } else {
        r is Err && post == pre
    }
}

pub fn array_clone(vm: &mut VM, idts: &Vec<Option<String>>, args: &Vec<VMValue>) -> (r: Result<
    Option<VMValue>,
    String,
>)
    requires
        old(vm).wf(),
        forall|i: int|
            0 <= i < args.deep_view().len() ==> val_wf(
                #[trigger] args.deep_view()[i],
                old(vm)@.arrays.len() as int,
            ),
    ensures
        final(vm).wf(),
        native_common(old(vm)@, final(vm)@),
        final(vm)@.call_stack == old(vm)@.call_stack,
        match res_view(r) {
            Ok(Some(v)) => val_wf(v, final(vm)@.arrays.len() as int),
            _ => true,
        },
        array_clone_post(old(vm)@, final(vm)@, idts.deep_view(), args.deep_view(), res_view(r)),
{
    if args.len() != 1 {
        return Err(arity_error("1", args.len()));
    }
    let h = match &args[0] {
        VMValue::Array(h) => *h,
        other => {
            return Err(type_error("array", other));
        },
    };
    proof {
        assert(args.deep_view()[0] == args@[0]@);
        assert(vm@.arrays[h as int] == vm.arrays@[h as int].deep_view());
    }
    let n = vm.arrays[h].len();
    let mut copy: Vec<VMValue> = Vec::new();
    let mut i: usize = 0;
    proof {
        assert(copy.deep_view() =~= vm@.arrays[h as int].take(0));
    }
    while i < n
        invariant
            vm.wf(),
            h < vm.arrays@.len(),
            n == vm.arrays@[h as int]@.len(),
            i <= n,
            copy.deep_view() =~= vm@.arrays[h as int].take(i as int),
        decreases n - i,
    {
        let ghost pre_c = copy.deep_view();
        copy.push(vm.arrays[h][i].dup());
        i = i + 1;
        proof {
            assert(copy.deep_view() =~= pre_c.push(copy@[copy@.len() - 1]@));
            assert(pre_c.push(vm@.arrays[h as int][i - 1]) =~= vm@.arrays[h as int].take(
                i as int,
            ));
        }
    }
    let nh = vm.arrays.len();
    let ghost pre = vm@;
    proof {
        assert(copy.deep_view() =~= pre.arrays[h as int]);
    }
    vm.arrays.push(copy);
    proof {
        assert(vm@.arrays =~~= pre.arrays.push(pre.arrays[h as int]));
        assert(vm@ == (VmV { arrays: pre.arrays.push(pre.arrays[h as int]), ..pre }));
    }
    Ok(Some(VMValue::Array(nh)))
}

/// `array:len` returns the number of elements.
pub open spec fn array_len_post(
    pre: VmV,
    post: VmV,
    idts: Seq<Option<Seq<char>>>,
    args: Seq<VMValueV>,
    r: Result<Option<VMValueV>, ()>,
) -> bool {
    &&& post == pre
    &&& if args.len() == 1 && args[0] is Array && pre.arrays[args[0]->Array_0].len()
        <= i64::MAX {
        r == Ok::<Option<VMValueV>, ()>(
            Some(VMValueV::Int(pre.arrays[args[0]->Array_0].len() as i64)),
        )
    } else {
        r is Err
    }
}

pub fn array_len(vm: &mut VM, idts: &Vec<Option<String>>, args: &Vec<VMValue>) -> (r: Result<
    Option<VMValue>,
    String,
>)
    requires
        old(vm).wf(),
        forall|i: int|
            0 <= i < args.deep_view().len() ==> val_wf(
                #[trigger] args.deep_view()[i],
                old(vm)@.arrays.len() as int,
            ),
    ensures
        final(vm).wf(),
        native_common(old(vm)@, final(vm)@),
        final(vm)@.call_stack == old(vm)@.call_stack,
        match res_view(r) {
            Ok(Some(v)) => val_wf(v, final(vm)@.arrays.len() as int),
            _ => true,
        },
        array_len_post(old(vm)@, final(vm)@, idts.deep_view(), args.deep_view(), res_view(r)),
{
    if args.len() != 1 {
        return Err(arity_error("1", args.len()));
    }
    let h = match &args[0] {
        VMValue::Array(h) => *h,
        other => {
            return Err(type_error("array", other));
        },
    };
    proof {
        assert(args.deep_view()[0] == args@[0]@);
        assert(vm@.arrays[h as int] == vm.arrays@[h as int].deep_view());
    }
    let n = vm.arrays[h].len();
    if (n as u64) > 0x7fff_ffff_ffff_ffffu64 {
        return Err(String::from_str("array too large"));
    }
    Ok(Some(VMValue::Int(n as i64)))
}

/// `array:popat` removes the element at an index from the shared backing
/// sequence (visible through every alias), rebinds the named variable to
/// the same handle, and returns the removed element.
pub open spec fn array_popat_post(
    pre: VmV,
    post: VmV,
    idts: Seq<Option<Seq<char>>>,
    args: Seq<VMValueV>,
    r: Result<Option<VMValueV>, ()>,
) -> bool {
    if args.len() == 2 && args[0] is Array && args[1] is Int && 0 <= args[1]->Int_0
        && args[1]->Int_0 < pre.arrays[args[0]->Array_0].len() && idts.len() >= 1
        && idts[0] is Some {
        let h = args[0]->Array_0;
        let ix = args[1]->Int_0 as int;
        &&& r == Ok::<Option<VMValueV>, ()>(Some(pre.arrays[h][ix]))
        &&& post == (VmV {
            arrays: pre.arrays.update(h, pre.arrays[h].remove(ix)),
            variables: pre.variables.insert(idts[0]->Some_0, VMValueV::Array(h)),
            ..pre
        })
    } else {
        r is Err && post == pre
    }
}

pub fn array_popat(vm: &mut VM, idts: &Vec<Option<String>>, args: &Vec<VMValue>) -> (r: Result<
    Option<VMValue>,
    String,
>)
    requires
        old(vm).wf(),
        forall|i: int|
            0 <= i < args.deep_view().len() ==> val_wf(
                #[trigger] args.deep_view()[i],
                old(vm)@.arrays.len() as int,
            ),
    ensures
        final(vm).wf(),
        native_common(old(vm)@, final(vm)@),
        final(vm)@.call_stack == old(vm)@.call_stack,
        match res_view(r) {
            Ok(Some(v)) => val_wf(v, final(vm)@.arrays.len() as int),
            _ => true,
        },
        array_popat_post(old(vm)@, final(vm)@, idts.deep_view(), args.deep_view(), res_view(r)),
{
    if args.len() != 2 {
        return Err(arity_error("2", args.len()));
    }
    let h = match &args[0] {
        VMValue::Array(h) => *h,
        other => {
            return Err(type_error("array", other));
        },
    };
    let ix = match &args[1] {
        VMValue::Int(i) => *i,
        other => {
            return Err(type_error("int", other));
        },
    };
    proof {
        assert(args.deep_view()[0] == args@[0]@);
        assert(args.deep_view()[1] == args@[1]@);
        assert(vm@.arrays[h as int] == vm.arrays@[h as int].deep_view());
    }
    let nlen = vm.arrays[h].len();
    if ix < 0 || (ix as u64) >= (nlen as u64) {
        let mut m = String::from_str("index out of bounds: ");
        let c = crate::strutil::i64_to_string(ix);
        m.append(c.as_str());
        return Err(m);
    }
    let iu = ix as usize;
    if idts.len() < 1 {
        return Err(String::from_str("expected an array variable"));
    }
    let name = match &idts[0] {
        Some(n) => n.clone(),
        None => {
            return Err(String::from_str("expected an array variable"));
        },
    };
    proof {
        assert(idts.deep_view()[0] == idts@[0].deep_view());
    }
    let ghost pre = vm@;
    proof {
        assert(val_wf(vm@.arrays[h as int][iu as int], vm@.arrays.len() as int));
    }
    let removed = vm.arrays[h].remove(iu);
    proof {
        assert(vm@.arrays =~~= pre.arrays.update(h as int, pre.arrays[h as int].remove(ix as int)));
        assert(vm@.arrays[h as int] =~= pre.arrays[h as int].remove(ix as int));
    }
    proof {
        crate::vm::lemma_vmap_insert(vm.variables@, name@, VMValue::Array(h));
    }
    vm.variables.insert(name, VMValue::Array(h));
    proof {
        assert(vm@ == (VmV {
            arrays: pre.arrays.update(h as int, pre.arrays[h as int].remove(ix as int)),
            variables: pre.variables.insert(
                idts.deep_view()[0]->Some_0,
                VMValueV::Array(h as int),
            ),
            ..pre
        }));
    }
    Ok(Some(removed))
}

/// Structural equality of two runtime values: scalars by value (floats by
/// bit pattern), arrays by handle.
pub fn value_eq(a: &VMValue, b: &VMValue) -> (r: bool)
    ensures
        r == (a@ == b@),
{
    match (a, b) {
        (VMValue::Bool(x), VMValue::Bool(y)) => *x == *y,
        (VMValue::Int(x), VMValue::Int(y)) => *x == *y,
        (VMValue::Float(x), VMValue::Float(y)) => *x == *y,
        (VMValue::Str(x), VMValue::Str(y)) => *x == *y,
        (VMValue::Identifier(x), VMValue::Identifier(y)) => *x == *y,
        (VMValue::Array(x), VMValue::Array(y)) => *x == *y,
        _ => false,
    }
}

/// Index of the first element equal to `v`, or `s.len()` if none is.
pub open spec fn spec_first_eq(s: Seq<VMValueV>, v: VMValueV) -> int
    decreases s.len(),
{
    if s.len() == 0 {
        0
    } else if s[0] == v {
        0
    } else {
        1 + spec_first_eq(s.skip(1), v)
    }
}

pub proof fn lemma_first_eq(s: Seq<VMValueV>, v: VMValueV)
    ensures
        0 <= spec_first_eq(s, v) <= s.len(),
        spec_first_eq(s, v) < s.len() ==> s[spec_first_eq(s, v)] == v,
        forall|j: int| 0 <= j < spec_first_eq(s, v) ==> s[j] != v,
    decreases s.len(),
{
    if s.len() > 0 && s[0] != v {
        lemma_first_eq(s.skip(1), v);
        assert forall|j: int| 0 <= j < spec_first_eq(s, v) implies s[j] != v by {
            if j >= 1 {
                assert(s.skip(1)[j - 1] == s[j]);
            }
        }
    }
}

/// `array:index` returns the index of the first element equal to the given
/// value, or `-1` when none is. Equality is structural: scalars by value
/// (floats by bit pattern), a nested array by its handle, never by its
/// contents.
pub open spec fn array_index_post(
    pre: VmV,
    post: VmV,
    idts: Seq<Option<Seq<char>>>,
    args: Seq<VMValueV>,
    r: Result<Option<VMValueV>, ()>,
) -> bool {
    &&& post == pre
    &&& if args.len() == 2 && args[0] is Array {
        let s = pre.arrays[args[0]->Array_0];
        let k = spec_first_eq(s, args[1]);
        if k < s.len() {
            if k <= i64::MAX {
                r == Ok::<Option<VMValueV>, ()>(Some(VMValueV::Int(k as i64)))
            } else {
                r is Err
            }
        } else {
            r == Ok::<Option<VMValueV>, ()>(Some(VMValueV::Int(-1i64)))
        }
    } else {
        r is Err
    }
}

pub fn array_index(vm: &mut VM, idts: &Vec<Option<String>>, args: &Vec<VMValue>) -> (r: Result<
    Option<VMValue>,
    String,
>)
    requires
        old(vm).wf(),
        forall|i: int|
            0 <= i < args.deep_view().len() ==> val_wf(
                #[trigger] args.deep_view()[i],
                old(vm)@.arrays.len() as int,
            ),
    ensures
        final(vm).wf(),
        native_common(old(vm)@, final(vm)@),
        final(vm)@.call_stack == old(vm)@.call_stack,
        match res_view(r) {
            Ok(Some(v)) => val_wf(v, final(vm)@.arrays.len() as int),
            _ => true,
        },
        array_index_post(old(vm)@, final(vm)@, idts.deep_view(), args.deep_view(), res_view(r)),
{
    if args.len() != 2 {
        return Err(arity_error("2", args.len()));
    }
    let h = match &args[0] {
        VMValue::Array(h) => *h,
        other => {
            return Err(type_error("array", other));
        },
    };
    proof {
        assert(args.deep_view()[0] == args@[0]@);
        assert(args.deep_view()[1] == args@[1]@);
        assert(vm@.arrays[h as int] == vm.arrays@[h as int].deep_view());
    }
    let ghost s = vm@.arrays[h as int];
    let ghost target = args.deep_view()[1];
    let n = vm.arrays[h].len();
    let mut j: usize = 0;
    proof {
        lemma_first_eq(s, target);
    }
    while j < n
        invariant
            vm.wf(),
            vm@ == old(vm)@,
            h < vm.arrays@.len(),
            s == vm@.arrays[h as int],
            args.deep_view().len() == 2,
            args.deep_view()[0] is Array,
            args.deep_view()[0]->Array_0 == h as int,
            target == args.deep_view()[1],
            args@.len() == 2,
            target == args@[1]@,
            n == s.len(),
            j <= n,
            forall|x: int| 0 <= x < j ==> s[x] != target,
        decreases n - j,
    {
        proof {
            assert(s[j as int] == vm.arrays@[h as int]@[j as int]@);
        }
        if value_eq(&vm.arrays[h][j], &args[1]) {
            proof {
                lemma_first_eq(s, target);
                if spec_first_eq(s, target) < j {
                    assert(s[spec_first_eq(s, target)] == target);
                    assert(false);
                }
                if spec_first_eq(s, target) > j {
                    assert(s[j as int] != target);
                    assert(false);
                }
            }
            if (j as u64) > 0x7fff_ffff_ffff_ffffu64 {
                return Err(String::from_str("array too large"));
            }
            return Ok(Some(VMValue::Int(j as i64)));
        }
        j = j + 1;
    }
    proof {
        lemma_first_eq(s, target);
        if spec_first_eq(s, target) < s.len() {
            assert(s[spec_first_eq(s, target)] == target);
            assert(false);
        }
    }
    Ok(Some(VMValue::Int(-1i64)))
}

/// `array:reverse` reverses the shared backing sequence in place and
/// rebinds the named variable to the same handle.
pub open spec fn array_reverse_post(
    pre: VmV,
    post: VmV,
    idts: Seq<Option<Seq<char>>>,
    args: Seq<VMValueV>,
    r: Result<Option<VMValueV>, ()>,
) -> bool {
    if args.len() == 1 && args[0] is Array && idts.len() >= 1 && idts[0] is Some {
        let h = args[0]->Array_0;
        &&& r == Ok::<Option<VMValueV>, ()>(None)
        &&& post == (VmV {
            arrays: pre.arrays.update(h, pre.arrays[h].reverse()),
            variables: pre.variables.insert(idts[0]->Some_0, VMValueV::Array(h)),
            ..pre
        })
    } else {
        r is Err && post == pre
    }
}

pub fn array_reverse(vm: &mut VM, idts: &Vec<Option<String>>, args: &Vec<VMValue>) -> (r: Result<
    Option<VMValue>,
    String,
>)
    requires
        old(vm).wf(),
        forall|i: int|
            0 <= i < args.deep_view().len() ==> val_wf(
                #[trigger] args.deep_view()[i],
                old(vm)@.arrays.len() as int,
            ),
    ensures
        final(vm).wf(),
        native_common(old(vm)@, final(vm)@),
        final(vm)@.call_stack == old(vm)@.call_stack,
        match res_view(r) {
            Ok(Some(v)) => val_wf(v, final(vm)@.arrays.len() as int),
            _ => true,
        },
        array_reverse_post(old(vm)@, final(vm)@, idts.deep_view(), args.deep_view(), res_view(r)),
{
    if args.len() != 1 {
        return Err(arity_error("1", args.len()));
    }
    let h = match &args[0] {
        VMValue::Array(h) => *h,
        other => {
            return Err(type_error("array", other));
        },
    };
    if idts.len() < 1 {
        return Err(String::from_str("expected an array variable"));
    }
    let name = match &idts[0] {
        Some(n) => n.clone(),
        None => {
            return Err(String::from_str("expected an array variable"));
        },
    };
    proof {
        assert(args.deep_view()[0] == args@[0]@);
        assert(idts.deep_view()[0] == idts@[0].deep_view());
        assert(vm@.arrays[h as int] == vm.arrays@[h as int].deep_view());
    }
    let ghost pre = vm@;
    let ghost s = pre.arrays[h as int];
    let n = vm.arrays[h].len();
    let mut rev: Vec<VMValue> = Vec::new();
    let mut i: usize = 0;
    while i < n
        invariant
            vm.wf(),
            vm@ == pre,
            h < vm.arrays@.len(),
            s == vm@.arrays[h as int],
            n == s.len(),
            i <= n,
            rev.deep_view().len() == i,
            forall|x: int| 0 <= x < i ==> #[trigger] rev.deep_view()[x] == s[n - 1 - x],
        decreases n - i,
    {
        let ghost pre_r = rev.deep_view();
        proof {
            assert(s[n - 1 - i] == vm.arrays@[h as int]@[n - 1 - i as int]@);
        }
        rev.push(vm.arrays[h][n - 1 - i].dup());
        i = i + 1;
        proof {
            assert(rev.deep_view() =~= pre_r.push(rev@[rev@.len() - 1]@));
        }
    }
    proof {
        assert(rev.deep_view() =~= s.reverse());
    }
    vm.arrays[h] = rev;
    proof {
        assert(vm@.arrays =~~= pre.arrays.update(h as int, s.reverse()));
    }
    proof {
        crate::vm::lemma_vmap_insert(vm.variables@, name@, VMValue::Array(h));
    }
    vm.variables.insert(name, VMValue::Array(h));
    proof {
        assert(vm@ == (VmV {
            arrays: pre.arrays.update(h as int, s.reverse()),
            variables: pre.variables.insert(
                idts.deep_view()[0]->Some_0,
                VMValueV::Array(h as int),
            ),
            ..pre
        }));
    }
    Ok(None)
}

/// Swapping two adjacent elements preserves a sequence's multiset.
pub proof fn lemma_adjacent_swap_multiset(s: Seq<VMValueV>, i: int)
    requires
        0 <= i,
        i + 1 < s.len(),
    ensures
        s.update(i, s[i + 1]).update(i + 1, s[i]).to_multiset() == s.to_multiset(),
{
    broadcast use vstd::multiset::group_multiset_axioms;

    let t = s.update(i, s[i + 1]).update(i + 1, s[i]);
    let head = s.take(i);
    let x = seq![s[i]];
    let y = seq![s[i + 1]];
    let tail = s.skip(i + 2);
    assert(s =~= head + x + y + tail);
    assert(t =~= head + y + x + tail);
    vstd::seq_lib::lemma_multiset_commutative(head + x + y, tail);
    vstd::seq_lib::lemma_multiset_commutative(head + x, y);
    vstd::seq_lib::lemma_multiset_commutative(head, x);
    vstd::seq_lib::lemma_multiset_commutative(head + y + x, tail);
    vstd::seq_lib::lemma_multiset_commutative(head + y, x);
    vstd::seq_lib::lemma_multiset_commutative(head, y);
    assert(t.to_multiset() =~= s.to_multiset());
}

/// No adjacent pair among the first `m` elements is out of order.
pub open spec fn pairs_ok(w: Seq<VMValueV>, m: int) -> bool {
    forall|x: int|
        0 <= x && x + 1 < m ==> #[trigger] crate::value::spec_lt_vals(w[x + 1], w[x])
            != Ok::<bool, ()>(true)
}

/// Every pair of held values (a value with itself included) compares
/// without error: all elements are numeric.
pub open spec fn all_comparable(s: Seq<VMValueV>) -> bool {
    forall|i: int, j: int|
        0 <= i < s.len() && 0 <= j < s.len() ==> #[trigger] crate::value::spec_lt_vals(
            s[i],
            s[j],
        ) is Ok
}

/// A sequence holds only values of any sequence with the same multiset.
pub proof fn lemma_same_multiset_elem(w: Seq<VMValueV>, s: Seq<VMValueV>, idx: int)
    requires
        w.to_multiset() == s.to_multiset(),
        0 <= idx < w.len(),
    ensures
        exists|i: int| 0 <= i < s.len() && s[i] == w[idx],
{
    w.to_multiset_ensures();
    s.to_multiset_ensures();
    assert(w.contains(w[idx]));
    assert(w.to_multiset().count(w[idx]) > 0);
    assert(s.to_multiset().count(w[idx]) > 0);
    assert(s.contains(w[idx]));
}

/// `array:sort` reorders the shared backing sequence in place and rebinds
/// the named variable to the same handle: on success the sequence is a
/// permutation of the old contents with no adjacent pair out of order, and
/// success is owed whenever all elements are mutually comparable (all
/// numeric); mixed incomparable elements are an error, and the store then
/// holds some permutation of the old contents.
pub open spec fn array_sort_post(
    pre: VmV,
    post: VmV,
    idts: Seq<Option<Seq<char>>>,
    args: Seq<VMValueV>,
    r: Result<Option<VMValueV>, ()>,
) -> bool {
    if args.len() == 1 && args[0] is Array && idts.len() >= 1 && idts[0] is Some {
        let h = args[0]->Array_0;
        exists|s2: Seq<VMValueV>|
            {
                &&& #[trigger] s2.len() == pre.arrays[h].len()
                &&& s2.to_multiset() == pre.arrays[h].to_multiset()
                &&& (forall|i: int|
                    0 <= i < s2.len() ==> val_wf(#[trigger] s2[i], pre.arrays.len() as int))
                &&& (r is Ok ==> pairs_ok(s2, s2.len() as int))
                &&& (all_comparable(pre.arrays[h]) ==> r == Ok::<Option<VMValueV>, ()>(None))
                &&& (r is Err && post == (VmV {
                    arrays: pre.arrays.update(h, s2),
                    ..pre
                }) || r == Ok::<Option<VMValueV>, ()>(None) && post == (VmV {
                    arrays: pre.arrays.update(h, s2),
                    variables: pre.variables.insert(idts[0]->Some_0, VMValueV::Array(h)),
                    ..pre
                }))
            }
    } else {
        r is Err && post == pre
    }
}

pub fn array_sort(vm: &mut VM, idts: &Vec<Option<String>>, args: &Vec<VMValue>) -> (r: Result<
    Option<VMValue>,
    String,
>)
    requires
        old(vm).wf(),
        forall|i: int|
            0 <= i < args.deep_view().len() ==> val_wf(
                #[trigger] args.deep_view()[i],
                old(vm)@.arrays.len() as int,
            ),
    ensures
        final(vm).wf(),
        native_common(old(vm)@, final(vm)@),
        final(vm)@.call_stack == old(vm)@.call_stack,
        match res_view(r) {
            Ok(Some(v)) => val_wf(v, final(vm)@.arrays.len() as int),
            _ => true,
        },
        array_sort_post(old(vm)@, final(vm)@, idts.deep_view(), args.deep_view(), res_view(r)),
{
    if args.len() != 1 {
        return Err(arity_error("1", args.len()));
    }
    let h = match &args[0] {
        VMValue::Array(h) => *h,
        other => {
            return Err(type_error("array", other));
        },
    };
    if idts.len() < 1 {
        return Err(String::from_str("expected an array variable"));
    }
    let name = match &idts[0] {
        Some(n) => n.clone(),
        None => {
            return Err(String::from_str("expected an array variable"));
        },
    };
    proof {
        assert(args.deep_view()[0] == args@[0]@);
        assert(idts.deep_view()[0] == idts@[0].deep_view());
        assert(vm@.arrays[h as int] == vm.arrays@[h as int].deep_view());
    }
    let ghost pre = vm@;
    let ghost s = pre.arrays[h as int];
    let n = vm.arrays[h].len();
    // insertion sort on a working copy, then one write-back
    let mut work: Vec<VMValue> = Vec::new();
    let mut i: usize = 0;
    while i < n
        invariant
            vm.wf(),
            vm@ == pre,
            h < vm.arrays@.len(),
            s == vm@.arrays[h as int],
            n == s.len(),
            i <= n,
            work.deep_view() =~= s.take(i as int),
            forall|x: int|
                0 <= x < i ==> val_wf(#[trigger] work.deep_view()[x], pre.arrays.len() as int),
        decreases n - i,
    {
        let ghost pre_w = work.deep_view();
        proof {
            assert(s[i as int] == vm.arrays@[h as int]@[i as int]@);
        }
        work.push(vm.arrays[h][i].dup());
        i = i + 1;
        proof {
            assert(work.deep_view() =~= pre_w.push(work@[work@.len() - 1]@));
            assert(work.deep_view() =~= s.take(i as int));
        }
    }
    proof {
        assert(work.deep_view() =~= s);
        assert(work.deep_view().to_multiset() == s.to_multiset());
    }
    let mut sorted_err: Option<String> = None;
    let mut a: usize = 1;
    while a < n
        invariant_except_break
            sorted_err is None,
            pairs_ok(work.deep_view(), a as int),
        invariant
            vm.wf(),
            vm@ == pre,
            h < vm.arrays@.len(),
            n == s.len(),
            1 <= a,
            work.deep_view().len() == n,
            work.deep_view().to_multiset() == s.to_multiset(),
            sorted_err is Some ==> !all_comparable(s),
            forall|x: int|
                0 <= x < n ==> val_wf(#[trigger] work.deep_view()[x], pre.arrays.len() as int),
        ensures
            vm.wf(),
            vm@ == pre,
            work.deep_view().len() == n,
            work.deep_view().to_multiset() == s.to_multiset(),
            forall|x: int|
                0 <= x < n ==> val_wf(#[trigger] work.deep_view()[x], pre.arrays.len() as int),
            sorted_err is None ==> pairs_ok(work.deep_view(), n as int),
            sorted_err is Some ==> !all_comparable(s),
        decreases n - a,
    {
        let mut b: usize = a;
        proof {
            let w = work.deep_view();
            assert(w.take(a + 1).remove(a as int) =~= w.take(a as int));
            assert forall|x: int|
                0 <= x && x + 1 < a implies #[trigger] crate::value::spec_lt_vals(
                w.take(a + 1).remove(a as int)[x + 1],
                w.take(a + 1).remove(a as int)[x],
            ) != Ok::<bool, ()>(true) by {
                assert(w.take(a + 1).remove(a as int)[x] == w[x]);
                assert(w.take(a + 1).remove(a as int)[x + 1] == w[x + 1]);
            }
        }
        loop
            invariant_except_break
                sorted_err is None,
                pairs_ok(work.deep_view().take(a + 1).remove(b as int), a as int),
                b + 1 <= a ==> crate::value::spec_lt_vals(
                    work.deep_view()[b + 1],
                    work.deep_view()[b as int],
                ) != Ok::<bool, ()>(true),
            invariant
                vm.wf(),
                vm@ == pre,
                b <= a < n,
                n == s.len(),
                work.deep_view().len() == n,
                work.deep_view().to_multiset() == s.to_multiset(),
                sorted_err is Some ==> !all_comparable(s),
                forall|x: int|
                    0 <= x < n ==> val_wf(
                        #[trigger] work.deep_view()[x],
                        pre.arrays.len() as int,
                    ),
            ensures
                vm.wf(),
                vm@ == pre,
                a < n,
                n == s.len(),
                work.deep_view().len() == n,
                work.deep_view().to_multiset() == s.to_multiset(),
                forall|x: int|
                    0 <= x < n ==> val_wf(
                        #[trigger] work.deep_view()[x],
                        pre.arrays.len() as int,
                    ),
                sorted_err is None ==> pairs_ok(work.deep_view(), (a + 1) as int),
                sorted_err is Some ==> !all_comparable(s),
            decreases b,
        {
            if b == 0 {
                proof {
                    let w = work.deep_view();
                    let rm = w.take(a + 1).remove(0);
                    assert forall|x2: int|
                        0 <= x2 && x2 + 1 < a + 1 implies #[trigger] crate::value::spec_lt_vals(
                        w[x2 + 1],
                        w[x2],
                    ) != Ok::<bool, ()>(true) by {
                        if x2 == 0 {
                        } else {
                            assert(rm[x2 - 1] == w[x2]);
                            assert(rm[x2] == w[x2 + 1]);
                            assert(crate::value::spec_lt_vals(
                                rm[(x2 - 1) + 1],
                                rm[x2 - 1],
                            ) != Ok::<bool, ()>(true));
                        }
                    }
                    assert(pairs_ok(w, (a + 1) as int));
                }
                break ;
            }
            let lt = work[b].less(&work[b - 1]);
            proof {
                assert(work.deep_view()[b as int] == work@[b as int]@);
                assert(work.deep_view()[b - 1] == work@[b - 1]@);
            }
            match lt {
                Ok(VMValue::Bool(true)) => {
                    let ghost wpre = work.deep_view();
                    let x = work[b].dup();
                    let y = work[b - 1].dup();
                    work[b] = y;
                    work[b - 1] = x;
                    proof {
                        let w = work.deep_view();
                        assert(w =~= wpre.update(b as int, wpre[b - 1]).update(
                            b - 1,
                            wpre[b as int],
                        ));
                        assert(w =~= wpre.update(b - 1, wpre[b as int]).update(
                            b as int,
                            wpre[b - 1],
                        ));
                        lemma_adjacent_swap_multiset(wpre, b - 1);
                        assert(w.to_multiset() == wpre.to_multiset());
                        assert forall|x2: int|
                            0 <= x2 < n implies val_wf(
                            #[trigger] w[x2],
                            pre.arrays.len() as int,
                        ) by {
                            assert(val_wf(wpre[x2], pre.arrays.len() as int));
                        }
                        // deleting the moving element leaves the same sequence
                        assert(w.take(a + 1).remove(b - 1) =~= wpre.take(a + 1).remove(
                            b as int,
                        ));
                        assert(pairs_ok(w.take(a + 1).remove(b - 1), a as int));
                        // the pair below the moved element is in order, by
                        // the asymmetry of the strict order
                        assert(crate::value::spec_lt_vals(w[b as int], w[b - 1])
                            != Ok::<bool, ()>(true));
                    }
                    b = b - 1;
                },
                Ok(_) => {
                    proof {
                        let w = work.deep_view();
                        let rm = w.take(a + 1).remove(b as int);
                        assert(crate::value::spec_lt_vals(w[b as int], w[b - 1])
                            != Ok::<bool, ()>(true));
                        assert forall|x2: int|
                            0 <= x2 && x2 + 1 < a + 1 implies #[trigger] crate::value::spec_lt_vals(
                            w[x2 + 1],
                            w[x2],
                        ) != Ok::<bool, ()>(true) by {
                            if x2 == b - 1 {
                            } else if x2 == b {
                            } else if x2 < b - 1 {
                                assert(rm[x2] == w[x2]);
                                assert(rm[x2 + 1] == w[x2 + 1]);
                                assert(crate::value::spec_lt_vals(rm[x2 + 1], rm[x2])
                                    != Ok::<bool, ()>(true));
                            } else {
                                assert(rm[x2 - 1] == w[x2]);
                                assert(rm[x2] == w[x2 + 1]);
                                assert(crate::value::spec_lt_vals(
                                    rm[(x2 - 1) + 1],
                                    rm[x2 - 1],
                                ) != Ok::<bool, ()>(true));
                            }
                        }
                        assert(pairs_ok(w, (a + 1) as int));
                    }
                    break ;
                },
                Err(m) => {
                    proof {
                        let w = work.deep_view();
                        lemma_same_multiset_elem(w, s, b as int);
                        lemma_same_multiset_elem(w, s, b - 1);
                        let i2 = choose|i2: int| 0 <= i2 < s.len() && s[i2] == w[b as int];
                        let j2 = choose|j2: int| 0 <= j2 < s.len() && s[j2] == w[b - 1];
                        assert(crate::value::spec_lt_vals(s[i2], s[j2]) is Err);
                        assert(!all_comparable(s));
                    }
                    sorted_err = Some(m);
                    break ;
                },
            }
        }
        if matches!(sorted_err, Some(_)) {
            break ;
        }
        a = a + 1;
    }
    let ghost s2 = work.deep_view();
    vm.arrays[h] = work;
    proof {
        assert(vm@.arrays =~~= pre.arrays.update(h as int, s2));
    }
    match sorted_err {
        Some(m) => {
            proof {
                assert(vm@ == (VmV { arrays: pre.arrays.update(h as int, s2), ..pre }));
            }
            Err(m)
        },
        None => {
            proof {
                crate::vm::lemma_vmap_insert(vm.variables@, name@, VMValue::Array(h));
            }
            vm.variables.insert(name, VMValue::Array(h));
            proof {
                assert(vm@ == (VmV {
                    arrays: pre.arrays.update(h as int, s2),
                    variables: pre.variables.insert(
                        idts.deep_view()[0]->Some_0,
                        VMValueV::Array(h as int),
                    ),
                    ..pre
                }));
            }
            Ok(None)
        },
    }
}

/// `array:is` compares two arrays element by element: scalars by value
/// (floats by bit pattern), nested arrays by handle, never by their
/// contents.
pub open spec fn array_is_post(
    pre: VmV,
    post: VmV,
    idts: Seq<Option<Seq<char>>>,
    args: Seq<VMValueV>,
    r: Result<Option<VMValueV>, ()>,
) -> bool {
    &&& post == pre
    &&& if args.len() == 2 && args[0] is Array && args[1] is Array {
        r == Ok::<Option<VMValueV>, ()>(
            Some(
                VMValueV::Bool(pre.arrays[args[0]->Array_0] == pre.arrays[args[1]->Array_0]),
            ),
        )
    } else {
        r is Err
    }
}

pub fn array_is(vm: &mut VM, idts: &Vec<Option<String>>, args: &Vec<VMValue>) -> (r: Result<
    Option<VMValue>,
    String,
>)
    requires
        old(vm).wf(),
        forall|i: int|
            0 <= i < args.deep_view().len() ==> val_wf(
                #[trigger] args.deep_view()[i],
                old(vm)@.arrays.len() as int,
            ),
    ensures
        final(vm).wf(),
        native_common(old(vm)@, final(vm)@),
        final(vm)@.call_stack == old(vm)@.call_stack,
        match res_view(r) {
            Ok(Some(v)) => val_wf(v, final(vm)@.arrays.len() as int),
            _ => true,
        },
        array_is_post(old(vm)@, final(vm)@, idts.deep_view(), args.deep_view(), res_view(r)),
{
    if args.len() != 2 {
        return Err(arity_error("2", args.len()));
    }
    let h1 = match &args[0] {
        VMValue::Array(h) => *h,
        other => {
            return Err(type_error("array", other));
        },
    };
    let h2 = match &args[1] {
        VMValue::Array(h) => *h,
        other => {
            return Err(type_error("array", other));
        },
    };
    proof {
        assert(args.deep_view()[0] == args@[0]@);
        assert(args.deep_view()[1] == args@[1]@);
        assert(vm@.arrays[h1 as int] == vm.arrays@[h1 as int].deep_view());
        assert(vm@.arrays[h2 as int] == vm.arrays@[h2 as int].deep_view());
    }
    let ghost sa = vm@.arrays[h1 as int];
    let ghost sb = vm@.arrays[h2 as int];
    if vm.arrays[h1].len() != vm.arrays[h2].len() {
        proof {
            assert(sa != sb) by {
                if sa == sb {
                    assert(sa.len() == sb.len());
                }
            }
        }
        return Ok(Some(VMValue::Bool(false)));
    }
    let n = vm.arrays[h1].len();
    let mut j: usize = 0;
    while j < n
        invariant
            vm.wf(),
            vm@ == old(vm)@,
            h1 < vm.arrays@.len(),
            h2 < vm.arrays@.len(),
            sa == vm@.arrays[h1 as int],
            sb == vm@.arrays[h2 as int],
            args.deep_view().len() == 2,
            args.deep_view()[0] is Array,
            args.deep_view()[0]->Array_0 == h1 as int,
            args.deep_view()[1] is Array,
            args.deep_view()[1]->Array_0 == h2 as int,
            n == sa.len(),
            n == sb.len(),
            j <= n,
            forall|x: int| 0 <= x < j ==> sa[x] == sb[x],
        decreases n - j,
    {
        proof {
            assert(sa[j as int] == vm.arrays@[h1 as int]@[j as int]@);
            assert(sb[j as int] == vm.arrays@[h2 as int]@[j as int]@);
        }
        if !value_eq(&vm.arrays[h1][j], &vm.arrays[h2][j]) {
            proof {
                assert(sa[j as int] != sb[j as int]);
                assert(sa != sb) by {
                    if sa == sb {
                        assert(sa[j as int] == sb[j as int]);
                    }
                }
            }
            return Ok(Some(VMValue::Bool(false)));
        }
        j = j + 1;
    }
    proof {
        assert(sa =~= sb);
        assert(sa == sb);
    }
    Ok(Some(VMValue::Bool(true)))
}

/// Registers the array natives.
pub fn register(vm: &mut VM)
    requires
        old(vm).wf(),
    ensures
        final(vm).wf(),
        final(vm)@ == (VmV {
            funcs: old(vm)@.funcs.insert(
                "array"@ + seq![':'] + "new"@,
                NativeKind::Builtin(BuiltinFn::ArrayNew),
            ).insert("array"@ + seq![':'] + "get"@, NativeKind::Builtin(BuiltinFn::ArrayGet))
                .insert("array"@ + seq![':'] + "pop"@, NativeKind::Builtin(BuiltinFn::ArrayPop))
                .insert(
                "array"@ + seq![':'] + "popat"@,
                NativeKind::Builtin(BuiltinFn::ArrayPopat),
            ).insert("array"@ + seq![':'] + "push"@, NativeKind::Builtin(BuiltinFn::ArrayPush))
                .insert(
                "array"@ + seq![':'] + "index"@,
                NativeKind::Builtin(BuiltinFn::ArrayIndex),
            ).insert(
                "array"@ + seq![':'] + "reverse"@,
                NativeKind::Builtin(BuiltinFn::ArrayReverse),
            ).insert("array"@ + seq![':'] + "sort"@, NativeKind::Builtin(BuiltinFn::ArraySort))
                .insert("array"@ + seq![':'] + "len"@, NativeKind::Builtin(BuiltinFn::ArrayLen))
                .insert(
                "array"@ + seq![':'] + "clone"@,
                NativeKind::Builtin(BuiltinFn::ArrayClone),
            ).insert("array"@ + seq![':'] + "is"@, NativeKind::Builtin(BuiltinFn::ArrayIs)),
            ..old(vm)@
        }),
{
    vm.register("array", "new", NativeKind::Builtin(BuiltinFn::ArrayNew));
    vm.register("array", "get", NativeKind::Builtin(BuiltinFn::ArrayGet));
    vm.register("array", "pop", NativeKind::Builtin(BuiltinFn::ArrayPop));
    vm.register("array", "popat", NativeKind::Builtin(BuiltinFn::ArrayPopat));
    vm.register("array", "push", NativeKind::Builtin(BuiltinFn::ArrayPush));
    vm.register("array", "index", NativeKind::Builtin(BuiltinFn::ArrayIndex));
    vm.register("array", "reverse", NativeKind::Builtin(BuiltinFn::ArrayReverse));
    vm.register("array", "sort", NativeKind::Builtin(BuiltinFn::ArraySort));
    vm.register("array", "len", NativeKind::Builtin(BuiltinFn::ArrayLen));
    vm.register("array", "clone", NativeKind::Builtin(BuiltinFn::ArrayClone));
    vm.register("array", "is", NativeKind::Builtin(BuiltinFn::ArrayIs));
}


} // verus!
