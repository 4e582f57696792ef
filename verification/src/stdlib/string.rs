//! The string natives: splitting, joining, emptiness, containment, byte
//! length, and explosion into an array of one-character strings.

use vstd::prelude::*;
use vstd::string::*;

use crate::stdlib::array::{arity_error, type_error};
use crate::strutil::chars_to_string;
use crate::value::{VMValue, VMValueV};
use crate::vm::{val_wf, native_common, NativeKind, BuiltinFn, VmV, VM, res_view};

verus! {

/// The parts `s` splits into at each occurrence of the separator `sep`, in
/// order. A name for what the standard splitter returns: it depends on the
/// two strings alone.
pub uninterp spec fn split_parts(s: Seq<char>, sep: Seq<char>) -> Seq<Seq<char>>;

/// The parts joined back together with `sep` between each two.
pub open spec fn spec_joined(parts: Seq<Seq<char>>, sep: Seq<char>) -> Seq<char>
    decreases parts.len(),
{
    if parts.len() == 0 {
        Seq::empty()
    } else if parts.len() == 1 {
        parts[0]
    } else {
        spec_joined(parts.drop_last(), sep) + sep + parts.last()
    }
}

/// Relies on `str::split` with a `&str` pattern: the parts between
/// occurrences of the separator, in order. There is always at least one
/// part; joining the parts with the separator reconstructs the input; and
/// no part contains a non-empty separator.
#[verifier::external_body]
fn split_string(s: &String, sep: &String) -> (r: Vec<String>)
    ensures
        r.deep_view() == split_parts(s@, sep@),
        r@.len() >= 1,
        spec_joined(r.deep_view(), sep@) == s@,
        sep@.len() > 0 ==> forall|i: int|
            0 <= i < r.deep_view().len() ==> !spec_contains(
                #[trigger] r.deep_view()[i],
                sep@,
            ),
{
    s.split(sep.as_str()).map(|p| p.to_string()).collect()
}

/// Whether `sub` occurs contiguously inside `s`.
pub open spec fn spec_contains(s: Seq<char>, sub: Seq<char>) -> bool {
    exists|i: int|
        0 <= i <= s.len() - sub.len() && #[trigger] s.subrange(i, i + sub.len() as int) == sub
}

/// Relies on `str::len`: the byte length of the UTF-8 encoding (a string's
/// size always fits the machine's word).
#[verifier::external_body]
fn byte_len(s: &String) -> (n: usize)
    ensures
        n == vstd::utf8::encode_utf8(s@).len(),
{
    s.len()
}

/// Relies on `str::contains` with a `&str` pattern: true exactly when the
/// second string occurs contiguously inside the first.
#[verifier::external_body]
fn contains_string(s: &String, sub: &String) -> (r: bool)
    ensures
        r == spec_contains(s@, sub@),
{
    s.contains(sub.as_str())
}

/// `string:split` splits a string at a separator into a fresh array of
/// string parts (see [`split_parts`]) and returns its handle.
pub open spec fn string_split_post(
    pre: VmV,
    post: VmV,
    idts: Seq<Option<Seq<char>>>,
    args: Seq<VMValueV>,
    r: Result<Option<VMValueV>, ()>,
) -> bool {
    if args.len() == 2 && args[0] is Str && args[1] is Str {
        let parts = split_parts(args[0]->Str_0, args[1]->Str_0);
        &&& r == Ok::<Option<VMValueV>, ()>(Some(VMValueV::Array(pre.arrays.len() as int)))
        &&& post == (VmV {
            arrays: pre.arrays.push(Seq::new(parts.len(), |i: int| VMValueV::Str(parts[i]))),
            ..pre
        })
    } else {
        r is Err && post == pre
    }
}

pub fn string_split(vm: &mut VM, idts: &Vec<Option<String>>, args: &Vec<VMValue>) -> (r: Result<
    Option<VMValue>,
    String,
>)
    requires
        old(vm).wf(),
        forall|i: int|
            0 <= i < args.deep_view().len() ==> val_wf(
                #[trigger] args.deep_view()[i],
                old(vm)@.arrays.len() as int,
            ),
    ensures
        final(vm).wf(),
        native_common(old(vm)@, final(vm)@),
        final(vm)@.call_stack == old(vm)@.call_stack,
        match res_view(r) {
            Ok(Some(v)) => val_wf(v, final(vm)@.arrays.len() as int),
            _ => true,
        },
        string_split_post(old(vm)@, final(vm)@, idts.deep_view(), args.deep_view(), res_view(r)),
{
    if args.len() != 2 {
        return Err(arity_error("2", args.len()));
    }
    let s = match &args[0] {
        VMValue::Str(s) => s,
        other => {
            return Err(type_error("string", other));
        },
    };
    let sep = match &args[1] {
        VMValue::Str(s) => s,
        other => {
            return Err(type_error("string", other));
        },
    };
    proof {
        assert(args.deep_view()[0] == args@[0]@);
        assert(args.deep_view()[1] == args@[1]@);
    }
    let parts = split_string(s, sep);
    let ghost pv = parts.deep_view();
    let mut v: Vec<VMValue> = Vec::new();
    let mut i: usize = 0;
    while i < parts.len()
        invariant
            i <= pv.len(),
            pv == parts.deep_view(),
            v.deep_view().len() == i,
            forall|x: int|
                0 <= x < i ==> #[trigger] v.deep_view()[x] == VMValueV::Str(pv[x]),
        decreases pv.len() - i,
    {
        let ghost pre_v = v.deep_view();
        proof {
            assert(pv[i as int] == parts@[i as int]@);
        }
        v.push(VMValue::Str(parts[i].clone()));
        i = i + 1;
        proof {
            assert(v.deep_view() =~= pre_v.push(v@[v@.len() - 1]@));
        }
    }
    let h = vm.arrays.len();
    let ghost pre = vm@;
    proof {
        assert(v.deep_view() =~= Seq::new(pv.len(), |x: int| VMValueV::Str(pv[x])));
    }
    vm.arrays.push(v);
    proof {
        assert(vm@.arrays =~= pre.arrays.push(
            Seq::new(pv.len(), |x: int| VMValueV::Str(pv[x])),
        ));
        assert(vm@ == (VmV {
            arrays: pre.arrays.push(Seq::new(pv.len(), |x: int| VMValueV::Str(pv[x]))),
            ..pre
        }));
    }
    Ok(Some(VMValue::Array(h)))
}

/// A non-string element anywhere makes the join undefined.
pub proof fn lemma_join_strs_err(elems: Seq<VMValueV>, sep: Seq<char>, i: int)
    requires
        0 <= i < elems.len(),
        !(elems[i] is Str),
    ensures
        spec_join_strs(elems, sep) is None,
    decreases elems.len(),
{
    if elems.len() > 0 {
        if i == elems.len() - 1 {
        } else {
            assert(elems.drop_last()[i] == elems[i]);
            lemma_join_strs_err(elems.drop_last(), sep, i);
        }
    }
}

/// The concatenation of string elements with `sep` between them; `None`
/// where an element is not a string.
pub open spec fn spec_join_strs(elems: Seq<VMValueV>, sep: Seq<char>) -> Option<Seq<char>>
    decreases elems.len(),
{
    if elems.len() == 0 {
        Some(Seq::empty())
    } else if !(elems.last() is Str) {
        None
    } else {
        match spec_join_strs(elems.drop_last(), sep) {
            None => None,
            Some(rest) => {
                if elems.len() == 1 {
                    Some(elems.last()->Str_0)
                } else {
                    Some(rest + sep + elems.last()->Str_0)
                }
            },
        }
    }
}

/// `string:join` concatenates an array of strings with a separator between
/// them (see [`spec_join_strs`]).
pub open spec fn string_join_post(
    pre: VmV,
    post: VmV,
    idts: Seq<Option<Seq<char>>>,
    args: Seq<VMValueV>,
    r: Result<Option<VMValueV>, ()>,
) -> bool {
    &&& post == pre
    &&& if args.len() == 2 && args[0] is Array && args[1] is Str {
        match spec_join_strs(pre.arrays[args[0]->Array_0], args[1]->Str_0) {
            Some(j) => r == Ok::<Option<VMValueV>, ()>(Some(VMValueV::Str(j))),
            None => r is Err,
        }
    } else {
        r is Err
    }
}

pub fn string_join(vm: &mut VM, idts: &Vec<Option<String>>, args: &Vec<VMValue>) -> (r: Result<
    Option<VMValue>,
    String,
>)
    requires
        old(vm).wf(),
        forall|i: int|
            0 <= i < args.deep_view().len() ==> val_wf(
                #[trigger] args.deep_view()[i],
                old(vm)@.arrays.len() as int,
            ),
    ensures
        final(vm).wf(),
        native_common(old(vm)@, final(vm)@),
        final(vm)@.call_stack == old(vm)@.call_stack,
        match res_view(r) {
            Ok(Some(v)) => val_wf(v, final(vm)@.arrays.len() as int),
            _ => true,
        },
        string_join_post(old(vm)@, final(vm)@, idts.deep_view(), args.deep_view(), res_view(r)),
{
    if args.len() != 2 {
        return Err(arity_error("2", args.len()));
    }
    let h = match &args[0] {
        VMValue::Array(h) => *h,
        other => {
            return Err(type_error("array", other));
        },
    };
    let sep = match &args[1] {
        VMValue::Str(s) => s.clone(),
        other => {
            return Err(type_error("string", other));
        },
    };
    proof {
        assert(args.deep_view()[0] == args@[0]@);
        assert(args.deep_view()[1] == args@[1]@);
        assert(vm@.arrays[h as int] == vm.arrays@[h as int].deep_view());
    }
    let ghost s = vm@.arrays[h as int];
    let n = vm.arrays[h].len();
    let mut out = String::new();
    let mut i: usize = 0;
    proof {
        assert(s.take(0) =~= Seq::<VMValueV>::empty());
        assert(spec_join_strs(s.take(0), sep@) == Some(Seq::<char>::empty()));
        assert(out@ =~= Seq::<char>::empty());
    }
    while i < n
        invariant
            vm.wf(),
            vm@ == old(vm)@,
            h < vm.arrays@.len(),
            s == vm@.arrays[h as int],
            args.deep_view().len() == 2,
            args.deep_view()[0] is Array,
            args.deep_view()[0]->Array_0 == h as int,
            args.deep_view()[1] is Str,
            args.deep_view()[1]->Str_0 == sep@,
            n == s.len(),
            i <= n,
            spec_join_strs(s.take(i as int), sep@) == Some(out@),
        decreases n - i,
    {
        proof {
            assert(s[i as int] == vm.arrays@[h as int]@[i as int]@);
            assert(s.take(i + 1).drop_last() =~= s.take(i as int));
            assert(s.take(i + 1).last() == s[i as int]);
        }
        let part = match &vm.arrays[h][i] {
            VMValue::Str(p) => p.clone(),
            other => {
                proof {
                    lemma_join_strs_err(s, sep@, i as int);
                }
                let mut m = String::from_str("expected string in array, got ");
                let nm = other.name();
                m.append(nm.as_str());
                return Err(m);
            },
        };
        let ghost out_pre = out@;
        if i != 0 {
            out.append(sep.as_str());
        }
        out.append(part.as_str());
        i = i + 1;
        proof {
            if i - 1 == 0 {
                assert(out@ =~= part@);
                assert(spec_join_strs(s.take(i as int), sep@) == Some(out@));
            } else {
                assert(out@ =~= out_pre + sep@ + part@);
                assert(spec_join_strs(s.take(i as int), sep@) == Some(out@));
            }
        }
    }
    proof {
        assert(s.take(i as int) =~= s);
    }
    Ok(Some(VMValue::Str(out)))
}

/// `string:notempty` is true for a non-empty string.
pub open spec fn string_notempty_post(
    pre: VmV,
    post: VmV,
    idts: Seq<Option<Seq<char>>>,
    args: Seq<VMValueV>,
    r: Result<Option<VMValueV>, ()>,
) -> bool {
    &&& post == pre
    &&& if args.len() == 1 && args[0] is Str {
        r == Ok::<Option<VMValueV>, ()>(Some(VMValueV::Bool(args[0]->Str_0.len() != 0)))
    } else {
        r is Err
    }
}

pub fn string_notempty(vm: &mut VM, idts: &Vec<Option<String>>, args: &Vec<VMValue>) -> (r:
    Result<Option<VMValue>, String>)
    requires
        old(vm).wf(),
        forall|i: int|
            0 <= i < args.deep_view().len() ==> val_wf(
                #[trigger] args.deep_view()[i],
                old(vm)@.arrays.len() as int,
            ),
    ensures
        final(vm).wf(),
        native_common(old(vm)@, final(vm)@),
        final(vm)@.call_stack == old(vm)@.call_stack,
        match res_view(r) {
            Ok(Some(v)) => val_wf(v, final(vm)@.arrays.len() as int),
            _ => true,
        },
        string_notempty_post(
            old(vm)@,
            final(vm)@,
            idts.deep_view(),
            args.deep_view(),
            res_view(r),
        ),
{
    if args.len() != 1 {
        return Err(arity_error("1", args.len()));
    }
    match &args[0] {
        VMValue::Str(s) => {
            proof {
                assert(args.deep_view()[0] == args@[0]@);
            }
            Ok(Some(VMValue::Bool(!s.as_str().is_empty())))
        },
        other => Err(type_error("string", other)),
    }
}

/// `string:contains` is true when the second string occurs inside the
/// first (see [`spec_contains`]).
pub open spec fn string_contains_post(
    pre: VmV,
    post: VmV,
    idts: Seq<Option<Seq<char>>>,
    args: Seq<VMValueV>,
    r: Result<Option<VMValueV>, ()>,
) -> bool {
    &&& post == pre
    &&& if args.len() == 2 && args[0] is Str && args[1] is Str {
        r == Ok::<Option<VMValueV>, ()>(
            Some(VMValueV::Bool(spec_contains(args[0]->Str_0, args[1]->Str_0))),
        )
    } else {
        r is Err
    }
}

pub fn string_contains(vm: &mut VM, idts: &Vec<Option<String>>, args: &Vec<VMValue>) -> (r:
    Result<Option<VMValue>, String>)
    requires
        old(vm).wf(),
        forall|i: int|
            0 <= i < args.deep_view().len() ==> val_wf(
                #[trigger] args.deep_view()[i],
                old(vm)@.arrays.len() as int,
            ),
    ensures
        final(vm).wf(),
        native_common(old(vm)@, final(vm)@),
        final(vm)@.call_stack == old(vm)@.call_stack,
        match res_view(r) {
            Ok(Some(v)) => val_wf(v, final(vm)@.arrays.len() as int),
            _ => true,
        },
        string_contains_post(
            old(vm)@,
            final(vm)@,
            idts.deep_view(),
            args.deep_view(),
            res_view(r),
        ),
{
    if args.len() != 2 {
        return Err(arity_error("2", args.len()));
    }
    let s = match &args[0] {
        VMValue::Str(s) => s,
        other => {
            return Err(type_error("string", other));
        },
    };
    let sub = match &args[1] {
        VMValue::Str(s) => s,
        other => {
            return Err(type_error("string", other));
        },
    };
    proof {
        assert(args.deep_view()[0] == args@[0]@);
        assert(args.deep_view()[1] == args@[1]@);
    }
    Ok(Some(VMValue::Bool(contains_string(s, sub))))
}

/// `string:len` returns the byte length of the string's UTF-8 encoding.
pub open spec fn string_len_post(
    pre: VmV,
    post: VmV,
    idts: Seq<Option<Seq<char>>>,
    args: Seq<VMValueV>,
    r: Result<Option<VMValueV>, ()>,
) -> bool {
    &&& post == pre
    &&& if args.len() == 1 && args[0] is Str && vstd::utf8::encode_utf8(args[0]->Str_0).len()
        <= i64::MAX {
        r == Ok::<Option<VMValueV>, ()>(
            Some(VMValueV::Int(vstd::utf8::encode_utf8(args[0]->Str_0).len() as i64)),
        )
    } else {
        r is Err
    }
}

pub fn string_len(vm: &mut VM, idts: &Vec<Option<String>>, args: &Vec<VMValue>) -> (r: Result<
    Option<VMValue>,
    String,
>)
    requires
        old(vm).wf(),
        forall|i: int|
            0 <= i < args.deep_view().len() ==> val_wf(
                #[trigger] args.deep_view()[i],
                old(vm)@.arrays.len() as int,
            ),
    ensures
        final(vm).wf(),
        native_common(old(vm)@, final(vm)@),
        final(vm)@.call_stack == old(vm)@.call_stack,
        match res_view(r) {
            Ok(Some(v)) => val_wf(v, final(vm)@.arrays.len() as int),
            _ => true,
        },
        string_len_post(old(vm)@, final(vm)@, idts.deep_view(), args.deep_view(), res_view(r)),
{
    if args.len() != 1 {
        return Err(arity_error("1", args.len()));
    }
    match &args[0] {
        VMValue::Str(s) => {
            proof {
                assert(args.deep_view()[0] == args@[0]@);
            }
            let n = byte_len(s);
            if (n as u64) > 0x7fff_ffff_ffff_ffffu64 {
                return Err(String::from_str("string too large"));
            }
            Ok(Some(VMValue::Int(n as i64)))
        },
        other => Err(type_error("string", other)),
    }
}

/// `string:toarray` builds a fresh array of the string's characters, each
/// a one-character string, and returns its handle.
pub open spec fn string_toarray_post(
    pre: VmV,
    post: VmV,
    idts: Seq<Option<Seq<char>>>,
    args: Seq<VMValueV>,
    r: Result<Option<VMValueV>, ()>,
) -> bool {
    if args.len() == 1 && args[0] is Str {
        let s = args[0]->Str_0;
        &&& r == Ok::<Option<VMValueV>, ()>(Some(VMValueV::Array(pre.arrays.len() as int)))
        &&& post == (VmV {
            arrays: pre.arrays.push(Seq::new(s.len(), |i: int| VMValueV::Str(seq![s[i]]))),
            ..pre
        })
    } else {
        r is Err && post == pre
    }
}

pub fn string_toarray(vm: &mut VM, idts: &Vec<Option<String>>, args: &Vec<VMValue>) -> (r:
    Result<Option<VMValue>, String>)
    requires
        old(vm).wf(),
        forall|i: int|
            0 <= i < args.deep_view().len() ==> val_wf(
                #[trigger] args.deep_view()[i],
                old(vm)@.arrays.len() as int,
            ),
    ensures
        final(vm).wf(),
        native_common(old(vm)@, final(vm)@),
        final(vm)@.call_stack == old(vm)@.call_stack,
        match res_view(r) {
            Ok(Some(v)) => val_wf(v, final(vm)@.arrays.len() as int),
            _ => true,
        },
        string_toarray_post(
            old(vm)@,
            final(vm)@,
            idts.deep_view(),
            args.deep_view(),
            res_view(r),
        ),
{
    if args.len() != 1 {
        return Err(arity_error("1", args.len()));
    }
    let s = match &args[0] {
        VMValue::Str(s) => s.clone(),
        other => {
            return Err(type_error("string", other));
        },
    };
    proof {
        assert(args.deep_view()[0] == args@[0]@);
    }
    let cs = crate::strutil::str_to_chars(s.as_str());
    let mut v: Vec<VMValue> = Vec::new();
    let mut i: usize = 0;
    while i < cs.len()
        invariant
            i <= cs@.len(),
            cs@ == s@,
            v.deep_view().len() == i,
            forall|x: int|
                0 <= x < i ==> #[trigger] v.deep_view()[x] == VMValueV::Str(seq![s@[x]]),
        decreases cs@.len() - i,
    {
        let ghost pre_v = v.deep_view();
        let cv = vec![cs[i]];
        let one = chars_to_string(&cv);
        proof {
            assert(one@ =~= seq![s@[i as int]]);
        }
        v.push(VMValue::Str(one));
        i = i + 1;
        proof {
            assert(v.deep_view() =~= pre_v.push(v@[v@.len() - 1]@));
        }
    }
    let h = vm.arrays.len();
    let ghost pre = vm@;
    proof {
        assert(v.deep_view() =~= Seq::new(s@.len(), |x: int| VMValueV::Str(seq![s@[x]])));
    }
    vm.arrays.push(v);
    proof {
        assert(vm@.arrays =~= pre.arrays.push(
            Seq::new(s@.len(), |x: int| VMValueV::Str(seq![s@[x]])),
        ));
        assert(vm@ == (VmV {
            arrays: pre.arrays.push(Seq::new(s@.len(), |x: int| VMValueV::Str(seq![s@[x]]))),
            ..pre
        }));
    }
    Ok(Some(VMValue::Array(h)))
}

/// Registers the string natives.
pub fn register(vm: &mut VM)
    requires
        old(vm).wf(),
    ensures
        final(vm).wf(),
        final(vm)@ == (VmV {
            funcs: old(vm)@.funcs.insert(
                "string"@ + seq![':'] + "split"@,
                NativeKind::Builtin(BuiltinFn::StringSplit),
            ).insert(
                "string"@ + seq![':'] + "join"@,
                NativeKind::Builtin(BuiltinFn::StringJoin),
            ).insert(
                "string"@ + seq![':'] + "notempty"@,
                NativeKind::Builtin(BuiltinFn::StringNotempty),
            ).insert(
                "string"@ + seq![':'] + "contains"@,
                NativeKind::Builtin(BuiltinFn::StringContains),
            ).insert(
                "string"@ + seq![':'] + "len"@,
                NativeKind::Builtin(BuiltinFn::StringLen),
            ).insert(
                "string"@ + seq![':'] + "toarray"@,
                NativeKind::Builtin(BuiltinFn::StringToarray),
            ),
            ..old(vm)@
        }),
{
    vm.register("string", "split", NativeKind::Builtin(BuiltinFn::StringSplit));
    vm.register("string", "join", NativeKind::Builtin(BuiltinFn::StringJoin));
    vm.register("string", "notempty", NativeKind::Builtin(BuiltinFn::StringNotempty));
    vm.register("string", "contains", NativeKind::Builtin(BuiltinFn::StringContains));
    vm.register("string", "len", NativeKind::Builtin(BuiltinFn::StringLen));
    vm.register("string", "toarray", NativeKind::Builtin(BuiltinFn::StringToarray));
}

} // verus!
