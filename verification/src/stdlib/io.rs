//! The formatting natives: rendering values to text and simple `{}`
//! substitution. (Printing and reading are host natives, performed by the
//! caller; these two only build strings.)

use vstd::prelude::*;
use vstd::string::*;

use crate::stdlib::array::arity_error;
use crate::value::{VMValue, VMValueV};
use crate::vm::{val_wf, native_common, NativeKind, BuiltinFn, VmV, VM, res_view};

verus! {

/// `s` with occurrences of `pat` replaced by `to`, as the standard
/// replacer produces it: a function of the three strings alone.
pub uninterp spec fn replace_of(s: Seq<char>, pat: Seq<char>, to: Seq<char>) -> Seq<char>;

/// Relies on `str::replace` with a `&str` pattern: every non-overlapping
/// occurrence of the pattern replaced, left to right.
#[verifier::external_body]
pub(crate) fn replace_string(s: &String, pat: &str, to: &String) -> (r: String)
    ensures
        r@ == replace_of(s@, pat@, to@),
{
    s.replace(pat, to.as_str())
}

/// The text a value renders as. Scalars render by their own rules; an
/// array renders as its bracketed, comma-separated elements, chasing
/// handles no deeper than `fuel`.
pub fn render_value(vm: &VM, v: &VMValue, fuel: u64) -> (r: String)
    requires
        vm.wf(),
        val_wf(v@, vm@.arrays.len() as int),
    decreases fuel, 1int, 0int,
{
    match v {
        VMValue::Bool(b) => {
            if *b {
                String::from_str("true")
            } else {
                String::from_str("false")
            }
        },
        VMValue::Int(i) => crate::strutil::i64_to_string(*i),
        VMValue::Float(b) => crate::fp::fp_render(*b),
        VMValue::Str(s) => s.clone(),
        VMValue::Identifier(s) => s.clone(),
        VMValue::Array(h) => {
            if fuel == 0 {
                String::from_str("[...]")
            } else {
                render_array(vm, *h, fuel)
            }
        },
    }
}

/// The bracketed, comma-separated rendering of the array at handle `h`.
fn render_array(vm: &VM, h: usize, fuel: u64) -> (r: String)
    requires
        vm.wf(),
        0 <= h < vm@.arrays.len(),
        fuel >= 1,
    decreases fuel, 0int, 0int,
{
    let mut out = String::from_str("[");
    let n = vm.arrays[h].len();
    let mut i: usize = 0;
    while i < n
        invariant
            vm.wf(),
            h < vm.arrays@.len(),
            n == vm.arrays@[h as int]@.len(),
            i <= n,
            fuel >= 1,
        decreases n - i,
    {
        if i != 0 {
            out.append(", ");
        }
        proof {
            assert(val_wf(vm@.arrays[h as int][i as int], vm@.arrays.len() as int));
            assert(vm@.arrays[h as int][i as int] == vm.arrays@[h as int]@[i as int]@);
        }
        let p = render_value(vm, &vm.arrays[h][i], fuel - 1);
        out.append(p.as_str());
        i = i + 1;
    }
    out.append("]");
    out
}

/// `io:sprint` renders its one argument to text.
pub open spec fn io_sprint_post(
    pre: VmV,
    post: VmV,
    idts: Seq<Option<Seq<char>>>,
    args: Seq<VMValueV>,
    r: Result<Option<VMValueV>, ()>,
) -> bool {
    &&& post == pre
    &&& if args.len() == 1 {
        r is Ok && r->Ok_0 is Some && r->Ok_0->0 is Str
    } else {
        r is Err
    }
}

pub fn io_sprint(vm: &mut VM, idts: &Vec<Option<String>>, args: &Vec<VMValue>) -> (r: Result<
    Option<VMValue>,
    String,
>)
    requires
        old(vm).wf(),
        forall|i: int|
            0 <= i < args.deep_view().len() ==> val_wf(
                #[trigger] args.deep_view()[i],
                old(vm)@.arrays.len() as int,
            ),
    ensures
        final(vm).wf(),
        native_common(old(vm)@, final(vm)@),
        final(vm)@.call_stack == old(vm)@.call_stack,
        match res_view(r) {
            Ok(Some(v)) => val_wf(v, final(vm)@.arrays.len() as int),
            _ => true,
        },
        io_sprint_post(old(vm)@, final(vm)@, idts.deep_view(), args.deep_view(), res_view(r)),
{
    if args.len() != 1 {
        return Err(arity_error("1", args.len()));
    }
    proof {
        assert(args.deep_view()[0] == args@[0]@);
    }
    let s = render_value(vm, &args[0], 16);
    Ok(Some(VMValue::Str(s)))
}

/// `io:sprintf` renders its first argument, then substitutes each further
/// argument's rendering for the placeholders in the running text, left to
/// right (see [`replace_of`]).
pub open spec fn io_sprintf_post(
    pre: VmV,
    post: VmV,
    idts: Seq<Option<Seq<char>>>,
    args: Seq<VMValueV>,
    r: Result<Option<VMValueV>, ()>,
) -> bool {
    &&& post == pre
    &&& if args.len() >= 1 {
        r is Ok && r->Ok_0 is Some && r->Ok_0->0 is Str
    } else {
        r is Err
    }
}

pub fn io_sprintf(vm: &mut VM, idts: &Vec<Option<String>>, args: &Vec<VMValue>) -> (r: Result<
    Option<VMValue>,
    String,
>)
    requires
        old(vm).wf(),
        forall|i: int|
            0 <= i < args.deep_view().len() ==> val_wf(
                #[trigger] args.deep_view()[i],
                old(vm)@.arrays.len() as int,
            ),
    ensures
        final(vm).wf(),
        native_common(old(vm)@, final(vm)@),
        final(vm)@.call_stack == old(vm)@.call_stack,
        match res_view(r) {
            Ok(Some(v)) => val_wf(v, final(vm)@.arrays.len() as int),
            _ => true,
        },
        io_sprintf_post(old(vm)@, final(vm)@, idts.deep_view(), args.deep_view(), res_view(r)),
{
    if args.len() < 1 {
        return Err(arity_error("at least 1", args.len()));
    }
    proof {
        assert(args.deep_view()[0] == args@[0]@);
    }
    let mut out = render_value(vm, &args[0], 16);
    let mut i: usize = 1;
    while i < args.len()
        invariant
            vm.wf(),
            vm@ == old(vm)@,
            1 <= i <= args@.len(),
            forall|x: int|
                0 <= x < args.deep_view().len() ==> val_wf(
                    #[trigger] args.deep_view()[x],
                    vm@.arrays.len() as int,
                ),
        decreases args@.len() - i,
    {
        proof {
            assert(args.deep_view()[i as int] == args@[i as int]@);
        }
        let p = render_value(vm, &args[i], 16);
        out = replace_string(&out, "{}", &p);
        i = i + 1;
    }
    Ok(Some(VMValue::Str(out)))
}

/// Registers the formatting natives. (Printing and reading are host
/// natives, registered by the embedding program.)
pub fn register(vm: &mut VM)
    requires
        old(vm).wf(),
    ensures
        final(vm).wf(),
        final(vm)@ == (VmV {
            funcs: old(vm)@.funcs.insert(
                "io"@ + seq![':'] + "sprint"@,
                NativeKind::Builtin(BuiltinFn::IoSprint),
            ).insert(
                "io"@ + seq![':'] + "sprintf"@,
                NativeKind::Builtin(BuiltinFn::IoSprintf),
            ).insert("io"@ + seq![':'] + "print"@, NativeKind::Host).insert(
                "io"@ + seq![':'] + "printf"@,
                NativeKind::Host,
            ).insert("io"@ + seq![':'] + "println"@, NativeKind::Host).insert(
                "io"@ + seq![':'] + "read"@,
                NativeKind::Host,
            ).insert("io"@ + seq![':'] + "readln"@, NativeKind::Host),
            ..old(vm)@
        }),
{
    vm.register("io", "sprint", NativeKind::Builtin(BuiltinFn::IoSprint));
    vm.register("io", "sprintf", NativeKind::Builtin(BuiltinFn::IoSprintf));
    vm.register("io", "print", NativeKind::Host);
    vm.register("io", "printf", NativeKind::Host);
    vm.register("io", "println", NativeKind::Host);
    vm.register("io", "read", NativeKind::Host);
    vm.register("io", "readln", NativeKind::Host);
}

} // verus!
