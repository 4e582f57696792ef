//! The conversion natives: text to integer, integer to text, text to
//! float, float to text.

use vstd::prelude::*;
use vstd::string::*;

use crate::fp::{fp_dec, fp_of_dec, fp_parse, fp_render};
use crate::stdlib::array::{arity_error, type_error};
use crate::strutil::{digits_to_u64, digits_val, int_to_dec, is_digit_char, str_to_chars};
use crate::value::{VMValue, VMValueV};
use crate::vm::{val_wf, native_common, NativeKind, BuiltinFn, VmV, VM, res_view};

verus! {

/// The integer a piece of text denotes: an optional sign, then at least
/// one decimal digit, the value in the range of an `i64`; `None` for
/// anything else.
pub open spec fn all_digits(d: Seq<char>) -> bool {
    forall|i: int| 0 <= i < d.len() ==> is_digit_char(#[trigger] d[i])
}

pub open spec fn spec_parse_i64(s: Seq<char>) -> Option<i64> {
    let neg = s.len() > 0 && s[0] == '-';
    let signed = s.len() > 0 && (s[0] == '-' || s[0] == '+');
    let digits = if signed {
        s.skip(1)
    } else {
        s
    };
    if digits.len() == 0 {
        None
    } else if !all_digits(digits) {
        None
    } else if neg {
        if digits_val(digits) <= 0x8000_0000_0000_0000 {
            Some((-digits_val(digits)) as i64)
        } else {
            None
        }
    } else {
        if digits_val(digits) <= i64::MAX {
            Some(digits_val(digits) as i64)
        } else {
            None
        }
    }
}

/// Reads an integer from text (see [`spec_parse_i64`]).
pub fn parse_i64(s: &String) -> (r: Option<i64>)
    ensures
        r == spec_parse_i64(s@),
{
    let cs = str_to_chars(s.as_str());
    let n = cs.len();
    if n == 0 {
        return None;
    }
    let c0 = cs[0];
    let neg = c0 == '-';
    let signed = c0 == '-' || c0 == '+';
    let start: usize = if signed {
        1
    } else {
        0
    };
    if start >= n {
        return None;
    }
    let mut digits: Vec<char> = Vec::new();
    let mut i = start;
    proof {
        let dv = if signed {
            s@.skip(1)
        } else {
            s@
        };
        assert(digits@ =~= dv.take(0));
    }
    while i < n
        invariant
            start <= i <= n,
            n == cs@.len(),
            cs@ == s@,
            start == (if s@.len() > 0 && (s@[0] == '-' || s@[0] == '+') {
                1int
            } else {
                0int
            }),
            digits@ =~= (if start == 1 {
                s@.skip(1)
            } else {
                s@
            }).take(i - start),
            forall|x: int| 0 <= x < digits@.len() ==> is_digit_char(#[trigger] digits@[x]),
        decreases n - i,
    {
        let c = cs[i];
        if !(c >= '0' && c <= '9') {
            proof {
                let sv = s@;
                let signed = sv.len() > 0 && (sv[0] == '-' || sv[0] == '+');
                let dv = if signed {
                    sv.skip(1)
                } else {
                    sv
                };
                assert((start == 1) == signed);
                assert(!all_digits(dv)) by {
                    if start == 1 {
                        assert(dv[i - 1] == sv[i as int]);
                        assert(0 <= i - 1 < dv.len() && !is_digit_char(dv[i - 1]));
                    } else {
                        assert(dv[i as int] == sv[i as int]);
                        assert(0 <= i < dv.len() && !is_digit_char(dv[i as int]));
                    }
                }
                assert(dv =~= (if sv.len() > 0 && (sv[0] == '-' || sv[0] == '+') {
                    sv.skip(1)
                } else {
                    sv
                }));
                assert(spec_parse_i64(sv) is None);
            }
            return None;
        }
        digits.push(c);
        i = i + 1;
        proof {
            let dv = if start == 1 {
                s@.skip(1)
            } else {
                s@
            };
            assert(digits@ =~= dv.take(i - start));
        }
    }
    proof {
        let sv = s@;
        let dv = if start == 1 {
            sv.skip(1)
        } else {
            sv
        };
        assert(digits@ =~= dv);
        assert(dv =~= (if sv.len() > 0 && (sv[0] == '-' || sv[0] == '+') {
            sv.skip(1)
        } else {
            sv
        }));
        assert(all_digits(dv));
    }
    match digits_to_u64(&digits) {
        None => None,
        Some(m) => {
            if neg {
                if m > 0x8000_0000_0000_0000u64 {
                    None
                } else if m == 0x8000_0000_0000_0000u64 {
                    Some(i64::MIN)
                } else {
                    Some(-(m as i64))
                }
            } else {
                if m > 0x7fff_ffff_ffff_ffffu64 {
                    None
                } else {
                    Some(m as i64)
                }
            }
        },
    }
}

/// `convert:atoi` reads an integer from a string (see [`spec_parse_i64`]).
pub open spec fn convert_atoi_post(
    pre: VmV,
    post: VmV,
    idts: Seq<Option<Seq<char>>>,
    args: Seq<VMValueV>,
    r: Result<Option<VMValueV>, ()>,
) -> bool {
    &&& post == pre
    &&& if args.len() == 1 && args[0] is Str {
        match spec_parse_i64(args[0]->Str_0) {
            Some(v) => r == Ok::<Option<VMValueV>, ()>(Some(VMValueV::Int(v))),
            None => r is Err,
        }
    } else {
        r is Err
    }
}

pub fn convert_atoi(vm: &mut VM, idts: &Vec<Option<String>>, args: &Vec<VMValue>) -> (r: Result<
    Option<VMValue>,
    String,
>)
    requires
        old(vm).wf(),
        forall|i: int|
            0 <= i < args.deep_view().len() ==> val_wf(
                #[trigger] args.deep_view()[i],
                old(vm)@.arrays.len() as int,
            ),
    ensures
        final(vm).wf(),
        native_common(old(vm)@, final(vm)@),
        final(vm)@.call_stack == old(vm)@.call_stack,
        match res_view(r) {
            Ok(Some(v)) => val_wf(v, final(vm)@.arrays.len() as int),
            _ => true,
        },
        convert_atoi_post(old(vm)@, final(vm)@, idts.deep_view(), args.deep_view(), res_view(r)),
{
    if args.len() != 1 {
        return Err(arity_error("1", args.len()));
    }
    match &args[0] {
        VMValue::Str(s) => {
            proof {
                assert(args.deep_view()[0] == args@[0]@);
            }
            match parse_i64(s) {
                Some(v) => Ok(Some(VMValue::Int(v))),
                None => Err(String::from_str("failed to parse int")),
            }
        },
        other => Err(type_error("string", other)),
    }
}

/// `convert:itoa` renders an integer as decimal text.
pub open spec fn convert_itoa_post(
    pre: VmV,
    post: VmV,
    idts: Seq<Option<Seq<char>>>,
    args: Seq<VMValueV>,
    r: Result<Option<VMValueV>, ()>,
) -> bool {
    &&& post == pre
    &&& if args.len() == 1 && args[0] is Int {
        r == Ok::<Option<VMValueV>, ()>(
            Some(VMValueV::Str(int_to_dec(args[0]->Int_0 as int))),
        )
    } else {
        r is Err
    }
}

pub fn convert_itoa(vm: &mut VM, idts: &Vec<Option<String>>, args: &Vec<VMValue>) -> (r: Result<
    Option<VMValue>,
    String,
>)
    requires
        old(vm).wf(),
        forall|i: int|
            0 <= i < args.deep_view().len() ==> val_wf(
                #[trigger] args.deep_view()[i],
                old(vm)@.arrays.len() as int,
            ),
    ensures
        final(vm).wf(),
        native_common(old(vm)@, final(vm)@),
        final(vm)@.call_stack == old(vm)@.call_stack,
        match res_view(r) {
            Ok(Some(v)) => val_wf(v, final(vm)@.arrays.len() as int),
            _ => true,
        },
        convert_itoa_post(old(vm)@, final(vm)@, idts.deep_view(), args.deep_view(), res_view(r)),
{
    if args.len() != 1 {
        return Err(arity_error("1", args.len()));
    }
    match &args[0] {
        VMValue::Int(i) => {
            proof {
                assert(args.deep_view()[0] == args@[0]@);
            }
            Ok(Some(VMValue::Str(crate::strutil::i64_to_string(*i))))
        },
        other => Err(type_error("int", other)),
    }
}

/// `convert:atof` reads a float from decimal text (see
/// [`crate::fp::fp_of_dec`]).
pub open spec fn convert_atof_post(
    pre: VmV,
    post: VmV,
    idts: Seq<Option<Seq<char>>>,
    args: Seq<VMValueV>,
    r: Result<Option<VMValueV>, ()>,
) -> bool {
    &&& post == pre
    &&& if args.len() == 1 && args[0] is Str {
        match fp_of_dec(args[0]->Str_0) {
            Some(b) => r == Ok::<Option<VMValueV>, ()>(Some(VMValueV::Float(b))),
            None => r is Err,
        }
    } else {
        r is Err
    }
}

pub fn convert_atof(vm: &mut VM, idts: &Vec<Option<String>>, args: &Vec<VMValue>) -> (r: Result<
    Option<VMValue>,
    String,
>)
    requires
        old(vm).wf(),
        forall|i: int|
            0 <= i < args.deep_view().len() ==> val_wf(
                #[trigger] args.deep_view()[i],
                old(vm)@.arrays.len() as int,
            ),
    ensures
        final(vm).wf(),
        native_common(old(vm)@, final(vm)@),
        final(vm)@.call_stack == old(vm)@.call_stack,
        match res_view(r) {
            Ok(Some(v)) => val_wf(v, final(vm)@.arrays.len() as int),
            _ => true,
        },
        convert_atof_post(old(vm)@, final(vm)@, idts.deep_view(), args.deep_view(), res_view(r)),
{
    if args.len() != 1 {
        return Err(arity_error("1", args.len()));
    }
    match &args[0] {
        VMValue::Str(s) => {
            proof {
                assert(args.deep_view()[0] == args@[0]@);
            }
            match fp_parse(s.as_str()) {
                Some(b) => Ok(Some(VMValue::Float(b))),
                None => Err(String::from_str("failed to parse float")),
            }
        },
        other => Err(type_error("string", other)),
    }
}

/// `convert:ftoa` renders a float as decimal text (see
/// [`crate::fp::fp_dec`]).
pub open spec fn convert_ftoa_post(
    pre: VmV,
    post: VmV,
    idts: Seq<Option<Seq<char>>>,
    args: Seq<VMValueV>,
    r: Result<Option<VMValueV>, ()>,
) -> bool {
    &&& post == pre
    &&& if args.len() == 1 && args[0] is Float {
        r == Ok::<Option<VMValueV>, ()>(Some(VMValueV::Str(fp_dec(args[0]->Float_0))))
    } else {
        r is Err
    }
}

pub fn convert_ftoa(vm: &mut VM, idts: &Vec<Option<String>>, args: &Vec<VMValue>) -> (r: Result<
    Option<VMValue>,
    String,
>)
    requires
        old(vm).wf(),
        forall|i: int|
            0 <= i < args.deep_view().len() ==> val_wf(
                #[trigger] args.deep_view()[i],
                old(vm)@.arrays.len() as int,
            ),
    ensures
        final(vm).wf(),
        native_common(old(vm)@, final(vm)@),
        final(vm)@.call_stack == old(vm)@.call_stack,
        match res_view(r) {
            Ok(Some(v)) => val_wf(v, final(vm)@.arrays.len() as int),
            _ => true,
        },
        convert_ftoa_post(old(vm)@, final(vm)@, idts.deep_view(), args.deep_view(), res_view(r)),
{
    if args.len() != 1 {
        return Err(arity_error("1", args.len()));
    }
    match &args[0] {
        VMValue::Float(b) => {
            proof {
                assert(args.deep_view()[0] == args@[0]@);
            }
            Ok(Some(VMValue::Str(fp_render(*b))))
        },
        other => Err(type_error("float", other)),
    }
}

/// Registers the conversion natives.
pub fn register(vm: &mut VM)
    requires
        old(vm).wf(),
    ensures
        final(vm).wf(),
        final(vm)@ == (VmV {
            funcs: old(vm)@.funcs.insert(
                "convert"@ + seq![':'] + "atoi"@,
                NativeKind::Builtin(BuiltinFn::ConvertAtoi),
            ).insert(
                "convert"@ + seq![':'] + "itoa"@,
                NativeKind::Builtin(BuiltinFn::ConvertItoa),
            ).insert(
                "convert"@ + seq![':'] + "atof"@,
                NativeKind::Builtin(BuiltinFn::ConvertAtof),
            ).insert(
                "convert"@ + seq![':'] + "ftoa"@,
                NativeKind::Builtin(BuiltinFn::ConvertFtoa),
            ),
            ..old(vm)@
        }),
{
    vm.register("convert", "atoi", NativeKind::Builtin(BuiltinFn::ConvertAtoi));
    vm.register("convert", "itoa", NativeKind::Builtin(BuiltinFn::ConvertItoa));
    vm.register("convert", "atof", NativeKind::Builtin(BuiltinFn::ConvertAtof));
    vm.register("convert", "ftoa", NativeKind::Builtin(BuiltinFn::ConvertFtoa));
}

} // verus!
