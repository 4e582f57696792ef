//! The laws this library states of itself, proved from the public
//! contracts: determinism of lexing, the flattening of import splicing,
//! the typing of arithmetic, the aliasing of arrays, the resolution of
//! labels, and the pairing of subroutine calls and returns.

use vstd::prelude::*;

use crate::lexer::{is_import_run, lemma_splice_append, spec_first_eos, spec_splice, spec_tokenise_src};
use crate::stdlib::array::{array_clone_post, array_push_post};
use crate::token::TokenV;
use crate::statements::StatementContextV;
use crate::value::{
    spec_add_vals, spec_div_vals, spec_eq_vals, spec_mod_vals, spec_mul_vals, spec_sub_vals,
    VMValueV,
};
use crate::vm::{spec_label_table, step_post, vm_wf, VmV};

verus! {

/// Lexing is deterministic: one file name, source text and import set have
/// exactly one token sequence. Two runs of the tokeniser over the same
/// input therefore agree in every token, position and context line.
pub proof fn lemma_lexing_deterministic(
    name: Seq<char>,
    src: Seq<char>,
    files: Map<Seq<char>, String>,
    fuel: nat,
    r1: Seq<TokenV>,
    r2: Seq<TokenV>,
)
    requires
        spec_tokenise_src(name, src, files, fuel) == Some(r1),
        spec_tokenise_src(name, src, files, fuel) == Some(r2),
    ensures
        r1 == r2,
{
}

/// Import splicing flattens: where the statement runs start with
/// `import "p"`, the spliced sequence is exactly the imported file's full
/// token sequence followed by the splice of the remaining runs. Applied
/// recursively this flattens nested imports: a file importing another
/// yields the inner file's tokens in place, however deep the nesting.
pub proof fn lemma_import_splices_flat(
    ts: Seq<TokenV>,
    files: Map<Seq<char>, String>,
    fuel: nat,
    out: Seq<TokenV>,
)
    requires
        spec_first_eos(ts) == 2,
        2 < ts.len(),
        is_import_run(ts.take(2)),
        fuel > 0,
        spec_splice(ts, files, fuel) == Some(out),
    ensures
        ({
            let path = ts.take(2)[1].token_type->Str_0;
            &&& files.contains_key(path)
            &&& spec_tokenise_src(path, files[path]@, files, (fuel - 1) as nat) is Some
            &&& spec_splice(ts.skip(3), files, fuel) is Some
            &&& out == spec_tokenise_src(
                path,
                files[path]@,
                files,
                (fuel - 1) as nat,
            )->Some_0 + spec_splice(ts.skip(3), files, fuel)->Some_0
        }),
{
}

/// Import splicing is transitive and positional: wherever an `import "p"`
/// run stands among the statement runs — after any whole number of
/// earlier statements — the spliced sequence is the splice of what comes
/// before, then the imported file's full token sequence, then the splice
/// of what follows. Since the imported file's own sequence is again a
/// splice, nested imports flatten to the inner files' tokens in place.
pub proof fn lemma_import_splices_anywhere(
    prefix: Seq<TokenV>,
    ts: Seq<TokenV>,
    files: Map<Seq<char>, String>,
    fuel: nat,
    out: Seq<TokenV>,
)
    requires
        prefix.len() == 0 || prefix.last().token_type is EOS,
        spec_first_eos(ts) == 2,
        2 < ts.len(),
        is_import_run(ts.take(2)),
        fuel > 0,
        spec_splice(prefix + ts, files, fuel) == Some(out),
    ensures
        ({
            let path = ts.take(2)[1].token_type->Str_0;
            &&& spec_splice(prefix, files, fuel) is Some
            &&& files.contains_key(path)
            &&& spec_tokenise_src(path, files[path]@, files, (fuel - 1) as nat) is Some
            &&& spec_splice(ts.skip(3), files, fuel) is Some
            &&& out == spec_splice(prefix, files, fuel)->Some_0 + spec_tokenise_src(
                path,
                files[path]@,
                files,
                (fuel - 1) as nat,
            )->Some_0 + spec_splice(ts.skip(3), files, fuel)->Some_0
        }),
{
    lemma_splice_append(prefix, ts, files, fuel);
    let t2 = spec_splice(ts, files, fuel)->Some_0;
    lemma_import_splices_flat(ts, files, fuel, t2);
    let p2 = spec_splice(prefix, files, fuel)->Some_0;
    let path = ts.take(2)[1].token_type->Str_0;
    let sub = spec_tokenise_src(path, files[path]@, files, (fuel - 1) as nat)->Some_0;
    let r2 = spec_splice(ts.skip(3), files, fuel)->Some_0;
    assert(out == p2 + (sub + r2));
    assert(p2 + (sub + r2) =~= p2 + sub + r2);
}

/// Arithmetic is typed exactly as stated: two integer operands give an
/// integer (with truncating division and modulo, and an error for a zero
/// divisor); one float operand promotes the result to a float; a string,
/// boolean, identifier or array operand is a reported type error for every
/// operation, never a silent coercion.
pub proof fn lemma_arithmetic_types(a: VMValueV, b: VMValueV)
    ensures
        a is Int && b is Int ==> {
            &&& spec_add_vals(a, b) matches Ok(v) && v is Int
            &&& spec_sub_vals(a, b) matches Ok(v) && v is Int
            &&& spec_mul_vals(a, b) matches Ok(v) && v is Int
            &&& (b->Int_0 != 0 ==> (spec_div_vals(a, b) matches Ok(v) && v is Int))
            &&& (b->Int_0 == 0 ==> spec_div_vals(a, b) is Err)
            &&& (b->Int_0 != 0 ==> (spec_mod_vals(a, b) matches Ok(v) && v is Int))
            &&& (b->Int_0 == 0 ==> spec_mod_vals(a, b) is Err)
        },
        (a is Float && (b is Float || b is Int)) || (b is Float && a is Int) ==> {
            &&& spec_add_vals(a, b) matches Ok(v) && v is Float
            &&& spec_sub_vals(a, b) matches Ok(v) && v is Float
            &&& spec_mul_vals(a, b) matches Ok(v) && v is Float
            &&& spec_div_vals(a, b) matches Ok(v) && v is Float
            &&& spec_mod_vals(a, b) matches Ok(v) && v is Float
        },
        a is Str || a is Bool || a is Identifier || a is Array || b is Str || b is Bool
            || b is Identifier || b is Array ==> {
            &&& spec_add_vals(a, b) is Err
            &&& spec_sub_vals(a, b) is Err
            &&& spec_mul_vals(a, b) is Err
            &&& spec_div_vals(a, b) is Err
            &&& spec_mod_vals(a, b) is Err
        },
{
}

/// Equality is defined over like-typed scalars and mixed numeric pairs
/// only; everything else is a reported error.
pub proof fn lemma_equality_types(a: VMValueV, b: VMValueV)
    ensures
        a is Int && b is Int ==> spec_eq_vals(a, b) == Ok::<bool, ()>(
            a->Int_0 == b->Int_0,
        ),
        a is Str && b is Str ==> spec_eq_vals(a, b) == Ok::<bool, ()>(
            a->Str_0 == b->Str_0,
        ),
        a is Bool && b is Bool ==> spec_eq_vals(a, b) == Ok::<bool, ()>(
            a->Bool_0 == b->Bool_0,
        ),
        a is Array || b is Array || a is Identifier || b is Identifier ==> spec_eq_vals(
            a,
            b,
        ) is Err,
{
}

/// Pushing through one alias of an array is visible through every alias:
/// where two variables hold the same handle and `array:push` runs through
/// the first, the second still holds that handle, and the shared backing
/// sequence has gained the pushed element.
pub proof fn lemma_push_through_alias(
    pre: VmV,
    post: VmV,
    a: Seq<char>,
    b: Seq<char>,
    h: int,
    idts: Seq<Option<Seq<char>>>,
    args: Seq<VMValueV>,
    r: Result<Option<VMValueV>, ()>,
)
    requires
        vm_wf(pre),
        pre.variables.contains_key(a),
        pre.variables.contains_key(b),
        pre.variables[a] == VMValueV::Array(h),
        pre.variables[b] == VMValueV::Array(h),
        args.len() == 2,
        args[0] == VMValueV::Array(h),
        idts.len() >= 1,
        idts[0] == Some(a),
        array_push_post(pre, post, idts, args, r),
    ensures
        r is Ok,
        post.variables.contains_key(b),
        post.variables[b] == VMValueV::Array(h),
        post.arrays[h] == pre.arrays[h].push(args[1]),
{
}

/// Cloning detaches: `array:clone` yields a fresh handle with the same
/// contents, and a later push through the clone leaves the original
/// backing sequence untouched.
pub proof fn lemma_clone_detaches(
    pre: VmV,
    mid: VmV,
    post: VmV,
    h: int,
    nh: int,
    c: Seq<char>,
    idts1: Seq<Option<Seq<char>>>,
    args1: Seq<VMValueV>,
    r1: Result<Option<VMValueV>, ()>,
    idts2: Seq<Option<Seq<char>>>,
    args2: Seq<VMValueV>,
    r2: Result<Option<VMValueV>, ()>,
)
    requires
        vm_wf(pre),
        0 <= h < pre.arrays.len(),
        args1.len() == 1,
        args1[0] == VMValueV::Array(h),
        array_clone_post(pre, mid, idts1, args1, r1),
        nh == pre.arrays.len(),
        args2.len() == 2,
        args2[0] == VMValueV::Array(nh),
        idts2.len() >= 1,
        idts2[0] == Some(c),
        array_push_post(mid, post, idts2, args2, r2),
    ensures
        r1 == Ok::<Option<VMValueV>, ()>(Some(VMValueV::Array(nh))),
        mid.arrays[nh] == pre.arrays[h],
        post.arrays[h] == pre.arrays[h],
        post.arrays[nh] == pre.arrays[h].push(args2[1]),
{
    assert(mid.arrays[h] == pre.arrays[h]);
    assert(post.arrays == mid.arrays.update(nh, mid.arrays[nh].push(args2[1])));
    assert(post.arrays[h] == mid.arrays[h]);
}

/// Every label definition among the statements is in the label table.
pub proof fn lemma_label_table_contains(sts: Seq<crate::statements::StatementV>, n: int, j: int)
    requires
        0 <= j < n <= sts.len(),
        sts[j].context is GotoDef,
    ensures
        spec_label_table(sts, n).contains_key(sts[j].context->GotoDef_0),
    decreases n,
{
    if j < n - 1 {
        lemma_label_table_contains(sts, n - 1, j);
    }
}

/// A label defined nowhere is in no label table.
pub proof fn lemma_label_table_absent(sts: Seq<crate::statements::StatementV>, n: int, l: Seq<char>)
    requires
        0 <= n <= sts.len(),
        forall|j: int|
            0 <= j < n ==> !((#[trigger] sts[j].context) is GotoDef
                && sts[j].context->GotoDef_0 == l),
    ensures
        !spec_label_table(sts, n).contains_key(l),
    decreases n,
{
    if n > 0 {
        lemma_label_table_absent(sts, n - 1, l);
    }
}

/// Label resolution: a `goto L` transfers control to just after `~L`
/// wherever the definition stands — before or after the jump — because the
/// label table covers the whole program before execution starts; and a
/// `goto` to a label defined nowhere fails with an error and never
/// advances the machine.
pub proof fn lemma_goto_resolution(pre: VmV, post: VmV, r: Result<
    Option<crate::vm::HostRequestV>,
    (),
>, l: Seq<char>)
    requires
        0 <= pre.index < pre.statements.len(),
        pre.statements[pre.index as int].context == StatementContextV::Goto(l),
        pre.gotos == spec_label_table(pre.statements, pre.statements.len() as int),
        step_post(pre, post, r),
    ensures
        (exists|j: int|
            0 <= j < pre.statements.len() && (#[trigger] pre.statements[j].context)
                == StatementContextV::GotoDef(l)) ==> {
            &&& r == Ok::<Option<crate::vm::HostRequestV>, ()>(None)
            &&& post.index == pre.gotos[l] + 1
        },
        (forall|j: int|
            0 <= j < pre.statements.len() ==> (#[trigger] pre.statements[j].context)
                != StatementContextV::GotoDef(l)) ==> {
            &&& r is Err
            &&& post == pre
        },
{
    if exists|j: int|
        0 <= j < pre.statements.len() && (#[trigger] pre.statements[j].context)
            == StatementContextV::GotoDef(l) {
        let j = choose|j: int|
            0 <= j < pre.statements.len() && (#[trigger] pre.statements[j].context)
                == StatementContextV::GotoDef(l);
        lemma_label_table_contains(pre.statements, pre.statements.len() as int, j);
    }
    if forall|j: int|
        0 <= j < pre.statements.len() ==> (#[trigger] pre.statements[j].context)
            != StatementContextV::GotoDef(l) {
        assert forall|j: int| 0 <= j < pre.statements.len() implies !(
        (#[trigger] pre.statements[j].context) is GotoDef && pre.statements[j].context->GotoDef_0
            == l) by {
            if pre.statements[j].context is GotoDef && pre.statements[j].context->GotoDef_0
                == l {
                assert(pre.statements[j].context == StatementContextV::GotoDef(l));
            }
        }
        lemma_label_table_absent(pre.statements, pre.statements.len() as int, l);
    }
}

/// A subroutine call pushes the call site and jumps to the label; the
/// matching return pops it and resumes exactly at the statement after the
/// call. Nested calls unwind last-in-first-out because each call pushes
/// onto, and each return pops from, the same stack.
pub proof fn lemma_call_pushes(pre: VmV, post: VmV, r: Result<
    Option<crate::vm::HostRequestV>,
    (),
>, l: Seq<char>)
    requires
        0 <= pre.index < pre.statements.len(),
        pre.statements[pre.index as int].context == StatementContextV::CallLabel(l),
        pre.gotos.contains_key(l),
        step_post(pre, post, r),
    ensures
        r == Ok::<Option<crate::vm::HostRequestV>, ()>(None),
        post.call_stack == pre.call_stack.push(pre.index as usize),
        post.index == pre.gotos[l] + 1,
{
}

/// A return resumes just after the most recent unreturned call, and a
/// return with no matching call is a reported error that leaves the
/// machine unchanged.
pub proof fn lemma_ret_resumes(pre: VmV, post: VmV, r: Result<
    Option<crate::vm::HostRequestV>,
    (),
>)
    requires
        0 <= pre.index < pre.statements.len(),
        pre.statements[pre.index as int].context == StatementContextV::Ret,
        step_post(pre, post, r),
    ensures
        pre.call_stack.len() > 0 ==> {
            &&& r == Ok::<Option<crate::vm::HostRequestV>, ()>(None)
            &&& post.index == pre.call_stack.last() + 1
            &&& post.call_stack == pre.call_stack.drop_last()
        },
        pre.call_stack.len() == 0 ==> r is Err && post == pre,
{
}

} // verus!
