//! End-to-end runs of the interpreter: lexing, parsing and executing small
//! programs, and checking the machine's final state.

use aocl::lexer::{FileSet, Lexer};
use aocl::parser::Parser;
use aocl::value::VMValue;
use aocl::vm::{RunOutcome, VM};

fn lex_and_parse(src: &str) -> Vec<aocl::statements::Statement> {
    let files = FileSet::new();
    let mut lexer = Lexer::new("main".to_string(), src.to_string());
    let tokens = lexer.tokenise(&files).expect("lexing failed");
    let mut parser = Parser::new(tokens);
    parser.parse().expect("parsing failed")
}

fn fresh_vm(src: &str) -> VM {
    let mut vm = VM::new(lex_and_parse(src));
    aocl::stdlib::array::register(&mut vm);
    aocl::stdlib::convert::register(&mut vm);
    aocl::stdlib::io::register(&mut vm);
    aocl::stdlib::iter::register(&mut vm);
    aocl::stdlib::math::register(&mut vm);
    aocl::stdlib::runtime::register(&mut vm);
    aocl::stdlib::stack::register(&mut vm);
    aocl::stdlib::stdfns::register(&mut vm);
    aocl::stdlib::string::register(&mut vm);
    aocl::stdlib::test::register(&mut vm);
    vm
}

fn run_to_end(src: &str) -> VM {
    let mut vm = fresh_vm(src);
    match vm.run(1_000_000) {
        Ok(RunOutcome::Done) => vm,
        other => panic!("run did not finish: {:?}", other.map(|_| ())),
    }
}

fn var(vm: &VM, name: &str) -> VMValue {
    vm.variables.get(name).expect("variable missing").clone()
}

#[test]
fn countdown_loop_halts_with_zero() {
    let vm = run_to_end("x = 1\ny = 2\nz = x + y\n~loop\nz = z - 1\ngoto loop if z > 0\n");
    assert_eq!(var(&vm, "z"), VMValue::Int(0));
    assert_eq!(var(&vm, "x"), VMValue::Int(1));
    assert_eq!(var(&vm, "y"), VMValue::Int(2));
}

#[test]
fn split_yields_three_parts() {
    let vm = run_to_end("s = \"a,b,c\"\nparts = @string:split s \",\"\nn = @array:len parts\n");
    assert_eq!(var(&vm, "n"), VMValue::Int(3));
    let h = match var(&vm, "parts") {
        VMValue::Array(h) => h,
        other => panic!("parts is {:?}", other),
    };
    assert_eq!(vm.arrays[h][0], VMValue::Str("a".to_string()));
    assert_eq!(vm.arrays[h][1], VMValue::Str("b".to_string()));
    assert_eq!(vm.arrays[h][2], VMValue::Str("c".to_string()));
}

#[test]
fn forward_goto_skips_statements() {
    let vm = run_to_end("x = 1\ngoto end\nx = 2\n~end\ny = 7\n");
    assert_eq!(var(&vm, "x"), VMValue::Int(1));
    assert_eq!(var(&vm, "y"), VMValue::Int(7));
}

#[test]
fn goto_to_missing_label_is_an_error() {
    let mut vm = fresh_vm("goto nowhere\nx = 1\n");
    let err = vm.run(1_000_000).expect_err("missing label must fail");
    assert!(err.message.contains("goto not found"));
    assert!(vm.variables.get("x").is_none());
}

#[test]
fn call_and_ret_resume_after_the_call() {
    let vm = run_to_end("a = 0\ncall sub\nb = a + 10\ngoto end\n~sub\na = 5\nret\n~end\n");
    assert_eq!(var(&vm, "a"), VMValue::Int(5));
    assert_eq!(var(&vm, "b"), VMValue::Int(15));
}

#[test]
fn nested_calls_unwind_in_lifo_order() {
    let src = "\
trace = \"\"\n\
call outer\n\
trace = @string:join parts \"-\"\n\
goto end\n\
~outer\n\
@array:push parts \"o1\"\n\
call inner\n\
@array:push parts \"o2\"\n\
ret\n\
~inner\n\
@array:push parts \"i\"\n\
ret\n\
~end\n";
    let with_init = format!("parts = @array:new\n{}", src);
    let vm = run_to_end(&with_init);
    assert_eq!(var(&vm, "trace"), VMValue::Str("o1-i-o2".to_string()));
}

#[test]
fn ret_without_call_is_an_error() {
    let mut vm = fresh_vm("ret\n");
    let err = vm.run(1_000_000).expect_err("bare ret must fail");
    assert!(err.message.contains("call stack is empty"));
}

#[test]
fn array_push_is_visible_through_aliases() {
    let vm = run_to_end("a = @array:new\nb = a\n@array:push a 42\nn = @array:len b\n");
    assert_eq!(var(&vm, "n"), VMValue::Int(1));
    let hb = match var(&vm, "b") {
        VMValue::Array(h) => h,
        other => panic!("b is {:?}", other),
    };
    assert_eq!(vm.arrays[hb][0], VMValue::Int(42));
}

#[test]
fn array_clone_detaches_from_the_original() {
    let vm = run_to_end(
        "a = @array:new 1 2\nc = @array:clone a\n@array:push c 3\nna = @array:len a\nnc = @array:len c\n",
    );
    assert_eq!(var(&vm, "na"), VMValue::Int(2));
    assert_eq!(var(&vm, "nc"), VMValue::Int(3));
}

#[test]
fn integer_arithmetic_truncates() {
    let vm = run_to_end("a = 7 / 2\nb = -7 / 2\nc = 7 % 3\nd = -7 % 3\n");
    assert_eq!(var(&vm, "a"), VMValue::Int(3));
    assert_eq!(var(&vm, "b"), VMValue::Int(-3));
    assert_eq!(var(&vm, "c"), VMValue::Int(1));
    assert_eq!(var(&vm, "d"), VMValue::Int(-1));
}

#[test]
fn division_by_zero_is_an_error() {
    let mut vm = fresh_vm("a = 1 / 0\n");
    let err = vm.run(1_000_000).expect_err("dividing by zero must fail");
    assert_eq!(err.line, 1);
}

#[test]
fn mixed_arithmetic_promotes_to_float() {
    let vm = run_to_end("a = 1 + 2.5\n");
    assert_eq!(var(&vm, "a"), VMValue::Float((1.0f64 + 2.5f64).to_bits()));
}

#[test]
fn adding_a_string_is_a_type_error() {
    let mut vm = fresh_vm("a = 1 + \"x\"\n");
    let err = vm.run(1_000_000).expect_err("adding a string must fail");
    assert!(err.message.contains("cannot add"));
}

#[test]
fn undefined_variable_is_an_error() {
    let mut vm = fresh_vm("a = missing\n");
    let err = vm.run(1_000_000).expect_err("unknown variable must fail");
    assert!(err.message.contains("variable not found"));
}

#[test]
fn missing_native_is_an_error() {
    let mut vm = fresh_vm("x = @no:such\n");
    let err = vm.run(1_000_000).expect_err("unknown native must fail");
    assert!(err.message.contains("function not found: no:such"));
}

#[test]
fn assigning_call_without_return_value_is_an_error() {
    // stack:push returns nothing, so the assigning form must fail
    let mut vm = fresh_vm("x = @stack:push 1\n");
    let err = vm.run(1_000_000).expect_err("valueless assign must fail");
    assert!(err.message.contains("did not return a value"));
}

#[test]
fn stack_natives_are_lifo() {
    let vm = run_to_end(
        "@stack:push 1\n@stack:push 2\nn = @stack:len\na = @stack:pop\nb = @stack:pop\n",
    );
    assert_eq!(var(&vm, "n"), VMValue::Int(2));
    assert_eq!(var(&vm, "a"), VMValue::Int(2));
    assert_eq!(var(&vm, "b"), VMValue::Int(1));
}

#[test]
fn comparisons_drive_conditional_jumps() {
    let vm = run_to_end(
        "x = 0\ngoto skip if 1 < 2\nx = 1\n~skip\ny = 0\ngoto over if \"a\" == \"b\"\ny = 1\n~over\n",
    );
    assert_eq!(var(&vm, "x"), VMValue::Int(0));
    assert_eq!(var(&vm, "y"), VMValue::Int(1));
}

#[test]
fn ordering_strings_is_an_error() {
    let mut vm = fresh_vm("goto x if \"a\" < \"b\"\n~x\n");
    let err = vm.run(1_000_000).expect_err("ordering strings must fail");
    assert!(err.message.contains("cannot compare"));
}

#[test]
fn array_natives_get_index_reverse_sort() {
    let vm = run_to_end(
        "a = @array:new 3 1 2\ng = @array:get a 0\ni = @array:index a 2\n@array:sort a\nlo = @array:get a 0\n@array:reverse a\nhi = @array:get a 0\n",
    );
    assert_eq!(var(&vm, "g"), VMValue::Int(3));
    assert_eq!(var(&vm, "i"), VMValue::Int(2));
    assert_eq!(var(&vm, "lo"), VMValue::Int(1));
    assert_eq!(var(&vm, "hi"), VMValue::Int(3));
}

#[test]
fn array_pop_detaches_and_returns_the_last() {
    let vm = run_to_end("a = @array:new 1 2 3\nb = a\np = @array:pop a\nna = @array:len a\nnb = @array:len b\n");
    assert_eq!(var(&vm, "p"), VMValue::Int(3));
    assert_eq!(var(&vm, "na"), VMValue::Int(2));
    // pop rebinds only the named variable; the alias keeps the full array
    assert_eq!(var(&vm, "nb"), VMValue::Int(3));
}

#[test]
fn array_popat_removes_in_place() {
    let vm = run_to_end("a = @array:new 1 2 3\nb = a\np = @array:popat a 1\nnb = @array:len b\n");
    assert_eq!(var(&vm, "p"), VMValue::Int(2));
    assert_eq!(var(&vm, "nb"), VMValue::Int(2));
}

#[test]
fn array_is_compares_contents() {
    let vm = run_to_end(
        "a = @array:new 1 2\nb = @array:new 1 2\nc = @array:new 1 3\nab = @array:is a b\nac = @array:is a c\n",
    );
    assert_eq!(var(&vm, "ab"), VMValue::Bool(true));
    assert_eq!(var(&vm, "ac"), VMValue::Bool(false));
}

#[test]
fn sorting_incomparable_elements_is_an_error() {
    let mut vm = fresh_vm("a = @array:new 1 \"x\"\n@array:sort a\n");
    let err = vm.run(1_000_000).expect_err("mixed types must fail");
    assert!(err.message.contains("cannot compare"));
}

#[test]
fn math_and_string_natives() {
    let vm = run_to_end(
        "a = @array:new 1 2 3\ns = @math:sum a\nm = @math:max a\nstrs = @array:new \"x\" \"y\"\nj = @string:join strs \"+\"\nhas = @string:contains \"hello\" \"ell\"\nne = @string:notempty \"\"\nln = @string:len \"abc\"\n",
    );
    assert_eq!(var(&vm, "s"), VMValue::Int(6));
    assert_eq!(var(&vm, "m"), VMValue::Int(3));
    assert_eq!(var(&vm, "j"), VMValue::Str("x+y".to_string()));
    assert_eq!(var(&vm, "has"), VMValue::Bool(true));
    assert_eq!(var(&vm, "ne"), VMValue::Bool(false));
    assert_eq!(var(&vm, "ln"), VMValue::Int(3));
}

#[test]
fn convert_natives_round_trip() {
    let vm = run_to_end(
        "i = @convert:atoi \"-42\"\nt = @convert:itoa i\nf = 1.5\nfs = @convert:ftoa f\ng = @convert:atof fs\neq = 0\ngoto same if f == g\neq = 1\n~same\n",
    );
    assert_eq!(var(&vm, "i"), VMValue::Int(-42));
    assert_eq!(var(&vm, "t"), VMValue::Str("-42".to_string()));
    assert_eq!(var(&vm, "eq"), VMValue::Int(0));
}

#[test]
fn convert_atoi_rejects_garbage() {
    let mut vm = fresh_vm("i = @convert:atoi \"12x\"\n");
    let err = vm.run(1_000_000).expect_err("garbage must fail");
    assert!(err.message.contains("failed to parse int"));
}

#[test]
fn sprint_and_sprintf_build_text() {
    let vm = run_to_end("a = @io:sprint 42\nb = @io:sprintf \"v={}\" 7\n");
    assert_eq!(var(&vm, "a"), VMValue::Str("42".to_string()));
    assert_eq!(var(&vm, "b"), VMValue::Str("v=7".to_string()));
}

#[test]
fn test_is_succeeds_on_equal_and_fails_otherwise() {
    let vm = run_to_end("@test:is 1 1\n@test:is \"a\" \"a\"\n");
    assert_eq!(vm.index, vm.statements.len());
    let mut bad = fresh_vm("@test:is 1 2\n");
    assert!(bad.run(1_000_000).is_err());
}

#[test]
fn iter_natives_run_a_counted_loop() {
    let vm = run_to_end("sum = 0\n@iter:iterate \"i\" 0 4\nsum = sum + 1\n@iter:end \"i\"\n");
    assert_eq!(var(&vm, "sum"), VMValue::Int(4));
}

#[test]
fn std_map_and_filter_apply_natives() {
    let vm = run_to_end(
        "a = @array:new \"1\" \"22\"\nb = @std:map \"string\" \"len\" a\nc = @std:filter \"string\" \"notempty\" a\nn = @array:len c\nb0 = @array:get b 0\nb1 = @array:get b 1\n",
    );
    assert_eq!(var(&vm, "b0"), VMValue::Int(1));
    assert_eq!(var(&vm, "b1"), VMValue::Int(2));
    assert_eq!(var(&vm, "n"), VMValue::Int(2));
}

#[test]
fn runtime_gotolabel_jumps_by_name() {
    let vm = run_to_end("x = 1\n@runtime:gotolabel \"end\"\nx = 2\n~end\n");
    assert_eq!(var(&vm, "x"), VMValue::Int(1));
}

#[test]
fn breakpoint_pauses_the_run() {
    let mut vm = fresh_vm("x = 1\n@runtime:breakpoint\nx = 2\n");
    match vm.run(1_000_000) {
        Ok(RunOutcome::Breakpoint) => {}
        other => panic!("expected a breakpoint pause: {:?}", other.map(|_| ())),
    }
    assert_eq!(var(&vm, "x"), VMValue::Int(1));
    match vm.run(1_000_000) {
        Ok(RunOutcome::Done) => {}
        other => panic!("expected completion: {:?}", other.map(|_| ())),
    }
    assert_eq!(var(&vm, "x"), VMValue::Int(2));
}

#[test]
fn host_natives_suspend_and_resume() {
    let mut vm = fresh_vm("line = @io:readln\n");
    let rq = match vm.run(1_000_000) {
        Ok(RunOutcome::HostCall(rq)) => rq,
        other => panic!("expected a host call: {:?}", other.map(|_| ())),
    };
    assert_eq!(rq.module, "io");
    assert_eq!(rq.function, "readln");
    vm.resume_host(Ok(Some(VMValue::Str("typed".to_string()))))
        .expect("resume failed");
    match vm.run(1_000_000) {
        Ok(RunOutcome::Done) => {}
        other => panic!("expected completion: {:?}", other.map(|_| ())),
    }
    assert_eq!(var(&vm, "line"), VMValue::Str("typed".to_string()));
}

#[test]
fn run_budget_pauses_and_resumes() {
    let mut vm = fresh_vm("a = 1\nb = 2\nc = 3\n");
    match vm.run(1) {
        Ok(RunOutcome::Paused) => {}
        other => panic!("expected a pause: {:?}", other.map(|_| ())),
    }
    match vm.run(1_000_000) {
        Ok(RunOutcome::Done) => {}
        other => panic!("expected completion: {:?}", other.map(|_| ())),
    }
    assert_eq!(var(&vm, "c"), VMValue::Int(3));
}
