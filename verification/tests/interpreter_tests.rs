use sand::interpreter::IncludeTable;
use sand::intrinsics::init_scope;
use sand::parser::parse_file;
use sand::tokenizer::tokenize_str;
use sand::types::{Literal, Scope, Statements};
use sand::FilePos;

const BUDGET: u64 = 1 << 32;

fn tree(src: &str) -> Statements {
    let tokens = tokenize_str(src, FilePos::new("", 1, 1)).unwrap();
    parse_file(tokens).unwrap()
}

fn run(src: &str) -> Result<Literal, sand::interpreter::InterpretingError> {
    let mut scope = init_scope();
    tree(src).interpret(&mut scope, &IncludeTable::new(), BUDGET)
}

#[test]
fn interpret_block() {
    let src = r#"
            "Hello World!"
        "#;
    assert!(run(src).unwrap() != Literal::Nope)
}

#[test]
fn interpret_block_complex() {
    let src = r#"
            69;
            "Hello World!";
            420;
        "#;
    assert!(run(src).unwrap() == Literal::Nope)
}

#[test]
fn interpret_statement_assignment() {
    let src = r#"
            let foo = "Hello World!";
            foo
        "#;
    let mut scope = init_scope();
    tree(src).interpret(&mut scope, &IncludeTable::new(), BUDGET).unwrap();
    assert!(scope.contains_key("foo"));
    assert!(scope.get("foo").unwrap() == &Literal::Str("Hello World!".to_string()))
}

#[test]
fn interpret_statement_assignment_complex() {
    // Assigning `Foo.bar` while `Foo` is unbound must fail: there is no
    // implicit set creation.
    let src = r#"
            let Foo.bar = "Hello World!";
        "#;
    let mut scope = init_scope();
    let res = tree(src).interpret(&mut scope, &IncludeTable::new(), BUDGET);
    assert!(res.is_err());
    assert!(!scope.contains_key("Foo"));
}

#[test]
fn interpret_statement_include() {
    let mut includes = IncludeTable::new();
    includes.insert("lib.sand".to_string(), tree("let foo = 5;"));
    let src = r#"
            include "lib.sand";
            foo
        "#;
    let mut scope = init_scope();
    let res = tree(src).interpret(&mut scope, &includes, BUDGET).unwrap();
    assert!(res == Literal::Num((5.0f64).to_bits()));
}

#[test]
fn interpret_value_lit() {
    let src = r#"
            "Hello World!"
        "#;
    assert!(run(src).unwrap() == Literal::Str("Hello World!".to_string()))
}

#[test]
fn interpret_value_ref() {
    let src = r#"
            let foo = "hello";
            foo
        "#;
    assert!(run(src).unwrap() == Literal::Str("hello".to_string()))
}

#[test]
fn interpret_value_ref_complex() {
    let src = r#"
            1.add(1)
        "#;
    assert!(run(src).unwrap() == Literal::Num((2.0f64).to_bits()))
}

#[test]
fn interpret_value_funcall() {
    let src = r#"
            (var) {
                var
            } ("foo")
        "#;
    assert!(run(src).unwrap() == Literal::Str("foo".to_string()))
}

#[test]
fn interpret_set_field_assignment_keeps_other_fields() {
    // When the base does hold a set, assigning a field adds or overwrites
    // it without disturbing the others.
    let src = r#"
            let Foo = Num;
            let Foo.bar = "x";
        "#;
    let mut scope = init_scope();
    tree(src).interpret(&mut scope, &IncludeTable::new(), BUDGET).unwrap();
    let foo: Scope = match scope.get("Foo").unwrap() {
        Literal::Record(s) => s.clone(),
        _ => panic!(),
    };
    assert!(foo.contains_key("bar"));
    assert!(foo.get("bar").unwrap() == &Literal::Str("x".to_string()));
    assert!(foo.contains_key("add"));
    assert!(foo.contains_key("to_str"));
}

#[test]
fn interpret_scope_copy_on_call() {
    // A function that reassigns a name must not change the caller's binding.
    let src = r#"
            let x = 1;
            let f = () { let x = 2; x };
            f();
            x
        "#;
    assert!(run(src).unwrap() == Literal::Num((1.0f64).to_bits()))
}

#[test]
fn interpret_arity_mismatch_zero_params_one_arg() {
    let err = run("() { Nope } (1)").unwrap_err();
    assert_eq!(err.msg, "Mismatched arity");
}

#[test]
fn interpret_arity_mismatch_one_param_zero_args() {
    let err = run("(x) { x } ()").unwrap_err();
    assert_eq!(err.msg, "Mismatched arity");
}

#[test]
fn interpret_unbound_variable_is_error() {
    let err = run("missing").unwrap_err();
    assert_eq!(err.msg, "Variable not in scope");
}

#[test]
fn interpret_missing_member_is_error() {
    let err = run("1.missing(2)").unwrap_err();
    assert_eq!(err.msg, "Set has no such member");
}

#[test]
fn interpret_missing_include_is_error() {
    let err = run("include \"nowhere.sand\";").unwrap_err();
    assert_eq!(err.msg, "Cannot include file");
}

#[test]
fn interpret_num_methods() {
    assert!(run("7.sub(2)").unwrap() == Literal::Num((5.0f64).to_bits()));
    assert!(run("6.mul(7)").unwrap() == Literal::Num((42.0f64).to_bits()));
    assert!(run("7.div(2)").unwrap() == Literal::Num((3.5f64).to_bits()));
    assert!(run("7.mod(4)").unwrap() == Literal::Num((3.0f64).to_bits()));
    assert!(run("2.pow(10)").unwrap() == Literal::Num((1024.0f64).to_bits()));
    assert!(run("3.eq(3)").unwrap() == Literal::Bool(true));
    assert!(run("3.eq(4)").unwrap() == Literal::Bool(false));
    assert!(run("5.to_str()").unwrap() == Literal::Str("5".to_string()));
    assert!(run("2.5.to_str()").unwrap() == Literal::Str("2.5".to_string()));
}

#[test]
fn interpret_times_counts() {
    // times reports how often it ran through an assignment-free observation:
    // a fractional receiver is rejected, a whole one runs the callback.
    let err = run("2.5.times((i) { i })").unwrap_err();
    assert_eq!(err.msg, "Number is not an integer");
    assert!(run("3.times((i) { i })").unwrap() == Literal::Nope);
}

#[test]
fn interpret_then_runs_only_on_true() {
    assert!(run("2.eq(2).then(() { Nope })").unwrap() == Literal::Nope);
    assert!(run("2.eq(3).then(() { missing })").unwrap() == Literal::Nope);
    let err = run("2.eq(2).then(() { missing })").unwrap_err();
    assert_eq!(err.msg, "Variable not in scope");
}

#[test]
fn interpret_stream_constants() {
    assert!(run("Main.STDOUT").unwrap() == Literal::Num((1.0f64).to_bits()));
    assert!(run("Main.STDERR").unwrap() == Literal::Num((2.0f64).to_bits()));
}

#[test]
fn interpret_empty_program_is_nope() {
    assert!(run("").unwrap() == Literal::Nope);
}

#[test]
fn run_str_reports_each_stage() {
    let inc = IncludeTable::new();
    let ok = sand::interpreter::run_str("1.add(1)", FilePos::new("", 1, 1), &inc, BUDGET);
    assert!(ok.unwrap() == Literal::Num((2.0f64).to_bits()));
    let tok_err = sand::interpreter::run_str("\"open", FilePos::new("", 1, 1), &inc, BUDGET);
    assert!(tok_err.unwrap_err().msg.starts_with("TOKEN_ERROR: "));
    let parse_err = sand::interpreter::run_str(".", FilePos::new("", 1, 1), &inc, BUDGET);
    assert!(parse_err.unwrap_err().msg.starts_with("PARSE_ERROR: "));
    let run_err = sand::interpreter::run_str("missing", FilePos::new("", 1, 1), &inc, BUDGET);
    assert!(run_err.unwrap_err().msg.starts_with("INTERPRETING_ERROR: "));
}

#[test]
fn literal_accessors() {
    assert_eq!(Literal::Num((1.5f64).to_bits()).as_num().unwrap(), (1.5f64).to_bits());
    assert_eq!(Literal::Num((3.0f64).to_bits()).as_int().unwrap(), 3);
    assert!(Literal::Num((1.5f64).to_bits()).as_int().is_err());
    assert_eq!(Literal::Str("a".to_string()).as_str().unwrap(), "a");
    assert!(Literal::Bool(true).as_bool().unwrap());
    assert!(Literal::Nope.as_nope().is_ok());
    assert!(Literal::Str("a".to_string()).as_num().is_err());
}

#[test]
fn sand_error_message_format() {
    let inc = IncludeTable::new();
    let err = sand::interpreter::run_str("missing", FilePos::new("main.sand", 3, 7), &inc, BUDGET)
        .unwrap_err();
    assert_eq!(err.message(), "main.sand:3:7: INTERPRETING_ERROR: Variable not in scope");
}

#[test]
fn run_main_returns_exit_code() {
    let inc = IncludeTable::new();
    let args: Vec<String> = vec!["one".to_string(), "two".to_string()];
    let src = "let main = (args) { 7 };";
    let code = sand::interpreter::run_main(src, FilePos::new("", 1, 1), &inc, &args, BUDGET);
    assert_eq!(code.unwrap(), 7);
    let none = sand::interpreter::run_main("5", FilePos::new("", 1, 1), &inc, &args, BUDGET);
    assert!(none.unwrap_err().msg.starts_with("INTERPRETING_ERROR: "));
    let bad = sand::interpreter::run_main(
        "let main = (args) { \"x\" };",
        FilePos::new("", 1, 1),
        &inc,
        &args,
        BUDGET,
    );
    assert!(bad.unwrap_err().msg.starts_with("TYPE_ERROR: "));
}
