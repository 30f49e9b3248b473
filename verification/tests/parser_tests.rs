use sand::parser::ParseError;
use sand::tokenizer::tokenize_str;
use sand::types::{Function, Literal, Reference, Statement, Statements, Value, Var};
use sand::FilePos;

fn toks(src: &str) -> Vec<sand::tokenizer::Token> {
    tokenize_str(src, FilePos::new("", 1, 1)).unwrap()
}

#[test]
fn parse_statement_assignment() {
    let tokens = toks("let foo = \"hello\"");
    let statement = Statement::parse(&tokens).unwrap().unwrap();
    match statement {
        Statement::Assignment { .. } => (),
        _ => panic!(),
    }
}

#[test]
fn parse_statement_value() {
    let tokens = toks("foo()");
    let statement = Statement::parse(&tokens).unwrap().unwrap();
    match statement {
        Statement::Value(..) => (),
        _ => panic!(),
    }
}

#[test]
fn parse_statement_include() {
    let tokens = toks("include \"std.sand\"");
    let statement = Statement::parse(&tokens).unwrap().unwrap();
    assert!(statement == Statement::Include("std.sand".to_string()))
}

#[test]
fn parse_reference_var() {
    let tokens = toks("foo");
    let reference = Reference::parse(&tokens).unwrap().unwrap();
    match reference {
        Reference::Var(..) => (),
        _ => panic!(),
    }
}

#[test]
fn parse_reference_member() {
    let tokens = toks("Foo.bar");
    let reference = Reference::parse(&tokens).unwrap().unwrap();
    match reference {
        Reference::Member { .. } => (),
        _ => panic!(),
    }
}

#[test]
fn parse_reference_member_complex() {
    let tokens = toks("Foo.bar().baz");
    let reference = Reference::parse(&tokens).unwrap().unwrap();
    match reference {
        Reference::Member { .. } => (),
        _ => panic!(),
    }
}

#[test]
fn parse_value_literal() {
    let tokens = toks("5");
    let val = Value::parse(&tokens).unwrap().unwrap();
    match val {
        Value::Lit(..) => (),
        _ => panic!(),
    }
}

#[test]
fn parse_value_reference() {
    let tokens = toks("foo");
    let val = Value::parse(&tokens).unwrap().unwrap();
    match val {
        Value::Ref(..) => (),
        _ => panic!(),
    }
}

#[test]
fn parse_value_funcall() {
    let tokens = toks("foo()");
    let val = Value::parse(&tokens).unwrap().unwrap();
    match val {
        Value::FunCall { params, .. } => assert!(params.len() == 0),
        _ => panic!(),
    }
}

#[test]
fn parse_value_funcall_complex() {
    let tokens = toks("foo(1, \"hello\", bar())");
    let val = Value::parse(&tokens).unwrap().unwrap();
    match val {
        Value::FunCall { params, .. } => assert!(params.len() == 3),
        _ => panic!(),
    }
}

#[test]
fn parse_literal_nope() {
    let tokens = toks("Nope");
    let lit = Literal::parse(&tokens).unwrap().unwrap();
    assert!(lit == Literal::Nope)
}

#[test]
fn parse_literal_string() {
    let tokens = toks("\"hello\"");
    let lit = Literal::parse(&tokens).unwrap().unwrap();
    assert!(lit == Literal::Str("hello".to_string()))
}

#[test]
fn parse_literal_number() {
    let tokens = toks("5");
    let lit = Literal::parse(&tokens).unwrap().unwrap();
    assert!(lit == Literal::Num((5.0f64).to_bits()))
}

#[test]
fn parse_literal_number_float() {
    let tokens = toks("5.0");
    let lit = Literal::parse(&tokens).unwrap().unwrap();
    assert!(lit == Literal::Num((5.0f64).to_bits()))
}

#[test]
fn parse_literal_bool() {
    let tokens = toks("True");
    let lit = Literal::parse(&tokens).unwrap().unwrap();
    assert!(lit == Literal::Bool(true))
}

#[test]
fn parse_literal_fun() {
    let tokens = toks("() { foo(); }");
    let lit = Literal::parse(&tokens).unwrap().unwrap();
    match lit {
        Literal::Fun { .. } => (),
        _ => panic!(),
    }
}

#[test]
fn parse_function() {
    let tokens = toks("() { foo(); }");
    let fun = Function::parse(&tokens).unwrap().unwrap();
    assert!(fun.args.len() == 0)
}

#[test]
fn parse_function_complex() {
    let tokens = toks("(foo, bar, baz) { foo(); \"hello\"; }");
    let fun = Function::parse(&tokens).unwrap().unwrap();
    assert!(fun.args.len() == 3)
}

#[test]
fn parse_variable1() {
    let tokens = toks("foo");
    let fun = Var::parse(&tokens).unwrap().unwrap();
    assert!(fun.name == "foo")
}

#[test]
fn parse_variable2() {
    let tokens = toks("foo_bar");
    let fun = Var::parse(&tokens).unwrap().unwrap();
    assert!(fun.name == "foo_bar")
}

#[test]
fn parse_variable_bad1() {
    let tokens = toks("5foo");
    assert!(Var::parse(&tokens) == None)
}

#[test]
fn parse_variable_bad2() {
    let tokens = toks("fo.o");
    assert!(Var::parse(&tokens) == None)
}

#[test]
fn parse_file_splits_statements() {
    let tokens = toks("let a = 1; a");
    let prog: Statements = sand::parser::parse_file(tokens).unwrap();
    assert_eq!(prog.0.len(), 2);
}

#[test]
fn parse_file_empty_final_segment_is_nope() {
    let tokens = toks("5;");
    let prog = sand::parser::parse_file(tokens).unwrap();
    assert_eq!(prog.0.len(), 2);
    assert!(prog.0.get(1).unwrap() == &Statement::Value(Value::Lit(Literal::Nope)));
}

#[test]
fn parse_unparsable_statement_is_error() {
    let tokens = toks(".");
    let err: ParseError = match Statement::parse(&tokens).unwrap() {
        Err(e) => e,
        Ok(_) => panic!(),
    };
    assert_eq!(err.msg, "Cannot parse into statement");
}

#[test]
fn parse_let_propagates_inner_error() {
    // a hard failure inside the assignment's right-hand side comes out as
    // that failure, positioned at the failing slice, not as a later rule's
    // worse-matching error at the statement head
    let tokens = toks("let x = .()");
    let err = match Statement::parse(&tokens).unwrap() {
        Err(e) => e,
        Ok(_) => panic!(),
    };
    assert_eq!(err.msg, "Cannot parse into function call");
    assert_eq!(err.pos.col, 9);
}
