use three_body_lang::ast::{Expr, Ident, Infix, Literal, Stmt};
use three_body_lang::evaluator::builtins::new_builtins;
use three_body_lang::evaluator::env::Env;
use three_body_lang::evaluator::Evaluator;
use three_body_lang::evaluator::host::{Host, NoHost, Transcript};
use three_body_lang::interpreter::{interpret, Outcome};
use three_body_lang::lexer::Lexer;
use three_body_lang::evaluator::object::{Native, Object};
use three_body_lang::parser::Parser;
use three_body_lang::evaluator::values::Fatal;

fn eval(input: &str) -> Option<Object> {
    let mut parser = Parser::new(Lexer::new(input));
    let program = parser.parse();
    assert!(parser.get_errors().is_empty());
    let mut evaluator = Evaluator::new(Env::from(new_builtins()));
    evaluator.eval(&program, &mut NoHost).unwrap()
}

fn run(input: &str, depth: u64, iterations: u64) -> Result<Option<Object>, Fatal> {
    let mut parser = Parser::new(Lexer::new(input));
    let program = parser.parse();
    assert!(parser.get_errors().is_empty());
    let mut evaluator = Evaluator::with_limits(Env::from(new_builtins()), depth, iterations);
    evaluator.eval(&program, &mut NoHost)
}
#[test]
fn test_int_expr() {
    let tests = vec![
        ("5", Some(Object::Int(5))),
        ("10", Some(Object::Int(10))),
        ("-5", Some(Object::Int(-5))),
        ("-10", Some(Object::Int(-10))),
        ("+5", Some(Object::Int(5))),
        ("+10", Some(Object::Int(10))),
        ("+(-5)", Some(Object::Int(-5))),
        ("+(-10)", Some(Object::Int(-10))),
        ("5 + 5 + 5 + 5 - 10", Some(Object::Int(10))),
        ("2 * 2 * 2 * 2 * 2", Some(Object::Int(32))),
        ("-50 + 100 + -50", Some(Object::Int(0))),
        ("5 * 2 + 10", Some(Object::Int(20))),
        ("5 + 2 * 10", Some(Object::Int(25))),
        ("20 + 2 * -10", Some(Object::Int(0))),
        ("50 / 2 * 2 + 10", Some(Object::Int(60))),
        ("2 * (5 + 10)", Some(Object::Int(30))),
        ("3 * 3 * 3 + 10", Some(Object::Int(37))),
        ("3 * (3 * 3) + 10", Some(Object::Int(37))),
        (
            "(5 + 10 * 2 + 15 / 3) * 2 + -10",
            Some(Object::Int(50)),
        ),
    ];

    for (input, expect) in tests {
        assert_eq!(expect, eval(input));
    }
}

#[test]
fn test_string_expr() {
    let input = "\"Hello World!\"";

    assert_eq!(
        Some(Object::String(String::from("Hello World!"))),
        eval(input)
    );
}

#[test]
fn test_string_concatenation() {
    let input = "\"Hello\" + \" \" + \"World!\"";

    assert_eq!(
        Some(Object::String(String::from("Hello World!"))),
        eval(input)
    );
}

#[test]
fn test_boolean_expr() {
    let tests = vec![
        ("true", Some(Object::Bool(true))),
        ("false", Some(Object::Bool(false))),
        ("1 < 2", Some(Object::Bool(true))),
        ("1 > 2", Some(Object::Bool(false))),
        ("1 < 1", Some(Object::Bool(false))),
        ("1 > 1", Some(Object::Bool(false))),
        ("1 >= 1", Some(Object::Bool(true))),
        ("1 <= 1", Some(Object::Bool(true))),
        ("1 >= 2", Some(Object::Bool(false))),
        ("1 <= 1", Some(Object::Bool(true))),
        ("2 <= 1", Some(Object::Bool(false))),
        ("1 == 1", Some(Object::Bool(true))),
        ("1 != 1", Some(Object::Bool(false))),
        ("1 == 2", Some(Object::Bool(false))),
        ("1 != 2", Some(Object::Bool(true))),
    ];

    for (input, expect) in tests {
        assert_eq!(expect, eval(input));
    }
}

#[test]
fn test_array_literal() {
    let input = "[1, 2 * 2, 3 + 3]";

    assert_eq!(
        Some(Object::Array(vec![
            Object::Int(1),
            Object::Int(4),
            Object::Int(6),
        ])),
        eval(input),
    );
}

#[test]
fn test_array_index_expr() {
    let tests = vec![
        ("[1, 2, 3][0]", Some(Object::Int(1))),
        ("[1, 2, 3][1]", Some(Object::Int(2))),
        ("let i = 0; [1][i]", Some(Object::Int(1))),
        ("[1, 2, 3][1 + 1];", Some(Object::Int(3))),
        (
            "let myArray = [1, 2, 3]; myArray[2];",
            Some(Object::Int(3)),
        ),
        (
            "let myArray = [1, 2, 3]; myArray[0] + myArray[1] + myArray[2];",
            Some(Object::Int(6)),
        ),
        (
            "let myArray = [1, 2, 3]; let i = myArray[0]; myArray[i];",
            Some(Object::Int(2)),
        ),
        ("[1, 2, 3][3]", Some(Object::Null)),
        ("[1, 2, 3][-1]", Some(Object::Null)),
    ];

    for (input, expect) in tests {
        assert_eq!(expect, eval(input));
    }
}

#[test]
fn test_hash_literal() {
    let input = r#"
let two = "two";
{
  "one": 10 - 9,
  two: 1 + 1,
  "thr" + "ee": 6 / 2,
  4: 4,
  true: 5,
  false: 6
}
"#;

    let hash = vec![
        (Object::String(String::from("one")), Object::Int(1)),
        (Object::String(String::from("two")), Object::Int(2)),
        (Object::String(String::from("three")), Object::Int(3)),
        (Object::Int(4), Object::Int(4)),
        (Object::Bool(true), Object::Int(5)),
        (Object::Bool(false), Object::Int(6)),
    ];

    assert_eq!(Some(Object::Hash(hash)), eval(input),);
}

#[test]
fn test_hash_index_expr() {
    let tests = vec![
        ("{\"foo\": 5}[\"foo\"]", Some(Object::Int(5))),
        ("{\"foo\": 5}[\"bar\"]", Some(Object::Null)),
        (
            "let key = \"foo\"; {\"foo\": 5}[key]",
            Some(Object::Int(5)),
        ),
        ("{}[\"foo\"]", Some(Object::Null)),
        ("{5: 5}[5]", Some(Object::Int(5))),
        ("{true: 5}[true]", Some(Object::Int(5))),
        ("{false: 5}[false]", Some(Object::Int(5))),
    ];

    for (input, expect) in tests {
        assert_eq!(expect, eval(input));
    }
}

#[test]
fn test_not_operator() {
    let tests = vec![
        ("!true", Some(Object::Bool(false))),
        ("!false", Some(Object::Bool(true))),
        ("!!true", Some(Object::Bool(true))),
        ("!!false", Some(Object::Bool(false))),
        ("!!5", Some(Object::Bool(true))),
    ];

    for (input, expect) in tests {
        assert_eq!(expect, eval(input));
    }
}

#[test]
fn mod_test_if_else_expr() {
    let tests = vec![
        ("if (true) { 10 }", Some(Object::Int(10))),
        ("if (false) { 10 }", None),
        ("if (1) { 10 }", Some(Object::Int(10))),
        ("if (1 < 2) { 10 }", Some(Object::Int(10))),
        ("if (1 > 2) { 10 }", None),
        (
            "if (1 > 2) { 10 } else { 20 }",
            Some(Object::Int(20)),
        ),
        (
            "if (1 < 2) { 10 } else { 20 }",
            Some(Object::Int(10)),
        ),
        ("if (1 <= 2) { 10 }", Some(Object::Int(10))),
        ("if (1 >= 2) { 10 }", None),
        (
            "if (1 >= 2) { 10 } else { 20 }",
            Some(Object::Int(20)),
        ),
        (
            "if (1 <= 2) { 10 } else { 20 }",
            Some(Object::Int(10)),
        ),
    ];

    for (input, expect) in tests {
        assert_eq!(expect, eval(input));
    }
}

#[test]
fn mod_test_return_stmt() {
    let tests = vec![
        ("return 10;", Some(Object::Int(10))),
        ("return 10; 9;", Some(Object::Int(10))),
        ("return 2 * 5; 8;", Some(Object::Int(10))),
        ("9; return 2 * 5; 9;", Some(Object::Int(10))),
        (
            r#"
if (10 > 1) {
  if (10 > 1) {
    return 10;
  }
  return 1;
}"#,
            Some(Object::Int(10)),
        ),
    ];

    for (input, expect) in tests {
        assert_eq!(expect, eval(input));
    }
}

#[test]
fn mod_test_let_stmt() {
    let tests = vec![
        ("let a = 5; a;", Some(Object::Int(5))),
        ("let a = 5 * 5; a;", Some(Object::Int(25))),
        ("let a = 5; let b = a; b;", Some(Object::Int(5))),
        (
            "let a = 5; let b = a; let c = a + b + 5; c;",
            Some(Object::Int(15)),
        ),
        ("let a = 5; let a = 1;", Some(Object::Error(
            "Can not redeclare variable a!".to_owned(),
        ))),
    ];

    for (input, expect) in tests {
        assert_eq!(expect, eval(input));
    }
}

#[test]
fn mod_test_const_stmt() {
    let tests = vec![(
        "const a = 5; a = 3;",
        Some(Object::Error(
            "Can not assign to constant variable a!".to_owned(),
        )),
    ), (
        "const a = 5; let a = 3;",
        Some(Object::Error(
            "Can not redeclare constant variable a!".to_owned(),
        )),
    ), (
        "const a = 5; const a = 3;",
        Some(Object::Error(
            "Can not redeclare constant variable a!".to_owned(),
        )),
    )];

    for (input, expect) in tests {
        assert_eq!(expect, eval(input));
    }
}

#[test]
fn test_assign_stmt() {
    let tests = vec![("let a = 5; a = 3; a", Some(Object::Int(3)))];

    for (input, expect) in tests {
        assert_eq!(expect, eval(input));
    }
}

#[test]
fn test_blank_stmt() {
    let tests = vec![
        (
            r#"5;


"#,
            Some(Object::Int(5)),
        ),
        (
            r#"let identity = fn (x) {
  x;

}

identity(100);

"#,
            Some(Object::Int(100)),
        ),
    ];

    for (input, expect) in tests {
        assert_eq!(expect, eval(input));
    }
}

#[test]
fn test_fn_object() {
    let input = "fn(x) { x + 2; };";

    assert_eq!(
        Some(Object::Function(
            vec![Ident(String::from("x"))],
            vec![Stmt::Expr(Expr::Infix(
                Infix::Plus,
                Box::new(Expr::Ident(Ident(String::from("x")))),
                Box::new(Expr::Literal(Literal::Int(2))),
            ))],
            0,
        )),
        eval(input),
    );
}

#[test]
fn test_fn_application() {
    let tests = vec![
        (
            "let identity = fn(x) { x; }; identity(5);",
            Some(Object::Int(5)),
        ),
        (
            "let identity = fn(x) { return x; }; identity(5);",
            Some(Object::Int(5)),
        ),
        (
            "let double = fn(x) { x * 2; }; double(5);",
            Some(Object::Int(10)),
        ),
        (
            "let add = fn(x, y) { x + y; }; add(5, 5);",
            Some(Object::Int(10)),
        ),
        (
            "let add = fn(x, y) { x + y; }; add(5 + 5, add(5, 5));",
            Some(Object::Int(20)),
        ),
        ("fn(x) { x; }(5)", Some(Object::Int(5))),
        (
            "fn(a) { let f = fn(b) { a + b }; f(a); }(5);",
            Some(Object::Int(10)),
        ),
    ];

    for (input, expect) in tests {
        assert_eq!(expect, eval(input));
    }
}

#[test]
fn test_closures() {
    let input = r#"
let newAdder = fn(x) {
  fn(y) { x + y };
}

let addTwo = newAdder(2);
addTwo(2);
        "#;

    assert_eq!(Some(Object::Int(4)), eval(input));
}

#[test]
fn test_builtin_functions() {
    let tests = vec![
        // len
        ("len(\"\")", Some(Object::Int(0))),
        ("len(\"four\")", Some(Object::Int(4))),
        ("len(\"hello world\")", Some(Object::Int(11))),
        ("len([1, 2, 3])", Some(Object::Int(3))),
        (
            "len(1)",
            Some(Object::Error(String::from(
                "argument to `len` not supported, got 1",
            ))),
        ),
        (
            "len(\"one\", \"two\")",
            Some(Object::Error(String::from(
                "wrong number of arguments. got=2, want=1",
            ))),
        ),
        // first
        ("first([1, 2, 3])", Some(Object::Int(1))),
        ("first([])", Some(Object::Null)),
        (
            "first([], [])",
            Some(Object::Error(String::from(
                "wrong number of arguments. got=2, want=1",
            ))),
        ),
        (
            "first(\"string\")",
            Some(Object::Error(String::from(
                "argument to `first` must be array. got \"string\"",
            ))),
        ),
        (
            "first(1)",
            Some(Object::Error(String::from(
                "argument to `first` must be array. got 1",
            ))),
        ),
        // last
        ("last([1, 2, 3])", Some(Object::Int(3))),
        ("last([])", Some(Object::Null)),
        (
            "last([], [])",
            Some(Object::Error(String::from(
                "wrong number of arguments. got=2, want=1",
            ))),
        ),
        (
            "last(\"string\")",
            Some(Object::Error(String::from(
                "argument to `last` must be array. got \"string\"",
            ))),
        ),
        (
            "last(1)",
            Some(Object::Error(String::from(
                "argument to `last` must be array. got 1",
            ))),
        ),
        // rest
        (
            "rest([1, 2, 3, 4])",
            Some(Object::Array(vec![
                Object::Int(2),
                Object::Int(3),
                Object::Int(4),
            ])),
        ),
        (
            "rest([2, 3, 4])",
            Some(Object::Array(vec![
                Object::Int(3),
                Object::Int(4),
            ])),
        ),
        ("rest([4])", Some(Object::Array(vec![]))),
        ("rest([])", Some(Object::Null)),
        (
            "rest([], [])",
            Some(Object::Error(String::from(
                "wrong number of arguments. got=2, want=1",
            ))),
        ),
        (
            "rest(\"string\")",
            Some(Object::Error(String::from(
                "argument to `rest` must be array. got \"string\"",
            ))),
        ),
        (
            "rest(1)",
            Some(Object::Error(String::from(
                "argument to `rest` must be array. got 1",
            ))),
        ),
        // push
        (
            "push([1, 2, 3], 4)",
            Some(Object::Array(vec![
                Object::Int(1),
                Object::Int(2),
                Object::Int(3),
                Object::Int(4),
            ])),
        ),
        (
            "push([], 1)",
            Some(Object::Array(vec![Object::Int(1)])),
        ),
        (
            "let a = [1]; push(a, 2); a", // 不改变原数组
            Some(Object::Array(vec![Object::Int(1)])),
        ),
        (
            "push([], [], [])",
            Some(Object::Error(String::from(
                "wrong number of arguments. got=3, want=2",
            ))),
        ),
        (
            "push(\"string\", 1)",
            Some(Object::Error(String::from(
                "argument to `push` must be array. got \"string\"",
            ))),
        ),
        (
            "push(1, 1)",
            Some(Object::Error(String::from(
                "argument to `push` must be array. got 1",
            ))),
        ),
    ];

    for (input, expect) in tests {
        assert_eq!(expect, eval(input));
    }
}

#[test]
fn test_error_handling() {
    let tests = vec![
        (
            "5 + true",
            Some(Object::Error(String::from(
                "unknown operator: 5 + true",
            ))),
        ),
        (
            "5 + true; 5;",
            Some(Object::Error(String::from(
                "unknown operator: 5 + true",
            ))),
        ),
        (
            "-true",
            Some(Object::Error(String::from(
                "unknown operator: -true",
            ))),
        ),
        (
            "5; true + false; 5;",
            Some(Object::Error(String::from(
                "type mismatch: true + false",
            ))),
        ),
        (
            "if (10 > 1) { true + false; }",
            Some(Object::Error(String::from(
                "type mismatch: true + false",
            ))),
        ),
        (
            "\"Hello\" - \"World\"",
            Some(Object::Error(String::from(
                "type mismatch: Hello - World",
            ))),
        ),
    ];

    for (input, expect) in tests {
        assert_eq!(expect, eval(input));
    }
}

#[test]
fn test_z_combinator() {
    let input = r#"
let z = fn(f) {
    return fn(x) {
        return f(fn(y) {
            return x(x)(y);
        });
        }(fn(x) {
        return f(fn(y) {
            return x(x)(y);
        });
    });
};

return z(fn(f) {
    return fn(n) {
    if (n == 0) {
        1
    } else {
        n * f(n - 1)
    }
    };
})(5);
        "#;

    assert_eq!(Some(Object::Int(120)), eval(input));
}
#[test]
fn test_reassign_evaluator() {
    let tests = vec![
        ("let five = 5; five = 6; five", Some(Object::Int(6))),
        (
            "let y = 5; let x = 3; x = y; x",
            Some(Object::Int(5)),
        ),
        (
            "let y = 5; let x = 3; x = x + y * y / 5 - 1; x",
            Some(Object::Int(7)),
        ),
    ];

    for (input, expect) in tests {
        assert_eq!(expect, eval(input));
    }
}

#[test]
fn test_while_break_continue_evaluator() {
    let tests = vec![
        ("let cond = true; let a = 5; while (cond) { a = 3; cond = false; } a;", Some(Object::Int(3))),
        ("let cond = true; let a = 5; while (cond) { a = a - 1; if (a == 2) { break; } } a", Some(Object::Int(2))),
        ("let cond = true; let a = 5; while (cond) { a = a - 1; if (a >= 2) { continue; } return a; }", Some(Object::Int(1))),
    ];

    for (input, expect) in tests {
        assert_eq!(expect, eval(input));
    }
}

#[test]
fn test_closure_adder() {
    let input = r#"
let adder = fn() {
  let x = 1;
  return fn() { x = x + 1; x };
}

let f = adder();
f();
f();
f();
f()
        "#;

    assert_eq!(Some(Object::Int(5)), eval(input));
}

// scoping, closures and constants

#[test]
fn test_inner_scope_does_not_leak() {
    assert_eq!(
        Some(Object::Int(1)),
        eval("let x = 1; fn(){ let x = 2; return x; }(); x;")
    );
    assert_eq!(
        Some(Object::Int(2)),
        eval("let x = 1; fn(){ let x = 2; return x; }();")
    );
}

#[test]
fn test_closure_shares_its_scope() {
    let input = "let adder = fn(){ let x = 1; return fn(){ x = x + 1; x }; }; let f = adder(); f(); f(); f();";
    assert_eq!(Some(Object::Int(4)), eval(input));
    let input = "let adder = fn(){ let x = 1; return fn(){ x = x + 1; x }; }; let f = adder(); f(); f();";
    assert_eq!(Some(Object::Int(3)), eval(input));
    let two = "let adder = fn(){ let x = 0; return fn(){ x = x + 1; x }; }; let f = adder(); let g = adder(); f(); f(); g();";
    assert_eq!(Some(Object::Int(1)), eval(two));
}

#[test]
fn test_constant_protection() {
    assert_eq!(
        Some(Object::Error("Can not assign to constant variable a!".to_owned())),
        eval("const a = 5; a = 3;")
    );
    assert_eq!(
        Some(Object::Error("Can not redeclare constant variable a!".to_owned())),
        eval("const a = 5; let a = 3;")
    );
    assert_eq!(Some(Object::Int(3)), eval("const a = 5; fn(){ let a = 3; a }()"));
    assert_eq!(
        Some(Object::Error("Can not assign to constant variable a!".to_owned())),
        eval("const a = 5; fn(){ a = 3; }()")
    );
    assert_eq!(
        Some(Object::Error("No identifier b!".to_owned())),
        eval("b = 3;")
    );
}

#[test]
fn test_loop_control_flow() {
    assert_eq!(
        Some(Object::Int(2)),
        eval("let a=5; while(true){ a=a-1; if (a==2) { break; } } a;")
    );
    assert_eq!(
        Some(Object::Int(1)),
        eval("let a=5; while(true){ a=a-1; if (a>=2) { continue; } return a; }")
    );
    assert_eq!(Some(Object::Null), eval("let a=5; while(true){ a=a-1; if (a==2) { break; } }"));
    assert_eq!(None, eval("while(false){ 1 }"));
}

#[test]
fn test_array_bounds() {
    assert_eq!(Some(Object::Null), eval("[1,2,3][3]"));
    assert_eq!(Some(Object::Null), eval("[1,2,3][-1]"));
    assert_eq!(Some(Object::Int(3)), eval("[1,2,3][2]"));
    assert_eq!(
        Some(Object::Array(vec![Object::Int(1), Object::Int(2)])),
        eval("push([1],2)")
    );
    assert_eq!(
        Some(Object::Array(vec![Object::Int(1)])),
        eval("let a = [1]; let b = push(a, 2); a")
    );
}

#[test]
fn test_same_source_same_result() {
    let input = "let f = fn(n) { if (n == 0) { 1 } else { n * f(n - 1) } }; f(6)";
    assert_eq!(eval(input), eval(input));
    assert_eq!(Some(Object::Int(720)), eval(input));
}

#[test]
fn test_arity_of_builtins() {
    let tests = vec![
        ("len()", "wrong number of arguments. got=0, want=1"),
        ("len(1, 2)", "wrong number of arguments. got=2, want=1"),
        ("first()", "wrong number of arguments. got=0, want=1"),
        ("last(1, 2, 3)", "wrong number of arguments. got=3, want=1"),
        ("rest()", "wrong number of arguments. got=0, want=1"),
        ("push([])", "wrong number of arguments. got=1, want=2"),
        ("random()", "wrong number of arguments. got=0, want=1"),
        ("random(1, 2)", "wrong number of arguments. got=2, want=1"),
    ];
    for (input, message) in tests {
        assert_eq!(Some(Object::Error(message.to_owned())), eval(input));
    }
}

#[test]
fn test_arity_of_functions() {
    assert_eq!(
        Some(Object::Error("wrong number of arguments: 1 expected but 2 given".to_owned())),
        eval("fn(x) { x }(1, 2)")
    );
    assert_eq!(
        Some(Object::Error("5 is not valid function".to_owned())),
        eval("5(1)")
    );
}

#[test]
fn test_identifier_not_found() {
    assert_eq!(
        Some(Object::Error("identifier not found: foobar".to_owned())),
        eval("foobar")
    );
}

#[test]
fn test_prefix_operators() {
    assert_eq!(Some(Object::Bool(true)), eval("![][0]"));
    assert_eq!(Some(Object::Bool(false)), eval("!\"\""));
    assert_eq!(
        Some(Object::Error("unknown operator: true".to_owned())),
        eval("+true")
    );
    assert_eq!(
        Some(Object::Error("unknown operator: -\"a\"".to_owned())),
        eval("-\"a\"")
    );
}

#[test]
fn test_mixed_operands() {
    assert_eq!(
        Some(Object::Error("unknown operator: a + 1".to_owned())),
        eval("\"a\" + 1")
    );
    assert_eq!(
        Some(Object::Error("unknown operator: 1 + \"a\"".to_owned())),
        eval("1 + \"a\"")
    );
    assert_eq!(
        Some(Object::Error("type mismatch: [1] + [2]".to_owned())),
        eval("[1] + [2]")
    );
    assert_eq!(
        Some(Object::Error("type mismatch: true == true".to_owned())),
        eval("true == true")
    );
    assert_eq!(
        Some(Object::Error("unknown operator: [1] + {}".to_owned())),
        eval("[1] + {}")
    );
    assert_eq!(
        Some(Object::Error("type mismatch: a * b".to_owned())),
        eval("\"a\" * \"b\"")
    );
}

#[test]
fn test_index_errors() {
    assert_eq!(
        Some(Object::Error("index operator not supported: [1, 2]".to_owned())),
        eval("[1, 2][true]")
    );
    assert_eq!(
        Some(Object::Error("unusable as hash key: [1]".to_owned())),
        eval("{1: 2}[[1]]")
    );
    assert_eq!(
        Some(Object::Error("unknown operator: 1 2".to_owned())),
        eval("1[2]")
    );
    assert_eq!(
        Some(Object::Error("identifier not found: x".to_owned())),
        eval("{1: 2}[x]")
    );
}

#[test]
fn test_hash_keys() {
    assert_eq!(
        Some(Object::Hash(vec![(Object::Int(1), Object::Int(3))])),
        eval("{1: 2, 1: 3}")
    );
    assert_eq!(
        Some(Object::Hash(vec![
            (Object::Array(vec![Object::Int(1)]), Object::Int(3)),
            (Object::Array(vec![Object::Int(2)]), Object::Int(4)),
        ])),
        eval("{[1]: 2, [2]: 4, [1]: 3}")
    );
    assert_eq!(Some(Object::Int(7)), eval("let h = {\"a\": 7}; h.a"));
}

#[test]
fn test_integer_division_truncates() {
    assert_eq!(Some(Object::Int(-3)), eval("-7 / 2"));
    assert_eq!(Some(Object::Int(3)), eval("7 / 2"));
    assert_eq!(Some(Object::Int(-3)), eval("7 / -2"));
}

#[test]
fn test_fatal_failures() {
    assert_eq!(Err(Fatal::DivisionByZero), run("1 / 0", 16, 16));
    assert_eq!(Err(Fatal::Overflow), run("9223372036854775807 + 1", 16, 16));
    assert_eq!(Err(Fatal::Overflow), run("9223372036854775807 * 2", 16, 16));
    assert_eq!(Err(Fatal::Overflow), run("0 - 9223372036854775807 - 2", 16, 16));
    assert_eq!(
        Err(Fatal::DepthExceeded),
        run("let f = fn(n) { f(n + 1) }; f(0)", 16, 16)
    );
    assert_eq!(Err(Fatal::LoopExceeded), run("while (true) { 1 }", 16, 16));
    assert_eq!(
        Ok(Some(Object::Int(16))),
        run("let a = 0; while (a < 16) { a = a + 1; } a", 16, 16)
    );
    assert_eq!(
        Err(Fatal::LoopExceeded),
        run("let a = 0; while (a < 17) { a = a + 1; } a", 16, 16)
    );
    assert_eq!(
        Ok(Some(Object::Int(3))),
        run("let f = fn(n) { if (n == 3) { n } else { f(n + 1) } }; f(0)", 4, 16)
    );
    assert_eq!(
        Err(Fatal::DepthExceeded),
        run("let f = fn(n) { if (n == 3) { n } else { f(n + 1) } }; f(0)", 3, 16)
    );
}

#[test]
fn test_error_in_loop_body_ends_the_loop() {
    assert_eq!(
        Some(Object::Error("identifier not found: missing".to_owned())),
        eval("let a = 0; while (a < 3) { a = a + 1; missing; } a")
    );
    assert_eq!(
        Some(Object::Error("identifier not found: missing".to_owned())),
        eval("let a = 0; let f = fn() { while (a < 3) { a = a + 1; missing; } }; f(); a")
    );
    assert_eq!(
        Some(Object::Int(1)),
        eval("let a = 0; let f = fn() { while (a < 3) { a = a + 1; missing; } }; let r = [f()]; a")
    );
}

#[test]
fn test_host_capabilities() {
    let mut parser = Parser::new(Lexer::new("\u{5e7f}\u{64ad}(1 + 1); \u{5e7f}\u{64ad}(\"a\"); \u{51ac}\u{7720}([1, 2])"));
    let program = parser.parse();
    assert!(parser.get_errors().is_empty());
    let mut host = Transcript::new();
    let mut evaluator = Evaluator::new(Env::from(new_builtins()));
    assert_eq!(Ok(Some(Object::Null)), evaluator.eval(&program, &mut host));
    assert_eq!(
        vec!["2".to_owned(), "\"a\"".to_owned(), "[1, 2]".to_owned()],
        host.lines
    );
    assert_eq!(Object::Null, host.invoke("anything", &vec![Object::Int(7)]));
    assert_eq!(4, host.lines.len());
}

#[test]
fn test_dangling_scope() {
    let mut evaluator = Evaluator::new(Env::from(new_builtins()));
    evaluator.env.set("f".to_owned(), Object::Function(vec![], vec![], 7));
    evaluator.env.set("g".to_owned(), Object::Builtin(-1, Native::Len));
    let mut parser = Parser::new(Lexer::new("f()"));
    let program = parser.parse();
    assert_eq!(
        Ok(Some(Object::Error("fn() { ... } is not valid function".to_owned()))),
        evaluator.eval(&program, &mut NoHost)
    );
    let mut parser = Parser::new(Lexer::new("g()"));
    let program = parser.parse();
    assert_eq!(
        Ok(Some(Object::Error("wrong number of arguments. got=0, want=1".to_owned()))),
        evaluator.eval(&program, &mut NoHost)
    );
}

#[test]
fn test_interpret() {
    match interpret("1 + 2 * 3", &mut NoHost) {
        Outcome::Done(v) => assert_eq!(Some(Object::Int(7)), v),
        _ => panic!("not done"),
    }
    match interpret("let a = 3; let b ! 4;", &mut NoHost) {
        Outcome::Invalid(errors) => assert!(!errors.is_empty()),
        _ => panic!("not invalid"),
    }
    match interpret("let a = 99999999999999999999;", &mut NoHost) {
        Outcome::TooLarge => {},
        _ => panic!("not too large"),
    }
    match interpret("1 / 0", &mut NoHost) {
        Outcome::Failed(f) => assert_eq!(Fatal::DivisionByZero, f),
        _ => panic!("not failed"),
    }
    match interpret("if (false) { 1 }", &mut NoHost) {
        Outcome::Done(v) => assert_eq!(None, v),
        _ => panic!("not done"),
    }
    match interpret("\"a\\nb\"", &mut NoHost) {
        Outcome::Done(v) => assert_eq!(Some(Object::String("a\nb".to_owned())), v),
        _ => panic!("not done"),
    }
}

#[test]
fn test_scopes_do_not_pile_up() {
    let mut parser = Parser::new(Lexer::new(
        "let f = fn(n) { n + 1 }; let a = 0; while (a < 100) { a = f(a); } a",
    ));
    let program = parser.parse();
    let mut evaluator = Evaluator::new(Env::from(new_builtins()));
    assert_eq!(Ok(Some(Object::Int(100))), evaluator.eval(&program, &mut NoHost));
    assert_eq!(1, evaluator.env.len());
    assert_eq!(0, evaluator.env.current());

    let mut parser = Parser::new(Lexer::new(
        "let adder = fn(){ let x = 1; return fn(){ x = x + 1; x }; }; let g = adder(); g(); g();",
    ));
    let program = parser.parse();
    assert_eq!(Ok(Some(Object::Int(3))), evaluator.eval(&program, &mut NoHost));
    assert_eq!(2, evaluator.env.len());
    assert_eq!(0, evaluator.env.current());

    let mut parser = Parser::new(Lexer::new("let r = fn(n) { if (n == 0) { 0 } else { r(n - 1) } }; r(50)"));
    let program = parser.parse();
    assert_eq!(Ok(Some(Object::Int(0))), evaluator.eval(&program, &mut NoHost));
    assert_eq!(2, evaluator.env.len());
}

#[test]
fn test_default_depth() {
    assert_eq!(
        Some(Object::Int(0)),
        eval("let r = fn(n) { if (n == 0) { 0 } else { r(n - 1) } }; r(255)")
    );
    let mut parser = Parser::new(Lexer::new("let r = fn(n) { if (n == 0) { 0 } else { r(n - 1) } }; r(256)"));
    let program = parser.parse();
    let mut evaluator = Evaluator::new(Env::from(new_builtins()));
    assert_eq!(Err(Fatal::DepthExceeded), evaluator.eval(&program, &mut NoHost));
}

#[test]
fn test_long_loop() {
    let input = "let f = fn(n) { n + 1 }; let a = 0; let s = 0; while (a < 100000) { a = f(a); s = s + len([1, 2, 3]); } s";
    assert_eq!(Some(Object::Int(300000)), eval(input));
}
