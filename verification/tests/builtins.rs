use three_body_lang::ast::Ident;
use three_body_lang::evaluator::builtins::{new_builtins, random_accepts, random_value, sleep_millis, three_body_random, try_random};
use three_body_lang::evaluator::calls::call_builtin;
use three_body_lang::evaluator::host::{Host, Transcript};
use three_body_lang::evaluator::object::{Native, Object};
use three_body_lang::evaluator::values::{monkey_first, monkey_last, monkey_len, monkey_push, monkey_rest, three_body_deep_equal};

#[test]
fn builtins_test_monkey_len_string() {
    let args = vec![Object::String(String::from("hello"))];
    let expected = Object::Int(5);
    assert_eq!(monkey_len(&args), expected);
}

#[test]
fn builtins_test_monkey_len_array() {
    let args = vec![Object::Array(vec![
        Object::Int(1),
        Object::Int(2),
        Object::Int(3),
    ])];
    let expected = Object::Int(3);
    assert_eq!(monkey_len(&args), expected);
}

#[test]
fn builtins_test_monkey_len_error() {
    let args = vec![Object::Bool(true)];
    let expected = Object::Error(String::from("argument to `len` not supported, got true"));
    assert_eq!(monkey_len(&args), expected);
}

#[test]
fn builtins_test_monkey_first() {
    let args = vec![Object::Array(vec![
        Object::Int(1),
        Object::Int(2),
        Object::Int(3),
    ])];

    assert_eq!(monkey_first(&args), Object::Int(1));

    let args = vec![Object::Array(vec![])];
    assert_eq!(monkey_first(&args), Object::Null);
    let args = vec![Object::Int(1)];
    assert_eq!(
        monkey_first(&args),
        Object::Error("argument to `first` must be array. got 1".to_string())
    );
}

#[test]
fn builtins_test_monkey_last() {
    let arr = vec![Object::Int(1), Object::Int(2), Object::Int(3)];
    let args = vec![Object::Array(arr)];
    assert_eq!(monkey_last(&args), Object::Int(3));
}

#[test]
fn builtins_test_monkey_rest() {
    let tests = vec![
        (
            vec![Object::Array(vec![Object::Int(1), Object::Int(2)])],
            Object::Array(vec![Object::Int(2)]),
        ),
        (
            vec![Object::Array(vec![Object::Int(1)])],
            Object::Array(vec![]),
        ),
        (vec![Object::Array(vec![])], Object::Null),
        (
            vec![Object::Int(1)],
            Object::Error("argument to `rest` must be array. got 1".to_string()),
        ),
    ];

    for (input, expected) in tests {
        let got = monkey_rest(&input);
        assert_eq!(got, expected);
    }
}

#[test]
fn builtins_test_monkey_push() {
    let arr = vec![Object::Int(1), Object::Int(2)];
    let args = vec![Object::Array(arr), Object::Int(3)];
    let expected = Object::Array(vec![Object::Int(1), Object::Int(2), Object::Int(3)]);
    assert_eq!(monkey_push(&args), expected);
}

#[test]
fn test_three_body_deep_equal() {
    let tests = vec![
        (vec![Object::Int(1), Object::Int(1)], Object::Bool(true)),
        (vec![Object::Int(2), Object::Int(1)], Object::Bool(false)),
        (
            vec![
                Object::String(String::from("hello")),
                Object::String(String::from("hello")),
            ],
            Object::Bool(true),
        ),
        (
            vec![
                Object::String(String::from("hello")),
                Object::String(String::from("bye")),
            ],
            Object::Bool(false),
        ),
        (
            vec![Object::Bool(true), Object::Bool(true)],
            Object::Bool(true),
        ),
        (
            vec![Object::Bool(true), Object::Bool(false)],
            Object::Bool(false),
        ),
        (
            vec![
                Object::Array(vec![
                    Object::Int(1),
                    Object::Int(2),
                    Object::Int(3),
                    Object::String(String::from("hello")),
                    Object::Bool(true),
                    Object::Array(vec![Object::Int(1)]),
                ]),
                Object::Array(vec![
                    Object::Int(1),
                    Object::Int(2),
                    Object::Int(3),
                    Object::String(String::from("hello")),
                    Object::Bool(true),
                    Object::Array(vec![Object::Int(1)]),
                ]),
            ],
            Object::Bool(true),
        ),
        (
            vec![
                Object::Array(vec![
                    Object::Int(1),
                    Object::Int(2),
                    Object::Int(3),
                    Object::String(String::from("hello")),
                    Object::Bool(true),
                ]),
                Object::Array(vec![]),
            ],
            Object::Bool(false),
        ),
        (
            vec![
                Object::Hash(vec![(Object::String("a".to_string()), Object::Int(1))]),
                Object::Hash(vec![(Object::String("a".to_string()), Object::Int(1))]),
            ],
            Object::Bool(true),
        ),
        (
            vec![
                Object::Hash(vec![(Object::String("a".to_string()), Object::Int(1))]),
                Object::Hash(vec![(Object::String("b".to_string()), Object::Int(2))]),
            ],
            Object::Bool(false),
        ),
        (
            vec![
                Object::Builtin(1, Native::First),
                Object::Builtin(1, Native::First),
            ],
            Object::Bool(true),
        ),
        (
            vec![
                Object::Function(
                    vec![Ident(String::from("x"))],
                    vec![],
                    0,
                ),
                Object::Function(
                    vec![Ident(String::from("x"))],
                    vec![],
                    0,
                ),
            ],
            Object::Bool(true),
        ),
        (
            vec![
                Object::Function(
                    vec![Ident(String::from("x"))],
                    vec![],
                    0,
                ),
                Object::Function(
                    vec![Ident(String::from("y"))],
                    vec![],
                    0,
                ),
            ],
            Object::Bool(false),
        ),
        (
            vec![
                Object::Builtin(1, Native::First),
                Object::Function(
                    vec![Ident(String::from("x"))],
                    vec![],
                    0,
                ),
            ],
            Object::Bool(false),
        ),
        (
            vec![Object::Int(1), Object::String(String::from("2"))],
            Object::Bool(false),
        ),
    ];

    for (input, expected) in tests {
        let got = three_body_deep_equal(&input);
        assert_eq!(got, expected);
    }
}

#[test]
fn test_new_builtins() {
    let builtins = new_builtins();
    let names: Vec<&str> = builtins.iter().map(|b| b.0.as_str()).collect();
    assert_eq!(
        names,
        vec![
            "len",
            "first",
            "last",
            "rest",
            "push",
            "\u{5e7f}\u{64ad}",
            "\u{4e8c}\u{5411}\u{7b94}\u{6e05}\u{7406}",
            "\u{6bc1}\u{706d}",
            "\u{51ac}\u{7720}",
            "random",
            "\u{6ca1}\u{5173}\u{7cfb}\u{7684}\u{90fd}\u{4e00}\u{6837}",
            "\u{5bfb}\u{627e}",
            "import",
        ]
    );
    assert_eq!(builtins[0].1, Object::Builtin(1, Native::Len));
    assert_eq!(builtins[4].1, Object::Builtin(2, Native::Push));
    assert_eq!(builtins[6].1, Object::Builtin(0, Native::Host(builtins[6].0.clone())));
    assert_eq!(builtins[9].1, Object::Builtin(1, Native::Host("random".to_string())));
    assert_eq!(builtins[10].1, Object::Builtin(2, Native::DeepEqual));
}

#[test]
fn test_len_counts_bytes() {
    let args = vec![Object::String(String::from("\u{5e7f}\u{64ad}"))];
    assert_eq!(monkey_len(&args), Object::Int(6));
}

#[test]
fn test_random_stays_below() {
    for _ in 0..200 {
        match three_body_random(&vec![Object::Int(3)]) {
            Object::Int(v) => assert!(0 <= v && v < 3),
            _ => panic!("no integer"),
        }
    }
    assert_eq!(three_body_random(&vec![Object::Int(1)]), Object::Int(0));
    assert_eq!(three_body_random(&vec![Object::Bool(true)]), Object::Null);
    assert_eq!(try_random(&vec![Object::Int(0)]), None);
    assert_eq!(try_random(&vec![Object::Int(-4)]), None);
    assert_eq!(try_random(&vec![]), None);
    assert_eq!(try_random(&vec![Object::Null]), Some(Object::Null));
    assert_eq!(try_random(&vec![Object::Int(1)]), Some(Object::Int(0)));
    assert!(random_accepts(&vec![Object::Int(5)]));
    assert!(!random_accepts(&vec![Object::Int(0)]));
    assert_eq!(random_value(&Object::Int(9), 4), Object::Int(4));
    assert_eq!(random_value(&Object::Null, 4), Object::Null);
}

#[test]
fn test_sleep_millis() {
    assert_eq!(sleep_millis(&vec![Object::Int(20)]), Some(20));
    assert_eq!(sleep_millis(&vec![Object::Int(-1)]), None);
    assert_eq!(sleep_millis(&vec![Object::Null]), None);
    assert_eq!(sleep_millis(&vec![]), None);
}

#[test]
fn test_call_builtin() {
    let mut host = Transcript::new();
    assert_eq!(
        call_builtin(1, &Native::Len, vec![Object::Array(vec![])], &mut host),
        Object::Int(0)
    );
    assert_eq!(
        call_builtin(2, &Native::Len, vec![Object::Array(vec![])], &mut host),
        Object::Error("wrong number of arguments. got=1, want=2".to_string())
    );
    assert_eq!(
        call_builtin(-1, &Native::Push, vec![Object::Array(vec![])], &mut host),
        Object::Error("wrong number of arguments. got=1, want=2".to_string())
    );
    assert_eq!(
        call_builtin(-1, &Native::Host("x".to_string()), vec![Object::Int(1), Object::Int(2)], &mut host),
        Object::Null
    );
    assert_eq!(host.lines, vec!["1".to_string(), "2".to_string()]);
    assert_eq!(
        call_builtin(0, &Native::Host("x".to_string()), vec![Object::Int(1)], &mut host),
        Object::Error("wrong number of arguments. got=1, want=0".to_string())
    );
    assert_eq!(host.lines.len(), 2);
}

#[test]
fn test_three_body_puts() {
    let args = vec![
        Object::Int(1),
        Object::Bool(true),
        Object::String("hello".to_string()),
    ];
    let mut host = Transcript::new();
    assert_eq!(host.invoke("\u{5e7f}\u{64ad}", &args), Object::Null);
    assert_eq!(host.lines, vec!["1", "true", "\"hello\""]);
}
