use petal::ast::{ContextualNode, Node, Program};
use petal::eval::Fault;
use petal::errors::Stage;
use petal::op::Dyadic;
use petal::span::Span;

fn sp(start: usize, end: usize) -> Span {
    Span { start, end }
}

fn ctx(node: Node) -> ContextualNode {
    node.provide_context(sp(0, 1))
}

fn dyad(verb: Dyadic, lhs: Node, rhs: Node) -> Node {
    Node::DyadicOp { verb, lhs: Box::new(ctx(lhs)), rhs: Box::new(ctx(rhs)) }
}

fn program(tree: Vec<ContextualNode>) -> Program {
    Program { tree, path: String::from("#pet.eval"), text: String::from("") }
}

fn run_value(tree: Vec<ContextualNode>) -> String {
    let prog = program(tree);
    let (result, _ev) = prog.eval(1_000_000);
    result.expect("evaluation should succeed").0.pretty_print()
}

fn run_fault(tree: Vec<ContextualNode>) -> Fault {
    let prog = program(tree);
    let (result, _ev) = prog.eval(1_000_000);
    result.expect_err("evaluation should fail")
}

#[test]
fn arithmetic_precedence_value() {
    // let x = 2 + 3 * 4;  =>  14
    let tree = vec![ctx(Node::Declaration {
        ident: String::from("x"),
        typed: None,
        expr: Box::new(ctx(dyad(
            Dyadic::Add,
            Node::Int(2),
            dyad(Dyadic::Multiply, Node::Int(3), Node::Int(4)),
        ))),
    })];
    assert_eq!(run_value(tree), "14");
}

#[test]
fn string_concatenation() {
    // let s = "foo" + "bar"; s  =>  "foobar"
    let tree = vec![
        ctx(Node::Declaration {
            ident: String::from("s"),
            typed: None,
            expr: Box::new(ctx(dyad(
                Dyadic::Add,
                Node::Str(String::from("foo")),
                Node::Str(String::from("bar")),
            ))),
        }),
        ctx(Node::Ident(String::from("s"))),
    ];
    assert_eq!(run_value(tree), "\"foobar\"");
}

#[test]
fn array_len_intrinsic() {
    // let a = [1,2,3]; a.len()  =>  3
    let tree = vec![
        ctx(Node::Declaration {
            ident: String::from("a"),
            typed: None,
            expr: Box::new(ctx(Node::Array(vec![
                ctx(Node::Int(1)),
                ctx(Node::Int(2)),
                ctx(Node::Int(3)),
            ]))),
        }),
        ctx(Node::Index(
            Box::new(ctx(Node::Ident(String::from("a")))),
            vec![ctx(Node::FunctionCall { ident: String::from("len"), args: vec![] })],
        )),
    ];
    assert_eq!(run_value(tree), "3");
}

#[test]
fn array_join_intrinsic() {
    // let m = ["a","b","c"]; m.join(",")  =>  "a,b,c"
    let tree = vec![
        ctx(Node::Declaration {
            ident: String::from("m"),
            typed: None,
            expr: Box::new(ctx(Node::Array(vec![
                ctx(Node::Str(String::from("a"))),
                ctx(Node::Str(String::from("b"))),
                ctx(Node::Str(String::from("c"))),
            ]))),
        }),
        ctx(Node::Index(
            Box::new(ctx(Node::Ident(String::from("m")))),
            vec![ctx(Node::FunctionCall {
                ident: String::from("join"),
                args: vec![ctx(Node::Str(String::from(",")))],
            })],
        )),
    ];
    assert_eq!(run_value(tree), "\"a,b,c\"");
}

#[test]
fn while_loop_counts() {
    // let n = 0; while (n < 3) { n = n + 1; } n  =>  3
    let tree = vec![
        ctx(Node::Declaration {
            ident: String::from("n"),
            typed: None,
            expr: Box::new(ctx(Node::Int(0))),
        }),
        ctx(Node::LoopWhile {
            condition: Box::new(ctx(dyad(
                Dyadic::LessThan,
                Node::Ident(String::from("n")),
                Node::Int(3),
            ))),
            body: vec![ctx(Node::Assignment {
                ident: String::from("n"),
                expr: Box::new(ctx(dyad(
                    Dyadic::Add,
                    Node::Ident(String::from("n")),
                    Node::Int(1),
                ))),
            })],
        }),
        ctx(Node::Ident(String::from("n"))),
    ];
    assert_eq!(run_value(tree), "3");
}

#[test]
fn conditional_with_returns() {
    // if (1 == 2) { return 10; } else { return 20; }  =>  20
    let tree = vec![ctx(Node::Conditional {
        arms: vec![(
            ctx(dyad(Dyadic::Equality, Node::Int(1), Node::Int(2))),
            vec![ctx(Node::Return(Box::new(ctx(Node::Int(10)))))],
        )],
        else_arm: Some(vec![ctx(Node::Return(Box::new(ctx(Node::Int(20)))))]),
    })];
    assert_eq!(run_value(tree), "20");
}

#[test]
fn lambda_call_squares() {
    // let f = (x) => { return x * x; }; f(5)  =>  25
    let tree = vec![
        ctx(Node::Declaration {
            ident: String::from("f"),
            typed: None,
            expr: Box::new(ctx(Node::Lambda {
                args: vec![String::from("x")],
                return_type: None,
                body: vec![ctx(Node::Return(Box::new(ctx(dyad(
                    Dyadic::Multiply,
                    Node::Ident(String::from("x")),
                    Node::Ident(String::from("x")),
                )))))],
            })),
        }),
        ctx(Node::FunctionCall { ident: String::from("f"), args: vec![ctx(Node::Int(5))] }),
    ];
    assert_eq!(run_value(tree), "25");
}

#[test]
fn return_unwinds_to_top_level() {
    // if (true) { return 5; } 7  =>  5: the sentinel ends the program.
    let tree = vec![
        ctx(Node::Conditional {
            arms: vec![(
                ctx(Node::Bool(true)),
                vec![ctx(Node::Return(Box::new(ctx(Node::Int(5)))))],
            )],
            else_arm: None,
        }),
        ctx(Node::Int(7)),
    ];
    assert_eq!(run_value(tree), "5");
}

#[test]
fn coercion_failure_is_dyadic_error() {
    // 1 + true has no coercion path.
    let tree = vec![ctx(dyad(Dyadic::Add, Node::Int(1), Node::Bool(true)))];
    match run_fault(tree) {
        Fault::Diag(e) => assert_eq!(e.stage, Stage::Coercing),
        other => panic!("expected a diagnostic, got {:?}", other),
    }
}

#[test]
fn string_coercion_concatenates() {
    // 1 + "x" coerces the integer to a string.
    let tree = vec![ctx(dyad(Dyadic::Add, Node::Int(1), Node::Str(String::from("x"))))];
    assert_eq!(run_value(tree), "\"1x\"");
}

#[test]
fn unsupported_verb_is_dyadic_error() {
    // true - false supports no subtraction.
    let tree = vec![ctx(dyad(Dyadic::Subtract, Node::Bool(true), Node::Bool(false)))];
    match run_fault(tree) {
        Fault::Diag(e) => assert_eq!(e.stage, Stage::EvaluatingDyadic),
        other => panic!("expected a diagnostic, got {:?}", other),
    }
}

#[test]
fn redeclaration_is_setting_error() {
    // let a = 1; let a = 2;
    let tree = vec![
        ctx(Node::Declaration {
            ident: String::from("a"),
            typed: None,
            expr: Box::new(ctx(Node::Int(1))),
        }),
        ctx(Node::Declaration {
            ident: String::from("a"),
            typed: None,
            expr: Box::new(ctx(Node::Int(2))),
        }),
    ];
    match run_fault(tree) {
        Fault::Diag(e) => assert_eq!(e.stage, Stage::SettingVariable),
        other => panic!("expected a diagnostic, got {:?}", other),
    }
}

#[test]
fn unbound_assignment_is_assigning_error() {
    // b = 1;
    let tree = vec![ctx(Node::Assignment {
        ident: String::from("b"),
        expr: Box::new(ctx(Node::Int(1))),
    })];
    match run_fault(tree) {
        Fault::Diag(e) => assert_eq!(e.stage, Stage::AssigningVariable),
        other => panic!("expected a diagnostic, got {:?}", other),
    }
}

#[test]
fn keys_on_array_is_unknown_element() {
    // [1,2].keys(): arrays list no `keys` intrinsic, so the call step finds
    // no member and reports an unknown element.
    let tree = vec![ctx(Node::Index(
        Box::new(ctx(Node::Array(vec![ctx(Node::Int(1)), ctx(Node::Int(2))]))),
        vec![ctx(Node::FunctionCall { ident: String::from("keys"), args: vec![] })],
    ))];
    match run_fault(tree) {
        Fault::Diag(e) => assert_eq!(e.stage, Stage::EvaluatingIndex),
        other => panic!("expected a diagnostic, got {:?}", other),
    }
}

#[test]
fn join_with_non_string_separator_is_type_error() {
    // [1,2].join(5): the separator must be a string.
    let tree = vec![ctx(Node::Index(
        Box::new(ctx(Node::Array(vec![ctx(Node::Int(1)), ctx(Node::Int(2))]))),
        vec![ctx(Node::FunctionCall {
            ident: String::from("join"),
            args: vec![ctx(Node::Int(5))],
        })],
    ))];
    match run_fault(tree) {
        Fault::Diag(e) => assert_eq!(e.stage, Stage::CheckingTypes),
        other => panic!("expected a diagnostic, got {:?}", other),
    }
}

#[test]
fn unknown_identifier_is_finding_error() {
    let tree = vec![ctx(Node::Ident(String::from("missing")))];
    match run_fault(tree) {
        Fault::Diag(e) => assert_eq!(e.stage, Stage::FindingVariable),
        other => panic!("expected a diagnostic, got {:?}", other),
    }
}

#[test]
fn division_by_zero_is_guarded() {
    let tree = vec![ctx(dyad(Dyadic::Divide, Node::Int(1), Node::Int(0)))];
    match run_fault(tree) {
        Fault::Diag(e) => assert_eq!(e.stage, Stage::EvaluatingDyadic),
        other => panic!("expected a diagnostic, got {:?}", other),
    }
}

#[test]
fn evaluation_is_deterministic() {
    let build = || {
        vec![
            ctx(Node::Declaration {
                ident: String::from("x"),
                typed: None,
                expr: Box::new(ctx(dyad(Dyadic::Pow, Node::Int(2), Node::Int(10)))),
            }),
            ctx(Node::Ident(String::from("x"))),
        ]
    };
    let first = run_value(build());
    let second = run_value(build());
    assert_eq!(first, "1024");
    assert_eq!(first, second);
}

#[test]
fn print_appends_to_output() {
    // term.print(1, "x") writes a pretty line.
    let tree = vec![ctx(Node::Index(
        Box::new(ctx(Node::Ident(String::from("term")))),
        vec![ctx(Node::FunctionCall {
            ident: String::from("print"),
            args: vec![ctx(Node::Int(1)), ctx(Node::Str(String::from("x")))],
        })],
    ))];
    let prog = program(tree);
    let (result, ev) = prog.eval(1_000_000);
    assert!(result.is_ok());
    assert_eq!(ev.out.len(), 1);
    assert_eq!(ev.out[0], "1, \"x\"");
}

#[test]
fn exit_builtin_becomes_exit_fault() {
    // process.exit(3)
    let tree = vec![ctx(Node::Index(
        Box::new(ctx(Node::Ident(String::from("process")))),
        vec![ctx(Node::FunctionCall {
            ident: String::from("exit"),
            args: vec![ctx(Node::Int(3))],
        })],
    ))];
    match run_fault(tree) {
        Fault::Exit(code) => assert_eq!(code, 3),
        other => panic!("expected an exit fault, got {:?}", other),
    }
}

#[test]
fn map_intrinsic_applies_lambda() {
    // let f = (x) => { return x + 1; }; [1,2].map(f)  =>  [2, 3]
    let tree = vec![
        ctx(Node::Declaration {
            ident: String::from("f"),
            typed: None,
            expr: Box::new(ctx(Node::Lambda {
                args: vec![String::from("x")],
                return_type: None,
                body: vec![ctx(Node::Return(Box::new(ctx(dyad(
                    Dyadic::Add,
                    Node::Ident(String::from("x")),
                    Node::Int(1),
                )))))],
            })),
        }),
        ctx(Node::Index(
            Box::new(ctx(Node::Array(vec![ctx(Node::Int(1)), ctx(Node::Int(2))]))),
            vec![ctx(Node::FunctionCall {
                ident: String::from("map"),
                args: vec![ctx(Node::Ident(String::from("f")))],
            })],
        )),
    ];
    assert_eq!(run_value(tree), "[2, 3]");
}

#[test]
fn index_steps_into_array_element() {
    // [10, 20].1  =>  20 (numeric member lookup)
    let tree = vec![ctx(Node::Index(
        Box::new(ctx(Node::Array(vec![ctx(Node::Int(10)), ctx(Node::Int(20))]))),
        vec![ctx(Node::Int(1))],
    ))];
    assert_eq!(run_value(tree), "20");
}

#[test]
fn index_unknown_member_is_null() {
    let tree = vec![ctx(Node::Index(
        Box::new(ctx(Node::Array(vec![ctx(Node::Int(10))]))),
        vec![ctx(Node::Ident(String::from("nothing")))],
    ))];
    assert_eq!(run_value(tree), "null");
}

#[test]
fn string_split_on_separator() {
    // "a,b,c".split(",")  =>  ["a", "b", "c"]
    let tree = vec![ctx(Node::Index(
        Box::new(ctx(Node::Str(String::from("a,b,c")))),
        vec![ctx(Node::FunctionCall {
            ident: String::from("split"),
            args: vec![ctx(Node::Str(String::from(",")))],
        })],
    ))];
    assert_eq!(run_value(tree), "[\"a\", \"b\", \"c\"]");
}

#[test]
fn string_split_empty_separator_gives_characters() {
    // "abc".split()  =>  ["a", "b", "c"]
    let tree = vec![ctx(Node::Index(
        Box::new(ctx(Node::Str(String::from("abc")))),
        vec![ctx(Node::FunctionCall { ident: String::from("split"), args: vec![] })],
    ))];
    assert_eq!(run_value(tree), "[\"a\", \"b\", \"c\"]");
}

#[test]
fn to_string_intrinsic_renders_plainly() {
    // [1, 2].to_string()  =>  "[1, 2]"
    let tree = vec![ctx(Node::Index(
        Box::new(ctx(Node::Array(vec![ctx(Node::Int(1)), ctx(Node::Int(2))]))),
        vec![ctx(Node::FunctionCall { ident: String::from("to_string"), args: vec![] })],
    ))];
    assert_eq!(run_value(tree), "\"[1, 2]\"");
}

#[test]
fn out_of_fuel_is_reported() {
    // while (true) {} never ends; the fuel bound turns it into a fault.
    let tree = vec![ctx(Node::LoopWhile {
        condition: Box::new(ctx(Node::Bool(true))),
        body: vec![],
    })];
    let (result, _ev) = program(tree).eval(200);
    match result.expect_err("the loop must not end") {
        Fault::OutOfFuel => {},
        other => panic!("expected fuel exhaustion, got {:?}", other),
    }
}

#[test]
fn calling_a_non_function_is_call_error() {
    // let a = 1; a(2)
    let tree = vec![
        ctx(Node::Declaration {
            ident: String::from("a"),
            typed: None,
            expr: Box::new(ctx(Node::Int(1))),
        }),
        ctx(Node::FunctionCall { ident: String::from("a"), args: vec![ctx(Node::Int(2))] }),
    ];
    match run_fault(tree) {
        Fault::Diag(e) => assert_eq!(e.stage, Stage::EvaluatingFunctionCall),
        other => panic!("expected a diagnostic, got {:?}", other),
    }
}

#[test]
fn wrong_arity_is_argument_count_error() {
    // [1].len(9): len takes no argument beyond its self.
    let tree = vec![ctx(Node::Index(
        Box::new(ctx(Node::Array(vec![ctx(Node::Int(1))]))),
        vec![ctx(Node::FunctionCall {
            ident: String::from("len"),
            args: vec![ctx(Node::Int(9))],
        })],
    ))];
    match run_fault(tree) {
        Fault::Diag(e) => assert_eq!(e.stage, Stage::InvalidArgumentCount),
        other => panic!("expected a diagnostic, got {:?}", other),
    }
}

#[test]
fn exit_with_non_integer_is_argument_error() {
    // process.exit("x")
    let tree = vec![ctx(Node::Index(
        Box::new(ctx(Node::Ident(String::from("process")))),
        vec![ctx(Node::FunctionCall {
            ident: String::from("exit"),
            args: vec![ctx(Node::Str(String::from("x")))],
        })],
    ))];
    match run_fault(tree) {
        Fault::Diag(e) => assert_eq!(e.stage, Stage::InvalidArgument),
        other => panic!("expected a diagnostic, got {:?}", other),
    }
}

#[test]
fn unsupported_node_is_reported() {
    let tree = vec![ctx(Node::Terms(vec![]))];
    match run_fault(tree) {
        Fault::Unsupported(_) => {},
        other => panic!("expected the unsupported fault, got {:?}", other),
    }
}

#[test]
fn while_value_is_the_run_count() {
    // A loop whose condition never holds ran its body zero times.
    let tree = vec![ctx(Node::LoopWhile {
        condition: Box::new(ctx(Node::Bool(false))),
        body: vec![],
    })];
    assert_eq!(run_value(tree), "0");
}

#[test]
fn conditional_skips_non_true_conditions() {
    // A non-boolean condition does not take the arm; the else body runs.
    let tree = vec![ctx(Node::Conditional {
        arms: vec![(ctx(Node::Int(1)), vec![ctx(Node::Int(10))])],
        else_arm: Some(vec![ctx(Node::Int(20))]),
    })];
    // A conditional's own value is null unless a body returns.
    assert_eq!(run_value(tree), "null");
}

#[test]
fn negative_exponent_is_dyadic_error() {
    let tree = vec![ctx(dyad(Dyadic::Pow, Node::Int(2), Node::Int(-1)))];
    match run_fault(tree) {
        Fault::Diag(e) => assert_eq!(e.stage, Stage::EvaluatingDyadic),
        other => panic!("expected a diagnostic, got {:?}", other),
    }
}

#[test]
fn overflowing_arithmetic_is_dyadic_error() {
    let big = 170_141_183_460_469_231_731_687_303_715_884_105_727;
    let tree = vec![ctx(dyad(Dyadic::Add, Node::Int(big), Node::Int(1)))];
    match run_fault(tree) {
        Fault::Diag(e) => assert_eq!(e.stage, Stage::EvaluatingDyadic),
        other => panic!("expected a diagnostic, got {:?}", other),
    }
}

#[test]
fn nested_index_chains_resolve() {
    // [[7]].0.0  =>  7
    let tree = vec![ctx(Node::Index(
        Box::new(ctx(Node::Array(vec![ctx(Node::Array(vec![ctx(Node::Int(7))]))]))),
        vec![ctx(Node::Int(0)), ctx(Node::Int(0))],
    ))];
    assert_eq!(run_value(tree), "7");
}

#[test]
fn exit_without_argument_uses_code_zero() {
    let tree = vec![ctx(Node::Index(
        Box::new(ctx(Node::Ident(String::from("process")))),
        vec![ctx(Node::FunctionCall { ident: String::from("exit"), args: vec![] })],
    ))];
    match run_fault(tree) {
        Fault::Exit(code) => assert_eq!(code, 0),
        other => panic!("expected an exit fault, got {:?}", other),
    }
}

#[test]
fn clear_emits_the_ansi_sequence() {
    let tree = vec![ctx(Node::Index(
        Box::new(ctx(Node::Ident(String::from("term")))),
        vec![ctx(Node::FunctionCall { ident: String::from("clear"), args: vec![] })],
    ))];
    let (result, ev) = program(tree).eval(1_000_000);
    assert!(result.is_ok());
    assert_eq!(ev.out, vec![String::from("\x1B[2J\x1B[1;1H")]);
}

#[test]
fn string_index_yields_characters() {
    // "abc".1  =>  "b"
    let tree = vec![ctx(Node::Index(
        Box::new(ctx(Node::Str(String::from("abc")))),
        vec![ctx(Node::Int(1))],
    ))];
    assert_eq!(run_value(tree), "\"b\"");
}

#[test]
fn string_len_counts_utf8_bytes() {
    // "a\u{e9}".len()  =>  3: one byte for 'a', two for the accented letter.
    let tree = vec![ctx(Node::Index(
        Box::new(ctx(Node::Str(String::from("a\u{e9}")))),
        vec![ctx(Node::FunctionCall { ident: String::from("len"), args: vec![] })],
    ))];
    assert_eq!(run_value(tree), "3");
}
