use petal::ast::{ContextualNode, Node, Program};
use petal::builtins::get_builtin;
use petal::errors::{Error, Source, Stage};
use petal::eval::{eval, Evaluator, Fault};
use petal::intrinsics::{get_intrinsic, intr_entries, intr_keys, intr_values, list_instrinsics};
use petal::num::Int;
use petal::op::{Dyadic, get_dyadic, get_dyads, get_monads, get_mondaic, Mondaic};
use petal::repl::{get_snippet_from_line, hint_for_line, should_append_semicolon, CommandHint};
use petal::scope::Scope;
use petal::span::{extend, pair_span, Span};
use petal::tasks::MicrotaskScheduler;
use petal::text::{int_to_string, join_strings, str_eq};
use petal::value::{Kind, Object};

fn sp(start: usize, end: usize) -> Span {
    Span { start, end }
}

fn source() -> Source {
    Source { path: String::from("#pet.eval"), text: String::from("let a = 1;\nlet b = 2;\n") }
}

#[test]
fn fit_picks_narrowest_width() {
    assert!(matches!(Int::fit(7), Int::_8(7)));
    assert!(matches!(Int::fit(-128), Int::_8(-128)));
    assert!(matches!(Int::fit(300), Int::_16(300)));
    assert!(matches!(Int::fit(70_000), Int::_32(70_000)));
    assert!(matches!(Int::fit(5_000_000_000), Int::_64(5_000_000_000)));
    assert!(matches!(Int::fit(170_141_183_460_469_231_731_687_303_715_884_105_727), Int::_128(_)));
}

#[test]
fn fit_is_idempotent_on_carriers() {
    for value in [0i128, 1, -1, 127, 128, -129, 32767, 32768, 1 << 40, -(1 << 90)] {
        let once = Int::fit(value);
        let twice = Int::fit(once.to_max_value());
        assert_eq!(once, twice);
        assert_eq!(twice.to_max_value(), value);
    }
}

#[test]
fn coercion_is_symmetric_on_kinds() {
    let src = source();
    let a = Object::Integer(Int::fit(3)).anonymous();
    let b = Object::Str(String::from("x")).anonymous();
    let (l1, r1) = Object::coerce(a, b, &src).expect("string coercion");
    assert_eq!(l1.0.kind(), Kind::Str);
    assert_eq!(r1.0.kind(), Kind::Str);

    let a2 = Object::Str(String::from("x")).anonymous();
    let b2 = Object::Integer(Int::fit(3)).anonymous();
    let (l2, r2) = Object::coerce(a2, b2, &src).expect("string coercion mirrored");
    assert_eq!(l2.0.kind(), Kind::Str);
    assert_eq!(r2.0.kind(), Kind::Str);

    let a3 = Object::Bool(true).anonymous();
    let b3 = Object::Null.anonymous();
    let e = Object::coerce(a3, b3, &src).expect_err("no coercion path");
    assert_eq!(e.stage, Stage::Coercing);
    assert_eq!(e.error, "Cannot coerce bool -> null");
    let a4 = Object::Null.anonymous();
    let b4 = Object::Bool(true).anonymous();
    assert!(Object::coerce(a4, b4, &src).is_err());
}

#[test]
fn scope_shadowing_set_and_assign() {
    let src = source();
    let mut scope = Scope::new("root");
    scope
        .set(0, "x", Object::Integer(Int::fit(1)).anonymous(), sp(0, 1), &src)
        .expect("fresh declaration");
    let child = scope.new_child(0, "inner");
    // A declaration in the child leaves the parent's binding alone.
    scope
        .set(child, "x", Object::Integer(Int::fit(9)).anonymous(), sp(0, 1), &src)
        .expect("shadowing declaration");
    let in_child = scope.get(child, "x").expect("child binding");
    let in_parent = scope.get(0, "x").expect("parent binding");
    assert_eq!(in_child.0.to_display(), "9");
    assert_eq!(in_parent.0.to_display(), "1");
    // An assignment to a name the child does not bind rewrites the parent.
    scope
        .assign(child, "x", Object::Integer(Int::fit(5)).anonymous(), sp(0, 1), &src)
        .expect("assignment through the chain rewrites the child binding first");
    assert_eq!(scope.get(child, "x").expect("child binding").0.to_display(), "5");
    let grandchild = scope.new_child(child, "leaf");
    scope
        .assign(grandchild, "x", Object::Integer(Int::fit(7)).anonymous(), sp(0, 1), &src)
        .expect("assignment walks ancestors");
    assert_eq!(scope.get(child, "x").expect("child binding").0.to_display(), "7");
    assert_eq!(scope.get(0, "x").expect("parent binding").0.to_display(), "1");
}

#[test]
fn scope_rejects_redeclaration_and_unbound_assignment() {
    let src = source();
    let mut scope = Scope::new("root");
    scope
        .set(0, "x", Object::Bool(true).anonymous(), sp(0, 1), &src)
        .expect("fresh declaration");
    let e = scope
        .set(0, "x", Object::Bool(false).anonymous(), sp(0, 1), &src)
        .expect_err("duplicate declaration");
    assert_eq!(e.stage, Stage::SettingVariable);
    let e2 = scope
        .assign(0, "y", Object::Bool(false).anonymous(), sp(0, 1), &src)
        .expect_err("unbound assignment");
    assert_eq!(e2.stage, Stage::AssigningVariable);
}

#[test]
fn scope_get_falls_back_to_builtins() {
    let scope = Scope::new("root");
    let term = scope.get(0, "term").expect("term namespace");
    assert_eq!(term.0.kind(), Kind::Dict);
    assert!(scope.get(0, "nonsense").is_none());
    assert!(get_builtin("process").is_some());
    assert!(get_builtin("other").is_none());
}

#[test]
fn object_scope_binds_members_and_intrinsics() {
    let mut scope = Scope::new("root");
    let container = Object::Array(vec![
        Object::Integer(Int::fit(4)).anonymous(),
        Object::Integer(Int::fit(5)).anonymous(),
    ])
    .anonymous();
    let synth = scope.new_from_object(container, 0);
    let member = scope.get(synth, "1").expect("element under its index");
    assert_eq!(member.0.to_display(), "5");
    let method = scope.get(synth, "len").expect("intrinsic bound");
    assert_eq!(method.0.kind(), Kind::Builtin);
    let slf = scope.get_self(synth).expect("self bound to the container");
    assert_eq!(slf.0.kind(), Kind::Array);
}

#[test]
fn intrinsic_tables_are_closed() {
    for typed in ["string", "array", "map", "promise", "int"] {
        let names = list_instrinsics(typed);
        assert!(!names.is_empty());
        for name in &names {
            let intrinsic = get_intrinsic(name.as_str())
                .expect("every listed intrinsic resolves");
            match intrinsic.0 {
                Object::Builtin(n, needs_self, _) => {
                    assert_eq!(&n, name);
                    assert!(needs_self);
                },
                other => panic!("intrinsic is not a builtin: {:?}", other),
            }
        }
    }
    assert!(get_intrinsic("nonsense").is_none());
}

#[test]
fn operator_tables_round_trip() {
    for symbol in get_dyads() {
        let verb = get_dyadic(symbol.clone()).expect("listed symbol parses");
        assert_eq!(verb.to_symbol(), symbol);
    }
    for symbol in get_monads() {
        let verb = get_mondaic(symbol.clone()).expect("listed symbol parses");
        assert_eq!(verb.to_symbol(), symbol);
    }
    assert_eq!(get_dyadic(String::from("**")), Some(Dyadic::Pow));
    assert_eq!(get_dyadic(String::from("?")), None);
    assert_eq!(get_mondaic(String::from("!")), Some(Mondaic::Negate));
}

#[test]
fn rendering_follows_the_documented_shapes() {
    assert_eq!(int_to_string(0), "0");
    assert_eq!(int_to_string(-5), "-5");
    assert_eq!(int_to_string(1234567890123), "1234567890123");
    let arr = Object::Array(vec![
        Object::Integer(Int::fit(1)).anonymous(),
        Object::Str(String::from("x")).anonymous(),
    ]);
    assert_eq!(arr.to_display(), "[1, x]");
    assert_eq!(arr.pretty_print(), "[1, \"x\"]");
    assert_eq!(Object::Null.to_display(), "null");
    assert_eq!(Object::Bool(true).pretty_print(), "true");
    let b = Object::Builtin(String::from("len"), true, petal::value::BuiltinKind::Len);
    assert_eq!(b.to_display(), "#pet.builtin(len)");
    assert_eq!(Object::Integer(Int::fit(-42)).typed(), "int");
}

#[test]
fn span_extent_covers_all() {
    let spans = vec![sp(4, 9), sp(2, 5), sp(6, 7)];
    let all = extend(&spans);
    assert_eq!((all.start, all.end), (2, 9));
    let none = extend(&vec![]);
    assert_eq!((none.start, none.end), (0, 0));
    let two = pair_span(sp(3, 4), sp(1, 2));
    assert_eq!((two.start, two.end), (1, 4));
}

#[test]
fn error_positions_are_line_and_column() {
    let src = source();
    let e = Error::new(Stage::FindingVariable, String::from("m"), None, sp(11, 14), &src);
    // The span starts at the first character of the second line.
    assert_eq!(e.position, (2, 1));
    assert_eq!(e.length, 3);
    assert_eq!(e.stage.label(), "finding variable");
    assert_eq!(e.during_process(), "Failed while finding variable");
}

#[test]
fn text_helpers_agree() {
    assert!(str_eq("abc", "abc"));
    assert!(!str_eq("abc", "abd"));
    assert!(!str_eq("abc", "ab"));
    let parts = vec![String::from("a"), String::from("b"), String::from("c")];
    assert_eq!(join_strings(&parts, ", "), "a, b, c");
    assert_eq!(join_strings(&vec![], "-"), "");
}

#[test]
fn repl_line_helpers() {
    assert!(should_append_semicolon("let x = 1"));
    assert!(!should_append_semicolon("struct Foo"));
    assert!(!should_append_semicolon("return 3"));
    let (snip, cut) = get_snippet_from_line("let ab = foo.ba");
    assert_eq!(snip, "ba");
    assert_eq!(cut, 13);
    let hint = CommandHint(String::from("barely"));
    assert_eq!(hint.suffix(3).0, "ely");
}

#[test]
fn repl_hint_picks_closest_candidate() {
    let candidates = vec![String::from("letter"), String::from("let"), String::from("fn")];
    let hinted = hint_for_line("le", 2, &candidates).expect("candidate fits");
    // Both "letter" and "let" fit and stray equally little; the earliest wins.
    assert_eq!(hinted.0, "tter");
    assert!(hint_for_line("zz", 2, &candidates).is_none());
    assert!(hint_for_line("", 0, &candidates).is_none());
}

#[test]
fn scheduler_dispatches_fifo() {
    let mut sched = MicrotaskScheduler::new(2);
    let first = sched.submit_with_id(String::from("a"), vec![Node::Int(1).provide_context(sp(0, 1))]);
    let _second = sched.submit_with_id(String::from("b"), vec![Node::Int(2).provide_context(sp(0, 1))]);
    match first.0 {
        Object::Promise(_, id) => assert_eq!(id, "a"),
        other => panic!("expected a promise, got {:?}", other),
    }
    let (worker, task) = sched.tick().expect("idle worker and queued task");
    assert_eq!(worker, 1);
    assert_eq!(task.id, "a");
    let (worker2, task2) = sched.tick().expect("second dispatch");
    assert_eq!(worker2, 0);
    assert_eq!(task2.id, "b");
    assert!(sched.tick().is_none());
    sched.release(worker2);
    assert!(sched.tick().is_none());
}

#[test]
fn scheduler_records_and_takes_results() {
    let mut sched = MicrotaskScheduler::new(0);
    assert!(sched.take_result("p").is_none());
    sched.record_result(String::from("p"), Object::Integer(Int::fit(8)).anonymous());
    let got = sched.take_result("p").expect("recorded result");
    assert_eq!(got.0.to_display(), "8");
    assert!(sched.take_result("p").is_none());
}

#[test]
fn fresh_promise_ids_have_uuid_shape() {
    let mut sched = MicrotaskScheduler::new(0);
    let handle = sched.submit(vec![Node::Null.provide_context(sp(0, 0))]);
    match handle.0 {
        Object::Promise(_, id) => assert_eq!(id.chars().count(), 36),
        other => panic!("expected a promise, got {:?}", other),
    }
}

#[test]
fn await_takes_recorded_result() {
    let src = Source { path: String::from("#pet.eval"), text: String::new() };
    let promise = Object::Promise(String::from(""), String::from("p1"));
    let mut scope = Scope::new("#pet.repl");
    scope
        .set(0, "p", promise.anonymous(), sp(0, 1), &src)
        .expect("binding the promise");
    let mut ev = Evaluator {
        scope,
        out: Vec::new(),
        promises: vec![(String::from("p1"), Object::Integer(Int::fit(41)).anonymous())],
        src,
    };
    // p.await(): index into the promise and call its intrinsic.
    let awaiting = || -> Vec<ContextualNode> {
        vec![Node::Index(
            Box::new(Node::Ident(String::from("p")).provide_context(sp(0, 1))),
            vec![Node::FunctionCall { ident: String::from("await"), args: vec![] }
                .provide_context(sp(0, 1))],
        )
        .provide_context(sp(0, 1))]
    };
    let prog = Program { tree: awaiting(), path: String::from("#pet.eval"), text: String::new() };
    let got = eval(&prog, &mut ev, 0, 100_000).expect("recorded promise resolves");
    assert_eq!(got.0.to_display(), "41");
    assert!(ev.promises.is_empty());

    // A second await finds nothing recorded and reports the pending id.
    let prog2 = Program { tree: awaiting(), path: String::from("#pet.eval"), text: String::new() };
    match eval(&prog2, &mut ev, 0, 100_000) {
        Err(Fault::Pending(id)) => assert_eq!(id, "p1"),
        other => panic!("expected a pending promise, got {:?}", other),
    }
}

#[test]
fn map_entries_intrinsics_agree() {
    let src = source();
    let dict = Object::Dict(vec![
        (
            Object::Str(String::from("a")).anonymous(),
            Object::Integer(Int::fit(1)).anonymous(),
        ),
        (
            Object::Str(String::from("b")).anonymous(),
            Object::Integer(Int::fit(2)).anonymous(),
        ),
    ])
    .anonymous();
    let args = vec![dict];
    let keys = intr_keys(&args, &src).expect("keys of a map");
    assert_eq!(keys.0.to_display(), "[a, b]");
    let values = intr_values(&args, &src).expect("values of a map");
    assert_eq!(values.0.to_display(), "[1, 2]");
    let entries = intr_entries(&args, &src).expect("entries of a map");
    assert_eq!(entries.0.to_display(), "[[a, 1], [b, 2]]");
}

#[test]
fn scope_to_object_draws_the_frame() {
    let src = source();
    let mut scope = Scope::new("root");
    scope
        .set(0, "x", Object::Integer(Int::fit(3)).anonymous(), sp(0, 1), &src)
        .expect("fresh declaration");
    let picture = scope.to_object(0);
    assert_eq!(
        picture.0.to_display(),
        "{name: root, parent: none, self: null, store: {x: 3}}"
    );
    assert_eq!(scope.list_vars(0), vec![String::from("x")]);
}

#[test]
fn bindings_are_presented_in_key_order() {
    let src = source();
    let mut scope = Scope::new("root");
    for name in ["zeta", "alpha", "mid"] {
        scope
            .set(0, name, Object::Integer(Int::fit(1)).anonymous(), sp(0, 1), &src)
            .expect("fresh declaration");
    }
    assert_eq!(
        scope.list_vars(0),
        vec![String::from("alpha"), String::from("mid"), String::from("zeta")]
    );
    let picture = scope.to_object(0);
    assert_eq!(
        picture.0.to_display(),
        "{name: root, parent: none, self: null, store: {alpha: 1, mid: 1, zeta: 1}}"
    );
}
