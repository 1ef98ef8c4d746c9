use vstd::prelude::*;
use vstd::string::StringExecFns;
use crate::ast::{arms_view, ContextualNode, ctx_node_view, CtxNodeView, lemma_arms_view_index, lemma_arms_view_len, lemma_nodes_view_index, lemma_nodes_view_len, Node, NodeView, nodes_view, Program};
use crate::errors::{Error, ErrView, Source, Stage};
use crate::num::Int;
use crate::op::Dyadic;
use crate::span::{pair_span, Span, spec_pair_span};
use crate::text::{spec_join, strs_view};
use crate::value::{
    anon_view, ContextualObject, ctx_obj_view, CtxObjView, Kind, kind_of, Object, ObjView,
    objs_view,
};

verus! {

/// Why an evaluation stopped without a value: a diagnostic, exhausted fuel,
/// a requested process exit, or a promise whose result is not yet recorded.
#[derive(Debug)]
pub enum Fault {
    Diag(Error),
    OutOfFuel,
    Exit(i128),
    Pending(String),
    Unsupported(Span),
}

/// Model of a fault.
pub enum FaultView {
    Diag(ErrView),
    OutOfFuel,
    Exit(int),
    Pending(Seq<char>),
    Unsupported(Span),
}

/// The model of a fault.
pub open spec fn fault_view(f: Fault) -> FaultView {
    match f {
        Fault::Diag(e) => FaultView::Diag(e@),
        Fault::OutOfFuel => FaultView::OutOfFuel,
        Fault::Exit(c) => FaultView::Exit(c as int),
        Fault::Pending(id) => FaultView::Pending(id@),
        Fault::Unsupported(s) => FaultView::Unsupported(s),
    }
}

impl View for Fault {
    type V = FaultView;

    open spec fn view(&self) -> FaultView {
        fault_view(*self)
    }
}

/// The models of the recorded promise results.
pub open spec fn promises_view(p: Seq<(String, ContextualObject)>) -> Seq<(Seq<char>, CtxObjView)> {
    Seq::new(p.len(), |i: int| (p[i].0@, ctx_obj_view(p[i].1)))
}

/// Everything an evaluation step may read or change besides its own frame
/// handle: the scope frames, the lines printed so far, and the recorded
/// promise results.
pub struct StateView {
    pub scope: Seq<crate::scope::FrameView>,
    pub out: Seq<Seq<char>>,
    pub promises: Seq<(Seq<char>, CtxObjView)>,
}

/// A step's outcome: its result and the state it leaves.
pub struct StepView {
    pub res: Result<CtxObjView, FaultView>,
    pub st: StateView,
}

/// An argument list evaluation's outcome.
pub struct ArgsView {
    pub res: Result<Seq<CtxObjView>, FaultView>,
    pub st: StateView,
}

/// A mathematical value fits the widest integer carrier.
pub open spec fn in_i128(v: int) -> bool {
    i128::MIN <= v <= i128::MAX
}

/// The power `x^e`, with every intermediate product held to the widest
/// integer carrier; exceeding it anywhere is `None`.
pub open spec fn spec_checked_pow(x: int, e: nat) -> Option<int>
    decreases e,
{
    if e == 0 {
        Some(1)
    } else {
        match spec_checked_pow(x, (e - 1) as nat) {
            None => None,
            Some(p) => if in_i128(x * p) {
                Some(x * p)
            } else {
                None
            },
        }
    }
}

/// Once a power overflows it stays overflowed.
proof fn lemma_checked_pow_none(x: int, k: nat, e: nat)
    requires
        k <= e,
        spec_checked_pow(x, k) is None,
    ensures
        spec_checked_pow(x, e) is None,
    decreases e,
{
    if e > k {
        lemma_checked_pow_none(x, k, (e - 1) as nat);
    }
}

/// What a binary operator yields on two operands already coerced to one
/// kind, and which uses are errors: integer and float arithmetic and
/// comparison (floats are outside this library), boolean equality and
/// connectives, string concatenation and equality. Division by zero and any
/// arithmetic that leaves the widest carrier are `evaluating dyadic`
/// errors, as are operators a kind does not support.
pub open spec fn spec_dyad(verb: Dyadic, a: CtxObjView, b: CtxObjView, span: Span) -> Result<
    CtxObjView,
    ErrView,
> {
    let fail = Err::<CtxObjView, ErrView>(
        ErrView { stage: Stage::EvaluatingDyadic, span },
    );
    match (a.obj, b.obj) {
        (ObjView::Integer(x), ObjView::Integer(y)) => match verb {
            Dyadic::Add => if in_i128(x + y) {
                Ok(CtxObjView { obj: ObjView::Integer(x + y), span })
            } else {
                fail
            },
            Dyadic::Subtract => if in_i128(x - y) {
                Ok(CtxObjView { obj: ObjView::Integer(x - y), span })
            } else {
                fail
            },
            Dyadic::Multiply => if in_i128(x * y) {
                Ok(CtxObjView { obj: ObjView::Integer(x * y), span })
            } else {
                fail
            },
            Dyadic::Divide => if y != 0 && in_i128(spec_div_trunc(x, y)) {
                Ok(CtxObjView { obj: ObjView::Integer(spec_div_trunc(x, y)), span })
            } else {
                fail
            },
            Dyadic::Pow => if 0 <= y <= u32::MAX && spec_checked_pow(x, y as nat) is Some {
                Ok(
                    CtxObjView {
                        obj: ObjView::Integer(spec_checked_pow(x, y as nat)->0),
                        span,
                    },
                )
            } else {
                fail
            },
            Dyadic::Equality => Ok(CtxObjView { obj: ObjView::Bool(x == y), span }),
            Dyadic::GreaterThan => Ok(CtxObjView { obj: ObjView::Bool(x > y), span }),
            Dyadic::LessThan => Ok(CtxObjView { obj: ObjView::Bool(x < y), span }),
            Dyadic::GreaterThanOrEqual => Ok(CtxObjView { obj: ObjView::Bool(x >= y), span }),
            Dyadic::LessThanOrEqual => Ok(CtxObjView { obj: ObjView::Bool(x <= y), span }),
            _ => fail,
        },
        (ObjView::Bool(x), ObjView::Bool(y)) => match verb {
            Dyadic::Equality => Ok(CtxObjView { obj: ObjView::Bool(x == y), span }),
            Dyadic::Or => Ok(CtxObjView { obj: ObjView::Bool(x || y), span }),
            Dyadic::And => Ok(CtxObjView { obj: ObjView::Bool(x && y), span }),
            _ => fail,
        },
        (ObjView::Str(x), ObjView::Str(y)) => match verb {
            Dyadic::Add => Ok(CtxObjView { obj: ObjView::Str(x + y), span }),
            Dyadic::Equality => Ok(CtxObjView { obj: ObjView::Bool(x == y), span }),
            _ => fail,
        },
        _ => fail,
    }
}

/// Division truncated towards zero, as the host's integer division rounds.
pub open spec fn spec_div_trunc(x: int, d: int) -> int {
    if x == 0 {
        0
    } else if x > 0 && d > 0 {
        x / d
    } else if x < 0 && d < 0 {
        (x * -1) / (d * -1)
    } else if x < 0 {
        ((x * -1) / d) * -1
    } else {
        (x / (d * -1)) * -1
    }
}

fn checked_pow_exec(x: i128, e: u32) -> (r: Option<i128>)
    ensures
        match r {
            Some(v) => spec_checked_pow(x as int, e as nat) == Some(v as int),
            None => spec_checked_pow(x as int, e as nat) is None,
        },
{
    let mut acc: i128 = 1;
    let mut k: u32 = 0;
    while k < e
        invariant
            0 <= k <= e,
            spec_checked_pow(x as int, k as nat) == Some(acc as int),
        decreases e - k,
    {
        let ghost e1: nat = (k + 1) as nat;
        proof {
            assert(e1 != 0);
            assert((e1 - 1) as nat == k as nat);
            assert(spec_checked_pow(x as int, (e1 - 1) as nat) == Some(acc as int));
        }
        match acc.checked_mul(x) {
            Some(next) => {
                proof {
                    assert(next as int == (acc as int) * (x as int));
                    assert((x as int) * (acc as int) == (acc as int) * (x as int)) by (nonlinear_arith);
                    assert(spec_checked_pow(x as int, e1) == Some(next as int));
                }
                acc = next;
            },
            None => {
                proof {
                    assert(!in_i128((acc as int) * (x as int)));
                    assert((x as int) * (acc as int) == (acc as int) * (x as int)) by (nonlinear_arith);
                    assert(spec_checked_pow(x as int, e1) is None);
                    lemma_checked_pow_none(x as int, e1, e as nat);
                }
                return None;
            },
        }
        k += 1;
    }
    Some(acc)
}

/// Apply a binary operator to two operands already coerced to one kind.
pub fn apply_dyad(verb: Dyadic, a: ContextualObject, b: ContextualObject, span: Span, src: &Source)
    -> (r: Result<ContextualObject, Error>)
    requires
        src.wf(),
    ensures
        r matches Ok(v) ==> spec_dyad(verb, a@, b@, span) matches Ok(sv) && sv == v@,
        r matches Err(e) ==> spec_dyad(verb, a@, b@, span) matches Err(ev) && ev == e@,
        r is Ok <==> spec_dyad(verb, a@, b@, span) is Ok,
{
    match (&a.0, &b.0) {
        (Object::Integer(xa), Object::Integer(ya)) => {
            let x = xa.to_max_value();
            let y = ya.to_max_value();
            let outcome: Option<Object> = match verb {
                Dyadic::Add => match x.checked_add(y) {
                    Some(v) => Some(Object::Integer(Int::fit(v))),
                    None => None,
                },
                Dyadic::Subtract => match x.checked_sub(y) {
                    Some(v) => Some(Object::Integer(Int::fit(v))),
                    None => None,
                },
                Dyadic::Multiply => match x.checked_mul(y) {
                    Some(v) => Some(Object::Integer(Int::fit(v))),
                    None => None,
                },
                Dyadic::Divide => match x.checked_div(y) {
                    Some(v) => Some(Object::Integer(Int::fit(v))),
                    None => None,
                },
                Dyadic::Pow => {
                    if y < 0 || y > u32::MAX as i128 {
                        None
                    } else {
                        match checked_pow_exec(x, y as u32) {
                            Some(v) => Some(Object::Integer(Int::fit(v))),
                            None => None,
                        }
                    }
                },
                Dyadic::Equality => Some(Object::Bool(x == y)),
                Dyadic::GreaterThan => Some(Object::Bool(x > y)),
                Dyadic::LessThan => Some(Object::Bool(x < y)),
                Dyadic::GreaterThanOrEqual => Some(Object::Bool(x >= y)),
                Dyadic::LessThanOrEqual => Some(Object::Bool(x <= y)),
                _ => None,
            };
            match outcome {
                Some(o) => Ok(o.provide_context(span)),
                None => Err(dyad_error(verb, &a, None, span, src)),
            }
        },
        (Object::Bool(x), Object::Bool(y)) => {
            let outcome: Option<Object> = match verb {
                Dyadic::Equality => Some(Object::Bool(*x == *y)),
                Dyadic::Or => Some(Object::Bool(*x || *y)),
                Dyadic::And => Some(Object::Bool(*x && *y)),
                _ => None,
            };
            match outcome {
                Some(o) => Ok(o.provide_context(span)),
                None => Err(dyad_error(verb, &a, None, span, src)),
            }
        },
        (Object::Str(x), Object::Str(y)) => {
            match verb {
                Dyadic::Add => {
                    let joined = x.clone().concat(y.as_str());
                    Ok(Object::Str(joined).provide_context(span))
                },
                Dyadic::Equality => {
                    let eq = crate::text::str_eq(x.as_str(), y.as_str());
                    Ok(Object::Bool(eq).provide_context(span))
                },
                _ => {
                    let hint = String::from_str(
                        "You can still use '+' to concat, and '==' to compare strings.",
                    );
                    Err(dyad_error(verb, &a, Some(hint), span, src))
                },
            }
        },
        _ => Err(dyad_error(verb, &a, None, span, src)),
    }
}

fn dyad_error(verb: Dyadic, a: &ContextualObject, hint: Option<String>, span: Span, src: &Source)
    -> (r: Error)
    requires
        src.wf(),
    ensures
        r@ == (ErrView { stage: Stage::EvaluatingDyadic, span }),
{
    let msg = String::from_str("can't use verb ").concat(verb.to_symbol().as_str()).concat(
        " on type ",
    ).concat(a.0.typed().as_str());
    Error::new(Stage::EvaluatingDyadic, msg, hint, span, src)
}

/// The recorded result of a promise, if any: the first record under the id.
pub open spec fn spec_promises_lookup(p: Seq<(Seq<char>, CtxObjView)>, id: Seq<char>) -> Option<
    CtxObjView,
>
    decreases p.len(),
{
    if p.len() == 0 {
        None
    } else if p[0].0 == id {
        Some(p[0].1)
    } else {
        spec_promises_lookup(p.subrange(1, p.len() as int), id)
    }
}

/// The promise table without the first record under the id.
pub open spec fn spec_promises_remove(p: Seq<(Seq<char>, CtxObjView)>, id: Seq<char>) -> Seq<
    (Seq<char>, CtxObjView),
>
    decreases p.len(),
{
    if p.len() == 0 {
        p
    } else if p[0].0 == id {
        p.subrange(1, p.len() as int)
    } else {
        seq![p[0]] + spec_promises_remove(p.subrange(1, p.len() as int), id)
    }
}

/// The pretty renderings of a call's arguments.
pub open spec fn spec_pretty_args(args: Seq<CtxObjView>) -> Seq<Seq<char>> {
    Seq::new(args.len(), |i: int| crate::value::spec_pretty(args[i].obj))
}

/// A pure intrinsic's outcome, lifted into a step.
pub open spec fn spec_lift(r: Result<CtxObjView, ErrView>, st: StateView) -> StepView {
    match r {
        Ok(v) => StepView { res: Ok(v), st },
        Err(e) => StepView { res: Err(FaultView::Diag(e)), st },
    }
}

/// The scope with one frame's name tag rewritten.
pub open spec fn spec_rename_frame(
    s: Seq<crate::scope::FrameView>,
    i: int,
    name: Seq<char>,
) -> Seq<crate::scope::FrameView> {
    s.update(
        i,
        crate::scope::FrameView {
            name,
            store: s[i].store,
            parent: s[i].parent,
            slf: s[i].slf,
        },
    )
}

/// The call frame's bindings: each parameter name declared strictly, in
/// order; a repeated parameter name fails like any repeated declaration.
pub open spec fn spec_bind_params(
    s: Seq<crate::scope::FrameView>,
    frame: int,
    params: Seq<Seq<char>>,
    args: Seq<CtxObjView>,
    i: int,
) -> Result<Seq<crate::scope::FrameView>, Seq<crate::scope::FrameView>>
    decreases params.len() - i,
{
    if i < 0 || i >= params.len() {
        Ok(s)
    } else {
        match crate::scope::spec_scope_set(s, frame, params[i], args[i]) {
            Ok(s2) => spec_bind_params(s2, frame, params, args, i + 1),
            Err(_) => Err(s),
        }
    }
}

/// One node's value under a scope frame: the big-step semantics of the
/// language, stated as a function of the node, the state and the fuel.
/// Every recursive step burns one unit of fuel; exhaustion is the
/// `OutOfFuel` fault. The executable evaluator is proved to follow this
/// function clause by clause.
pub open spec fn spec_step(node: CtxNodeView, st: StateView, cur: int, fuel: nat) -> StepView
    decreases fuel,
{
    if fuel == 0 {
        StepView { res: Err(FaultView::OutOfFuel), st }
    } else {
        let f = (fuel - 1) as nat;
        match node.node {
            NodeView::Int(v) => StepView {
                res: Ok(CtxObjView { obj: ObjView::Integer(v), span: node.span }),
                st,
            },
            NodeView::Bool(v) => StepView {
                res: Ok(CtxObjView { obj: ObjView::Bool(v), span: node.span }),
                st,
            },
            NodeView::Str(v) => StepView {
                res: Ok(CtxObjView { obj: ObjView::Str(v), span: node.span }),
                st,
            },
            NodeView::Null => StepView {
                res: Ok(CtxObjView { obj: ObjView::Null, span: node.span }),
                st,
            },
            NodeView::Array(elems) => {
                let ar = spec_eval_args(elems, st, cur, f);
                match ar.res {
                    Ok(vals) => StepView {
                        res: Ok(CtxObjView { obj: ObjView::Array(vals), span: node.span }),
                        st: ar.st,
                    },
                    Err(fv) => StepView { res: Err(fv), st: ar.st },
                }
            },
            NodeView::DyadicOp { verb, lhs, rhs } => {
                let r1 = spec_step(*lhs, st, cur, f);
                match r1.res {
                    Err(fv) => StepView { res: Err(fv), st: r1.st },
                    Ok(lv) => {
                        let r2 = spec_step(*rhs, r1.st, cur, f);
                        match r2.res {
                            Err(fv) => StepView { res: Err(fv), st: r2.st },
                            Ok(rv) => {
                                let span = spec_pair_span(lv.span, rv.span);
                                match crate::value::spec_coerce(lv, rv) {
                                    Err(e) => StepView {
                                        res: Err(FaultView::Diag(e)),
                                        st: r2.st,
                                    },
                                    Ok(p) => spec_lift(spec_dyad(verb, p.0, p.1, span), r2.st),
                                }
                            },
                        }
                    },
                }
            },
            NodeView::Declaration { ident, typed: _, expr } => {
                let r1 = spec_step(*expr, st, cur, f);
                match r1.res {
                    Err(fv) => StepView { res: Err(fv), st: r1.st },
                    Ok(v) => match crate::scope::spec_scope_set(r1.st.scope, cur, ident, v) {
                        Ok(s2) => StepView {
                            res: Ok(v),
                            st: StateView { scope: s2, out: r1.st.out, promises: r1.st.promises },
                        },
                        Err(_) => StepView {
                            res: Err(
                                FaultView::Diag(
                                    ErrView { stage: Stage::SettingVariable, span: node.span },
                                ),
                            ),
                            st: r1.st,
                        },
                    },
                }
            },
            NodeView::Assignment { ident, expr } => {
                let r1 = spec_step(*expr, st, cur, f);
                match r1.res {
                    Err(fv) => StepView { res: Err(fv), st: r1.st },
                    Ok(v) => match crate::scope::spec_scope_assign(r1.st.scope, cur, ident, v) {
                        Ok(s2) => StepView {
                            res: Ok(v),
                            st: StateView { scope: s2, out: r1.st.out, promises: r1.st.promises },
                        },
                        Err(_) => StepView {
                            res: Err(
                                FaultView::Diag(
                                    ErrView { stage: Stage::AssigningVariable, span: node.span },
                                ),
                            ),
                            st: r1.st,
                        },
                    },
                }
            },
            NodeView::Return(expr) => {
                let r1 = spec_step(*expr, st, cur, f);
                match r1.res {
                    Err(fv) => StepView { res: Err(fv), st: r1.st },
                    Ok(v) => StepView {
                        res: Ok(
                            CtxObjView { obj: ObjView::Return(Box::new(v)), span: node.span },
                        ),
                        st: r1.st,
                    },
                }
            },
            NodeView::Ident(name) => match crate::scope::spec_scope_get(st.scope, cur, name) {
                Some(v) => StepView { res: Ok(v), st },
                None => StepView {
                    res: Err(
                        FaultView::Diag(
                            ErrView { stage: Stage::FindingVariable, span: node.span },
                        ),
                    ),
                    st,
                },
            },
            NodeView::FunctionCall { ident, args } => {
                match crate::scope::spec_scope_get(st.scope, cur, ident) {
                    None => StepView {
                        res: Err(
                            FaultView::Diag(
                                ErrView { stage: Stage::EvaluatingFunctionCall, span: node.span },
                            ),
                        ),
                        st,
                    },
                    Some(callee) => {
                        if kind_of(callee.obj) == Kind::Builtin || kind_of(callee.obj)
                            == Kind::Lambda {
                            let ar = spec_eval_args(args, st, cur, f);
                            match ar.res {
                                Err(fv) => StepView { res: Err(fv), st: ar.st },
                                Ok(vals) => spec_call(callee, vals, ar.st, cur, f),
                            }
                        } else {
                            StepView {
                                res: Err(
                                    FaultView::Diag(
                                        ErrView {
                                            stage: Stage::EvaluatingFunctionCall,
                                            span: node.span,
                                        },
                                    ),
                                ),
                                st,
                            }
                        }
                    },
                }
            },
            NodeView::Index(left, path) => {
                let r1 = spec_step(*left, st, cur, f);
                match r1.res {
                    Err(fv) => StepView { res: Err(fv), st: r1.st },
                    Ok(base) => {
                        let synth = r1.st.scope.len() as int;
                        let st2 = StateView {
                            scope: crate::scope::spec_new_from_object(r1.st.scope, base, cur),
                            out: r1.st.out,
                            promises: r1.st.promises,
                        };
                        spec_index_walk(path, st2, synth, cur, f)
                    },
                }
            },
            NodeView::Lambda { args, return_type, body } => StepView {
                res: Ok(
                    CtxObjView {
                        obj: ObjView::Lambda(args, return_type, body),
                        span: node.span,
                    },
                ),
                st,
            },
            NodeView::Conditional { arms, else_arm } => spec_conditional(
                arms,
                else_arm,
                st,
                cur,
                f,
            ),
            NodeView::LoopWhile { condition, body } => spec_while(*condition, body, st, cur, 0, f),
            _ => StepView { res: Err(FaultView::Unsupported(node.span)), st },
        }
    }
}

/// The values of an argument list, evaluated left to right under one frame.
pub open spec fn spec_eval_args(
    nodes: Seq<CtxNodeView>,
    st: StateView,
    cur: int,
    fuel: nat,
) -> ArgsView
    decreases fuel,
{
    if fuel == 0 {
        ArgsView { res: Err(FaultView::OutOfFuel), st }
    } else if nodes.len() == 0 {
        ArgsView { res: Ok(Seq::empty()), st }
    } else {
        let f = (fuel - 1) as nat;
        let r1 = spec_step(nodes[0], st, cur, f);
        match r1.res {
            Err(fv) => ArgsView { res: Err(fv), st: r1.st },
            Ok(v) => {
                let rest = spec_eval_args(nodes.subrange(1, nodes.len() as int), r1.st, cur, f);
                match rest.res {
                    Err(fv) => ArgsView { res: Err(fv), st: rest.st },
                    Ok(vs) => ArgsView { res: Ok(seq![v] + vs), st: rest.st },
                }
            },
        }
    }
}

/// A statement list run in order: it stops early at the first `Return`
/// sentinel, whose wrapped form is then the result; otherwise the last
/// statement's value is the result, `Null` for an empty list.
pub open spec fn spec_run_body(
    nodes: Seq<CtxNodeView>,
    st: StateView,
    cur: int,
    fuel: nat,
) -> StepView
    decreases fuel,
{
    if fuel == 0 {
        StepView { res: Err(FaultView::OutOfFuel), st }
    } else if nodes.len() == 0 {
        StepView { res: Ok(anon_view(ObjView::Null)), st }
    } else {
        let f = (fuel - 1) as nat;
        let r1 = spec_step(nodes[0], st, cur, f);
        match r1.res {
            Err(fv) => StepView { res: Err(fv), st: r1.st },
            Ok(v) => {
                if v.obj is Return {
                    StepView { res: Ok(v), st: r1.st }
                } else if nodes.len() == 1 {
                    StepView { res: Ok(v), st: r1.st }
                } else {
                    spec_run_body(nodes.subrange(1, nodes.len() as int), r1.st, cur, f)
                }
            },
        }
    }
}

/// A call of a lambda or built-in value on evaluated arguments. A lambda
/// checks its arity, binds its parameters in a fresh child frame of the
/// call site, runs its body, and unwraps a `Return` sentinel; a built-in
/// that needs a `self` takes the nearest one on the chain.
pub open spec fn spec_call(
    callee: CtxObjView,
    args: Seq<CtxObjView>,
    st: StateView,
    cur: int,
    fuel: nat,
) -> StepView
    decreases fuel,
{
    if fuel == 0 {
        StepView { res: Err(FaultView::OutOfFuel), st }
    } else {
        let f = (fuel - 1) as nat;
        match callee.obj {
            ObjView::Lambda(params, _rt, body) => {
                if params.len() != args.len() {
                    StepView {
                        res: Err(
                            FaultView::Diag(
                                ErrView {
                                    stage: Stage::EvaluatingFunctionCall,
                                    span: callee.span,
                                },
                            ),
                        ),
                        st,
                    }
                } else {
                    let frame = st.scope.len() as int;
                    let s1 = st.scope.push(
                        crate::scope::FrameView {
                            name: "#pet.call"@,
                            store: Seq::empty(),
                            parent: Some(cur),
                            slf: None,
                        },
                    );
                    match spec_bind_params(s1, frame, params, args, 0) {
                        Err(s2) => StepView {
                            res: Err(
                                FaultView::Diag(
                                    ErrView { stage: Stage::SettingVariable, span: callee.span },
                                ),
                            ),
                            st: StateView { scope: s2, out: st.out, promises: st.promises },
                        },
                        Ok(s2) => {
                            let rb = spec_run_body(
                                body,
                                StateView { scope: s2, out: st.out, promises: st.promises },
                                frame,
                                f,
                            );
                            match rb.res {
                                Err(fv) => StepView { res: Err(fv), st: rb.st },
                                Ok(v) => match v.obj {
                                    ObjView::Return(inner) => StepView {
                                        res: Ok(*inner),
                                        st: rb.st,
                                    },
                                    _ => StepView { res: Ok(v), st: rb.st },
                                },
                            }
                        },
                    }
                }
            },
            ObjView::Builtin(_name, needs_self, kind) => {
                if needs_self {
                    match crate::scope::spec_scope_get_self(st.scope, cur) {
                        None => StepView {
                            res: Err(
                                FaultView::Diag(
                                    ErrView {
                                        stage: Stage::EvaluatingFunctionCall,
                                        span: callee.span,
                                    },
                                ),
                            ),
                            st,
                        },
                        Some(slf) => spec_apply_builtin(kind, seq![slf] + args, st, cur, f),
                    }
                } else {
                    spec_apply_builtin(kind, args, st, cur, f)
                }
            },
            _ => StepView {
                res: Err(
                    FaultView::Diag(
                        ErrView { stage: Stage::EvaluatingFunctionCall, span: callee.span },
                    ),
                ),
                st,
            },
        }
    }
}

/// A built-in routine applied to its argument list: `print` appends a line
/// of pretty renderings, `clear` appends the terminal clear sequence,
/// `exit` becomes the `Exit` fault, the intrinsics compute, `map` calls its
/// function on every element, and `await` takes a recorded promise result
/// or leaves the `Pending` fault.
pub open spec fn spec_apply_builtin(
    kind: crate::value::BuiltinKind,
    args: Seq<CtxObjView>,
    st: StateView,
    cur: int,
    fuel: nat,
) -> StepView
    decreases fuel,
{
    if fuel == 0 {
        StepView { res: Err(FaultView::OutOfFuel), st }
    } else {
        let f = (fuel - 1) as nat;
        match kind {
            crate::value::BuiltinKind::Print => StepView {
                res: Ok(anon_view(ObjView::Null)),
                st: StateView {
                    scope: st.scope,
                    out: st.out.push(spec_join(spec_pretty_args(args), ", "@)),
                    promises: st.promises,
                },
            },
            crate::value::BuiltinKind::Clear => StepView {
                res: Ok(anon_view(ObjView::Null)),
                st: StateView {
                    scope: st.scope,
                    out: st.out.push("\u{1b}[2J\u{1b}[1;1H"@),
                    promises: st.promises,
                },
            },
            crate::value::BuiltinKind::Exit => {
                if args.len() > 1 {
                    StepView {
                        res: Err(
                            FaultView::Diag(
                                ErrView {
                                    stage: Stage::InvalidArgumentCount,
                                    span: crate::builtins::spec_args_extent(args),
                                },
                            ),
                        ),
                        st,
                    }
                } else if args.len() == 0 {
                    StepView { res: Err(FaultView::Exit(0)), st }
                } else {
                    match args[0].obj {
                        ObjView::Integer(v) => StepView { res: Err(FaultView::Exit(v)), st },
                        _ => StepView {
                            res: Err(
                                FaultView::Diag(
                                    ErrView {
                                        stage: Stage::InvalidArgument,
                                        span: crate::builtins::spec_args_extent(args),
                                    },
                                ),
                            ),
                            st,
                        },
                    }
                }
            },
            crate::value::BuiltinKind::ToString => spec_lift(
                crate::intrinsics::spec_intr_to_string(args),
                st,
            ),
            crate::value::BuiltinKind::Len => spec_lift(crate::intrinsics::spec_intr_len(args), st),
            crate::value::BuiltinKind::Split => spec_lift(
                crate::intrinsics::spec_intr_split(args),
                st,
            ),
            crate::value::BuiltinKind::Join => spec_lift(
                crate::intrinsics::spec_intr_join(args),
                st,
            ),
            crate::value::BuiltinKind::Keys => spec_lift(
                crate::intrinsics::spec_intr_keys(args),
                st,
            ),
            crate::value::BuiltinKind::Values => spec_lift(
                crate::intrinsics::spec_intr_values(args),
                st,
            ),
            crate::value::BuiltinKind::Entries => spec_lift(
                crate::intrinsics::spec_intr_entries(args),
                st,
            ),
            crate::value::BuiltinKind::MapEach => {
                if args.len() != 2 {
                    StepView {
                        res: Err(
                            FaultView::Diag(
                                ErrView {
                                    stage: Stage::InvalidArgumentCount,
                                    span: crate::builtins::spec_args_extent(args),
                                },
                            ),
                        ),
                        st,
                    }
                } else {
                    match args[0].obj {
                        ObjView::Array(elems) => {
                            if kind_of(args[1].obj) == Kind::Lambda || kind_of(args[1].obj)
                                == Kind::Builtin {
                                let mc = spec_map_collect(args[1], elems, st, cur, f);
                                match mc.res {
                                    Err(fv) => StepView { res: Err(fv), st: mc.st },
                                    Ok(vs) => StepView {
                                        res: Ok(anon_view(ObjView::Array(vs))),
                                        st: mc.st,
                                    },
                                }
                            } else {
                                StepView {
                                    res: Err(
                                        FaultView::Diag(
                                            ErrView {
                                                stage: Stage::CheckingTypes,
                                                span: args[1].span,
                                            },
                                        ),
                                    ),
                                    st,
                                }
                            }
                        },
                        _ => StepView {
                            res: Err(
                                FaultView::Diag(
                                    ErrView { stage: Stage::CheckingTypes, span: args[0].span },
                                ),
                            ),
                            st,
                        },
                    }
                }
            },
            crate::value::BuiltinKind::Await => {
                if args.len() != 1 {
                    StepView {
                        res: Err(
                            FaultView::Diag(
                                ErrView {
                                    stage: Stage::InvalidArgumentCount,
                                    span: crate::builtins::spec_args_extent(args),
                                },
                            ),
                        ),
                        st,
                    }
                } else {
                    match args[0].obj {
                        ObjView::Promise(_label, id) => {
                            match spec_promises_lookup(st.promises, id) {
                                Some(v) => StepView {
                                    res: Ok(v),
                                    st: StateView {
                                        scope: st.scope,
                                        out: st.out,
                                        promises: spec_promises_remove(st.promises, id),
                                    },
                                },
                                None => StepView { res: Err(FaultView::Pending(id)), st },
                            }
                        },
                        _ => StepView {
                            res: Err(
                                FaultView::Diag(
                                    ErrView { stage: Stage::CheckingTypes, span: args[0].span },
                                ),
                            ),
                            st,
                        },
                    }
                }
            },
        }
    }
}

/// `map` applied element by element, collecting the call results in order.
pub open spec fn spec_map_collect(
    fv: CtxObjView,
    elems: Seq<CtxObjView>,
    st: StateView,
    cur: int,
    fuel: nat,
) -> ArgsView
    decreases fuel,
{
    if fuel == 0 {
        ArgsView { res: Err(FaultView::OutOfFuel), st }
    } else if elems.len() == 0 {
        ArgsView { res: Ok(Seq::empty()), st }
    } else {
        let f = (fuel - 1) as nat;
        let r1 = spec_call(fv, seq![elems[0]], st, cur, f);
        match r1.res {
            Err(e) => ArgsView { res: Err(e), st: r1.st },
            Ok(v) => {
                let rest = spec_map_collect(fv, elems.subrange(1, elems.len() as int), r1.st, cur, f);
                match rest.res {
                    Err(e) => ArgsView { res: Err(e), st: rest.st },
                    Ok(vs) => ArgsView { res: Ok(seq![v] + vs), st: rest.st },
                }
            },
        }
    }
}

/// A conditional's arms tried left to right: the first arm whose condition
/// is the boolean `true` runs its body; a `Return` sentinel from a body
/// propagates, any other completion yields `Null`. With no matching arm
/// the else body runs the same way, or the result is `Null`.
pub open spec fn spec_conditional(
    arms: Seq<(CtxNodeView, Seq<CtxNodeView>)>,
    else_arm: Option<Seq<CtxNodeView>>,
    st: StateView,
    cur: int,
    fuel: nat,
) -> StepView
    decreases fuel,
{
    if fuel == 0 {
        StepView { res: Err(FaultView::OutOfFuel), st }
    } else {
        let f = (fuel - 1) as nat;
        if arms.len() == 0 {
            match else_arm {
                None => StepView { res: Ok(anon_view(ObjView::Null)), st },
                Some(body) => spec_cond_body(body, st, cur, f),
            }
        } else {
            let r1 = spec_step(arms[0].0, st, cur, f);
            match r1.res {
                Err(fv) => StepView { res: Err(fv), st: r1.st },
                Ok(c) => {
                    if c.obj == ObjView::Bool(true) {
                        spec_cond_body(arms[0].1, r1.st, cur, f)
                    } else {
                        spec_conditional(
                            arms.subrange(1, arms.len() as int),
                            else_arm,
                            r1.st,
                            cur,
                            f,
                        )
                    }
                },
            }
        }
    }
}

/// A conditional body run to completion: a `Return` sentinel propagates,
/// anything else becomes `Null`.
pub open spec fn spec_cond_body(
    body: Seq<CtxNodeView>,
    st: StateView,
    cur: int,
    fuel: nat,
) -> StepView
    decreases fuel,
{
    if fuel == 0 {
        StepView { res: Err(FaultView::OutOfFuel), st }
    } else {
        let rb = spec_run_body(body, st, cur, (fuel - 1) as nat);
        match rb.res {
            Err(fv) => StepView { res: Err(fv), st: rb.st },
            Ok(v) => {
                if v.obj is Return {
                    StepView { res: Ok(v), st: rb.st }
                } else {
                    StepView { res: Ok(anon_view(ObjView::Null)), st: rb.st }
                }
            },
        }
    }
}

/// A `while` loop: as long as the condition is the boolean `true` the body
/// runs; a `Return` sentinel from the body propagates; on exit the loop's
/// own value is the number of body runs.
pub open spec fn spec_while(
    condition: CtxNodeView,
    body: Seq<CtxNodeView>,
    st: StateView,
    cur: int,
    count: int,
    fuel: nat,
) -> StepView
    decreases fuel,
{
    if fuel == 0 {
        StepView { res: Err(FaultView::OutOfFuel), st }
    } else {
        let f = (fuel - 1) as nat;
        let r1 = spec_step(condition, st, cur, f);
        match r1.res {
            Err(fv) => StepView { res: Err(fv), st: r1.st },
            Ok(c) => {
                if c.obj == ObjView::Bool(true) {
                    let rb = spec_run_body(body, r1.st, cur, f);
                    match rb.res {
                        Err(fv) => StepView { res: Err(fv), st: rb.st },
                        Ok(v) => {
                            if v.obj is Return {
                                StepView { res: Ok(v), st: rb.st }
                            } else {
                                spec_while(condition, body, rb.st, cur, count + 1, f)
                            }
                        },
                    }
                } else {
                    StepView {
                        res: Ok(anon_view(ObjView::Integer(count))),
                        st: r1.st,
                    }
                }
            },
        }
    }
}

/// An index path walked step by step against scopes synthesized from the
/// container: numeric and name steps look members up, yielding `Null` for
/// an absent member; a call step invokes an intrinsic with the container as
/// `self`, its arguments evaluated inside the synthesized scope. The last
/// step's value is the expression's result; earlier steps feed the next
/// synthesis.
pub open spec fn spec_index_walk(
    path: Seq<CtxNodeView>,
    st: StateView,
    synth: int,
    cur: int,
    fuel: nat,
) -> StepView
    decreases fuel,
{
    if fuel == 0 {
        StepView { res: Err(FaultView::OutOfFuel), st }
    } else if path.len() == 0 {
        StepView { res: Ok(anon_view(ObjView::Null)), st }
    } else {
        let f = (fuel - 1) as nat;
        let item = path[0];
        let rs = spec_index_step(item, st, synth, cur, f);
        match rs.res {
            Err(fv) => StepView { res: Err(fv), st: rs.st },
            Ok(obj) => {
                if path.len() == 1 {
                    StepView { res: Ok(obj), st: rs.st }
                } else {
                    let next = rs.st.scope.len() as int;
                    let st2 = StateView {
                        scope: crate::scope::spec_new_from_object(rs.st.scope, obj, cur),
                        out: rs.st.out,
                        promises: rs.st.promises,
                    };
                    spec_index_walk(path.subrange(1, path.len() as int), st2, next, cur, f)
                }
            },
        }
    }
}

/// One step of an index path, resolved against the synthesized frame.
pub open spec fn spec_index_step(
    item: CtxNodeView,
    st: StateView,
    synth: int,
    cur: int,
    fuel: nat,
) -> StepView
    decreases fuel,
{
    if fuel == 0 {
        StepView { res: Err(FaultView::OutOfFuel), st }
    } else {
        let f = (fuel - 1) as nat;
        match item.node {
            NodeView::Int(v) => {
                match crate::scope::spec_scope_get(st.scope, synth, crate::text::spec_int_string(v)) {
                    Some(o) => StepView { res: Ok(o), st },
                    None => StepView { res: Ok(anon_view(ObjView::Null)), st },
                }
            },
            NodeView::Str(name) => match crate::scope::spec_scope_get(st.scope, synth, name) {
                Some(o) => StepView { res: Ok(o), st },
                None => StepView { res: Ok(anon_view(ObjView::Null)), st },
            },
            NodeView::Ident(name) => match crate::scope::spec_scope_get(st.scope, synth, name) {
                Some(o) => StepView { res: Ok(o), st },
                None => StepView { res: Ok(anon_view(ObjView::Null)), st },
            },
            NodeView::FunctionCall { ident, args } => {
                match crate::scope::spec_scope_get(st.scope, synth, ident) {
                    None => StepView {
                        res: Err(
                            FaultView::Diag(
                                ErrView { stage: Stage::EvaluatingIndex, span: item.span },
                            ),
                        ),
                        st,
                    },
                    Some(c) => match c.obj {
                        ObjView::Builtin(_bname, needs_self, kind) => {
                            let stA = StateView {
                                scope: spec_rename_frame(st.scope, synth, "object_fncall"@),
                                out: st.out,
                                promises: st.promises,
                            };
                            let ar = spec_eval_args(args, stA, synth, f);
                            match ar.res {
                                Err(fv) => StepView { res: Err(fv), st: ar.st },
                                Ok(vals) => {
                                    let stB = StateView {
                                        scope: spec_rename_frame(ar.st.scope, synth, "object"@),
                                        out: ar.st.out,
                                        promises: ar.st.promises,
                                    };
                                    if needs_self {
                                        match crate::scope::spec_scope_get_self(stB.scope, synth) {
                                            None => StepView {
                                                res: Err(
                                                    FaultView::Diag(
                                                        ErrView {
                                                            stage: Stage::EvaluatingFunctionCall,
                                                            span: item.span,
                                                        },
                                                    ),
                                                ),
                                                st: stB,
                                            },
                                            Some(slf) => spec_apply_builtin(
                                                kind,
                                                seq![slf] + vals,
                                                stB,
                                                cur,
                                                f,
                                            ),
                                        }
                                    } else {
                                        spec_apply_builtin(kind, vals, stB, cur, f)
                                    }
                                },
                            }
                        },
                        _ => StepView {
                            res: Err(
                                FaultView::Diag(
                                    ErrView { stage: Stage::EvaluatingIndex, span: item.span },
                                ),
                            ),
                            st,
                        },
                    },
                }
            },
            _ => StepView {
                res: Err(
                    FaultView::Diag(
                        ErrView { stage: Stage::EvaluatingIndex, span: item.span },
                    ),
                ),
                st,
            },
        }
    }
}

/// A whole program: its top-level nodes run in order, stopping at a
/// `Return` sentinel, whose wrapped value is then the program's result.
pub open spec fn spec_eval_program(
    nodes: Seq<CtxNodeView>,
    st: StateView,
    cur: int,
    fuel: nat,
) -> StepView
    decreases fuel,
{
    if fuel == 0 {
        StepView { res: Err(FaultView::OutOfFuel), st }
    } else {
        let rb = spec_run_body(nodes, st, cur, (fuel - 1) as nat);
        match rb.res {
            Err(fv) => StepView { res: Err(fv), st: rb.st },
            Ok(v) => match v.obj {
                ObjView::Return(inner) => StepView { res: Ok(*inner), st: rb.st },
                _ => StepView { res: Ok(v), st: rb.st },
            },
        }
    }
}

/// Determinism of the synchronous core: evaluation is a mathematical
/// function of the program, the starting state, the frame and the fuel, so
/// two runs from equal starting states yield structurally identical
/// results and identical final states.
pub proof fn lemma_eval_deterministic(
    nodes: Seq<CtxNodeView>,
    st1: StateView,
    st2: StateView,
    cur: int,
    fuel: nat,
)
    requires
        st1 == st2,
    ensures
        spec_eval_program(nodes, st1, cur, fuel) == spec_eval_program(nodes, st2, cur, fuel),
{
}

/// Return propagation: a `Return` sentinel produced by the first statement
/// of a body stops the body right there with the sentinel; a conditional
/// body passes the sentinel on unchanged; at the top of a program the
/// sentinel is unwrapped and ends evaluation with the returned value.
pub proof fn lemma_return_propagation(
    nodes: Seq<CtxNodeView>,
    st: StateView,
    cur: int,
    fuel: nat,
    v: CtxObjView,
)
    requires
        fuel > 0,
        nodes.len() > 0,
        spec_step(nodes[0], st, cur, (fuel - 1) as nat).res == Ok::<CtxObjView, FaultView>(v),
        v.obj is Return,
    ensures
        spec_run_body(nodes, st, cur, fuel).res == Ok::<CtxObjView, FaultView>(v),
        spec_cond_body(nodes, st, cur, (fuel + 1) as nat).res == Ok::<CtxObjView, FaultView>(v),
        v.obj matches ObjView::Return(inner) ==> spec_eval_program(
            nodes,
            st,
            cur,
            (fuel + 1) as nat,
        ).res == Ok::<CtxObjView, FaultView>(*inner),
{
}

/// Return unwinds exactly one call frame: when a lambda's body ends in a
/// `Return` sentinel, the call's value is the wrapped value itself, even
/// where that value is again a sentinel — one call unwraps one layer.
pub proof fn lemma_return_unwinds_one_frame(
    callee: CtxObjView,
    args: Seq<CtxObjView>,
    st: StateView,
    cur: int,
    fuel: nat,
    bound: Seq<crate::scope::FrameView>,
    v: CtxObjView,
)
    requires
        fuel > 0,
        callee.obj matches ObjView::Lambda(params, rt, body) && params.len() == args.len(),
        spec_bind_params(
            st.scope.push(
                crate::scope::FrameView {
                    name: "#pet.call"@,
                    store: Seq::empty(),
                    parent: Some(cur),
                    slf: None,
                },
            ),
            st.scope.len() as int,
            callee.obj->Lambda_0,
            args,
            0,
        ) matches Ok(s2) && s2 == bound,
        spec_run_body(
            callee.obj->Lambda_2,
            StateView { scope: bound, out: st.out, promises: st.promises },
            st.scope.len() as int,
            (fuel - 1) as nat,
        ).res matches Ok(r) && r == v,
        v.obj is Return,
    ensures
        v.obj matches ObjView::Return(inner) ==> spec_call(callee, args, st, cur, fuel).res
            == Ok::<CtxObjView, FaultView>(*inner),
{
}

/// The machine an evaluation runs in: the scope arena, the lines printed
/// so far, the recorded promise results, and the source for diagnostics.
#[derive(Debug)]
pub struct Evaluator {
    pub scope: crate::scope::Scope,
    pub out: Vec<String>,
    pub promises: Vec<(String, ContextualObject)>,
    pub src: Source,
}

impl Evaluator {
    /// The machine's model: the state the semantics threads through.
    pub open spec fn st(self) -> StateView {
        StateView {
            scope: self.scope@,
            out: strs_view(self.out@),
            promises: promises_view(self.promises@),
        }
    }

    /// What every evaluation step needs of the machine.
    pub open spec fn wf(self) -> bool {
        &&& crate::scope::scope_wf(self.scope@)
        &&& self.src.wf()
    }

    /// A fresh machine: one root frame with the given name tag, nothing
    /// printed, no promise results.
    pub fn new(root_name: &str, src: Source) -> (r: Evaluator)
        requires
            src.wf(),
        ensures
            r.wf(),
            r.scope@.len() == 1,
            r.st().scope =~= seq![
                crate::scope::FrameView {
                    name: root_name@,
                    store: Seq::empty(),
                    parent: None,
                    slf: None,
                },
            ],
            r.st().out =~= Seq::<Seq<char>>::empty(),
            r.st().promises =~= Seq::<(Seq<char>, CtxObjView)>::empty(),
            r.src == src,
    {
        let r = Evaluator {
            scope: crate::scope::Scope::new(root_name),
            out: Vec::new(),
            promises: Vec::new(),
            src,
        };
        proof {
            assert(strs_view(r.out@) =~= Seq::<Seq<char>>::empty());
            assert(promises_view(r.promises@) =~= Seq::<(Seq<char>, CtxObjView)>::empty());
        }
        r
    }
}

/// Compute a single node's value, following `spec_step` exactly.
#[verifier::rlimit(100)]
pub fn step(ev: &mut Evaluator, node: &ContextualNode, cur: usize, fuel: u64) -> (r: Result<
    ContextualObject,
    Fault,
>)
    requires
        old(ev).wf(),
        cur < old(ev).scope@.len(),
    ensures
        ({
            let r0 = spec_step(node@, old(ev).st(), cur as int, fuel as nat);
            &&& (match r {
                Ok(v) => r0.res matches Ok(x) && x == v@,
                Err(f) => r0.res matches Err(x) && x == f@,
            })
            &&& final(ev).st() == r0.st
        }),
        final(ev).wf(),
        final(ev).src == old(ev).src,
        final(ev).scope@.len() >= old(ev).scope@.len(),
    decreases fuel,
{
    if fuel == 0 {
        return Err(Fault::OutOfFuel);
    }
    let f = fuel - 1;
    match &node.0 {
        Node::Int(v) => Ok(Object::Integer(Int::fit(*v)).provide_context(node.1)),
        Node::Bool(v) => Ok(Object::Bool(*v).provide_context(node.1)),
        Node::Str(v) => Ok(Object::Str(v.clone()).provide_context(node.1)),
        Node::Null => Ok(Object::Null.provide_context(node.1)),
        Node::Array(elems) => {
            proof {
                lemma_nodes_view_len(elems@);
                assert(nodes_view(elems@).subrange(0, nodes_view(elems@).len() as int)
                    =~= nodes_view(elems@));
            }
            match eval_args(ev, elems, 0, cur, f) {
                Ok(vals) => Ok(Object::Array(vals).provide_context(node.1)),
                Err(fv) => Err(fv),
            }
        },
        Node::DyadicOp { verb, lhs, rhs } => {
            let lv = match step(ev, lhs, cur, f) {
                Ok(v) => v,
                Err(fv) => {
                    return Err(fv);
                },
            };
            let rv = match step(ev, rhs, cur, f) {
                Ok(v) => v,
                Err(fv) => {
                    return Err(fv);
                },
            };
            let span = pair_span(lv.1, rv.1);
            match Object::coerce(lv, rv, &ev.src) {
                Err(e) => Err(Fault::Diag(e)),
                Ok((a, b)) => match apply_dyad(*verb, a, b, span, &ev.src) {
                    Ok(v) => Ok(v),
                    Err(e) => Err(Fault::Diag(e)),
                },
            }
        },
        Node::Declaration { ident, typed: _, expr } => {
            let v = match step(ev, expr, cur, f) {
                Ok(v) => v,
                Err(fv) => {
                    return Err(fv);
                },
            };
            match ev.scope.set(cur, ident.as_str(), crate::value::clone_ctx_obj(&v), node.1, &ev.src)
            {
                Ok(_u) => Ok(v),
                Err(e) => Err(Fault::Diag(e)),
            }
        },
        Node::Assignment { ident, expr } => {
            let v = match step(ev, expr, cur, f) {
                Ok(v) => v,
                Err(fv) => {
                    return Err(fv);
                },
            };
            match ev.scope.assign(
                cur,
                ident.as_str(),
                crate::value::clone_ctx_obj(&v),
                node.1,
                &ev.src,
            ) {
                Ok(_u) => Ok(v),
                Err(e) => Err(Fault::Diag(e)),
            }
        },
        Node::Return(expr) => {
            let v = match step(ev, expr, cur, f) {
                Ok(v) => v,
                Err(fv) => {
                    return Err(fv);
                },
            };
            Ok(Object::Return(Box::new(v)).provide_context(node.1))
        },
        Node::Ident(ident) => {
            match ev.scope.get(cur, ident.as_str()) {
                Some(v) => Ok(v),
                None => {
                    let msg = String::from_str("Unknown identifier: ").concat(ident.as_str());
                    Err(Fault::Diag(Error::new(Stage::FindingVariable, msg, None, node.1, &ev.src)))
                },
            }
        },
        Node::FunctionCall { ident, args } => {
            match ev.scope.get(cur, ident.as_str()) {
                None => {
                    let msg = String::from_str("Unknown function: ").concat(ident.as_str());
                    Err(
                        Fault::Diag(
                            Error::new(Stage::EvaluatingFunctionCall, msg, None, node.1, &ev.src),
                        ),
                    )
                },
                Some(callee) => {
                    let k = callee.0.kind();
                    if k == Kind::Builtin || k == Kind::Lambda {
                        proof {
                            lemma_nodes_view_len(args@);
                            assert(nodes_view(args@).subrange(0, nodes_view(args@).len() as int)
                                =~= nodes_view(args@));
                        }
                        match eval_args(ev, args, 0, cur, f) {
                            Err(fv) => Err(fv),
                            Ok(vals) => call(ev, callee, vals, cur, f),
                        }
                    } else {
                        let msg = String::from_str(ident.as_str()).concat(" is not a function");
                        Err(
                            Fault::Diag(
                                Error::new(
                                    Stage::EvaluatingFunctionCall,
                                    msg,
                                    None,
                                    node.1,
                                    &ev.src,
                                ),
                            ),
                        )
                    }
                },
            }
        },
        Node::Index(left, path) => {
            let base = match step(ev, left, cur, f) {
                Ok(v) => v,
                Err(fv) => {
                    return Err(fv);
                },
            };
            let synth = ev.scope.new_from_object(base, cur);
            proof {
                lemma_nodes_view_len(path@);
                assert(nodes_view(path@).subrange(0, nodes_view(path@).len() as int)
                    =~= nodes_view(path@));
            }
            index_walk(ev, path, 0, synth, cur, f)
        },
        Node::Lambda { args, return_type, body } => {
            let lam = Object::Lambda(
                crate::ast::clone_names(args),
                match return_type {
                    Some(t) => Some(t.clone()),
                    None => None,
                },
                crate::ast::clone_nodes(body),
            );
            Ok(lam.provide_context(node.1))
        },
        Node::Conditional { arms, else_arm } => {
            proof {
                lemma_arms_view_len(arms@);
                assert(arms_view(arms@).subrange(0, arms_view(arms@).len() as int) =~= arms_view(
                    arms@,
                ));
            }
            conditional(ev, arms, 0, else_arm, cur, f)
        },
        Node::LoopWhile { condition, body } => while_loop(ev, condition, body, 0, cur, f),
        _ => Err(Fault::Unsupported(node.1)),
    }
}

/// Evaluate the argument list from position `from` on, left to right.
fn eval_args(
    ev: &mut Evaluator,
    nodes: &Vec<ContextualNode>,
    from: usize,
    cur: usize,
    fuel: u64,
) -> (r: Result<Vec<ContextualObject>, Fault>)
    requires
        old(ev).wf(),
        cur < old(ev).scope@.len(),
        from <= nodes@.len(),
    ensures
        ({
            let r0 = spec_eval_args(
                nodes_view(nodes@).subrange(from as int, nodes@.len() as int),
                old(ev).st(),
                cur as int,
                fuel as nat,
            );
            &&& (match r {
                Ok(vals) => r0.res matches Ok(x) && x == objs_view(vals@),
                Err(fv) => r0.res matches Err(x) && x == fv@,
            })
            &&& final(ev).st() == r0.st
        }),
        final(ev).wf(),
        final(ev).src == old(ev).src,
        final(ev).scope@.len() >= old(ev).scope@.len(),
    decreases fuel,
{
    proof {
        crate::ast::lemma_nodes_view_len(nodes@);
    }
    if fuel == 0 {
        return Err(Fault::OutOfFuel);
    }
    let ghost whole = nodes_view(nodes@).subrange(from as int, nodes@.len() as int);
    if from == nodes.len() {
        proof {
            assert(whole =~= Seq::<CtxNodeView>::empty());
            assert(objs_view(Seq::<ContextualObject>::empty()) =~= Seq::<CtxObjView>::empty());
        }
        let out: Vec<ContextualObject> = Vec::new();
        return Ok(out);
    }
    let f = fuel - 1;
    proof {
        crate::ast::lemma_nodes_view_index(nodes@, from as int);
        assert(whole[0] == ctx_node_view(nodes@[from as int]));
    }
    let v = match step(ev, &nodes[from], cur, f) {
        Ok(v) => v,
        Err(fv) => {
            return Err(fv);
        },
    };
    proof {
        assert(whole.subrange(1, whole.len() as int) =~= nodes_view(nodes@).subrange(
            from as int + 1,
            nodes@.len() as int,
        ));
    }
    match eval_args(ev, nodes, from + 1, cur, f) {
        Err(fv) => Err(fv),
        Ok(mut vals) => {
            let ghost pre = vals@;
            vals.insert(0, v);
            proof {
                assert(vals@[0] == v);
                assert(vals@.subrange(1, vals@.len() as int) =~= pre);
                assert(objs_view(vals@) == seq![ctx_obj_view(v)] + objs_view(pre));
            }
            Ok(vals)
        },
    }
}

/// Run a statement list from position `from` on, stopping early at a
/// `Return` sentinel.
fn run_body(
    ev: &mut Evaluator,
    nodes: &Vec<ContextualNode>,
    from: usize,
    cur: usize,
    fuel: u64,
) -> (r: Result<ContextualObject, Fault>)
    requires
        old(ev).wf(),
        cur < old(ev).scope@.len(),
        from <= nodes@.len(),
    ensures
        ({
            let r0 = spec_run_body(
                nodes_view(nodes@).subrange(from as int, nodes@.len() as int),
                old(ev).st(),
                cur as int,
                fuel as nat,
            );
            &&& (match r {
                Ok(v) => r0.res matches Ok(x) && x == v@,
                Err(fv) => r0.res matches Err(x) && x == fv@,
            })
            &&& final(ev).st() == r0.st
        }),
        final(ev).wf(),
        final(ev).src == old(ev).src,
        final(ev).scope@.len() >= old(ev).scope@.len(),
    decreases fuel,
{
    proof {
        crate::ast::lemma_nodes_view_len(nodes@);
    }
    if fuel == 0 {
        return Err(Fault::OutOfFuel);
    }
    let ghost whole = nodes_view(nodes@).subrange(from as int, nodes@.len() as int);
    if from == nodes.len() {
        proof {
            assert(whole =~= Seq::<CtxNodeView>::empty());
        }
        return Ok(Object::Null.anonymous());
    }
    let f = fuel - 1;
    proof {
        lemma_nodes_view_index(nodes@, from as int);
        assert(whole[0] == ctx_node_view(nodes@[from as int]));
    }
    let v = match step(ev, &nodes[from], cur, f) {
        Ok(v) => v,
        Err(fv) => {
            return Err(fv);
        },
    };
    let is_ret = match &v.0 {
        Object::Return(_) => true,
        _ => false,
    };
    if is_ret {
        Ok(v)
    } else if from == nodes.len() - 1 {
        Ok(v)
    } else {
        proof {
            assert(whole.subrange(1, whole.len() as int) =~= nodes_view(nodes@).subrange(
                from as int + 1,
                nodes@.len() as int,
            ));
        }
        run_body(ev, nodes, from + 1, cur, f)
    }
}

/// Bind a lambda's parameters, in order, into its call frame.
fn bind_params(
    ev: &mut Evaluator,
    frame: usize,
    params: &Vec<String>,
    args: &Vec<ContextualObject>,
    i: usize,
    span: Span,
) -> (r: Result<(), Fault>)
    requires
        old(ev).wf(),
        frame < old(ev).scope@.len(),
        i <= params@.len(),
        params@.len() == args@.len(),
    ensures
        ({
            let r0 = spec_bind_params(
                old(ev).scope@,
                frame as int,
                strs_view(params@),
                objs_view(args@),
                i as int,
            );
            match r {
                Ok(_) => r0 matches Ok(s2) && final(ev).scope@ == s2,
                Err(fv) => r0 matches Err(s2) && final(ev).scope@ == s2 && (fv@ matches
                    FaultView::Diag(e) && e == (ErrView { stage: Stage::SettingVariable, span })),
            }
        }),
        final(ev).out == old(ev).out,
        final(ev).promises == old(ev).promises,
        final(ev).wf(),
        final(ev).src == old(ev).src,
        final(ev).scope@.len() == old(ev).scope@.len(),
    decreases params@.len() - i,
{
    proof {
        crate::value::lemma_objs_view_len(args@);
    }
    if i == params.len() {
        return Ok(());
    }
    proof {
        crate::value::lemma_objs_view_index(args@, i as int);
    }
    let v = crate::value::clone_ctx_obj(&args[i]);
    match ev.scope.set(frame, params[i].as_str(), v, span, &ev.src) {
        Ok(_u) => bind_params(ev, frame, params, args, i + 1, span),
        Err(e) => Err(Fault::Diag(e)),
    }
}

/// Invoke a callable value on evaluated arguments, as `spec_call` says.
#[verifier::rlimit(100)]
pub fn call(
    ev: &mut Evaluator,
    callee: ContextualObject,
    args: Vec<ContextualObject>,
    cur: usize,
    fuel: u64,
) -> (r: Result<ContextualObject, Fault>)
    requires
        old(ev).wf(),
        cur < old(ev).scope@.len(),
    ensures
        ({
            let r0 = spec_call(callee@, objs_view(args@), old(ev).st(), cur as int, fuel as nat);
            &&& (match r {
                Ok(v) => r0.res matches Ok(x) && x == v@,
                Err(fv) => r0.res matches Err(x) && x == fv@,
            })
            &&& final(ev).st() == r0.st
        }),
        final(ev).wf(),
        final(ev).src == old(ev).src,
        final(ev).scope@.len() >= old(ev).scope@.len(),
    decreases fuel,
{
    proof {
        crate::value::lemma_objs_view_len(args@);
    }
    if fuel == 0 {
        return Err(Fault::OutOfFuel);
    }
    let f = fuel - 1;
    match &callee.0 {
        Object::Lambda(params, _rt, body) => {
            if params.len() != args.len() {
                let msg = String::from_str("Expected ").concat(
                    crate::text::int_to_string(params.len() as i128).as_str(),
                ).concat(" arguments, got ").concat(
                    crate::text::int_to_string(args.len() as i128).as_str(),
                );
                return Err(
                    Fault::Diag(
                        Error::new(Stage::EvaluatingFunctionCall, msg, None, callee.1, &ev.src),
                    ),
                );
            }
            let frame = ev.scope.new_child(cur, "#pet.call");
            proof {
                assert(nodes_view(body@).subrange(0, nodes_view(body@).len() as int)
                    =~= nodes_view(body@));
                lemma_nodes_view_len(body@);
            }
            match bind_params(ev, frame, params, &args, 0, callee.1) {
                Err(fv) => Err(fv),
                Ok(_u) => {
                    let v = match run_body(ev, body, 0, frame, f) {
                        Ok(v) => v,
                        Err(fv) => {
                            return Err(fv);
                        },
                    };
                    let ContextualObject(obj, sp) = v;
                    match obj {
                        Object::Return(inner) => Ok(*inner),
                        other => Ok(ContextualObject(other, sp)),
                    }
                },
            }
        },
        Object::Builtin(_name, needs_self, kind) => {
            if *needs_self {
                match ev.scope.get_self(cur) {
                    None => {
                        let msg = String::from_str("No self provided for method call");
                        Err(
                            Fault::Diag(
                                Error::new(
                                    Stage::EvaluatingFunctionCall,
                                    msg,
                                    None,
                                    callee.1,
                                    &ev.src,
                                ),
                            ),
                        )
                    },
                    Some(slf) => {
                        let mut full = args;
                        let ghost pre = full@;
                        full.insert(0, slf);
                        proof {
                            assert(full@[0] == slf);
                            assert(full@.subrange(1, full@.len() as int) =~= pre);
                            assert(objs_view(full@) == seq![ctx_obj_view(slf)] + objs_view(pre));
                        }
                        apply_builtin(ev, *kind, full, cur, f)
                    },
                }
            } else {
                apply_builtin(ev, *kind, args, cur, f)
            }
        },
        _ => {
            let msg = String::from_str("Can't call a non-function");
            Err(
                Fault::Diag(
                    Error::new(Stage::EvaluatingFunctionCall, msg, None, callee.1, &ev.src),
                ),
            )
        },
    }
}

impl ContextualObject {
    /// Invoke this value on evaluated arguments under frame `cur`, as
    /// `spec_call` says.
    pub fn call(&self, ev: &mut Evaluator, args: Vec<ContextualObject>, cur: usize, fuel: u64)
        -> (r: Result<ContextualObject, Fault>)
        requires
            old(ev).wf(),
            cur < old(ev).scope@.len(),
        ensures
            ({
                let r0 = spec_call(self@, objs_view(args@), old(ev).st(), cur as int, fuel as nat);
                &&& (match r {
                    Ok(v) => r0.res matches Ok(x) && x == v@,
                    Err(fv) => r0.res matches Err(x) && x == fv@,
                })
                &&& final(ev).st() == r0.st
            }),
            final(ev).wf(),
            final(ev).src == old(ev).src,
            final(ev).scope@.len() >= old(ev).scope@.len(),
    {
        call(ev, crate::value::clone_ctx_obj(self), args, cur, fuel)
    }
}

/// Run a conditional body, turning a normal completion into `Null` and
/// propagating a `Return` sentinel.
fn cond_body(ev: &mut Evaluator, body: &Vec<ContextualNode>, cur: usize, fuel: u64) -> (r: Result<
    ContextualObject,
    Fault,
>)
    requires
        old(ev).wf(),
        cur < old(ev).scope@.len(),
    ensures
        ({
            let r0 = spec_cond_body(nodes_view(body@), old(ev).st(), cur as int, fuel as nat);
            &&& (match r {
                Ok(v) => r0.res matches Ok(x) && x == v@,
                Err(fv) => r0.res matches Err(x) && x == fv@,
            })
            &&& final(ev).st() == r0.st
        }),
        final(ev).wf(),
        final(ev).src == old(ev).src,
        final(ev).scope@.len() >= old(ev).scope@.len(),
    decreases fuel,
{
    if fuel == 0 {
        return Err(Fault::OutOfFuel);
    }
    proof {
        assert(nodes_view(body@).subrange(0, nodes_view(body@).len() as int) =~= nodes_view(
            body@,
        ));
        lemma_nodes_view_len(body@);
    }
    let v = match run_body(ev, body, 0, cur, fuel - 1) {
        Ok(v) => v,
        Err(fv) => {
            return Err(fv);
        },
    };
    match &v.0 {
        Object::Return(_) => Ok(v),
        _ => Ok(Object::Null.anonymous()),
    }
}

/// Try a conditional's arms from position `from` on.
fn conditional(
    ev: &mut Evaluator,
    arms: &Vec<(ContextualNode, Vec<ContextualNode>)>,
    from: usize,
    else_arm: &Option<Vec<ContextualNode>>,
    cur: usize,
    fuel: u64,
) -> (r: Result<ContextualObject, Fault>)
    requires
        old(ev).wf(),
        cur < old(ev).scope@.len(),
        from <= arms@.len(),
    ensures
        ({
            let r0 = spec_conditional(
                arms_view(arms@).subrange(from as int, arms@.len() as int),
                match else_arm {
                    Some(b) => Some(nodes_view(b@)),
                    None => None,
                },
                old(ev).st(),
                cur as int,
                fuel as nat,
            );
            &&& (match r {
                Ok(v) => r0.res matches Ok(x) && x == v@,
                Err(fv) => r0.res matches Err(x) && x == fv@,
            })
            &&& final(ev).st() == r0.st
        }),
        final(ev).wf(),
        final(ev).src == old(ev).src,
        final(ev).scope@.len() >= old(ev).scope@.len(),
    decreases fuel,
{
    proof {
        lemma_arms_view_len(arms@);
    }
    if fuel == 0 {
        return Err(Fault::OutOfFuel);
    }
    let f = fuel - 1;
    let ghost whole = arms_view(arms@).subrange(from as int, arms@.len() as int);
    if from == arms.len() {
        proof {
            assert(whole =~= Seq::<(CtxNodeView, Seq<CtxNodeView>)>::empty());
        }
        match else_arm {
            None => Ok(Object::Null.anonymous()),
            Some(body) => cond_body(ev, body, cur, f),
        }
    } else {
        proof {
            lemma_arms_view_index(arms@, from as int);
            assert(whole[0] == (ctx_node_view(arms@[from as int].0), nodes_view(
                arms@[from as int].1@,
            )));
        }
        let c = match step(ev, &arms[from].0, cur, f) {
            Ok(v) => v,
            Err(fv) => {
                return Err(fv);
            },
        };
        let taken = match &c.0 {
            Object::Bool(b) => *b,
            _ => false,
        };
        if taken {
            cond_body(ev, &arms[from].1, cur, f)
        } else {
            proof {
                assert(c@.obj != ObjView::Bool(true));
                assert(whole.subrange(1, whole.len() as int) =~= arms_view(arms@).subrange(
                    from as int + 1,
                    arms@.len() as int,
                ));
            }
            conditional(ev, arms, from + 1, else_arm, cur, f)
        }
    }
}

/// Run a `while` loop that has already completed `count` body runs.
fn while_loop(
    ev: &mut Evaluator,
    condition: &ContextualNode,
    body: &Vec<ContextualNode>,
    count: u64,
    cur: usize,
    fuel: u64,
) -> (r: Result<ContextualObject, Fault>)
    requires
        old(ev).wf(),
        cur < old(ev).scope@.len(),
        count as nat + fuel as nat <= u64::MAX,
    ensures
        ({
            let r0 = spec_while(
                condition@,
                nodes_view(body@),
                old(ev).st(),
                cur as int,
                count as int,
                fuel as nat,
            );
            &&& (match r {
                Ok(v) => r0.res matches Ok(x) && x == v@,
                Err(fv) => r0.res matches Err(x) && x == fv@,
            })
            &&& final(ev).st() == r0.st
        }),
        final(ev).wf(),
        final(ev).src == old(ev).src,
        final(ev).scope@.len() >= old(ev).scope@.len(),
    decreases fuel,
{
    if fuel == 0 {
        return Err(Fault::OutOfFuel);
    }
    let f = fuel - 1;
    let c = match step(ev, condition, cur, f) {
        Ok(v) => v,
        Err(fv) => {
            return Err(fv);
        },
    };
    let taken = match &c.0 {
        Object::Bool(b) => *b,
        _ => false,
    };
    if taken {
        proof {
            assert(nodes_view(body@).subrange(0, nodes_view(body@).len() as int) =~= nodes_view(
                body@,
            ));
            lemma_nodes_view_len(body@);
        }
        let v = match run_body(ev, body, 0, cur, f) {
            Ok(v) => v,
            Err(fv) => {
                return Err(fv);
            },
        };
        let is_ret = match &v.0 {
            Object::Return(_) => true,
            _ => false,
        };
        if is_ret {
            Ok(v)
        } else {
            while_loop(ev, condition, body, count + 1, cur, f)
        }
    } else {
        proof {
            assert(c@.obj != ObjView::Bool(true));
        }
        Ok(Object::Integer(Int::fit(count as i128)).anonymous())
    }
}

/// The first recorded result under a promise id, if any, with its position.
pub(crate) fn promises_find(promises: &Vec<(String, ContextualObject)>, id: &str) -> (r: Option<usize>)
    ensures
        r matches Some(j) ==> j < promises@.len() && promises@[j as int].0@ == id@ && (forall|
            k: int,
        | 0 <= k < j ==> promises@[k].0@ != id@),
        r is None ==> forall|k: int| 0 <= k < promises@.len() ==> promises@[k].0@ != id@,
{
    let mut i: usize = 0;
    while i < promises.len()
        invariant
            0 <= i <= promises@.len(),
            forall|k: int| 0 <= k < i ==> promises@[k].0@ != id@,
        decreases promises@.len() - i,
    {
        if crate::text::str_eq(promises[i].0.as_str(), id) {
            return Some(i);
        }
        i += 1;
    }
    None
}

/// A first match with none before it pins the promise lookup and removal.
pub proof fn lemma_promises_at(p: Seq<(Seq<char>, CtxObjView)>, id: Seq<char>, j: int)
    requires
        0 <= j < p.len(),
        p[j].0 == id,
        forall|k: int| 0 <= k < j ==> p[k].0 != id,
    ensures
        spec_promises_lookup(p, id) == Some(p[j].1),
        spec_promises_remove(p, id) == p.subrange(0, j) + p.subrange(j + 1, p.len() as int),
    decreases j,
{
    if j == 0 {
        assert(p.subrange(0, 0) =~= Seq::<(Seq<char>, CtxObjView)>::empty());
        assert(p.subrange(0, 0) + p.subrange(1, p.len() as int) =~= p.subrange(
            1,
            p.len() as int,
        ));
    } else {
        let t = p.subrange(1, p.len() as int);
        lemma_promises_at(t, id, j - 1);
        assert(t.subrange(0, j - 1) =~= p.subrange(1, j));
        assert(t.subrange(j, t.len() as int) =~= p.subrange(j + 1, p.len() as int));
        assert(spec_promises_remove(p, id) == seq![p[0]] + (t.subrange(0, j - 1) + t.subrange(
            j,
            t.len() as int,
        )));
        assert(seq![p[0]] + (p.subrange(1, j) + p.subrange(j + 1, p.len() as int)) =~= p.subrange(
            0,
            j,
        ) + p.subrange(j + 1, p.len() as int));
    }
}

/// No match anywhere means no recorded result.
pub proof fn lemma_promises_none(p: Seq<(Seq<char>, CtxObjView)>, id: Seq<char>)
    requires
        forall|k: int| 0 <= k < p.len() ==> p[k].0 != id,
    ensures
        spec_promises_lookup(p, id) is None,
    decreases p.len(),
{
    if p.len() > 0 {
        lemma_promises_none(p.subrange(1, p.len() as int), id);
    }
}

/// Apply a built-in routine to its evaluated arguments, as
/// `spec_apply_builtin` says.
#[verifier::rlimit(100)]
fn apply_builtin(
    ev: &mut Evaluator,
    kind: crate::value::BuiltinKind,
    args: Vec<ContextualObject>,
    cur: usize,
    fuel: u64,
) -> (r: Result<ContextualObject, Fault>)
    requires
        old(ev).wf(),
        cur < old(ev).scope@.len(),
    ensures
        ({
            let r0 = spec_apply_builtin(
                kind,
                objs_view(args@),
                old(ev).st(),
                cur as int,
                fuel as nat,
            );
            &&& (match r {
                Ok(v) => r0.res matches Ok(x) && x == v@,
                Err(fv) => r0.res matches Err(x) && x == fv@,
            })
            &&& final(ev).st() == r0.st
        }),
        final(ev).wf(),
        final(ev).src == old(ev).src,
        final(ev).scope@.len() >= old(ev).scope@.len(),
    decreases fuel,
{
    proof {
        crate::value::lemma_objs_view_len(args@);
    }
    if fuel == 0 {
        return Err(Fault::OutOfFuel);
    }
    let f = fuel - 1;
    match kind {
        crate::value::BuiltinKind::Print => {
            let mut parts: Vec<String> = Vec::new();
            let mut i: usize = 0;
            while i < args.len()
                invariant
                    0 <= i <= args@.len(),
                    parts@.len() == i,
                    forall|j: int|
                        0 <= j < i ==> parts@[j]@ == crate::value::spec_pretty(
                            #[trigger] objs_view(args@)[j].obj,
                        ),
                decreases args@.len() - i,
            {
                proof {
                    crate::value::lemma_objs_view_index(args@, i as int);
                }
                parts.push(crate::value::pretty_obj(&args[i].0));
                i += 1;
            }
            proof {
                assert(strs_view(parts@) =~= spec_pretty_args(objs_view(args@)));
            }
            let line = crate::text::join_strings(&parts, ", ");
            ev.out.push(line);
            proof {
                assert(strs_view(ev.out@) =~= strs_view(old(ev).out@).push(
                    spec_join(spec_pretty_args(objs_view(args@)), ", "@),
                ));
            }
            Ok(Object::Null.anonymous())
        },
        crate::value::BuiltinKind::Clear => {
            let line = String::from_str("\u{1b}[2J\u{1b}[1;1H");
            ev.out.push(line);
            proof {
                assert(strs_view(ev.out@) =~= strs_view(old(ev).out@).push(
                    "\u{1b}[2J\u{1b}[1;1H"@,
                ));
            }
            Ok(Object::Null.anonymous())
        },
        crate::value::BuiltinKind::Exit => {
            if args.len() > 1 {
                let span = crate::builtins::args_extent(&args);
                let msg = String::from_str("Expected at most one argument");
                return Err(
                    Fault::Diag(Error::new(Stage::InvalidArgumentCount, msg, None, span, &ev.src)),
                );
            }
            if args.len() == 0 {
                return Err(Fault::Exit(0));
            }
            proof {
                crate::value::lemma_objs_view_index(args@, 0);
            }
            match &args[0].0 {
                Object::Integer(v) => Err(Fault::Exit(v.to_max_value())),
                _ => {
                    let span = crate::builtins::args_extent(&args);
                    let msg = String::from_str("Expected an integer");
                    Err(
                        Fault::Diag(
                            Error::new(Stage::InvalidArgument, msg, None, span, &ev.src),
                        ),
                    )
                },
            }
        },
        crate::value::BuiltinKind::ToString => {
            match crate::intrinsics::intr_to_string(&args, &ev.src) {
                Ok(v) => Ok(v),
                Err(e) => Err(Fault::Diag(e)),
            }
        },
        crate::value::BuiltinKind::Len => {
            match crate::intrinsics::intr_len(&args, &ev.src) {
                Ok(v) => Ok(v),
                Err(e) => Err(Fault::Diag(e)),
            }
        },
        crate::value::BuiltinKind::Split => {
            match crate::intrinsics::intr_split(&args, &ev.src) {
                Ok(v) => Ok(v),
                Err(e) => Err(Fault::Diag(e)),
            }
        },
        crate::value::BuiltinKind::Join => {
            match crate::intrinsics::intr_join(&args, &ev.src) {
                Ok(v) => Ok(v),
                Err(e) => Err(Fault::Diag(e)),
            }
        },
        crate::value::BuiltinKind::Keys => {
            match crate::intrinsics::intr_keys(&args, &ev.src) {
                Ok(v) => Ok(v),
                Err(e) => Err(Fault::Diag(e)),
            }
        },
        crate::value::BuiltinKind::Values => {
            match crate::intrinsics::intr_values(&args, &ev.src) {
                Ok(v) => Ok(v),
                Err(e) => Err(Fault::Diag(e)),
            }
        },
        crate::value::BuiltinKind::Entries => {
            match crate::intrinsics::intr_entries(&args, &ev.src) {
                Ok(v) => Ok(v),
                Err(e) => Err(Fault::Diag(e)),
            }
        },
        crate::value::BuiltinKind::MapEach => {
            if let Err(e) = crate::builtins::assert_args_len(&args, 2, &ev.src) {
                return Err(Fault::Diag(e));
            }
            proof {
                crate::value::lemma_objs_view_index(args@, 0);
                crate::value::lemma_objs_view_index(args@, 1);
            }
            let fk = args[1].0.kind();
            match &args[0].0 {
                Object::Array(elems) => {
                    if fk == Kind::Lambda || fk == Kind::Builtin {
                        proof {
                            crate::value::lemma_objs_view_len(elems@);
                            assert(objs_view(elems@).subrange(0, objs_view(elems@).len() as int)
                                =~= objs_view(elems@));
                        }
                        match map_collect(ev, &args[1], elems, 0, cur, f) {
                            Err(fv) => Err(fv),
                            Ok(vs) => Ok(Object::Array(vs).anonymous()),
                        }
                    } else {
                        let msg = String::from_str("Can't map with type ").concat(
                            args[1].0.typed().as_str(),
                        );
                        Err(
                            Fault::Diag(
                                Error::new(Stage::CheckingTypes, msg, None, args[1].1, &ev.src),
                            ),
                        )
                    }
                },
                _ => {
                    let msg = String::from_str("Can't map type ").concat(
                        args[0].0.typed().as_str(),
                    );
                    Err(
                        Fault::Diag(
                            Error::new(Stage::CheckingTypes, msg, None, args[0].1, &ev.src),
                        ),
                    )
                },
            }
        },
        crate::value::BuiltinKind::Await => {
            if let Err(e) = crate::builtins::assert_args_len(&args, 1, &ev.src) {
                return Err(Fault::Diag(e));
            }
            proof {
                crate::value::lemma_objs_view_index(args@, 0);
            }
            match &args[0].0 {
                Object::Promise(_label, id) => {
                    match promises_find(&ev.promises, id.as_str()) {
                        Some(j) => {
                            proof {
                                lemma_promises_at(
                                    promises_view(ev.promises@),
                                    id@,
                                    j as int,
                                );
                            }
                            let entry = ev.promises.remove(j);
                            proof {
                                assert(promises_view(ev.promises@) =~= promises_view(
                                    old(ev).promises@,
                                ).subrange(0, j as int) + promises_view(
                                    old(ev).promises@,
                                ).subrange(j as int + 1, promises_view(old(ev).promises@).len() as int));
                            }
                            Ok(entry.1)
                        },
                        None => {
                            proof {
                                lemma_promises_none(promises_view(ev.promises@), id@);
                            }
                            Err(Fault::Pending(id.clone()))
                        },
                    }
                },
                _ => {
                    let msg = String::from_str("Can't wait for type ").concat(
                        args[0].0.typed().as_str(),
                    );
                    Err(
                        Fault::Diag(
                            Error::new(Stage::CheckingTypes, msg, None, args[0].1, &ev.src),
                        ),
                    )
                },
            }
        },
    }
}

/// `map` run over the elements from position `from` on.
fn map_collect(
    ev: &mut Evaluator,
    fv: &ContextualObject,
    elems: &Vec<ContextualObject>,
    from: usize,
    cur: usize,
    fuel: u64,
) -> (r: Result<Vec<ContextualObject>, Fault>)
    requires
        old(ev).wf(),
        cur < old(ev).scope@.len(),
        from <= elems@.len(),
    ensures
        ({
            let r0 = spec_map_collect(
                fv@,
                objs_view(elems@).subrange(from as int, elems@.len() as int),
                old(ev).st(),
                cur as int,
                fuel as nat,
            );
            &&& (match r {
                Ok(vals) => r0.res matches Ok(x) && x == objs_view(vals@),
                Err(e) => r0.res matches Err(x) && x == e@,
            })
            &&& final(ev).st() == r0.st
        }),
        final(ev).wf(),
        final(ev).src == old(ev).src,
        final(ev).scope@.len() >= old(ev).scope@.len(),
    decreases fuel,
{
    proof {
        crate::value::lemma_objs_view_len(elems@);
    }
    if fuel == 0 {
        return Err(Fault::OutOfFuel);
    }
    let ghost whole = objs_view(elems@).subrange(from as int, elems@.len() as int);
    if from == elems.len() {
        proof {
            assert(whole =~= Seq::<CtxObjView>::empty());
            assert(objs_view(Seq::<ContextualObject>::empty()) =~= Seq::<CtxObjView>::empty());
        }
        let out: Vec<ContextualObject> = Vec::new();
        return Ok(out);
    }
    let f = fuel - 1;
    proof {
        crate::value::lemma_objs_view_index(elems@, from as int);
        assert(whole[0] == ctx_obj_view(elems@[from as int]));
    }
    let mut single: Vec<ContextualObject> = Vec::new();
    let elem = crate::value::clone_ctx_obj(&elems[from]);
    proof {
        crate::value::lemma_objs_view_push(single@, elem);
    }
    single.push(elem);
    proof {
        assert(objs_view(single@) =~= seq![ctx_obj_view(elems@[from as int])]);
    }
    let v = match call(ev, crate::value::clone_ctx_obj(fv), single, cur, f) {
        Ok(v) => v,
        Err(fv2) => {
            return Err(fv2);
        },
    };
    proof {
        assert(whole.subrange(1, whole.len() as int) =~= objs_view(elems@).subrange(
            from as int + 1,
            elems@.len() as int,
        ));
    }
    match map_collect(ev, fv, elems, from + 1, cur, f) {
        Err(fv2) => Err(fv2),
        Ok(mut vals) => {
            let ghost pre = vals@;
            vals.insert(0, v);
            proof {
                assert(vals@[0] == v);
                assert(vals@.subrange(1, vals@.len() as int) =~= pre);
                assert(objs_view(vals@) == seq![ctx_obj_view(v)] + objs_view(pre));
            }
            Ok(vals)
        },
    }
}

/// Resolve one index-path step against the synthesized frame.
#[verifier::rlimit(100)]
fn index_step(
    ev: &mut Evaluator,
    item: &ContextualNode,
    synth: usize,
    cur: usize,
    fuel: u64,
) -> (r: Result<ContextualObject, Fault>)
    requires
        old(ev).wf(),
        synth < old(ev).scope@.len(),
        cur < old(ev).scope@.len(),
    ensures
        ({
            let r0 = spec_index_step(item@, old(ev).st(), synth as int, cur as int, fuel as nat);
            &&& (match r {
                Ok(v) => r0.res matches Ok(x) && x == v@,
                Err(fv) => r0.res matches Err(x) && x == fv@,
            })
            &&& final(ev).st() == r0.st
        }),
        final(ev).wf(),
        final(ev).src == old(ev).src,
        final(ev).scope@.len() >= old(ev).scope@.len(),
    decreases fuel,
{
    if fuel == 0 {
        return Err(Fault::OutOfFuel);
    }
    let f = fuel - 1;
    match &item.0 {
        Node::Int(v) => {
            let key = crate::text::int_to_string(*v);
            match ev.scope.get(synth, key.as_str()) {
                Some(o) => Ok(o),
                None => Ok(Object::Null.anonymous()),
            }
        },
        Node::Str(name) => {
            match ev.scope.get(synth, name.as_str()) {
                Some(o) => Ok(o),
                None => Ok(Object::Null.anonymous()),
            }
        },
        Node::Ident(name) => {
            match ev.scope.get(synth, name.as_str()) {
                Some(o) => Ok(o),
                None => Ok(Object::Null.anonymous()),
            }
        },
        Node::FunctionCall { ident, args } => {
            match ev.scope.get(synth, ident.as_str()) {
                None => {
                    let msg = String::from_str("Unknown element: ").concat(ident.as_str());
                    Err(
                        Fault::Diag(
                            Error::new(Stage::EvaluatingIndex, msg, None, item.1, &ev.src),
                        ),
                    )
                },
                Some(c) => {
                    match &c.0 {
                        Object::Builtin(_bname, needs_self, kind) => {
                            ev.scope.set_name(synth, "object_fncall");
                            proof {
                                lemma_nodes_view_len(args@);
                                assert(nodes_view(args@).subrange(
                                    0,
                                    nodes_view(args@).len() as int,
                                ) =~= nodes_view(args@));
                            }
                            let vals = match eval_args(ev, args, 0, synth, f) {
                                Ok(v) => v,
                                Err(fv) => {
                                    return Err(fv);
                                },
                            };
                            ev.scope.set_name(synth, "object");
                            if *needs_self {
                                match ev.scope.get_self(synth) {
                                    None => {
                                        let msg = String::from_str(
                                            "No self provided for method call",
                                        );
                                        Err(
                                            Fault::Diag(
                                                Error::new(
                                                    Stage::EvaluatingFunctionCall,
                                                    msg,
                                                    None,
                                                    item.1,
                                                    &ev.src,
                                                ),
                                            ),
                                        )
                                    },
                                    Some(slf) => {
                                        let mut full = vals;
                                        let ghost pre = full@;
                                        full.insert(0, slf);
                                        proof {
                                            assert(full@[0] == slf);
                                            assert(full@.subrange(1, full@.len() as int) =~= pre);
                                            assert(objs_view(full@) == seq![ctx_obj_view(slf)]
                                                + objs_view(pre));
                                        }
                                        apply_builtin(ev, *kind, full, cur, f)
                                    },
                                }
                            } else {
                                apply_builtin(ev, *kind, vals, cur, f)
                            }
                        },
                        _ => {
                            let msg = String::from_str("Can't index with this type");
                            Err(
                                Fault::Diag(
                                    Error::new(Stage::EvaluatingIndex, msg, None, item.1, &ev.src),
                                ),
                            )
                        },
                    }
                },
            }
        },
        _ => {
            let msg = String::from_str("Can't index with this type");
            Err(Fault::Diag(Error::new(Stage::EvaluatingIndex, msg, None, item.1, &ev.src)))
        },
    }
}

/// Walk an index path from position `from` on.
fn index_walk(
    ev: &mut Evaluator,
    path: &Vec<ContextualNode>,
    from: usize,
    synth: usize,
    cur: usize,
    fuel: u64,
) -> (r: Result<ContextualObject, Fault>)
    requires
        old(ev).wf(),
        synth < old(ev).scope@.len(),
        cur < old(ev).scope@.len(),
        from <= path@.len(),
    ensures
        ({
            let r0 = spec_index_walk(
                nodes_view(path@).subrange(from as int, path@.len() as int),
                old(ev).st(),
                synth as int,
                cur as int,
                fuel as nat,
            );
            &&& (match r {
                Ok(v) => r0.res matches Ok(x) && x == v@,
                Err(fv) => r0.res matches Err(x) && x == fv@,
            })
            &&& final(ev).st() == r0.st
        }),
        final(ev).wf(),
        final(ev).src == old(ev).src,
        final(ev).scope@.len() >= old(ev).scope@.len(),
    decreases fuel,
{
    proof {
        lemma_nodes_view_len(path@);
    }
    if fuel == 0 {
        return Err(Fault::OutOfFuel);
    }
    let ghost whole = nodes_view(path@).subrange(from as int, path@.len() as int);
    if from == path.len() {
        proof {
            assert(whole =~= Seq::<CtxNodeView>::empty());
        }
        return Ok(Object::Null.anonymous());
    }
    let f = fuel - 1;
    proof {
        lemma_nodes_view_index(path@, from as int);
        assert(whole[0] == ctx_node_view(path@[from as int]));
    }
    let obj = match index_step(ev, &path[from], synth, cur, f) {
        Ok(v) => v,
        Err(fv) => {
            return Err(fv);
        },
    };
    if from == path.len() - 1 {
        Ok(obj)
    } else {
        proof {
            assert(whole.subrange(1, whole.len() as int) =~= nodes_view(path@).subrange(
                from as int + 1,
                path@.len() as int,
            ));
        }
        let next = ev.scope.new_from_object(obj, cur);
        index_walk(ev, path, from + 1, next, cur, f)
    }
}

/// Evaluate a whole program under frame `cur`: its top-level nodes in
/// order, stopping at a `Return` sentinel, whose wrapped value is then the
/// program's result.
pub fn eval(prog: &Program, ev: &mut Evaluator, cur: usize, fuel: u64) -> (r: Result<
    ContextualObject,
    Fault,
>)
    requires
        old(ev).wf(),
        cur < old(ev).scope@.len(),
    ensures
        ({
            let r0 = spec_eval_program(prog.tree_view(), old(ev).st(), cur as int, fuel as nat);
            &&& (match r {
                Ok(v) => r0.res matches Ok(x) && x == v@,
                Err(fv) => r0.res matches Err(x) && x == fv@,
            })
            &&& final(ev).st() == r0.st
        }),
        final(ev).wf(),
        final(ev).src == old(ev).src,
        final(ev).scope@.len() >= old(ev).scope@.len(),
    decreases fuel,
{
    if fuel == 0 {
        return Err(Fault::OutOfFuel);
    }
    proof {
        assert(nodes_view(prog.tree@).subrange(0, nodes_view(prog.tree@).len() as int)
            =~= nodes_view(prog.tree@));
        lemma_nodes_view_len(prog.tree@);
    }
    let v = match run_body(ev, &prog.tree, 0, cur, fuel - 1) {
        Ok(v) => v,
        Err(fv) => {
            return Err(fv);
        },
    };
    let ContextualObject(obj, sp) = v;
    match obj {
        Object::Return(inner) => Ok(*inner),
        other => Ok(ContextualObject(other, sp)),
    }
}

impl Program {
    /// Evaluate this program in a fresh machine with one root frame; the
    /// result comes back with the machine, whose printed lines the caller
    /// may then flush.
    pub fn eval(&self, fuel: u64) -> (r: (Result<ContextualObject, Fault>, Evaluator))
        requires
            self.text@.len() < usize::MAX,
        ensures
            ({
                let st0 = StateView {
                    scope: seq![
                        crate::scope::FrameView {
                            name: "#pet.repl"@,
                            store: Seq::empty(),
                            parent: None,
                            slf: None,
                        },
                    ],
                    out: Seq::empty(),
                    promises: Seq::empty(),
                };
                let r0 = spec_eval_program(self.tree_view(), st0, 0, fuel as nat);
                &&& (match r.0 {
                    Ok(v) => r0.res matches Ok(x) && x == v@,
                    Err(fv) => r0.res matches Err(x) && x == fv@,
                })
                &&& r.1.st() == r0.st
            }),
            r.1.wf(),
    {
        let src = Source { path: self.path.clone(), text: self.text.clone() };
        let mut ev = Evaluator::new("#pet.repl", src);
        let res = eval(self, &mut ev, 0, fuel);
        (res, ev)
    }
}

} // verus!
