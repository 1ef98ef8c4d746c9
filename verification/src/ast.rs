use vstd::prelude::*;
use crate::op::{Dyadic, Mondaic};
use crate::span::Span;

verus! {

/// A parse-tree node. Each variant is one grammar production; the parser is
/// an outside collaborator and delivers this tree ready-made.
#[derive(Debug)]
pub enum Node {
    Int(i128),
    Bool(bool),
    Str(String),
    Null,
    MondaicOp { verb: Mondaic, expr: Box<ContextualNode> },
    DyadicOp { verb: Dyadic, lhs: Box<ContextualNode>, rhs: Box<ContextualNode> },
    Terms(Vec<ContextualNode>),
    Ident(String),
    Index(Box<ContextualNode>, Vec<ContextualNode>),
    Return(Box<ContextualNode>),
    Declaration { ident: String, typed: Option<String>, expr: Box<ContextualNode> },
    Assignment { ident: String, expr: Box<ContextualNode> },
    Conditional { arms: Vec<(ContextualNode, Vec<ContextualNode>)>, else_arm: Option<Vec<ContextualNode>> },
    LoopWhile { condition: Box<ContextualNode>, body: Vec<ContextualNode> },
    FunctionDeclaration {
        ident: String,
        args: Vec<(String, String)>,
        return_type: Option<String>,
        body: Vec<ContextualNode>,
    },
    FunctionCall { ident: String, args: Vec<ContextualNode> },
    Lambda { args: Vec<String>, return_type: Option<String>, body: Vec<ContextualNode> },
    Struct { ident: String, typed: String, fields: Vec<(String, ContextualNode)> },
    Array(Vec<ContextualNode>),
}

/// A node paired with the span of the source text it came from.
#[derive(Debug)]
pub struct ContextualNode(pub Node, pub Span);

/// The mathematical shape of a node: text as character sequences, lists as
/// sequences. Contracts are stated over this model.
pub enum NodeView {
    Int(int),
    Bool(bool),
    Str(Seq<char>),
    Null,
    MondaicOp { verb: Mondaic, expr: Box<CtxNodeView> },
    DyadicOp { verb: Dyadic, lhs: Box<CtxNodeView>, rhs: Box<CtxNodeView> },
    Terms(Seq<CtxNodeView>),
    Ident(Seq<char>),
    Index(Box<CtxNodeView>, Seq<CtxNodeView>),
    Return(Box<CtxNodeView>),
    Declaration { ident: Seq<char>, typed: Option<Seq<char>>, expr: Box<CtxNodeView> },
    Assignment { ident: Seq<char>, expr: Box<CtxNodeView> },
    Conditional {
        arms: Seq<(CtxNodeView, Seq<CtxNodeView>)>,
        else_arm: Option<Seq<CtxNodeView>>,
    },
    LoopWhile { condition: Box<CtxNodeView>, body: Seq<CtxNodeView> },
    FunctionDeclaration {
        ident: Seq<char>,
        args: Seq<(Seq<char>, Seq<char>)>,
        return_type: Option<Seq<char>>,
        body: Seq<CtxNodeView>,
    },
    FunctionCall { ident: Seq<char>, args: Seq<CtxNodeView> },
    Lambda { args: Seq<Seq<char>>, return_type: Option<Seq<char>>, body: Seq<CtxNodeView> },
    Struct { ident: Seq<char>, typed: Seq<char>, fields: Seq<(Seq<char>, CtxNodeView)> },
    Array(Seq<CtxNodeView>),
}

/// Model of a node together with its span.
pub struct CtxNodeView {
    pub node: NodeView,
    pub span: Span,
}

/// Views of a list of name pairs.
pub open spec fn name_pairs_view(s: Seq<(String, String)>) -> Seq<(Seq<char>, Seq<char>)> {
    Seq::new(s.len(), |i: int| (s[i].0@, s[i].1@))
}

/// The model of a node.
pub open spec fn node_view(n: Node) -> NodeView
    decreases n,
{
    match n {
        Node::Int(v) => NodeView::Int(v as int),
        Node::Bool(v) => NodeView::Bool(v),
        Node::Str(v) => NodeView::Str(v@),
        Node::Null => NodeView::Null,
        Node::MondaicOp { verb, expr } => NodeView::MondaicOp {
            verb,
            expr: Box::new(ctx_node_view(*expr)),
        },
        Node::DyadicOp { verb, lhs, rhs } => NodeView::DyadicOp {
            verb,
            lhs: Box::new(ctx_node_view(*lhs)),
            rhs: Box::new(ctx_node_view(*rhs)),
        },
        Node::Terms(v) => NodeView::Terms(nodes_view(v@)),
        Node::Ident(v) => NodeView::Ident(v@),
        Node::Index(item, path) => NodeView::Index(
            Box::new(ctx_node_view(*item)),
            nodes_view(path@),
        ),
        Node::Return(expr) => NodeView::Return(Box::new(ctx_node_view(*expr))),
        Node::Declaration { ident, typed, expr } => NodeView::Declaration {
            ident: ident@,
            typed: match typed {
                Some(t) => Some(t@),
                None => None,
            },
            expr: Box::new(ctx_node_view(*expr)),
        },
        Node::Assignment { ident, expr } => NodeView::Assignment {
            ident: ident@,
            expr: Box::new(ctx_node_view(*expr)),
        },
        Node::Conditional { arms, else_arm } => NodeView::Conditional {
            arms: arms_view(arms@),
            else_arm: match else_arm {
                Some(b) => Some(nodes_view(b@)),
                None => None,
            },
        },
        Node::LoopWhile { condition, body } => NodeView::LoopWhile {
            condition: Box::new(ctx_node_view(*condition)),
            body: nodes_view(body@),
        },
        Node::FunctionDeclaration { ident, args, return_type, body } => {
            NodeView::FunctionDeclaration {
                ident: ident@,
                args: name_pairs_view(args@),
                return_type: match return_type {
                    Some(t) => Some(t@),
                    None => None,
                },
                body: nodes_view(body@),
            }
        },
        Node::FunctionCall { ident, args } => NodeView::FunctionCall {
            ident: ident@,
            args: nodes_view(args@),
        },
        Node::Lambda { args, return_type, body } => NodeView::Lambda {
            args: crate::text::strs_view(args@),
            return_type: match return_type {
                Some(t) => Some(t@),
                None => None,
            },
            body: nodes_view(body@),
        },
        Node::Struct { ident, typed, fields } => NodeView::Struct {
            ident: ident@,
            typed: typed@,
            fields: fields_view(fields@),
        },
        Node::Array(v) => NodeView::Array(nodes_view(v@)),
    }
}

/// The model of a node with its span.
pub open spec fn ctx_node_view(c: ContextualNode) -> CtxNodeView
    decreases c,
{
    CtxNodeView { node: node_view(c.0), span: c.1 }
}

/// The models of a list of nodes, in order.
pub open spec fn nodes_view(s: Seq<ContextualNode>) -> Seq<CtxNodeView>
    decreases s,
{
    if s.len() == 0 {
        Seq::empty()
    } else {
        seq![ctx_node_view(s[0])] + nodes_view(s.subrange(1, s.len() as int))
    }
}

/// The models of conditional arms: each a condition and a body.
pub open spec fn arms_view(
    s: Seq<(ContextualNode, Vec<ContextualNode>)>,
) -> Seq<(CtxNodeView, Seq<CtxNodeView>)>
    decreases s,
{
    if s.len() == 0 {
        Seq::empty()
    } else {
        seq![(ctx_node_view(s[0].0), nodes_view(s[0].1@))]
            + arms_view(s.subrange(1, s.len() as int))
    }
}

/// The models of struct literal fields.
pub open spec fn fields_view(s: Seq<(String, ContextualNode)>) -> Seq<(Seq<char>, CtxNodeView)>
    decreases s,
{
    if s.len() == 0 {
        Seq::empty()
    } else {
        seq![(s[0].0@, ctx_node_view(s[0].1))] + fields_view(s.subrange(1, s.len() as int))
    }
}

/// The node models of a list are the models of its elements, in place.
pub proof fn lemma_nodes_view_index(s: Seq<ContextualNode>, i: int)
    requires
        0 <= i < s.len(),
    ensures
        nodes_view(s).len() == s.len(),
        nodes_view(s)[i] == ctx_node_view(s[i]),
    decreases s,
{
    lemma_nodes_view_len(s);
    if i > 0 {
        lemma_nodes_view_index(s.subrange(1, s.len() as int), i - 1);
    }
}

/// A node list's model has the list's length.
pub proof fn lemma_nodes_view_len(s: Seq<ContextualNode>)
    ensures
        nodes_view(s).len() == s.len(),
    decreases s,
{
    if s.len() > 0 {
        lemma_nodes_view_len(s.subrange(1, s.len() as int));
    }
}

/// Appending a node appends its model.
pub proof fn lemma_nodes_view_push(s: Seq<ContextualNode>, x: ContextualNode)
    ensures
        nodes_view(s.push(x)) == nodes_view(s).push(ctx_node_view(x)),
    decreases s,
{
    if s.len() == 0 {
        let sp = s.push(x);
        assert(sp[0] == x);
        assert(sp.subrange(1, 1) =~= Seq::<ContextualNode>::empty());
        assert(nodes_view(sp) == seq![ctx_node_view(sp[0])] + nodes_view(
            sp.subrange(1, sp.len() as int),
        ));
        assert(nodes_view(sp.subrange(1, sp.len() as int)) == Seq::<CtxNodeView>::empty());
        assert(nodes_view(s) == Seq::<CtxNodeView>::empty());
        assert(nodes_view(sp) =~= nodes_view(s).push(ctx_node_view(x)));
    } else {
        let t = s.subrange(1, s.len() as int);
        assert(s.push(x).subrange(1, s.push(x).len() as int) =~= t.push(x));
        lemma_nodes_view_push(t, x);
        assert(s.push(x)[0] == s[0]);
        assert(nodes_view(s.push(x)) == seq![ctx_node_view(s[0])] + nodes_view(t.push(x)));
        assert(nodes_view(s) == seq![ctx_node_view(s[0])] + nodes_view(t));
        assert(seq![ctx_node_view(s[0])] + nodes_view(t).push(ctx_node_view(x)) =~= (
        seq![ctx_node_view(s[0])] + nodes_view(t)).push(ctx_node_view(x)));
    }
}

/// The arm models of a list are the models of its elements, in place.
pub proof fn lemma_arms_view_index(s: Seq<(ContextualNode, Vec<ContextualNode>)>, i: int)
    requires
        0 <= i < s.len(),
    ensures
        arms_view(s).len() == s.len(),
        arms_view(s)[i] == (ctx_node_view(s[i].0), nodes_view(s[i].1@)),
    decreases s,
{
    lemma_arms_view_len(s);
    if i > 0 {
        lemma_arms_view_index(s.subrange(1, s.len() as int), i - 1);
    }
}

/// An arm list's model has the list's length.
pub proof fn lemma_arms_view_len(s: Seq<(ContextualNode, Vec<ContextualNode>)>)
    ensures
        arms_view(s).len() == s.len(),
    decreases s,
{
    if s.len() > 0 {
        lemma_arms_view_len(s.subrange(1, s.len() as int));
    }
}

/// Appending an arm appends its model.
pub proof fn lemma_arms_view_push(
    s: Seq<(ContextualNode, Vec<ContextualNode>)>,
    x: (ContextualNode, Vec<ContextualNode>),
)
    ensures
        arms_view(s.push(x)) == arms_view(s).push((ctx_node_view(x.0), nodes_view(x.1@))),
    decreases s,
{
    if s.len() == 0 {
        let sp = s.push(x);
        let xv = (ctx_node_view(x.0), nodes_view(x.1@));
        assert(sp[0] == x);
        assert(sp.subrange(1, 1) =~= Seq::<(ContextualNode, Vec<ContextualNode>)>::empty());
        assert(arms_view(sp) == seq![(ctx_node_view(sp[0].0), nodes_view(sp[0].1@))]
            + arms_view(sp.subrange(1, sp.len() as int)));
        assert(arms_view(sp.subrange(1, sp.len() as int)) == Seq::<(
            CtxNodeView,
            Seq<CtxNodeView>,
        )>::empty());
        assert(arms_view(s) == Seq::<(CtxNodeView, Seq<CtxNodeView>)>::empty());
        assert(arms_view(sp) =~= arms_view(s).push(xv));
    } else {
        let t = s.subrange(1, s.len() as int);
        let xv = (ctx_node_view(x.0), nodes_view(x.1@));
        assert(s.push(x).subrange(1, s.push(x).len() as int) =~= t.push(x));
        lemma_arms_view_push(t, x);
        assert(s.push(x)[0] == s[0]);
        let hd = (ctx_node_view(s[0].0), nodes_view(s[0].1@));
        assert(arms_view(s.push(x)) == seq![hd] + arms_view(t.push(x)));
        assert(arms_view(s) == seq![hd] + arms_view(t));
        assert(seq![hd] + arms_view(t).push(xv) =~= (seq![hd] + arms_view(t)).push(xv));
    }
}

/// The field models of a list are the models of its elements, in place.
pub proof fn lemma_fields_view_index(s: Seq<(String, ContextualNode)>, i: int)
    requires
        0 <= i < s.len(),
    ensures
        fields_view(s).len() == s.len(),
        fields_view(s)[i] == (s[i].0@, ctx_node_view(s[i].1)),
    decreases s,
{
    lemma_fields_view_len(s);
    if i > 0 {
        lemma_fields_view_index(s.subrange(1, s.len() as int), i - 1);
    }
}

/// A field list's model has the list's length.
pub proof fn lemma_fields_view_len(s: Seq<(String, ContextualNode)>)
    ensures
        fields_view(s).len() == s.len(),
    decreases s,
{
    if s.len() > 0 {
        lemma_fields_view_len(s.subrange(1, s.len() as int));
    }
}

/// Appending a field appends its model.
pub proof fn lemma_fields_view_push(s: Seq<(String, ContextualNode)>, x: (String, ContextualNode))
    ensures
        fields_view(s.push(x)) == fields_view(s).push((x.0@, ctx_node_view(x.1))),
    decreases s,
{
    if s.len() == 0 {
        let sp = s.push(x);
        let xv = (x.0@, ctx_node_view(x.1));
        assert(sp[0] == x);
        assert(sp.subrange(1, 1) =~= Seq::<(String, ContextualNode)>::empty());
        assert(fields_view(sp) == seq![(sp[0].0@, ctx_node_view(sp[0].1))] + fields_view(
            sp.subrange(1, sp.len() as int),
        ));
        assert(fields_view(sp.subrange(1, sp.len() as int)) == Seq::<(
            Seq<char>,
            CtxNodeView,
        )>::empty());
        assert(fields_view(s) == Seq::<(Seq<char>, CtxNodeView)>::empty());
        assert(fields_view(sp) =~= fields_view(s).push(xv));
    } else {
        let t = s.subrange(1, s.len() as int);
        let xv = (x.0@, ctx_node_view(x.1));
        assert(s.push(x).subrange(1, s.push(x).len() as int) =~= t.push(x));
        lemma_fields_view_push(t, x);
        assert(s.push(x)[0] == s[0]);
        let hd = (s[0].0@, ctx_node_view(s[0].1));
        assert(fields_view(s.push(x)) == seq![hd] + fields_view(t.push(x)));
        assert(fields_view(s) == seq![hd] + fields_view(t));
        assert(seq![hd] + fields_view(t).push(xv) =~= (seq![hd] + fields_view(t)).push(xv));
    }
}

impl View for Node {
    type V = NodeView;

    open spec fn view(&self) -> NodeView {
        node_view(*self)
    }
}

impl View for ContextualNode {
    type V = CtxNodeView;

    open spec fn view(&self) -> CtxNodeView {
        ctx_node_view(*self)
    }
}

impl Node {
    /// Pair this node with the span it came from.
    pub fn provide_context(self, span: Span) -> (r: ContextualNode)
        ensures
            r@ == (CtxNodeView { node: self@, span }),
    {
        ContextualNode(self, span)
    }
}

impl ContextualNode {
    /// The node itself.
    pub fn inner(&self) -> (r: &Node)
        ensures
            r@ == self@.node,
    {
        &self.0
    }

    /// The span of the source text this node came from.
    pub fn span(&self) -> (r: Span)
        ensures
            r == self@.span,
    {
        self.1
    }
}

fn clone_opt_string(o: &Option<String>) -> (r: Option<String>)
    ensures
        r matches Some(s) ==> (o matches Some(t) && s@ == t@),
        r is None <==> o is None,
{
    match o {
        Some(s) => Some(s.clone()),
        None => None,
    }
}

pub(crate) fn clone_names(v: &Vec<String>) -> (r: Vec<String>)
    ensures
        crate::text::strs_view(r@) == crate::text::strs_view(v@),
{
    let mut out: Vec<String> = Vec::new();
    let mut i: usize = 0;
    while i < v.len()
        invariant
            0 <= i <= v@.len(),
            out@.len() == i,
            forall|j: int| 0 <= j < i ==> out@[j]@ == v@[j]@,
        decreases v@.len() - i,
    {
        out.push(v[i].clone());
        i += 1;
    }
    proof {
        assert(crate::text::strs_view(out@) =~= crate::text::strs_view(v@));
    }
    out
}

fn clone_name_pairs(v: &Vec<(String, String)>) -> (r: Vec<(String, String)>)
    ensures
        name_pairs_view(r@) == name_pairs_view(v@),
{
    let mut out: Vec<(String, String)> = Vec::new();
    let mut i: usize = 0;
    while i < v.len()
        invariant
            0 <= i <= v@.len(),
            out@.len() == i,
            forall|j: int| 0 <= j < i ==> out@[j].0@ == v@[j].0@ && out@[j].1@ == v@[j].1@,
        decreases v@.len() - i,
    {
        let pair = (v[i].0.clone(), v[i].1.clone());
        out.push(pair);
        i += 1;
    }
    proof {
        assert(name_pairs_view(out@) =~= name_pairs_view(v@));
    }
    out
}

/// A copy of a node list whose model is unchanged.
pub fn clone_nodes(v: &Vec<ContextualNode>) -> (r: Vec<ContextualNode>)
    ensures
        nodes_view(r@) == nodes_view(v@),
    decreases v@,
{
    let mut out: Vec<ContextualNode> = Vec::new();
    let mut i: usize = 0;
    while i < v.len()
        invariant
            0 <= i <= v@.len(),
            nodes_view(out@) == nodes_view(v@.subrange(0, i as int)),
        decreases v@.len() - i,
    {
        let c = clone_ctx_node(&v[i]);
        proof {
            lemma_nodes_view_push(out@, c);
            lemma_nodes_view_push(v@.subrange(0, i as int), v@[i as int]);
            assert(v@.subrange(0, i as int).push(v@[i as int]) =~= v@.subrange(0, i + 1));
            assert(ctx_node_view(c) == ctx_node_view(v@[i as int]));
        }
        out.push(c);
        i += 1;
    }
    proof {
        assert(v@.subrange(0, v@.len() as int) =~= v@);
    }
    out
}

fn clone_arms(v: &Vec<(ContextualNode, Vec<ContextualNode>)>) -> (r: Vec<
    (ContextualNode, Vec<ContextualNode>),
>)
    ensures
        arms_view(r@) == arms_view(v@),
    decreases v@,
{
    let mut out: Vec<(ContextualNode, Vec<ContextualNode>)> = Vec::new();
    let mut i: usize = 0;
    while i < v.len()
        invariant
            0 <= i <= v@.len(),
            arms_view(out@) == arms_view(v@.subrange(0, i as int)),
        decreases v@.len() - i,
    {
        let cond = clone_ctx_node(&v[i].0);
        let body = clone_nodes(&v[i].1);
        let arm = (cond, body);
        proof {
            lemma_arms_view_push(out@, arm);
            lemma_arms_view_push(v@.subrange(0, i as int), v@[i as int]);
            assert(v@.subrange(0, i as int).push(v@[i as int]) =~= v@.subrange(0, i + 1));
        }
        out.push(arm);
        i += 1;
    }
    proof {
        assert(v@.subrange(0, v@.len() as int) =~= v@);
    }
    out
}

fn clone_fields(v: &Vec<(String, ContextualNode)>) -> (r: Vec<(String, ContextualNode)>)
    ensures
        fields_view(r@) == fields_view(v@),
    decreases v@,
{
    let mut out: Vec<(String, ContextualNode)> = Vec::new();
    let mut i: usize = 0;
    while i < v.len()
        invariant
            0 <= i <= v@.len(),
            fields_view(out@) == fields_view(v@.subrange(0, i as int)),
        decreases v@.len() - i,
    {
        let field = (v[i].0.clone(), clone_ctx_node(&v[i].1));
        proof {
            lemma_fields_view_push(out@, field);
            lemma_fields_view_push(v@.subrange(0, i as int), v@[i as int]);
            assert(v@.subrange(0, i as int).push(v@[i as int]) =~= v@.subrange(0, i + 1));
        }
        out.push(field);
        i += 1;
    }
    proof {
        assert(v@.subrange(0, v@.len() as int) =~= v@);
    }
    out
}

/// A copy of a node whose model is unchanged.
pub fn clone_node(n: &Node) -> (r: Node)
    ensures
        r@ == n@,
    decreases *n,
{
    match n {
        Node::Int(v) => Node::Int(*v),
        Node::Bool(v) => Node::Bool(*v),
        Node::Str(v) => Node::Str(v.clone()),
        Node::Null => Node::Null,
        Node::MondaicOp { verb, expr } => Node::MondaicOp {
            verb: *verb,
            expr: Box::new(clone_ctx_node(expr)),
        },
        Node::DyadicOp { verb, lhs, rhs } => Node::DyadicOp {
            verb: *verb,
            lhs: Box::new(clone_ctx_node(lhs)),
            rhs: Box::new(clone_ctx_node(rhs)),
        },
        Node::Terms(v) => Node::Terms(clone_nodes(v)),
        Node::Ident(v) => Node::Ident(v.clone()),
        Node::Index(item, path) => Node::Index(
            Box::new(clone_ctx_node(item)),
            clone_nodes(path),
        ),
        Node::Return(expr) => Node::Return(Box::new(clone_ctx_node(expr))),
        Node::Declaration { ident, typed, expr } => Node::Declaration {
            ident: ident.clone(),
            typed: clone_opt_string(typed),
            expr: Box::new(clone_ctx_node(expr)),
        },
        Node::Assignment { ident, expr } => Node::Assignment {
            ident: ident.clone(),
            expr: Box::new(clone_ctx_node(expr)),
        },
        Node::Conditional { arms, else_arm } => Node::Conditional {
            arms: clone_arms(arms),
            else_arm: match else_arm {
                Some(b) => Some(clone_nodes(b)),
                None => None,
            },
        },
        Node::LoopWhile { condition, body } => Node::LoopWhile {
            condition: Box::new(clone_ctx_node(condition)),
            body: clone_nodes(body),
        },
        Node::FunctionDeclaration { ident, args, return_type, body } => {
            Node::FunctionDeclaration {
                ident: ident.clone(),
                args: clone_name_pairs(args),
                return_type: clone_opt_string(return_type),
                body: clone_nodes(body),
            }
        },
        Node::FunctionCall { ident, args } => Node::FunctionCall {
            ident: ident.clone(),
            args: clone_nodes(args),
        },
        Node::Lambda { args, return_type, body } => Node::Lambda {
            args: clone_names(args),
            return_type: clone_opt_string(return_type),
            body: clone_nodes(body),
        },
        Node::Struct { ident, typed, fields } => Node::Struct {
            ident: ident.clone(),
            typed: typed.clone(),
            fields: clone_fields(fields),
        },
        Node::Array(v) => Node::Array(clone_nodes(v)),
    }
}

/// A copy of a node and its span whose model is unchanged.
pub fn clone_ctx_node(c: &ContextualNode) -> (r: ContextualNode)
    ensures
        r@ == c@,
    decreases *c,
{
    ContextualNode(clone_node(&c.0), c.1)
}

impl Clone for Node {
    /// Cloning keeps the node's model.
    fn clone(&self) -> (r: Self)
        ensures
            r@ == self@,
    {
        clone_node(self)
    }
}

impl Clone for ContextualNode {
    /// Cloning keeps the node's model and span.
    fn clone(&self) -> (r: Self)
        ensures
            r@ == self@,
    {
        clone_ctx_node(self)
    }
}

/// A parsed program: its top-level nodes, with the path and full text of the
/// source they came from, kept for diagnostics.
#[derive(Clone, Debug)]
pub struct Program {
    pub tree: Vec<ContextualNode>,
    pub path: String,
    pub text: String,
}

impl Program {
    /// The model of the program's top-level nodes.
    pub open spec fn tree_view(self) -> Seq<CtxNodeView> {
        nodes_view(self.tree@)
    }
}

} // verus!
