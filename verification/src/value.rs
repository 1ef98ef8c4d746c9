use vstd::prelude::*;
use vstd::string::StringExecFns;
use crate::ast::{clone_names, clone_nodes, ContextualNode, CtxNodeView, nodes_view};
use crate::errors::{Error, ErrView, Source, Stage};
use crate::num::Int;
use crate::span::{pair_span, Span, spec_pair_span};
use crate::text::{int_to_string, join_strings, spec_int_string, spec_join, strs_view};

verus! {

/// Identifies which built-in or intrinsic routine a `Builtin` value runs;
/// dispatch is by this tag.
#[derive(Copy, Clone, PartialEq, Eq, Structural, Debug)]
pub enum BuiltinKind {
    Print,
    Clear,
    Exit,
    ToString,
    Len,
    Split,
    Join,
    Keys,
    Values,
    Entries,
    MapEach,
    Await,
}

/// A runtime value: the tagged union the evaluator produces and consumes.
#[derive(Debug)]
pub enum Object {
    Integer(Int),
    Bool(bool),
    Str(String),
    Array(Vec<ContextualObject>),
    /// An ordered mapping: the entries carry the map in ascending key order
    /// (`spec_dict_ordered`), which every map this library itself builds is
    /// proved to keep.
    Dict(Vec<(ContextualObject, ContextualObject)>),
    Return(Box<ContextualObject>),
    Builtin(String, bool, BuiltinKind),
    Lambda(Vec<String>, Option<String>, Vec<ContextualNode>),
    Promise(String, String),
    Null,
}

/// A value paired with the span of the expression that produced it;
/// anonymous values carry the empty span.
#[derive(Debug)]
pub struct ContextualObject(pub Object, pub Span);

/// The mathematical shape of a value: integers at full precision, text and
/// lists as sequences. Contracts are stated over this model.
pub enum ObjView {
    Integer(int),
    Bool(bool),
    Str(Seq<char>),
    Array(Seq<CtxObjView>),
    Dict(Seq<(CtxObjView, CtxObjView)>),
    Return(Box<CtxObjView>),
    Builtin(Seq<char>, bool, BuiltinKind),
    Lambda(Seq<Seq<char>>, Option<Seq<char>>, Seq<CtxNodeView>),
    Promise(Seq<char>, Seq<char>),
    Null,
}

/// Model of a value together with its span.
pub struct CtxObjView {
    pub obj: ObjView,
    pub span: Span,
}

/// The model of a value carrying the empty span.
pub open spec fn anon_view(o: ObjView) -> CtxObjView {
    CtxObjView { obj: o, span: Span { start: 0, end: 0 } }
}

/// The model of a value.
pub open spec fn obj_view(o: Object) -> ObjView
    decreases o,
{
    match o {
        Object::Integer(v) => ObjView::Integer(v.spec_max_value()),
        Object::Bool(v) => ObjView::Bool(v),
        Object::Str(v) => ObjView::Str(v@),
        Object::Array(v) => ObjView::Array(objs_view(v@)),
        Object::Dict(v) => ObjView::Dict(entries_view(v@)),
        Object::Return(v) => ObjView::Return(Box::new(ctx_obj_view(*v))),
        Object::Builtin(name, needs_self, kind) => ObjView::Builtin(name@, needs_self, kind),
        Object::Lambda(args, typed, body) => ObjView::Lambda(
            crate::text::strs_view(args@),
            match typed {
                Some(t) => Some(t@),
                None => None,
            },
            nodes_view(body@),
        ),
        Object::Promise(label, id) => ObjView::Promise(label@, id@),
        Object::Null => ObjView::Null,
    }
}

/// The model of a value with its span.
pub open spec fn ctx_obj_view(c: ContextualObject) -> CtxObjView
    decreases c,
{
    CtxObjView { obj: obj_view(c.0), span: c.1 }
}

/// The models of a list of values, in order.
pub open spec fn objs_view(s: Seq<ContextualObject>) -> Seq<CtxObjView>
    decreases s,
{
    if s.len() == 0 {
        Seq::empty()
    } else {
        seq![ctx_obj_view(s[0])] + objs_view(s.subrange(1, s.len() as int))
    }
}

/// The models of a list of map entries, in order.
pub open spec fn entries_view(s: Seq<(ContextualObject, ContextualObject)>) -> Seq<
    (CtxObjView, CtxObjView),
>
    decreases s,
{
    if s.len() == 0 {
        Seq::empty()
    } else {
        seq![(ctx_obj_view(s[0].0), ctx_obj_view(s[0].1))] + entries_view(
            s.subrange(1, s.len() as int),
        )
    }
}

impl View for Object {
    type V = ObjView;

    open spec fn view(&self) -> ObjView {
        obj_view(*self)
    }
}

impl View for ContextualObject {
    type V = CtxObjView;

    open spec fn view(&self) -> CtxObjView {
        ctx_obj_view(*self)
    }
}

/// The value models of a list are the models of its elements, in place.
pub proof fn lemma_objs_view_index(s: Seq<ContextualObject>, i: int)
    requires
        0 <= i < s.len(),
    ensures
        objs_view(s).len() == s.len(),
        objs_view(s)[i] == ctx_obj_view(s[i]),
    decreases s,
{
    lemma_objs_view_len(s);
    if i > 0 {
        lemma_objs_view_index(s.subrange(1, s.len() as int), i - 1);
    }
}

/// A value list's model has the list's length.
pub proof fn lemma_objs_view_len(s: Seq<ContextualObject>)
    ensures
        objs_view(s).len() == s.len(),
    decreases s,
{
    if s.len() > 0 {
        lemma_objs_view_len(s.subrange(1, s.len() as int));
    }
}

/// Appending a value appends its model.
pub proof fn lemma_objs_view_push(s: Seq<ContextualObject>, x: ContextualObject)
    ensures
        objs_view(s.push(x)) == objs_view(s).push(ctx_obj_view(x)),
    decreases s,
{
    if s.len() == 0 {
        let sp = s.push(x);
        assert(sp[0] == x);
        assert(sp.subrange(1, 1) =~= Seq::<ContextualObject>::empty());
        assert(objs_view(sp) == seq![ctx_obj_view(sp[0])] + objs_view(
            sp.subrange(1, sp.len() as int),
        ));
        assert(objs_view(sp.subrange(1, sp.len() as int)) == Seq::<CtxObjView>::empty());
        assert(objs_view(s) == Seq::<CtxObjView>::empty());
        assert(objs_view(sp) =~= objs_view(s).push(ctx_obj_view(x)));
    } else {
        let t = s.subrange(1, s.len() as int);
        assert(s.push(x).subrange(1, s.push(x).len() as int) =~= t.push(x));
        lemma_objs_view_push(t, x);
        assert(s.push(x)[0] == s[0]);
        assert(objs_view(s.push(x)) == seq![ctx_obj_view(s[0])] + objs_view(t.push(x)));
        assert(objs_view(s) == seq![ctx_obj_view(s[0])] + objs_view(t));
        assert(seq![ctx_obj_view(s[0])] + objs_view(t).push(ctx_obj_view(x)) =~= (
        seq![ctx_obj_view(s[0])] + objs_view(t)).push(ctx_obj_view(x)));
    }
}

/// The entry models of a list are the models of its elements, in place.
pub proof fn lemma_entries_view_index(s: Seq<(ContextualObject, ContextualObject)>, i: int)
    requires
        0 <= i < s.len(),
    ensures
        entries_view(s).len() == s.len(),
        entries_view(s)[i] == (ctx_obj_view(s[i].0), ctx_obj_view(s[i].1)),
    decreases s,
{
    lemma_entries_view_len(s);
    if i > 0 {
        lemma_entries_view_index(s.subrange(1, s.len() as int), i - 1);
    }
}

/// An entry list's model has the list's length.
pub proof fn lemma_entries_view_len(s: Seq<(ContextualObject, ContextualObject)>)
    ensures
        entries_view(s).len() == s.len(),
    decreases s,
{
    if s.len() > 0 {
        lemma_entries_view_len(s.subrange(1, s.len() as int));
    }
}

/// Appending an entry appends its model.
pub proof fn lemma_entries_view_push(
    s: Seq<(ContextualObject, ContextualObject)>,
    x: (ContextualObject, ContextualObject),
)
    ensures
        entries_view(s.push(x)) == entries_view(s).push((ctx_obj_view(x.0), ctx_obj_view(x.1))),
    decreases s,
{
    if s.len() == 0 {
        let sp = s.push(x);
        let xv = (ctx_obj_view(x.0), ctx_obj_view(x.1));
        assert(sp[0] == x);
        assert(sp.subrange(1, 1) =~= Seq::<(ContextualObject, ContextualObject)>::empty());
        assert(entries_view(sp) == seq![(ctx_obj_view(sp[0].0), ctx_obj_view(sp[0].1))]
            + entries_view(sp.subrange(1, sp.len() as int)));
        assert(entries_view(sp.subrange(1, sp.len() as int)) == Seq::<(
            CtxObjView,
            CtxObjView,
        )>::empty());
        assert(entries_view(s) == Seq::<(CtxObjView, CtxObjView)>::empty());
        assert(entries_view(sp) =~= entries_view(s).push(xv));
    } else {
        let t = s.subrange(1, s.len() as int);
        let xv = (ctx_obj_view(x.0), ctx_obj_view(x.1));
        assert(s.push(x).subrange(1, s.push(x).len() as int) =~= t.push(x));
        lemma_entries_view_push(t, x);
        assert(s.push(x)[0] == s[0]);
        let hd = (ctx_obj_view(s[0].0), ctx_obj_view(s[0].1));
        assert(entries_view(s.push(x)) == seq![hd] + entries_view(t.push(x)));
        assert(entries_view(s) == seq![hd] + entries_view(t));
        assert(seq![hd] + entries_view(t).push(xv) =~= (seq![hd] + entries_view(t)).push(xv));
    }
}

/// A copy of a value list whose model is unchanged.
pub fn clone_objs(v: &Vec<ContextualObject>) -> (r: Vec<ContextualObject>)
    ensures
        objs_view(r@) == objs_view(v@),
    decreases v@,
{
    let mut out: Vec<ContextualObject> = Vec::new();
    let mut i: usize = 0;
    while i < v.len()
        invariant
            0 <= i <= v@.len(),
            objs_view(out@) == objs_view(v@.subrange(0, i as int)),
        decreases v@.len() - i,
    {
        let c = clone_ctx_obj(&v[i]);
        proof {
            lemma_objs_view_push(out@, c);
            lemma_objs_view_push(v@.subrange(0, i as int), v@[i as int]);
            assert(v@.subrange(0, i as int).push(v@[i as int]) =~= v@.subrange(0, i + 1));
        }
        out.push(c);
        i += 1;
    }
    proof {
        assert(v@.subrange(0, v@.len() as int) =~= v@);
    }
    out
}

fn clone_entries(v: &Vec<(ContextualObject, ContextualObject)>) -> (r: Vec<
    (ContextualObject, ContextualObject),
>)
    ensures
        entries_view(r@) == entries_view(v@),
    decreases v@,
{
    let mut out: Vec<(ContextualObject, ContextualObject)> = Vec::new();
    let mut i: usize = 0;
    while i < v.len()
        invariant
            0 <= i <= v@.len(),
            entries_view(out@) == entries_view(v@.subrange(0, i as int)),
        decreases v@.len() - i,
    {
        let e = (clone_ctx_obj(&v[i].0), clone_ctx_obj(&v[i].1));
        proof {
            lemma_entries_view_push(out@, e);
            lemma_entries_view_push(v@.subrange(0, i as int), v@[i as int]);
            assert(v@.subrange(0, i as int).push(v@[i as int]) =~= v@.subrange(0, i + 1));
        }
        out.push(e);
        i += 1;
    }
    proof {
        assert(v@.subrange(0, v@.len() as int) =~= v@);
    }
    out
}

/// A copy of a value whose model is unchanged.
pub fn clone_obj(o: &Object) -> (r: Object)
    ensures
        r@ == o@,
    decreases *o,
{
    match o {
        Object::Integer(v) => Object::Integer(*v),
        Object::Bool(v) => Object::Bool(*v),
        Object::Str(v) => Object::Str(v.clone()),
        Object::Array(v) => Object::Array(clone_objs(v)),
        Object::Dict(v) => Object::Dict(clone_entries(v)),
        Object::Return(v) => Object::Return(Box::new(clone_ctx_obj(v))),
        Object::Builtin(name, needs_self, kind) => Object::Builtin(
            name.clone(),
            *needs_self,
            *kind,
        ),
        Object::Lambda(args, typed, body) => Object::Lambda(
            clone_names(args),
            match typed {
                Some(t) => Some(t.clone()),
                None => None,
            },
            clone_nodes(body),
        ),
        Object::Promise(label, id) => Object::Promise(label.clone(), id.clone()),
        Object::Null => Object::Null,
    }
}

/// A copy of a value and its span whose model is unchanged.
pub fn clone_ctx_obj(c: &ContextualObject) -> (r: ContextualObject)
    ensures
        r@ == c@,
    decreases *c,
{
    ContextualObject(clone_obj(&c.0), c.1)
}

impl Clone for Object {
    /// Cloning keeps the value's model.
    fn clone(&self) -> (r: Self)
        ensures
            r@ == self@,
    {
        clone_obj(self)
    }
}

impl Clone for ContextualObject {
    /// Cloning keeps the value's model and span.
    fn clone(&self) -> (r: Self)
        ensures
            r@ == self@,
    {
        clone_ctx_obj(self)
    }
}

impl Object {
    /// Pair this value with the span of the expression that produced it.
    pub fn provide_context(&self, span: Span) -> (r: ContextualObject)
        ensures
            r@ == (CtxObjView { obj: self@, span }),
    {
        ContextualObject(clone_obj(self), span)
    }

    /// Pair this value with the empty span.
    pub fn anonymous(self) -> (r: ContextualObject)
        ensures
            r@ == (CtxObjView { obj: self@, span: Span { start: 0, end: 0 } }),
    {
        ContextualObject(self, Span { start: 0, end: 0 })
    }
}

/// The kind tag of a value: what coercion and dispatch go by.
#[derive(Copy, Clone, PartialEq, Eq, Structural, Debug)]
pub enum Kind {
    Integer,
    Bool,
    Str,
    Array,
    Dict,
    Return,
    Builtin,
    Lambda,
    Promise,
    Null,
}

/// The kind tag of a value model.
pub open spec fn kind_of(o: ObjView) -> Kind {
    match o {
        ObjView::Integer(_) => Kind::Integer,
        ObjView::Bool(_) => Kind::Bool,
        ObjView::Str(_) => Kind::Str,
        ObjView::Array(_) => Kind::Array,
        ObjView::Dict(_) => Kind::Dict,
        ObjView::Return(_) => Kind::Return,
        ObjView::Builtin(_, _, _) => Kind::Builtin,
        ObjView::Lambda(_, _, _) => Kind::Lambda,
        ObjView::Promise(_, _) => Kind::Promise,
        ObjView::Null => Kind::Null,
    }
}

/// The language-level name of each kind.
pub open spec fn spec_typed(o: ObjView) -> Seq<char> {
    match kind_of(o) {
        Kind::Integer => "int"@,
        Kind::Bool => "bool"@,
        Kind::Str => "string"@,
        Kind::Array => "array"@,
        Kind::Dict => "map"@,
        Kind::Return => "return"@,
        Kind::Builtin => "builtin"@,
        Kind::Lambda => "lambda"@,
        Kind::Promise => "promise"@,
        Kind::Null => "null"@,
    }
}

impl Object {
    /// The kind tag of this value.
    pub fn kind(&self) -> (r: Kind)
        ensures
            r == kind_of(self@),
    {
        match self {
            Object::Integer(_) => Kind::Integer,
            Object::Bool(_) => Kind::Bool,
            Object::Str(_) => Kind::Str,
            Object::Array(_) => Kind::Array,
            Object::Dict(_) => Kind::Dict,
            Object::Return(_) => Kind::Return,
            Object::Builtin(_, _, _) => Kind::Builtin,
            Object::Lambda(_, _, _) => Kind::Lambda,
            Object::Promise(_, _) => Kind::Promise,
            Object::Null => Kind::Null,
        }
    }

    /// The language-level name of this value's type.
    pub fn typed(&self) -> (r: String)
        ensures
            r@ == spec_typed(self@),
    {
        match self {
            Object::Integer(_) => String::from_str("int"),
            Object::Bool(_) => String::from_str("bool"),
            Object::Str(_) => String::from_str("string"),
            Object::Array(_) => String::from_str("array"),
            Object::Dict(_) => String::from_str("map"),
            Object::Return(_) => String::from_str("return"),
            Object::Builtin(_, _, _) => String::from_str("builtin"),
            Object::Lambda(_, _, _) => String::from_str("lambda"),
            Object::Promise(_, _) => String::from_str("promise"),
            Object::Null => String::from_str("null"),
        }
    }
}

/// The plain rendering of a value: what string coercion and `to_string`
/// produce.
pub open spec fn spec_display(o: ObjView) -> Seq<char>
    decreases o,
{
    match o {
        ObjView::Integer(n) => spec_int_string(n),
        ObjView::Bool(v) => if v {
            "true"@
        } else {
            "false"@
        },
        ObjView::Str(v) => v,
        ObjView::Array(v) => "["@ + spec_join(spec_displays(v), ", "@) + "]"@,
        ObjView::Dict(v) => "{"@ + spec_join(spec_entry_displays(v), ", "@) + "}"@,
        ObjView::Return(v) => "return "@ + spec_display(v.obj),
        ObjView::Builtin(name, _, _) => "#pet.builtin("@ + name + ")"@,
        ObjView::Lambda(args, typed, _) => "#pet.lambda("@ + spec_join(args, ", "@) + "): "@
            + match typed {
            Some(t) => " -> "@ + t,
            None => Seq::empty(),
        },
        ObjView::Promise(_, id) => "#pet.promise("@ + id + ")"@,
        ObjView::Null => "null"@,
    }
}

/// The plain renderings of a list of values.
pub open spec fn spec_displays(v: Seq<CtxObjView>) -> Seq<Seq<char>>
    decreases v,
{
    if v.len() == 0 {
        Seq::empty()
    } else {
        seq![spec_display(v[0].obj)] + spec_displays(v.subrange(1, v.len() as int))
    }
}

/// The plain renderings of a list of map entries, each as `key: value`.
pub open spec fn spec_entry_displays(v: Seq<(CtxObjView, CtxObjView)>) -> Seq<Seq<char>>
    decreases v,
{
    if v.len() == 0 {
        Seq::empty()
    } else {
        seq![spec_display(v[0].0.obj) + ": "@ + spec_display(v[0].1.obj)] + spec_entry_displays(
            v.subrange(1, v.len() as int),
        )
    }
}

/// Rendering one more value appends its rendering.
pub proof fn lemma_spec_displays_push(s: Seq<CtxObjView>, x: CtxObjView)
    ensures
        spec_displays(s.push(x)) == spec_displays(s).push(spec_display(x.obj)),
    decreases s,
{
    if s.len() == 0 {
        let sp = s.push(x);
        assert(sp[0] == x);
        assert(sp.subrange(1, 1) =~= Seq::<CtxObjView>::empty());
        assert(spec_displays(sp) == seq![spec_display(sp[0].obj)] + spec_displays(
            sp.subrange(1, sp.len() as int),
        ));
        assert(spec_displays(sp.subrange(1, sp.len() as int)) == Seq::<Seq<char>>::empty());
        assert(spec_displays(s) == Seq::<Seq<char>>::empty());
        assert(spec_displays(sp) =~= spec_displays(s).push(spec_display(x.obj)));
    } else {
        let t = s.subrange(1, s.len() as int);
        assert(s.push(x).subrange(1, s.push(x).len() as int) =~= t.push(x));
        lemma_spec_displays_push(t, x);
        assert(s.push(x)[0] == s[0]);
        assert(spec_displays(s.push(x)) == seq![spec_display(s[0].obj)] + spec_displays(
            t.push(x),
        ));
        assert(spec_displays(s) == seq![spec_display(s[0].obj)] + spec_displays(t));
        assert(seq![spec_display(s[0].obj)] + spec_displays(t).push(spec_display(x.obj)) =~= (
        seq![spec_display(s[0].obj)] + spec_displays(t)).push(spec_display(x.obj)));
    }
}

/// Rendering one more entry appends its rendering.
pub proof fn lemma_spec_entry_displays_push(
    s: Seq<(CtxObjView, CtxObjView)>,
    x: (CtxObjView, CtxObjView),
)
    ensures
        spec_entry_displays(s.push(x)) == spec_entry_displays(s).push(
            spec_display(x.0.obj) + ": "@ + spec_display(x.1.obj),
        ),
    decreases s,
{
    let xv = spec_display(x.0.obj) + ": "@ + spec_display(x.1.obj);
    if s.len() == 0 {
        let sp = s.push(x);
        assert(sp[0] == x);
        assert(sp.subrange(1, 1) =~= Seq::<(CtxObjView, CtxObjView)>::empty());
        assert(spec_entry_displays(sp) == seq![
            spec_display(sp[0].0.obj) + ": "@ + spec_display(sp[0].1.obj),
        ] + spec_entry_displays(sp.subrange(1, sp.len() as int)));
        assert(spec_entry_displays(sp.subrange(1, sp.len() as int)) == Seq::<Seq<char>>::empty());
        assert(spec_entry_displays(s) == Seq::<Seq<char>>::empty());
        assert(spec_entry_displays(sp) =~= spec_entry_displays(s).push(xv));
    } else {
        let t = s.subrange(1, s.len() as int);
        assert(s.push(x).subrange(1, s.push(x).len() as int) =~= t.push(x));
        lemma_spec_entry_displays_push(t, x);
        assert(s.push(x)[0] == s[0]);
        let hd = spec_display(s[0].0.obj) + ": "@ + spec_display(s[0].1.obj);
        assert(spec_entry_displays(s.push(x)) == seq![hd] + spec_entry_displays(t.push(x)));
        assert(spec_entry_displays(s) == seq![hd] + spec_entry_displays(t));
        assert(seq![hd] + spec_entry_displays(t).push(xv) =~= (seq![hd] + spec_entry_displays(
            t,
        )).push(xv));
    }
}

pub(crate) fn display_list(v: &Vec<ContextualObject>) -> (r: Vec<String>)
    ensures
        strs_view(r@) == spec_displays(objs_view(v@)),
    decreases v@,
{
    let mut out: Vec<String> = Vec::new();
    let mut i: usize = 0;
    while i < v.len()
        invariant
            0 <= i <= v@.len(),
            strs_view(out@) == spec_displays(objs_view(v@.subrange(0, i as int))),
        decreases v@.len() - i,
    {
        let s = display_obj(&v[i].0);
        proof {
            lemma_objs_view_push(v@.subrange(0, i as int), v@[i as int]);
            assert(v@.subrange(0, i as int).push(v@[i as int]) =~= v@.subrange(0, i + 1));
            lemma_spec_displays_push(objs_view(v@.subrange(0, i as int)), ctx_obj_view(v@[i as int]));
            assert(strs_view(out@.push(s)) =~= strs_view(out@).push(s@));
        }
        out.push(s);
        i += 1;
    }
    proof {
        assert(v@.subrange(0, v@.len() as int) =~= v@);
    }
    out
}

fn display_entries(v: &Vec<(ContextualObject, ContextualObject)>) -> (r: Vec<String>)
    ensures
        strs_view(r@) == spec_entry_displays(entries_view(v@)),
    decreases v@,
{
    let mut out: Vec<String> = Vec::new();
    let mut i: usize = 0;
    while i < v.len()
        invariant
            0 <= i <= v@.len(),
            strs_view(out@) == spec_entry_displays(entries_view(v@.subrange(0, i as int))),
        decreases v@.len() - i,
    {
        let k = display_obj(&v[i].0.0);
        let val = display_obj(&v[i].1.0);
        let s = k.concat(": ").concat(val.as_str());
        proof {
            reveal_strlit(": ");
            lemma_entries_view_push(v@.subrange(0, i as int), v@[i as int]);
            assert(v@.subrange(0, i as int).push(v@[i as int]) =~= v@.subrange(0, i + 1));
            lemma_spec_entry_displays_push(
                entries_view(v@.subrange(0, i as int)),
                (ctx_obj_view(v@[i as int].0), ctx_obj_view(v@[i as int].1)),
            );
            assert(strs_view(out@.push(s)) =~= strs_view(out@).push(s@));
        }
        out.push(s);
        i += 1;
    }
    proof {
        assert(v@.subrange(0, v@.len() as int) =~= v@);
    }
    out
}

/// Render a value the way string coercion sees it.
pub fn display_obj(o: &Object) -> (r: String)
    ensures
        r@ == spec_display(o@),
    decreases *o,
{
    match o {
        Object::Integer(v) => int_to_string(v.to_max_value()),
        Object::Bool(v) => {
            if *v {
                String::from_str("true")
            } else {
                String::from_str("false")
            }
        },
        Object::Str(v) => v.clone(),
        Object::Array(v) => {
            let parts = display_list(v);
            let inner = join_strings(&parts, ", ");
            String::from_str("[").concat(inner.as_str()).concat("]")
        },
        Object::Dict(v) => {
            let parts = display_entries(v);
            let inner = join_strings(&parts, ", ");
            String::from_str("{").concat(inner.as_str()).concat("}")
        },
        Object::Return(v) => {
            let inner = display_obj(&(*v).0);
            String::from_str("return ").concat(inner.as_str())
        },
        Object::Builtin(name, _, _) => {
            String::from_str("#pet.builtin(").concat(name.as_str()).concat(")")
        },
        Object::Lambda(args, typed, _) => {
            let joined = join_strings(args, ", ");
            let head = String::from_str("#pet.lambda(").concat(joined.as_str()).concat("): ");
            match typed {
                Some(t) => {
                    let tail = String::from_str(" -> ").concat(t.as_str());
                    head.concat(tail.as_str())
                },
                None => {
                    proof {
                        assert(head@ + Seq::<char>::empty() =~= head@);
                    }
                    head
                },
            }
        },
        Object::Promise(_, id) => {
            String::from_str("#pet.promise(").concat(id.as_str()).concat(")")
        },
        Object::Null => String::from_str("null"),
    }
}

/// The coloured-terminal-free pretty rendering of a value: what the
/// read-eval-print loop and `print` show. Strings are quoted; map entries
/// are braced.
pub open spec fn spec_pretty(o: ObjView) -> Seq<char>
    decreases o,
{
    match o {
        ObjView::Integer(n) => spec_int_string(n),
        ObjView::Bool(v) => if v {
            "true"@
        } else {
            "false"@
        },
        ObjView::Str(v) => "\""@ + v + "\""@,
        ObjView::Array(v) => "["@ + spec_join(spec_pretties(v), ", "@) + "]"@,
        ObjView::Dict(v) => "["@ + spec_join(spec_pretty_entries(v), ", "@) + "]"@,
        ObjView::Return(v) => "return "@ + spec_pretty(v.obj),
        ObjView::Builtin(name, _, _) => "#pet.builtin("@ + name + ")"@,
        ObjView::Lambda(args, typed, _) => "#pet.lambda("@ + spec_join(args, ", "@) + "): "@
            + match typed {
            Some(t) => t,
            None => Seq::empty(),
        },
        ObjView::Promise(_, id) => "#pet.promise("@ + id + ")"@,
        ObjView::Null => "null"@,
    }
}

/// The pretty renderings of a list of values.
pub open spec fn spec_pretties(v: Seq<CtxObjView>) -> Seq<Seq<char>>
    decreases v,
{
    if v.len() == 0 {
        Seq::empty()
    } else {
        seq![spec_pretty(v[0].obj)] + spec_pretties(v.subrange(1, v.len() as int))
    }
}

/// The pretty renderings of a list of map entries, each braced.
pub open spec fn spec_pretty_entries(v: Seq<(CtxObjView, CtxObjView)>) -> Seq<Seq<char>>
    decreases v,
{
    if v.len() == 0 {
        Seq::empty()
    } else {
        seq!["{"@ + spec_pretty(v[0].0.obj) + ": "@ + spec_pretty(v[0].1.obj) + "}"@]
            + spec_pretty_entries(v.subrange(1, v.len() as int))
    }
}

/// Pretty-rendering one more value appends its rendering.
pub proof fn lemma_spec_pretties_push(s: Seq<CtxObjView>, x: CtxObjView)
    ensures
        spec_pretties(s.push(x)) == spec_pretties(s).push(spec_pretty(x.obj)),
    decreases s,
{
    if s.len() == 0 {
        let sp = s.push(x);
        assert(sp[0] == x);
        assert(sp.subrange(1, 1) =~= Seq::<CtxObjView>::empty());
        assert(spec_pretties(sp) == seq![spec_pretty(sp[0].obj)] + spec_pretties(
            sp.subrange(1, sp.len() as int),
        ));
        assert(spec_pretties(sp.subrange(1, sp.len() as int)) == Seq::<Seq<char>>::empty());
        assert(spec_pretties(s) == Seq::<Seq<char>>::empty());
        assert(spec_pretties(sp) =~= spec_pretties(s).push(spec_pretty(x.obj)));
    } else {
        let t = s.subrange(1, s.len() as int);
        assert(s.push(x).subrange(1, s.push(x).len() as int) =~= t.push(x));
        lemma_spec_pretties_push(t, x);
        assert(s.push(x)[0] == s[0]);
        assert(spec_pretties(s.push(x)) == seq![spec_pretty(s[0].obj)] + spec_pretties(
            t.push(x),
        ));
        assert(spec_pretties(s) == seq![spec_pretty(s[0].obj)] + spec_pretties(t));
        assert(seq![spec_pretty(s[0].obj)] + spec_pretties(t).push(spec_pretty(x.obj)) =~= (
        seq![spec_pretty(s[0].obj)] + spec_pretties(t)).push(spec_pretty(x.obj)));
    }
}

/// Pretty-rendering one more entry appends its rendering.
pub proof fn lemma_spec_pretty_entries_push(
    s: Seq<(CtxObjView, CtxObjView)>,
    x: (CtxObjView, CtxObjView),
)
    ensures
        spec_pretty_entries(s.push(x)) == spec_pretty_entries(s).push(
            "{"@ + spec_pretty(x.0.obj) + ": "@ + spec_pretty(x.1.obj) + "}"@,
        ),
    decreases s,
{
    let xv = "{"@ + spec_pretty(x.0.obj) + ": "@ + spec_pretty(x.1.obj) + "}"@;
    if s.len() == 0 {
        let sp = s.push(x);
        assert(sp[0] == x);
        assert(sp.subrange(1, 1) =~= Seq::<(CtxObjView, CtxObjView)>::empty());
        assert(spec_pretty_entries(sp) == seq![
            "{"@ + spec_pretty(sp[0].0.obj) + ": "@ + spec_pretty(sp[0].1.obj) + "}"@,
        ] + spec_pretty_entries(sp.subrange(1, sp.len() as int)));
        assert(spec_pretty_entries(sp.subrange(1, sp.len() as int)) == Seq::<
            Seq<char>,
        >::empty());
        assert(spec_pretty_entries(s) == Seq::<Seq<char>>::empty());
        assert(spec_pretty_entries(sp) =~= spec_pretty_entries(s).push(xv));
    } else {
        let t = s.subrange(1, s.len() as int);
        assert(s.push(x).subrange(1, s.push(x).len() as int) =~= t.push(x));
        lemma_spec_pretty_entries_push(t, x);
        assert(s.push(x)[0] == s[0]);
        let hd = "{"@ + spec_pretty(s[0].0.obj) + ": "@ + spec_pretty(s[0].1.obj) + "}"@;
        assert(spec_pretty_entries(s.push(x)) == seq![hd] + spec_pretty_entries(t.push(x)));
        assert(spec_pretty_entries(s) == seq![hd] + spec_pretty_entries(t));
        assert(seq![hd] + spec_pretty_entries(t).push(xv) =~= (seq![hd] + spec_pretty_entries(
            t,
        )).push(xv));
    }
}

fn pretty_list(v: &Vec<ContextualObject>) -> (r: Vec<String>)
    ensures
        strs_view(r@) == spec_pretties(objs_view(v@)),
    decreases v@,
{
    let mut out: Vec<String> = Vec::new();
    let mut i: usize = 0;
    while i < v.len()
        invariant
            0 <= i <= v@.len(),
            strs_view(out@) == spec_pretties(objs_view(v@.subrange(0, i as int))),
        decreases v@.len() - i,
    {
        let s = pretty_obj(&v[i].0);
        proof {
            lemma_objs_view_push(v@.subrange(0, i as int), v@[i as int]);
            assert(v@.subrange(0, i as int).push(v@[i as int]) =~= v@.subrange(0, i + 1));
            lemma_spec_pretties_push(
                objs_view(v@.subrange(0, i as int)),
                ctx_obj_view(v@[i as int]),
            );
            assert(strs_view(out@.push(s)) =~= strs_view(out@).push(s@));
        }
        out.push(s);
        i += 1;
    }
    proof {
        assert(v@.subrange(0, v@.len() as int) =~= v@);
    }
    out
}

fn pretty_entries(v: &Vec<(ContextualObject, ContextualObject)>) -> (r: Vec<String>)
    ensures
        strs_view(r@) == spec_pretty_entries(entries_view(v@)),
    decreases v@,
{
    let mut out: Vec<String> = Vec::new();
    let mut i: usize = 0;
    while i < v.len()
        invariant
            0 <= i <= v@.len(),
            strs_view(out@) == spec_pretty_entries(entries_view(v@.subrange(0, i as int))),
        decreases v@.len() - i,
    {
        let k = pretty_obj(&v[i].0.0);
        let val = pretty_obj(&v[i].1.0);
        let s = String::from_str("{").concat(k.as_str()).concat(": ").concat(val.as_str()).concat(
            "}",
        );
        proof {
            lemma_entries_view_push(v@.subrange(0, i as int), v@[i as int]);
            assert(v@.subrange(0, i as int).push(v@[i as int]) =~= v@.subrange(0, i + 1));
            lemma_spec_pretty_entries_push(
                entries_view(v@.subrange(0, i as int)),
                (ctx_obj_view(v@[i as int].0), ctx_obj_view(v@[i as int].1)),
            );
            assert(strs_view(out@.push(s)) =~= strs_view(out@).push(s@));
        }
        out.push(s);
        i += 1;
    }
    proof {
        assert(v@.subrange(0, v@.len() as int) =~= v@);
    }
    out
}

/// Render a value for the read-eval-print loop and `print`.
pub fn pretty_obj(o: &Object) -> (r: String)
    ensures
        r@ == spec_pretty(o@),
    decreases *o,
{
    match o {
        Object::Integer(v) => int_to_string(v.to_max_value()),
        Object::Bool(v) => {
            if *v {
                String::from_str("true")
            } else {
                String::from_str("false")
            }
        },
        Object::Str(v) => String::from_str("\"").concat(v.as_str()).concat("\""),
        Object::Array(v) => {
            let parts = pretty_list(v);
            let inner = join_strings(&parts, ", ");
            String::from_str("[").concat(inner.as_str()).concat("]")
        },
        Object::Dict(v) => {
            let parts = pretty_entries(v);
            let inner = join_strings(&parts, ", ");
            String::from_str("[").concat(inner.as_str()).concat("]")
        },
        Object::Return(v) => {
            let inner = pretty_obj(&(*v).0);
            String::from_str("return ").concat(inner.as_str())
        },
        Object::Builtin(name, _, _) => {
            String::from_str("#pet.builtin(").concat(name.as_str()).concat(")")
        },
        Object::Lambda(args, typed, _) => {
            let joined = join_strings(args, ", ");
            let head = String::from_str("#pet.lambda(").concat(joined.as_str()).concat("): ");
            match typed {
                Some(t) => head.concat(t.as_str()),
                None => {
                    proof {
                        assert(head@ + Seq::<char>::empty() =~= head@);
                    }
                    head
                },
            }
        },
        Object::Promise(_, id) => {
            String::from_str("#pet.promise(").concat(id.as_str()).concat(")")
        },
        Object::Null => String::from_str("null"),
    }
}

impl Object {
    /// Render this value for display in the read-eval-print loop.
    pub fn pretty_print(&self) -> (r: String)
        ensures
            r@ == spec_pretty(self@),
    {
        pretty_obj(self)
    }

    /// Render this value the way string coercion sees it.
    pub fn to_display(&self) -> (r: String)
        ensures
            r@ == spec_display(self@),
    {
        display_obj(self)
    }
}

/// Pairwise coercion before a binary operation: operands of one kind stay as
/// they are; a string on either side turns the other operand into its plain
/// rendering; anything else is a coercion error spanning both operands.
pub open spec fn spec_coerce(a: CtxObjView, b: CtxObjView) -> Result<
    (CtxObjView, CtxObjView),
    ErrView,
> {
    if kind_of(a.obj) == kind_of(b.obj) {
        Ok((a, b))
    } else if kind_of(b.obj) == Kind::Str {
        Ok((CtxObjView { obj: ObjView::Str(spec_display(a.obj)), span: a.span }, b))
    } else if kind_of(a.obj) == Kind::Str {
        Ok((a, CtxObjView { obj: ObjView::Str(spec_display(b.obj)), span: b.span }))
    } else {
        Err(ErrView { stage: Stage::Coercing, span: spec_pair_span(a.span, b.span) })
    }
}

impl Object {
    /// Coerce two operands pairwise to a common type; `spec_coerce` gives
    /// the exact outcome, error included, and the error's message names the
    /// two type tags it could not join.
    pub fn coerce(a: ContextualObject, b: ContextualObject, src: &Source) -> (r: Result<
        (ContextualObject, ContextualObject),
        Error,
    >)
        requires
            src.wf(),
        ensures
            r matches Ok(p) ==> spec_coerce(a@, b@) matches Ok(q) && q.0 == p.0@ && q.1 == p.1@,
            r matches Err(e) ==> spec_coerce(a@, b@) matches Err(ev) && e@ == ev,
            r matches Err(e) ==> e.error@ == "Cannot coerce "@ + spec_typed(a@.obj) + " -> "@
                + spec_typed(b@.obj),
            r is Ok <==> spec_coerce(a@, b@) is Ok,
    {
        let ka = a.0.kind();
        let kb = b.0.kind();
        if ka == kb {
            Ok((a, b))
        } else if kb == Kind::Str {
            let s = display_obj(&a.0);
            let span = a.1;
            Ok((ContextualObject(Object::Str(s), span), b))
        } else if ka == Kind::Str {
            let s = display_obj(&b.0);
            let span = b.1;
            Ok((a, ContextualObject(Object::Str(s), span)))
        } else {
            let msg = String::from_str("Cannot coerce ").concat(a.0.typed().as_str()).concat(
                " -> ",
            ).concat(b.0.typed().as_str());
            Err(
                Error::new(
                    Stage::Coercing,
                    msg,
                    Some(String::from_str("You might be missing a cast")),
                    pair_span(a.1, b.1),
                    src,
                ),
            )
        }
    }
}

/// The rank of a value's kind in the structural key order.
pub open spec fn spec_kind_rank(o: ObjView) -> int {
    match o {
        ObjView::Integer(_) => 0,
        ObjView::Bool(_) => 1,
        ObjView::Str(_) => 2,
        ObjView::Array(_) => 3,
        ObjView::Dict(_) => 4,
        ObjView::Return(_) => 5,
        ObjView::Builtin(_, _, _) => 6,
        ObjView::Lambda(_, _, _) => 7,
        ObjView::Promise(_, _) => 8,
        ObjView::Null => 9,
    }
}

/// The structural order on values that map iteration follows: by kind rank
/// first, then by payload — integers by magnitude, booleans false first,
/// text and lists lexicographically, entries pairwise, a wrapped return by
/// its inner value; callables and promises compare by their rendering.
pub open spec fn spec_obj_le(a: ObjView, b: ObjView) -> bool
    decreases a,
{
    if spec_kind_rank(a) != spec_kind_rank(b) {
        spec_kind_rank(a) < spec_kind_rank(b)
    } else {
        match (a, b) {
            (ObjView::Integer(x), ObjView::Integer(y)) => x <= y,
            (ObjView::Bool(x), ObjView::Bool(y)) => !x || y,
            (ObjView::Str(x), ObjView::Str(y)) => crate::text::spec_str_le(x, y),
            (ObjView::Array(x), ObjView::Array(y)) => spec_ctx_list_le(x, y),
            (ObjView::Dict(x), ObjView::Dict(y)) => spec_entry_list_le(x, y),
            (ObjView::Return(x), ObjView::Return(y)) => spec_ctx_key_le(*x, *y),
            (ObjView::Null, ObjView::Null) => true,
            _ => crate::text::spec_str_le(spec_display(a), spec_display(b)),
        }
    }
}

/// The key order on values carrying spans: the value decides, the span's
/// start breaks ties.
pub open spec fn spec_ctx_key_le(a: CtxObjView, b: CtxObjView) -> bool
    decreases a,
{
    if a.obj == b.obj {
        a.span.start <= b.span.start
    } else {
        spec_obj_le(a.obj, b.obj)
    }
}

/// Lexicographic order on value lists.
pub open spec fn spec_ctx_list_le(x: Seq<CtxObjView>, y: Seq<CtxObjView>) -> bool
    decreases x,
{
    if x.len() == 0 {
        true
    } else if y.len() == 0 {
        false
    } else if x[0] == y[0] {
        spec_ctx_list_le(x.subrange(1, x.len() as int), y.subrange(1, y.len() as int))
    } else {
        spec_ctx_key_le(x[0], y[0])
    }
}

/// Lexicographic order on entry lists: the first differing entry decides,
/// its key before its value.
pub open spec fn spec_entry_list_le(
    x: Seq<(CtxObjView, CtxObjView)>,
    y: Seq<(CtxObjView, CtxObjView)>,
) -> bool
    decreases x,
{
    if x.len() == 0 {
        true
    } else if y.len() == 0 {
        false
    } else if x[0] == y[0] {
        spec_entry_list_le(x.subrange(1, x.len() as int), y.subrange(1, y.len() as int))
    } else if x[0].0 == y[0].0 {
        spec_ctx_key_le(x[0].1, y[0].1)
    } else {
        spec_ctx_key_le(x[0].0, y[0].0)
    }
}

/// Map well-formedness per the data model: each key strictly before the
/// next, so keys are unique and iteration order is the key ordering.
pub open spec fn spec_dict_ordered(v: Seq<(CtxObjView, CtxObjView)>) -> bool {
    forall|i: int|
        0 <= i && i + 1 < v.len() ==> (spec_ctx_key_le(#[trigger] v[i].0, v[i + 1].0) && v[i].0
            != v[i + 1].0)
}

/// Coercion symmetry: swapping the operands succeeds in exactly the same
/// cases, and the two calls agree on the common kind of the operands they
/// produce.
pub proof fn lemma_coerce_symmetry(a: CtxObjView, b: CtxObjView)
    ensures
        spec_coerce(a, b) is Ok <==> spec_coerce(b, a) is Ok,
        spec_coerce(a, b) matches Ok(p) ==> kind_of(p.0.obj) == kind_of(p.1.obj),
        spec_coerce(a, b) matches Ok(p) ==> (spec_coerce(b, a) matches Ok(q) && kind_of(p.0.obj)
            == kind_of(q.0.obj) && kind_of(p.1.obj) == kind_of(q.1.obj)),
{
}

} // verus!
