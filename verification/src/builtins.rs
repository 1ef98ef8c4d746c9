use vstd::prelude::*;
use vstd::string::StringExecFns;
use crate::errors::{Error, ErrView, Source, Stage};
use crate::span::{pair_span, Span, spec_pair_span};
use crate::text::{int_to_string, str_eq};
use crate::value::{
    anon_view, BuiltinKind, ContextualObject, CtxObjView, entries_view, lemma_entries_view_push,
    Object, ObjView, objs_view,
};

verus! {

/// The `term` namespace: its entries in key order.
pub open spec fn spec_term_namespace() -> ObjView {
    ObjView::Dict(
        seq![
            (
                anon_view(ObjView::Str("clear"@)),
                anon_view(ObjView::Builtin("clear"@, false, BuiltinKind::Clear)),
            ),
            (
                anon_view(ObjView::Str("print"@)),
                anon_view(ObjView::Builtin("print"@, false, BuiltinKind::Print)),
            ),
        ],
    )
}

/// The `process` namespace.
pub open spec fn spec_process_namespace() -> ObjView {
    ObjView::Dict(
        seq![
            (
                anon_view(ObjView::Str("exit"@)),
                anon_view(ObjView::Builtin("exit"@, false, BuiltinKind::Exit)),
            ),
        ],
    )
}

/// The process-level built-in bound to a name, if any: the fallback every
/// scope chain ends in.
pub open spec fn spec_get_builtin(name: Seq<char>) -> Option<CtxObjView> {
    if name == "term"@ {
        Some(anon_view(spec_term_namespace()))
    } else if name == "process"@ {
        Some(anon_view(spec_process_namespace()))
    } else {
        None
    }
}

fn builtin_entry(key: &str, kind: BuiltinKind) -> (r: (ContextualObject, ContextualObject))
    ensures
        r.0@ == anon_view(ObjView::Str(key@)),
        r.1@ == anon_view(ObjView::Builtin(key@, false, kind)),
{
    let k = Object::Str(String::from_str(key)).anonymous();
    let v = Object::Builtin(String::from_str(key), false, kind).anonymous();
    (k, v)
}

/// Look a name up in the built-ins table.
pub fn get_builtin(ident: &str) -> (r: Option<ContextualObject>)
    ensures
        r matches Some(c) ==> spec_get_builtin(ident@) matches Some(cv) && cv == c@,
        r is Some <==> spec_get_builtin(ident@) is Some,
{
    if str_eq(ident, "term") {
        let mut entries: Vec<(ContextualObject, ContextualObject)> = Vec::new();
        let e0 = builtin_entry("clear", BuiltinKind::Clear);
        let e1 = builtin_entry("print", BuiltinKind::Print);
        proof {
            lemma_entries_view_push(entries@, e0);
        }
        entries.push(e0);
        proof {
            lemma_entries_view_push(entries@, e1);
        }
        entries.push(e1);
        proof {
            assert(entries_view(entries@) =~= spec_term_namespace()->Dict_0);
        }
        Some(Object::Dict(entries).anonymous())
    } else if str_eq(ident, "process") {
        let mut entries: Vec<(ContextualObject, ContextualObject)> = Vec::new();
        let e0 = builtin_entry("exit", BuiltinKind::Exit);
        proof {
            lemma_entries_view_push(entries@, e0);
        }
        entries.push(e0);
        proof {
            assert(entries_view(entries@) =~= spec_process_namespace()->Dict_0);
        }
        Some(Object::Dict(entries).anonymous())
    } else {
        None
    }
}

/// The built-in namespaces are well-formed maps: their keys ascend
/// strictly, as the data model asks of every map.
pub proof fn lemma_builtin_namespaces_ordered()
    ensures
        crate::value::spec_dict_ordered(spec_term_namespace()->Dict_0),
        crate::value::spec_dict_ordered(spec_process_namespace()->Dict_0),
{
    reveal_strlit("clear");
    reveal_strlit("print");
    assert(("clear"@).len() == 5);
    assert(("print"@).len() == 5);
    assert(("clear"@)[0] == 'c' && ("print"@)[0] == 'p');
    assert(("clear"@) != ("print"@));
    assert(crate::text::spec_str_le("clear"@, "print"@));
    let term = spec_term_namespace()->Dict_0;
    assert(term[0].0.obj != term[1].0.obj);
    assert(crate::value::spec_ctx_key_le(term[0].0, term[1].0));
    assert(crate::value::spec_dict_ordered(spec_process_namespace()->Dict_0));
}

/// The smallest span covering every argument; the empty span when there are
/// none.
pub open spec fn spec_args_extent(args: Seq<CtxObjView>) -> Span
    decreases args.len(),
{
    if args.len() == 0 {
        Span { start: 0, end: 0 }
    } else if args.len() == 1 {
        args[0].span
    } else {
        spec_pair_span(args[0].span, spec_args_extent(args.subrange(1, args.len() as int)))
    }
}

/// The smallest span covering the arguments of a call, from `from` on.
fn args_extent_from(args: &Vec<ContextualObject>, from: usize) -> (r: Span)
    requires
        from < args@.len(),
    ensures
        r == spec_args_extent(objs_view(args@).subrange(from as int, args@.len() as int)),
    decreases args@.len() - from,
{
    proof {
        crate::value::lemma_objs_view_index(args@, from as int);
    }
    if from == args.len() - 1 {
        proof {
            assert(objs_view(args@).subrange(from as int, args@.len() as int) =~= seq![
                objs_view(args@)[from as int],
            ]);
        }
        args[from].1
    } else {
        let rest = args_extent_from(args, from + 1);
        proof {
            assert(objs_view(args@).subrange(from as int, args@.len() as int).subrange(
                1,
                objs_view(args@).subrange(from as int, args@.len() as int).len() as int,
            ) =~= objs_view(args@).subrange(from as int + 1, args@.len() as int));
            assert(objs_view(args@).subrange(from as int, args@.len() as int)[0] == objs_view(
                args@,
            )[from as int]);
        }
        pair_span(args[from].1, rest)
    }
}

/// The smallest span covering every argument of a call.
pub fn args_extent(args: &Vec<ContextualObject>) -> (r: Span)
    ensures
        r == spec_args_extent(objs_view(args@)),
{
    proof {
        crate::value::lemma_objs_view_len(args@);
    }
    if args.len() == 0 {
        Span { start: 0, end: 0 }
    } else {
        let r = args_extent_from(args, 0);
        proof {
            assert(objs_view(args@).subrange(0, args@.len() as int) =~= objs_view(args@));
        }
        r
    }
}

/// Demand an exact argument count; the error every built-in raises when the
/// count is off.
pub fn assert_args_len(args: &Vec<ContextualObject>, len: usize, src: &Source) -> (r: Result<
    (),
    Error,
>)
    requires
        src.wf(),
    ensures
        r is Ok <==> args@.len() == len,
        r matches Err(e) ==> e@ == (ErrView {
            stage: Stage::InvalidArgumentCount,
            span: spec_args_extent(objs_view(args@)),
        }),
{
    if args.len() != len {
        let span = args_extent(args);
        let mut msg = String::from_str("Expected ");
        msg.append(int_to_string(len as i128).as_str());
        msg.append(" arguments, got ");
        msg.append(int_to_string(args.len() as i128).as_str());
        return Err(Error::new(Stage::InvalidArgumentCount, msg, None, span, src));
    }
    Ok(())
}

/// Demand an argument count within an inclusive range.
pub fn assert_args_range(args: &Vec<ContextualObject>, lo: usize, hi: usize, src: &Source) -> (r:
    Result<(), Error>)
    requires
        src.wf(),
    ensures
        r is Ok <==> lo <= args@.len() <= hi,
        r matches Err(e) ==> e@ == (ErrView {
            stage: Stage::InvalidArgumentCount,
            span: spec_args_extent(objs_view(args@)),
        }),
{
    if args.len() < lo || args.len() > hi {
        let span = args_extent(args);
        let mut msg = String::from_str("Expected between ");
        msg.append(int_to_string(lo as i128).as_str());
        msg.append(" and ");
        msg.append(int_to_string(hi as i128).as_str());
        msg.append(" arguments, got ");
        msg.append(int_to_string(args.len() as i128).as_str());
        return Err(Error::new(Stage::InvalidArgumentCount, msg, None, span, src));
    }
    Ok(())
}

} // verus!
