use vstd::prelude::*;
use vstd::string::StringExecFns;
use vstd::string::StrSliceExecFns;
use crate::builtins::{assert_args_len, assert_args_range, spec_args_extent};
use crate::errors::{Error, ErrView, Source, Stage};
use crate::num::Int;
use crate::text::{spec_join, str_eq, strs_view};
use crate::value::{
    anon_view, BuiltinKind, ContextualObject, clone_ctx_obj, CtxObjView, display_list,
    lemma_entries_view_index, lemma_objs_view_push, Object, ObjView, objs_view, spec_display,
    spec_displays,
};

verus! {

/// The names of the intrinsic methods of a type tag; every type has
/// `to_string`.
pub open spec fn spec_list_intrinsics(typed: Seq<char>) -> Seq<Seq<char>> {
    if typed == "string"@ {
        seq!["to_string"@, "len"@, "split"@]
    } else if typed == "array"@ {
        seq!["to_string"@, "len"@, "join"@, "map"@]
    } else if typed == "map"@ {
        seq!["to_string"@, "keys"@, "values"@, "entries"@]
    } else if typed == "promise"@ {
        seq!["to_string"@, "await"@]
    } else {
        seq!["to_string"@]
    }
}

/// The intrinsic bound to a name, if any: a method value that demands a
/// `self`.
pub open spec fn spec_get_intrinsic(name: Seq<char>) -> Option<CtxObjView> {
    if name == "to_string"@ {
        Some(anon_view(ObjView::Builtin(name, true, BuiltinKind::ToString)))
    } else if name == "len"@ {
        Some(anon_view(ObjView::Builtin(name, true, BuiltinKind::Len)))
    } else if name == "split"@ {
        Some(anon_view(ObjView::Builtin(name, true, BuiltinKind::Split)))
    } else if name == "join"@ {
        Some(anon_view(ObjView::Builtin(name, true, BuiltinKind::Join)))
    } else if name == "keys"@ {
        Some(anon_view(ObjView::Builtin(name, true, BuiltinKind::Keys)))
    } else if name == "values"@ {
        Some(anon_view(ObjView::Builtin(name, true, BuiltinKind::Values)))
    } else if name == "entries"@ {
        Some(anon_view(ObjView::Builtin(name, true, BuiltinKind::Entries)))
    } else if name == "map"@ {
        Some(anon_view(ObjView::Builtin(name, true, BuiltinKind::MapEach)))
    } else if name == "await"@ {
        Some(anon_view(ObjView::Builtin(name, true, BuiltinKind::Await)))
    } else {
        None
    }
}

/// List the intrinsic method names of a type tag.
pub fn list_instrinsics(typed: &str) -> (r: Vec<String>)
    ensures
        strs_view(r@) == spec_list_intrinsics(typed@),
{
    let mut out: Vec<String> = Vec::new();
    out.push(String::from_str("to_string"));
    if str_eq(typed, "string") {
        out.push(String::from_str("len"));
        out.push(String::from_str("split"));
    } else if str_eq(typed, "array") {
        out.push(String::from_str("len"));
        out.push(String::from_str("join"));
        out.push(String::from_str("map"));
    } else if str_eq(typed, "map") {
        out.push(String::from_str("keys"));
        out.push(String::from_str("values"));
        out.push(String::from_str("entries"));
    } else if str_eq(typed, "promise") {
        out.push(String::from_str("await"));
    }
    proof {
        assert(strs_view(out@) =~= spec_list_intrinsics(typed@));
    }
    out
}

/// Look an intrinsic up by name.
pub fn get_intrinsic(ident: &str) -> (r: Option<ContextualObject>)
    ensures
        r matches Some(c) ==> spec_get_intrinsic(ident@) matches Some(cv) && cv == c@,
        r is Some <==> spec_get_intrinsic(ident@) is Some,
{
    let kind: BuiltinKind = if str_eq(ident, "to_string") {
        BuiltinKind::ToString
    } else if str_eq(ident, "len") {
        BuiltinKind::Len
    } else if str_eq(ident, "split") {
        BuiltinKind::Split
    } else if str_eq(ident, "join") {
        BuiltinKind::Join
    } else if str_eq(ident, "keys") {
        BuiltinKind::Keys
    } else if str_eq(ident, "values") {
        BuiltinKind::Values
    } else if str_eq(ident, "entries") {
        BuiltinKind::Entries
    } else if str_eq(ident, "map") {
        BuiltinKind::MapEach
    } else if str_eq(ident, "await") {
        BuiltinKind::Await
    } else {
        return None;
    };
    Some(Object::Builtin(String::from_str(ident), true, kind).anonymous())
}

/// Every intrinsic that a type lists is resolvable, and demands a `self`:
/// the dispatch-table half of the indexing-closure law.
pub proof fn lemma_intrinsics_resolvable(typed: Seq<char>, i: int)
    requires
        0 <= i < spec_list_intrinsics(typed).len(),
    ensures
        spec_get_intrinsic(spec_list_intrinsics(typed)[i]) matches Some(c) && (c.obj matches
            ObjView::Builtin(n, needs_self, _) && n == spec_list_intrinsics(typed)[i]
            && needs_self),
{
}

/// What `to_string` returns: the plain rendering of `self`.
pub open spec fn spec_intr_to_string(args: Seq<CtxObjView>) -> Result<CtxObjView, ErrView> {
    if args.len() != 1 {
        Err(ErrView { stage: Stage::InvalidArgumentCount, span: spec_args_extent(args) })
    } else {
        Ok(anon_view(ObjView::Str(spec_display(args[0].obj))))
    }
}

/// Render `self` as a string.
pub fn intr_to_string(args: &Vec<ContextualObject>, src: &Source) -> (r: Result<
    ContextualObject,
    Error,
>)
    requires
        src.wf(),
    ensures
        r matches Ok(v) ==> spec_intr_to_string(objs_view(args@)) matches Ok(sv) && sv == v@,
        r matches Err(e) ==> spec_intr_to_string(objs_view(args@)) matches Err(ev) && ev == e@,
        r is Ok <==> spec_intr_to_string(objs_view(args@)) is Ok,
{
    proof {
        crate::value::lemma_objs_view_len(args@);
    }
    if let Err(e) = assert_args_len(args, 1, src) {
        return Err(e);
    }
    proof {
        crate::value::lemma_objs_view_index(args@, 0);
    }
    let s = crate::value::display_obj(&args[0].0);
    Ok(Object::Str(s).anonymous())
}

/// What `len` returns: the element count of an array, or the byte count of
/// a string's UTF-8 encoding; other types are a type error.
pub open spec fn spec_intr_len(args: Seq<CtxObjView>) -> Result<CtxObjView, ErrView> {
    if args.len() != 1 {
        Err(ErrView { stage: Stage::InvalidArgumentCount, span: spec_args_extent(args) })
    } else {
        match args[0].obj {
            ObjView::Array(v) => Ok(anon_view(ObjView::Integer(v.len() as int))),
            ObjView::Str(s) => Ok(anon_view(ObjView::Integer(crate::text::spec_utf8_len(s)))),
            _ => Err(ErrView { stage: Stage::CheckingTypes, span: args[0].span }),
        }
    }
}

/// The length of `self`.
pub fn intr_len(args: &Vec<ContextualObject>, src: &Source) -> (r: Result<ContextualObject, Error>)
    requires
        src.wf(),
    ensures
        r matches Ok(v) ==> spec_intr_len(objs_view(args@)) matches Ok(sv) && sv == v@,
        r matches Err(e) ==> spec_intr_len(objs_view(args@)) matches Err(ev) && ev == e@,
        r is Ok <==> spec_intr_len(objs_view(args@)) is Ok,
{
    proof {
        crate::value::lemma_objs_view_len(args@);
    }
    if let Err(e) = assert_args_len(args, 1, src) {
        return Err(e);
    }
    proof {
        crate::value::lemma_objs_view_index(args@, 0);
    }
    match &args[0].0 {
        Object::Array(v) => {
            proof {
                crate::value::lemma_objs_view_len(v@);
            }
            Ok(Object::Integer(Int::fit(v.len() as i128)).anonymous())
        },
        Object::Str(s) => {
            let n = crate::text::utf8_len(s.as_str());
            Ok(Object::Integer(Int::fit(n as i128)).anonymous())
        },
        _ => {
            let msg = String::from_str("Can't get length of type ").concat(
                args[0].0.typed().as_str(),
            );
            Err(Error::new(Stage::CheckingTypes, msg, None, args[0].1, src))
        },
    }
}

/// What `keys` returns: the keys of a map, in entry order.
pub open spec fn spec_intr_keys(args: Seq<CtxObjView>) -> Result<CtxObjView, ErrView> {
    if args.len() != 1 {
        Err(ErrView { stage: Stage::InvalidArgumentCount, span: spec_args_extent(args) })
    } else {
        match args[0].obj {
            ObjView::Dict(v) => Ok(
                anon_view(ObjView::Array(Seq::new(v.len(), |i: int| v[i].0))),
            ),
            _ => Err(ErrView { stage: Stage::CheckingTypes, span: args[0].span }),
        }
    }
}

/// What `values` returns: the values of a map, in entry order.
pub open spec fn spec_intr_values(args: Seq<CtxObjView>) -> Result<CtxObjView, ErrView> {
    if args.len() != 1 {
        Err(ErrView { stage: Stage::InvalidArgumentCount, span: spec_args_extent(args) })
    } else {
        match args[0].obj {
            ObjView::Dict(v) => Ok(
                anon_view(ObjView::Array(Seq::new(v.len(), |i: int| v[i].1))),
            ),
            _ => Err(ErrView { stage: Stage::CheckingTypes, span: args[0].span }),
        }
    }
}

/// What `entries` returns: each entry as a two-element array, in entry
/// order.
pub open spec fn spec_intr_entries(args: Seq<CtxObjView>) -> Result<CtxObjView, ErrView> {
    if args.len() != 1 {
        Err(ErrView { stage: Stage::InvalidArgumentCount, span: spec_args_extent(args) })
    } else {
        match args[0].obj {
            ObjView::Dict(v) => Ok(
                anon_view(
                    ObjView::Array(
                        Seq::new(
                            v.len(),
                            |i: int| anon_view(ObjView::Array(seq![v[i].0, v[i].1])),
                        ),
                    ),
                ),
            ),
            _ => Err(ErrView { stage: Stage::CheckingTypes, span: args[0].span }),
        }
    }
}

/// The keys of `self`.
pub fn intr_keys(args: &Vec<ContextualObject>, src: &Source) -> (r: Result<ContextualObject, Error>)
    requires
        src.wf(),
    ensures
        r matches Ok(v) ==> spec_intr_keys(objs_view(args@)) matches Ok(sv) && sv == v@,
        r matches Err(e) ==> spec_intr_keys(objs_view(args@)) matches Err(ev) && ev == e@,
        r is Ok <==> spec_intr_keys(objs_view(args@)) is Ok,
{
    proof {
        crate::value::lemma_objs_view_len(args@);
    }
    if let Err(e) = assert_args_len(args, 1, src) {
        return Err(e);
    }
    proof {
        crate::value::lemma_objs_view_index(args@, 0);
    }
    match &args[0].0 {
        Object::Dict(v) => {
            let mut out: Vec<ContextualObject> = Vec::new();
            let mut i: usize = 0;
            while i < v.len()
                invariant
                    0 <= i <= v@.len(),
                    objs_view(out@) =~= Seq::new(
                        i as nat,
                        |j: int| crate::value::entries_view(v@)[j].0,
                    ),
                decreases v@.len() - i,
            {
                let k = clone_ctx_obj(&v[i].0);
                proof {
                    lemma_objs_view_push(out@, k);
                    lemma_entries_view_index(v@, i as int);
                }
                out.push(k);
                proof {
                    assert(objs_view(out@) =~= Seq::new(
                        (i + 1) as nat,
                        |j: int| crate::value::entries_view(v@)[j].0,
                    ));
                }
                i += 1;
            }
            proof {
                crate::value::lemma_entries_view_len(v@);
                assert(objs_view(out@) =~= Seq::new(
                    v@.len(),
                    |j: int| crate::value::entries_view(v@)[j].0,
                ));
            }
            Ok(Object::Array(out).anonymous())
        },
        _ => {
            let msg = String::from_str("Can't get keys of type ").concat(
                args[0].0.typed().as_str(),
            );
            Err(Error::new(Stage::CheckingTypes, msg, None, args[0].1, src))
        },
    }
}

/// The values of `self`.
pub fn intr_values(args: &Vec<ContextualObject>, src: &Source) -> (r: Result<
    ContextualObject,
    Error,
>)
    requires
        src.wf(),
    ensures
        r matches Ok(v) ==> spec_intr_values(objs_view(args@)) matches Ok(sv) && sv == v@,
        r matches Err(e) ==> spec_intr_values(objs_view(args@)) matches Err(ev) && ev == e@,
        r is Ok <==> spec_intr_values(objs_view(args@)) is Ok,
{
    proof {
        crate::value::lemma_objs_view_len(args@);
    }
    if let Err(e) = assert_args_len(args, 1, src) {
        return Err(e);
    }
    proof {
        crate::value::lemma_objs_view_index(args@, 0);
    }
    match &args[0].0 {
        Object::Dict(v) => {
            let mut out: Vec<ContextualObject> = Vec::new();
            let mut i: usize = 0;
            while i < v.len()
                invariant
                    0 <= i <= v@.len(),
                    objs_view(out@) =~= Seq::new(
                        i as nat,
                        |j: int| crate::value::entries_view(v@)[j].1,
                    ),
                decreases v@.len() - i,
            {
                let val = clone_ctx_obj(&v[i].1);
                proof {
                    lemma_objs_view_push(out@, val);
                    lemma_entries_view_index(v@, i as int);
                }
                out.push(val);
                proof {
                    assert(objs_view(out@) =~= Seq::new(
                        (i + 1) as nat,
                        |j: int| crate::value::entries_view(v@)[j].1,
                    ));
                }
                i += 1;
            }
            proof {
                crate::value::lemma_entries_view_len(v@);
                assert(objs_view(out@) =~= Seq::new(
                    v@.len(),
                    |j: int| crate::value::entries_view(v@)[j].1,
                ));
            }
            Ok(Object::Array(out).anonymous())
        },
        _ => {
            let msg = String::from_str("Can't get values of type ").concat(
                args[0].0.typed().as_str(),
            );
            Err(Error::new(Stage::CheckingTypes, msg, None, args[0].1, src))
        },
    }
}

/// Each entry of `self` as a two-element array.
pub fn intr_entries(args: &Vec<ContextualObject>, src: &Source) -> (r: Result<
    ContextualObject,
    Error,
>)
    requires
        src.wf(),
    ensures
        r matches Ok(v) ==> spec_intr_entries(objs_view(args@)) matches Ok(sv) && sv == v@,
        r matches Err(e) ==> spec_intr_entries(objs_view(args@)) matches Err(ev) && ev == e@,
        r is Ok <==> spec_intr_entries(objs_view(args@)) is Ok,
{
    proof {
        crate::value::lemma_objs_view_len(args@);
    }
    if let Err(e) = assert_args_len(args, 1, src) {
        return Err(e);
    }
    proof {
        crate::value::lemma_objs_view_index(args@, 0);
    }
    match &args[0].0 {
        Object::Dict(v) => {
            let mut out: Vec<ContextualObject> = Vec::new();
            let mut i: usize = 0;
            while i < v.len()
                invariant
                    0 <= i <= v@.len(),
                    objs_view(out@) =~= Seq::new(
                        i as nat,
                        |j: int| anon_view(
                            ObjView::Array(
                                seq![
                                    crate::value::entries_view(v@)[j].0,
                                    crate::value::entries_view(v@)[j].1,
                                ],
                            ),
                        ),
                    ),
                decreases v@.len() - i,
            {
                let k = clone_ctx_obj(&v[i].0);
                let val = clone_ctx_obj(&v[i].1);
                let mut pair: Vec<ContextualObject> = Vec::new();
                proof {
                    lemma_objs_view_push(pair@, k);
                }
                pair.push(k);
                proof {
                    lemma_objs_view_push(pair@, val);
                }
                pair.push(val);
                let entry = Object::Array(pair).anonymous();
                proof {
                    lemma_entries_view_index(v@, i as int);
                    lemma_objs_view_push(out@, entry);
                    assert(objs_view(pair@) =~= seq![
                        crate::value::entries_view(v@)[i as int].0,
                        crate::value::entries_view(v@)[i as int].1,
                    ]);
                }
                out.push(entry);
                proof {
                    assert(objs_view(out@) =~= Seq::new(
                        (i + 1) as nat,
                        |j: int| anon_view(
                            ObjView::Array(
                                seq![
                                    crate::value::entries_view(v@)[j].0,
                                    crate::value::entries_view(v@)[j].1,
                                ],
                            ),
                        ),
                    ));
                }
                i += 1;
            }
            proof {
                crate::value::lemma_entries_view_len(v@);
                assert(objs_view(out@) =~= Seq::new(
                    v@.len(),
                    |j: int| anon_view(
                        ObjView::Array(
                            seq![
                                crate::value::entries_view(v@)[j].0,
                                crate::value::entries_view(v@)[j].1,
                            ],
                        ),
                    ),
                ));
            }
            Ok(Object::Array(out).anonymous())
        },
        _ => {
            let msg = String::from_str("Can't get entries of type ").concat(
                args[0].0.typed().as_str(),
            );
            Err(Error::new(Stage::CheckingTypes, msg, None, args[0].1, src))
        },
    }
}

/// What `join` returns: the plain renderings of the elements of `self`,
/// joined with the given string separator.
pub open spec fn spec_intr_join(args: Seq<CtxObjView>) -> Result<CtxObjView, ErrView> {
    if args.len() != 2 {
        Err(ErrView { stage: Stage::InvalidArgumentCount, span: spec_args_extent(args) })
    } else {
        match args[1].obj {
            ObjView::Str(sep) => match args[0].obj {
                ObjView::Array(v) => Ok(
                    anon_view(ObjView::Str(spec_join(spec_displays(v), sep))),
                ),
                _ => Err(ErrView { stage: Stage::CheckingTypes, span: args[0].span }),
            },
            _ => Err(ErrView { stage: Stage::CheckingTypes, span: args[1].span }),
        }
    }
}

/// Join the renderings of the elements of `self` with a separator.
pub fn intr_join(args: &Vec<ContextualObject>, src: &Source) -> (r: Result<ContextualObject, Error>)
    requires
        src.wf(),
    ensures
        r matches Ok(v) ==> spec_intr_join(objs_view(args@)) matches Ok(sv) && sv == v@,
        r matches Err(e) ==> spec_intr_join(objs_view(args@)) matches Err(ev) && ev == e@,
        r is Ok <==> spec_intr_join(objs_view(args@)) is Ok,
{
    proof {
        crate::value::lemma_objs_view_len(args@);
    }
    if let Err(e) = assert_args_len(args, 2, src) {
        return Err(e);
    }
    proof {
        crate::value::lemma_objs_view_index(args@, 0);
        crate::value::lemma_objs_view_index(args@, 1);
    }
    let sep: &String = match &args[1].0 {
        Object::Str(s) => s,
        _ => {
            let msg = String::from_str("Can't join with type ").concat(args[1].0.typed().as_str());
            return Err(Error::new(Stage::CheckingTypes, msg, None, args[1].1, src));
        },
    };
    match &args[0].0 {
        Object::Array(v) => {
            let parts = display_list(v);
            let joined = crate::text::join_strings(&parts, sep.as_str());
            Ok(Object::Str(joined).anonymous())
        },
        _ => {
            let msg = String::from_str("Can't join type ").concat(args[0].0.typed().as_str());
            Err(Error::new(Stage::CheckingTypes, msg, None, args[0].1, src))
        },
    }
}

/// The separator occurs in `s` at position `i`.
pub open spec fn match_at(s: Seq<char>, sep: Seq<char>, i: int) -> bool {
    0 <= i && i + sep.len() <= s.len() && s.subrange(i, i + sep.len() as int) == sep
}

/// The first position at or after `from` where the separator occurs.
pub open spec fn spec_find(s: Seq<char>, sep: Seq<char>, from: int) -> Option<int>
    decreases s.len() - from,
{
    if from < 0 || sep.len() == 0 || from + sep.len() > s.len() {
        None
    } else if match_at(s, sep, from) {
        Some(from)
    } else {
        spec_find(s, sep, from + 1)
    }
}

/// A found position lies within the text and at or after the start of the
/// search.
pub proof fn lemma_spec_find_bounds(s: Seq<char>, sep: Seq<char>, from: int)
    ensures
        spec_find(s, sep, from) matches Some(i) ==> from <= i && match_at(s, sep, i),
    decreases s.len() - from,
{
    if from >= 0 && sep.len() > 0 && from + sep.len() <= s.len() && !match_at(s, sep, from) {
        lemma_spec_find_bounds(s, sep, from + 1);
    }
}

/// The pieces of `s` split on a non-empty separator, scanning from `from`:
/// the text between consecutive occurrences, ends included.
pub open spec fn spec_split_from(s: Seq<char>, sep: Seq<char>, from: int) -> Seq<Seq<char>>
    decreases s.len() - from,
    when 0 <= from <= s.len() && sep.len() > 0
    via spec_split_from_decreases
{
    match spec_find(s, sep, from) {
        None => seq![s.subrange(from, s.len() as int)],
        Some(i) => seq![s.subrange(from, i)] + spec_split_from(s, sep, i + sep.len()),
    }
}

#[via_fn]
proof fn spec_split_from_decreases(s: Seq<char>, sep: Seq<char>, from: int) {
    lemma_spec_find_bounds(s, sep, from);
}

/// The models of split pieces: each an anonymous string value.
pub open spec fn parts_as_objs(parts: Seq<Seq<char>>) -> Seq<CtxObjView> {
    Seq::new(parts.len(), |i: int| anon_view(ObjView::Str(parts[i])))
}

/// What `split` returns. With a non-empty string separator, the pieces of
/// `self` between occurrences; with an empty one, one single-character
/// string per character. A non-string separator or `self` is a type error.
pub open spec fn spec_intr_split(args: Seq<CtxObjView>) -> Result<CtxObjView, ErrView> {
    if args.len() < 1 || args.len() > 2 {
        Err(ErrView { stage: Stage::InvalidArgumentCount, span: spec_args_extent(args) })
    } else {
        let sepc = if args.len() == 2 {
            args[1]
        } else {
            anon_view(ObjView::Str(Seq::empty()))
        };
        match sepc.obj {
            ObjView::Str(sep) => match args[0].obj {
                ObjView::Str(v) => Ok(
                    anon_view(
                        ObjView::Array(
                            if sep.len() == 0 {
                                Seq::new(v.len(), |i: int| anon_view(ObjView::Str(seq![v[i]])))
                            } else {
                                parts_as_objs(spec_split_from(v, sep, 0))
                            },
                        ),
                    ),
                ),
                _ => Err(ErrView { stage: Stage::CheckingTypes, span: args[0].span }),
            },
            _ => Err(ErrView { stage: Stage::CheckingTypes, span: sepc.span }),
        }
    }
}

fn check_match(s: &str, sep: &str, i: usize) -> (r: bool)
    requires
        i + sep@.len() <= s@.len(),
    ensures
        r == match_at(s@, sep@, i as int),
{
    let s_len = s.unicode_len();
    let sep_len = sep.unicode_len();
    let mut j: usize = 0;
    while j < sep_len
        invariant
            s_len == s@.len(),
            sep_len == sep@.len(),
            i + sep@.len() <= s@.len(),
            0 <= j <= sep_len,
            forall|k: int| 0 <= k < j ==> s@[i + k] == sep@[k],
        decreases sep_len - j,
    {
        if s.get_char(i + j) != sep.get_char(j) {
            proof {
                assert(s@.subrange(i as int, i + sep@.len() as int)[j as int] != sep@[j as int]);
            }
            return false;
        }
        j += 1;
    }
    proof {
        assert(s@.subrange(i as int, i + sep@.len() as int) =~= sep@);
    }
    true
}

fn find_from(s: &str, sep: &str, from: usize) -> (r: Option<usize>)
    requires
        from <= s@.len(),
        sep@.len() > 0,
    ensures
        match r {
            Some(i) => spec_find(s@, sep@, from as int) == Some(i as int),
            None => spec_find(s@, sep@, from as int) is None,
        },
{
    let s_len = s.unicode_len();
    let sep_len = sep.unicode_len();
    if sep_len > s_len || from > s_len - sep_len {
        return None;
    }
    let mut i: usize = from;
    while i <= s_len - sep_len
        invariant
            s_len == s@.len(),
            sep_len == sep@.len(),
            0 < sep_len <= s_len,
            from <= i <= s_len - sep_len + 1,
            spec_find(s@, sep@, from as int) == spec_find(s@, sep@, i as int),
        decreases s_len - i,
    {
        if check_match(s, sep, i) {
            return Some(i);
        }
        i += 1;
    }
    None
}

fn split_str(s: &str, sep: &str) -> (r: Vec<String>)
    requires
        sep@.len() > 0,
    ensures
        strs_view(r@) == spec_split_from(s@, sep@, 0),
{
    let s_len = s.unicode_len();
    let sep_len = sep.unicode_len();
    let mut out: Vec<String> = Vec::new();
    let mut from: usize = 0;
    loop
        invariant
            s_len == s@.len(),
            sep_len == sep@.len(),
            sep_len > 0,
            0 <= from <= s_len,
            spec_split_from(s@, sep@, 0) =~= strs_view(out@) + spec_split_from(
                s@,
                sep@,
                from as int,
            ),
        decreases s@.len() - from,
    {
        match find_from(s, sep, from) {
            None => {
                let piece = s.substring_char(from, s_len);
                let piece_s = piece.to_owned();
                proof {
                    assert(strs_view(out@.push(piece_s)) =~= strs_view(out@).push(piece_s@));
                    assert(spec_split_from(s@, sep@, from as int) == seq![
                        s@.subrange(from as int, s@.len() as int),
                    ]);
                    assert(strs_view(out@) + seq![s@.subrange(from as int, s@.len() as int)] =~=
                    strs_view(out@).push(s@.subrange(from as int, s@.len() as int)));
                }
                out.push(piece_s);
                return out;
            },
            Some(i) => {
                proof {
                    lemma_spec_find_bounds(s@, sep@, from as int);
                }
                let piece = s.substring_char(from, i);
                let piece_s = piece.to_owned();
                proof {
                    assert(strs_view(out@.push(piece_s)) =~= strs_view(out@).push(piece_s@));
                    assert(spec_split_from(s@, sep@, from as int) == seq![
                        s@.subrange(from as int, i as int),
                    ] + spec_split_from(s@, sep@, i + sep@.len()));
                    assert(strs_view(out@) + (seq![s@.subrange(from as int, i as int)]
                        + spec_split_from(s@, sep@, i + sep@.len())) =~= (strs_view(out@).push(
                        s@.subrange(from as int, i as int),
                    )) + spec_split_from(s@, sep@, i + sep@.len()));
                }
                out.push(piece_s);
                from = i + sep_len;
            },
        }
    }
}

/// Split `self` on a separator.
pub fn intr_split(args: &Vec<ContextualObject>, src: &Source) -> (r: Result<
    ContextualObject,
    Error,
>)
    requires
        src.wf(),
    ensures
        r matches Ok(v) ==> spec_intr_split(objs_view(args@)) matches Ok(sv) && sv == v@,
        r matches Err(e) ==> spec_intr_split(objs_view(args@)) matches Err(ev) && ev == e@,
        r is Ok <==> spec_intr_split(objs_view(args@)) is Ok,
{
    proof {
        crate::value::lemma_objs_view_len(args@);
    }
    if let Err(e) = assert_args_range(args, 1, 2, src) {
        return Err(e);
    }
    proof {
        crate::value::lemma_objs_view_index(args@, 0);
        if args@.len() == 2 {
            crate::value::lemma_objs_view_index(args@, 1);
        }
    }
    let sep: ContextualObject = if args.len() == 2 {
        clone_ctx_obj(&args[1])
    } else {
        Object::Str(String::new()).anonymous()
    };
    let sep_str: &String = match &sep.0 {
        Object::Str(s) => s,
        _ => {
            let msg = String::from_str("Can't split value of type ").concat(
                sep.0.typed().as_str(),
            );
            return Err(Error::new(Stage::CheckingTypes, msg, None, sep.1, src));
        },
    };
    let v_str: &String = match &args[0].0 {
        Object::Str(s) => s,
        _ => {
            let msg = String::from_str("Can't split value of type ").concat(
                args[0].0.typed().as_str(),
            );
            return Err(Error::new(Stage::CheckingTypes, msg, None, args[0].1, src));
        },
    };
    let mut out: Vec<ContextualObject> = Vec::new();
    if sep_str.as_str().unicode_len() == 0 {
        let n = v_str.as_str().unicode_len();
        let mut i: usize = 0;
        while i < n
            invariant
                n == v_str@.len(),
                0 <= i <= n,
                objs_view(out@) =~= Seq::new(
                    i as nat,
                    |j: int| anon_view(ObjView::Str(seq![v_str@[j]])),
                ),
            decreases n - i,
        {
            let piece = v_str.as_str().substring_char(i, i + 1);
            let item = Object::Str(piece.to_owned()).anonymous();
            proof {
                lemma_objs_view_push(out@, item);
                assert(piece@ =~= seq![v_str@[i as int]]);
            }
            out.push(item);
            proof {
                assert(objs_view(out@) =~= Seq::new(
                    (i + 1) as nat,
                    |j: int| anon_view(ObjView::Str(seq![v_str@[j]])),
                ));
            }
            i += 1;
        }
    } else {
        let parts = split_str(v_str.as_str(), sep_str.as_str());
        let mut i: usize = 0;
        while i < parts.len()
            invariant
                0 <= i <= parts@.len(),
                strs_view(parts@) == spec_split_from(v_str@, sep_str@, 0),
                objs_view(out@) =~= parts_as_objs(strs_view(parts@)).subrange(0, i as int),
            decreases parts@.len() - i,
        {
            let item = Object::Str(parts[i].clone()).anonymous();
            proof {
                lemma_objs_view_push(out@, item);
                assert(parts_as_objs(strs_view(parts@))[i as int] == anon_view(
                    ObjView::Str(parts@[i as int]@),
                ));
                assert(parts_as_objs(strs_view(parts@)).subrange(0, i as int).push(
                    parts_as_objs(strs_view(parts@))[i as int],
                ) =~= parts_as_objs(strs_view(parts@)).subrange(0, i + 1));
            }
            out.push(item);
            i += 1;
        }
        proof {
            assert(parts_as_objs(strs_view(parts@)).subrange(
                0,
                parts_as_objs(strs_view(parts@)).len() as int,
            ) =~= parts_as_objs(strs_view(parts@)));
        }
    }
    Ok(Object::Array(out).anonymous())
}

} // verus!
