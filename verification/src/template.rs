//! The template engine adapter: registers named templates and renders a
//! string, a string map, or a whole JSON value against a context. Text
//! without template constructs passes through a render verbatim, which is
//! what the identity contracts below rest on.

use vstd::prelude::*;

use crate::dict::Dict;
use crate::dict::key_seq;
use crate::error::ApixError;
use crate::json::Json;
use crate::json::JsonSpec;
use crate::json::jmodel;
use crate::json::jmodel_entries;
use crate::json::jmodel_seq;
use crate::json::json_to_text;
use crate::json::jtext;
use crate::json::lemma_jmodel_entries_push;
use crate::json::lemma_jmodel_seq_push;
use crate::text::dec_str;
use crate::text::has_markers;
use crate::text::lemma_prefix_transitive;
use crate::text::usize_to_string;

verus! {

#[verifier::external_type_specification]
#[verifier::external_body]
pub struct ExTera(tera::Tera);

#[verifier::external_type_specification]
#[verifier::external_body]
pub struct ExTeraContext(tera::Context);

/// The named templates a tera engine holds, each with the source text it
/// was registered from.
pub uninterp spec fn templates_of(t: tera::Tera) -> Map<Seq<char>, Seq<char>>;

/// The engine's registered templates have passed tera's cross-template
/// checks together: every parent a template extends and every file it
/// imports macros from is itself registered, with no extension cycle.
/// A successful registration has just run those checks over the whole
/// set; registering plain text into such a set cannot break them, since
/// the checks only ask that referenced names stay present.
pub uninterp spec fn templates_sound(t: tera::Tera) -> bool;

/// Relies on tera::Tera::add_raw_template: registering stores the template
/// under its name, overwriting a previous one, then re-checks extension
/// chains and macro imports over the whole set. Text without any of the
/// delimiters `{{`, `{%`, `{#` is a template of plain text, always parses,
/// and cannot fail those checks when the resident set passed them. A
/// failed registration can leave the set inconsistent, so this wrapper
/// then discards the engine's templates entirely; an empty set is
/// trivially consistent.
#[verifier::external_body]
fn tera_add(t: &mut tera::Tera, name: &str, content: &str) -> (r: Result<(), String>)
    ensures
        r is Ok ==> templates_of(*final(t)) == templates_of(*old(t)).insert(name@, content@),
        r is Ok ==> templates_sound(*final(t)),
        r is Err ==> (templates_of(*final(t)) == Map::<Seq<char>, Seq<char>>::empty()),
        r is Err ==> templates_sound(*final(t)),
        templates_sound(*old(t)) ==> (!has_markers(content@) ==> r is Ok),
    no_unwind
{
    match t.add_raw_template(name, content) {
        Ok(()) => Ok(()),
        Err(e) => {
            *t = tera::Tera::default();
            Err(format!("{:#}", e))
        },
    }
}

/// Relies on tera::Tera::render: a registered template whose text holds
/// none of the delimiters `{{`, `{%`, `{#` renders to exactly that text,
/// whatever the context. Of templates with expressions nothing is promised:
/// their output may depend on the context and on engine functions.
#[verifier::external_body]
fn tera_render(t: &tera::Tera, name: &str, ctx: &tera::Context) -> (r: Result<String, String>)
    ensures
        templates_of(*t).contains_key(name@) && !has_markers(templates_of(*t)[name@]) ==> r is Ok,
        r matches Ok(s) ==> (templates_of(*t).contains_key(name@) && !has_markers(
            templates_of(*t)[name@],
        ) ==> s@ == templates_of(*t)[name@]),
{
    match t.render(name, ctx) {
        Ok(s) => Ok(s),
        Err(e) => Err(format!("{:#}", e)),
    }
}

/// Relies on serde_json::from_str and tera::Context::from_value: turns
/// serialized JSON into a template context; it succeeds exactly when the
/// text is a JSON object, which depends on the text alone.
#[verifier::external_body]
fn tera_context_from_text(s: &str) -> (r: Result<tera::Context, String>)
    ensures
        r is Ok <==> context_built(s@),
{
    let value: serde_json::Value = match serde_json::from_str(s) {
        Ok(v) => v,
        Err(e) => return Err(format!("{:#}", e)),
    };
    match tera::Context::from_value(value) {
        Ok(c) => Ok(c),
        Err(e) => Err(format!("{:#}", e)),
    }
}

/// Whether serialized JSON builds a template context: the text parses as
/// a JSON object. A function of the text alone.
pub uninterp spec fn context_built(s: Seq<char>) -> bool;

/// Builds a template context from a JSON object value.
pub fn make_context(value: &Json) -> (r: Result<tera::Context, ApixError>)
    ensures
        r is Ok <==> context_built(jtext(jmodel(*value))),
        r matches Err(e) ==> e is Serialization,
{
    let text = json_to_text(value);
    match tera_context_from_text(text.as_str()) {
        Ok(c) => Ok(c),
        Err(e) => Err(ApixError::Serialization(e)),
    }
}

/// `w` is a possible rendering of `v`: the shape and the keys are those of
/// `v`, string leaves may change, string leaves without template constructs
/// and all other scalars are untouched.
pub open spec fn renders_to(v: JsonSpec, w: JsonSpec) -> bool
    decreases v,
{
    match v {
        JsonSpec::Null => w == v,
        JsonSpec::Bool(_) => w == v,
        JsonSpec::Num(_) => w == v,
        JsonSpec::Raw(_) => w == v,
        JsonSpec::Str(s) => w is Str && (!has_markers(s) ==> w == v),
        JsonSpec::Arr(es) => w matches JsonSpec::Arr(ws) && renders_to_seq(es, ws),
        JsonSpec::Obj(es) => w matches JsonSpec::Obj(ws) && renders_to_entries(es, ws),
    }
}

pub open spec fn renders_to_seq(es: Seq<JsonSpec>, ws: Seq<JsonSpec>) -> bool
    decreases es,
{
    if es.len() != ws.len() {
        false
    } else if es.len() == 0 {
        true
    } else {
        renders_to_seq(es.subrange(0, es.len() - 1), ws.subrange(0, ws.len() - 1)) && renders_to(
            es[es.len() - 1],
            ws[ws.len() - 1],
        )
    }
}

pub open spec fn renders_to_entries(
    es: Seq<(Seq<char>, JsonSpec)>,
    ws: Seq<(Seq<char>, JsonSpec)>,
) -> bool
    decreases es,
{
    if es.len() != ws.len() {
        false
    } else if es.len() == 0 {
        true
    } else {
        renders_to_entries(es.subrange(0, es.len() - 1), ws.subrange(0, ws.len() - 1))
            && ws[ws.len() - 1].0 == es[es.len() - 1].0 && renders_to(
            es[es.len() - 1].1,
            ws[ws.len() - 1].1,
        )
    }
}

/// A failed render of `v` under the base name `base` reports the dotted
/// name `n` of a string leaf that holds a template construct.
pub open spec fn names_marked_leaf(v: JsonSpec, base: Seq<char>, n: Seq<char>) -> bool
    decreases v,
{
    match v {
        JsonSpec::Str(s) => n == base && has_markers(s),
        JsonSpec::Arr(es) => names_marked_leaf_in_list(es, base, n),
        JsonSpec::Obj(es) => names_marked_leaf_in_entries(es, base, n),
        _ => false,
    }
}

pub open spec fn names_marked_leaf_in_list(es: Seq<JsonSpec>, base: Seq<char>, n: Seq<char>) -> bool
    decreases es,
{
    if es.len() == 0 {
        false
    } else {
        names_marked_leaf_in_list(es.subrange(0, es.len() - 1), base, n) || names_marked_leaf(
            es[es.len() - 1],
            base + "."@ + dec_str((es.len() - 1) as nat),
            n,
        )
    }
}

pub open spec fn names_marked_leaf_in_entries(
    es: Seq<(Seq<char>, JsonSpec)>,
    base: Seq<char>,
    n: Seq<char>,
) -> bool
    decreases es,
{
    if es.len() == 0 {
        false
    } else {
        names_marked_leaf_in_entries(es.subrange(0, es.len() - 1), base, n) || names_marked_leaf(
            es[es.len() - 1].1,
            base + "."@ + es[es.len() - 1].0,
            n,
        )
    }
}

/// One element naming a marked leaf makes the list name it.
proof fn lemma_marked_leaf_list_member(es: Seq<JsonSpec>, base: Seq<char>, n: Seq<char>, i: int)
    requires
        0 <= i < es.len(),
        names_marked_leaf(es[i], base + "."@ + dec_str(i as nat), n),
    ensures
        names_marked_leaf_in_list(es, base, n),
    decreases es,
{
    if i < es.len() - 1 {
        let pre = es.subrange(0, es.len() - 1);
        assert(pre[i] == es[i]);
        lemma_marked_leaf_list_member(pre, base, n, i);
    }
}

/// One entry naming a marked leaf makes the entry list name it.
proof fn lemma_marked_leaf_entries_member(
    es: Seq<(Seq<char>, JsonSpec)>,
    base: Seq<char>,
    n: Seq<char>,
    i: int,
)
    requires
        0 <= i < es.len(),
        names_marked_leaf(es[i].1, base + "."@ + es[i].0, n),
    ensures
        names_marked_leaf_in_entries(es, base, n),
    decreases es,
{
    if i < es.len() - 1 {
        let pre = es.subrange(0, es.len() - 1);
        assert(pre[i] == es[i]);
        lemma_marked_leaf_entries_member(pre, base, n, i);
    }
}

/// Rendering a value with no template constructs in its string leaves
/// gives back exactly that value.
pub proof fn lemma_renders_to_identity(v: JsonSpec, w: JsonSpec)
    requires
        renders_to(v, w),
        crate::json::no_markers_json(v),
    ensures
        w == v,
    decreases v,
{
    match v {
        JsonSpec::Arr(es) => {
            let ws = w->Arr_0;
            lemma_renders_to_seq_identity(es, ws);
            assert(w =~~= v);
        },
        JsonSpec::Obj(es) => {
            let ws = w->Obj_0;
            lemma_renders_to_entries_identity(es, ws);
            assert(w =~~= v);
        },
        _ => {},
    }
}

proof fn lemma_renders_to_seq_identity(es: Seq<JsonSpec>, ws: Seq<JsonSpec>)
    requires
        renders_to_seq(es, ws),
        crate::json::no_markers_seq(es),
    ensures
        ws =~~= es,
    decreases es,
{
    if es.len() > 0 {
        lemma_renders_to_seq_identity(
            es.subrange(0, es.len() - 1),
            ws.subrange(0, ws.len() - 1),
        );
        lemma_renders_to_identity(es[es.len() - 1], ws[ws.len() - 1]);
        assert forall|i: int| 0 <= i < es.len() implies ws[i] =~~= es[i] by {
            if i < es.len() - 1 {
                assert(ws.subrange(0, ws.len() - 1)[i] =~~= es.subrange(0, es.len() - 1)[i]);
            }
        }
    }
}

proof fn lemma_renders_to_entries_identity(
    es: Seq<(Seq<char>, JsonSpec)>,
    ws: Seq<(Seq<char>, JsonSpec)>,
)
    requires
        renders_to_entries(es, ws),
        crate::json::no_markers_entries(es),
    ensures
        ws =~~= es,
    decreases es,
{
    if es.len() > 0 {
        lemma_renders_to_entries_identity(
            es.subrange(0, es.len() - 1),
            ws.subrange(0, ws.len() - 1),
        );
        lemma_renders_to_identity(es[es.len() - 1].1, ws[ws.len() - 1].1);
        assert forall|i: int| 0 <= i < es.len() implies ws[i] =~~= es[i] by {
            if i < es.len() - 1 {
                assert(ws.subrange(0, ws.len() - 1)[i] =~~= es.subrange(0, es.len() - 1)[i]);
            }
        }
    }
}

/// The template engine with its registered templates.
pub struct Engine {
    tera: tera::Tera,
}

impl Engine {
    /// The source texts of the registered templates, by name.
    pub closed spec fn templates(&self) -> Map<Seq<char>, Seq<char>> {
        templates_of(self.tera)
    }

    /// The registered templates pass tera's cross-template checks; a fresh
    /// engine does trivially, and every registration re-establishes it.
    #[verifier::type_invariant]
    closed spec fn wf(self) -> bool {
        templates_sound(self.tera)
    }

    /// Relies on tera::Tera::default: a fresh engine holds no templates,
    /// so its template set trivially passes the cross-template checks.
    #[verifier::external_body]
    pub fn new() -> (r: Engine) {
        Engine { tera: tera::Tera::default() }
    }

    /// Registers `content` under `name` and renders it against `ctx`.
    /// Re-registration under the same name is legal and overwrites. Text
    /// without template constructs comes back verbatim; a template failure
    /// is reported as a template error under this name.
    pub fn render_string(&mut self, name: &str, content: &str, ctx: &tera::Context) -> (r: Result<
        String,
        ApixError,
    >)
        ensures
            !has_markers(content@) ==> r is Ok,
            r matches Ok(s) ==> (!has_markers(content@) ==> s@ == content@),
            r matches Err(e) ==> e matches ApixError::Template { name: n, cause: _ } && n@
                == name@,
    {
        proof {
            use_type_invariant(&*self);
        }
        match tera_add(&mut self.tera, name, content) {
            Ok(()) => {},
            Err(cause) => {
                return Err(ApixError::Template { name: name.to_owned(), cause });
            },
        }
        match tera_render(&self.tera, name, ctx) {
            Ok(s) => Ok(s),
            Err(cause) => Err(ApixError::Template { name: name.to_owned(), cause }),
        }
    }

    /// Renders every value of `map` under the per-key template name
    /// `name.key`; the keys and their order are exactly those of `map`,
    /// and a value without template constructs is unchanged.
    #[verifier::loop_isolation(false)]
    pub fn render_map(&mut self, name: &str, map: &Dict, ctx: &tera::Context) -> (r: Result<
        Dict,
        ApixError,
    >)
        ensures
            r matches Ok(out) ==> key_seq(out@) == key_seq(map@) && out@.len() == map@.len(),
            r matches Ok(out) ==> forall|i: int|
                0 <= i < map@.len() && !has_markers((#[trigger] map@[i]).1) ==> out@[i].1
                    == map@[i].1,
            (forall|i: int| 0 <= i < map@.len() ==> !has_markers((#[trigger] map@[i]).1)) ==> r
                is Ok,
            r matches Err(e) ==> (e matches ApixError::Template { name: n, cause: _ }
                && name@.is_prefix_of(n@)),
            r matches Err(e2) ==> (e2 matches ApixError::Template { name: n2, cause: _ }
                && exists|i: int|
                {
                    &&& 0 <= i < map@.len()
                    &&& n2@ == name@ + "."@ + (#[trigger] map@[i]).0
                    &&& has_markers(map@[i].1)
                }),
    {
        let n = map.len();
        let mut out = Dict::new();
        let mut i: usize = 0;
        proof {
            assert(key_seq(out@) =~= key_seq(map@.subrange(0, 0)));
        }
        while i < n
            invariant
                n == map@.len(),
                0 <= i <= n,
                out@.len() == i,
                key_seq(out@) == key_seq(map@.subrange(0, i as int)),
                forall|j: int|
                    0 <= j < i && !has_markers((#[trigger] map@[j]).1) ==> out@[j].1 == map@[j].1,
            decreases n - i,
        {
            let key = map.key_at(i);
            let tname = dotted(name, key.as_str());
            let value = map.val_at(i).clone();
            let ghost pre_out = out@;
            match self.render_string(tname.as_str(), value.as_str(), ctx) {
                Ok(rendered) => {
                    let rkey = key.clone();
                    out.append_entry(rkey, rendered);
                    proof {
                        assert(out@ == pre_out.push((rkey@, rendered@)));
                        assert forall|j: int| 0 <= j < i + 1 implies key_seq(out@)[j] == key_seq(
                            map@.subrange(0, i + 1),
                        )[j] by {
                            if j < i {
                                assert(key_seq(out@)[j] == pre_out[j].0);
                                assert(key_seq(pre_out)[j] == pre_out[j].0);
                                assert(key_seq(map@.subrange(0, i as int))[j] == map@.subrange(
                                    0,
                                    i as int,
                                )[j].0);
                                assert(key_seq(map@.subrange(0, i + 1))[j] == map@.subrange(
                                    0,
                                    i + 1,
                                )[j].0);
                            } else {
                                assert(key_seq(out@)[j] == rkey@);
                                assert(key_seq(map@.subrange(0, i + 1))[j] == map@[i as int].0);
                            }
                        }
                        assert(key_seq(out@) =~= key_seq(map@.subrange(0, i + 1)));
                    }
                },
                Err(e) => {
                    proof {
                        assert(name@.is_prefix_of(tname@)) by {
                            assert(name@ =~= tname@.subrange(0, name@.len() as int));
                        }
                        assert(tname@ == name@ + "."@ + map@[i as int].0);
                        assert(has_markers(map@[i as int].1));
                    }
                    return Err(e);
                },
            }
            i = i + 1;
        }
        proof {
            assert(map@.subrange(0, n as int) =~= map@);
        }
        Ok(out)
    }

    /// Renders a JSON value: objects and arrays are walked, each child
    /// under `name.key` or `name.index`; string leaves are rendered as
    /// templates; all other scalars pass through. The result has the shape
    /// and keys of the input, and a value with no template constructs
    /// anywhere comes back unchanged.
    #[verifier::loop_isolation(false)]
    pub fn render_value(&mut self, name: &str, value: &Json, ctx: &tera::Context) -> (r: Result<
        Json,
        ApixError,
    >)
        ensures
            r matches Ok(w) ==> renders_to(jmodel(*value), jmodel(w)),
            crate::json::no_markers_json(jmodel(*value)) ==> r is Ok,
            r matches Err(e) ==> (e matches ApixError::Template { name: n, cause: _ }
                && name@.is_prefix_of(n@)),
            r matches Err(e2) ==> (e2 matches ApixError::Template { name: n2, cause: _ }
                && names_marked_leaf(jmodel(*value), name@, n2@)),
        decreases *value,
    {
        match value {
            Json::Null => Ok(Json::Null),
            Json::Bool(b) => Ok(Json::Bool(*b)),
            Json::Num(s) => Ok(Json::Num(s.clone())),
            Json::Raw(s) => Ok(Json::Raw(s.clone())),
            Json::Str(content) => {
                match self.render_string(name, content.as_str(), ctx) {
                    Ok(rendered) => Ok(Json::Str(rendered)),
                    Err(e) => {
                        proof {
                            assert(name@.is_prefix_of(name@)) by {
                                assert(name@ =~= name@.subrange(0, name@.len() as int));
                            }
                            assert(has_markers(content@));
                        }
                        Err(e)
                    },
                }
            },
            Json::Arr(items) => {
                let n = items.len();
                let mut out: Vec<Json> = Vec::new();
                let mut i: usize = 0;
                proof {
                    crate::json::lemma_jmodel_seq(items@);
                    assert(renders_to_seq(
                        jmodel_seq(items@).subrange(0, 0),
                        jmodel_seq(out@).subrange(0, 0),
                    ));
                    assert(jmodel_seq(out@) =~= Seq::<JsonSpec>::empty());
                    crate::json::lemma_no_markers_seq(jmodel_seq(items@));
                }
                while i < n
                    invariant
                        n == items@.len(),
                        0 <= i <= n,
                        out@.len() == i,
                        jmodel_seq(items@).len() == n,
                        renders_to_seq(
                            jmodel_seq(items@).subrange(0, i as int),
                            jmodel_seq(out@),
                        ),
                    decreases n - i,
                {
                    proof {
                        assert(decreases_to!(*value => *items));
                        assert(decreases_to!(*items => items@));
                        assert(decreases_to!(items@ => items@[i as int]));
                    }
                    let child_name = dotted_index(name, i);
                    let ghost pre_out = out@;
                    match self.render_value(child_name.as_str(), &items[i], ctx) {
                        Ok(w) => {
                            out.push(w);
                            proof {
                                lemma_jmodel_seq_push(pre_out, w);
                                let ms = jmodel_seq(items@);
                                assert(ms.subrange(0, i + 1) =~= ms.subrange(0, i as int).push(
                                    ms[i as int],
                                ));
                                assert(ms.subrange(0, i + 1).subrange(0, i as int) =~= ms.subrange(
                                    0,
                                    i as int,
                                ));
                                assert(jmodel_seq(out@).subrange(0, i as int) =~= jmodel_seq(
                                    pre_out,
                                ));
                                assert(renders_to_seq(
                                    ms.subrange(0, i + 1),
                                    jmodel_seq(out@),
                                ));
                            }
                        },
                        Err(e) => {
                            proof {
                                assert(name@.is_prefix_of(child_name@)) by {
                                    assert(name@ =~= child_name@.subrange(
                                        0,
                                        name@.len() as int,
                                    ));
                                }
                                lemma_prefix_transitive(
                                    name@,
                                    child_name@,
                                    e->Template_name@,
                                );
                                lemma_marked_leaf_list_member(
                                    jmodel_seq(items@),
                                    name@,
                                    e->Template_name@,
                                    i as int,
                                );
                            }
                            return Err(e);
                        },
                    }
                    i = i + 1;
                }
                proof {
                    assert(jmodel_seq(items@).subrange(0, n as int) =~= jmodel_seq(items@));
                }
                Ok(Json::Arr(out))
            },
            Json::Obj(entries) => {
                let n = entries.len();
                let mut out: Vec<(String, Json)> = Vec::new();
                let mut i: usize = 0;
                proof {
                    crate::json::lemma_jmodel_entries(entries@);
                    assert(jmodel_entries(out@) =~= Seq::<(Seq<char>, JsonSpec)>::empty());
                    assert(renders_to_entries(
                        jmodel_entries(entries@).subrange(0, 0),
                        jmodel_entries(out@),
                    ));
                    crate::json::lemma_no_markers_entries(jmodel_entries(entries@));
                }
                while i < n
                    invariant
                        n == entries@.len(),
                        0 <= i <= n,
                        out@.len() == i,
                        jmodel_entries(entries@).len() == n,
                        renders_to_entries(
                            jmodel_entries(entries@).subrange(0, i as int),
                            jmodel_entries(out@),
                        ),
                    decreases n - i,
                {
                    proof {
                        assert(decreases_to!(*value => *entries));
                        assert(decreases_to!(*entries => entries@));
                        assert(decreases_to!(entries@ => entries@[i as int]));
                        assert(decreases_to!(entries@[i as int] => entries@[i as int].1));
                    }
                    let entry = &entries[i];
                    let child_name = dotted(name, entry.0.as_str());
                    let ghost pre_out = out@;
                    match self.render_value(child_name.as_str(), &entry.1, ctx) {
                        Ok(w) => {
                            let rkey = entry.0.clone();
                            out.push((rkey, w));
                            proof {
                                lemma_jmodel_entries_push(pre_out, (rkey, w));
                                let ms = jmodel_entries(entries@);
                                assert(ms.subrange(0, i + 1) =~= ms.subrange(0, i as int).push(
                                    ms[i as int],
                                ));
                                assert(ms.subrange(0, i + 1).subrange(0, i as int) =~= ms.subrange(
                                    0,
                                    i as int,
                                ));
                                assert(jmodel_entries(out@).subrange(0, i as int) =~= jmodel_entries(
                                    pre_out,
                                ));
                                assert(renders_to_entries(
                                    ms.subrange(0, i + 1),
                                    jmodel_entries(out@),
                                ));
                            }
                        },
                        Err(e) => {
                            proof {
                                assert(name@.is_prefix_of(child_name@)) by {
                                    assert(name@ =~= child_name@.subrange(
                                        0,
                                        name@.len() as int,
                                    ));
                                }
                                lemma_prefix_transitive(
                                    name@,
                                    child_name@,
                                    e->Template_name@,
                                );
                                lemma_marked_leaf_entries_member(
                                    jmodel_entries(entries@),
                                    name@,
                                    e->Template_name@,
                                    i as int,
                                );
                            }
                            return Err(e);
                        },
                    }
                    i = i + 1;
                }
                proof {
                    assert(jmodel_entries(entries@).subrange(0, n as int) =~= jmodel_entries(
                        entries@,
                    ));
                }
                Ok(Json::Obj(out))
            },
        }
    }
}

/// The per-field template name `name.part`.
fn dotted(name: &str, part: &str) -> (r: String)
    ensures
        r@ == name@ + "."@ + part@,
{
    let mut out = name.to_owned();
    out.append(".");
    out.append(part);
    out
}

/// The per-element template name `name.index`.
fn dotted_index(name: &str, index: usize) -> (r: String)
    ensures
        r@ == name@ + "."@ + dec_str(index as nat),
{
    let mut out = name.to_owned();
    out.append(".");
    let index_text = usize_to_string(index);
    out.append(index_text.as_str());
    out
}

} // verus!
