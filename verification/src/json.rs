//! The library's JSON value type, its mathematical model, and a verified
//! serializer. Numbers keep their literal text: the library routes them
//! through untouched and never does numeric arithmetic on them.

use vstd::prelude::*;

use crate::text::digit_char;
use crate::text::has_markers;

verus! {

/// Mathematical model of a JSON value.
#[verifier::ext_equal]
pub enum JsonSpec {
    Null,
    Bool(bool),
    Num(Seq<char>),
    Str(Seq<char>),
    Raw(Seq<char>),
    Arr(Seq<JsonSpec>),
    Obj(Seq<(Seq<char>, JsonSpec)>),
}

/// A JSON value. `Num` holds the number's literal text. `Raw` holds an
/// already-serialized value, as the lenient body-conversion path produces
/// it; serialization emits it verbatim.
#[derive(Debug, PartialEq)]
pub enum Json {
    Null,
    Bool(bool),
    Num(String),
    Str(String),
    Raw(String),
    Arr(Vec<Json>),
    Obj(Vec<(String, Json)>),
}

/// The model of an executable JSON value.
pub open spec fn jmodel(j: Json) -> JsonSpec
    decreases j,
{
    match j {
        Json::Null => JsonSpec::Null,
        Json::Bool(b) => JsonSpec::Bool(b),
        Json::Num(s) => JsonSpec::Num(s@),
        Json::Str(s) => JsonSpec::Str(s@),
        Json::Raw(s) => JsonSpec::Raw(s@),
        Json::Arr(v) => JsonSpec::Arr(jmodel_seq(v@)),
        Json::Obj(v) => JsonSpec::Obj(jmodel_entries(v@)),
    }
}

/// The models of a sequence of JSON values.
pub open spec fn jmodel_seq(s: Seq<Json>) -> Seq<JsonSpec>
    decreases s,
{
    if s.len() == 0 {
        Seq::empty()
    } else {
        jmodel_seq(s.subrange(0, s.len() - 1)).push(jmodel(s[s.len() - 1]))
    }
}

/// The models of a sequence of object entries.
pub open spec fn jmodel_entries(s: Seq<(String, Json)>) -> Seq<(Seq<char>, JsonSpec)>
    decreases s,
{
    if s.len() == 0 {
        Seq::empty()
    } else {
        jmodel_entries(s.subrange(0, s.len() - 1)).push(
            (s[s.len() - 1].0@, jmodel(s[s.len() - 1].1)),
        )
    }
}

pub proof fn lemma_jmodel_seq(s: Seq<Json>)
    ensures
        jmodel_seq(s).len() == s.len(),
        forall|i: int| 0 <= i < s.len() ==> jmodel_seq(s)[i] == jmodel(#[trigger] s[i]),
    decreases s,
{
    if s.len() > 0 {
        lemma_jmodel_seq(s.subrange(0, s.len() - 1));
        assert(forall|i: int|
            0 <= i < s.len() - 1 ==> s.subrange(0, s.len() - 1)[i] == #[trigger] s[i]);
    }
}

pub proof fn lemma_jmodel_entries(s: Seq<(String, Json)>)
    ensures
        jmodel_entries(s).len() == s.len(),
        forall|i: int|
            0 <= i < s.len() ==> jmodel_entries(s)[i] == ((#[trigger] s[i]).0@, jmodel(s[i].1)),
    decreases s,
{
    if s.len() > 0 {
        lemma_jmodel_entries(s.subrange(0, s.len() - 1));
        assert(forall|i: int|
            0 <= i < s.len() - 1 ==> s.subrange(0, s.len() - 1)[i] == #[trigger] s[i]);
    }
}

pub proof fn lemma_jmodel_seq_push(s: Seq<Json>, x: Json)
    ensures
        jmodel_seq(s.push(x)) == jmodel_seq(s).push(jmodel(x)),
{
    assert(s.push(x).subrange(0, s.len() as int) =~= s);
    assert(jmodel_seq(s.push(x)) =~= jmodel_seq(s).push(jmodel(x)));
}

pub proof fn lemma_jmodel_entries_push(s: Seq<(String, Json)>, x: (String, Json))
    ensures
        jmodel_entries(s.push(x)) == jmodel_entries(s).push((x.0@, jmodel(x.1))),
{
    assert(s.push(x).subrange(0, s.len() as int) =~= s);
    assert(jmodel_entries(s.push(x)) =~= jmodel_entries(s).push((x.0@, jmodel(x.1))));
}

/// No string leaf of the value holds a template construct; keys are never
/// rendered, so they are not constrained.
pub open spec fn no_markers_json(v: JsonSpec) -> bool
    decreases v,
{
    match v {
        JsonSpec::Null => true,
        JsonSpec::Bool(_) => true,
        JsonSpec::Num(_) => true,
        JsonSpec::Str(s) => !has_markers(s),
        JsonSpec::Raw(_) => true,
        JsonSpec::Arr(es) => no_markers_seq(es),
        JsonSpec::Obj(es) => no_markers_entries(es),
    }
}

pub open spec fn no_markers_seq(es: Seq<JsonSpec>) -> bool
    decreases es,
{
    if es.len() == 0 {
        true
    } else {
        no_markers_seq(es.subrange(0, es.len() - 1)) && no_markers_json(es[es.len() - 1])
    }
}

pub open spec fn no_markers_entries(es: Seq<(Seq<char>, JsonSpec)>) -> bool
    decreases es,
{
    if es.len() == 0 {
        true
    } else {
        no_markers_entries(es.subrange(0, es.len() - 1)) && no_markers_json(es[es.len() - 1].1)
    }
}

pub proof fn lemma_no_markers_seq(es: Seq<JsonSpec>)
    ensures
        no_markers_seq(es) <==> (forall|i: int|
            0 <= i < es.len() ==> no_markers_json(#[trigger] es[i])),
    decreases es,
{
    if es.len() > 0 {
        lemma_no_markers_seq(es.subrange(0, es.len() - 1));
        assert(forall|i: int|
            0 <= i < es.len() - 1 ==> es.subrange(0, es.len() - 1)[i] == #[trigger] es[i]);
    }
}

pub proof fn lemma_no_markers_entries(es: Seq<(Seq<char>, JsonSpec)>)
    ensures
        no_markers_entries(es) <==> (forall|i: int|
            0 <= i < es.len() ==> no_markers_json((#[trigger] es[i]).1)),
    decreases es,
{
    if es.len() > 0 {
        lemma_no_markers_entries(es.subrange(0, es.len() - 1));
        assert(forall|i: int|
            0 <= i < es.len() - 1 ==> es.subrange(0, es.len() - 1)[i] == #[trigger] es[i]);
    }
}

/// The hexadecimal digit character for `d`, lower case.
pub open spec fn hex_char(d: int) -> char {
    if d < 10 {
        digit_char(d)
    } else {
        ((97 + (d - 10)) as u8) as char
    }
}

/// How one character is written inside a JSON string literal: quote and
/// backslash are escaped, the common control characters use their short
/// escapes, other control characters the `\u00XX` form, everything else
/// stands as itself.
pub open spec fn esc_char(c: char) -> Seq<char> {
    if c == '"' {
        seq!['\\', '"']
    } else if c == '\\' {
        seq!['\\', '\\']
    } else if c == '\n' {
        seq!['\\', 'n']
    } else if c == '\r' {
        seq!['\\', 'r']
    } else if c == '\t' {
        seq!['\\', 't']
    } else if (c as int) < 32 {
        seq!['\\', 'u', '0', '0', hex_char(c as int / 16), hex_char(c as int % 16)]
    } else {
        seq![c]
    }
}

/// The escaped form of a whole string.
pub open spec fn esc_str(s: Seq<char>) -> Seq<char>
    decreases s,
{
    if s.len() == 0 {
        Seq::empty()
    } else {
        esc_str(s.subrange(0, s.len() - 1)) + esc_char(s[s.len() - 1])
    }
}

/// The serialized text of a JSON value.
pub open spec fn jtext(v: JsonSpec) -> Seq<char>
    decreases v,
{
    match v {
        JsonSpec::Null => seq!['n', 'u', 'l', 'l'],
        JsonSpec::Bool(b) => if b {
            seq!['t', 'r', 'u', 'e']
        } else {
            seq!['f', 'a', 'l', 's', 'e']
        },
        JsonSpec::Num(s) => s,
        JsonSpec::Str(s) => seq!['"'] + esc_str(s) + seq!['"'],
        JsonSpec::Raw(s) => s,
        JsonSpec::Arr(es) => seq!['['] + jtext_list(es) + seq![']'],
        JsonSpec::Obj(es) => seq!['{'] + jtext_obj(es) + seq!['}'],
    }
}

/// The comma-separated texts of array elements.
pub open spec fn jtext_list(es: Seq<JsonSpec>) -> Seq<char>
    decreases es,
{
    if es.len() == 0 {
        Seq::empty()
    } else if es.len() == 1 {
        jtext(es[0])
    } else {
        jtext_list(es.subrange(0, es.len() - 1)) + seq![','] + jtext(es[es.len() - 1])
    }
}

/// The comma-separated texts of object entries.
pub open spec fn jtext_obj(es: Seq<(Seq<char>, JsonSpec)>) -> Seq<char>
    decreases es,
{
    if es.len() == 0 {
        Seq::empty()
    } else if es.len() == 1 {
        jtext_entry(es[0])
    } else {
        jtext_obj(es.subrange(0, es.len() - 1)) + seq![','] + jtext_entry(es[es.len() - 1])
    }
}

/// The text of one object entry: quoted escaped key, colon, value.
pub open spec fn jtext_entry(e: (Seq<char>, JsonSpec)) -> Seq<char>
    decreases e,
{
    seq!['"'] + esc_str(e.0) + seq!['"', ':'] + jtext(e.1)
}

impl Json {
    /// Whether the value is a string leaf.
    pub fn is_string(&self) -> (r: bool)
        ensures
            r == (jmodel(*self) is Str),
    {
        match self {
            Json::Str(_) => true,
            _ => false,
        }
    }

    /// The text of a string leaf.
    pub fn str_text(&self) -> (r: &String)
        requires
            jmodel(*self) is Str,
        ensures
            r@ == jmodel(*self)->Str_0,
    {
        match self {
            Json::Str(s) => s,
            _ => unreached(),
        }
    }
}

/// The canonical re-encoding of JSON text: nothing where the text is not
/// valid JSON, else the text of the parsed value as serde_json writes it
/// back out. A function of the text alone.
pub uninterp spec fn reencoded_json(s: Seq<char>) -> Option<Seq<char>>;

/// Relies on serde_json::from_str and serde_json::Value::to_string: parses
/// the text as JSON and writes the value back out; both depend on the text
/// alone.
#[verifier::external_body]
pub fn json_reencode(s: &str) -> (r: Option<String>)
    ensures
        r is Some <==> reencoded_json(s@) is Some,
        r matches Some(t) ==> reencoded_json(s@) == Some(t@),
{
    match serde_json::from_str::<serde_json::Value>(s) {
        Ok(v) => Some(v.to_string()),
        Err(_) => None,
    }
}

/// First-match lookup among JSON object entries.
pub open spec fn jlookup(es: Seq<(Seq<char>, JsonSpec)>, k: Seq<char>) -> Option<JsonSpec>
    decreases es,
{
    if es.len() == 0 {
        Option::None
    } else if es[0].0 == k {
        Option::Some(es[0].1)
    } else {
        jlookup(es.subrange(1, es.len() as int), k)
    }
}

/// The member of an object under `key`, if the value is an object that has
/// it.
#[verifier::loop_isolation(false)]
pub fn json_obj_get<'a>(j: &'a Json, key: &str) -> (r: Option<&'a Json>)
    ensures
        (jmodel(*j) matches JsonSpec::Obj(es) && jlookup(es, key@) is Some) <==> r is Some,
        r matches Some(v) ==> (jmodel(*j) matches JsonSpec::Obj(es) && jlookup(es, key@)
            == Some(jmodel(*v))),
{
    match j {
        Json::Obj(entries) => {
            let n = entries.len();
            let mut i: usize = 0;
            proof {
                lemma_jmodel_entries(entries@);
                assert(jmodel_entries(entries@).subrange(0, jmodel_entries(entries@).len() as int)
                    =~= jmodel_entries(entries@));
            }
            while i < n
                invariant
                    n == entries@.len(),
                    0 <= i <= n,
                    jlookup(jmodel_entries(entries@), key@) == jlookup(
                        jmodel_entries(entries@).subrange(i as int, n as int),
                        key@,
                    ),
                decreases n - i,
            {
                proof {
                    let ms = jmodel_entries(entries@);
                    let tail = ms.subrange(i as int, n as int);
                    assert(tail[0] == ms[i as int]);
                    assert(tail.subrange(1, tail.len() as int) =~= ms.subrange(i + 1, n as int));
                }
                if crate::text::str_equal(entries[i].0.as_str(), key) {
                    return Some(&entries[i].1);
                }
                i = i + 1;
            }
            proof {
                assert(jmodel_entries(entries@).subrange(n as int, n as int) =~= Seq::<
                    (Seq<char>, JsonSpec),
                >::empty());
            }
            None
        },
        _ => None,
    }
}

/// Deep copy of a JSON value; the copy has the same model.
#[verifier::loop_isolation(false)]
pub fn json_clone(j: &Json) -> (r: Json)
    ensures
        jmodel(r) == jmodel(*j),
    decreases *j,
{
    match j {
        Json::Null => Json::Null,
        Json::Bool(b) => Json::Bool(*b),
        Json::Num(s) => Json::Num(s.clone()),
        Json::Str(s) => Json::Str(s.clone()),
        Json::Raw(s) => Json::Raw(s.clone()),
        Json::Arr(v) => {
            let n = v.len();
            let mut out: Vec<Json> = Vec::new();
            let mut i: usize = 0;
            proof {
                assert(v@.subrange(0, 0) =~= Seq::<Json>::empty());
            }
            while i < n
                invariant
                    n == v@.len(),
                    0 <= i <= n,
                    jmodel_seq(out@) == jmodel_seq(v@.subrange(0, i as int)),
                decreases n - i,
            {
                proof {
                    assert(decreases_to!(*j => *v));
                    assert(decreases_to!(*v => v@));
                    assert(decreases_to!(v@ => v@[i as int]));
                }
                let ghost pre_out = out@;
                let ghost pre = v@.subrange(0, i as int);
                let c = json_clone(&v[i]);
                out.push(c);
                proof {
                    lemma_jmodel_seq_push(pre_out, c);
                    assert(v@.subrange(0, i + 1) =~= pre.push(v@[i as int]));
                    lemma_jmodel_seq_push(pre, v@[i as int]);
                }
                i = i + 1;
            }
            proof {
                assert(v@.subrange(0, n as int) =~= v@);
            }
            Json::Arr(out)
        },
        Json::Obj(v) => {
            let n = v.len();
            let mut out: Vec<(String, Json)> = Vec::new();
            let mut i: usize = 0;
            proof {
                assert(v@.subrange(0, 0) =~= Seq::<(String, Json)>::empty());
            }
            while i < n
                invariant
                    n == v@.len(),
                    0 <= i <= n,
                    jmodel_entries(out@) == jmodel_entries(v@.subrange(0, i as int)),
                decreases n - i,
            {
                proof {
                    assert(decreases_to!(*j => *v));
                    assert(decreases_to!(*v => v@));
                    assert(decreases_to!(v@ => v@[i as int]));
                    assert(decreases_to!(v@[i as int] => v@[i as int].1));
                }
                let ghost pre_out = out@;
                let ghost pre = v@.subrange(0, i as int);
                let entry = &v[i];
                let k = entry.0.clone();
                let c = json_clone(&entry.1);
                out.push((k, c));
                proof {
                    lemma_jmodel_entries_push(pre_out, (k, c));
                    assert(v@.subrange(0, i + 1) =~= pre.push(v@[i as int]));
                    lemma_jmodel_entries_push(pre, v@[i as int]);
                    assert(jmodel_entries(out@) =~= jmodel_entries(v@.subrange(0, i + 1)));
                }
                i = i + 1;
            }
            proof {
                assert(v@.subrange(0, n as int) =~= v@);
            }
            Json::Obj(out)
        },
    }
}

/// Copies a list of object entries; the copy has the same entry models.
#[verifier::loop_isolation(false)]
pub fn clone_entries(es: &Vec<(String, Json)>) -> (r: Vec<(String, Json)>)
    ensures
        jmodel_entries(r@) == jmodel_entries(es@),
{
    let n = es.len();
    let mut out: Vec<(String, Json)> = Vec::new();
    let mut i: usize = 0;
    proof {
        assert(es@.subrange(0, 0) =~= Seq::<(String, Json)>::empty());
    }
    while i < n
        invariant
            n == es@.len(),
            0 <= i <= n,
            jmodel_entries(out@) == jmodel_entries(es@.subrange(0, i as int)),
        decreases n - i,
    {
        let ghost pre_out = out@;
        let ghost pre = es@.subrange(0, i as int);
        let entry = &es[i];
        let k = entry.0.clone();
        let c = json_clone(&entry.1);
        out.push((k, c));
        proof {
            lemma_jmodel_entries_push(pre_out, (k, c));
            assert(es@.subrange(0, i + 1) =~= pre.push(es@[i as int]));
            lemma_jmodel_entries_push(pre, es@[i as int]);
            assert(jmodel_entries(out@) =~= jmodel_entries(es@.subrange(0, i + 1)));
        }
        i = i + 1;
    }
    proof {
        assert(es@.subrange(0, n as int) =~= es@);
    }
    out
}

/// The single-character text for hexadecimal digit `d`, lower case.
fn hex_str(d: usize) -> (r: &'static str)
    requires
        d < 16,
    ensures
        r@ =~= seq![hex_char(d as int)],
{
    proof {
        reveal_strlit("a");
        reveal_strlit("b");
        reveal_strlit("c");
        reveal_strlit("d");
        reveal_strlit("e");
        reveal_strlit("f");
    }
    if d < 10 {
        crate::text::digit_str(d)
    } else if d == 10 {
        "a"
    } else if d == 11 {
        "b"
    } else if d == 12 {
        "c"
    } else if d == 13 {
        "d"
    } else if d == 14 {
        "e"
    } else {
        "f"
    }
}

/// Appends the escaped form of `s` to `out`.
#[verifier::loop_isolation(false)]
fn append_escaped(out: &mut String, s: &str)
    ensures
        final(out)@ == old(out)@ + esc_str(s@),
{
    let len: usize = s.unicode_len();
    let mut i: usize = 0;
    proof {
        assert(s@.subrange(0, 0) =~= Seq::<char>::empty());
        assert(out@ + esc_str(s@.subrange(0, 0)) =~= out@);
    }
    while i < len
        invariant
            len == s@.len(),
            0 <= i <= len,
            out@ == old(out)@ + esc_str(s@.subrange(0, i as int)),
        decreases len - i,
    {
        let c = s.get_char(i);
        let ghost pre = s@.subrange(0, i as int);
        if c == '"' {
            out.append("\\\"");
            proof {
                reveal_strlit("\\\"");
            }
        } else if c == '\\' {
            out.append("\\\\");
            proof {
                reveal_strlit("\\\\");
            }
        } else if c == '\n' {
            out.append("\\n");
            proof {
                reveal_strlit("\\n");
            }
        } else if c == '\r' {
            out.append("\\r");
            proof {
                reveal_strlit("\\r");
            }
        } else if c == '\t' {
            out.append("\\t");
            proof {
                reveal_strlit("\\t");
            }
        } else if (c as u32) < 32 {
            out.append("\\u00");
            let code: usize = c as usize;
            out.append(hex_str(code / 16));
            out.append(hex_str(code % 16));
            proof {
                reveal_strlit("\\u00");
            }
        } else {
            out.append(s.substring_char(i, i + 1));
            proof {
                assert(s@.subrange(i as int, i + 1) =~= seq![s@[i as int]]);
            }
        }
        proof {
            assert(s@.subrange(0, i + 1) =~= pre.push(s@[i as int]));
            assert(esc_str(pre.push(s@[i as int])) =~= esc_str(pre) + esc_char(s@[i as int])) by {
                assert(pre.push(s@[i as int]).subrange(0, pre.len() as int) =~= pre);
            }
            assert(out@ =~= old(out)@ + esc_str(s@.subrange(0, i + 1)));
        }
        i = i + 1;
    }
    proof {
        assert(s@.subrange(0, len as int) =~= s@);
    }
}

/// Serializes a JSON value; the result is exactly the text that the
/// serialization spec gives.
#[verifier::loop_isolation(false)]
pub fn json_to_text(j: &Json) -> (r: String)
    ensures
        r@ == jtext(jmodel(*j)),
    decreases *j,
{
    match j {
        Json::Null => {
            proof {
                reveal_strlit("null");
            }
            let r = String::from_str("null");
            proof {
                assert(r@ =~= jtext(jmodel(*j)));
            }
            r
        },
        Json::Bool(b) => {
            proof {
                reveal_strlit("true");
                reveal_strlit("false");
            }
            let r = if *b {
                String::from_str("true")
            } else {
                String::from_str("false")
            };
            proof {
                assert(r@ =~= jtext(jmodel(*j)));
            }
            r
        },
        Json::Num(s) => s.clone(),
        Json::Str(s) => {
            proof {
                reveal_strlit("\"");
            }
            let mut out = String::from_str("\"");
            append_escaped(&mut out, s.as_str());
            out.append("\"");
            proof {
                assert(out@ =~= jtext(jmodel(*j)));
            }
            out
        },
        Json::Raw(s) => s.clone(),
        Json::Arr(v) => {
            proof {
                reveal_strlit("[");
                reveal_strlit("]");
                reveal_strlit(",");
            }
            let mut out = String::from_str("[");
            let n = v.len();
            let mut i: usize = 0;
            proof {
                lemma_jmodel_seq(v@);
                assert(jmodel_seq(v@).subrange(0, 0) =~= Seq::<JsonSpec>::empty());
                assert(out@ =~= seq!['['] + jtext_list(jmodel_seq(v@).subrange(0, 0)));
            }
            while i < n
                invariant
                    n == v@.len(),
                    0 <= i <= n,
                    jmodel_seq(v@).len() == v@.len(),
                    forall|k: int| 0 <= k < n ==> jmodel_seq(v@)[k] == jmodel(#[trigger] v@[k]),
                    out@ == seq!['['] + jtext_list(jmodel_seq(v@).subrange(0, i as int)),
                decreases n - i,
            {
                if i > 0 {
                    out.append(",");
                }
                proof {
                    assert(decreases_to!(*j => *v));
                    assert(decreases_to!(*v => v@));
                    assert(decreases_to!(v@ => v@[i as int]));
                }
                let piece = json_to_text(&v[i]);
                out.append(piece.as_str());
                proof {
                    let ms = jmodel_seq(v@);
                    assert(ms.subrange(0, i + 1) =~= ms.subrange(0, i as int).push(
                        ms[i as int],
                    ));
                    let p = ms.subrange(0, i as int);
                    let q = ms.subrange(0, i + 1);
                    assert(q.subrange(0, q.len() - 1) =~= p);
                    if i == 0 {
                        assert(jtext_list(q) =~= jtext(ms[0]));
                    } else {
                        assert(jtext_list(q) =~= jtext_list(p) + seq![','] + jtext(ms[i as int]));
                    }
                    assert(out@ =~= seq!['['] + jtext_list(ms.subrange(0, i + 1)));
                }
                i = i + 1;
            }
            out.append("]");
            proof {
                assert(jmodel_seq(v@).subrange(0, n as int) =~= jmodel_seq(v@));
                assert(out@ =~= jtext(jmodel(*j)));
            }
            out
        },
        Json::Obj(v) => {
            proof {
                reveal_strlit("{");
                reveal_strlit("}");
                reveal_strlit(",");
                reveal_strlit("\"");
                reveal_strlit("\":");
            }
            let mut out = String::from_str("{");
            let n = v.len();
            let mut i: usize = 0;
            proof {
                lemma_jmodel_entries(v@);
                assert(jmodel_entries(v@).subrange(0, 0) =~= Seq::<(Seq<char>, JsonSpec)>::empty());
                assert(out@ =~= seq!['{'] + jtext_obj(jmodel_entries(v@).subrange(0, 0)));
            }
            while i < n
                invariant
                    n == v@.len(),
                    0 <= i <= n,
                    jmodel_entries(v@).len() == v@.len(),
                    forall|k: int|
                        0 <= k < n ==> jmodel_entries(v@)[k] == ((#[trigger] v@[k]).0@, jmodel(
                            v@[k].1,
                        )),
                    out@ == seq!['{'] + jtext_obj(jmodel_entries(v@).subrange(0, i as int)),
                decreases n - i,
            {
                if i > 0 {
                    out.append(",");
                }
                out.append("\"");
                let entry = &v[i];
                append_escaped(&mut out, entry.0.as_str());
                out.append("\":");
                proof {
                    assert(decreases_to!(*j => *v));
                    assert(decreases_to!(*v => v@));
                    assert(decreases_to!(v@ => v@[i as int]));
                    assert(decreases_to!(v@[i as int] => v@[i as int].1));
                }
                let piece = json_to_text(&entry.1);
                out.append(piece.as_str());
                proof {
                    let ms = jmodel_entries(v@);
                    assert(ms.subrange(0, i + 1) =~= ms.subrange(0, i as int).push(
                        ms[i as int],
                    ));
                    let p = ms.subrange(0, i as int);
                    let q = ms.subrange(0, i + 1);
                    assert(q.subrange(0, q.len() - 1) =~= p);
                    if i == 0 {
                        assert(jtext_obj(q) =~= jtext_entry(ms[0]));
                    } else {
                        assert(jtext_obj(q) =~= jtext_obj(p) + seq![','] + jtext_entry(
                            ms[i as int],
                        ));
                    }
                    assert(out@ =~= seq!['{'] + jtext_obj(ms.subrange(0, i + 1)));
                }
                i = i + 1;
            }
            out.append("}");
            proof {
                assert(jmodel_entries(v@).subrange(0, n as int) =~= jmodel_entries(v@));
                assert(out@ =~= jtext(jmodel(*j)));
            }
            out
        },
    }
}

} // verus!
