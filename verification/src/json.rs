use vstd::prelude::*;
use vstd::string::StrSliceExecFns;
use vstd::string::StringExecFns;

use crate::strutil::hex_digit;
use crate::strutil::push_char;
use crate::strutil::str_eq;

verus! {

/// A JSON document, held as a plain tree. Numbers keep the digits the parser
/// saw; none of the backends reads a numeric field.
#[derive(Debug)]
pub enum Json {
    Null,
    Bool(bool),
    Num(String),
    Str(String),
    Arr(Vec<Json>),
    Obj(Vec<(String, Json)>),
}

/// The mathematical value of a `Json` tree.
#[verifier::ext_equal]
pub enum JsonV {
    Null,
    Bool(bool),
    Num(Seq<char>),
    Str(Seq<char>),
    Arr(Seq<JsonV>),
    Obj(Seq<(Seq<char>, JsonV)>),
}

pub open spec fn json_view(j: Json) -> JsonV
    decreases j,
{
    match j {
        Json::Null => JsonV::Null,
        Json::Bool(b) => JsonV::Bool(b),
        Json::Num(s) => JsonV::Num(s@),
        Json::Str(s) => JsonV::Str(s@),
        Json::Arr(v) => JsonV::Arr(json_view_seq(v@)),
        Json::Obj(v) => JsonV::Obj(json_view_fields(v@)),
    }
}

pub open spec fn json_view_seq(s: Seq<Json>) -> Seq<JsonV>
    decreases s,
{
    if s.len() == 0 {
        Seq::empty()
    } else {
        seq![json_view(s.first())] + json_view_seq(s.drop_first())
    }
}

pub open spec fn json_view_fields(s: Seq<(String, Json)>) -> Seq<(Seq<char>, JsonV)>
    decreases s,
{
    if s.len() == 0 {
        Seq::empty()
    } else {
        seq![(s.first().0@, json_view(s.first().1))] + json_view_fields(s.drop_first())
    }
}

pub proof fn lemma_json_view_seq(s: Seq<Json>)
    ensures
        json_view_seq(s).len() == s.len(),
        forall|i: int| 0 <= i < s.len() ==> json_view_seq(s)[i] == json_view(s[i]),
    decreases s.len(),
{
    if s.len() > 0 {
        lemma_json_view_seq(s.drop_first());
    }
}

pub proof fn lemma_json_view_fields(s: Seq<(String, Json)>)
    ensures
        json_view_fields(s).len() == s.len(),
        forall|i: int| 0 <= i < s.len() ==> json_view_fields(s)[i] == (s[i].0@, json_view(
            s[i].1,
        )),
    decreases s.len(),
{
    if s.len() > 0 {
        lemma_json_view_fields(s.drop_first());
    }
}

impl View for Json {
    type V = JsonV;

    open spec fn view(&self) -> JsonV {
        json_view(*self)
    }
}

/// The value of the first field named `k`, if the object has one. The trees
/// that come out of the parser never repeat a key, so the first match is the
/// only one.
pub open spec fn obj_get(o: Seq<(Seq<char>, JsonV)>, k: Seq<char>) -> Option<JsonV>
    decreases o.len(),
{
    if o.len() == 0 {
        None
    } else if o[0].0 == k {
        Some(o[0].1)
    } else {
        obj_get(o.drop_first(), k)
    }
}

/// Looks a key up in the field list of a JSON object.
pub fn json_obj_get<'a>(fields: &'a Vec<(String, Json)>, k: &str) -> (r: Option<&'a Json>)
    ensures
        match r {
            Some(j) => obj_get(json_view_fields(fields@), k@) == Some(j@),
            None => obj_get(json_view_fields(fields@), k@) is None,
        },
{
    let ghost o = json_view_fields(fields@);
    proof {
        lemma_json_view_fields(fields@);
        assert(o.skip(0) =~= o);
    }
    let mut i: usize = 0;
    while i < fields.len()
        invariant
            0 <= i <= fields.len(),
            o == json_view_fields(fields@),
            o.len() == fields.len(),
            forall|n: int| 0 <= n < o.len() ==> o[n] == (fields@[n].0@, json_view(fields@[n].1)),
            obj_get(o, k@) == obj_get(o.skip(i as int), k@),
        decreases fields.len() - i,
    {
        proof {
            assert(o.skip(i as int)[0] == o[i as int]);
        }
        if str_eq(fields[i].0.as_str(), k) {
            return Some(&fields[i].1);
        }
        proof {
            assert(o.skip(i as int).drop_first() =~= o.skip(i + 1));
        }
        i = i + 1;
    }
    proof {
        assert(o.skip(i as int) =~= Seq::<(Seq<char>, JsonV)>::empty());
    }
    None
}

/// The serialized form of one character inside a JSON string literal: the
/// quote, the backslash and the control characters are escaped as the common
/// serializers do, and every other character stands as itself.
pub open spec fn esc_char(c: char) -> Seq<char> {
    if c == '"' {
        seq!['\\', '"']
    } else if c == '\\' {
        seq!['\\', '\\']
    } else if c == '\u{8}' {
        seq!['\\', 'b']
    } else if c == '\u{9}' {
        seq!['\\', 't']
    } else if c == '\u{a}' {
        seq!['\\', 'n']
    } else if c == '\u{c}' {
        seq!['\\', 'f']
    } else if c == '\u{d}' {
        seq!['\\', 'r']
    } else if (c as nat) < 32 {
        seq!['\\', 'u', '0', '0', hex_digit((c as nat) / 16), hex_digit((c as nat) % 16)]
    } else {
        seq![c]
    }
}

/// The escaped body of a JSON string literal.
pub open spec fn esc_str(s: Seq<char>) -> Seq<char>
    decreases s.len(),
{
    if s.len() == 0 {
        Seq::empty()
    } else {
        esc_char(s.first()) + esc_str(s.drop_first())
    }
}

/// The serialized text of a JSON value: no added whitespace, object fields in
/// order.
pub open spec fn json_text(j: JsonV) -> Seq<char>
    decreases j,
{
    match j {
        JsonV::Null => "null"@,
        JsonV::Bool(b) => if b {
            "true"@
        } else {
            "false"@
        },
        JsonV::Num(s) => s,
        JsonV::Str(s) => seq!['"'] + esc_str(s) + seq!['"'],
        JsonV::Arr(a) => seq!['['] + json_text_items(a) + seq![']'],
        JsonV::Obj(o) => seq!['{'] + json_text_fields(o) + seq!['}'],
    }
}

pub open spec fn json_text_items(a: Seq<JsonV>) -> Seq<char>
    decreases a,
{
    if a.len() == 0 {
        Seq::empty()
    } else {
        json_text(a.first()) + json_text_more_items(a.drop_first())
    }
}

pub open spec fn json_text_more_items(a: Seq<JsonV>) -> Seq<char>
    decreases a,
{
    if a.len() == 0 {
        Seq::empty()
    } else {
        seq![','] + json_text(a.first()) + json_text_more_items(a.drop_first())
    }
}

pub open spec fn field_text(f: (Seq<char>, JsonV)) -> Seq<char>
    decreases f,
{
    seq!['"'] + esc_str(f.0) + seq!['"', ':'] + json_text(f.1)
}

pub open spec fn json_text_fields(o: Seq<(Seq<char>, JsonV)>) -> Seq<char>
    decreases o,
{
    if o.len() == 0 {
        Seq::empty()
    } else {
        field_text(o.first()) + json_text_more_fields(o.drop_first())
    }
}

pub open spec fn json_text_more_fields(o: Seq<(Seq<char>, JsonV)>) -> Seq<char>
    decreases o,
{
    if o.len() == 0 {
        Seq::empty()
    } else {
        seq![','] + field_text(o.first()) + json_text_more_fields(o.drop_first())
    }
}

proof fn lemma_esc_str_push(s: Seq<char>, c: char)
    ensures
        esc_str(s.push(c)) == esc_str(s) + esc_char(c),
    decreases s.len(),
{
    if s.len() == 0 {
        assert(s.push(c).drop_first() =~= Seq::<char>::empty());
        assert(s.push(c).first() == c);
        assert(esc_str(s.push(c).drop_first()) == Seq::<char>::empty());
        assert(esc_str(s.push(c)) =~= esc_str(s) + esc_char(c));
    } else {
        assert(s.push(c).drop_first() =~= s.drop_first().push(c));
        assert(s.push(c).first() == s.first());
        lemma_esc_str_push(s.drop_first(), c);
        assert(esc_str(s.push(c)) =~= esc_str(s) + esc_char(c));
    }
}

proof fn lemma_more_items_push(a: Seq<JsonV>, x: JsonV)
    ensures
        json_text_more_items(a.push(x)) == json_text_more_items(a) + seq![','] + json_text(x),
    decreases a.len(),
{
    if a.len() == 0 {
        assert(a.push(x).drop_first() =~= Seq::<JsonV>::empty());
        assert(a.push(x).first() == x);
        assert(json_text_more_items(a.push(x).drop_first()) == Seq::<char>::empty());
        assert(json_text_more_items(a.push(x)) =~= json_text_more_items(a) + seq![','] + json_text(
            x,
        ));
    } else {
        assert(a.push(x).drop_first() =~= a.drop_first().push(x));
        assert(a.push(x).first() == a.first());
        lemma_more_items_push(a.drop_first(), x);
        assert(json_text_more_items(a.push(x)) =~= json_text_more_items(a) + seq![','] + json_text(
            x,
        ));
    }
}

proof fn lemma_items_push(a: Seq<JsonV>, x: JsonV)
    ensures
        json_text_items(a.push(x)) == if a.len() == 0 {
            json_text(x)
        } else {
            json_text_items(a) + seq![','] + json_text(x)
        },
{
    if a.len() == 0 {
        assert(a.push(x).drop_first() =~= Seq::<JsonV>::empty());
        assert(a.push(x).first() == x);
        assert(json_text_more_items(a.push(x).drop_first()) == Seq::<char>::empty());
        assert(json_text_items(a.push(x)) =~= json_text(x));
    } else {
        assert(a.push(x).drop_first() =~= a.drop_first().push(x));
        assert(a.push(x).first() == a.first());
        lemma_more_items_push(a.drop_first(), x);
        assert(json_text_items(a.push(x)) =~= json_text_items(a) + seq![','] + json_text(x));
    }
}

proof fn lemma_more_fields_push(o: Seq<(Seq<char>, JsonV)>, x: (Seq<char>, JsonV))
    ensures
        json_text_more_fields(o.push(x)) == json_text_more_fields(o) + seq![','] + field_text(x),
    decreases o.len(),
{
    if o.len() == 0 {
        assert(o.push(x).drop_first() =~= Seq::<(Seq<char>, JsonV)>::empty());
        assert(o.push(x).first() == x);
        assert(json_text_more_fields(o.push(x).drop_first()) == Seq::<char>::empty());
        assert(json_text_more_fields(o.push(x)) =~= json_text_more_fields(o) + seq![',']
            + field_text(x));
    } else {
        assert(o.push(x).drop_first() =~= o.drop_first().push(x));
        assert(o.push(x).first() == o.first());
        lemma_more_fields_push(o.drop_first(), x);
        assert(json_text_more_fields(o.push(x)) =~= json_text_more_fields(o) + seq![',']
            + field_text(x));
    }
}

proof fn lemma_fields_push(o: Seq<(Seq<char>, JsonV)>, x: (Seq<char>, JsonV))
    ensures
        json_text_fields(o.push(x)) == if o.len() == 0 {
            field_text(x)
        } else {
            json_text_fields(o) + seq![','] + field_text(x)
        },
{
    if o.len() == 0 {
        assert(o.push(x).drop_first() =~= Seq::<(Seq<char>, JsonV)>::empty());
        assert(o.push(x).first() == x);
        assert(json_text_more_fields(o.push(x).drop_first()) == Seq::<char>::empty());
        assert(json_text_fields(o.push(x)) =~= field_text(x));
    } else {
        assert(o.push(x).drop_first() =~= o.drop_first().push(x));
        assert(o.push(x).first() == o.first());
        lemma_more_fields_push(o.drop_first(), x);
        assert(json_text_fields(o.push(x)) =~= json_text_fields(o) + seq![','] + field_text(x));
    }
}

/// Appends the serialized form of one character of a string literal.
fn esc_push(t: &mut String, c: char)
    ensures
        final (t)@ == old(t)@ + esc_char(c),
{
    let ghost t0 = t@;
    if c == '"' {
        push_char(t, '\\');
        push_char(t, '"');
    } else if c == '\\' {
        push_char(t, '\\');
        push_char(t, '\\');
    } else if c == '\u{8}' {
        push_char(t, '\\');
        push_char(t, 'b');
    } else if c == '\u{9}' {
        push_char(t, '\\');
        push_char(t, 't');
    } else if c == '\u{a}' {
        push_char(t, '\\');
        push_char(t, 'n');
    } else if c == '\u{c}' {
        push_char(t, '\\');
        push_char(t, 'f');
    } else if c == '\u{d}' {
        push_char(t, '\\');
        push_char(t, 'r');
    } else if (c as u32) < 32 {
        let d = c as u32;
        push_char(t, '\\');
        push_char(t, 'u');
        push_char(t, '0');
        push_char(t, '0');
        push_char(t, crate::strutil::hex_digit_exec((d / 16) as u8));
        push_char(t, crate::strutil::hex_digit_exec((d % 16) as u8));
    } else {
        push_char(t, c);
    }
    proof {
        assert(t@ =~= t0 + esc_char(c));
    }
}

/// Appends one JSON string literal: the quoted, escaped text.
fn append_string_literal(t: &mut String, s: &str)
    ensures
        final (t)@ == old(t)@ + seq!['"'] + esc_str(s@) + seq!['"'],
{
    let ghost t0 = t@;
    push_char(t, '"');
    let len = s.unicode_len();
    let mut i: usize = 0;
    proof {
        assert(s@.take(0) =~= Seq::<char>::empty());
        assert(t@ =~= t0 + seq!['"'] + esc_str(s@.take(0)));
    }
    while i < len
        invariant
            i <= len,
            len == s@.len(),
            t@ == t0 + seq!['"'] + esc_str(s@.take(i as int)),
        decreases len - i,
    {
        let c = s.get_char(i);
        esc_push(t, c);
        proof {
            lemma_esc_str_push(s@.take(i as int), s@[i as int]);
            assert(s@.take(i + 1) =~= s@.take(i as int).push(s@[i as int]));
            assert(t@ =~= t0 + seq!['"'] + esc_str(s@.take(i + 1)));
        }
        i = i + 1;
    }
    push_char(t, '"');
    proof {
        assert(s@.take(i as int) =~= s@);
        assert(t@ =~= t0 + seq!['"'] + esc_str(s@) + seq!['"']);
    }
}

/// Renders a JSON value as its serialized text.
#[verifier::loop_isolation(false)]
pub fn json_to_string(j: &Json) -> (r: String)
    ensures
        r@ == json_text(j@),
    decreases j,
{
    match j {
        Json::Null => String::from_str("null"),
        Json::Bool(b) => if *b {
            String::from_str("true")
        } else {
            String::from_str("false")
        },
        Json::Num(s) => s.clone(),
        Json::Str(s) => {
            let mut t = String::new();
            append_string_literal(&mut t, s.as_str());
            proof {
                assert(t@ =~= json_text(j@));
            }
            t
        },
        Json::Arr(items) => {
            let ghost av = json_view_seq(items@);
            proof {
                lemma_json_view_seq(items@);
                assert(av.take(0) =~= Seq::<JsonV>::empty());
            }
            let mut t = String::new();
            push_char(&mut t, '[');
            let mut i: usize = 0;
            while i < items.len()
                invariant
                    i <= items@.len(),
                    av == json_view_seq(items@),
                    av.len() == items@.len(),
                    forall|n: int| 0 <= n < av.len() ==> av[n] == json_view(items@[n]),
                    t@ == seq!['['] + json_text_items(av.take(i as int)),
                decreases items@.len() - i,
            {
                proof {
                    lemma_items_push(av.take(i as int), av[i as int]);
                    assert(av.take(i + 1) =~= av.take(i as int).push(av[i as int]));
                    assert(*j == Json::Arr(*items));
                    assert(decreases_to!(Json::Arr(*items) => *items));
                    assert(decreases_to!(*items => items@));
                    assert(decreases_to!(items@ => items@[i as int]));
                }
                if i > 0 {
                    push_char(&mut t, ',');
                }
                let e = json_to_string(&items[i]);
                t.append(e.as_str());
                proof {
                    assert(t@ =~= seq!['['] + json_text_items(av.take(i + 1)));
                }
                i = i + 1;
            }
            push_char(&mut t, ']');
            proof {
                assert(av.take(i as int) =~= av);
                assert(t@ =~= json_text(j@));
            }
            t
        },
        Json::Obj(fields) => {
            let ghost ov = json_view_fields(fields@);
            proof {
                lemma_json_view_fields(fields@);
                assert(ov.take(0) =~= Seq::<(Seq<char>, JsonV)>::empty());
            }
            let mut t = String::new();
            push_char(&mut t, '{');
            let mut i: usize = 0;
            while i < fields.len()
                invariant
                    i <= fields@.len(),
                    ov == json_view_fields(fields@),
                    ov.len() == fields@.len(),
                    forall|n: int|
                        0 <= n < ov.len() ==> ov[n] == (fields@[n].0@, json_view(fields@[n].1)),
                    t@ == seq!['{'] + json_text_fields(ov.take(i as int)),
                decreases fields@.len() - i,
            {
                proof {
                    lemma_fields_push(ov.take(i as int), ov[i as int]);
                    assert(ov.take(i + 1) =~= ov.take(i as int).push(ov[i as int]));
                    assert(*j == Json::Obj(*fields));
                    assert(decreases_to!(Json::Obj(*fields) => *fields));
                    assert(decreases_to!(*fields => fields@));
                    assert(decreases_to!(fields@ => fields@[i as int]));
                    assert(decreases_to!(fields@[i as int] => fields@[i as int].1));
                }
                if i > 0 {
                    push_char(&mut t, ',');
                }
                append_string_literal(&mut t, fields[i].0.as_str());
                push_char(&mut t, ':');
                let e = json_to_string(&fields[i].1);
                t.append(e.as_str());
                proof {
                    assert(t@ =~= seq!['{'] + json_text_fields(ov.take(i + 1)));
                }
                i = i + 1;
            }
            push_char(&mut t, '}');
            proof {
                assert(ov.take(i as int) =~= ov);
                assert(t@ =~= json_text(j@));
            }
            t
        },
    }
}

/// An optional string field: an absent field and a null decode to nothing, a
/// string decodes to itself, and any other value refuses the payload.
pub open spec fn opt_str_field(o: Seq<(Seq<char>, JsonV)>, k: Seq<char>) -> Option<
    Option<Seq<char>>,
> {
    match obj_get(o, k) {
        None => Some(None),
        Some(JsonV::Null) => Some(None),
        Some(JsonV::Str(s)) => Some(Some(s)),
        Some(_) => None,
    }
}

/// Reads an optional string field of a JSON object.
pub(crate) fn opt_str(fields: &Vec<(String, Json)>, k: &str) -> (r: Option<Option<String>>)
    ensures
        match r {
            Some(v) => opt_str_field(json_view_fields(fields@), k@) == Some(v.deep_view()),
            None => opt_str_field(json_view_fields(fields@), k@) is None,
        },
{
    match json_obj_get(fields, k) {
        None => Some(None),
        Some(j) => match j {
            Json::Null => Some(None),
            Json::Str(s) => Some(Some(s.clone())),
            _ => None,
        },
    }
}

/// A lookup that does not match the first field continues past it.
pub proof fn lemma_obj_get_step(o: Seq<(Seq<char>, JsonV)>, k: Seq<char>)
    requires
        o.len() > 0,
        o[0].0 != k,
    ensures
        obj_get(o, k) == obj_get(o.drop_first(), k),
{
}

/// A list of strings, if every element of a JSON list is a string.
pub open spec fn str_list(items: Seq<JsonV>) -> Option<Seq<Seq<char>>>
    decreases items.len(),
{
    if items.len() == 0 {
        Some(Seq::empty())
    } else {
        match items.first() {
            JsonV::Str(s) => match str_list(items.drop_first()) {
                Some(rest) => Some(seq![s] + rest),
                None => None,
            },
            _ => None,
        }
    }
}

/// An optional string-list field: an absent field and a null decode to
/// nothing, a list of strings decodes to itself, and any other value refuses
/// the payload.
pub open spec fn opt_list_field(o: Seq<(Seq<char>, JsonV)>, k: Seq<char>) -> Option<
    Option<Seq<Seq<char>>>,
> {
    match obj_get(o, k) {
        None => Some(None),
        Some(JsonV::Null) => Some(None),
        Some(JsonV::Arr(items)) => match str_list(items) {
            Some(l) => Some(Some(l)),
            None => None,
        },
        Some(_) => None,
    }
}

proof fn lemma_str_list_push(items: Seq<JsonV>, x: JsonV)
    ensures
        str_list(items.push(x)) == (match (str_list(items), x) {
            (Some(l), JsonV::Str(s)) => Some(l.push(s)),
            _ => None::<Seq<Seq<char>>>,
        }),
    decreases items.len(),
{
    if items.len() == 0 {
        assert(items.push(x).drop_first() =~= Seq::<JsonV>::empty());
        assert(items.push(x).first() == x);
        assert(str_list(items.push(x).drop_first()) == Some(Seq::<Seq<char>>::empty()));
        if x is Str {
            assert(seq![x->Str_0] + Seq::<Seq<char>>::empty() =~= Seq::<Seq<char>>::empty().push(
                x->Str_0,
            ));
        }
    } else {
        assert(items.push(x).drop_first() =~= items.drop_first().push(x));
        assert(items.push(x).first() == items.first());
        lemma_str_list_push(items.drop_first(), x);
        if items.first() is Str && str_list(items.drop_first()) is Some && x is Str {
            let s0 = items.first()->Str_0;
            let rest = str_list(items.drop_first())->0;
            assert(seq![s0] + rest.push(x->Str_0) =~= (seq![s0] + rest).push(x->Str_0));
        }
    }
}

proof fn lemma_str_list_prefix_none(items: Seq<JsonV>, i: int)
    requires
        0 <= i <= items.len(),
        str_list(items.take(i)) is None,
    ensures
        str_list(items) is None,
    decreases items.len() - i,
{
    if i < items.len() {
        lemma_str_list_push(items.take(i), items[i]);
        assert(items.take(i + 1) =~= items.take(i).push(items[i]));
        lemma_str_list_prefix_none(items, i + 1);
    } else {
        assert(items.take(i) =~= items);
    }
}

/// Law helper: a list built of string values reads back as the strings it was
/// built from.
pub proof fn lemma_str_list_of_strs(l: Seq<Seq<char>>)
    ensures
        str_list(l.map_values(|s: Seq<char>| JsonV::Str(s))) == Some(l),
    decreases l.len(),
{
    let f = |s: Seq<char>| JsonV::Str(s);
    if l.len() == 0 {
        assert(l.map_values(f).len() == 0);
    } else {
        assert(l.map_values(f).drop_first() =~= l.drop_first().map_values(f));
        assert(l.map_values(f).first() == f(l.first()));
        lemma_str_list_of_strs(l.drop_first());
        assert(seq![l.first()] + l.drop_first() =~= l);
    }
}

/// Collects the strings of a JSON list.
fn collect_strings(items: &Vec<Json>) -> (r: Option<Vec<String>>)
    ensures
        match r {
            Some(v) => str_list(json_view_seq(items@)) == Some(v.deep_view()),
            None => str_list(json_view_seq(items@)) is None,
        },
{
    let ghost itemsv = json_view_seq(items@);
    proof {
        lemma_json_view_seq(items@);
        assert(itemsv.take(0) =~= Seq::<JsonV>::empty());
    }
    let mut out: Vec<String> = Vec::new();
    let mut i: usize = 0;
    while i < items.len()
        invariant
            i <= items@.len(),
            itemsv == json_view_seq(items@),
            itemsv.len() == items@.len(),
            forall|n: int| 0 <= n < itemsv.len() ==> itemsv[n] == json_view(items@[n]),
            str_list(itemsv.take(i as int)) == Some(out.deep_view()),
        decreases items@.len() - i,
    {
        proof {
            lemma_str_list_push(itemsv.take(i as int), itemsv[i as int]);
            assert(itemsv.take(i + 1) =~= itemsv.take(i as int).push(itemsv[i as int]));
        }
        match &items[i] {
            Json::Str(s) => {
                let ghost dv = out.deep_view();
                out.push(s.clone());
                proof {
                    assert(out.deep_view() =~= dv.push(s@));
                }
            },
            _ => {
                proof {
                    lemma_str_list_prefix_none(itemsv, i + 1);
                }
                return None;
            },
        }
        i = i + 1;
    }
    proof {
        assert(itemsv.take(i as int) =~= itemsv);
    }
    Some(out)
}

/// Reads an optional string-list field of a JSON object.
pub(crate) fn opt_list(fields: &Vec<(String, Json)>, k: &str) -> (r: Option<Option<Vec<String>>>)
    ensures
        match r {
            Some(v) => opt_list_field(json_view_fields(fields@), k@) == Some(v.deep_view()),
            None => opt_list_field(json_view_fields(fields@), k@) is None,
        },
{
    match json_obj_get(fields, k) {
        None => Some(None),
        Some(j) => match j {
            Json::Null => Some(None),
            Json::Arr(items) => match collect_strings(items) {
                Some(v) => Some(Some(v)),
                None => None,
            },
            _ => None,
        },
    }
}

/// Renders a list of strings as a JSON list of string values.
pub(crate) fn strings_to_json(v: &Vec<String>) -> (r: Json)
    ensures
        r@ == JsonV::Arr(v.deep_view().map_values(|s: Seq<char>| JsonV::Str(s))),
{
    let mut items: Vec<Json> = Vec::new();
    let mut i: usize = 0;
    while i < v.len()
        invariant
            i <= v@.len(),
            items@.len() == i,
            forall|n: int| 0 <= n < i ==> json_view(items@[n]) == JsonV::Str(v.deep_view()[n]),
        decreases v@.len() - i,
    {
        items.push(Json::Str(v[i].clone()));
        i = i + 1;
    }
    proof {
        lemma_json_view_seq(items@);
        assert(json_view_seq(items@) =~= v.deep_view().map_values(|s: Seq<char>| JsonV::Str(s)));
    }
    Json::Arr(items)
}

/// Declares serde_json::Value, the parser's own document type, so that the
/// conversion below may take it; the library holds no value of it.
#[verifier::external_type_specification]
#[verifier::external_body]
pub struct ExValue(serde_json::Value);

/// The JSON document a text denotes, if the text is well-formed JSON. The
/// result depends on the text alone.
pub uninterp spec fn json_parse(s: Seq<char>) -> Option<JsonV>;

/// Relies on serde_json::from_str::<serde_json::Value>: parses a text as one
/// JSON document, keys of repeated object fields resolved by the parser.
#[verifier::external_body]
pub(crate) fn parse_json(s: &str) -> (r: Option<Json>)
    ensures
        r matches Some(j) ==> json_parse(s@) == Some(j@),
        r is None ==> json_parse(s@) is None,
{
    match serde_json::from_str::<serde_json::Value>(s) {
        Ok(v) => Some(json_of_value(&v)),
        Err(_) => None,
    }
}

/// Relies on serde_json::Value: tells its variants apart and moves their
/// contents, one arm each, into the library's tree.
#[verifier::external_body]
fn json_of_value(v: &serde_json::Value) -> Json {
    match v {
        serde_json::Value::Null => Json::Null,
        serde_json::Value::Bool(b) => Json::Bool(*b),
        serde_json::Value::Number(n) => Json::Num(n.to_string()),
        serde_json::Value::String(s) => Json::Str(s.clone()),
        serde_json::Value::Array(a) => Json::Arr(a.iter().map(json_of_value).collect()),
        serde_json::Value::Object(m) => Json::Obj(
            m.iter().map(|(k, x)| (k.clone(), json_of_value(x))).collect(),
        ),
    }
}

} // verus!
