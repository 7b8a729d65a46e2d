use vstd::prelude::*;
use vstd::string::StringExecFns;

use crate::json::json_obj_get;
use crate::json::json_parse;
use crate::json::parse_json;
use crate::json::json_view_fields;
use crate::json::lemma_json_view_fields;
use crate::json::lemma_str_list_of_strs;
use crate::json::obj_get;
use crate::json::opt_list;
use crate::json::opt_list_field;
use crate::json::opt_str;
use crate::json::opt_str_field;
use crate::json::strings_to_json;
use crate::json::Json;
use crate::json::JsonV;
use crate::strutil::dec_str;
use crate::strutil::u64_to_dec;

verus! {

/// The provider-agnostic translation record: one value per query, produced by
/// whichever backend answered it.
#[derive(Debug)]
pub struct Output {
    pub word: String,
    pub phonetic_us: Option<String>,
    pub phonetic_uk: Option<String>,
    pub audio_us: Option<String>,
    pub audio_uk: Option<String>,
    pub pos: Option<Vec<String>>,
    pub meanings: Option<Vec<String>>,
    pub desc: Option<String>,
}

/// The mathematical value of an `Output`.
#[verifier::ext_equal]
pub struct OutputV {
    pub word: Seq<char>,
    pub phonetic_us: Option<Seq<char>>,
    pub phonetic_uk: Option<Seq<char>>,
    pub audio_us: Option<Seq<char>>,
    pub audio_uk: Option<Seq<char>>,
    pub pos: Option<Seq<Seq<char>>>,
    pub meanings: Option<Seq<Seq<char>>>,
    pub desc: Option<Seq<char>>,
}

impl View for Output {
    type V = OutputV;

    open spec fn view(&self) -> OutputV {
        OutputV {
            word: self.word@,
            phonetic_us: self.phonetic_us.deep_view(),
            phonetic_uk: self.phonetic_uk.deep_view(),
            audio_us: self.audio_us.deep_view(),
            audio_uk: self.audio_uk.deep_view(),
            pos: self.pos.deep_view(),
            meanings: self.meanings.deep_view(),
            desc: self.desc.deep_view(),
        }
    }
}

/// The value of a record in which only the query word is set.
pub open spec fn fresh_output(word: Seq<char>) -> OutputV {
    OutputV {
        word: word,
        phonetic_us: None,
        phonetic_uk: None,
        audio_us: None,
        audio_uk: None,
        pos: None,
        meanings: None,
        desc: None,
    }
}

impl Output {
    /// A fresh record for `word`: every optional field starts absent.
    pub fn new(word: &str) -> (r: Output)
        ensures
            r@ == fresh_output(word@),
    {
        Output {
            word: word.to_owned(),
            phonetic_us: None,
            phonetic_uk: None,
            audio_us: None,
            audio_uk: None,
            pos: None,
            meanings: None,
            desc: None,
        }
    }
}

/// Why a translation call failed.
#[derive(Debug)]
pub enum TransError {
    /// The HTTP layer answered with a non-success status code.
    Http(u16),
    /// The response body was not well-formed XML; the offset is the byte
    /// position the parser reported.
    Xml(u64),
    /// The response body was not well-formed JSON.
    Json,
    /// The response was JSON, but of a shape no recognition rule matches.
    Shape,
    /// The provider answered with its own error record.
    Provider { code: String, msg: String },
    /// The conversational provider reported a status other than "completed".
    Status,
}

/// The text that `message` renders for each failure.
pub open spec fn message_of(e: TransError) -> Seq<char> {
    match e {
        TransError::Http(s) => "HTTP error: "@ + dec_str(s as nat),
        TransError::Xml(p) => "XML error at position "@ + dec_str(p as nat),
        TransError::Json => "JSON decode error"@,
        TransError::Shape => "unrecognized response shape"@,
        TransError::Provider { code, msg } => "Response error: "@ + code@ + ": "@ + msg@,
        TransError::Status => "chat status error"@,
    }
}

impl TransError {
    /// The human-readable failure text.
    pub fn message(&self) -> (r: String)
        ensures
            r@ == message_of(*self),
    {
        match self {
            TransError::Http(s) => {
                let mut t = String::from_str("HTTP error: ");
                let d = u64_to_dec(*s as u64);
                t.append(d.as_str());
                t
            },
            TransError::Xml(p) => {
                let mut t = String::from_str("XML error at position ");
                let d = u64_to_dec(*p);
                t.append(d.as_str());
                t
            },
            TransError::Json => String::from_str("JSON decode error"),
            TransError::Shape => String::from_str("unrecognized response shape"),
            TransError::Provider { code, msg } => {
                let mut t = String::from_str("Response error: ");
                t.append(code.as_str());
                t.append(": ");
                t.append(msg.as_str());
                proof {
                    assert(t@ =~= message_of(*self));
                }
                t
            },
            TransError::Status => String::from_str("chat status error"),
        }
    }
}

/// Law: the message of a provider-reported failure ends with, and so contains,
/// the provider's own diagnostic text.
pub proof fn lemma_provider_message_contains_msg(e: TransError)
    requires
        e is Provider,
    ensures
        message_of(e).len() >= e->Provider_msg@.len(),
        message_of(e).subrange(
            message_of(e).len() - e->Provider_msg@.len(),
            message_of(e).len() as int,
        ) == e->Provider_msg@,
{
    assert(message_of(e).subrange(
        message_of(e).len() - e->Provider_msg@.len(),
        message_of(e).len() as int,
    ) =~= e->Provider_msg@);
}

/// The lines of the plain-text rendering of a record: the word, then the
/// phonetic line if any transcription is present, then one line per meaning.
pub open spec fn render_spec(o: OutputV) -> Seq<Seq<char>> {
    seq![o.word] + phonetic_lines(o) + meaning_lines(o)
}

/// When both transcriptions are present they share one line, labelled
/// British then American; a lone transcription of either kind is shown
/// unlabelled; with neither, the line is omitted.
pub open spec fn phonetic_lines(o: OutputV) -> Seq<Seq<char>> {
    match (o.phonetic_uk, o.phonetic_us) {
        (Some(uk), Some(us)) => seq!["英 /"@ + uk + "/ 美 /"@ + us + "/"@],
        (Some(uk), None) => seq!["/"@ + uk + "/"@],
        (None, Some(us)) => seq!["/"@ + us + "/"@],
        (None, None) => Seq::empty(),
    }
}

/// One line per meaning, prefixed by the part of speech of the same rank where
/// the parts-of-speech list reaches that far.
pub open spec fn meaning_lines(o: OutputV) -> Seq<Seq<char>> {
    match o.meanings {
        Some(ms) => Seq::new(ms.len(), |i: int| meaning_line(o, i)),
        None => Seq::empty(),
    }
}

pub open spec fn meaning_line(o: OutputV, i: int) -> Seq<char> {
    let m = o.meanings->0[i];
    match o.pos {
        Some(ps) => if i < ps.len() {
            ps[i] + " "@ + m
        } else {
            m
        },
        None => m,
    }
}

/// Renders a record as the lines the tool prints.
pub fn render_lines(o: &Output) -> (r: Vec<String>)
    ensures
        r.deep_view() == render_spec(o@),
{
    let mut r: Vec<String> = Vec::new();
    r.push(o.word.clone());
    match (&o.phonetic_uk, &o.phonetic_us) {
        (Some(uk), Some(us)) => {
            let mut t = String::from_str("英 /");
            t.append(uk.as_str());
            t.append("/ 美 /");
            t.append(us.as_str());
            t.append("/");
            proof {
                assert(t@ =~= phonetic_lines(o@)[0]);
            }
            r.push(t);
        },
        (Some(uk), None) => {
            let mut t = String::from_str("/");
            t.append(uk.as_str());
            t.append("/");
            proof {
                assert(t@ =~= phonetic_lines(o@)[0]);
            }
            r.push(t);
        },
        (None, Some(us)) => {
            let mut t = String::from_str("/");
            t.append(us.as_str());
            t.append("/");
            proof {
                assert(t@ =~= phonetic_lines(o@)[0]);
            }
            r.push(t);
        },
        (None, None) => {},
    }
    let ghost head = seq![o@.word] + phonetic_lines(o@);
    proof {
        assert(r.deep_view() =~= head);
    }
    if let Some(ms) = &o.meanings {
        let mut i: usize = 0;
        while i < ms.len()
            invariant
                i <= ms@.len(),
                o@.meanings == Some(ms.deep_view()),
                head == seq![o@.word] + phonetic_lines(o@),
                r.deep_view() == head + Seq::new(i as nat, |n: int| meaning_line(o@, n)),
            decreases ms@.len() - i,
        {
            let ghost dv = r.deep_view();
            let mut line: String;
            match &o.pos {
                Some(ps) => {
                    if i < ps.len() {
                        line = ps[i].clone();
                        line.append(" ");
                        line.append(ms[i].as_str());
                    } else {
                        line = ms[i].clone();
                    }
                },
                None => {
                    line = ms[i].clone();
                },
            }
            proof {
                assert(line@ == meaning_line(o@, i as int));
            }
            let ghost lv = line@;
            let ghost rv = r@;
            r.push(line);
            proof {
                assert(r@ == rv.push(line));
                assert(r.deep_view() =~= dv.push(lv));
                assert(dv.push(lv) =~= head + Seq::new((i + 1) as nat, |n: int| meaning_line(o@, n)));
            }
            i = i + 1;
        }
        proof {
            assert(Seq::new(i as nat, |n: int| meaning_line(o@, n)) =~= meaning_lines(o@));
            assert(r.deep_view() =~= render_spec(o@));
        }
    } else {
        proof {
            assert(meaning_lines(o@) =~= Seq::<Seq<char>>::empty());
            assert(r.deep_view() =~= render_spec(o@));
        }
    }
    r
}

/// The JSON value of an optional string: the string, or null when absent.
pub open spec fn opt_str_json(x: Option<Seq<char>>) -> JsonV {
    match x {
        Some(s) => JsonV::Str(s),
        None => JsonV::Null,
    }
}

/// The JSON value of an optional string list: the list, or null when absent.
pub open spec fn opt_list_json(x: Option<Seq<Seq<char>>>) -> JsonV {
    match x {
        Some(l) => JsonV::Arr(l.map_values(|s: Seq<char>| JsonV::Str(s))),
        None => JsonV::Null,
    }
}

/// The JSON form of a record: all eight fields in declaration order, absent
/// options rendered as null.
pub open spec fn output_json(o: OutputV) -> JsonV {
    JsonV::Obj(
        seq![
            ("word"@, JsonV::Str(o.word)),
            ("phonetic_us"@, opt_str_json(o.phonetic_us)),
            ("phonetic_uk"@, opt_str_json(o.phonetic_uk)),
            ("audio_us"@, opt_str_json(o.audio_us)),
            ("audio_uk"@, opt_str_json(o.audio_uk)),
            ("pos"@, opt_list_json(o.pos)),
            ("meanings"@, opt_list_json(o.meanings)),
            ("desc"@, opt_str_json(o.desc)),
        ],
    )
}

fn opt_str_to_json(x: &Option<String>) -> (r: Json)
    ensures
        r@ == opt_str_json(x.deep_view()),
{
    match x {
        Some(s) => Json::Str(s.clone()),
        None => Json::Null,
    }
}

fn opt_list_to_json(x: &Option<Vec<String>>) -> (r: Json)
    ensures
        r@ == opt_list_json(x.deep_view()),
{
    match x {
        Some(v) => strings_to_json(v),
        None => Json::Null,
    }
}

/// Renders a record as its JSON value.
pub fn output_to_json(o: &Output) -> (j: Json)
    ensures
        j@ == output_json(o@),
{
    let mut fields: Vec<(String, Json)> = Vec::new();
    fields.push((String::from_str("word"), Json::Str(o.word.clone())));
    fields.push((String::from_str("phonetic_us"), opt_str_to_json(&o.phonetic_us)));
    fields.push((String::from_str("phonetic_uk"), opt_str_to_json(&o.phonetic_uk)));
    fields.push((String::from_str("audio_us"), opt_str_to_json(&o.audio_us)));
    fields.push((String::from_str("audio_uk"), opt_str_to_json(&o.audio_uk)));
    fields.push((String::from_str("pos"), opt_list_to_json(&o.pos)));
    fields.push((String::from_str("meanings"), opt_list_to_json(&o.meanings)));
    fields.push((String::from_str("desc"), opt_str_to_json(&o.desc)));
    let ghost fv = fields@;
    let j = Json::Obj(fields);
    proof {
        lemma_json_view_fields(fv);
        assert(json_view_fields(fv) =~= output_json(o@)->Obj_0);
        assert(j@ =~= output_json(o@));
    }
    j
}

/// The record a JSON value denotes, if it is an object with a string `word`
/// and the other fields absent, null, or of the record's own types.
pub open spec fn output_of_json_spec(j: JsonV) -> Option<OutputV> {
    match j {
        JsonV::Obj(o) => match obj_get(o, "word"@) {
            Some(JsonV::Str(w)) => match (
                opt_str_field(o, "phonetic_us"@),
                opt_str_field(o, "phonetic_uk"@),
                opt_str_field(o, "audio_us"@),
                opt_str_field(o, "audio_uk"@),
                opt_list_field(o, "pos"@),
                opt_list_field(o, "meanings"@),
                opt_str_field(o, "desc"@),
            ) {
                (Some(pus), Some(puk), Some(aus), Some(auk), Some(ps), Some(ms), Some(d)) => Some(
                    OutputV {
                        word: w,
                        phonetic_us: pus,
                        phonetic_uk: puk,
                        audio_us: aus,
                        audio_uk: auk,
                        pos: ps,
                        meanings: ms,
                        desc: d,
                    },
                ),
                _ => None,
            },
            _ => None,
        },
        _ => None,
    }
}

/// Reads a record back from its JSON value.
pub fn output_of_json(j: &Json) -> (r: Option<Output>)
    ensures
        match r {
            Some(o) => output_of_json_spec(j@) == Some(o@),
            None => output_of_json_spec(j@) is None,
        },
{
    let fields = match j {
        Json::Obj(f) => f,
        _ => {
            return None;
        },
    };
    let word = match json_obj_get(fields, "word") {
        Some(Json::Str(w)) => w.clone(),
        _ => {
            return None;
        },
    };
    let phonetic_us = match opt_str(fields, "phonetic_us") {
        Some(x) => x,
        None => {
            return None;
        },
    };
    let phonetic_uk = match opt_str(fields, "phonetic_uk") {
        Some(x) => x,
        None => {
            return None;
        },
    };
    let audio_us = match opt_str(fields, "audio_us") {
        Some(x) => x,
        None => {
            return None;
        },
    };
    let audio_uk = match opt_str(fields, "audio_uk") {
        Some(x) => x,
        None => {
            return None;
        },
    };
    let pos = match opt_list(fields, "pos") {
        Some(x) => x,
        None => {
            return None;
        },
    };
    let meanings = match opt_list(fields, "meanings") {
        Some(x) => x,
        None => {
            return None;
        },
    };
    let desc = match opt_str(fields, "desc") {
        Some(x) => x,
        None => {
            return None;
        },
    };
    let o = Output { word, phonetic_us, phonetic_uk, audio_us, audio_uk, pos, meanings, desc };
    proof {
        assert(output_of_json_spec(j@)->0 =~= o@);
    }
    Some(o)
}

/// Reads a record from a JSON text.
pub fn output_from_json_str(s: &str) -> (r: Option<Output>)
    ensures
        json_parse(s@) matches Some(jv) ==> (match r {
            Some(o) => output_of_json_spec(jv) == Some(o@),
            None => output_of_json_spec(jv) is None,
        }),
        json_parse(s@) is None ==> r is None,
{
    match parse_json(s) {
        Some(j) => output_of_json(&j),
        None => None,
    }
}

/// Law: rendering a record to JSON and reading it back yields the record,
/// field for field, absent options kept absent.
pub proof fn lemma_output_json_round_trip(o: OutputV)
    ensures
        output_of_json_spec(output_json(o)) == Some(o),
{
    reveal_strlit("word");
    reveal_strlit("phonetic_us");
    reveal_strlit("phonetic_uk");
    reveal_strlit("audio_us");
    reveal_strlit("audio_uk");
    reveal_strlit("pos");
    reveal_strlit("meanings");
    reveal_strlit("desc");
    assert("word"@.len() == 4);
    assert("phonetic_us"@.len() == 11);
    assert("phonetic_uk"@.len() == 11);
    assert("audio_us"@.len() == 8);
    assert("audio_uk"@.len() == 8);
    assert("pos"@.len() == 3);
    assert("meanings"@.len() == 8);
    assert("desc"@.len() == 4);
    assert("phonetic_us"@[10] == 's' && "phonetic_uk"@[10] == 'k');
    assert("audio_us"@[7] == 's' && "audio_uk"@[7] == 'k');
    assert("meanings"@[0] == 'm' && "audio_us"@[0] == 'a' && "audio_uk"@[0] == 'a');
    assert("desc"@[0] == 'd' && "word"@[0] == 'w');
    let fs = output_json(o)->Obj_0;
    let t1 = fs.drop_first();
    let t2 = t1.drop_first();
    let t3 = t2.drop_first();
    let t4 = t3.drop_first();
    let t5 = t4.drop_first();
    let t6 = t5.drop_first();
    let t7 = t6.drop_first();
    assert(fs[0] == fs[0]);
    assert(fs[0] == ("word"@, JsonV::Str(o.word)));
    assert(t1[0] == fs[1]);
    assert(fs[1] == ("phonetic_us"@, opt_str_json(o.phonetic_us)));
    assert(t2[0] == fs[2]);
    assert(fs[2] == ("phonetic_uk"@, opt_str_json(o.phonetic_uk)));
    assert(t3[0] == fs[3]);
    assert(fs[3] == ("audio_us"@, opt_str_json(o.audio_us)));
    assert(t4[0] == fs[4]);
    assert(fs[4] == ("audio_uk"@, opt_str_json(o.audio_uk)));
    assert(t5[0] == fs[5]);
    assert(fs[5] == ("pos"@, opt_list_json(o.pos)));
    assert(t6[0] == fs[6]);
    assert(fs[6] == ("meanings"@, opt_list_json(o.meanings)));
    assert(t7[0] == fs[7]);
    assert(fs[7] == ("desc"@, opt_str_json(o.desc)));
    assert(obj_get(fs, "word"@) == Some(JsonV::Str(o.word)));
    assert(obj_get(fs, "word"@) == Some(JsonV::Str(o.word)));
    crate::json::lemma_obj_get_step(fs, "phonetic_us"@);
    assert(obj_get(t1, "phonetic_us"@) == Some(opt_str_json(o.phonetic_us)));
    assert(obj_get(fs, "phonetic_us"@) == Some(opt_str_json(o.phonetic_us)));
    crate::json::lemma_obj_get_step(fs, "phonetic_uk"@);
    crate::json::lemma_obj_get_step(t1, "phonetic_uk"@);
    assert(obj_get(t2, "phonetic_uk"@) == Some(opt_str_json(o.phonetic_uk)));
    assert(obj_get(fs, "phonetic_uk"@) == Some(opt_str_json(o.phonetic_uk)));
    crate::json::lemma_obj_get_step(fs, "audio_us"@);
    crate::json::lemma_obj_get_step(t1, "audio_us"@);
    crate::json::lemma_obj_get_step(t2, "audio_us"@);
    assert(obj_get(t3, "audio_us"@) == Some(opt_str_json(o.audio_us)));
    assert(obj_get(fs, "audio_us"@) == Some(opt_str_json(o.audio_us)));
    crate::json::lemma_obj_get_step(fs, "audio_uk"@);
    crate::json::lemma_obj_get_step(t1, "audio_uk"@);
    crate::json::lemma_obj_get_step(t2, "audio_uk"@);
    crate::json::lemma_obj_get_step(t3, "audio_uk"@);
    assert(obj_get(t4, "audio_uk"@) == Some(opt_str_json(o.audio_uk)));
    assert(obj_get(fs, "audio_uk"@) == Some(opt_str_json(o.audio_uk)));
    crate::json::lemma_obj_get_step(fs, "pos"@);
    crate::json::lemma_obj_get_step(t1, "pos"@);
    crate::json::lemma_obj_get_step(t2, "pos"@);
    crate::json::lemma_obj_get_step(t3, "pos"@);
    crate::json::lemma_obj_get_step(t4, "pos"@);
    assert(obj_get(t5, "pos"@) == Some(opt_list_json(o.pos)));
    assert(obj_get(fs, "pos"@) == Some(opt_list_json(o.pos)));
    crate::json::lemma_obj_get_step(fs, "meanings"@);
    crate::json::lemma_obj_get_step(t1, "meanings"@);
    crate::json::lemma_obj_get_step(t2, "meanings"@);
    crate::json::lemma_obj_get_step(t3, "meanings"@);
    crate::json::lemma_obj_get_step(t4, "meanings"@);
    crate::json::lemma_obj_get_step(t5, "meanings"@);
    assert(obj_get(t6, "meanings"@) == Some(opt_list_json(o.meanings)));
    assert(obj_get(fs, "meanings"@) == Some(opt_list_json(o.meanings)));
    crate::json::lemma_obj_get_step(fs, "desc"@);
    crate::json::lemma_obj_get_step(t1, "desc"@);
    crate::json::lemma_obj_get_step(t2, "desc"@);
    crate::json::lemma_obj_get_step(t3, "desc"@);
    crate::json::lemma_obj_get_step(t4, "desc"@);
    crate::json::lemma_obj_get_step(t5, "desc"@);
    crate::json::lemma_obj_get_step(t6, "desc"@);
    assert(obj_get(t7, "desc"@) == Some(opt_str_json(o.desc)));
    assert(obj_get(fs, "desc"@) == Some(opt_str_json(o.desc)));
    if o.pos is Some {
        lemma_str_list_of_strs(o.pos->0);
    }
    if o.meanings is Some {
        lemma_str_list_of_strs(o.meanings->0);
    }
    assert(output_of_json_spec(output_json(o)) matches Some(b) && b =~= o);
}

} // verus!
