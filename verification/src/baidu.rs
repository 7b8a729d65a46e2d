use vstd::prelude::*;
use vstd::string::StringExecFns;

use md5::Digest;

use crate::json::json_parse;
use crate::json::json_view;
use crate::json::json_view_fields;
use crate::json::json_view_seq;
use crate::json::lemma_json_view_seq;
use crate::json::obj_get;
use crate::json::parse_json;
use crate::json::Json;
use crate::json::JsonV;
use crate::output::fresh_output;
use crate::output::Output;
use crate::output::OutputV;
use crate::output::TransError;
use crate::strutil::bytes_to_hex;
use crate::strutil::dec_str;
use crate::strutil::hex_of;
use crate::strutil::u64_to_dec;

verus! {

/// The machine-translation backend: a JSON service that wants each request
/// signed with an application id and a shared secret.
#[derive(Debug)]
pub struct Baidu {
    pub word: String,
    pub appid: String,
    pub key: String,
}

/// The MD5 digest of the UTF-8 bytes of a text. The digest depends on the
/// text alone.
pub uninterp spec fn md5_of(s: Seq<char>) -> Seq<u8>;

/// Relies on md5::Md5::digest: a 16-byte digest of the input bytes.
#[verifier::external_body]
fn md5_digest(s: &str) -> (r: Vec<u8>)
    ensures
        r@ == md5_of(s@),
        r@.len() == 16,
{
    md5::Md5::digest(s.as_bytes()).to_vec()
}

/// A 32-bit salt for request signing. Relies on rand::random; nothing is
/// promised of the value.
#[verifier::external_body]
fn random_u32() -> u32 {
    rand::random()
}

/// The string value of the field named `k`, if the object has one and it is a
/// string.
pub open spec fn str_field(o: Seq<(Seq<char>, JsonV)>, k: Seq<char>) -> Option<Seq<char>> {
    match obj_get(o, k) {
        Some(JsonV::Str(s)) => Some(s),
        _ => None,
    }
}

/// Looks a string field up in the field list of a JSON object.
pub(crate) fn get_str_field<'a>(fields: &'a Vec<(String, Json)>, k: &str) -> (r: Option<
    &'a String,
>)
    ensures
        match r {
            Some(s) => str_field(json_view_fields(fields@), k@) == Some(s@),
            None => str_field(json_view_fields(fields@), k@) is None,
        },
{
    match crate::json::json_obj_get(fields, k) {
        Some(j) => match j {
            Json::Str(s) => Some(s),
            _ => None,
        },
        None => None,
    }
}

/// The `(src, dst)` pair of one translation unit, if it is an object with
/// string `src` and `dst` fields.
pub open spec fn trans_pair(j: JsonV) -> Option<(Seq<char>, Seq<char>)> {
    match j {
        JsonV::Obj(o) => match (str_field(o, "src"@), str_field(o, "dst"@)) {
            (Some(s), Some(d)) => Some((s, d)),
            _ => None,
        },
        _ => None,
    }
}

/// The `(src, dst)` pairs of a translation-unit list, if every unit matches.
pub open spec fn trans_pairs(items: Seq<JsonV>) -> Option<Seq<(Seq<char>, Seq<char>)>>
    decreases items.len(),
{
    if items.len() == 0 {
        Some(Seq::empty())
    } else {
        match trans_pair(items.first()) {
            Some(p) => match trans_pairs(items.drop_first()) {
                Some(rest) => Some(seq![p] + rest),
                None => None,
            },
            None => None,
        }
    }
}

/// The ordered `(src, dst)` pairs of a success payload: an object with string
/// `from` and `to` fields and a `trans_result` list of translation units.
pub open spec fn baidu_success(j: JsonV) -> Option<Seq<(Seq<char>, Seq<char>)>> {
    match j {
        JsonV::Obj(o) => if str_field(o, "from"@) is Some && str_field(o, "to"@) is Some {
            match obj_get(o, "trans_result"@) {
                Some(JsonV::Arr(items)) => trans_pairs(items),
                _ => None,
            }
        } else {
            None
        },
        _ => None,
    }
}

/// The provider's own error record, if the payload is an object with string
/// `error_code` and `error_msg` fields.
pub open spec fn baidu_error(j: JsonV) -> Option<(Seq<char>, Seq<char>)> {
    match j {
        JsonV::Obj(o) => match (str_field(o, "error_code"@), str_field(o, "error_msg"@)) {
            (Some(c), Some(m)) => Some((c, m)),
            _ => None,
        },
        _ => None,
    }
}

/// The translated texts of a pair list, source texts discarded.
pub open spec fn dsts_of(pairs: Seq<(Seq<char>, Seq<char>)>) -> Seq<Seq<char>> {
    pairs.map_values(|p: (Seq<char>, Seq<char>)| p.1)
}

proof fn lemma_trans_pairs_push(items: Seq<JsonV>, x: JsonV)
    ensures
        trans_pairs(items.push(x)) == (match (trans_pairs(items), trans_pair(x)) {
            (Some(ps), Some(p)) => Some(ps.push(p)),
            _ => None::<Seq<(Seq<char>, Seq<char>)>>,
        }),
    decreases items.len(),
{
    if items.len() == 0 {
        assert(items.push(x).drop_first() =~= Seq::<JsonV>::empty());
        assert(items.push(x).first() == x);
        if trans_pair(x) is Some {
            assert(seq![trans_pair(x)->0] + Seq::<(Seq<char>, Seq<char>)>::empty() =~= Seq::<(
                Seq<char>,
                Seq<char>,
            )>::empty().push(trans_pair(x)->0));
        }
    } else {
        assert(items.push(x).drop_first() =~= items.drop_first().push(x));
        assert(items.push(x).first() == items.first());
        lemma_trans_pairs_push(items.drop_first(), x);
        if trans_pair(items.first()) is Some && trans_pairs(items.drop_first()) is Some
            && trans_pair(x) is Some {
            let p0 = trans_pair(items.first())->0;
            let rest = trans_pairs(items.drop_first())->0;
            let p = trans_pair(x)->0;
            assert(seq![p0] + rest.push(p) =~= (seq![p0] + rest).push(p));
        }
    }
}

proof fn lemma_trans_pairs_prefix_none(items: Seq<JsonV>, i: int)
    requires
        0 <= i <= items.len(),
        trans_pairs(items.take(i)) is None,
    ensures
        trans_pairs(items) is None,
    decreases items.len() - i,
{
    if i < items.len() {
        lemma_trans_pairs_push(items.take(i), items[i]);
        assert(items.take(i + 1) =~= items.take(i).push(items[i]));
        lemma_trans_pairs_prefix_none(items, i + 1);
    } else {
        assert(items.take(i) =~= items);
    }
}

/// Walks a translation-unit list, keeping each unit's translated text.
fn collect_dsts(items: &Vec<Json>) -> (r: Option<Vec<String>>)
    ensures
        match r {
            Some(v) => trans_pairs(json_view_seq(items@)) matches Some(ps) && v.deep_view()
                == dsts_of(ps),
            None => trans_pairs(json_view_seq(items@)) is None,
        },
{
    let ghost itemsv = json_view_seq(items@);
    proof {
        lemma_json_view_seq(items@);
        assert(itemsv.take(0) =~= Seq::<JsonV>::empty());
        assert(dsts_of(Seq::empty()) =~= Seq::<Seq<char>>::empty());
    }
    let mut dsts: Vec<String> = Vec::new();
    let ghost mut pairs: Seq<(Seq<char>, Seq<char>)> = Seq::empty();
    let mut i: usize = 0;
    while i < items.len()
        invariant
            i <= items@.len(),
            itemsv == json_view_seq(items@),
            itemsv.len() == items@.len(),
            forall|n: int| 0 <= n < itemsv.len() ==> itemsv[n] == json_view(items@[n]),
            trans_pairs(itemsv.take(i as int)) == Some(pairs),
            dsts.deep_view() == dsts_of(pairs),
        decreases items@.len() - i,
    {
        proof {
            lemma_trans_pairs_push(itemsv.take(i as int), itemsv[i as int]);
            assert(itemsv.take(i + 1) =~= itemsv.take(i as int).push(itemsv[i as int]));
        }
        let bad: bool;
        match &items[i] {
            Json::Obj(f) => {
                let sf = get_str_field(f, "src");
                if sf.is_some() {
                    let df = get_str_field(f, "dst");
                    match df {
                        Some(d) => {
                            let ghost sv = str_field(json_view_fields(f@), "src"@)->0;
                            let ghost dv0 = dsts.deep_view();
                            dsts.push(d.clone());
                            proof {
                                pairs = pairs.push((sv, d@));
                                assert(dsts.deep_view() =~= dv0.push(d@));
                                assert(dsts_of(pairs) =~= dsts_of(pairs.drop_last()).push(d@));
                            }
                            bad = false;
                        },
                        None => {
                            bad = true;
                        },
                    }
                } else {
                    bad = true;
                }
            },
            _ => {
                bad = true;
            },
        }
        if bad {
            proof {
                lemma_trans_pairs_prefix_none(itemsv, i + 1);
            }
            return None;
        }
        i = i + 1;
    }
    proof {
        assert(itemsv.take(i as int) =~= itemsv);
    }
    Some(dsts)
}

/// Tries the success shape on the fields of a payload object.
fn try_success(fields: &Vec<(String, Json)>) -> (r: Option<Vec<String>>)
    ensures
        match r {
            Some(v) => baidu_success(JsonV::Obj(json_view_fields(fields@))) matches Some(ps)
                && v.deep_view() == dsts_of(ps),
            None => baidu_success(JsonV::Obj(json_view_fields(fields@))) is None,
        },
{
    if get_str_field(fields, "from").is_none() {
        return None;
    }
    if get_str_field(fields, "to").is_none() {
        return None;
    }
    match crate::json::json_obj_get(fields, "trans_result") {
        Some(j) => match j {
            Json::Arr(items) => collect_dsts(items),
            _ => None,
        },
        None => None,
    }
}

/// Decodes one translation payload: the success shape is tried first, then
/// the provider's error shape, and a payload matching neither fails as an
/// unrecognized shape.
pub fn baidu_output(word: &str, j: &Json) -> (r: Result<Output, TransError>)
    ensures
        baidu_success(j@) matches Some(ps) ==> r matches Ok(o) && o@ == (OutputV {
            meanings: Some(dsts_of(ps)),
            ..fresh_output(word@)
        }),
        baidu_success(j@) is None ==> (baidu_error(j@) matches Some(em) ==> r matches Err(e)
            && e is Provider && e->Provider_code@ == em.0 && e->Provider_msg@ == em.1),
        baidu_success(j@) is None && baidu_error(j@) is None ==> (r matches Err(e) && e is Shape),
{
    match j {
        Json::Obj(fields) => {
            match try_success(fields) {
                Some(ds) => {
                    let mut o = Output::new(word);
                    o.meanings = Some(ds);
                    proof {
                        assert(o@ =~= (OutputV {
                            meanings: Some(dsts_of(baidu_success(j@)->0)),
                            ..fresh_output(word@)
                        }));
                    }
                    Ok(o)
                },
                None => {
                    let code = get_str_field(fields, "error_code");
                    match code {
                        Some(c) => {
                            let c = c.clone();
                            match get_str_field(fields, "error_msg") {
                                Some(m) => Err(TransError::Provider { code: c, msg: m.clone() }),
                                None => Err(TransError::Shape),
                            }
                        },
                        None => Err(TransError::Shape),
                    }
                },
            }
        },
        _ => Err(TransError::Shape),
    }
}

impl Baidu {
    /// A translation adapter bound to one query word and one credential pair.
    pub fn new(word: &str, appid: &str, key: &str) -> (r: Baidu)
        ensures
            r.word@ == word@,
            r.appid@ == appid@,
            r.key@ == key@,
    {
        Baidu { word: word.to_owned(), appid: appid.to_owned(), key: key.to_owned() }
    }

    /// A fresh stringified 32-bit salt for one request.
    pub fn gen_salt() -> (r: String)
        ensures
            exists|n: u32| r@ == dec_str(n as nat),
    {
        let n = random_u32();
        let r = u64_to_dec(n as u64);
        proof {
            assert(r@ == dec_str(n as nat));
        }
        r
    }

    /// The request signature the protocol prescribes: the hexadecimal MD5
    /// digest of appid, word, salt and secret key, concatenated in that order
    /// with no separators.
    pub fn sign(&self, salt: &str) -> (r: String)
        ensures
            r@ == hex_of(md5_of(self.appid@ + self.word@ + salt@ + self.key@)),
    {
        let mut input = self.appid.clone();
        input.append(self.word.as_str());
        input.append(salt);
        input.append(self.key.as_str());
        proof {
            assert(input@ =~= self.appid@ + self.word@ + salt@ + self.key@);
        }
        let digest = md5_digest(input.as_str());
        bytes_to_hex(&digest)
    }

    /// The six form fields of a signed request: the word, automatic source
    /// language, Chinese target, the application id, the salt and the
    /// signature.
    pub fn form_params(&self, salt: &str, sign: &str) -> (r: Vec<(String, String)>)
        ensures
            r.deep_view() == seq![
                ("q"@, self.word@),
                ("from"@, "auto"@),
                ("to"@, "zh"@),
                ("appid"@, self.appid@),
                ("salt"@, salt@),
                ("sign"@, sign@),
            ],
    {
        let mut r: Vec<(String, String)> = Vec::new();
        r.push((String::from_str("q"), self.word.clone()));
        r.push((String::from_str("from"), String::from_str("auto")));
        r.push((String::from_str("to"), String::from_str("zh")));
        r.push((String::from_str("appid"), self.appid.clone()));
        r.push((String::from_str("salt"), String::from_str(salt)));
        r.push((String::from_str("sign"), String::from_str(sign)));
        proof {
            assert(r.deep_view() =~= seq![
                ("q"@, self.word@),
                ("from"@, "auto"@),
                ("to"@, "zh"@),
                ("appid"@, self.appid@),
                ("salt"@, salt@),
                ("sign"@, sign@),
            ]);
        }
        r
    }

    /// Turns the body of a translation response into the normalized record:
    /// a success payload yields the ordered translated texts as meanings, the
    /// provider's error payload fails with its own diagnostic, and any other
    /// body fails as malformed JSON or as an unrecognized shape.
    pub fn parse_response(&self, body: &str) -> (r: Result<Output, TransError>)
        ensures
            json_parse(body@) matches Some(jv) ==> {
                &&& baidu_success(jv) matches Some(ps) ==> r matches Ok(o) && o@ == (OutputV {
                    meanings: Some(dsts_of(ps)),
                    ..fresh_output(self.word@)
                })
                &&& baidu_success(jv) is None ==> (baidu_error(jv) matches Some(em) ==> r matches Err(
                    e,
                ) && e is Provider && e->Provider_code@ == em.0 && e->Provider_msg@ == em.1)
                &&& baidu_success(jv) is None && baidu_error(jv) is None ==> (r matches Err(e)
                    && e is Shape)
            },
            json_parse(body@) is None ==> (r matches Err(e) && e is Json),
    {
        match parse_json(body) {
            Some(j) => baidu_output(self.word.as_str(), &j),
            None => Err(TransError::Json),
        }
    }
}

} // verus!
