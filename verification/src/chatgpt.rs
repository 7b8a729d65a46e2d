use vstd::prelude::*;

use crate::json::json_obj_get;
use crate::json::json_parse;
use crate::json::json_view;
use crate::json::json_view_fields;
use crate::json::json_view_seq;
use crate::json::json_text;
use crate::json::json_to_string;
use crate::json::lemma_json_view_fields;
use crate::json::lemma_json_view_seq;
use crate::json::obj_get;
use crate::json::opt_str;
use crate::json::opt_str_field;
use crate::json::parse_json;
use crate::json::Json;
use crate::json::JsonV;
use crate::output::fresh_output;
use crate::output::Output;
use crate::output::OutputV;
use crate::output::TransError;
use crate::strutil::str_eq;
use vstd::string::StringExecFns;

verus! {

/// The conversational backend: a JSON service answering a free-form prompt
/// under a bearer token.
#[derive(Debug)]
pub struct Chatgpt {
    pub word: String,
    pub key: String,
}

/// One content fragment of a chat reply item.
#[derive(Debug)]
pub struct ChatContent {
    pub ctype: Option<String>,
    pub text: Option<String>,
}

/// The mathematical value of a `ChatContent`.
#[verifier::ext_equal]
pub struct ChatContentV {
    pub ctype: Option<Seq<char>>,
    pub text: Option<Seq<char>>,
}

impl View for ChatContent {
    type V = ChatContentV;

    open spec fn view(&self) -> ChatContentV {
        ChatContentV { ctype: self.ctype.deep_view(), text: self.text.deep_view() }
    }
}

impl DeepView for ChatContent {
    type V = ChatContentV;

    open spec fn deep_view(&self) -> ChatContentV {
        self.view()
    }
}

/// One output item of a chat reply.
#[derive(Debug)]
pub struct ChatItem {
    pub role: Option<String>,
    pub content: Option<Vec<ChatContent>>,
}

/// The mathematical value of a `ChatItem`.
#[verifier::ext_equal]
pub struct ChatItemV {
    pub role: Option<Seq<char>>,
    pub content: Option<Seq<ChatContentV>>,
}

impl View for ChatItem {
    type V = ChatItemV;

    open spec fn view(&self) -> ChatItemV {
        ChatItemV { role: self.role.deep_view(), content: self.content.deep_view() }
    }
}

impl DeepView for ChatItem {
    type V = ChatItemV;

    open spec fn deep_view(&self) -> ChatItemV {
        self.view()
    }
}

/// A decoded chat reply: its status and its output items, either possibly
/// absent.
#[derive(Debug)]
pub struct ChatResp {
    pub status: Option<String>,
    pub output: Option<Vec<ChatItem>>,
}

/// The mathematical value of a `ChatResp`.
#[verifier::ext_equal]
pub struct ChatRespV {
    pub status: Option<Seq<char>>,
    pub output: Option<Seq<ChatItemV>>,
}

impl View for ChatResp {
    type V = ChatRespV;

    open spec fn view(&self) -> ChatRespV {
        ChatRespV { status: self.status.deep_view(), output: self.output.deep_view() }
    }
}

/// One content fragment, if it is an object whose `type` and `text` fields
/// are absent, null or strings.
pub open spec fn chat_content(j: JsonV) -> Option<ChatContentV> {
    match j {
        JsonV::Obj(o) => match (opt_str_field(o, "type"@), opt_str_field(o, "text"@)) {
            (Some(t), Some(x)) => Some(ChatContentV { ctype: t, text: x }),
            _ => None,
        },
        _ => None,
    }
}

/// A content list, if every fragment matches.
pub open spec fn chat_contents(items: Seq<JsonV>) -> Option<Seq<ChatContentV>>
    decreases items.len(),
{
    if items.len() == 0 {
        Some(Seq::empty())
    } else {
        match chat_content(items.first()) {
            Some(c) => match chat_contents(items.drop_first()) {
                Some(rest) => Some(seq![c] + rest),
                None => None,
            },
            None => None,
        }
    }
}

/// One output item, if it is an object whose `id`, `type` and `role` fields
/// are absent, null or strings, and whose `content` is absent, null or a
/// well-formed content list.
pub open spec fn chat_item(j: JsonV) -> Option<ChatItemV> {
    match j {
        JsonV::Obj(o) => if opt_str_field(o, "id"@) is None || opt_str_field(o, "type"@) is None
            || opt_str_field(o, "role"@) is None {
            None
        } else {
            let role = opt_str_field(o, "role"@)->0;
            match obj_get(o, "content"@) {
                None => Some(ChatItemV { role, content: None }),
                Some(JsonV::Null) => Some(ChatItemV { role, content: None }),
                Some(JsonV::Arr(cs)) => match chat_contents(cs) {
                    Some(cv) => Some(ChatItemV { role, content: Some(cv) }),
                    None => None,
                },
                Some(_) => None,
            }
        },
        _ => None,
    }
}

/// An output list, if every item matches.
pub open spec fn chat_items(items: Seq<JsonV>) -> Option<Seq<ChatItemV>>
    decreases items.len(),
{
    if items.len() == 0 {
        Some(Seq::empty())
    } else {
        match chat_item(items.first()) {
            Some(c) => match chat_items(items.drop_first()) {
                Some(rest) => Some(seq![c] + rest),
                None => None,
            },
            None => None,
        }
    }
}

/// A whole chat reply, if it is an object whose `status` is absent, null or a
/// string and whose `output` is absent, null or a well-formed output list.
pub open spec fn chat_resp(j: JsonV) -> Option<ChatRespV> {
    match j {
        JsonV::Obj(o) => match opt_str_field(o, "status"@) {
            None => None,
            Some(status) => match obj_get(o, "output"@) {
                None => Some(ChatRespV { status, output: None }),
                Some(JsonV::Null) => Some(ChatRespV { status, output: None }),
                Some(JsonV::Arr(items)) => match chat_items(items) {
                    Some(iv) => Some(ChatRespV { status, output: Some(iv) }),
                    None => None,
                },
                Some(_) => None,
            },
        },
        _ => None,
    }
}

proof fn lemma_chat_contents_push(items: Seq<JsonV>, x: JsonV)
    ensures
        chat_contents(items.push(x)) == (match (chat_contents(items), chat_content(x)) {
            (Some(cs), Some(c)) => Some(cs.push(c)),
            _ => None::<Seq<ChatContentV>>,
        }),
    decreases items.len(),
{
    if items.len() == 0 {
        assert(items.push(x).drop_first() =~= Seq::<JsonV>::empty());
        assert(items.push(x).first() == x);
        assert(chat_contents(items.push(x).drop_first()) == Some(Seq::<ChatContentV>::empty()));
        if chat_content(x) is Some {
            assert(seq![chat_content(x)->0] + Seq::<ChatContentV>::empty() =~= Seq::<
                ChatContentV,
            >::empty().push(chat_content(x)->0));
        }
    } else {
        assert(items.push(x).drop_first() =~= items.drop_first().push(x));
        assert(items.push(x).first() == items.first());
        lemma_chat_contents_push(items.drop_first(), x);
        if chat_content(items.first()) is Some && chat_contents(items.drop_first()) is Some
            && chat_content(x) is Some {
            let c0 = chat_content(items.first())->0;
            let rest = chat_contents(items.drop_first())->0;
            let c = chat_content(x)->0;
            assert(seq![c0] + rest.push(c) =~= (seq![c0] + rest).push(c));
        }
    }
}

proof fn lemma_chat_contents_prefix_none(items: Seq<JsonV>, i: int)
    requires
        0 <= i <= items.len(),
        chat_contents(items.take(i)) is None,
    ensures
        chat_contents(items) is None,
    decreases items.len() - i,
{
    if i < items.len() {
        lemma_chat_contents_push(items.take(i), items[i]);
        assert(items.take(i + 1) =~= items.take(i).push(items[i]));
        lemma_chat_contents_prefix_none(items, i + 1);
    } else {
        assert(items.take(i) =~= items);
    }
}

proof fn lemma_chat_items_push(items: Seq<JsonV>, x: JsonV)
    ensures
        chat_items(items.push(x)) == (match (chat_items(items), chat_item(x)) {
            (Some(cs), Some(c)) => Some(cs.push(c)),
            _ => None::<Seq<ChatItemV>>,
        }),
    decreases items.len(),
{
    if items.len() == 0 {
        assert(items.push(x).drop_first() =~= Seq::<JsonV>::empty());
        assert(items.push(x).first() == x);
        assert(chat_items(items.push(x).drop_first()) == Some(Seq::<ChatItemV>::empty()));
        if chat_item(x) is Some {
            assert(seq![chat_item(x)->0] + Seq::<ChatItemV>::empty() =~= Seq::<
                ChatItemV,
            >::empty().push(chat_item(x)->0));
        }
    } else {
        assert(items.push(x).drop_first() =~= items.drop_first().push(x));
        assert(items.push(x).first() == items.first());
        lemma_chat_items_push(items.drop_first(), x);
        if chat_item(items.first()) is Some && chat_items(items.drop_first()) is Some
            && chat_item(x) is Some {
            let c0 = chat_item(items.first())->0;
            let rest = chat_items(items.drop_first())->0;
            let c = chat_item(x)->0;
            assert(seq![c0] + rest.push(c) =~= (seq![c0] + rest).push(c));
        }
    }
}

proof fn lemma_chat_items_prefix_none(items: Seq<JsonV>, i: int)
    requires
        0 <= i <= items.len(),
        chat_items(items.take(i)) is None,
    ensures
        chat_items(items) is None,
    decreases items.len() - i,
{
    if i < items.len() {
        lemma_chat_items_push(items.take(i), items[i]);
        assert(items.take(i + 1) =~= items.take(i).push(items[i]));
        lemma_chat_items_prefix_none(items, i + 1);
    } else {
        assert(items.take(i) =~= items);
    }
}

/// Decodes one content fragment.
fn decode_content(j: &Json) -> (r: Option<ChatContent>)
    ensures
        match r {
            Some(c) => chat_content(j@) == Some(c@),
            None => chat_content(j@) is None,
        },
{
    match j {
        Json::Obj(f) => match opt_str(f, "type") {
            Some(t) => match opt_str(f, "text") {
                Some(x) => Some(ChatContent { ctype: t, text: x }),
                None => None,
            },
            None => None,
        },
        _ => None,
    }
}

/// Decodes a content list.
fn decode_contents(items: &Vec<Json>) -> (r: Option<Vec<ChatContent>>)
    ensures
        match r {
            Some(v) => chat_contents(json_view_seq(items@)) == Some(v.deep_view()),
            None => chat_contents(json_view_seq(items@)) is None,
        },
{
    let ghost itemsv = json_view_seq(items@);
    proof {
        lemma_json_view_seq(items@);
        assert(itemsv.take(0) =~= Seq::<JsonV>::empty());
    }
    let mut out: Vec<ChatContent> = Vec::new();
    let mut i: usize = 0;
    while i < items.len()
        invariant
            i <= items@.len(),
            itemsv == json_view_seq(items@),
            itemsv.len() == items@.len(),
            forall|n: int| 0 <= n < itemsv.len() ==> itemsv[n] == json_view(items@[n]),
            chat_contents(itemsv.take(i as int)) == Some(out.deep_view()),
        decreases items@.len() - i,
    {
        proof {
            lemma_chat_contents_push(itemsv.take(i as int), itemsv[i as int]);
            assert(itemsv.take(i + 1) =~= itemsv.take(i as int).push(itemsv[i as int]));
        }
        match decode_content(&items[i]) {
            Some(c) => {
                let ghost dv = out.deep_view();
                let ghost cv = c@;
                out.push(c);
                proof {
                    assert(out.deep_view() =~= dv.push(cv));
                }
            },
            None => {
                proof {
                    lemma_chat_contents_prefix_none(itemsv, i + 1);
                }
                return None;
            },
        }
        i = i + 1;
    }
    proof {
        assert(itemsv.take(i as int) =~= itemsv);
    }
    Some(out)
}

/// Decodes one output item.
fn decode_item(j: &Json) -> (r: Option<ChatItem>)
    ensures
        match r {
            Some(c) => chat_item(j@) == Some(c@),
            None => chat_item(j@) is None,
        },
{
    match j {
        Json::Obj(f) => {
            if opt_str(f, "id").is_none() {
                return None;
            }
            if opt_str(f, "type").is_none() {
                return None;
            }
            let role = match opt_str(f, "role") {
                Some(role) => role,
                None => {
                    return None;
                },
            };
            match json_obj_get(f, "content") {
                None => Some(ChatItem { role, content: None }),
                Some(c) => match c {
                    Json::Null => Some(ChatItem { role, content: None }),
                    Json::Arr(cs) => match decode_contents(cs) {
                        Some(cv) => Some(ChatItem { role, content: Some(cv) }),
                        None => None,
                    },
                    _ => None,
                },
            }
        },
        _ => None,
    }
}

/// Decodes an output list.
fn decode_items(items: &Vec<Json>) -> (r: Option<Vec<ChatItem>>)
    ensures
        match r {
            Some(v) => chat_items(json_view_seq(items@)) == Some(v.deep_view()),
            None => chat_items(json_view_seq(items@)) is None,
        },
{
    let ghost itemsv = json_view_seq(items@);
    proof {
        lemma_json_view_seq(items@);
        assert(itemsv.take(0) =~= Seq::<JsonV>::empty());
    }
    let mut out: Vec<ChatItem> = Vec::new();
    let mut i: usize = 0;
    while i < items.len()
        invariant
            i <= items@.len(),
            itemsv == json_view_seq(items@),
            itemsv.len() == items@.len(),
            forall|n: int| 0 <= n < itemsv.len() ==> itemsv[n] == json_view(items@[n]),
            chat_items(itemsv.take(i as int)) == Some(out.deep_view()),
        decreases items@.len() - i,
    {
        proof {
            lemma_chat_items_push(itemsv.take(i as int), itemsv[i as int]);
            assert(itemsv.take(i + 1) =~= itemsv.take(i as int).push(itemsv[i as int]));
        }
        match decode_item(&items[i]) {
            Some(c) => {
                let ghost dv = out.deep_view();
                let ghost cv = c@;
                out.push(c);
                proof {
                    assert(out.deep_view() =~= dv.push(cv));
                }
            },
            None => {
                proof {
                    lemma_chat_items_prefix_none(itemsv, i + 1);
                }
                return None;
            },
        }
        i = i + 1;
    }
    proof {
        assert(itemsv.take(i as int) =~= itemsv);
    }
    Some(out)
}

/// Decodes a whole chat reply.
fn decode_resp(j: &Json) -> (r: Option<ChatResp>)
    ensures
        match r {
            Some(c) => chat_resp(j@) == Some(c@),
            None => chat_resp(j@) is None,
        },
{
    match j {
        Json::Obj(f) => {
            let status = match opt_str(f, "status") {
                Some(s) => s,
                None => {
                    return None;
                },
            };
            match json_obj_get(f, "output") {
                None => Some(ChatResp { status, output: None }),
                Some(o) => match o {
                    Json::Null => Some(ChatResp { status, output: None }),
                    Json::Arr(items) => match decode_items(items) {
                        Some(iv) => Some(ChatResp { status, output: Some(iv) }),
                        None => None,
                    },
                    _ => None,
                },
            }
        },
        _ => None,
    }
}

/// Whether an output item is an assistant's and carries a content list; only
/// such an item makes the meanings exist at all.
pub open spec fn is_assistant_with_content(it: ChatItemV) -> bool {
    it.role == Some("assistant"@) && it.content is Some
}

/// The qualifying texts of a content list: the text of each fragment typed
/// "output_text" that carries one, in order.
pub open spec fn qualifying_texts(cs: Seq<ChatContentV>) -> Seq<Seq<char>>
    decreases cs.len(),
{
    if cs.len() == 0 {
        Seq::empty()
    } else {
        (if cs.first().ctype == Some("output_text"@) && cs.first().text is Some {
            seq![cs.first().text->0]
        } else {
            Seq::empty()
        }) + qualifying_texts(cs.drop_first())
    }
}

/// The texts one output item contributes: its qualifying texts if it is an
/// assistant item with a content list, nothing otherwise.
pub open spec fn item_texts(it: ChatItemV) -> Seq<Seq<char>> {
    if it.role == Some("assistant"@) {
        match it.content {
            Some(cs) => qualifying_texts(cs),
            None => Seq::empty(),
        }
    } else {
        Seq::empty()
    }
}

/// Every item's texts, in encounter order.
pub open spec fn texts_of_items(items: Seq<ChatItemV>) -> Seq<Seq<char>>
    decreases items.len(),
{
    if items.len() == 0 {
        Seq::empty()
    } else {
        item_texts(items.first()) + texts_of_items(items.drop_first())
    }
}

/// The meanings a reply's output items yield: absent when no assistant item
/// carries a content list at all, and otherwise the qualifying texts in
/// encounter order, possibly none.
pub open spec fn chat_meanings(items: Seq<ChatItemV>) -> Option<Seq<Seq<char>>> {
    if exists|i: int| 0 <= i < items.len() && is_assistant_with_content(items[i]) {
        Some(texts_of_items(items))
    } else {
        None
    }
}

/// Law: a reply with at least one assistant content list yields a meanings
/// list holding exactly the qualifying texts in encounter order; a reply with
/// none leaves the meanings absent, even when non-assistant items carry text.
pub proof fn lemma_chat_meanings(items: Seq<ChatItemV>)
    ensures
        (exists|i: int| 0 <= i < items.len() && is_assistant_with_content(items[i]))
            ==> chat_meanings(items) == Some(texts_of_items(items)),
        !(exists|i: int| 0 <= i < items.len() && is_assistant_with_content(items[i]))
            ==> chat_meanings(items) is None,
{
}

/// The record a completed reply yields.
pub open spec fn chat_outcome(word: Seq<char>, resp: ChatRespV) -> OutputV {
    OutputV {
        meanings: match resp.output {
            Some(items) => chat_meanings(items),
            None => None,
        },
        ..fresh_output(word)
    }
}

proof fn lemma_texts_of_items_push(items: Seq<ChatItemV>, x: ChatItemV)
    ensures
        texts_of_items(items.push(x)) == texts_of_items(items) + item_texts(x),
    decreases items.len(),
{
    if items.len() == 0 {
        assert(items.push(x).drop_first() =~= Seq::<ChatItemV>::empty());
        assert(items.push(x).first() == x);
        assert(texts_of_items(items.push(x).drop_first()) == Seq::<Seq<char>>::empty());
        assert(texts_of_items(items.push(x)) =~= texts_of_items(items) + item_texts(x));
    } else {
        assert(items.push(x).drop_first() =~= items.drop_first().push(x));
        assert(items.push(x).first() == items.first());
        lemma_texts_of_items_push(items.drop_first(), x);
        assert(texts_of_items(items.push(x)) =~= texts_of_items(items) + item_texts(x));
    }
}

proof fn lemma_qualifying_texts_push(cs: Seq<ChatContentV>, x: ChatContentV)
    ensures
        qualifying_texts(cs.push(x)) == qualifying_texts(cs) + (if x.ctype == Some("output_text"@)
            && x.text is Some {
            seq![x.text->0]
        } else {
            Seq::<Seq<char>>::empty()
        }),
    decreases cs.len(),
{
    if cs.len() == 0 {
        assert(cs.push(x).drop_first() =~= Seq::<ChatContentV>::empty());
        assert(cs.push(x).first() == x);
        assert(qualifying_texts(cs.push(x).drop_first()) == Seq::<Seq<char>>::empty());
        assert(qualifying_texts(cs.push(x)) =~= qualifying_texts(cs) + (if x.ctype == Some(
            "output_text"@,
        ) && x.text is Some {
            seq![x.text->0]
        } else {
            Seq::<Seq<char>>::empty()
        }));
    } else {
        assert(cs.push(x).drop_first() =~= cs.drop_first().push(x));
        assert(cs.push(x).first() == cs.first());
        lemma_qualifying_texts_push(cs.drop_first(), x);
        assert(qualifying_texts(cs.push(x)) =~= qualifying_texts(cs) + (if x.ctype == Some(
            "output_text"@,
        ) && x.text is Some {
            seq![x.text->0]
        } else {
            Seq::<Seq<char>>::empty()
        }));
    }
}

/// The texts one decoded item contributes.
fn item_texts_exec(it: &ChatItem) -> (r: Vec<String>)
    ensures
        r.deep_view() == item_texts(it.deep_view()),
{
    let mut r: Vec<String> = Vec::new();
    let is_assistant = match &it.role {
        Some(role) => str_eq(role.as_str(), "assistant"),
        None => false,
    };
    if !is_assistant {
        proof {
            assert(r.deep_view() =~= item_texts(it.deep_view()));
        }
        return r;
    }
    match &it.content {
        Some(cs) => {
            let ghost csv = it.deep_view().content->0;
            proof {
                assert(csv.take(0) =~= Seq::<ChatContentV>::empty());
            }
            let mut i: usize = 0;
            while i < cs.len()
                invariant
                    i <= cs@.len(),
                    csv == cs.deep_view(),
                    csv.len() == cs@.len(),
                    forall|n: int| 0 <= n < csv.len() ==> csv[n] == cs@[n].deep_view(),
                    r.deep_view() == qualifying_texts(csv.take(i as int)),
                decreases cs@.len() - i,
            {
                proof {
                    lemma_qualifying_texts_push(csv.take(i as int), csv[i as int]);
                    assert(csv.take(i + 1) =~= csv.take(i as int).push(csv[i as int]));
                }
                let c = &cs[i];
                let qualifies = match &c.ctype {
                    Some(t) => str_eq(t.as_str(), "output_text"),
                    None => false,
                };
                if qualifies {
                    match &c.text {
                        Some(t) => {
                            let ghost dv = r.deep_view();
                            r.push(t.clone());
                            proof {
                                assert(r.deep_view() =~= dv.push(t@));
                            }
                        },
                        None => {},
                    }
                }
                i = i + 1;
            }
            proof {
                assert(csv.take(i as int) =~= csv);
            }
            r
        },
        None => {
            proof {
                assert(r.deep_view() =~= item_texts(it.deep_view()));
            }
            r
        },
    }
}

/// Walks the output items, collecting every qualifying text in encounter
/// order; the list exists only if some assistant item carried a content list.
fn extract_meanings(items: &Vec<ChatItem>) -> (r: Option<Vec<String>>)
    ensures
        r.deep_view() == chat_meanings(items.deep_view()),
{
    let ghost itemsv = items.deep_view();
    proof {
        assert(itemsv.take(0) =~= Seq::<ChatItemV>::empty());
    }
    let mut found = false;
    let mut texts: Vec<String> = Vec::new();
    let mut i: usize = 0;
    while i < items.len()
        invariant
            i <= items@.len(),
            itemsv == items.deep_view(),
            itemsv.len() == items@.len(),
            forall|n: int| 0 <= n < itemsv.len() ==> itemsv[n] == items@[n].deep_view(),
            found <==> exists|n: int|
                0 <= n < i && is_assistant_with_content(itemsv[n]),
            texts.deep_view() == texts_of_items(itemsv.take(i as int)),
        decreases items@.len() - i,
    {
        proof {
            lemma_texts_of_items_push(itemsv.take(i as int), itemsv[i as int]);
            assert(itemsv.take(i + 1) =~= itemsv.take(i as int).push(itemsv[i as int]));
        }
        let it = &items[i];
        let is_assistant = match &it.role {
            Some(role) => str_eq(role.as_str(), "assistant"),
            None => false,
        };
        if is_assistant && it.content.is_some() {
            found = true;
            proof {
                assert(is_assistant_with_content(itemsv[i as int]));
            }
        }
        let mut ts = item_texts_exec(it);
        let ghost tsv = ts.deep_view();
        let ghost dv = texts.deep_view();
        texts.append(&mut ts);
        proof {
            assert(texts.deep_view() =~= dv + tsv);
        }
        i = i + 1;
    }
    proof {
        assert(itemsv.take(i as int) =~= itemsv);
    }
    if found {
        Some(texts)
    } else {
        None
    }
}

/// Decodes one chat payload: a reply whose status is not exactly "completed"
/// fails whatever its output holds; a completed reply yields the collected
/// texts as meanings.
pub fn chatgpt_output(word: &str, j: &Json) -> (r: Result<Output, TransError>)
    ensures
        chat_resp(j@) matches Some(resp) ==> {
            &&& resp.status != Some("completed"@) ==> (r matches Err(e) && e is Status)
            &&& resp.status == Some("completed"@) ==> (r matches Ok(o) && o@ == chat_outcome(
                word@,
                resp,
            ))
        },
        chat_resp(j@) is None ==> (r matches Err(e) && e is Json),
{
    match decode_resp(j) {
        Some(resp) => {
            let completed = match &resp.status {
                Some(s) => str_eq(s.as_str(), "completed"),
                None => false,
            };
            if !completed {
                return Err(TransError::Status);
            }
            let mut o = Output::new(word);
            match &resp.output {
                Some(items) => {
                    o.meanings = extract_meanings(items);
                },
                None => {},
            }
            proof {
                assert(o@ =~= chat_outcome(word@, chat_resp(j@)->0));
            }
            Ok(o)
        },
        None => Err(TransError::Json),
    }
}

/// The fixed model identifier every chat request names.
pub const CHAT_MODEL: &'static str = "gpt-4o-mini";

pub open spec fn chat_model() -> Seq<char> {
    CHAT_MODEL@
}

/// The instruction prompt sent before the word: a bilingual-dictionary
/// persona with explicit formatting rules.
pub const CHAT_PROMPT: &'static str = "你是一本专业的中英文双语词典。请按照以下要求提供翻译和解释：

1. 格式要求：
   [原词] [音标] ~ [翻译] [拼音]

   - [词性] [释义1]
   - [词性] [释义2]
   ...

   例句：
   1. [原文例句]
      [翻译]
   2. [原文例句]
      [翻译]
   ...

   -----
2. 翻译规则：
   - 英文输入翻译为中文，中文输入翻译为英文
   - 提供准确的音标（英文）或拼音（中文）
   - 列出所有常见词性及其对应的释义
   - 释义应简洁明了，涵盖词语的主要含义，使用中文
   - 提供2-3个地道的例句，体现词语的不同用法和语境
3. 内容质量：
   - 确保翻译和释义的准确性和权威性
   - 例句应当实用、常见，并能体现词语的典型用法
   - 注意词语的语体色彩，如正式、口语、书面语等
   - 对于多义词，按照使用频率由高到低排列释义
4. 特殊情况：
   - 对于习语、谚语或特殊表达，提供对应的解释和等效表达
   - 注明词语的使用范围，如地域、行业特定用语等
   - 对于缩写词，提供完整形式和解释
请基于以上要求，为用户提供简洁、专业、全面且易于理解的词语翻译和解释。

要翻译的单词是: ";

pub open spec fn chat_prompt() -> Seq<char> {
    CHAT_PROMPT@
}

/// The `input` text of a chat request: the prompt, a space, and the word.
pub open spec fn chat_input(word: Seq<char>) -> Seq<char> {
    chat_prompt() + " "@ + word
}

/// The request payload: an object naming the model and carrying the input.
pub open spec fn chat_request(word: Seq<char>) -> JsonV {
    JsonV::Obj(
        seq![("model"@, JsonV::Str(chat_model())), ("input"@, JsonV::Str(chat_input(word)))],
    )
}

impl Chatgpt {
    /// A chat adapter bound to one query word and one bearer token.
    pub fn new(word: &str, key: &str) -> (r: Chatgpt)
        ensures
            r.word@ == word@,
            r.key@ == key@,
    {
        Chatgpt { word: word.to_owned(), key: key.to_owned() }
    }

    /// The serialized JSON body of a chat request: the fixed model, and the
    /// instruction prompt followed by this adapter's word.
    pub fn request_body(&self) -> (r: String)
        ensures
            r@ == json_text(chat_request(self.word@)),
    {
        let mut input = String::from_str(CHAT_PROMPT);
        input.append(" ");
        input.append(self.word.as_str());
        let mut fields: Vec<(String, Json)> = Vec::new();
        fields.push((String::from_str("model"), Json::Str(String::from_str(CHAT_MODEL))));
        fields.push((String::from_str("input"), Json::Str(input)));
        let ghost fv = fields@;
        let j = Json::Obj(fields);
        proof {
            lemma_json_view_fields(fv);
            assert(json_view_fields(fv) =~= chat_request(self.word@)->Obj_0);
            assert(j@ =~= chat_request(self.word@));
        }
        json_to_string(&j)
    }

    /// Turns the body of a chat response into the normalized record: a
    /// completed reply yields the assistant's texts as meanings, any other
    /// status fails, and a body that does not decode fails as malformed.
    pub fn parse_response(&self, body: &str) -> (r: Result<Output, TransError>)
        ensures
            json_parse(body@) matches Some(jv) ==> {
                &&& chat_resp(jv) matches Some(resp) ==> {
                    &&& resp.status != Some("completed"@) ==> (r matches Err(e) && e is Status)
                    &&& resp.status == Some("completed"@) ==> (r matches Ok(o) && o@
                        == chat_outcome(self.word@, resp))
                }
                &&& chat_resp(jv) is None ==> (r matches Err(e) && e is Json)
            },
            json_parse(body@) is None ==> (r matches Err(e) && e is Json),
    {
        match parse_json(body) {
            Some(j) => chatgpt_output(self.word.as_str(), &j),
            None => Err(TransError::Json),
        }
    }
}

} // verus!
