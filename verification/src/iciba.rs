use vstd::prelude::*;
use vstd::string::StringExecFns;

use crate::output::fresh_output;
use crate::output::Output;
use crate::output::OutputV;
use crate::output::TransError;
use crate::strutil::str_eq;
use crate::xml::events_view;
use crate::xml::xml_scan;
use crate::xml::xml_scan_events;
use crate::xml::XmlEvent;
use crate::xml::XmlEventV;

verus! {

/// The dictionary backend: an unauthenticated XML service. It needs no
/// user-supplied credential; the service key is fixed.
#[derive(Debug)]
pub struct Iciba {
    pub word: String,
}

/// The tag a text node is charged to, while the scan stands inside one of the
/// five recognized elements.
#[derive(Debug, Clone, Copy, PartialEq, Eq, Structural)]
pub enum OpenTag {
    NoTag,
    Key,
    Ps,
    Pron,
    Pos,
    Acceptation,
}

/// The scan's accumulated lists: the headword, and one ordered list for each
/// recognized repeating element.
#[verifier::ext_equal]
pub struct ScanState {
    pub tag: OpenTag,
    pub key: Seq<char>,
    pub pos: Seq<Seq<char>>,
    pub acceptation: Seq<Seq<char>>,
    pub ps: Seq<Seq<char>>,
    pub pron: Seq<Seq<char>>,
}

pub open spec fn init_scan() -> ScanState {
    ScanState {
        tag: OpenTag::NoTag,
        key: Seq::empty(),
        pos: Seq::empty(),
        acceptation: Seq::empty(),
        ps: Seq::empty(),
        pron: Seq::empty(),
    }
}

/// The tag an opening element name selects; names outside the five recognized
/// ones select none.
pub open spec fn tag_of(name: Seq<char>) -> OpenTag {
    if name == "key"@ {
        OpenTag::Key
    } else if name == "ps"@ {
        OpenTag::Ps
    } else if name == "pron"@ {
        OpenTag::Pron
    } else if name == "pos"@ {
        OpenTag::Pos
    } else if name == "acceptation"@ {
        OpenTag::Acceptation
    } else {
        OpenTag::NoTag
    }
}

/// One step of the tag-state scan: a recognized opening tag becomes the
/// current tag, any other opening tag changes nothing, a closing tag resets
/// the current tag, and a text node is appended to the list of the current
/// tag, the headword being last-write-wins.
pub open spec fn scan_step(st: ScanState, ev: XmlEventV) -> ScanState {
    match ev {
        XmlEventV::Open(name) => if tag_of(name) is NoTag {
            st
        } else {
            ScanState { tag: tag_of(name), ..st }
        },
        XmlEventV::Close => ScanState { tag: OpenTag::NoTag, ..st },
        XmlEventV::Text(t) => match st.tag {
            OpenTag::NoTag => st,
            OpenTag::Key => ScanState { key: t, ..st },
            OpenTag::Ps => ScanState { ps: st.ps.push(t), ..st },
            OpenTag::Pron => ScanState { pron: st.pron.push(t), ..st },
            OpenTag::Pos => ScanState { pos: st.pos.push(t), ..st },
            OpenTag::Acceptation => ScanState { acceptation: st.acceptation.push(t), ..st },
        },
    }
}

/// The state after scanning a whole event list.
pub open spec fn scan_events(evs: Seq<XmlEventV>) -> ScanState
    decreases evs.len(),
{
    if evs.len() == 0 {
        init_scan()
    } else {
        scan_step(scan_events(evs.drop_last()), evs.last())
    }
}

/// The record the dictionary backend builds from a finished scan: senses and
/// parts of speech always set, phonetics by the count of `ps` entries.
pub open spec fn iciba_outcome(word: Seq<char>, evs: Seq<XmlEventV>) -> OutputV {
    let st = scan_events(evs);
    OutputV {
        phonetic_us: if st.ps.len() == 1 {
            Some(st.ps[0])
        } else if st.ps.len() == 2 {
            Some(st.ps[1])
        } else {
            None
        },
        phonetic_uk: if st.ps.len() == 2 {
            Some(st.ps[0])
        } else {
            None
        },
        pos: Some(st.pos),
        meanings: Some(st.acceptation),
        ..fresh_output(word)
    }
}

/// Law: the phonetic assignment policy. Exactly one collected transcription
/// becomes the American one; exactly two are British then American, in that
/// order; any other count leaves both absent.
pub proof fn lemma_phonetic_policy(word: Seq<char>, evs: Seq<XmlEventV>)
    ensures
        ({
            let st = scan_events(evs);
            let o = iciba_outcome(word, evs);
            &&& (st.ps.len() == 1 ==> o.phonetic_us == Some(st.ps[0]) && o.phonetic_uk is None)
            &&& (st.ps.len() == 2 ==> o.phonetic_uk == Some(st.ps[0]) && o.phonetic_us == Some(
                st.ps[1],
            ))
            &&& (st.ps.len() == 0 || st.ps.len() >= 3 ==> o.phonetic_us is None
                && o.phonetic_uk is None)
        }),
{
}

fn tag_of_exec(name: &str) -> (t: OpenTag)
    ensures
        t == tag_of(name@),
{
    if str_eq(name, "key") {
        OpenTag::Key
    } else if str_eq(name, "ps") {
        OpenTag::Ps
    } else if str_eq(name, "pron") {
        OpenTag::Pron
    } else if str_eq(name, "pos") {
        OpenTag::Pos
    } else if str_eq(name, "acceptation") {
        OpenTag::Acceptation
    } else {
        OpenTag::NoTag
    }
}

/// Folds a scanned event list into the record the dictionary backend answers
/// with.
pub fn iciba_output(word: &str, events: &Vec<XmlEvent>) -> (o: Output)
    ensures
        o@ == iciba_outcome(word@, events_view(events@)),
{
    let ghost evs = events_view(events@);
    let mut tag = OpenTag::NoTag;
    let mut key = String::new();
    let mut pos_list: Vec<String> = Vec::new();
    let mut acceptation_list: Vec<String> = Vec::new();
    let mut ps_list: Vec<String> = Vec::new();
    let mut pron_list: Vec<String> = Vec::new();
    let mut i: usize = 0;
    proof {
        assert(evs.take(0) =~= Seq::<XmlEventV>::empty());
    }
    while i < events.len()
        invariant
            i <= events@.len(),
            evs == events_view(events@),
            evs.len() == events@.len(),
            ({
                let st = scan_events(evs.take(i as int));
                &&& tag == st.tag
                &&& key@ == st.key
                &&& pos_list.deep_view() == st.pos
                &&& acceptation_list.deep_view() == st.acceptation
                &&& ps_list.deep_view() == st.ps
                &&& pron_list.deep_view() == st.pron
            }),
        decreases events@.len() - i,
    {
        proof {
            assert(evs.take(i + 1).drop_last() =~= evs.take(i as int));
            assert(evs.take(i + 1).last() == evs[i as int]);
            assert(evs[i as int] == events@[i as int]@);
        }
        let ghost st0 = scan_events(evs.take(i as int));
        match &events[i] {
            XmlEvent::Open(name) => {
                let t = tag_of_exec(name.as_str());
                if !matches!(t, OpenTag::NoTag) {
                    tag = t;
                }
            },
            XmlEvent::Close => {
                tag = OpenTag::NoTag;
            },
            XmlEvent::Text(t) => {
                match tag {
                    OpenTag::NoTag => {},
                    OpenTag::Key => {
                        key = t.clone();
                    },
                    OpenTag::Ps => {
                        let ghost dv = ps_list.deep_view();
                        ps_list.push(t.clone());
                        proof {
                            assert(ps_list.deep_view() =~= dv.push(t@));
                        }
                    },
                    OpenTag::Pron => {
                        let ghost dv = pron_list.deep_view();
                        pron_list.push(t.clone());
                        proof {
                            assert(pron_list.deep_view() =~= dv.push(t@));
                        }
                    },
                    OpenTag::Pos => {
                        let ghost dv = pos_list.deep_view();
                        pos_list.push(t.clone());
                        proof {
                            assert(pos_list.deep_view() =~= dv.push(t@));
                        }
                    },
                    OpenTag::Acceptation => {
                        let ghost dv = acceptation_list.deep_view();
                        acceptation_list.push(t.clone());
                        proof {
                            assert(acceptation_list.deep_view() =~= dv.push(t@));
                        }
                    },
                }
            },
        }
        proof {
            assert(scan_events(evs.take(i + 1)) == scan_step(st0, evs[i as int]));
        }
        i = i + 1;
    }
    proof {
        assert(evs.take(i as int) =~= evs);
    }
    let mut o = Output::new(word);
    if ps_list.len() == 1 {
        o.phonetic_us = Some(ps_list[0].clone());
    } else if ps_list.len() == 2 {
        o.phonetic_uk = Some(ps_list[0].clone());
        o.phonetic_us = Some(ps_list[1].clone());
    }
    o.meanings = Some(acceptation_list);
    o.pos = Some(pos_list);
    proof {
        assert(o@ =~= iciba_outcome(word@, evs));
    }
    o
}

/// The fixed service key the dictionary endpoint is queried with.
pub const ICIBA_KEY: &'static str = "D191EBD014295E913574E1EAF8E06666";

impl Iciba {
    /// The two query parameters of a dictionary request: the fixed service
    /// key, and the word.
    pub fn query_params(&self) -> (r: Vec<(String, String)>)
        ensures
            r.deep_view() == seq![("key"@, ICIBA_KEY@), ("w"@, self.word@)],
    {
        let mut r: Vec<(String, String)> = Vec::new();
        r.push((String::from_str("key"), String::from_str(ICIBA_KEY)));
        r.push((String::from_str("w"), self.word.clone()));
        proof {
            assert(r.deep_view() =~= seq![("key"@, ICIBA_KEY@), ("w"@, self.word@)]);
        }
        r
    }

    /// A dictionary adapter bound to one query word.
    pub fn new(word: &str) -> (r: Iciba)
        ensures
            r.word@ == word@,
    {
        Iciba { word: word.to_owned() }
    }

    /// Turns the body of a dictionary response into the normalized record:
    /// well-formed XML yields the scanned record, ill-formed XML fails with
    /// the parser's byte offset.
    pub fn parse_response(&self, body: &str) -> (r: Result<Output, TransError>)
        ensures
            xml_scan(body@) matches Ok(evs) ==> r matches Ok(o) && o@ == iciba_outcome(
                self.word@,
                evs,
            ),
            xml_scan(body@) matches Err(p) ==> r matches Err(e) && e == TransError::Xml(p),
    {
        match xml_scan_events(body) {
            Ok(events) => Ok(iciba_output(self.word.as_str(), &events)),
            Err(p) => Err(TransError::Xml(p)),
        }
    }
}

} // verus!
