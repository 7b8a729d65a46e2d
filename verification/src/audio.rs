use vstd::prelude::*;
use vstd::string::StringExecFns;

verus! {

/// The two accent variants the pronunciation endpoint offers.
#[derive(Debug, Clone, Copy, PartialEq, Eq, Structural)]
pub enum Accent {
    Us,
    Uk,
}

/// The accent code the endpoint expects: 2 for the American voice, 1 for the
/// British one.
pub open spec fn accent_code(a: Accent) -> Seq<char> {
    match a {
        Accent::Us => "2"@,
        Accent::Uk => "1"@,
    }
}

/// The pronunciation URL for a word: the fixed endpoint, the word, and the
/// accent code.
pub open spec fn audio_url_spec(word: Seq<char>, a: Accent) -> Seq<char> {
    "https://dict.youdao.com/dictvoice?audio="@ + word + "&type="@ + accent_code(a)
}

/// Builds the pronunciation URL for a word and an accent.
pub fn audio_url(word: &str, a: Accent) -> (r: String)
    ensures
        r@ == audio_url_spec(word@, a),
{
    let mut r = String::from_str("https://dict.youdao.com/dictvoice?audio=");
    r.append(word);
    r.append("&type=");
    match a {
        Accent::Us => r.append("2"),
        Accent::Uk => r.append("1"),
    }
    proof {
        assert(r@ =~= audio_url_spec(word@, a));
    }
    r
}

} // verus!
