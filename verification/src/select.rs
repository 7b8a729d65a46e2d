use vstd::prelude::*;

use crate::strutil::str_eq;

verus! {

/// Which backend a name selects.
#[derive(Debug, Clone, Copy, PartialEq, Eq, Structural)]
pub enum BackendKind {
    Iciba,
    Baidu,
    Chatgpt,
}

/// The backend a name selects: the two credentialed backends answer to their
/// own names, and every other name, or none at all, falls back to the
/// credential-free dictionary.
pub open spec fn selected_backend(name: Option<Seq<char>>) -> BackendKind {
    match name {
        Some(n) => if n == "baidu"@ {
            BackendKind::Baidu
        } else if n == "chatgpt"@ {
            BackendKind::Chatgpt
        } else {
            BackendKind::Iciba
        },
        None => BackendKind::Iciba,
    }
}

/// Maps a backend name to the backend it selects; an unknown or absent name
/// is not an error but selects the dictionary backend.
pub fn select_backend(name: Option<&str>) -> (r: BackendKind)
    ensures
        r == selected_backend(match name {
            Some(n) => Some(n@),
            None => None::<Seq<char>>,
        }),
{
    match name {
        Some(n) => {
            if str_eq(n, "baidu") {
                BackendKind::Baidu
            } else if str_eq(n, "chatgpt") {
                BackendKind::Chatgpt
            } else {
                BackendKind::Iciba
            }
        },
        None => BackendKind::Iciba,
    }
}

/// Law: a name that is neither of the credentialed backends' names selects
/// the dictionary backend, and so does an absent name.
pub proof fn lemma_unknown_name_selects_iciba(name: Option<Seq<char>>)
    requires
        name matches Some(n) ==> n != "baidu"@ && n != "chatgpt"@,
    ensures
        selected_backend(name) == BackendKind::Iciba,
{
}

} // verus!
