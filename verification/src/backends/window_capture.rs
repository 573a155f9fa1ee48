//! The native window backend: ext-image-copy-capture of a toplevel found
//! through ext-foreign-toplevel-list. Which toplevel to capture is decided
//! here, from the titles and app ids the compositor announced.

use vstd::prelude::*;
use crate::error::WlsnipError;
use crate::utils::text;
use crate::utils::text::{chars_of, contains, to_lowercase};

verus! {

/// A toplevel as announced by ext-foreign-toplevel-list: its title and app
/// id, empty until the compositor sends them.
#[derive(Debug, Clone)]
pub struct Toplevel {
    pub title: String,
    pub app_id: String,
}

/// A toplevel matches a query when its title or its app id, lowercased,
/// contains the lowercased query.
pub open spec fn toplevel_matches(t: Toplevel, q: Seq<char>) -> bool {
    text::contains_text(text::lowercase(t.title@), text::lowercase(q))
        || text::contains_text(text::lowercase(t.app_id@), text::lowercase(q))
}

/// A toplevel is matched through its app id as well as through its title:
/// it matches exactly when its title or its app id, lowercased, contains the
/// lowercased query.
pub proof fn toplevel_matched_by_title_or_app_id(t: Toplevel, q: Seq<char>)
    ensures
        text::contains_text(text::lowercase(t.app_id@), text::lowercase(q)) ==> toplevel_matches(t, q),
        text::contains_text(text::lowercase(t.title@), text::lowercase(q)) ==> toplevel_matches(t, q),
        toplevel_matches(t, q) ==> text::contains_text(text::lowercase(t.app_id@), text::lowercase(q))
            || text::contains_text(text::lowercase(t.title@), text::lowercase(q)),
{
}

/// Name of this backend.
pub open spec fn window_backend_name() -> Seq<char> {
    "ext-window-capture"@
}

/// Human-readable name of the native window backend.
pub fn window_backend_label() -> (n: &'static str)
    ensures
        n@ == window_backend_name(),
{
    "ext-window-capture"
}

/// The toplevel to capture: none at all is an error; with a query, the first
/// toplevel that matches it (an error naming the query when none does);
/// without one, the first toplevel.
pub fn select_toplevel(toplevels: &Vec<Toplevel>, query: Option<&str>) -> (res: Result<usize, WlsnipError>)
    ensures
        toplevels@.len() == 0 ==> (res matches Err(e) && exists|m: String|
            e == WlsnipError::Capture(m) && m@ == "no windows found"@),
        toplevels@.len() > 0 && query is None ==> res == Ok::<usize, WlsnipError>(0),
        toplevels@.len() > 0 && query is Some ==> match res {
            Ok(i) => {
                &&& i < toplevels@.len()
                &&& toplevel_matches(toplevels@[i as int], query->0@)
                &&& forall|j: int| 0 <= j < i ==> !toplevel_matches(#[trigger] toplevels@[j], query->0@)
            },
            Err(e) => {
                &&& forall|j: int| 0 <= j < toplevels@.len() ==> !toplevel_matches(#[trigger] toplevels@[j], query->0@)
                &&& exists|m: String| e == WlsnipError::Capture(m) && m@ == "no window matching '"@ + query->0@ + "' found"@
            },
        },
{
    if toplevels.len() == 0 {
        return Err(WlsnipError::Capture(String::from_str("no windows found")));
    }
    let q = match query {
        Some(q) => q,
        None => {
            return Ok(0);
        },
    };
    let q_lower = chars_of(to_lowercase(q).as_str());
    let mut i: usize = 0;
    while i < toplevels.len()
        invariant
            i <= toplevels@.len(),
            toplevels@.len() > 0,
            query == Some(q),
            q_lower@ == text::lowercase(q@),
            forall|j: int| 0 <= j < i ==> !toplevel_matches(#[trigger] toplevels@[j], q@),
        decreases toplevels.len() - i,
    {
        let title = chars_of(to_lowercase(toplevels[i].title.as_str()).as_str());
        let app_id = chars_of(to_lowercase(toplevels[i].app_id.as_str()).as_str());
        if contains(&title, &q_lower) || contains(&app_id, &q_lower) {
            return Ok(i);
        }
        i += 1;
    }
    let mut m = String::from_str("no window matching '");
    m.append(q);
    m.append("' found");
    Err(WlsnipError::Capture(m))
}

} // verus!
