//! Server quality-of-life commands.

use vstd::prelude::*;
use crate::text::texts;

verus! {

/// What `Regex::new(pattern)` and then `replace_all(text, replacement)` give: `None`
/// when the pattern does not compile.
pub uninterp spec fn regex_replace_all(pattern: Seq<char>, text: Seq<char>, replacement: Seq<char>) -> Option<Seq<char>>;

/// Whether `Regex::new(pattern)` accepts the pattern.
pub uninterp spec fn regex_compiles(pattern: Seq<char>) -> bool;

/// `Regex::new(pattern)`, then `Regex::replace_all(text, replacement)`. Whether it
/// gives a result depends on the pattern alone: `replace_all` cannot fail.
#[verifier::external_body]
fn replace_all_matches(pattern: &str, text: &str, replacement: &str) -> (r: Option<String>)
    ensures
        r is Some <==> regex_compiles(pattern@),
        match r {
            Some(s) => regex_replace_all(pattern@, text@, replacement@) == Some(s@),
            None => regex_replace_all(pattern@, text@, replacement@) is None,
        },
{
    match regex::Regex::new(pattern) {
        Ok(re) => Some(re.replace_all(text, replacement).into_owned()),
        Err(_) => None,
    }
}

/// The new channel names of a mass edit: every match of `find` in each name replaced by
/// `replace`. `None` exactly when the pattern does not compile.
pub fn mass_edit_names(find: &str, replace: &str, names: &Vec<String>) -> (r: Option<Vec<String>>)
    ensures
        r is Some <==> regex_compiles(find@),
        r matches Some(v) ==> v@.len() == names@.len() && forall|i: int| 0 <= i < names@.len()
            ==> regex_replace_all(find@, #[trigger] names@[i]@, replace@) == Some(v@[i]@),
{
    proof {
        reveal_strlit("");
    }
    let probe = replace_all_matches(find, "", replace);
    assert(""@ =~= Seq::<char>::empty());
    if probe.is_none() {
        return None;
    }
    let mut out: Vec<String> = Vec::new();
    let mut i: usize = 0;
    while i < names.len()
        invariant
            i <= names.len(),
            out@.len() == i,
            forall|k: int| 0 <= k < i ==> regex_replace_all(find@, #[trigger] names@[k]@, replace@) == Some(out@[k]@),
        decreases names.len() - i,
    {
        match replace_all_matches(find, names[i].as_str(), replace) {
            Some(s) => out.push(s),
            None => {
                return None;
            },
        }
        i += 1;
    }
    Some(out)
}

} // verus!
