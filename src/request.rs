//! The command-line form of a bump request: a label word or an explicit
//! version.

use vstd::prelude::*;
use crate::rules::VersionLabel;
use crate::text::{chars_of, occurs_at, occurs_at_exec, string_of, trim, trim_exec};

verus! {

/// The label that a request word names, if it names one.
pub open spec fn label_named(word: Seq<char>) -> Option<VersionLabel> {
    if word == "patch"@ {
        Some(VersionLabel::Patch)
    } else if word == "minor"@ {
        Some(VersionLabel::Minor)
    } else if word == "major"@ {
        Some(VersionLabel::Major)
    } else {
        None
    }
}

fn same_chars(a: &Vec<char>, b: &Vec<char>) -> (r: bool)
    ensures
        r == (a@ == b@),
{
    if a.len() != b.len() {
        return false;
    }
    let r = occurs_at_exec(a, b, 0);
    assert(a@.subrange(0, b@.len() as int) =~= a@);
    r
}

/// The label that the request names once surrounding whitespace is removed;
/// `None` where the request is an explicit version.
pub fn label_of_request(request: &str) -> (r: Option<VersionLabel>)
    ensures
        r == label_named(trim(request@)),
{
    let word = trim_exec(&chars_of(request));
    if same_chars(&word, &chars_of("patch")) {
        Some(VersionLabel::Patch)
    } else if same_chars(&word, &chars_of("minor")) {
        Some(VersionLabel::Minor)
    } else if same_chars(&word, &chars_of("major")) {
        Some(VersionLabel::Major)
    } else {
        None
    }
}

/// The request without surrounding whitespace.
pub fn trim_request(request: &str) -> (r: String)
    ensures
        r@ == trim(request@),
{
    string_of(&trim_exec(&chars_of(request)))
}

} // verus!
