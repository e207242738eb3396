//! Reading the current version out of a manifest, and rewriting the manifest
//! with a new one.

use vstd::prelude::*;
use crate::error::VersionError;
use crate::rules::{
    VersionLabel, bump, bump_version, can_bump, check_new_version, lemma_bump_is_next,
    verify_new_version_is_grather,
};
use crate::text::{
    chars_of, contains, contains_exec, copy_range, replace_all, replace_all_exec, split,
    split_chars, string_of, trim, trim_exec, views, without, without_exec,
};
use crate::token::{
    VersionToken, format_chars, lemma_parse_format_round_trip, parse_chars, version_of,
    version_text,
};

verus! {

/// The line mentions the version.
pub open spec fn mentions_version(line: Seq<char>) -> bool {
    contains(line, "version"@)
}

/// The first of `lines` that mentions the version.
pub open spec fn first_version_line(lines: Seq<Seq<char>>) -> Option<Seq<char>>
    decreases lines.len(),
{
    if lines.len() == 0 {
        None
    } else if mentions_version(lines[0]) {
        Some(lines[0])
    } else {
        first_version_line(lines.drop_first())
    }
}

/// The version text of a line: what follows its last '=', without '"' and
/// without surrounding whitespace. A line without '=' has none.
pub open spec fn version_of_line(line: Seq<char>) -> Result<Seq<char>, VersionError> {
    let parts = split(line, '=');
    if parts.len() < 2 {
        Err(VersionError::InvalidFormat)
    } else {
        Ok(trim(without(parts.last(), '"')))
    }
}

/// The current version text of a manifest, from its first line that
/// mentions the version.
pub open spec fn extract_version(doc: Seq<char>) -> Result<Seq<char>, VersionError> {
    match first_version_line(split(doc, '\n')) {
        None => Err(VersionError::ManifestMissingVersion),
        Some(line) => version_of_line(line),
    }
}

/// A requested version without its one optional leading 'v'.
pub open spec fn strip_v_prefix(s: Seq<char>) -> Seq<char> {
    if s.len() > 0 && s[0] == 'v' {
        s.drop_first()
    } else {
        s
    }
}

/// What bumping the manifest `doc` by `label` gives: the manifest with every
/// occurrence of the current version text replaced by the new one, and the
/// new version text.
pub open spec fn label_outcome(doc: Seq<char>, label: VersionLabel) -> Result<
    (Seq<char>, Seq<char>),
    VersionError,
> {
    match extract_version(doc) {
        Err(e) => Err(e),
        Ok(old_text) => match version_of(old_text) {
            Err(e) => Err(e),
            Ok(old) => if !can_bump(old, label) {
                Err(VersionError::Overflow)
            } else {
                let new_text = version_text(bump(old, label));
                Ok((replace_all(doc, old_text, new_text), new_text))
            },
        },
    }
}

/// What setting the manifest `doc` to the requested version gives: the
/// manifest with every occurrence of the current version text replaced by
/// the request, and the request, both without the leading 'v'.
pub open spec fn explicit_outcome(doc: Seq<char>, request: Seq<char>) -> Result<
    (Seq<char>, Seq<char>),
    VersionError,
> {
    let new_text = strip_v_prefix(request);
    match extract_version(doc) {
        Err(e) => Err(e),
        Ok(old_text) => match check_new_version(old_text, new_text) {
            Err(e) => Err(e),
            Ok(_) => Ok((replace_all(doc, old_text, new_text), new_text)),
        },
    }
}

/// The views of an updated manifest and version.
pub open spec fn outcome_view(r: Result<(String, String), VersionError>) -> Result<
    (Seq<char>, Seq<char>),
    VersionError,
> {
    match r {
        Ok((doc, version)) => Ok((doc@, version@)),
        Err(e) => Err(e),
    }
}

/// The view of a text or an error.
pub open spec fn text_view(r: Result<Vec<char>, VersionError>) -> Result<Seq<char>, VersionError> {
    match r {
        Ok(t) => Ok(t@),
        Err(e) => Err(e),
    }
}

/// The version text of one line.
fn version_of_line_exec(line: &Vec<char>) -> (r: Result<Vec<char>, VersionError>)
    ensures
        text_view(r) == version_of_line(line@),
{
    let parts = split_chars(line, '=');
    assert(views(parts@).len() == parts@.len());
    if parts.len() < 2 {
        return Err(VersionError::InvalidFormat);
    }
    let last = &parts[parts.len() - 1];
    assert(views(parts@).last() == last@);
    let unquoted = without_exec(last, '"');
    Ok(trim_exec(&unquoted))
}

/// The current version text of a manifest.
fn extract_chars(doc: &Vec<char>) -> (r: Result<Vec<char>, VersionError>)
    ensures
        text_view(r) == extract_version(doc@),
{
    let lines = split_chars(doc, '\n');
    let word = chars_of("version");
    let ghost all = views(lines@);
    assert(all.skip(0) =~= all);
    let mut k: usize = 0;
    while k < lines.len()
        invariant
            k <= lines@.len() == all.len(),
            all == views(lines@),
            all == split(doc@, '\n'),
            word@ == "version"@,
            first_version_line(all) == first_version_line(all.skip(k as int)),
        decreases lines@.len() - k,
    {
        assert(all.skip(k as int)[0] == lines@[k as int]@);
        if contains_exec(&lines[k], &word) {
            return version_of_line_exec(&lines[k]);
        }
        assert(all.skip(k as int).drop_first() =~= all.skip(k + 1));
        k = k + 1;
    }
    assert(all.skip(k as int) =~= Seq::<Seq<char>>::empty());
    Err(VersionError::ManifestMissingVersion)
}

/// Reads the current version text of a manifest.
pub fn get_version(cargo_toml_content: &str) -> (r: Result<String, VersionError>)
    ensures
        match r {
            Ok(s) => extract_version(cargo_toml_content@) == Ok::<Seq<char>, VersionError>(s@),
            Err(e) => extract_version(cargo_toml_content@) == Err::<Seq<char>, VersionError>(e),
        },
{
    let text = extract_chars(&chars_of(cargo_toml_content))?;
    Ok(string_of(&text))
}

/// A text that reads as a version is not empty.
proof fn lemma_version_text_nonempty(t: Seq<char>)
    requires
        version_of(t) is Ok,
    ensures
        t.len() > 0,
{
    if t.len() == 0 {
        assert(split(t, '.') == seq![Seq::<char>::empty()]);
    }
}

/// The request without its leading 'v'.
fn strip_v(request: &Vec<char>) -> (r: Vec<char>)
    ensures
        r@ == strip_v_prefix(request@),
{
    if request.len() > 0 && request[0] == 'v' {
        let r = copy_range(request, 1, request.len());
        assert(r@ =~= request@.drop_first());
        r
    } else {
        copy_range(request, 0, request.len())
    }
}

/// Bumps the version of the manifest by `version` and returns the updated
/// manifest with the new version text.
pub fn update_version_by_label(cargo_toml_content: String, version: VersionLabel) -> (r: Result<
    (String, String),
    VersionError,
>)
    ensures
        outcome_view(r) == label_outcome(cargo_toml_content@, version),
{
    let doc = chars_of(cargo_toml_content.as_str());
    let old_text = extract_chars(&doc)?;
    let old = parse_chars(&old_text)?;
    let new = bump_version(old, version)?;
    let new_text = format_chars(new);
    proof {
        lemma_parse_format_round_trip(new);
        lemma_bump_is_next(old, version);
        lemma_version_text_nonempty(old_text@);
    }
    verify_new_version_is_grather(&old_text, &new_text)?;
    let new_doc = replace_all_exec(&doc, &old_text, &new_text);
    Ok((string_of(&new_doc), string_of(&new_text)))
}

/// Sets the version of the manifest to `version`, which may start with 'v',
/// provided it may follow the current version; returns the updated manifest
/// with the new version text.
pub fn update_version(cargo_toml_content: String, version: String) -> (r: Result<
    (String, String),
    VersionError,
>)
    ensures
        outcome_view(r) == explicit_outcome(cargo_toml_content@, version@),
{
    let new_text = strip_v(&chars_of(version.as_str()));
    let doc = chars_of(cargo_toml_content.as_str());
    let old_text = extract_chars(&doc)?;
    verify_new_version_is_grather(&old_text, &new_text)?;
    proof {
        lemma_version_text_nonempty(old_text@);
    }
    let new_doc = replace_all_exec(&doc, &old_text, &new_text);
    Ok((string_of(&new_doc), string_of(&new_text)))
}

proof fn lemma_no_version_line(lines: Seq<Seq<char>>)
    requires
        forall|i: int| 0 <= i < lines.len() ==> !mentions_version(#[trigger] lines[i]),
    ensures
        first_version_line(lines) is None,
    decreases lines.len(),
{
    if lines.len() > 0 {
        let rest = lines.drop_first();
        assert forall|i: int| 0 <= i < rest.len() implies !mentions_version(#[trigger] rest[i]) by {
            assert(rest[i] == lines[i + 1]);
        }
        lemma_no_version_line(rest);
    }
}

/// A manifest in which no line mentions the version has no current version.
pub proof fn lemma_missing_version(doc: Seq<char>)
    requires
        forall|i: int|
            0 <= i < split(doc, '\n').len() ==> !mentions_version(#[trigger] split(doc, '\n')[i]),
    ensures
        extract_version(doc) == Err::<Seq<char>, VersionError>(VersionError::ManifestMissingVersion),
{
    lemma_no_version_line(split(doc, '\n'));
}

/// Bumping by a label turns the current version `(M, m, p)` into
/// `(M, m, p + 1)` for a patch, `(M, m + 1, 0)` for a minor and
/// `(M + 1, 0, 0)` for a major bump; the manifest gets the text of that
/// version, which reads back as it.
pub proof fn lemma_bump_by_label(doc: Seq<char>, label: VersionLabel)
    requires
        extract_version(doc) is Ok,
        version_of(extract_version(doc)->Ok_0) is Ok,
        can_bump(version_of(extract_version(doc)->Ok_0)->Ok_0, label),
    ensures
        ({
            let old_text = extract_version(doc)->Ok_0;
            let v = version_of(old_text)->Ok_0;
            let expected = match label {
                VersionLabel::Patch => VersionToken {
                    major: v.major,
                    minor: v.minor,
                    patch: (v.patch + 1) as usize,
                },
                VersionLabel::Minor => VersionToken {
                    major: v.major,
                    minor: (v.minor + 1) as usize,
                    patch: 0,
                },
                VersionLabel::Major => VersionToken {
                    major: (v.major + 1) as usize,
                    minor: 0,
                    patch: 0,
                },
            };
            &&& label_outcome(doc, label) == Ok::<(Seq<char>, Seq<char>), VersionError>(
                (replace_all(doc, old_text, version_text(expected)), version_text(expected)),
            )
            &&& version_of(version_text(expected)) == Ok::<VersionToken, VersionError>(expected)
        }),
{
    let v = version_of(extract_version(doc)->Ok_0)->Ok_0;
    lemma_parse_format_round_trip(bump(v, label));
}

/// The version that a bump writes always passes the check against the
/// current one.
pub proof fn lemma_bump_passes_check(doc: Seq<char>, label: VersionLabel)
    requires
        label_outcome(doc, label) is Ok,
    ensures
        check_new_version(extract_version(doc)->Ok_0, (label_outcome(doc, label)->Ok_0).1)
            == Ok::<(), VersionError>(()),
{
    let v = version_of(extract_version(doc)->Ok_0)->Ok_0;
    lemma_parse_format_round_trip(bump(v, label));
    lemma_bump_is_next(v, label);
}

} // verus!
