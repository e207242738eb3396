//! Which new version may follow the current one, and how a bump label
//! computes it.

use vstd::prelude::*;
use crate::error::VersionError;
use crate::text::{split, split_chars, views};
use crate::token::{VersionToken, version_of, parse_chars};

verus! {

/// The part of the version that a bump advances.
#[derive(Debug, Clone, Copy, PartialEq, Eq, Structural)]
pub enum VersionLabel {
    Patch,
    Minor,
    Major,
}

/// `new` is a next version after `old`: the patch grows with major and minor
/// kept; or the minor grows with the major kept and the patch reset to zero;
/// or the major grows with minor and patch reset to zero.
pub open spec fn is_next_version(old: VersionToken, new: VersionToken) -> bool {
    ||| (new.major == old.major && new.minor == old.minor && new.patch > old.patch)
    ||| (new.major == old.major && new.minor > old.minor && new.patch == 0)
    ||| (new.major > old.major && new.minor == 0 && new.patch == 0)
}

/// The part that `label` advances is below the largest machine word, so the
/// bump can be made.
pub open spec fn can_bump(v: VersionToken, label: VersionLabel) -> bool {
    match label {
        VersionLabel::Patch => v.patch < usize::MAX,
        VersionLabel::Minor => v.minor < usize::MAX,
        VersionLabel::Major => v.major < usize::MAX,
    }
}

/// The version that `label` makes of `v`.
pub open spec fn bump(v: VersionToken, label: VersionLabel) -> VersionToken {
    match label {
        VersionLabel::Patch => VersionToken { major: v.major, minor: v.minor, patch: (v.patch + 1) as usize },
        VersionLabel::Minor => VersionToken { major: v.major, minor: (v.minor + 1) as usize, patch: 0 },
        VersionLabel::Major => VersionToken { major: (v.major + 1) as usize, minor: 0, patch: 0 },
    }
}

/// What checking `new_text` against `old_text` gives: `InvalidFormat` where
/// either text has fewer than three parts; else the first read error, old
/// version first; else whether the new version is a next one.
pub open spec fn check_new_version(old_text: Seq<char>, new_text: Seq<char>) -> Result<(), VersionError> {
    if split(old_text, '.').len() < 3 || split(new_text, '.').len() < 3 {
        Err(VersionError::InvalidFormat)
    } else {
        match version_of(old_text) {
            Err(e) => Err(e),
            Ok(old) => match version_of(new_text) {
                Err(e) => Err(e),
                Ok(new) => if is_next_version(old, new) {
                    Ok(())
                } else {
                    Err(VersionError::VersionNotGreater)
                },
            },
        }
    }
}

/// Whether `new` may follow `old`.
pub fn is_next(old: VersionToken, new: VersionToken) -> (r: bool)
    ensures
        r == is_next_version(old, new),
{
    if old.major != new.major {
        return new.major > old.major && new.minor == 0 && new.patch == 0;
    }
    if old.minor != new.minor {
        return new.minor > old.minor && new.patch == 0;
    }
    new.patch > old.patch
}

/// Reads both versions and checks that the new one may follow the old one.
pub fn verify_new_version_is_grather(old_version: &Vec<char>, new_version: &Vec<char>) -> (r: Result<(), VersionError>)
    ensures
        r == check_new_version(old_version@, new_version@),
{
    let old_parts = split_chars(old_version, '.');
    let new_parts = split_chars(new_version, '.');
    assert(views(old_parts@).len() == old_parts@.len());
    assert(views(new_parts@).len() == new_parts@.len());
    if old_parts.len() < 3 || new_parts.len() < 3 {
        return Err(VersionError::InvalidFormat);
    }
    let old = parse_chars(old_version)?;
    let new = parse_chars(new_version)?;
    if is_next(old, new) {
        Ok(())
    } else {
        Err(VersionError::VersionNotGreater)
    }
}

/// One more than `n`, or `Overflow` where that does not fit.
pub fn increment_version(n: usize) -> (r: Result<usize, VersionError>)
    ensures
        n < usize::MAX ==> r == Ok::<usize, VersionError>((n + 1) as usize),
        n == usize::MAX ==> r == Err::<usize, VersionError>(VersionError::Overflow),
{
    if n == usize::MAX {
        Err(VersionError::Overflow)
    } else {
        Ok(n + 1)
    }
}

/// The version that `label` makes of `v`, or `Overflow` where the advanced
/// part would not fit.
pub fn bump_version(v: VersionToken, label: VersionLabel) -> (r: Result<VersionToken, VersionError>)
    ensures
        can_bump(v, label) ==> r == Ok::<VersionToken, VersionError>(bump(v, label)),
        !can_bump(v, label) ==> r == Err::<VersionToken, VersionError>(VersionError::Overflow),
{
    match label {
        VersionLabel::Patch => Ok(VersionToken { major: v.major, minor: v.minor, patch: increment_version(v.patch)? }),
        VersionLabel::Minor => Ok(VersionToken { major: v.major, minor: increment_version(v.minor)?, patch: 0 }),
        VersionLabel::Major => Ok(VersionToken { major: increment_version(v.major)?, minor: 0, patch: 0 }),
    }
}

/// A bump gives a version that may follow the one it was made from.
pub proof fn lemma_bump_is_next(v: VersionToken, label: VersionLabel)
    requires
        can_bump(v, label),
    ensures
        is_next_version(v, bump(v, label)),
{
}

/// No version follows itself, nor does one with a lower major; one with the
/// same major and a lower minor; or one with the same major and minor and a
/// patch that is not higher.
pub proof fn lemma_rejects_not_greater(old: VersionToken, new: VersionToken)
    requires
        new == old || new.major < old.major || (new.major == old.major && new.minor < old.minor)
            || (new.major == old.major && new.minor == old.minor && new.patch <= old.patch),
    ensures
        !is_next_version(old, new),
{
}

/// A minor bump must reset the patch, and a major bump must reset both minor
/// and patch.
pub proof fn lemma_rejects_unreset_parts(old: VersionToken, new: VersionToken)
    requires
        (new.major == old.major && new.minor > old.minor && new.patch != 0) || (new.major
            > old.major && (new.minor != 0 || new.patch != 0)),
    ensures
        !is_next_version(old, new),
{
}

} // verus!
