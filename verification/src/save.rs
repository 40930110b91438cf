//! Save-version policy: a save is accepted only when it carries exactly the
//! current version, so an old or hand-edited save is never silently
//! reinterpreted as current data.

use vstd::prelude::*;

verus! {

pub open spec fn opt_view(s: Option<&str>) -> Option<Seq<char>> {
    match s {
        Some(v) => Some(v@),
        None => None,
    }
}

/// The message shown when a save's version (or its absence) is not the
/// current one.
pub open spec fn version_error_text(detected: Option<Seq<char>>, expected: Seq<char>) -> Seq<char> {
    match detected {
        Some(v) => "Unsupported save version '"@ + v + "'; expected current version '"@ + expected
            + "'"@,
        None => "Save has no version metadata; expected current version '"@ + expected + "'"@,
    }
}

/// Describes why a save with version `detected` (none recorded when `None`)
/// cannot be loaded by a game at version `expected`.
pub fn format_save_version_error(detected: Option<&str>, expected: &str) -> (r: String)
    ensures
        r@ == version_error_text(opt_view(detected), expected@),
{
    match detected {
        Some(version) => {
            let mut s = String::from_str("Unsupported save version '");
            s.append(version);
            s.append("'; expected current version '");
            s.append(expected);
            s.append("'");
            s
        },
        None => {
            let mut s = String::from_str("Save has no version metadata; expected current version '");
            s.append(expected);
            s.append("'");
            s
        },
    }
}

/// Accepts exactly the saves whose recorded version is `expected`; any other
/// version, or none, is refused with the message of
/// [`format_save_version_error`].
pub fn check_save_version(detected: Option<&str>, expected: &str) -> (r: Result<(), String>)
    ensures
        r is Ok <==> opt_view(detected) == Some(expected@),
        r matches Err(e) ==> e@ == version_error_text(opt_view(detected), expected@),
{
    let matches = match detected {
        Some(version) => version.to_owned() == expected.to_owned(),
        None => false,
    };
    if matches {
        Ok(())
    } else {
        Err(format_save_version_error(detected, expected))
    }
}

} // verus!
