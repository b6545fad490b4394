//! Locating the `pkl` CLI binary.
use vstd::prelude::*;
use crate::error::{PklError, PklErrorModel};
use crate::text::spec_ascii_lower;

verus! {

/// The text with its ASCII letters in lower case.
pub open spec fn ascii_lowered(s: Seq<char>) -> Seq<char> {
    s.map_values(|c: char| spec_ascii_lower(c))
}

/// `needle` occurs in `hay`.
pub open spec fn occurs_in(hay: Seq<char>, needle: Seq<char>) -> bool {
    exists|i: int| 0 <= i && i + needle.len() <= hay.len() && #[trigger] hay.subrange(i, i + needle.len()) == needle
}

/// `needle` occurs in `hay` when ASCII case is ignored.
pub open spec fn occurs_ignoring_ascii_case(hay: Seq<char>, needle: Seq<char>) -> bool {
    occurs_in(ascii_lowered(hay), ascii_lowered(needle))
}

/// A name without a path separator, which `which` looks up in each `PATH`
/// directory.
pub open spec fn bare_name(name: Seq<char>) -> bool {
    forall|i: int| 0 <= i < name.len() ==> #[trigger] name[i] != '/' && name[i] != '\\'
}

/// `which::which`: looks the executable up on `PATH` and gives back its full
/// path, lossily converted to a string. Whether and where it finds the file
/// depends on the environment and the disk. Stated: a path it gives back is
/// not empty, and for a name without separators it is a `PATH` directory
/// joined with the name (on Windows with an extension added and the file
/// name's ASCII case taken from the directory entry), so the name occurs in
/// it, ASCII case aside.
#[verifier::external_body]
fn which_path(bin_name: &str) -> (r: Option<String>)
    ensures
        r matches Some(p) ==> p@.len() > 0,
        r matches Some(p) ==> (bare_name(bin_name@) ==> occurs_ignoring_ascii_case(p@, bin_name@)),
{
    match which::which(bin_name) {
        Ok(path) => Some(path.to_string_lossy().into_owned()),
        Err(_) => None,
    }
}

/// The message of the error returned when `bin_name` cannot be found.
pub open spec fn not_found_message(bin_name: Seq<char>) -> Seq<char> {
    "could not find `"@ + bin_name + "` CLI binary\n\npkl-bindgen requires the `pkl` CLI to be installed.\n\nInstall it from: https://pkl-lang.org\nOr set a custom path via `EvaluatorOptions::pkl_path`\n\nSearched in PATH: $PATH"@
}

/// What `find_pkl_inner` answers for the outcome of the `PATH` lookup.
pub open spec fn lookup_result(bin_name: Seq<char>, found: Option<Seq<char>>) -> Result<Seq<char>, PklErrorModel> {
    match found {
        Some(p) => Ok(p),
        None => Err(PklErrorModel::CliError(not_found_message(bin_name))),
    }
}

/// Turns the outcome of a `PATH` lookup for `bin_name` into the path, or the
/// error that explains how to install the CLI.
pub fn pkl_lookup_result(bin_name: &str, found: Option<String>) -> (r: Result<String, PklError>)
    ensures
        match (r, found) {
            (Ok(p), Some(f)) => lookup_result(bin_name@, Some(f@)) == Ok::<Seq<char>, PklErrorModel>(p@),
            (Err(e), None) => lookup_result(bin_name@, None) == Err::<Seq<char>, PklErrorModel>(e@),
            _ => false,
        },
{
    match found {
        Some(p) => Ok(p),
        None => {
            let mut msg = "could not find `".to_string();
            msg.append(bin_name);
            msg.append("` CLI binary\n\npkl-bindgen requires the `pkl` CLI to be installed.\n\nInstall it from: https://pkl-lang.org\nOr set a custom path via `EvaluatorOptions::pkl_path`\n\nSearched in PATH: $PATH");
            Err(PklError::CliError(msg))
        },
    }
}

/// Finds `bin_name` on `PATH`: its full path, or the error that explains how
/// to install the CLI. Which of the two comes back depends on the
/// environment; a path found for a name without separators holds the name.
pub fn find_pkl_inner(bin_name: &str) -> (r: Result<String, PklError>)
    ensures
        r matches Err(e) ==> e@ == PklErrorModel::CliError(not_found_message(bin_name@)),
        r matches Ok(p) ==> p@.len() > 0,
        r matches Ok(p) ==> (bare_name(bin_name@) ==> occurs_ignoring_ascii_case(p@, bin_name@)),
{
    let found = which_path(bin_name);
    pkl_lookup_result(bin_name, found)
}

/// Finds the `pkl` CLI binary on `PATH`: its full path, or a descriptive
/// error if not found.
pub fn find_pkl() -> (r: Result<String, PklError>)
    ensures
        r matches Err(e) ==> e@ == PklErrorModel::CliError(not_found_message("pkl"@)),
        r matches Ok(p) ==> p@.len() > 0,
        r matches Ok(p) ==> occurs_ignoring_ascii_case(p@, "pkl"@),
{
    proof {
        reveal_strlit("pkl");
    }
    find_pkl_inner("pkl")
}

/// The path to use for `pkl` when the `PATH` lookup gave `found`: what was
/// found, or the bare name `pkl`.
pub fn path_or_default(found: Option<String>) -> (r: String)
    ensures
        match found {
            Some(f) => r@ == f@,
            None => r@ == "pkl"@,
        },
{
    match found {
        Some(p) => p,
        None => "pkl".to_string(),
    }
}

/// The default `pkl` binary: the full path found on `PATH`, otherwise just
/// the name `pkl`. Never fails, and never gives an empty path.
pub fn default_pkl_path() -> (r: String)
    ensures
        r@.len() > 0,
        r@ == "pkl"@ || occurs_ignoring_ascii_case(r@, "pkl"@),
{
    let found = which_path("pkl");
    proof {
        reveal_strlit("pkl");
    }
    path_or_default(found)
}

} // verus!
