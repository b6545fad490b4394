//! Where a Pkl module to evaluate comes from: a file, a URI, or inline text.
use vstd::prelude::*;
use crate::text::{starts_with, starts_with_lit, str_to_chars};

verus! {

/// Describes a Pkl module to be evaluated.
///
/// Modules can be loaded from a file path, a URI, or provided as inline text.
#[derive(Debug, Clone)]
pub struct ModuleSource {
    /// The module URI (e.g. "file:///path/to/config.pkl", "https://...", "modulepath:...").
    pub uri: String,
    /// Optional inline Pkl source text. If `None`, the evaluator resolves the URI itself.
    pub contents: Option<String>,
}

/// A lowercase hexadecimal digit.
pub open spec fn is_lower_hex(c: char) -> bool {
    ('0' <= c && c <= '9') || ('a' <= c && c <= 'f')
}

/// The hyphenated lowercase form of a UUID: 8-4-4-4-12 hexadecimal digits.
pub open spec fn is_hyphenated_uuid(s: Seq<char>) -> bool {
    &&& s.len() == 36
    &&& forall|i: int|
        0 <= i < 36 ==> if i == 8 || i == 13 || i == 18 || i == 23 {
            #[trigger] s[i] == '-'
        } else {
            is_lower_hex(s[i])
        }
}

/// `uuid::Uuid::new_v4`, printed with `Display`: a fresh random UUID in its
/// hyphenated lowercase form. Which UUID comes back is left open; only its
/// form is stated.
#[verifier::external_body]
fn random_uuid() -> (r: String)
    ensures
        is_hyphenated_uuid(r@),
{
    uuid::Uuid::new_v4().to_string()
}

impl ModuleSource {
    /// Create a source from a file path. The path is converted to a `file://` URI.
    pub fn from_file(path: &str) -> (r: ModuleSource)
        ensures
            r.uri@ == "file://"@ + path@,
            r.contents is None,
    {
        let mut uri = "file://".to_string();
        uri.append(path);
        ModuleSource { uri, contents: None }
    }

    /// Create a source from a module URI (the evaluator will fetch it).
    pub fn from_uri(uri: &str) -> (r: ModuleSource)
        ensures
            r.uri@ == uri@,
            r.contents is None,
    {
        ModuleSource { uri: uri.to_string(), contents: None }
    }

    /// Create a source from inline Pkl source text, under a `repl:` URI made
    /// of a fresh random UUID.
    ///
    /// For the CLI evaluator the text is piped via stdin; for the server
    /// evaluator it is sent with the evaluate request, and the `repl:` module
    /// reader answers for it.
    pub fn from_text(text: &str) -> (r: ModuleSource)
        ensures
            r.uri@.len() == 41,
            r.uri@.take(5) == "repl:"@,
            is_hyphenated_uuid(r.uri@.skip(5)),
            r.contents matches Some(c) && c@ == text@,
    {
        let id = random_uuid();
        let mut uri = "repl:".to_string();
        uri.append(id.as_str());
        proof {
            reveal_strlit("repl:");
            assert(uri@.take(5) =~= "repl:"@);
            assert(uri@.skip(5) =~= id@);
        }
        ModuleSource { uri, contents: Some(text.to_string()) }
    }
}

/// The command line takes a remote module (`http://`, `https://` or
/// `pkl:`) by its URI.
pub open spec fn is_remote_input(input: Seq<char>) -> bool {
    starts_with(input, "http://"@) || starts_with(input, "https://"@) || starts_with(input, "pkl:"@)
}

/// The source the command line evaluates for `input`: a remote module by
/// its URI, anything else as a file path.
pub fn source_for_input(input: &str) -> (r: ModuleSource)
    ensures
        r.contents is None,
        is_remote_input(input@) ==> r.uri@ == input@,
        !is_remote_input(input@) ==> r.uri@ == "file://"@ + input@,
{
    let cs = str_to_chars(input);
    if starts_with_lit(cs.as_slice(), "http://") || starts_with_lit(cs.as_slice(), "https://")
        || starts_with_lit(cs.as_slice(), "pkl:") {
        ModuleSource::from_uri(input)
    } else {
        ModuleSource::from_file(input)
    }
}

} // verus!
