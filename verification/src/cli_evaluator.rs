//! The CLI evaluator: evaluates Pkl modules by running the `pkl` binary.
//! The library decides the arguments, when the evaluator refuses to work,
//! and what a finished process amounts to; spawning the process is left to
//! the caller.
use vstd::prelude::*;
use std::sync::Arc;
use std::sync::atomic::{AtomicBool, Ordering};
use crate::error::{PklError, PklErrorModel};
use crate::module_source::ModuleSource;
use crate::text::{str_to_chars, trim, trim_chars, chars_to_string, strings_view};
use crate::util::{default_pkl_path, occurs_ignoring_ascii_case};

verus! {

/// `String::from_utf8_lossy`: the bytes read as UTF-8, each invalid sequence
/// replaced by U+FFFD.
pub uninterp spec fn utf8_lossy(bytes: Seq<u8>) -> Seq<char>;

/// `String::from_utf8_lossy` on `bytes`, made into an owned string.
#[verifier::external_body]
fn lossy_string(bytes: &[u8]) -> (r: String)
    ensures
        r@ == utf8_lossy(bytes@),
{
    String::from_utf8_lossy(bytes).into_owned()
}

/// Evaluates Pkl modules by spawning the `pkl` CLI binary as a subprocess.
///
/// Communicates using Pkl's binary format (`--format pkl-binary`), which
/// preserves all type information (Duration, DataSize, Map, Set, etc.).
#[derive(Debug)]
pub struct CliEvaluator {
    pkl_path: String,
    closed: Arc<AtomicBool>,
}

/// The arguments for a binary evaluation of `source`.
pub open spec fn binary_args(source: ModuleSource) -> Seq<Seq<char>> {
    seq!["eval"@, "--format"@, "pkl-binary"@, target_arg(source)]
}

/// The arguments for evaluating `output.text` of `source` as JSON.
pub open spec fn text_args(source: ModuleSource) -> Seq<Seq<char>> {
    seq!["eval"@, "--format"@, "json"@, "-x"@, "output.text"@, target_arg(source)]
}

/// Inline text is piped through stdin (`-`); otherwise the URI is passed.
pub open spec fn target_arg(source: ModuleSource) -> Seq<char> {
    if source.contents is Some {
        "-"@
    } else {
        source.uri@
    }
}


fn target(source: &ModuleSource) -> (r: String)
    ensures
        r@ == target_arg(*source),
{
    if source.contents.is_some() {
        "-".to_string()
    } else {
        source.uri.clone()
    }
}

impl CliEvaluator {
    /// The path of the `pkl` binary this evaluator runs.
    pub closed spec fn spec_pkl_path(&self) -> Seq<char> {
        self.pkl_path@
    }

    /// Create a new CLI evaluator that will invoke `pkl` (found in PATH, else
    /// the bare name `pkl`).
    pub fn new() -> (r: CliEvaluator)
        ensures
            r.spec_pkl_path().len() > 0,
            r.spec_pkl_path() == "pkl"@ || occurs_ignoring_ascii_case(r.spec_pkl_path(), "pkl"@),
    {
        CliEvaluator { pkl_path: default_pkl_path(), closed: Arc::new(AtomicBool::new(false)) }
    }

    /// Create a new CLI evaluator with a custom path to the `pkl` binary.
    pub fn with_pkl_path(pkl_path: &str) -> (r: CliEvaluator)
        ensures
            r.spec_pkl_path() == pkl_path@,
    {
        CliEvaluator { pkl_path: pkl_path.to_string(), closed: Arc::new(AtomicBool::new(false)) }
    }

    /// The path of the `pkl` binary.
    pub fn pkl_path(&self) -> (r: &str)
        ensures
            r@ == self.spec_pkl_path(),
    {
        self.pkl_path.as_str()
    }

    /// Whether `close` was called. The flag is shared and may change at any
    /// time, so nothing is stated of what is read.
    pub fn is_closed(&self) -> bool {
        self.closed.load(Ordering::SeqCst)
    }

    /// Marks the evaluator closed: later evaluations fail.
    pub fn close(&self) {
        self.closed.store(true, Ordering::SeqCst);
    }

    /// Fails with `evaluator is closed` once the evaluator was closed.
    pub fn ensure_open(&self) -> (r: Result<(), PklError>)
        ensures
            r matches Err(e) ==> e@ == PklErrorModel::CliError("evaluator is closed"@),
    {
        let closed = self.is_closed();
        open_check(closed)
    }
}

/// `Ok` while open, the `evaluator is closed` error once closed.
pub fn open_check(closed: bool) -> (r: Result<(), PklError>)
    ensures
        closed ==> (r matches Err(e) && e@ == PklErrorModel::CliError("evaluator is closed"@)),
        !closed ==> r is Ok,
{
    if closed {
        Err(PklError::CliError("evaluator is closed".to_string()))
    } else {
        Ok(())
    }
}

/// The arguments of `pkl` for evaluating `source` in the binary format:
/// `eval --format pkl-binary`, then `-` for inline text or the module URI.
pub fn binary_eval_args(source: &ModuleSource) -> (r: Vec<String>)
    ensures
        strings_view(r@) == binary_args(*source),
{
    let mut v: Vec<String> = Vec::new();
    v.push("eval".to_string());
    v.push("--format".to_string());
    v.push("pkl-binary".to_string());
    v.push(target(source));
    assert(strings_view(v@) =~= binary_args(*source));
    v
}

/// The arguments of `pkl` for evaluating `output.text` of `source`:
/// `eval --format json -x output.text`, then `-` or the module URI.
pub fn text_eval_args(source: &ModuleSource) -> (r: Vec<String>)
    ensures
        strings_view(r@) == text_args(*source),
{
    let mut v: Vec<String> = Vec::new();
    v.push("eval".to_string());
    v.push("--format".to_string());
    v.push("json".to_string());
    v.push("-x".to_string());
    v.push("output.text".to_string());
    v.push(target(source));
    assert(strings_view(v@) =~= text_args(*source));
    v
}

/// The error for a `pkl` process that exited unsuccessfully: its exit
/// status as printed, and its trimmed standard error.
pub fn exit_error(status: &str, stderr: &[u8]) -> (r: PklError)
    ensures
        r@ == PklErrorModel::EvalError("pkl exited with "@ + status@ + ": "@ + trim(utf8_lossy(stderr@))),
{
    let text = lossy_string(stderr);
    let cs = str_to_chars(text.as_str());
    let t = trim_chars(cs.as_slice());
    let mut msg = "pkl exited with ".to_string();
    msg.append(status);
    msg.append(": ");
    let ts = chars_to_string(t.as_slice());
    msg.append(ts.as_str());
    PklError::EvalError(msg)
}

/// The text output of a successful `output.text` evaluation: standard
/// output read as UTF-8 and trimmed.
pub fn text_output(stdout: &[u8]) -> (r: String)
    ensures
        r@ == trim(utf8_lossy(stdout@)),
{
    let text = lossy_string(stdout);
    let cs = str_to_chars(text.as_str());
    let t = trim_chars(cs.as_slice());
    chars_to_string(t.as_slice())
}

} // verus!
