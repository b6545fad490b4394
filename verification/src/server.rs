//! The host side of the Pkl server protocol: the messages the host sends,
//! how it frames what the server writes, and how it answers the server's
//! requests. Running the process and the channels is left to the caller,
//! which hands these functions what it read and sends what they return.
use vstd::prelude::*;
use crate::error::{PklError, PklErrorModel};
use crate::module_source::ModuleSource;
use crate::msgapi::{
    opt_str, CreateEvaluator, EvaluateRequest, MessageKind, ModuleReaderSpec, ProjectOrDependency,
    ReadModuleRequest, ReadModuleResponse, ReadResourceRequest, ReadResourceResponse,
    ResourceReaderSpec, ServerMessage, CODE_EVALUATE_LOG, CODE_EVALUATE_READ_MODULE,
    CODE_EVALUATE_READ_RESOURCE, CODE_EVALUATE_RESPONSE, CODE_INIT_MODULE_READER_REQUEST,
    CODE_INIT_RESOURCE_READER_REQUEST, CODE_NEW_EVALUATOR_RESPONSE,
};
use crate::reader::{ModuleReader, ResourceReader};
use crate::text::{starts_with, str_to_chars, strings_view};
use crate::util::{default_pkl_path, occurs_ignoring_ascii_case};

verus! {

// ── Options ──

/// Options for creating an evaluator manager or a server evaluator.
pub struct EvaluatorOptions {
    /// Path to the `pkl` CLI binary (default: `"pkl"` as found on `PATH`).
    pub pkl_path: String,
    /// Custom resource readers for `read("scheme:...")`.
    pub resource_readers: Vec<Box<dyn ResourceReader>>,
    /// Custom module readers for `import "scheme:..."`.
    pub module_readers: Vec<Box<dyn ModuleReader>>,
}

impl Default for EvaluatorOptions {
    /// The `pkl` found on `PATH` and no custom reader.
    fn default() -> (r: EvaluatorOptions)
        ensures
            r.pkl_path@ == "pkl"@ || occurs_ignoring_ascii_case(r.pkl_path@, "pkl"@),
            r.resource_readers@.len() == 0,
            r.module_readers@.len() == 0,
    {
        EvaluatorOptions {
            pkl_path: default_pkl_path(),
            resource_readers: Vec::new(),
            module_readers: Vec::new(),
        }
    }
}

/// The descriptions of the custom resource readers that a `CreateEvaluator`
/// request carries, one per reader in order, from what each reader answers
/// (its scheme, whether its URIs are hierarchical, whether it globs).
pub fn resource_reader_specs(answers: &Vec<(String, bool, bool)>) -> (r: Vec<ResourceReaderSpec>)
    ensures
        r@.len() == answers@.len(),
        forall|k: int| 0 <= k < r@.len() ==> rr_view(#[trigger] r@[k]) == (answers@[k].0@, answers@[k].1, answers@[k].2),
{
    let mut v: Vec<ResourceReaderSpec> = Vec::new();
    let mut i: usize = 0;
    while i < answers.len()
        invariant
            i <= answers@.len(),
            v@.len() == i,
            forall|k: int| 0 <= k < i ==> rr_view(#[trigger] v@[k]) == (answers@[k].0@, answers@[k].1, answers@[k].2),
        decreases answers@.len() - i,
    {
        let a = &answers[i];
        v.push(ResourceReaderSpec { scheme: a.0.clone(), hasHierarchicalUris: a.1, isGlobbable: a.2 });
        i = i + 1;
    }
    v
}

/// The descriptions of the custom module readers that a `CreateEvaluator`
/// request carries, one per reader in order, from what each reader answers
/// (its scheme, whether its URIs are hierarchical, whether it globs,
/// whether it is local).
pub fn module_reader_specs(answers: &Vec<(String, bool, bool, bool)>) -> (r: Vec<ModuleReaderSpec>)
    ensures
        r@.len() == answers@.len(),
        forall|k: int| 0 <= k < r@.len() ==> mr_view(#[trigger] r@[k]) == (answers@[k].0@, answers@[k].1, answers@[k].2, answers@[k].3),
{
    let mut v: Vec<ModuleReaderSpec> = Vec::new();
    let mut i: usize = 0;
    while i < answers.len()
        invariant
            i <= answers@.len(),
            v@.len() == i,
            forall|k: int| 0 <= k < i ==> mr_view(#[trigger] v@[k]) == (answers@[k].0@, answers@[k].1, answers@[k].2, answers@[k].3),
        decreases answers@.len() - i,
    {
        let a = &answers[i];
        v.push(ModuleReaderSpec { scheme: a.0.clone(), hasHierarchicalUris: a.1, isGlobbable: a.2, isLocal: a.3 });
        i = i + 1;
    }
    v
}

// ── Framing what the server writes ──

/// What `rmpv::decode::read_value` makes of the start of a buffer: `None`
/// where it fails; otherwise how many bytes the value took and, where the
/// value is an array, its length and its first element as an `i64` (where
/// that element is an integer that fits).
pub uninterp spec fn msgpack_head(data: Seq<u8>) -> Option<(usize, Option<(usize, Option<i64>)>)>;

/// `rmpv::decode::read_value` on a cursor over `buf`. The value read takes
/// at least its marker byte and no more than the buffer.
#[verifier::external_body]
fn read_msgpack_head(buf: &[u8]) -> (r: Option<(usize, Option<(usize, Option<i64>)>)>)
    ensures
        r == msgpack_head(buf@),
        r matches Some((n, _)) ==> 1 <= n <= buf@.len(),
{
    let mut cursor = std::io::Cursor::new(buf);
    match rmpv::decode::read_value(&mut cursor) {
        Ok(val) => {
            let consumed = cursor.position() as usize;
            let head = match val.as_array() {
                Some(arr) => Some((arr.len(), match arr.first() {
                    Some(first) => first.as_i64(),
                    None => None,
                })),
                None => None,
            };
            Some((consumed, head))
        },
        Err(_) => None,
    }
}

/// Where the body of a `[code, body]` message starts, read from the array
/// header and the code's marker; `None` for a header this host does not read.
pub open spec fn frame_body_start(b: Seq<u8>) -> Option<int> {
    if b.len() == 0 {
        None
    } else {
        let m = b[0];
        let p: int = if m == 0x92 || (0x90 <= m && m <= 0x9f) {
            1
        } else if m == 0xdc {
            3
        } else if m == 0xdd {
            5
        } else {
            0
        };
        if p == 0 || p >= b.len() {
            None
        } else {
            let c = b[p];
            if c <= 0x7f {
                Some(p + 1)
            } else if c == 0xd0 {
                Some(p + 2)
            } else if c == 0xd1 {
                Some(p + 3)
            } else if c == 0xd2 {
                Some(p + 5)
            } else if c == 0xd3 {
                Some(p + 9)
            } else {
                None
            }
        }
    }
}

/// A complete message at the start of a buffer whose first value took
/// `consumed` bytes and began as `head` describes: the bytes to drop, the
/// code and the body.
pub open spec fn spec_split_frame(b: Seq<u8>, consumed: int, head: Option<(usize, Option<i64>)>) -> Option<(int, i64, Seq<u8>)> {
    match head {
        Some((n, first)) => {
            if n < 2 {
                None
            } else {
                match (first, frame_body_start(b)) {
                    (Some(code), Some(p)) => Some((consumed, code, b.subrange(p, consumed))),
                    _ => None,
                }
            }
        },
        None => None,
    }
}

/// What `try_decode_message` gives for a buffer.
pub open spec fn spec_try_decode(b: Seq<u8>) -> Option<(int, i64, Seq<u8>)> {
    match msgpack_head(b) {
        None => None,
        Some((n, head)) => {
            if n > b.len() || (frame_body_start(b) matches Some(p) && p > n) {
                None
            } else {
                spec_split_frame(b, n as int, head)
            }
        },
    }
}

fn copy_range(b: &[u8], from: usize, to: usize) -> (r: Vec<u8>)
    requires
        from <= to <= b@.len(),
    ensures
        r@ == b@.subrange(from as int, to as int),
{
    let mut v: Vec<u8> = Vec::new();
    let mut i = from;
    while i < to
        invariant
            from <= i <= to <= b@.len(),
            v@ == b@.subrange(from as int, i as int),
        decreases to - i,
    {
        v.push(b[i]);
        i = i + 1;
    }
    v
}

fn body_start(buf: &[u8]) -> (r: Option<usize>)
    ensures
        match frame_body_start(buf@) {
            Some(p) => r == Some(p as usize) && p <= buf@.len() + 8,
            None => r is None,
        },
{
    if buf.len() == 0 {
        return None;
    }
    let m = buf[0];
    let p: usize = if m == 0x92 || (0x90 <= m && m <= 0x9f) {
        1
    } else if m == 0xdc {
        3
    } else if m == 0xdd {
        5
    } else {
        return None;
    };
    if p >= buf.len() {
        return None;
    }
    let c = buf[p];
    if c <= 0x7f {
        Some(p + 1)
    } else if c == 0xd0 {
        Some(p + 2)
    } else if c == 0xd1 {
        Some(p + 3)
    } else if c == 0xd2 {
        Some(p + 5)
    } else if c == 0xd3 {
        Some(p + 9)
    } else {
        None
    }
}

/// Splits a complete `[code, body]` message off the start of `buf`, given
/// how many bytes its first MessagePack value took and how that value began:
/// the bytes to drop, the code and the raw body. `None` where the value is
/// not an array of at least two elements that starts with an integer code,
/// or where the header is one this host does not read.
pub fn split_message_frame(buf: &[u8], consumed: usize, head: Option<(usize, Option<i64>)>) -> (r: Option<(usize, i64, Vec<u8>)>)
    requires
        consumed <= buf@.len(),
        frame_body_start(buf@) matches Some(p) ==> p <= consumed,
    ensures
        match spec_split_frame(buf@, consumed as int, head) {
            None => r is None,
            Some((c, code, body)) => r matches Some((rc, rcode, rbody)) && rc == c && rcode == code
                && rbody@ == body,
        },
{
    let (n, first) = match head {
        Some(h) => h,
        None => return None,
    };
    if n < 2 {
        return None;
    }
    let code = match first {
        Some(c) => c,
        None => return None,
    };
    let pos = match body_start(buf) {
        Some(p) => p,
        None => return None,
    };
    let body = copy_range(buf, pos, consumed);
    Some((consumed, code, body))
}

/// Reads one complete message from the start of `buf`: the number of bytes
/// it took, its code and its raw body; `None` while no complete message is
/// there (or the bytes are not one this host reads).
pub fn try_decode_message(buf: &[u8]) -> (r: Option<(usize, i64, Vec<u8>)>)
    ensures
        match spec_try_decode(buf@) {
            None => r is None,
            Some((c, code, body)) => r matches Some((rc, rcode, rbody)) && rc == c && rcode == code
                && rbody@ == body,
        },
{
    let (consumed, head) = match read_msgpack_head(buf) {
        Some(x) => x,
        None => return None,
    };
    match body_start(buf) {
        Some(p) => {
            if p > consumed {
                return None;
            }
        },
        None => {},
    }
    split_message_frame(buf, consumed, head)
}

// ── What the host does with a server message ──

/// The server messages the host acts on, by code.
#[derive(Debug, PartialEq, Eq, Clone, Copy)]
pub enum IncomingKind {
    CreateEvaluatorResponse,
    EvaluateResponse,
    Log,
    ReadResource,
    ReadModule,
    InitModuleReader,
    InitResourceReader,
}

pub open spec fn spec_incoming_kind(code: int) -> Option<IncomingKind> {
    if code == CODE_NEW_EVALUATOR_RESPONSE {
        Some(IncomingKind::CreateEvaluatorResponse)
    } else if code == CODE_EVALUATE_RESPONSE {
        Some(IncomingKind::EvaluateResponse)
    } else if code == CODE_EVALUATE_LOG {
        Some(IncomingKind::Log)
    } else if code == CODE_EVALUATE_READ_RESOURCE {
        Some(IncomingKind::ReadResource)
    } else if code == CODE_EVALUATE_READ_MODULE {
        Some(IncomingKind::ReadModule)
    } else if code == CODE_INIT_MODULE_READER_REQUEST {
        Some(IncomingKind::InitModuleReader)
    } else if code == CODE_INIT_RESOURCE_READER_REQUEST {
        Some(IncomingKind::InitResourceReader)
    } else {
        None
    }
}

/// How the host handles a message with this code; `None` for a code it
/// ignores.
pub fn incoming_kind(code: i64) -> (r: Option<IncomingKind>)
    ensures
        r == spec_incoming_kind(code as int),
{
    if code == CODE_NEW_EVALUATOR_RESPONSE {
        Some(IncomingKind::CreateEvaluatorResponse)
    } else if code == CODE_EVALUATE_RESPONSE {
        Some(IncomingKind::EvaluateResponse)
    } else if code == CODE_EVALUATE_LOG {
        Some(IncomingKind::Log)
    } else if code == CODE_EVALUATE_READ_RESOURCE {
        Some(IncomingKind::ReadResource)
    } else if code == CODE_EVALUATE_READ_MODULE {
        Some(IncomingKind::ReadModule)
    } else if code == CODE_INIT_MODULE_READER_REQUEST {
        Some(IncomingKind::InitModuleReader)
    } else if code == CODE_INIT_RESOURCE_READER_REQUEST {
        Some(IncomingKind::InitResourceReader)
    } else {
        None
    }
}

// ── Readers ──

/// `uri` is handled by a reader of `scheme`: it starts with `scheme:`.
pub open spec fn handles(scheme: Seq<char>, uri: Seq<char>) -> bool {
    starts_with(uri, scheme + seq![':'])
}

/// The first reader, by the list of their schemes, that handles `uri`.
pub open spec fn first_reader(schemes: Seq<Seq<char>>, uri: Seq<char>) -> Option<int> {
    if exists|i: int| 0 <= i < schemes.len() && handles(#[trigger] schemes[i], uri) {
        Some(choose|i: int| 0 <= i < schemes.len() && handles(#[trigger] schemes[i], uri) && forall|j: int| 0 <= j < i ==> !handles(#[trigger] schemes[j], uri))
    } else {
        None
    }
}


/// A read request goes to the first reader whose scheme prefixes the URI
/// with a colon: that reader handles the URI and no earlier one does; and
/// where none is picked, no reader handles it.
pub proof fn lemma_first_reader(schemes: Seq<Seq<char>>, uri: Seq<char>)
    ensures
        first_reader(schemes, uri) matches Some(i) ==> 0 <= i < schemes.len() && handles(schemes[i], uri)
            && forall|j: int| 0 <= j < i ==> !handles(#[trigger] schemes[j], uri),
        first_reader(schemes, uri) is None ==> forall|j: int| 0 <= j < schemes.len() ==> !handles(#[trigger] schemes[j], uri),
{
    if exists|i: int| 0 <= i < schemes.len() && handles(#[trigger] schemes[i], uri) {
        let w = choose|i: int| 0 <= i < schemes.len() && handles(#[trigger] schemes[i], uri);
        lemma_least_handler(schemes, uri, w);
    }
}

proof fn lemma_least_handler(schemes: Seq<Seq<char>>, uri: Seq<char>, w: int)
    requires
        0 <= w < schemes.len(),
        handles(schemes[w], uri),
    ensures
        exists|i: int| 0 <= i < schemes.len() && handles(#[trigger] schemes[i], uri) && forall|j: int| 0 <= j < i ==> !handles(#[trigger] schemes[j], uri),
    decreases w,
{
    if exists|j: int| 0 <= j < w && handles(#[trigger] schemes[j], uri) {
        let j = choose|j: int| 0 <= j < w && handles(#[trigger] schemes[j], uri);
        lemma_least_handler(schemes, uri, j);
    } else {
        assert(handles(schemes[w], uri) && forall|j: int| 0 <= j < w ==> !handles(#[trigger] schemes[j], uri));
    }
}

fn scheme_matches(scheme: &str, uri: &[char]) -> (r: bool)
    ensures
        r == handles(scheme@, uri@),
{
    let mut p = str_to_chars(scheme);
    p.push(':');
    let n = p.len();
    if n > uri.len() {
        return false;
    }
    let mut i: usize = 0;
    while i < n
        invariant
            n == p@.len(),
            n <= uri@.len(),
            p@ == scheme@ + seq![':'],
            i <= n,
            forall|k: int| 0 <= k < i ==> uri@[k] == p@[k],
        decreases n - i,
    {
        if uri[i] != p[i] {
            assert(uri@.take(n as int)[i as int] != p@[i as int]);
            return false;
        }
        i = i + 1;
    }
    assert(uri@.take(n as int) =~= p@);
    true
}

/// The index of the first reader whose scheme handles `uri`, as the host
/// picks the reader that answers a read request.
pub fn find_reader(schemes: &Vec<String>, uri: &str) -> (r: Option<usize>)
    ensures
        match r {
            Some(i) => first_reader(strings_view(schemes@), uri@) == Some(i as int),
            None => first_reader(strings_view(schemes@), uri@) is None,
        },
{
    let u = str_to_chars(uri);
    let ghost sv = strings_view(schemes@);
    let mut i: usize = 0;
    while i < schemes.len()
        invariant
            i <= schemes@.len(),
            sv == strings_view(schemes@),
            u@ == uri@,
            forall|j: int| 0 <= j < i ==> !handles(#[trigger] sv[j], uri@),
        decreases schemes@.len() - i,
    {
        if scheme_matches(schemes[i].as_str(), u.as_slice()) {
            assert(handles(sv[i as int], uri@));
            let ghost c = choose|k: int| 0 <= k < sv.len() && handles(#[trigger] sv[k], uri@) && forall|j: int| 0 <= j < k ==> !handles(#[trigger] sv[j], uri@);
            assert(c == i) by {
                if c < i {
                    assert(!handles(sv[c], uri@));
                }
                if c > i {
                    assert(!handles(sv[i as int], uri@));
                }
            }
            return Some(i);
        }
        i = i + 1;
    }
    None
}

/// The answer to a resource read request: the contents the chosen reader
/// read, or its error; with no reader for the URI, `No resource reader for`
/// and the URI.
pub fn resource_response(req: &ReadResourceRequest, read: Option<Result<Vec<u8>, String>>) -> (r: ReadResourceResponse)
    ensures
        r.requestId == req.requestId,
        r.evaluatorId == req.evaluatorId,
        match read {
            Some(Ok(b)) => r.contents == Some(b) && r.error is None,
            Some(Err(e)) => r.contents is None && opt_str(r.error) == Some(e@),
            None => r.contents is None && opt_str(r.error) == Some("No resource reader for "@ + req.uri@),
        },
{
    let (contents, error) = match read {
        Some(Ok(b)) => (Some(b), None),
        Some(Err(e)) => (None, Some(e)),
        None => {
            let mut msg = "No resource reader for ".to_string();
            msg.append(req.uri.as_str());
            (None, Some(msg))
        },
    };
    ReadResourceResponse { requestId: req.requestId, evaluatorId: req.evaluatorId, contents, error }
}

/// The answer to a module read request: the text the chosen reader read, or
/// its error; with no reader for the URI, neither.
pub fn module_response(req: &ReadModuleRequest, read: Option<Result<String, String>>) -> (r: ReadModuleResponse)
    ensures
        r.requestId == req.requestId,
        r.evaluatorId == req.evaluatorId,
        match read {
            Some(Ok(s)) => opt_str(r.contents) == Some(s@) && r.error is None,
            Some(Err(e)) => r.contents is None && opt_str(r.error) == Some(e@),
            None => r.contents is None && r.error is None,
        },
{
    let (contents, error) = match read {
        Some(Ok(s)) => (Some(s), None),
        Some(Err(e)) => (None, Some(e)),
        None => (None, None),
    };
    ReadModuleResponse { requestId: req.requestId, evaluatorId: req.evaluatorId, contents, error }
}

// ── Creating evaluators and evaluating ──

/// The view of a resource reader's description: scheme, hierarchical URIs,
/// globbable.
pub open spec fn rr_view(s: ResourceReaderSpec) -> (Seq<char>, bool, bool) {
    (s.scheme@, s.hasHierarchicalUris, s.isGlobbable)
}

/// The view of a module reader's description: scheme, hierarchical URIs,
/// globbable, local.
pub open spec fn mr_view(s: ModuleReaderSpec) -> (Seq<char>, bool, bool, bool) {
    (s.scheme@, s.hasHierarchicalUris, s.isGlobbable, s.isLocal)
}

pub open spec fn rr_views(v: Seq<ResourceReaderSpec>) -> Seq<(Seq<char>, bool, bool)> {
    Seq::new(v.len(), |i: int| rr_view(v[i]))
}

pub open spec fn mr_views(v: Seq<ModuleReaderSpec>) -> Seq<(Seq<char>, bool, bool, bool)> {
    Seq::new(v.len(), |i: int| mr_view(v[i]))
}

/// The module URI schemes every evaluator may import from.
pub open spec fn default_allowed_modules() -> Seq<Seq<char>> {
    seq!["file:"@, "https:"@, "repl:"@, "modulepath:"@, "pkl:"@]
}

/// The resource URI schemes every evaluator may read from.
pub open spec fn default_allowed_resources() -> Seq<Seq<char>> {
    seq!["file:"@, "https:"@, "env:"@, "prop:"@, "modulepath:"@]
}

/// The schemes of the given readers, each followed by `:`.
pub open spec fn scheme_prefixes(schemes: Seq<Seq<char>>) -> Seq<Seq<char>> {
    Seq::new(schemes.len(), |i: int| schemes[i] + seq![':'])
}

fn prefix_of(scheme: &String) -> (r: String)
    ensures
        r@ == scheme@ + seq![':'],
{
    let mut s = scheme.clone();
    s.append(":");
    proof {
        reveal_strlit(":");
    }
    s
}

fn clone_resource_spec(s: &ResourceReaderSpec) -> (r: ResourceReaderSpec)
    ensures
        rr_view(r) == rr_view(*s),
{
    ResourceReaderSpec { scheme: s.scheme.clone(), hasHierarchicalUris: s.hasHierarchicalUris, isGlobbable: s.isGlobbable }
}

fn clone_module_spec(s: &ModuleReaderSpec) -> (r: ModuleReaderSpec)
    ensures
        mr_view(r) == mr_view(*s),
{
    ModuleReaderSpec {
        scheme: s.scheme.clone(),
        hasHierarchicalUris: s.hasHierarchicalUris,
        isGlobbable: s.isGlobbable,
        isLocal: s.isLocal,
    }
}

/// The `CreateEvaluator` request for the given custom readers: the built-in
/// `repl:` readers first, then the custom ones; the default allowed schemes,
/// then each custom reader's scheme; binary output; and the project, if any.
pub fn create_evaluator_message(
    request_id: i64,
    resource_readers: &Vec<ResourceReaderSpec>,
    module_readers: &Vec<ModuleReaderSpec>,
    project: Option<ProjectOrDependency>,
) -> (r: CreateEvaluator)
    ensures
        r.requestId == request_id,
        r.clientResourceReaders matches Some(v) && rr_views(v@) == seq![("repl"@, false, false)]
            + rr_views(resource_readers@),
        r.clientModuleReaders matches Some(v) && mr_views(v@) == seq![("repl"@, false, false, true)]
            + mr_views(module_readers@),
        r.allowedModules matches Some(v) && strings_view(v@) == default_allowed_modules()
            + scheme_prefixes(Seq::new(module_readers@.len(), |i: int| module_readers@[i].scheme@)),
        r.allowedResources matches Some(v) && strings_view(v@) == default_allowed_resources()
            + scheme_prefixes(Seq::new(resource_readers@.len(), |i: int| resource_readers@[i].scheme@)),
        opt_str(r.outputFormat) == Some("pkl-binary"@),
        r.project == project,
{
    let mut rr: Vec<ResourceReaderSpec> = Vec::new();
    rr.push(ResourceReaderSpec { scheme: "repl".to_string(), hasHierarchicalUris: false, isGlobbable: false });
    let mut mr: Vec<ModuleReaderSpec> = Vec::new();
    mr.push(ModuleReaderSpec { scheme: "repl".to_string(), hasHierarchicalUris: false, isGlobbable: false, isLocal: true });
    let mut am: Vec<String> = Vec::new();
    am.push("file:".to_string());
    am.push("https:".to_string());
    am.push("repl:".to_string());
    am.push("modulepath:".to_string());
    am.push("pkl:".to_string());
    let mut ar: Vec<String> = Vec::new();
    ar.push("file:".to_string());
    ar.push("https:".to_string());
    ar.push("env:".to_string());
    ar.push("prop:".to_string());
    ar.push("modulepath:".to_string());
    let ghost rs = Seq::new(resource_readers@.len(), |i: int| resource_readers@[i].scheme@);
    let ghost ms = Seq::new(module_readers@.len(), |i: int| module_readers@[i].scheme@);
    assert(strings_view(ar@) =~= default_allowed_resources());
    assert(strings_view(am@) =~= default_allowed_modules());
    let mut i: usize = 0;
    while i < resource_readers.len()
        invariant
            i <= resource_readers@.len(),
            rs == Seq::new(resource_readers@.len(), |i: int| resource_readers@[i].scheme@),
            rr_views(rr@) == seq![("repl"@, false, false)] + rr_views(resource_readers@.take(i as int)),
            strings_view(ar@) == default_allowed_resources() + scheme_prefixes(rs.take(i as int)),
        decreases resource_readers@.len() - i,
    {
        let s = &resource_readers[i];
        let ghost old_rr = rr@;
        let ghost old_ar = ar@;
        rr.push(clone_resource_spec(s));
        ar.push(prefix_of(&s.scheme));
        assert(rr_views(rr@) =~= rr_views(old_rr).push(rr_view(*s)));
        assert(strings_view(ar@) =~= strings_view(old_ar).push(s.scheme@ + seq![':']));
        assert(rr_views(resource_readers@.take(i + 1)) =~= rr_views(resource_readers@.take(i as int)).push(rr_view(*s)));
        assert(scheme_prefixes(rs.take(i + 1)) =~= scheme_prefixes(rs.take(i as int)).push(s.scheme@ + seq![':']));
        assert(rr_views(rr@) =~= seq![("repl"@, false, false)] + rr_views(resource_readers@.take(i + 1)));
        assert(strings_view(ar@) =~= default_allowed_resources() + scheme_prefixes(rs.take(i + 1)));
        i = i + 1;
    }
    let mut j: usize = 0;
    while j < module_readers.len()
        invariant
            j <= module_readers@.len(),
            ms == Seq::new(module_readers@.len(), |i: int| module_readers@[i].scheme@),
            mr_views(mr@) == seq![("repl"@, false, false, true)] + mr_views(module_readers@.take(j as int)),
            strings_view(am@) == default_allowed_modules() + scheme_prefixes(ms.take(j as int)),
        decreases module_readers@.len() - j,
    {
        let s = &module_readers[j];
        let ghost old_mr = mr@;
        let ghost old_am = am@;
        mr.push(clone_module_spec(s));
        am.push(prefix_of(&s.scheme));
        assert(mr_views(mr@) =~= mr_views(old_mr).push(mr_view(*s)));
        assert(strings_view(am@) =~= strings_view(old_am).push(s.scheme@ + seq![':']));
        assert(mr_views(module_readers@.take(j + 1)) =~= mr_views(module_readers@.take(j as int)).push(mr_view(*s)));
        assert(scheme_prefixes(ms.take(j + 1)) =~= scheme_prefixes(ms.take(j as int)).push(s.scheme@ + seq![':']));
        assert(mr_views(mr@) =~= seq![("repl"@, false, false, true)] + mr_views(module_readers@.take(j + 1)));
        assert(strings_view(am@) =~= default_allowed_modules() + scheme_prefixes(ms.take(j + 1)));
        j = j + 1;
    }
    assert(resource_readers@.take(i as int) =~= resource_readers@);
    assert(module_readers@.take(j as int) =~= module_readers@);
    assert(rs.take(i as int) =~= rs);
    assert(ms.take(j as int) =~= ms);
    CreateEvaluator {
        requestId: request_id,
        clientResourceReaders: Some(rr),
        clientModuleReaders: Some(mr),
        allowedModules: Some(am),
        allowedResources: Some(ar),
        outputFormat: Some("pkl-binary".to_string()),
        project,
    }
}

/// The evaluator id the server assigned, from its answer to a
/// `CreateEvaluator` request: the server's error as an evaluation error, or
/// a decode error for any other message.
pub fn evaluator_created(resp: ServerMessage) -> (r: Result<i64, PklError>)
    ensures
        match resp {
            ServerMessage::EvaluatorCreated(cr) => if cr.error@.len() == 0 {
                r == Ok::<i64, PklError>(cr.evaluatorId)
            } else {
                r matches Err(e) && e@ == PklErrorModel::EvalError(cr.error@)
            },
            _ => r matches Err(e) && e@ == PklErrorModel::DecodeError("expected EvaluatorCreated"@),
        },
{
    match resp {
        ServerMessage::EvaluatorCreated(cr) => {
            if cr.error.unicode_len() != 0 {
                Err(PklError::EvalError(cr.error))
            } else {
                Ok(cr.evaluatorId)
            }
        },
        _ => Err(PklError::DecodeError("expected EvaluatorCreated".to_string())),
    }
}

/// The result bytes of an evaluation, from the server's answer to an
/// `Evaluate` request: the server's error as an evaluation error, or a
/// decode error for any other message.
pub fn evaluation_result(resp: ServerMessage) -> (r: Result<Vec<u8>, PklError>)
    ensures
        match resp {
            ServerMessage::EvaluateDone(er) => if er.error@.len() == 0 {
                r matches Ok(b) && b@ == er.result@
            } else {
                r matches Err(e) && e@ == PklErrorModel::EvalError(er.error@)
            },
            _ => r matches Err(e) && e@ == PklErrorModel::DecodeError("expected EvaluateDone"@),
        },
{
    match resp {
        ServerMessage::EvaluateDone(er) => {
            if er.error.unicode_len() != 0 {
                Err(PklError::EvalError(er.error))
            } else {
                Ok(er.result)
            }
        },
        _ => Err(PklError::DecodeError("expected EvaluateDone".to_string())),
    }
}

/// The `Evaluate` request for `source` on evaluator `evaluator_id`: its URI,
/// its inline text if any, and the expression to evaluate if any.
pub fn evaluate_message(request_id: i64, evaluator_id: i64, source: &ModuleSource, expr: Option<String>) -> (r: EvaluateRequest)
    ensures
        r.requestId == request_id,
        r.evaluatorId == evaluator_id,
        r.moduleUri@ == source.uri@,
        opt_str(r.moduleText) == opt_str(source.contents),
        r.expr == expr,
{
    let text = match &source.contents {
        Some(t) => Some(t.clone()),
        None => None,
    };
    EvaluateRequest {
        requestId: request_id,
        evaluatorId: evaluator_id,
        moduleUri: source.uri.clone(),
        moduleText: text,
        expr,
    }
}

/// Fails with `manager is closed` once the manager was closed.
pub fn manager_open_check(closed: bool) -> (r: Result<(), PklError>)
    ensures
        closed ==> (r matches Err(e) && e@ == PklErrorModel::CliError("manager is closed"@)),
        !closed ==> r is Ok,
{
    if closed {
        Err(PklError::CliError("manager is closed".to_string()))
    } else {
        Ok(())
    }
}

/// Fails with `evaluator closed` once the evaluator was closed.
pub fn evaluator_open_check(closed: bool) -> (r: Result<(), PklError>)
    ensures
        closed ==> (r matches Err(e) && e@ == PklErrorModel::CliError("evaluator closed"@)),
        !closed ==> r is Ok,
{
    if closed {
        Err(PklError::CliError("evaluator closed".to_string()))
    } else {
        Ok(())
    }
}

} // verus!
