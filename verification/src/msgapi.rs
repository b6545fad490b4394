//! Message types of the Pkl server protocol, and the framing of incoming
//! messages. Every message is a MessagePack array `[code, body]`.
use vstd::prelude::*;
use crate::error::{PklError, PklErrorModel};
use crate::format::{hex_min2, spec_decimal, spec_hex_min2, decimal};
use crate::ordered::{entries_insert, key_order, lemma_entries_insert, lemma_lower_bound, lower_bound, sorted_keys, key_lt, lemma_key_lt_total};
pub use crate::text::opt_str;
use crate::text::str_to_chars;

verus! {

// ── Protocol codes ──

pub const CODE_NEW_EVALUATOR: i64 = 0x20;
pub const CODE_NEW_EVALUATOR_RESPONSE: i64 = 0x21;
pub const CODE_CLOSE_EVALUATOR: i64 = 0x22;
pub const CODE_EVALUATE: i64 = 0x23;
pub const CODE_EVALUATE_RESPONSE: i64 = 0x24;
pub const CODE_EVALUATE_LOG: i64 = 0x25;
pub const CODE_EVALUATE_READ_RESOURCE: i64 = 0x26;
pub const CODE_EVALUATE_READ_RESOURCE_RESPONSE: i64 = 0x27;
pub const CODE_EVALUATE_READ_MODULE: i64 = 0x28;
pub const CODE_EVALUATE_READ_MODULE_RESPONSE: i64 = 0x29;
pub const CODE_LIST_RESOURCES_REQUEST: i64 = 0x2a;
pub const CODE_LIST_RESOURCES_RESPONSE: i64 = 0x2b;
pub const CODE_LIST_MODULES_REQUEST: i64 = 0x2c;
pub const CODE_LIST_MODULES_RESPONSE: i64 = 0x2d;
pub const CODE_INIT_MODULE_READER_REQUEST: i64 = 0x2e;
pub const CODE_INIT_MODULE_READER_RESPONSE: i64 = 0x2f;
pub const CODE_INIT_RESOURCE_READER_REQUEST: i64 = 0x30;
pub const CODE_INIT_RESOURCE_READER_RESPONSE: i64 = 0x31;
pub const CODE_CLOSE_EXTERNAL_PROCESS: i64 = 0x32;

// ── Project/Dependency types ──

/// A project or one of its dependencies, as the `CreateEvaluator` request
/// carries it. `kind` is the protocol's `type` field.
#[allow(non_snake_case)]
#[derive(Debug)]
pub struct ProjectOrDependency {
    pub packageUri: Option<String>,
    pub kind: String,
    pub projectFileUri: Option<String>,
    pub checksums: Option<Checksums>,
    pub dependencies: DependencyMap,
}

#[derive(Debug)]
pub struct Checksums {
    pub sha256: String,
}

/// Dependencies by name, kept sorted by name, one entry per name.
#[derive(Debug)]
pub struct DependencyMap {
    entries: Vec<(String, ProjectOrDependency)>,
}

/// The model of a project or dependency message.
pub struct DepMsgModel {
    pub package_uri: Option<Seq<char>>,
    pub kind: Seq<char>,
    pub project_file_uri: Option<Seq<char>>,
    pub checksum: Option<Seq<char>>,
    pub dependencies: Seq<(Seq<char>, DepMsgModel)>,
}


pub open spec fn checksum_view(c: Option<Checksums>) -> Option<Seq<char>> {
    match c {
        Some(c) => Some(c.sha256@),
        None => None,
    }
}

/// The model of a project or dependency message.
pub closed spec fn msg_view(m: ProjectOrDependency) -> DepMsgModel
    decreases m,
{
    DepMsgModel {
        package_uri: opt_str(m.packageUri),
        kind: m.kind@,
        project_file_uri: opt_str(m.projectFileUri),
        checksum: checksum_view(m.checksums),
        dependencies: Seq::new(
            m.dependencies.entries@.len(),
            |i: int|
                if 0 <= i < m.dependencies.entries@.len() {
                    (m.dependencies.entries@[i].0@, msg_view(m.dependencies.entries@[i].1))
                } else {
                    (seq![], DepMsgModel { package_uri: None, kind: seq![], project_file_uri: None, checksum: None, dependencies: seq![] })
                },
        ),
    }
}

pub closed spec fn entries_model(es: Seq<(String, ProjectOrDependency)>) -> Seq<(Seq<char>, DepMsgModel)> {
    Seq::new(es.len(), |i: int| (es[i].0@, msg_view(es[i].1)))
}

pub proof fn lemma_msg_view(m: ProjectOrDependency)
    ensures
        msg_view(m) == (DepMsgModel {
            package_uri: opt_str(m.packageUri),
            kind: m.kind@,
            project_file_uri: opt_str(m.projectFileUri),
            checksum: checksum_view(m.checksums),
            dependencies: m.dependencies.view_entries(),
        }),
{
    assert(msg_view(m).dependencies =~= m.dependencies.view_entries());
}

impl DependencyMap {
    #[verifier::type_invariant]
    closed spec fn sorted(&self) -> bool {
        sorted_keys(entries_model(self.entries@))
    }

    /// The entries, in key order.
    pub closed spec fn view_entries(&self) -> Seq<(Seq<char>, DepMsgModel)> {
        entries_model(self.entries@)
    }

    /// An empty map.
    pub fn new() -> (r: DependencyMap)
        ensures
            r.view_entries() == Seq::<(Seq<char>, DepMsgModel)>::empty(),
    {
        let r = DependencyMap { entries: Vec::new() };
        assert(entries_model(r.entries@) =~= Seq::<(Seq<char>, DepMsgModel)>::empty());
        r
    }

    /// The number of entries.
    pub fn len(&self) -> (r: usize)
        ensures
            r == self.view_entries().len(),
    {
        self.entries.len()
    }

    /// Whether the map holds no entry.
    pub fn is_empty(&self) -> (r: bool)
        ensures
            r == (self.view_entries().len() == 0),
    {
        self.entries.len() == 0
    }

    /// The entries, in key order.
    pub fn entries(&self) -> (r: &Vec<(String, ProjectOrDependency)>)
        ensures
            entries_model(r@) == self.view_entries(),
            sorted_keys(self.view_entries()),
    {
        proof {
            use_type_invariant(self);
        }
        &self.entries
    }

    /// The entries, in key order, handed over.
    pub fn into_entries(self) -> (r: Vec<(String, ProjectOrDependency)>)
        ensures
            entries_model(r@) == self.view_entries(),
            sorted_keys(entries_model(r@)),
    {
        proof {
            use_type_invariant(&self);
        }
        self.entries
    }

    /// Inserts `value` under `key`, replacing the value already there.
    pub fn insert(&mut self, key: String, value: ProjectOrDependency)
        ensures
            final(self).view_entries() == entries_insert(old(self).view_entries(), key@, msg_view(value)),
    {
        proof {
            use_type_invariant(&*self);
        }
        let mut es: Vec<(String, ProjectOrDependency)> = Vec::new();
        std::mem::swap(&mut es, &mut self.entries);
        let ghost old_model = entries_model(es@);
        let kc = str_to_chars(key.as_str());
        proof {
            lemma_lower_bound(old_model, key@);
        }
        let mut j: usize = 0;
        while j < es.len() && key_order(&str_to_chars(es[j].0.as_str()), &kc) < 0
            invariant
                j <= es@.len(),
                old_model == entries_model(es@),
                kc@ == key@,
                sorted_keys(old_model),
                0 <= lower_bound(old_model, key@) <= old_model.len(),
                forall|i: int| 0 <= i < lower_bound(old_model, key@) ==> key_lt(#[trigger] old_model[i].0, key@),
                forall|i: int| lower_bound(old_model, key@) <= i < old_model.len() ==> !key_lt(#[trigger] old_model[i].0, key@),
                forall|i: int| 0 <= i < j ==> key_lt(#[trigger] old_model[i].0, key@),
            decreases es@.len() - j,
        {
            assert(old_model[j as int].0 == es@[j as int].0@);
            j = j + 1;
        }
        assert(j == lower_bound(old_model, key@)) by {
            if j < lower_bound(old_model, key@) {
                assert(key_lt(old_model[j as int].0, key@));
            }
            if j > lower_bound(old_model, key@) {
                let p = lower_bound(old_model, key@);
                assert(key_lt(old_model[p].0, key@));
            }
        }
        let ghost item = (key@, msg_view(value));
        let same = j < es.len() && key_order(&str_to_chars(es[j].0.as_str()), &kc) == 0;
        if same {
            es.set(j, (key, value));
            assert(entries_model(es@) =~= old_model.update(j as int, item));
        } else {
            es.insert(j, (key, value));
            assert(entries_model(es@) =~= old_model.insert(j as int, item));
        }
        proof {
            lemma_entries_insert(old_model, item.0, item.1);
            assert(entries_model(es@) == entries_insert(old_model, item.0, item.1));
        }
        self.entries = es;
    }
}

// ── Outgoing messages (host → server) ──

#[allow(non_snake_case)]
#[derive(Debug)]
pub struct CreateEvaluator {
    pub requestId: i64,
    pub clientResourceReaders: Option<Vec<ResourceReaderSpec>>,
    pub clientModuleReaders: Option<Vec<ModuleReaderSpec>>,
    pub allowedModules: Option<Vec<String>>,
    pub allowedResources: Option<Vec<String>>,
    pub outputFormat: Option<String>,
    pub project: Option<ProjectOrDependency>,
}

#[allow(non_snake_case)]
#[derive(Debug)]
pub struct ResourceReaderSpec {
    pub scheme: String,
    pub hasHierarchicalUris: bool,
    pub isGlobbable: bool,
}

#[allow(non_snake_case)]
#[derive(Debug)]
pub struct ModuleReaderSpec {
    pub scheme: String,
    pub hasHierarchicalUris: bool,
    pub isGlobbable: bool,
    pub isLocal: bool,
}

#[allow(non_snake_case)]
#[derive(Debug)]
pub struct EvaluateRequest {
    pub requestId: i64,
    pub evaluatorId: i64,
    pub moduleUri: String,
    pub moduleText: Option<String>,
    pub expr: Option<String>,
}

#[allow(non_snake_case)]
#[derive(Debug)]
pub struct ReadResourceResponse {
    pub requestId: i64,
    pub evaluatorId: i64,
    pub contents: Option<Vec<u8>>,
    pub error: Option<String>,
}

#[allow(non_snake_case)]
#[derive(Debug)]
pub struct ReadModuleResponse {
    pub requestId: i64,
    pub evaluatorId: i64,
    pub contents: Option<String>,
    pub error: Option<String>,
}

// ── Incoming messages (server → host) ──

#[allow(non_snake_case)]
#[derive(Debug)]
pub struct CreateEvaluatorResponse {
    pub requestId: i64,
    pub evaluatorId: i64,
    pub error: String,
}

#[allow(non_snake_case)]
#[derive(Debug)]
pub struct EvaluateResponse {
    pub requestId: i64,
    pub evaluatorId: i64,
    pub result: Vec<u8>,
    pub error: String,
}

#[allow(non_snake_case)]
#[derive(Debug)]
pub struct LogMessage {
    pub evaluatorId: i64,
    pub level: i64,
    pub message: String,
    pub frameUri: String,
}

#[allow(non_snake_case)]
#[derive(Debug)]
pub struct ReadResourceRequest {
    pub requestId: i64,
    pub evaluatorId: i64,
    pub uri: String,
}

#[allow(non_snake_case)]
#[derive(Debug)]
pub struct ReadModuleRequest {
    pub requestId: i64,
    pub evaluatorId: i64,
    pub uri: String,
}

#[allow(non_snake_case)]
#[derive(Debug)]
pub struct InitializeModuleReaderRequest {
    pub requestId: i64,
    pub scheme: String,
}

#[allow(non_snake_case)]
#[derive(Debug)]
pub struct InitializeModuleReaderResponse {
    pub requestId: i64,
    pub spec: Option<ModuleReaderSpec>,
}

#[allow(non_snake_case)]
#[derive(Debug)]
pub struct InitializeResourceReaderRequest {
    pub requestId: i64,
    pub scheme: String,
}

#[allow(non_snake_case)]
#[derive(Debug)]
pub struct InitializeResourceReaderResponse {
    pub requestId: i64,
    pub spec: Option<ResourceReaderSpec>,
}

/// A fully decoded message from the server.
#[derive(Debug)]
pub enum ServerMessage {
    EvaluatorCreated(CreateEvaluatorResponse),
    EvaluateDone(EvaluateResponse),
    Log(LogMessage),
    ReadResource(ReadResourceRequest),
    ReadModule(ReadModuleRequest),
    CloseExternalProcess,
}

/// Which message a server code announces.
#[derive(Debug, PartialEq, Eq, Clone, Copy)]
pub enum MessageKind {
    EvaluatorCreated,
    EvaluateDone,
    Log,
    ReadResource,
    ReadModule,
    CloseExternalProcess,
}

// ── Decoding the message header ──

/// A byte read as a two's-complement `i8`.
pub open spec fn int8(b: u8) -> int {
    if b < 128 {
        b as int
    } else {
        b - 256
    }
}

/// Two bytes read as a big-endian two's-complement `i16`.
pub open spec fn int16(h: u8, l: u8) -> int {
    let u = h * 256 + l;
    if u < 0x8000 {
        u
    } else {
        u - 0x10000
    }
}

/// Four bytes read as a big-endian two's-complement `i32`.
pub open spec fn int32(b0: u8, b1: u8, b2: u8, b3: u8) -> int {
    let u = ((b0 * 256 + b1) * 256 + b2) * 256 + b3;
    if u < 0x8000_0000 {
        u
    } else {
        u - 0x1_0000_0000
    }
}

/// `{:02x}` of a signed code: negative values print as their 64-bit
/// two's complement.
pub open spec fn code_hex(code: int) -> Seq<char> {
    if code < 0 {
        spec_hex_min2((code + 0x1_0000_0000_0000_0000) as nat)
    } else {
        spec_hex_min2(code as nat)
    }
}

/// The code of a message and the offset of its body, or the message of the
/// decode error.
pub open spec fn spec_message_header(d: Seq<u8>) -> Result<(int, int), Seq<char>> {
    if d.len() < 2 {
        Err("message too short"@)
    } else {
        let m = d[0];
        let arr: Result<(int, int), Seq<char>> = if m == 0x92 {
            Ok((2, 1))
        } else if m == 0xdc {
            if d.len() < 3 {
                Err("truncated array16"@)
            } else {
                Ok((d[1] * 256 + d[2], 3))
            }
        } else if m == 0xdd {
            if d.len() < 5 {
                Err("truncated array32"@)
            } else {
                Ok((((d[1] * 256 + d[2]) * 256 + d[3]) * 256 + d[4], 5))
            }
        } else if 0x90 <= m <= 0x9f {
            Ok((m - 0x90, 1))
        } else {
            Err("expected array, got 0x"@ + spec_hex_min2(m as nat))
        };
        match arr {
            Err(e) => Err(e),
            Ok((n, pos)) => {
                if n < 2 {
                    Err("array too short: "@ + spec_decimal(n as nat))
                } else if pos >= d.len() {
                    Err("truncated code"@)
                } else {
                    let cm = d[pos];
                    if cm <= 0x7f {
                        Ok((cm as int, pos + 1))
                    } else if cm == 0xd0 {
                        if d.len() < pos + 2 {
                            Err("truncated int8"@)
                        } else {
                            Ok((int8(d[pos + 1]), pos + 2))
                        }
                    } else if cm == 0xd1 {
                        if d.len() < pos + 3 {
                            Err("truncated int16"@)
                        } else {
                            Ok((int16(d[pos + 1], d[pos + 2]), pos + 3))
                        }
                    } else if cm == 0xd2 {
                        if d.len() < pos + 5 {
                            Err("truncated int32"@)
                        } else {
                            Ok((int32(d[pos + 1], d[pos + 2], d[pos + 3], d[pos + 4]), pos + 5))
                        }
                    } else {
                        Err("unexpected code marker 0x"@ + spec_hex_min2(cm as nat))
                    }
                }
            },
        }
    }
}

/// The message kind a code announces.
pub open spec fn spec_message_kind(code: int) -> Option<MessageKind> {
    if code == CODE_NEW_EVALUATOR_RESPONSE {
        Some(MessageKind::EvaluatorCreated)
    } else if code == CODE_EVALUATE_RESPONSE {
        Some(MessageKind::EvaluateDone)
    } else if code == CODE_EVALUATE_LOG {
        Some(MessageKind::Log)
    } else if code == CODE_EVALUATE_READ_RESOURCE {
        Some(MessageKind::ReadResource)
    } else if code == CODE_EVALUATE_READ_MODULE {
        Some(MessageKind::ReadModule)
    } else if code == CODE_CLOSE_EXTERNAL_PROCESS {
        Some(MessageKind::CloseExternalProcess)
    } else {
        None
    }
}

fn decode_error(msg: &str) -> (r: PklError)
    ensures
        r@ == PklErrorModel::DecodeError(msg@),
{
    PklError::DecodeError(msg.to_string())
}

fn decode_error_with(msg: &str, tail: String) -> (r: PklError)
    ensures
        r@ == PklErrorModel::DecodeError(msg@ + tail@),
{
    let mut s = msg.to_string();
    s.append(tail.as_str());
    PklError::DecodeError(s)
}

fn hex_of_code(code: i64) -> (r: String)
    ensures
        r@ == code_hex(code as int),
{
    if code < 0 {
        let u: u64 = ((code + 1) + 0x7fff_ffff_ffff_ffff) as u64 + 0x8000_0000_0000_0000;
        assert(u == code + 0x1_0000_0000_0000_0000);
        hex_min2(u)
    } else {
        hex_min2(code as u64)
    }
}

/// Reads the `[code, ...]` header of a server message: the code and the
/// offset at which the body starts.
pub fn decode_message_header(data: &[u8]) -> (r: Result<(i64, usize), PklError>)
    ensures
        r matches Ok((c, p)) ==> spec_message_header(data@) == Ok::<(int, int), Seq<char>>((c as int, p as int)),
        r matches Err(e) ==> spec_message_header(data@) matches Err(m) && e@ == PklErrorModel::DecodeError(m),
{
    let total_len = data.len();
    if total_len < 2 {
        return Err(decode_error("message too short"));
    }
    let marker = data[0];
    let (array_len, pos): (u64, usize) = if marker == 0x92 {
        (2, 1)
    } else if marker == 0xdc {
        if total_len < 3 {
            return Err(decode_error("truncated array16"));
        }
        ((data[1] as u64) * 256 + data[2] as u64, 3)
    } else if marker == 0xdd {
        if total_len < 5 {
            return Err(decode_error("truncated array32"));
        }
        ((((data[1] as u64) * 256 + data[2] as u64) * 256 + data[3] as u64) * 256 + data[4] as u64, 5)
    } else if 0x90 <= marker && marker <= 0x9f {
        ((marker - 0x90) as u64, 1)
    } else {
        return Err(decode_error_with("expected array, got 0x", hex_min2(marker as u64)));
    };
    if array_len < 2 {
        return Err(decode_error_with("array too short: ", decimal(array_len)));
    }
    if pos >= total_len {
        return Err(decode_error("truncated code"));
    }
    let code_marker = data[pos];
    if code_marker <= 0x7f {
        Ok((code_marker as i64, pos + 1))
    } else if code_marker == 0xd0 {
        if total_len < pos + 2 {
            return Err(decode_error("truncated int8"));
        }
        let b = data[pos + 1];
        let v: i64 = if b < 128 {
            b as i64
        } else {
            b as i64 - 256
        };
        Ok((v, pos + 2))
    } else if code_marker == 0xd1 {
        if total_len < pos + 3 {
            return Err(decode_error("truncated int16"));
        }
        let u: i64 = data[pos + 1] as i64 * 256 + data[pos + 2] as i64;
        let v = if u < 0x8000 {
            u
        } else {
            u - 0x10000
        };
        Ok((v, pos + 3))
    } else if code_marker == 0xd2 {
        if total_len < pos + 5 {
            return Err(decode_error("truncated int32"));
        }
        let u: i64 = ((data[pos + 1] as i64 * 256 + data[pos + 2] as i64) * 256 + data[pos
            + 3] as i64) * 256 + data[pos + 4] as i64;
        let v = if u < 0x8000_0000 {
            u
        } else {
            u - 0x1_0000_0000
        };
        Ok((v, pos + 5))
    } else {
        Err(decode_error_with("unexpected code marker 0x", hex_min2(code_marker as u64)))
    }
}

/// The kind of message announced by `code`, or the `unknown code` error.
pub fn message_kind(code: i64) -> (r: Result<MessageKind, PklError>)
    ensures
        r matches Ok(k) ==> spec_message_kind(code as int) == Some(k),
        r matches Err(e) ==> spec_message_kind(code as int) is None && e@
            == PklErrorModel::DecodeError("unknown code: 0x"@ + code_hex(code as int)),
{
    if code == CODE_NEW_EVALUATOR_RESPONSE {
        Ok(MessageKind::EvaluatorCreated)
    } else if code == CODE_EVALUATE_RESPONSE {
        Ok(MessageKind::EvaluateDone)
    } else if code == CODE_EVALUATE_LOG {
        Ok(MessageKind::Log)
    } else if code == CODE_EVALUATE_READ_RESOURCE {
        Ok(MessageKind::ReadResource)
    } else if code == CODE_EVALUATE_READ_MODULE {
        Ok(MessageKind::ReadModule)
    } else if code == CODE_CLOSE_EXTERNAL_PROCESS {
        Ok(MessageKind::CloseExternalProcess)
    } else {
        Err(decode_error_with("unknown code: 0x", hex_of_code(code)))
    }
}

/// Reads the header of a complete server message: what it announces and
/// where its body starts. The body is decoded by the caller.
pub fn decode_message_frame(data: &[u8]) -> (r: Result<(MessageKind, usize), PklError>)
    ensures
        r matches Ok((k, p)) ==> spec_message_header(data@) matches Ok((c, q)) && q == p
            && spec_message_kind(c) == Some(k),
        r matches Err(e) ==> match spec_message_header(data@) {
            Err(m) => e@ == PklErrorModel::DecodeError(m),
            Ok((c, _)) => spec_message_kind(c) is None && e@ == PklErrorModel::DecodeError(
                "unknown code: 0x"@ + code_hex(c),
            ),
        },
{
    let (code, pos) = decode_message_header(data)?;
    let kind = message_kind(code)?;
    Ok((kind, pos))
}

/// The label that opens the error for a body of this kind that failed to
/// decode.
pub open spec fn body_label(kind: MessageKind) -> Seq<char> {
    match kind {
        MessageKind::EvaluatorCreated => "create resp: "@,
        MessageKind::EvaluateDone => "eval resp: "@,
        MessageKind::Log => "log: "@,
        MessageKind::ReadResource => "read resource: "@,
        MessageKind::ReadModule => "read module: "@,
        MessageKind::CloseExternalProcess => seq![],
    }
}

/// The error for a message body of this kind that failed to decode, with
/// the decoder's own message: `create resp: `, `eval resp: `, `log: `,
/// `read resource: ` or `read module: ` before it. A close message has no
/// body to decode.
pub fn body_decode_error(kind: MessageKind, detail: &str) -> (r: PklError)
    requires
        kind != MessageKind::CloseExternalProcess,
    ensures
        r@ == PklErrorModel::DecodeError(body_label(kind) + detail@),
{
    let label = match kind {
        MessageKind::EvaluatorCreated => "create resp: ",
        MessageKind::EvaluateDone => "eval resp: ",
        MessageKind::Log => "log: ",
        MessageKind::ReadResource => "read resource: ",
        _ => "read module: ",
    };
    let mut s = label.to_string();
    s.append(detail);
    PklError::DecodeError(s)
}

} // verus!
