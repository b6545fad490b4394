use pkl_bindgen::cli_evaluator::{binary_eval_args, exit_error, open_check, text_eval_args, text_output, CliEvaluator};
use pkl_bindgen::error::PklError;
use pkl_bindgen::module_source::{source_for_input, ModuleSource};
use pkl_bindgen::msgapi::{body_decode_error, decode_message_frame, decode_message_header, message_kind, MessageKind, ServerMessage, CreateEvaluatorResponse, EvaluateResponse, ReadResourceRequest, ReadModuleRequest};
use pkl_bindgen::project::{parse_dependencies, project_from_fields, PackageFields, ProjectFields, project_to_message, Project, ProjectDependencies, ProjectLocalDependency, ProjectPackage, ProjectRemoteDependency};
use pkl_bindgen::reader::{PathElement, ResourceNotFound};
use pkl_bindgen::server::{module_reader_specs, resource_reader_specs, create_evaluator_message, evaluate_message, evaluation_result, evaluator_created, find_reader, incoming_kind, manager_open_check, module_response, resource_response, split_message_frame, try_decode_message, IncomingKind};
use pkl_bindgen::msgapi::{ModuleReaderSpec, ResourceReaderSpec};
use pkl_bindgen::util::{default_pkl_path, find_pkl_inner, path_or_default, pkl_lookup_result};

#[test]
fn test_project_to_message_conversion() {
    let project = Project {
        project_file_uri: "file:///project/PklProject".to_string(),
        package: Some(ProjectPackage {
            name: "test".to_string(),
            base_uri: "package://test/test".to_string(),
            version: "1.0.0".to_string(),
            package_zip_url: "https://test/test@1.0.0.zip".to_string(),
            uri: "package://test/test@1.0.0".to_string(),
        }),
        dependencies: ProjectDependencies {
            local: vec![],
            remote: vec![ProjectRemoteDependency {
                package_uri: "package://example/lib@2.0.0".to_string(),
                checksums: Some("abc123".to_string()),
                dependencies: ProjectDependencies { local: vec![], remote: vec![] },
            }],
        },
    };

    let msg = project_to_message(&project);
    assert_eq!(msg.kind, "project");
    assert!(msg.projectFileUri.is_some());
    assert_eq!(msg.dependencies.len(), 1);
}

fn remote(uri: &str, sha: Option<&str>) -> ProjectRemoteDependency {
    ProjectRemoteDependency {
        package_uri: uri.to_string(),
        checksums: sha.map(|s| s.to_string()),
        dependencies: ProjectDependencies::new(),
    }
}

#[test]
fn test_project_message_keys_sorted_and_unique() {
    let project = Project {
        project_file_uri: "file:///p/PklProject".to_string(),
        package: None,
        dependencies: ProjectDependencies {
            local: vec![ProjectLocalDependency {
                package_uri: "package://b".to_string(),
                project_file_uri: "file:///b/PklProject".to_string(),
                dependencies: ProjectDependencies { local: vec![], remote: vec![remote("package://inner", None)] },
            }],
            remote: vec![remote("package://c", Some("x")), remote("package://a", None), remote("package://b", Some("y"))],
        },
    };
    let msg = project_to_message(&project);
    assert!(msg.packageUri.is_none());
    assert!(msg.checksums.is_none());
    assert_eq!(msg.projectFileUri.as_deref(), Some("file:///p/PklProject"));
    let keys: Vec<&str> = msg.dependencies.entries().iter().map(|(k, _)| k.as_str()).collect();
    assert_eq!(keys, vec!["package://a", "package://b", "package://c"]);
    // The remote dependency with the same URI replaces the local one.
    let b = &msg.dependencies.entries()[1].1;
    assert_eq!(b.kind, "remote");
    assert!(b.projectFileUri.is_none());
    assert_eq!(b.checksums.as_ref().map(|c| c.sha256.as_str()), Some("y"));
    assert_eq!(b.dependencies.len(), 0);
    let c = &msg.dependencies.entries()[2].1;
    assert_eq!(c.packageUri.as_deref(), Some("package://c"));
}

#[test]
fn test_local_dependency_message_keeps_nested_dependencies() {
    let project = Project {
        project_file_uri: "file:///p/PklProject".to_string(),
        package: None,
        dependencies: ProjectDependencies {
            local: vec![ProjectLocalDependency {
                package_uri: "package://local".to_string(),
                project_file_uri: "file:///local/PklProject".to_string(),
                dependencies: ProjectDependencies { local: vec![], remote: vec![remote("package://inner", Some("s"))] },
            }],
            remote: vec![],
        },
    };
    let msg = project_to_message(&project);
    let l = &msg.dependencies.entries()[0].1;
    assert_eq!(l.kind, "local");
    assert_eq!(l.projectFileUri.as_deref(), Some("file:///local/PklProject"));
    assert!(l.checksums.is_none());
    assert_eq!(l.dependencies.len(), 1);
    assert_eq!(l.dependencies.entries()[0].0, "package://inner");
}

#[test]
fn test_module_source_from_file() {
    let src = ModuleSource::from_file("/usr/local/config.pkl");
    assert_eq!(src.uri, "file:///usr/local/config.pkl");
    assert!(src.contents.is_none());
}

#[test]
fn test_module_source_from_uri() {
    let src = ModuleSource::from_uri("https://example.com/config.pkl");
    assert_eq!(src.uri, "https://example.com/config.pkl");
    assert!(src.contents.is_none());
}

#[test]
fn test_module_source_from_text() {
    let src = ModuleSource::from_text("name = 42");
    assert!(src.uri.starts_with("repl:"), "uri should start with repl:, got: {}", src.uri);
    assert_eq!(src.contents.unwrap(), "name = 42");
}

#[test]
fn test_module_source_from_text_unique_uri() {
    let src1 = ModuleSource::from_text("a = 1");
    let src2 = ModuleSource::from_text("a = 2");
    assert_ne!(src1.uri, src2.uri, "each from_text should generate a unique URI");
}

#[test]
fn test_module_source_from_text_uuid_form() {
    let src = ModuleSource::from_text("x = 1");
    let id = &src.uri[5..];
    assert_eq!(id.len(), 36);
    for (i, c) in id.chars().enumerate() {
        if i == 8 || i == 13 || i == 18 || i == 23 {
            assert_eq!(c, '-');
        } else {
            assert!(c.is_ascii_hexdigit() && !c.is_ascii_uppercase());
        }
    }
}

#[test]
fn test_source_for_input() {
    assert_eq!(source_for_input("https://example.com/a.pkl").uri, "https://example.com/a.pkl");
    assert_eq!(source_for_input("http://example.com/a.pkl").uri, "http://example.com/a.pkl");
    assert_eq!(source_for_input("pkl:base").uri, "pkl:base");
    assert_eq!(source_for_input("config.pkl").uri, "file://config.pkl");
    assert!(source_for_input("config.pkl").contents.is_none());
}

#[test]
fn test_find_pkl_not_found() {
    // This should always fail gracefully
    let result = find_pkl_inner("nonexistent-pkl-binary-xyz");
    assert!(result.is_err(), "should error when binary not found");
}

#[test]
fn test_found_path_holds_the_name() {
    if let Ok(p) = find_pkl_inner("sh") {
        assert!(p.to_ascii_lowercase().contains("sh"), "found path should hold the name: {}", p);
    }
    let d = default_pkl_path();
    assert!(d == "pkl" || d.to_ascii_lowercase().contains("pkl"));
}

#[test]
fn test_default_pkl_path() {
    let path = default_pkl_path();
    assert!(!path.is_empty(), "default path should not be empty");
}

#[test]
fn test_lookup_result_messages() {
    assert_eq!(pkl_lookup_result("pkl", Some("/usr/bin/pkl".to_string())), Ok("/usr/bin/pkl".to_string()));
    let err = pkl_lookup_result("mypkl", None).unwrap_err();
    match err {
        PklError::CliError(m) => {
            assert!(m.starts_with("could not find `mypkl` CLI binary\n\npkl-bindgen requires"));
            assert!(m.ends_with("Searched in PATH: $PATH"));
        }
        other => panic!("unexpected {:?}", other),
    }
    assert_eq!(path_or_default(None), "pkl");
    assert_eq!(path_or_default(Some("/x/pkl".to_string())), "/x/pkl");
}

#[test]
fn test_cli_args_and_outputs() {
    let file = ModuleSource::from_file("/a.pkl");
    assert_eq!(binary_eval_args(&file), vec!["eval", "--format", "pkl-binary", "file:///a.pkl"]);
    let text = ModuleSource::from_text("a = 1");
    assert_eq!(binary_eval_args(&text), vec!["eval", "--format", "pkl-binary", "-"]);
    assert_eq!(text_eval_args(&file), vec!["eval", "--format", "json", "-x", "output.text", "file:///a.pkl"]);
    assert_eq!(text_output(b"  hello\n"), "hello");
    assert_eq!(text_output(&[0x61, 0xff, 0x62]), "a\u{fffd}b");
    assert_eq!(
        exit_error("exit status: 1", b"  boom \n"),
        PklError::EvalError("pkl exited with exit status: 1: boom".to_string())
    );
}

#[test]
fn test_cli_evaluator_close() {
    let e = CliEvaluator::with_pkl_path("/opt/pkl");
    assert_eq!(e.pkl_path(), "/opt/pkl");
    assert!(e.ensure_open().is_ok());
    e.close();
    assert_eq!(e.ensure_open(), Err(PklError::CliError("evaluator is closed".to_string())));
    assert!(open_check(false).is_ok());
    assert!(!CliEvaluator::new().pkl_path().is_empty());
}

#[test]
fn test_reader_items() {
    let p = PathElement::new("dir", true);
    assert_eq!(p.name(), "dir");
    assert!(p.is_directory());
    assert!(!PathElement::new("f", false).is_directory());
    assert_eq!(ResourceNotFound("secret:x".to_string()).message(), "resource not found: secret:x");
}

#[test]
fn test_error_messages() {
    assert_eq!(PklError::EvalError("x".to_string()).message(), "Pkl evaluation error: x");
    assert_eq!(PklError::DecodeError("x".to_string()).message(), "Decode error: x");
    assert_eq!(PklError::IoError("x".to_string()).message(), "I/O error: x");
    assert_eq!(PklError::CliError("x".to_string()).message(), "Pkl CLI error: x");
    assert_eq!(
        PklError::TypeMismatch { expected: "Int".to_string(), actual: "String".to_string() }.message(),
        "Type mismatch: expected Int, got String"
    );
    assert_eq!(PklError::MissingProperty("port".to_string()).message(), "Missing property `port`");
    assert_eq!(PklError::UnknownObjectCode(0x0e).message(), "Unknown Pkl object code: 0x0e");
    assert_eq!(PklError::UnknownObjectCode(0xab).message(), "Unknown Pkl object code: 0xab");
    assert_eq!(PklError::Custom("plain".to_string()).message(), "plain");
}

fn decode_err(data: &[u8]) -> String {
    match decode_message_frame(data) {
        Err(PklError::DecodeError(m)) => m,
        other => panic!("unexpected {:?}", other),
    }
}

#[test]
fn test_decode_message_frame() {
    assert_eq!(decode_message_frame(&[0x92, 0x21, 0x80]).unwrap(), (MessageKind::EvaluatorCreated, 2));
    assert_eq!(decode_message_frame(&[0x92, 0x24, 0x80]).unwrap(), (MessageKind::EvaluateDone, 2));
    assert_eq!(decode_message_frame(&[0x92, 0xd0, 0x25, 0x80]).unwrap(), (MessageKind::Log, 3));
    assert_eq!(decode_message_frame(&[0x92, 0xd1, 0x00, 0x26, 0x80]).unwrap(), (MessageKind::ReadResource, 4));
    assert_eq!(decode_message_frame(&[0x92, 0xd2, 0, 0, 0, 0x28, 0x80]).unwrap(), (MessageKind::ReadModule, 6));
    assert_eq!(decode_message_frame(&[0x92, 0x32, 0x80]).unwrap(), (MessageKind::CloseExternalProcess, 2));
    // The 16- and 32-bit array headers carry their length.
    assert_eq!(decode_message_frame(&[0xdc, 0x00, 0x02, 0x32, 0x80]).unwrap(), (MessageKind::CloseExternalProcess, 4));
    assert_eq!(decode_message_frame(&[0xdd, 0x00, 0x00, 0x00, 0x02, 0x21, 0x80]).unwrap(), (MessageKind::EvaluatorCreated, 6));
    assert_eq!(decode_err(&[0xdc, 0x00, 0x01, 0x32]), "array too short: 1");
    assert_eq!(decode_err(&[0x92]), "message too short");
    assert_eq!(decode_err(&[0x80, 0x00]), "expected array, got 0x80");
    assert_eq!(decode_err(&[0x91, 0x21]), "array too short: 1");
    assert_eq!(decode_err(&[0xdc, 0x00]), "truncated array16");
    assert_eq!(decode_err(&[0xdd, 0x00, 0x00]), "truncated array32");
    assert_eq!(decode_err(&[0x92, 0xd0]), "truncated int8");
    assert_eq!(decode_err(&[0x92, 0xd1, 0x00]), "truncated int16");
    assert_eq!(decode_err(&[0x92, 0xd2, 0x00, 0x00]), "truncated int32");
    assert_eq!(decode_err(&[0x92, 0xc3, 0x00]), "unexpected code marker 0xc3");
    assert_eq!(decode_err(&[0x92, 0x40, 0x80]), "unknown code: 0x40");
    assert_eq!(decode_err(&[0x92, 0xd0, 0xff, 0x80]), "unknown code: 0xffffffffffffffff");
    assert_eq!(decode_message_header(&[0x92, 0xd1, 0xff, 0xfe]).unwrap(), (-2, 4));
    assert_eq!(message_kind(0x21).unwrap(), MessageKind::EvaluatorCreated);
    assert_eq!(
        body_decode_error(MessageKind::EvaluateDone, "bad"),
        PklError::DecodeError("eval resp: bad".to_string())
    );
    assert_eq!(
        body_decode_error(MessageKind::ReadModule, "bad"),
        PklError::DecodeError("read module: bad".to_string())
    );
}

#[test]
fn test_try_decode_message_framing() {
    // [0x21, {}] followed by the start of a second message
    let buf = [0x92, 0x21, 0x80, 0x92];
    assert_eq!(try_decode_message(&buf), Some((3, 0x21, vec![0x80])));
    // An incomplete message waits for more bytes.
    assert_eq!(try_decode_message(&[0x92, 0x21]), None);
    assert_eq!(try_decode_message(&[]), None);
    // A value that is not an array, or whose first element is no integer.
    assert_eq!(try_decode_message(&[0x80]), None);
    assert_eq!(try_decode_message(&[0x92, 0xa1, 0x61, 0x80]), None);
    // A body with a string field
    let buf = [0x92, 0x24, 0x81, 0xa1, 0x78, 0x01];
    assert_eq!(try_decode_message(&buf), Some((6, 0x24, vec![0x81, 0xa1, 0x78, 0x01])));
    assert_eq!(split_message_frame(&[0x92, 0x21, 0x80], 3, Some((2, Some(0x21)))), Some((3, 0x21, vec![0x80])));
    assert_eq!(split_message_frame(&[0x92, 0x21, 0x80], 3, Some((1, Some(0x21)))), None);
    assert_eq!(split_message_frame(&[0x92, 0x21, 0x80], 3, Some((2, None))), None);
    assert_eq!(split_message_frame(&[0x92, 0x21, 0x80], 3, None), None);
}

#[test]
fn test_incoming_kinds() {
    assert_eq!(incoming_kind(0x21), Some(IncomingKind::CreateEvaluatorResponse));
    assert_eq!(incoming_kind(0x24), Some(IncomingKind::EvaluateResponse));
    assert_eq!(incoming_kind(0x25), Some(IncomingKind::Log));
    assert_eq!(incoming_kind(0x26), Some(IncomingKind::ReadResource));
    assert_eq!(incoming_kind(0x28), Some(IncomingKind::ReadModule));
    assert_eq!(incoming_kind(0x2e), Some(IncomingKind::InitModuleReader));
    assert_eq!(incoming_kind(0x30), Some(IncomingKind::InitResourceReader));
    assert_eq!(incoming_kind(0x32), None);
    assert_eq!(incoming_kind(0x20), None);
}

#[test]
fn test_reader_lookup_and_responses() {
    let schemes = vec!["secrets".to_string(), "db".to_string(), "d".to_string()];
    assert_eq!(find_reader(&schemes, "secrets:key"), Some(0));
    assert_eq!(find_reader(&schemes, "db:table"), Some(1));
    assert_eq!(find_reader(&schemes, "d:x"), Some(2));
    assert_eq!(find_reader(&schemes, "dbx:table"), None);
    assert_eq!(find_reader(&schemes, "secrets"), None);
    let req = ReadResourceRequest { requestId: 7, evaluatorId: 3, uri: "env:HOME".to_string() };
    let r = resource_response(&req, None);
    assert_eq!((r.requestId, r.evaluatorId), (7, 3));
    assert_eq!(r.contents, None);
    assert_eq!(r.error.as_deref(), Some("No resource reader for env:HOME"));
    let r = resource_response(&req, Some(Ok(vec![1, 2])));
    assert_eq!(r.contents, Some(vec![1, 2]));
    assert_eq!(r.error, None);
    let r = resource_response(&req, Some(Err("denied".to_string())));
    assert_eq!(r.contents, None);
    assert_eq!(r.error.as_deref(), Some("denied"));
    let mreq = ReadModuleRequest { requestId: 1, evaluatorId: 2, uri: "x:y".to_string() };
    let m = module_response(&mreq, None);
    assert_eq!((m.contents, m.error), (None, None));
    let m = module_response(&mreq, Some(Ok("a = 1".to_string())));
    assert_eq!(m.contents.as_deref(), Some("a = 1"));
}

#[test]
fn test_create_evaluator_message() {
    let rr = vec![ResourceReaderSpec { scheme: "secrets".to_string(), hasHierarchicalUris: true, isGlobbable: false }];
    let mr = vec![ModuleReaderSpec { scheme: "mods".to_string(), hasHierarchicalUris: false, isGlobbable: true, isLocal: false }];
    let m = create_evaluator_message(5, &rr, &mr, None);
    assert_eq!(m.requestId, 5);
    let r = m.clientResourceReaders.unwrap();
    assert_eq!(r.len(), 2);
    assert_eq!(r[0].scheme, "repl");
    assert_eq!(r[1].scheme, "secrets");
    assert!(r[1].hasHierarchicalUris);
    let mods = m.clientModuleReaders.unwrap();
    assert_eq!(mods[0].scheme, "repl");
    assert!(mods[0].isLocal);
    assert!(mods[1].isGlobbable);
    assert_eq!(m.allowedModules.unwrap(), vec!["file:", "https:", "repl:", "modulepath:", "pkl:", "mods:"]);
    assert_eq!(m.allowedResources.unwrap(), vec!["file:", "https:", "env:", "prop:", "modulepath:", "secrets:"]);
    assert_eq!(m.outputFormat.as_deref(), Some("pkl-binary"));
    assert!(m.project.is_none());
}

#[test]
fn test_server_answers() {
    let ok = ServerMessage::EvaluatorCreated(CreateEvaluatorResponse { requestId: 1, evaluatorId: 42, error: String::new() });
    assert_eq!(evaluator_created(ok), Ok(42));
    let failed = ServerMessage::EvaluatorCreated(CreateEvaluatorResponse { requestId: 1, evaluatorId: 0, error: "bad".to_string() });
    assert_eq!(evaluator_created(failed), Err(PklError::EvalError("bad".to_string())));
    assert_eq!(
        evaluator_created(ServerMessage::CloseExternalProcess),
        Err(PklError::DecodeError("expected EvaluatorCreated".to_string()))
    );
    let done = ServerMessage::EvaluateDone(EvaluateResponse { requestId: 1, evaluatorId: 2, result: vec![0xc0], error: String::new() });
    assert_eq!(evaluation_result(done), Ok(vec![0xc0]));
    assert_eq!(
        evaluation_result(ServerMessage::CloseExternalProcess),
        Err(PklError::DecodeError("expected EvaluateDone".to_string()))
    );
    let src = ModuleSource::from_text("a = 1");
    let req = evaluate_message(3, 4, &src, Some("output.text".to_string()));
    assert_eq!((req.requestId, req.evaluatorId), (3, 4));
    assert_eq!(req.moduleUri, src.uri);
    assert_eq!(req.moduleText.as_deref(), Some("a = 1"));
    assert_eq!(req.expr.as_deref(), Some("output.text"));
    assert_eq!(manager_open_check(true), Err(PklError::CliError("manager is closed".to_string())));
}

fn fields(pfu: Option<&str>, package_uri: Option<&str>, uri: Option<&str>, sha: Option<&str>) -> pkl_bindgen::project::DependencyFields {
    pkl_bindgen::project::DependencyFields {
        project_file_uri: pfu.map(|s| s.to_string()),
        package_uri: package_uri.map(|s| s.to_string()),
        uri: uri.map(|s| s.to_string()),
        sha256: sha.map(|s| s.to_string()),
        dependencies: None,
    }
}

#[test]
fn test_parse_dependencies_classifies_entries() {
    assert!(parse_dependencies(None).is_none());
    let mut nested = fields(None, None, Some("package://inner@1"), None);
    nested.dependencies = Some(vec![Some(fields(None, Some("package://deep@1"), None, Some("d")))]);
    let items = vec![
        Some(fields(Some("file:///l/PklProject"), None, Some("package://l@1"), None)),
        None,
        Some(fields(None, None, None, None)),
        Some(fields(None, Some("package://r@2"), Some("package://r@1"), Some("abc"))),
        Some(nested),
        Some(fields(Some("file:///m/PklProject"), None, None, None)),
    ];
    let deps = parse_dependencies(Some(&items)).unwrap();
    assert_eq!(deps.local.len(), 2);
    assert_eq!(deps.local[0].package_uri, "package://l@1");
    assert_eq!(deps.local[0].project_file_uri, "file:///l/PklProject");
    assert_eq!(deps.local[1].package_uri, "");
    assert_eq!(deps.remote.len(), 2);
    assert_eq!(deps.remote[0].package_uri, "package://r@1");
    assert_eq!(deps.remote[0].checksums.as_deref(), Some("abc"));
    assert_eq!(deps.remote[1].package_uri, "package://inner@1");
    assert_eq!(deps.remote[1].dependencies.remote.len(), 1);
    assert_eq!(deps.remote[1].dependencies.remote[0].package_uri, "package://deep@1");
    assert_eq!(deps.remote[1].dependencies.remote[0].checksums.as_deref(), Some("d"));
}

#[test]
fn test_project_from_fields() {
    assert_eq!(
        project_from_fields(None).unwrap_err(),
        PklError::DecodeError("expected object for Project".to_string())
    );
    let f = ProjectFields {
        project_file_uri: None,
        package: Some(PackageFields {
            name: Some("my-project".to_string()),
            base_uri: None,
            version: Some("1.0.0".to_string()),
            package_zip_url: None,
            uri: Some("package://example.com/my-project@1.0.0".to_string()),
        }),
        dependencies: Some(vec![Some(fields(None, None, Some("package://example.com/examples@1.0.0"), None))]),
    };
    let p = project_from_fields(Some(&f)).unwrap();
    assert_eq!(p.project_file_uri, "");
    let pkg = p.package.unwrap();
    assert_eq!(pkg.name, "my-project");
    assert_eq!(pkg.version, "1.0.0");
    assert_eq!(pkg.base_uri, "");
    assert_eq!(p.dependencies.remote.len(), 1);
    assert_eq!(p.dependencies.remote[0].package_uri, "package://example.com/examples@1.0.0");
    let empty = ProjectFields { project_file_uri: Some("file:///x".to_string()), package: None, dependencies: None };
    let p = project_from_fields(Some(&empty)).unwrap();
    assert_eq!(p.project_file_uri, "file:///x");
    assert!(p.package.is_none());
    assert!(p.dependencies.local.is_empty() && p.dependencies.remote.is_empty());
}

struct PlainReader;

impl pkl_bindgen::reader::ResourceReader for PlainReader {
    fn scheme(&self) -> &str {
        "plain"
    }
    fn read(&self, _uri: &str) -> Result<Vec<u8>, String> {
        Ok(vec![])
    }
}

impl pkl_bindgen::reader::ModuleReader for PlainReader {
    fn scheme(&self) -> &str {
        "plain"
    }
    fn read(&self, _uri: &str) -> Result<String, String> {
        Ok(String::new())
    }
}

#[test]
fn test_reader_defaults() {
    use_reader_defaults(&PlainReader);
}

fn use_reader_defaults(r: &PlainReader) {
    let rr: &dyn pkl_bindgen::reader::ResourceReader = r;
    assert!(!rr.is_globbable());
    assert!(!rr.has_hierarchical_uris());
    assert_eq!(rr.list_elements("plain:x").unwrap_err(), "list_elements not supported");
    let mr: &dyn pkl_bindgen::reader::ModuleReader = r;
    assert!(!mr.is_local());
    assert!(!mr.is_globbable());
    assert!(!mr.has_hierarchical_uris());
    assert_eq!(mr.list_elements("plain:x").unwrap_err(), "list_elements not supported");
}

#[test]
fn test_reader_specs_from_answers() {
    let r = resource_reader_specs(&vec![("secret".to_string(), true, false), ("db".to_string(), false, true)]);
    assert_eq!(r.len(), 2);
    assert_eq!((r[0].scheme.as_str(), r[0].hasHierarchicalUris, r[0].isGlobbable), ("secret", true, false));
    assert_eq!((r[1].scheme.as_str(), r[1].hasHierarchicalUris, r[1].isGlobbable), ("db", false, true));
    let m = module_reader_specs(&vec![("mods".to_string(), false, true, true)]);
    assert_eq!((m[0].scheme.as_str(), m[0].hasHierarchicalUris, m[0].isGlobbable, m[0].isLocal), ("mods", false, true, true));
}
