use pkl_bindgen::codegen::generate::generate_code;
use pkl_bindgen::codegen::parse::parse_module;
use pkl_bindgen::codegen::types::{map_pkl_type_str, snake_to_camel, to_snake_case};

#[test]
fn test_parse_simple_properties() {
    let src = r#"
name: String
count: Int
flag: Boolean
"#;
    let module = parse_module(src).unwrap();
    assert_eq!(module.properties.len(), 3);
    assert_eq!(module.properties[0].name, "name");
    assert_eq!(module.properties[0].type_str, "String");
    assert_eq!(module.properties[1].name, "count");
    assert_eq!(module.properties[1].type_str, "Int");
    assert_eq!(module.properties[2].name, "flag");
    assert_eq!(module.properties[2].type_str, "Boolean");
}

#[test]
fn test_parse_optional_property() {
    let src = r#"name: String?"#;
    let module = parse_module(src).unwrap();
    assert_eq!(module.properties[0].name, "name");
    assert_eq!(module.properties[0].type_str, "String");
    assert!(module.properties[0].optional);
}

#[test]
fn test_parse_property_with_default() {
    let src = r#"timeout: Duration = 30.s"#;
    let module = parse_module(src).unwrap();
    assert_eq!(module.properties[0].name, "timeout");
    assert!(module.properties[0].has_default);
}

#[test]
fn test_parse_class() {
    let src = r#"
class Bird {
  name: String
  lifespan: Int
}
"#;
    let module = parse_module(src).unwrap();
    assert_eq!(module.classes.len(), 1);
    assert_eq!(module.classes[0].name, "Bird");
    assert_eq!(module.classes[0].properties.len(), 2);
    assert_eq!(module.classes[0].properties[0].name, "name");
    assert_eq!(module.classes[0].properties[1].name, "lifespan");
}

#[test]
fn test_parse_class_with_extends() {
    let src = r#"
class Animal {
  name: String
}
class Bird extends Animal {
  wingspan: Float
}
"#;
    let module = parse_module(src).unwrap();
    assert_eq!(module.classes.len(), 2);
    assert_eq!(module.classes[0].name, "Animal");
    assert_eq!(module.classes[1].name, "Bird");
    assert_eq!(module.classes[1].superclass.as_deref(), Some("Animal"));
}

#[test]
fn test_parse_generic_types() {
    let src = r#"
tags: List<String>
metadata: Map<String, String>
"#;
    let module = parse_module(src).unwrap();
    assert_eq!(module.properties.len(), 2);
}

#[test]
fn test_parse_typealias() {
    let src = "typealias Email = String";
    let module = parse_module(src).unwrap();
    assert_eq!(module.type_aliases.len(), 1);
    assert_eq!(module.type_aliases[0].name, "Email");
}

#[test]
fn test_parse_union_typealias() {
    let src = r#"typealias Diet = "Seeds" | "Berries" | "Insects""#;
    let module = parse_module(src).unwrap();
    assert_eq!(module.type_aliases.len(), 1);
    let ta = &module.type_aliases[0];
    assert!(ta.is_union);
    assert_eq!(ta.variants, vec!["Seeds", "Berries", "Insects"]);
}

#[test]
fn test_type_mapping_list() {
    assert_eq!(map_pkl_type_str("List<String>"), "Vec<String>");
    assert_eq!(map_pkl_type_str("Listing<Int>"), "Vec<i64>");
}

#[test]
fn test_type_mapping_map() {
    assert_eq!(map_pkl_type_str("Map<String, Int>"), "BTreeMap<String, i64>");
}

#[test]
fn test_snake_case_conversion() {
    assert_eq!(to_snake_case("camelCase"), "camel_case");
    assert_eq!(to_snake_case("name"), "name");
    assert_eq!(to_snake_case("myFieldName"), "my_field_name");
}

#[test]
fn test_struct_generation() {
    let src = r#"
class Person {
  firstName: String
  lastName: String
  age: Int
}
"#;
    let module = parse_module(src).unwrap();
    let code = generate_code(&module);
    assert!(code.contains("struct Person"));
    assert!(code.contains("first_name"));
    assert!(code.contains("last_name"));
    assert!(code.contains("age"));
    assert!(code.contains("PklDecode"));
}

#[test]
fn test_enum_generation_from_union() {
    let src = r#"typealias Diet = "Seeds" | "Berries" | "Insects""#;
    let module = parse_module(src).unwrap();
    let code = generate_code(&module);
    assert!(code.contains("enum Diet"));
    assert!(code.contains("Seeds"));
    assert!(code.contains("Berries"));
    assert!(code.contains("Insects"));
    assert!(code.contains("impl PklDecode for Diet"));
}

#[test]
fn test_full_pkl_file() {
    let src = r#"
/// Application configuration
name: String
version: Int
debug: Boolean
tags: List<String>
timeout: Duration?
storage: DataSize

class Database {
  host: String
  port: UInt16
  credentials: Credentials
}

class Credentials {
  username: String
  password: String?
}

typealias Port = UInt16
typealias Env = "development" | "staging" | "production"
"#;
    let module = parse_module(src).unwrap();
    let code = generate_code(&module);

    // Has module-level properties
    assert!(code.contains("struct Root"));
    assert!(code.contains("name"));
    assert!(code.contains("debug"));
    assert!(code.contains("tags"));
    assert!(code.contains("Option<Duration>"));

    // Has classes
    assert!(code.contains("struct Database"));
    assert!(code.contains("struct Credentials"));

    // Has enum from union
    assert!(code.contains("enum Env"));
    assert!(code.contains("development"));

    // Has type alias
    assert!(code.contains("type Port = i64"));

    println!("Generated code:\n{}", code);
}

#[test]
fn test_class_closing_on_its_own_line() {
    let m = parse_module("class A {}").unwrap();
    assert_eq!(m.classes.len(), 1);
    assert_eq!(m.classes[0].name, "A");
    assert!(m.classes[0].properties.is_empty());
    assert!(m.properties.is_empty());
    let m = parse_module("class A {}\nname: String\n").unwrap();
    assert_eq!(m.classes.len(), 1);
    assert_eq!(m.properties.len(), 1);
}

#[test]
fn test_output_block_is_skipped_but_output_properties_are_read() {
    let m = parse_module("outputDir: String\noutput {\n  renderer = 1\n}\n").unwrap();
    assert_eq!(m.properties.len(), 1);
    assert_eq!(m.properties[0].name, "outputDir");
    assert_eq!(m.properties[0].type_str, "String");
    let m = parse_module("output  {\n}\n").unwrap();
    assert!(m.properties.is_empty());
}

#[test]
fn test_snake_to_camel_examples() {
    assert_eq!(snake_to_camel("first_name"), "firstName");
    assert_eq!(snake_to_camel("name"), "name");
    assert_eq!(snake_to_camel("a_b_c"), "aBC");
    assert_eq!(snake_to_camel("trailing_"), "trailing");
    assert_eq!(snake_to_camel("x__y"), "xY");
}

#[test]
fn test_snake_camel_roundtrip_examples() {
    for name in ["camelCase", "myFieldName", "name", "port8080", "aB"] {
        assert_eq!(snake_to_camel(&to_snake_case(name)), name);
    }
    // A leading capital does not survive the trip.
    assert_eq!(snake_to_camel(&to_snake_case("Name")), "name");
}

#[test]
fn test_union_enum_has_one_decode_impl() {
    let module = parse_module(r#"typealias Diet = "Seeds" | "Berries""#).unwrap();
    let code = generate_code(&module);
    assert_eq!(code.matches("impl PklDecode for Diet").count(), 1);
    assert!(code.contains("#[derive(Debug, Clone, PartialEq)]\npub enum Diet"));
}
