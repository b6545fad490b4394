//! Generating Rust source text from a schema: a struct per class, an enum or
//! a type alias per Pkl type alias, and a `Root` struct for the module-level
//! properties.
use vstd::prelude::*;
use crate::text::{
    char_is_alphanumeric, chars_to_string, is_alphanumeric, join, lit, push_all, push_str,
    str_to_chars,
};
use super::schema::{
    aliases_view, classes_view, properties_view, strings_view, Class, ClassModel, Module,
    ModuleModel, Property, PropertyModel, TypeAlias, TypeAliasModel,
};
use super::types::{
    map_pkl_type_chars, spec_map_type, spec_to_rust_ident, spec_to_snake_case,
    to_rust_ident_chars, to_snake_case_chars,
};

verus! {

// ───────────────────────── Specification of the generated text ─────────────────────────

/// One struct field: `    pub name: Type,` with `Option<..>` for nullable types.
pub open spec fn field_text(p: PropertyModel) -> Seq<char> {
    "    pub "@ + spec_to_snake_case(p.name) + ": "@ + (if p.optional {
        "Option<"@
    } else {
        ""@
    }) + spec_map_type(p.type_str) + (if p.optional {
        ">"@
    } else {
        ""@
    }) + ",\n"@
}

pub open spec fn fields_text(ps: Seq<PropertyModel>) -> Seq<char>
    decreases ps.len(),
{
    if ps.len() == 0 {
        seq![]
    } else {
        fields_text(ps.drop_last()) + field_text(ps.last())
    }
}

/// The struct generated for a class.
pub open spec fn struct_text(c: ClassModel) -> Seq<char> {
    "#[derive(PklDecode, Debug, Clone)]\n"@ + "pub struct "@ + c.name + " {\n"@ + fields_text(
        c.properties,
    ) + "}\n"@
}

/// The struct generated for the module-level properties.
pub open spec fn root_text(ps: Seq<PropertyModel>) -> Seq<char> {
    "#[derive(PklDecode, Debug, Clone)]\npub struct Root {\n"@ + fields_text(ps) + "}\n"@
}

/// The non-empty variants of a union.
pub open spec fn nonempty_variants(vs: Seq<Seq<char>>) -> Seq<Seq<char>> {
    vs.filter(|v: Seq<char>| v.len() > 0)
}

pub open spec fn variant_line(v: Seq<char>) -> Seq<char> {
    "    "@ + spec_to_rust_ident(v)
}

pub open spec fn match_arm(v: Seq<char>) -> Seq<char> {
    "            \""@ + v + "\" => Ok(Self::"@ + spec_to_rust_ident(v) + "),"@
}

/// The variant lines (`arm` false) or match arms (`arm` true) for the
/// non-empty variants.
pub open spec fn variant_items(vs: Seq<Seq<char>>, arm: bool) -> Seq<Seq<char>> {
    nonempty_variants(vs).map_values(
        |v: Seq<char>|
            if arm {
                match_arm(v)
            } else {
                variant_line(v)
            },
    )
}

/// The enum generated for a union of string literals, with its `PklDecode` impl.
pub open spec fn enum_text(name: Seq<char>, vs: Seq<Seq<char>>) -> Seq<char> {
    "#[derive(Debug, Clone, PartialEq)]\npub enum "@ + name + " {\n"@ + join(
        variant_items(vs, false),
        ",\n"@,
    ) + "\n}\n\nimpl PklDecode for "@ + name
        + " {\n    fn decode(value: Value) -> std::result::Result<Self, pkl_core::PklError> {\n        match value {\n            Value::String(s) => match s.as_str() {\n"@
        + join(variant_items(vs, true), "\n"@)
        + "\n                _ => Err(pkl_core::PklError::DecodeError(format!(\"unknown variant: {}\", s))),\n            },\n            other => Err(pkl_core::PklError::TypeMismatch {\n                expected: \"string\",\n                actual: format!(\"{:?}\", other),\n            }),\n        }\n    }\n}\n"@
}

/// Whether every variant begins with an alphanumeric character.
pub open spec fn all_start_alphanumeric(vs: Seq<Seq<char>>) -> bool {
    forall|k: int|
        0 <= k < vs.len() ==> (#[trigger] vs[k]).len() > 0 && char_is_alphanumeric(vs[k][0])
}

/// A union of more than one literal whose variants all begin with an
/// alphanumeric character becomes an enum; any other alias a type alias.
pub open spec fn alias_text(a: TypeAliasModel) -> Seq<char> {
    if a.is_union && a.variants.len() > 1 && all_start_alphanumeric(a.variants) {
        enum_text(a.name, a.variants)
    } else {
        "pub type "@ + a.name + " = "@ + spec_map_type(a.type_str) + ";\n\n"@
    }
}

pub open spec fn aliases_text(aliases: Seq<TypeAliasModel>) -> Seq<char>
    decreases aliases.len(),
{
    if aliases.len() == 0 {
        seq![]
    } else {
        aliases_text(aliases.drop_last()) + alias_text(aliases.last())
    }
}

pub open spec fn classes_text(classes: Seq<ClassModel>) -> Seq<char>
    decreases classes.len(),
{
    if classes.len() == 0 {
        seq![]
    } else {
        classes_text(classes.drop_last()) + struct_text(classes.last()) + "\n"@
    }
}

/// The header of every generated file.
pub open spec fn header_text() -> Seq<char> {
    "// Auto-generated by pkl_codegen. Do not edit.\n\n"@
        + "#![allow(dead_code, non_snake_case)]\n\n"@
        + "use pkl_core::{PklDecode, Duration, DataSize, Value};\n"@
        + "use std::collections::BTreeMap;\n\n"@
}

/// The Rust source generated for a module.
pub open spec fn spec_generate_code(m: ModuleModel) -> Seq<char> {
    header_text() + aliases_text(m.type_aliases) + classes_text(m.classes) + (if m.properties.len()
        > 0 {
        root_text(m.properties) + "\n"@
    } else {
        seq![]
    })
}

// ───────────────────────── Generation ─────────────────────────

fn push_field(out: &mut Vec<char>, p: &Property)
    ensures
        final(out)@ == old(out)@ + field_text(p@),
{
    let name = str_to_chars(p.name.as_str());
    let ty = str_to_chars(p.type_str.as_str());
    let rust_name = to_snake_case_chars(&name);
    let rust_type = map_pkl_type_chars(&ty);
    push_str(out, "    pub ");
    push_all(out, &rust_name);
    push_str(out, ": ");
    if p.optional {
        push_str(out, "Option<");
    } else {
        push_str(out, "");
    }
    push_all(out, &rust_type);
    if p.optional {
        push_str(out, ">");
    } else {
        push_str(out, "");
    }
    push_str(out, ",\n");
    assert(out@ =~= old(out)@ + field_text(p@));
}

fn push_fields(out: &mut Vec<char>, ps: &Vec<Property>)
    ensures
        final(out)@ == old(out)@ + fields_text(properties_view(ps@)),
{
    let ghost pv = properties_view(ps@);
    let mut i: usize = 0;
    while i < ps.len()
        invariant
            i <= ps@.len(),
            pv == properties_view(ps@),
            out@ == old(out)@ + fields_text(pv.take(i as int)),
        decreases ps@.len() - i,
    {
        let ghost before = out@;
        push_field(out, &ps[i]);
        proof {
            assert(pv.take(i + 1).drop_last() =~= pv.take(i as int));
            assert(pv.take(i + 1).last() == ps@[i as int]@);
            assert(out@ =~= old(out)@ + fields_text(pv.take(i + 1)));
        }
        i = i + 1;
    }
    assert(pv.take(ps@.len() as int) =~= pv);
}

/// The struct definition for a class.
pub fn generate_struct(class: &Class, _module: &Module) -> (r: String)
    ensures
        r@ == struct_text(class@),
{
    let mut out = lit("#[derive(PklDecode, Debug, Clone)]\n");
    push_str(&mut out, "pub struct ");
    let name = str_to_chars(class.name.as_str());
    push_all(&mut out, &name);
    push_str(&mut out, " {\n");
    push_fields(&mut out, &class.properties);
    push_str(&mut out, "}\n");
    assert(out@ =~= struct_text(class@));
    chars_to_string(&out)
}

/// The `Root` struct for the module-level properties.
pub fn generate_root_struct(module: &Module) -> (r: String)
    ensures
        r@ == root_text(module@.properties),
{
    let mut out = lit("#[derive(PklDecode, Debug, Clone)]\npub struct Root {\n");
    push_fields(&mut out, &module.properties);
    push_str(&mut out, "}\n");
    assert(out@ =~= root_text(module@.properties));
    chars_to_string(&out)
}

/// Appends `items[k]` for every kept variant, joined by `sep`; `arm` chooses
/// between the variant line and the match arm.
#[verifier::rlimit(40)]
fn push_variant_list(out: &mut Vec<char>, variants: &Vec<String>, arm: bool, sep: &str)
    ensures
        final(out)@ == old(out)@ + join(variant_items(strings_view(variants@), arm), sep@),
{
    let ghost vs = strings_view(variants@);
    let mut count: usize = 0;
    let mut i: usize = 0;
    let ghost start = out@;
    while i < variants.len()
        invariant
            i <= variants@.len(),
            vs == strings_view(variants@),
            count == variant_items(vs.take(i as int), arm).len(),
            out@ == start + join(variant_items(vs.take(i as int), arm), sep@),
            start == old(out)@,
        decreases variants@.len() - i,
    {
        let v = str_to_chars(variants[i].as_str());
        let ghost before = out@;
        proof {
            assert(vs.take(i + 1).drop_last() =~= vs.take(i as int));
            assert(vs.take(i + 1).last() == v@);
            reveal(Seq::filter);
        }
        if v.len() > 0 {
            if count > 0 {
                push_str(out, sep);
            }
            let id = to_rust_ident_chars(&v);
            if arm {
                push_str(out, "            \"");
                push_all(out, &v);
                push_str(out, "\" => Ok(Self::");
                push_all(out, &id);
                push_str(out, "),");
            } else {
                push_str(out, "    ");
                push_all(out, &id);
            }
            proof {
                let ne = nonempty_variants(vs.take(i as int));
                let ne2 = nonempty_variants(vs.take(i + 1));
                let item = if arm {
                    match_arm(v@)
                } else {
                    variant_line(v@)
                };
                assert(ne2 =~= ne.push(v@));
                let a = variant_items(vs.take(i as int), arm);
                let b = variant_items(vs.take(i + 1), arm);
                assert(b =~= a.push(item));
                assert(b.drop_last() =~= a);
                if count == 0 {
                    assert(a =~= Seq::<Seq<char>>::empty());
                    assert(b =~= seq![item]);
                }
                assert(out@ =~= start + join(b, sep@));
            }
            count = count + 1;
        } else {
            proof {
                assert(nonempty_variants(vs.take(i + 1)) =~= nonempty_variants(vs.take(i as int)));
            }
        }
        i = i + 1;
    }
    assert(vs.take(variants@.len() as int) =~= vs);
}

/// The enum (with its `PklDecode` impl) for a union of string literals.
pub fn generate_enum_from_union(ta: &TypeAlias) -> (r: String)
    ensures
        r@ == enum_text(ta@.name, ta@.variants),
{
    let ghost lines_part = join(variant_items(ta@.variants, false), ",\n"@);
    let ghost arms_part = join(variant_items(ta@.variants, true), "\n"@);
    let name = str_to_chars(ta.name.as_str());
    let mut out = lit("#[derive(Debug, Clone, PartialEq)]\npub enum ");
    push_all(&mut out, &name);
    push_str(&mut out, " {\n");
    push_variant_list(&mut out, &ta.variants, false, ",\n");
    let ghost p1 = out@;
    assert(p1 == "#[derive(Debug, Clone, PartialEq)]\npub enum "@ + ta@.name + " {\n"@
        + lines_part);
    push_str(&mut out, "\n}\n\nimpl PklDecode for ");
    push_all(&mut out, &name);
    push_str(
        &mut out,
        " {\n    fn decode(value: Value) -> std::result::Result<Self, pkl_core::PklError> {\n        match value {\n            Value::String(s) => match s.as_str() {\n",
    );
    let ghost p2 = out@;
    push_variant_list(&mut out, &ta.variants, true, "\n");
    let ghost p3 = out@;
    assert(p3 == p2 + arms_part);
    push_str(
        &mut out,
        "\n                _ => Err(pkl_core::PklError::DecodeError(format!(\"unknown variant: {}\", s))),\n            },\n            other => Err(pkl_core::PklError::TypeMismatch {\n                expected: \"string\",\n                actual: format!(\"{:?}\", other),\n            }),\n        }\n    }\n}\n",
    );
    assert(out@ =~= enum_text(ta@.name, ta@.variants));
    chars_to_string(&out)
}

fn all_variants_alphanumeric(vs: &Vec<String>) -> (r: bool)
    ensures
        r == all_start_alphanumeric(strings_view(vs@)),
{
    let ghost sv = strings_view(vs@);
    let mut i: usize = 0;
    while i < vs.len()
        invariant
            i <= vs@.len(),
            sv == strings_view(vs@),
            forall|k: int| 0 <= k < i ==> (#[trigger] sv[k]).len() > 0 && char_is_alphanumeric(sv[k][0]),
        decreases vs@.len() - i,
    {
        let v = str_to_chars(vs[i].as_str());
        assert(sv[i as int] == v@);
        if v.len() == 0 || !is_alphanumeric(v[0]) {
            return false;
        }
        i = i + 1;
    }
    true
}

fn push_alias(out: &mut Vec<char>, ta: &TypeAlias)
    ensures
        final(out)@ == old(out)@ + alias_text(ta@),
{
    if ta.is_union && ta.variants.len() > 1 && all_variants_alphanumeric(&ta.variants) {
        let e = generate_enum_from_union(ta);
        let ev = str_to_chars(e.as_str());
        push_all(out, &ev);
    } else {
        let name = str_to_chars(ta.name.as_str());
        let ty = str_to_chars(ta.type_str.as_str());
        let mapped = map_pkl_type_chars(&ty);
        push_str(out, "pub type ");
        push_all(out, &name);
        push_str(out, " = ");
        push_all(out, &mapped);
        push_str(out, ";\n\n");
    }
    assert(out@ =~= old(out)@ + alias_text(ta@));
}

/// Generates Rust source code from a parsed Pkl module: an enum for each
/// union of string literals (a type alias for any other alias), a struct for
/// each class, and a `Root` struct for the module-level properties.
pub fn generate_code(module: &Module) -> (r: String)
    ensures
        r@ == spec_generate_code(module@),
{
    let mut code = lit("// Auto-generated by pkl_codegen. Do not edit.\n\n");
    push_str(&mut code, "#![allow(dead_code, non_snake_case)]\n\n");
    push_str(&mut code, "use pkl_core::{PklDecode, Duration, DataSize, Value};\n");
    push_str(&mut code, "use std::collections::BTreeMap;\n\n");
    let ghost head = code@;
    assert(head =~= header_text());
    let ghost av = aliases_view(module.type_aliases@);
    let mut i: usize = 0;
    while i < module.type_aliases.len()
        invariant
            i <= module.type_aliases@.len(),
            av == aliases_view(module.type_aliases@),
            code@ == head + aliases_text(av.take(i as int)),
        decreases module.type_aliases@.len() - i,
    {
        push_alias(&mut code, &module.type_aliases[i]);
        proof {
            assert(av.take(i + 1).drop_last() =~= av.take(i as int));
            assert(av.take(i + 1).last() == module.type_aliases@[i as int]@);
            assert(code@ =~= head + aliases_text(av.take(i + 1)));
        }
        i = i + 1;
    }
    assert(av.take(av.len() as int) =~= av);
    let ghost mid = code@;
    let ghost cv = classes_view(module.classes@);
    let mut j: usize = 0;
    while j < module.classes.len()
        invariant
            j <= module.classes@.len(),
            cv == classes_view(module.classes@),
            code@ == mid + classes_text(cv.take(j as int)),
        decreases module.classes@.len() - j,
    {
        let s = generate_struct(&module.classes[j], module);
        let sv = str_to_chars(s.as_str());
        push_all(&mut code, &sv);
        code.push('\n');
        proof {
            assert(cv.take(j + 1).drop_last() =~= cv.take(j as int));
            assert(cv.take(j + 1).last() == module.classes@[j as int]@);
            reveal_strlit("\n");
            assert(code@ =~= mid + classes_text(cv.take(j + 1)));
        }
        j = j + 1;
    }
    assert(cv.take(cv.len() as int) =~= cv);
    let ghost before_root = code@;
    if module.properties.len() > 0 {
        let s = generate_root_struct(module);
        let sv = str_to_chars(s.as_str());
        push_all(&mut code, &sv);
        code.push('\n');
        proof {
            reveal_strlit("\n");
        }
    }
    assert(code@ =~= spec_generate_code(module@));
    chars_to_string(&code)
}

// ───────────────────────── What the generated text holds ─────────────────────────

/// `part` occurs in `whole`.
pub open spec fn is_infix(part: Seq<char>, whole: Seq<char>) -> bool {
    exists|i: int| 0 <= i <= whole.len() - part.len() && #[trigger] whole.subrange(i, i + part.len()) == part
}

proof fn lemma_infix_self(a: Seq<char>)
    ensures
        is_infix(a, a),
{
    let z: int = 0;
    assert(a.subrange(z, z + a.len()) =~= a);
}

proof fn lemma_infix_extend(a: Seq<char>, b: Seq<char>, c: Seq<char>, d: Seq<char>)
    requires
        is_infix(a, b),
    ensures
        is_infix(a, c + b + d),
{
    let i = choose|i: int| 0 <= i <= b.len() - a.len() && #[trigger] b.subrange(i, i + a.len()) == a;
    let w = c + b + d;
    assert(w.subrange(c.len() + i, c.len() + i + a.len()) =~= b.subrange(i, i + a.len()));
}

proof fn lemma_classes_text_holds(cs: Seq<ClassModel>, k: int)
    requires
        0 <= k < cs.len(),
    ensures
        is_infix(struct_text(cs[k]), classes_text(cs)),
    decreases cs.len(),
{
    let p = cs.drop_last();
    if k == cs.len() - 1 {
        lemma_infix_self(struct_text(cs[k]));
        lemma_infix_extend(struct_text(cs[k]), struct_text(cs[k]), classes_text(p), "\n"@);
    } else {
        lemma_classes_text_holds(p, k);
        assert(p[k] == cs[k]);
        lemma_infix_extend(struct_text(cs[k]), classes_text(p), seq![], struct_text(cs.last()) + "\n"@);
        assert(seq![] + classes_text(p) + (struct_text(cs.last()) + "\n"@) =~= classes_text(cs));
    }
}

proof fn lemma_aliases_text_holds(als: Seq<TypeAliasModel>, k: int)
    requires
        0 <= k < als.len(),
    ensures
        is_infix(alias_text(als[k]), aliases_text(als)),
    decreases als.len(),
{
    let p = als.drop_last();
    if k == als.len() - 1 {
        lemma_infix_self(alias_text(als[k]));
        lemma_infix_extend(alias_text(als[k]), alias_text(als[k]), aliases_text(p), seq![]);
        assert(aliases_text(p) + alias_text(als[k]) + seq![] =~= aliases_text(als));
    } else {
        lemma_aliases_text_holds(p, k);
        assert(p[k] == als[k]);
        lemma_infix_extend(alias_text(als[k]), aliases_text(p), seq![], alias_text(als.last()));
        assert(seq![] + aliases_text(p) + alias_text(als.last()) =~= aliases_text(als));
    }
}

/// The generated source starts with the file header and holds, for every
/// class of the module, its struct; for every type alias, its enum or Rust
/// type alias; and, where the module declares properties, the `Root`
/// struct of them.
pub proof fn lemma_generated_code_holds_every_item(m: ModuleModel)
    ensures
        spec_generate_code(m).take(header_text().len() as int) == header_text(),
        forall|k: int|
            0 <= k < m.classes.len() ==> is_infix(#[trigger] struct_text(m.classes[k]), spec_generate_code(m)),
        forall|k: int|
            0 <= k < m.type_aliases.len() ==> is_infix(#[trigger] alias_text(m.type_aliases[k]), spec_generate_code(m)),
        m.properties.len() > 0 ==> is_infix(root_text(m.properties), spec_generate_code(m)),
{
    let h = header_text();
    let at = aliases_text(m.type_aliases);
    let ct = classes_text(m.classes);
    let rt = if m.properties.len() > 0 {
        root_text(m.properties) + "\n"@
    } else {
        seq![]
    };
    let code = spec_generate_code(m);
    assert(code =~= h + at + ct + rt);
    assert(code.take(h.len() as int) =~= h);
    assert forall|k: int| 0 <= k < m.classes.len() implies is_infix(#[trigger] struct_text(m.classes[k]), code) by {
        lemma_classes_text_holds(m.classes, k);
        lemma_infix_extend(struct_text(m.classes[k]), ct, h + at, rt);
        assert(h + at + ct + rt =~= code);
    }
    assert forall|k: int| 0 <= k < m.type_aliases.len() implies is_infix(#[trigger] alias_text(m.type_aliases[k]), code) by {
        lemma_aliases_text_holds(m.type_aliases, k);
        lemma_infix_extend(alias_text(m.type_aliases[k]), at, h, ct + rt);
        assert(h + at + (ct + rt) =~= code);
    }
    if m.properties.len() > 0 {
        lemma_infix_self(root_text(m.properties));
        lemma_infix_extend(root_text(m.properties), root_text(m.properties), h + at + ct, "\n"@);
        assert(h + at + ct + root_text(m.properties) + "\n"@ =~= code);
    }
}


/// The opening of the struct generated for a class named `name`: it
/// derives `PklDecode` (with `Debug` and `Clone`).
pub open spec fn decodable_struct_opening(name: Seq<char>) -> Seq<char> {
    "#[derive(PklDecode, Debug, Clone)]\npub struct "@ + name + " {\n"@
}

/// Every class of the module is generated as a struct that derives
/// `PklDecode`: the generated code holds, for each class, the derive line
/// directly followed by `pub struct` and the class's name.
pub proof fn lemma_every_class_struct_derives_decode(m: ModuleModel)
    ensures
        forall|k: int|
            0 <= k < m.classes.len() ==> is_infix(
                #[trigger] decodable_struct_opening(m.classes[k].name),
                spec_generate_code(m),
            ),
{
    lemma_generated_code_holds_every_item(m);
    let code = spec_generate_code(m);
    assert forall|k: int| 0 <= k < m.classes.len() implies is_infix(
        #[trigger] decodable_struct_opening(m.classes[k].name),
        code,
    ) by {
        let st = struct_text(m.classes[k]);
        let o = decodable_struct_opening(m.classes[k].name);
        assert(is_infix(st, code));
        let f = fields_text(m.classes[k].properties);
        let d = "}\n"@;
        reveal_strlit("#[derive(PklDecode, Debug, Clone)]\n");
        reveal_strlit("pub struct ");
        reveal_strlit("#[derive(PklDecode, Debug, Clone)]\npub struct ");
        assert("#[derive(PklDecode, Debug, Clone)]\n"@ + "pub struct "@ =~= "#[derive(PklDecode, Debug, Clone)]\npub struct "@);
        assert(st =~= o + f + d);
        assert(o + f + d =~= o + (f + d));
        let i = choose|i: int| 0 <= i <= code.len() - st.len() && #[trigger] code.subrange(i, i + st.len()) == st;
        assert(code.subrange(i, i + o.len()) =~= st.subrange(0, o.len() as int));
        assert(st.subrange(0, o.len() as int) =~= o);
    }
}

} // verus!
