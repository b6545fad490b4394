//! What the `PklDecode` derive decides for a type: the Pkl property each
//! field is read from and how, and the tag that selects each variant of a
//! tagged enum. The derive reads `#[pkl(...)]` attributes; each item of
//! them is given here as a `PklAttr`.
use vstd::prelude::*;
use crate::codegen::types::{snake_to_camel, spec_snake_to_camel};

verus! {

/// One item of a `#[pkl(...)]` attribute.
#[derive(Debug)]
pub enum PklAttr {
    /// `default`: use `Default::default()` when the property is missing.
    Default,
    /// `skip`: do not read the field at all.
    Skip,
    /// `flatten`: capture all properties into the field.
    Flatten,
    /// `rename = "name"`: read the field from this property.
    Rename(String),
    /// `tag = "value"`: the tag field of an enum, or a variant's tag value.
    Tag(String),
    /// Anything else, which the derive ignores.
    Other,
}

/// How the derive reads one field.
#[derive(Debug)]
pub struct FieldSettings {
    /// The Pkl property the field is read from.
    pub pkl_name: String,
    pub has_default: bool,
    pub skip: bool,
    pub flatten: bool,
}

/// The settings after the attribute items `attrs`, for a field named
/// `field`: the property name starts as the field name in camelCase; a
/// later `rename` replaces an earlier one.
pub open spec fn settings_after(field: Seq<char>, attrs: Seq<PklAttr>) -> (Seq<char>, bool, bool, bool)
    decreases attrs.len(),
{
    if attrs.len() == 0 {
        (spec_snake_to_camel(field), false, false, false)
    } else {
        let (n, d, s, f) = settings_after(field, attrs.drop_last());
        match attrs.last() {
            PklAttr::Default => (n, true, s, f),
            PklAttr::Skip => (n, d, true, f),
            PklAttr::Flatten => (n, d, s, true),
            PklAttr::Rename(r) => (r@, d, s, f),
            _ => (n, d, s, f),
        }
    }
}

pub open spec fn settings_view(s: FieldSettings) -> (Seq<char>, bool, bool, bool) {
    (s.pkl_name@, s.has_default, s.skip, s.flatten)
}

/// The settings of a field named `field_name` with the given `#[pkl(...)]`
/// items, in the order they are written.
pub fn field_settings(field_name: &str, attrs: &Vec<PklAttr>) -> (r: FieldSettings)
    ensures
        settings_view(r) == settings_after(field_name@, attrs@),
{
    let mut pkl_name = snake_to_camel(field_name);
    let mut has_default = false;
    let mut skip = false;
    let mut flatten = false;
    let mut i: usize = 0;
    while i < attrs.len()
        invariant
            i <= attrs@.len(),
            (pkl_name@, has_default, skip, flatten) == settings_after(field_name@, attrs@.take(i as int)),
        decreases attrs@.len() - i,
    {
        proof {
            assert(attrs@.take(i + 1).drop_last() =~= attrs@.take(i as int));
            assert(attrs@.take(i + 1).last() == attrs@[i as int]);
        }
        match &attrs[i] {
            PklAttr::Default => {
                has_default = true;
            },
            PklAttr::Skip => {
                skip = true;
            },
            PklAttr::Flatten => {
                flatten = true;
            },
            PklAttr::Rename(r) => {
                pkl_name = r.clone();
            },
            _ => {},
        }
        i = i + 1;
    }
    assert(attrs@.take(attrs@.len() as int) =~= attrs@);
    FieldSettings { pkl_name, has_default, skip, flatten }
}

/// How a field's value is obtained.
#[derive(Debug, PartialEq, Eq)]
pub enum FieldRead {
    /// `Default::default()`, without reading anything.
    Skipped,
    /// All the object's properties.
    Flattened,
    /// The property if present, else `Default::default()`.
    OrDefault(String),
    /// The property, which must be present (else a missing-property error).
    Required(String),
}

/// How a field with the given settings is read: skipping wins over
/// flattening, which wins over a default.
pub open spec fn spec_field_read(s: (Seq<char>, bool, bool, bool)) -> (u8, Seq<char>) {
    let (n, d, skip, flat) = s;
    if skip {
        (0, seq![])
    } else if flat {
        (1, seq![])
    } else if d {
        (2, n)
    } else {
        (3, n)
    }
}

pub open spec fn read_view(r: FieldRead) -> (u8, Seq<char>) {
    match r {
        FieldRead::Skipped => (0, seq![]),
        FieldRead::Flattened => (1, seq![]),
        FieldRead::OrDefault(n) => (2, n@),
        FieldRead::Required(n) => (3, n@),
    }
}

/// How the derive reads a field with these settings.
pub fn field_read(s: &FieldSettings) -> (r: FieldRead)
    ensures
        read_view(r) == spec_field_read(settings_view(*s)),
{
    if s.skip {
        FieldRead::Skipped
    } else if s.flatten {
        FieldRead::Flattened
    } else if s.has_default {
        FieldRead::OrDefault(s.pkl_name.clone())
    } else {
        FieldRead::Required(s.pkl_name.clone())
    }
}

/// The first `tag` among the items, if any.
pub open spec fn first_tag(attrs: Seq<PklAttr>) -> Option<Seq<char>>
    decreases attrs.len(),
{
    if attrs.len() == 0 {
        None
    } else {
        match attrs[0] {
            PklAttr::Tag(t) => Some(t@),
            _ => first_tag(attrs.drop_first()),
        }
    }
}

/// The tag field of an enum: the first `tag` of its `#[pkl(...)]` items;
/// without one, the enum is untagged.
pub fn enum_tag_field(attrs: &Vec<PklAttr>) -> (r: Option<String>)
    ensures
        match r {
            Some(t) => first_tag(attrs@) == Some(t@),
            None => first_tag(attrs@) is None,
        },
{
    let mut i: usize = 0;
    assert(attrs@.skip(0) =~= attrs@);
    while i < attrs.len()
        invariant
            i <= attrs@.len(),
            first_tag(attrs@) == first_tag(attrs@.skip(i as int)),
        decreases attrs@.len() - i,
    {
        proof {
            assert(attrs@.skip(i as int)[0] == attrs@[i as int]);
            assert(attrs@.skip(i as int).drop_first() =~= attrs@.skip(i + 1));
        }
        match &attrs[i] {
            PklAttr::Tag(t) => {
                return Some(t.clone());
            },
            _ => {},
        }
        i = i + 1;
    }
    None
}

/// The tag value of a variant: its name in camelCase, replaced by each
/// `tag` item in turn (the last one wins).
pub open spec fn variant_tag(name: Seq<char>, attrs: Seq<PklAttr>) -> Seq<char>
    decreases attrs.len(),
{
    if attrs.len() == 0 {
        spec_snake_to_camel(name)
    } else {
        match attrs.last() {
            PklAttr::Tag(t) => t@,
            _ => variant_tag(name, attrs.drop_last()),
        }
    }
}

/// The tag value that selects the variant `variant_name` of a tagged enum.
pub fn variant_tag_value(variant_name: &str, attrs: &Vec<PklAttr>) -> (r: String)
    ensures
        r@ == variant_tag(variant_name@, attrs@),
{
    let mut tag = snake_to_camel(variant_name);
    let mut i: usize = 0;
    while i < attrs.len()
        invariant
            i <= attrs@.len(),
            tag@ == variant_tag(variant_name@, attrs@.take(i as int)),
        decreases attrs@.len() - i,
    {
        proof {
            assert(attrs@.take(i + 1).drop_last() =~= attrs@.take(i as int));
            assert(attrs@.take(i + 1).last() == attrs@[i as int]);
        }
        match &attrs[i] {
            PklAttr::Tag(t) => {
                tag = t.clone();
            },
            _ => {},
        }
        i = i + 1;
    }
    assert(attrs@.take(attrs@.len() as int) =~= attrs@);
    tag
}


/// A `rename = r` item that no later `rename` follows fixes the field's
/// Pkl property name to `r` exactly, whatever the field is called and
/// whatever other items stand around it.
pub proof fn lemma_last_rename_names_the_property(field: Seq<char>, attrs: Seq<PklAttr>, i: int)
    requires
        0 <= i < attrs.len(),
        attrs[i] is Rename,
        forall|j: int| i < j < attrs.len() ==> !(#[trigger] attrs[j] is Rename),
    ensures
        settings_after(field, attrs).0 == (match attrs[i] {
            PklAttr::Rename(r) => r@,
            _ => seq![],
        }),
    decreases attrs.len(),
{
    if i < attrs.len() - 1 {
        assert(!(attrs[attrs.len() - 1] is Rename));
        assert forall|j: int| i < j < attrs.drop_last().len() implies !(#[trigger] attrs.drop_last()[j] is Rename) by {
            assert(attrs.drop_last()[j] == attrs[j]);
        }
        assert(attrs.drop_last()[i] == attrs[i]);
        lemma_last_rename_names_the_property(field, attrs.drop_last(), i);
    }
}

/// Without a `rename` item the property name is the field name in
/// camelCase, whatever other items there are.
pub proof fn lemma_no_rename_keeps_camel_name(field: Seq<char>, attrs: Seq<PklAttr>)
    requires
        forall|j: int| 0 <= j < attrs.len() ==> !(#[trigger] attrs[j] is Rename),
    ensures
        settings_after(field, attrs).0 == spec_snake_to_camel(field),
    decreases attrs.len(),
{
    if attrs.len() > 0 {
        assert(!(attrs[attrs.len() - 1] is Rename));
        assert forall|j: int| 0 <= j < attrs.drop_last().len() implies !(#[trigger] attrs.drop_last()[j] is Rename) by {
            assert(attrs.drop_last()[j] == attrs[j]);
        }
        lemma_no_rename_keeps_camel_name(field, attrs.drop_last());
    }
}


/// The flags of a field's settings: it has a default exactly when some item
/// is `default`, is skipped exactly when some item is `skip`, and is
/// flattened exactly when some item is `flatten`, in any order and among
/// any other items.
pub proof fn lemma_flags_follow_items(field: Seq<char>, attrs: Seq<PklAttr>)
    ensures
        settings_after(field, attrs).1 == exists|j: int| 0 <= j < attrs.len() && #[trigger] attrs[j] is Default,
        settings_after(field, attrs).2 == exists|j: int| 0 <= j < attrs.len() && #[trigger] attrs[j] is Skip,
        settings_after(field, attrs).3 == exists|j: int| 0 <= j < attrs.len() && #[trigger] attrs[j] is Flatten,
    decreases attrs.len(),
{
    if attrs.len() > 0 {
        let p = attrs.drop_last();
        lemma_flags_follow_items(field, p);
        let l = attrs.len() - 1;
        assert forall|j: int| 0 <= j < p.len() implies #[trigger] p[j] == attrs[j] by {}
        if exists|j: int| 0 <= j < attrs.len() && #[trigger] attrs[j] is Default {
            let j = choose|j: int| 0 <= j < attrs.len() && #[trigger] attrs[j] is Default;
            if j < l {
                assert(p[j] is Default);
            }
        }
        if exists|j: int| 0 <= j < attrs.len() && #[trigger] attrs[j] is Skip {
            let j = choose|j: int| 0 <= j < attrs.len() && #[trigger] attrs[j] is Skip;
            if j < l {
                assert(p[j] is Skip);
            }
        }
        if exists|j: int| 0 <= j < attrs.len() && #[trigger] attrs[j] is Flatten {
            let j = choose|j: int| 0 <= j < attrs.len() && #[trigger] attrs[j] is Flatten;
            if j < l {
                assert(p[j] is Flatten);
            }
        }
        if exists|j: int| 0 <= j < p.len() && #[trigger] p[j] is Default {
            let j = choose|j: int| 0 <= j < p.len() && #[trigger] p[j] is Default;
            assert(attrs[j] is Default);
        }
        if exists|j: int| 0 <= j < p.len() && #[trigger] p[j] is Skip {
            let j = choose|j: int| 0 <= j < p.len() && #[trigger] p[j] is Skip;
            assert(attrs[j] is Skip);
        }
        if exists|j: int| 0 <= j < p.len() && #[trigger] p[j] is Flatten {
            let j = choose|j: int| 0 <= j < p.len() && #[trigger] p[j] is Flatten;
            assert(attrs[j] is Flatten);
        }
        assert(attrs[l] == attrs.last());
    }
}

} // verus!
