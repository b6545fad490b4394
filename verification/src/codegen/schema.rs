//! The schema extracted from a Pkl module: classes, type aliases and
//! properties, with their mathematical models.
use vstd::prelude::*;
pub use crate::text::{opt_str, strings_view};

verus! {

/// A parsed Pkl property declaration.
#[derive(Debug)]
pub struct Property {
    /// The property name.
    pub name: String,
    /// The type string (e.g. `"String"`, `"List<Int>"`), without a trailing `?`.
    pub type_str: String,
    /// Whether the property is nullable (`String?`).
    pub optional: bool,
    /// Whether the property has a default value.
    pub has_default: bool,
    /// Modifiers applied to this property (e.g. `hidden`, `local`, `fixed`).
    pub modifiers: Vec<String>,
}

/// A parsed Pkl class definition.
#[derive(Debug)]
pub struct Class {
    /// The class name.
    pub name: String,
    /// The parent class name, if this class extends another.
    pub superclass: Option<String>,
    /// Properties declared in this class.
    pub properties: Vec<Property>,
    /// Whether this class is declared `open` for extension.
    pub is_open: bool,
    /// Whether this class is declared `abstract`.
    pub is_abstract: bool,
}

/// A parsed Pkl type alias.
#[derive(Debug)]
pub struct TypeAlias {
    /// The alias name.
    pub name: String,
    /// The full type expression (e.g. `"Seeds" | "Berries" | "Insects"`).
    pub type_str: String,
    /// Whether this is a union type (contains `|`).
    pub is_union: bool,
    /// For string literal unions, the individual variant values.
    pub variants: Vec<String>,
}

/// A parsed Pkl module containing classes, type aliases, and properties.
#[derive(Debug)]
pub struct Module {
    /// Class definitions found in the module.
    pub classes: Vec<Class>,
    /// Type alias definitions.
    pub type_aliases: Vec<TypeAlias>,
    /// Module-level property declarations.
    pub properties: Vec<Property>,
}

pub struct PropertyModel {
    pub name: Seq<char>,
    pub type_str: Seq<char>,
    pub optional: bool,
    pub has_default: bool,
    pub modifiers: Seq<Seq<char>>,
}

pub struct ClassModel {
    pub name: Seq<char>,
    pub superclass: Option<Seq<char>>,
    pub properties: Seq<PropertyModel>,
    pub is_open: bool,
    pub is_abstract: bool,
}

pub struct TypeAliasModel {
    pub name: Seq<char>,
    pub type_str: Seq<char>,
    pub is_union: bool,
    pub variants: Seq<Seq<char>>,
}

pub struct ModuleModel {
    pub classes: Seq<ClassModel>,
    pub type_aliases: Seq<TypeAliasModel>,
    pub properties: Seq<PropertyModel>,
}



impl View for Property {
    type V = PropertyModel;

    open spec fn view(&self) -> PropertyModel {
        PropertyModel {
            name: self.name@,
            type_str: self.type_str@,
            optional: self.optional,
            has_default: self.has_default,
            modifiers: strings_view(self.modifiers@),
        }
    }
}

pub open spec fn properties_view(v: Seq<Property>) -> Seq<PropertyModel> {
    Seq::new(v.len(), |i: int| v[i]@)
}

impl View for Class {
    type V = ClassModel;

    open spec fn view(&self) -> ClassModel {
        ClassModel {
            name: self.name@,
            superclass: opt_str(self.superclass),
            properties: properties_view(self.properties@),
            is_open: self.is_open,
            is_abstract: self.is_abstract,
        }
    }
}

impl View for TypeAlias {
    type V = TypeAliasModel;

    open spec fn view(&self) -> TypeAliasModel {
        TypeAliasModel {
            name: self.name@,
            type_str: self.type_str@,
            is_union: self.is_union,
            variants: strings_view(self.variants@),
        }
    }
}

pub open spec fn classes_view(v: Seq<Class>) -> Seq<ClassModel> {
    Seq::new(v.len(), |i: int| v[i]@)
}

pub open spec fn aliases_view(v: Seq<TypeAlias>) -> Seq<TypeAliasModel> {
    Seq::new(v.len(), |i: int| v[i]@)
}

impl View for Module {
    type V = ModuleModel;

    open spec fn view(&self) -> ModuleModel {
        ModuleModel {
            classes: classes_view(self.classes@),
            type_aliases: aliases_view(self.type_aliases@),
            properties: properties_view(self.properties@),
        }
    }
}

} // verus!
