//! External reader traits for custom resource and module loading.
//!
//! These traits let users register custom URI scheme handlers with the
//! server evaluator. When Pkl code calls `read("myscheme:...")` or
//! `import "myscheme:..."`, the registered reader handles it.
use vstd::prelude::*;

verus! {

/// A single path element returned by `list_elements`.
#[derive(Debug, Clone)]
pub struct PathElement {
    name: String,
    is_directory: bool,
}

impl PathElement {
    /// The element's name and whether it is a directory.
    pub closed spec fn view_parts(&self) -> (Seq<char>, bool) {
        (self.name@, self.is_directory)
    }

    pub fn new(name: &str, is_directory: bool) -> (r: PathElement)
        ensures
            r.view_parts() == (name@, is_directory),
    {
        PathElement { name: name.to_string(), is_directory }
    }

    pub fn name(&self) -> (r: &str)
        ensures
            r@ == self.view_parts().0,
    {
        self.name.as_str()
    }

    pub fn is_directory(&self) -> (r: bool)
        ensures
            r == self.view_parts().1,
    {
        self.is_directory
    }
}

/// Error returned by `ResourceReader::read` to indicate the resource was not found.
#[derive(Debug, Clone)]
pub struct ResourceNotFound(pub String);

impl ResourceNotFound {
    /// The error's message: `resource not found: ` and the resource.
    pub fn message(&self) -> (r: String)
        ensures
            r@ == "resource not found: "@ + self.0@,
    {
        let mut s = "resource not found: ".to_string();
        s.append(self.0.as_str());
        s
    }
}

/// A custom resource reader for Pkl.
///
/// Handles `read("scheme:...")` and `read?("scheme:...")` calls in Pkl code.
pub trait ResourceReader: Send + Sync {
    /// The URI scheme this reader handles (e.g. "secrets", "db").
    fn scheme(&self) -> &str;

    /// Read the byte contents of the resource at the given URI.
    fn read(&self, uri: &str) -> Result<Vec<u8>, String>;

    /// Whether this reader supports globbing (`read*("scheme:pattern")`).
    fn is_globbable(&self) -> (r: bool)
        default_ensures
            !r,
    {
        false
    }

    /// Whether URIs for this scheme use hierarchical paths (/).
    fn has_hierarchical_uris(&self) -> (r: bool)
        default_ensures
            !r,
    {
        false
    }

    /// List elements at a path (only called if is_globbable or hierarchical).
    fn list_elements(&self, uri: &str) -> (r: Result<Vec<PathElement>, String>)
        default_ensures
            r matches Err(e) && e@ == "list_elements not supported"@,
    {
        Err("list_elements not supported".to_string())
    }
}

/// A custom module reader for Pkl.
///
/// Handles `import "scheme:..."` and `import("scheme:...")` calls in Pkl code.
pub trait ModuleReader: Send + Sync {
    /// The URI scheme this reader handles.
    fn scheme(&self) -> &str;

    /// Read the string contents of the module at the given URI.
    fn read(&self, uri: &str) -> Result<String, String>;

    /// Whether this reader is considered local (enables `...` triple-dot imports).
    fn is_local(&self) -> (r: bool)
        default_ensures
            !r,
    {
        false
    }

    /// Whether this reader supports globbing (`import* "scheme:pattern"`).
    fn is_globbable(&self) -> (r: bool)
        default_ensures
            !r,
    {
        false
    }

    /// Whether URIs for this scheme use hierarchical paths.
    fn has_hierarchical_uris(&self) -> (r: bool)
        default_ensures
            !r,
    {
        false
    }

    /// List elements at a path.
    fn list_elements(&self, uri: &str) -> (r: Result<Vec<PathElement>, String>)
        default_ensures
            r matches Err(e) && e@ == "list_elements not supported"@,
    {
        Err("list_elements not supported".to_string())
    }
}

} // verus!
