use vstd::prelude::*;
use vstd::string::StringExecFns;
use crate::util::spec_indent;

verus! {

/// Text of one use-clause given its three identifiers.
pub open spec fn spec_use_clause(m: (Seq<char>, Seq<char>, Seq<char>), indent: nat) -> Seq<char> {
    spec_indent(indent) + "use "@ + m.0 + "."@ + m.1 + "."@ + m.2 + ";\n"@
}

/// A use-clause making one element (or all) of a package visible.
#[derive(Debug, Hash, PartialEq, Eq)]
pub struct LibraryUse {
    pub library: String,
    pub package: String,
    pub element: String,
}

impl Clone for LibraryUse {
    fn clone(&self) -> (r: Self)
        ensures
            r == *self,
    {
        LibraryUse {
            library: self.library.clone(),
            package: self.package.clone(),
            element: self.element.clone(),
        }
    }
}

impl LibraryUse {
    /// The three identifiers of the clause, as one plain value.
    pub open spec fn model(self) -> (Seq<char>, Seq<char>, Seq<char>) {
        (self.library@, self.package@, self.element@)
    }

    pub open spec fn spec_source_code(self, indent: nat) -> Seq<char> {
        spec_use_clause(self.model(), indent)
    }

    pub fn new(library: &str, package: &str) -> (r: LibraryUse)
        ensures
            r.library@ == library@,
            r.package@ == package@,
            r.element@ == "all"@,
    {
        LibraryUse {
            library: String::from_str(library),
            package: String::from_str(package),
            element: String::from_str("all"),
        }
    }

    pub fn new_with_element(library: &str, package: &str, element: &str) -> (r: LibraryUse)
        ensures
            r.library@ == library@,
            r.package@ == package@,
            r.element@ == element@,
    {
        LibraryUse {
            library: String::from_str(library),
            package: String::from_str(package),
            element: String::from_str(element),
        }
    }

    pub fn get_library_name(&self) -> (r: &String)
        ensures
            r@ == self.library@,
    {
        &self.library
    }

    pub fn to_source_code(&self, indent: usize) -> (r: String)
        ensures
            r@ == self.spec_source_code(indent as nat),
    {
        let mut source = crate::util::indent(indent);
        source.append("use ");
        source.append(self.library.as_str());
        source.append(".");
        source.append(self.package.as_str());
        source.append(".");
        source.append(self.element.as_str());
        source.append(";\n");
        source
    }
}


impl crate::element::Element for LibraryUse {
    fn to_source_code(&self, indent: usize) -> (r: String)
        ensures
            r@ == self.spec_source_code(indent as nat),
    {
        LibraryUse::to_source_code(self, indent)
    }
}

} // verus!
