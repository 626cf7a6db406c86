use vstd::prelude::*;
use crate::vhdl::library_use::LibraryUse;
use crate::text_util::spec_strip_spaces;
use crate::text_util::spec_starts_with;

verus! {

/// The implicit package import that a data type asks for: types starting
/// with `std_logic` need the standard logic package, `signed` and
/// `unsigned` types need the numeric package, and every other type needs
/// none.  Spaces in the type text are ignored.
pub open spec fn spec_known_library_use(data_type: Seq<char>) -> Option<(Seq<char>, Seq<char>)> {
    let stripped = spec_strip_spaces(data_type);
    if spec_starts_with(stripped, "std_logic"@) {
        Some(("ieee"@, "std_logic_1164"@))
    } else if spec_starts_with(stripped, "signed"@) {
        Some(("ieee"@, "numeric_std"@))
    } else if spec_starts_with(stripped, "unsigned"@) {
        Some(("ieee"@, "numeric_std"@))
    } else {
        None
    }
}

/// Decides whether the given data type requires an implicit package
/// import, and which.  Unknown types yield none; that is no error.
pub fn get_known_library_use(data_type: &str) -> (r: Option<LibraryUse>)
    ensures
        match r {
            Some(u) => {
                &&& spec_known_library_use(data_type@) is Some
                &&& u.library@ == spec_known_library_use(data_type@).unwrap().0
                &&& u.package@ == spec_known_library_use(data_type@).unwrap().1
                &&& u.element@ == "all"@
            },
            None => spec_known_library_use(data_type@) is None,
        },
{
    let stripped = crate::text_util::strip_spaces(data_type);
    if crate::text_util::starts_with(stripped.as_str(), "std_logic") {
        Some(LibraryUse::new("ieee", "std_logic_1164"))
    } else if crate::text_util::starts_with(stripped.as_str(), "signed") {
        Some(LibraryUse::new("ieee", "numeric_std"))
    } else if crate::text_util::starts_with(stripped.as_str(), "unsigned") {
        Some(LibraryUse::new("ieee", "numeric_std"))
    } else {
        None
    }
}

} // verus!
