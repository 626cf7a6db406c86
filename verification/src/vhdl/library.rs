use vstd::prelude::*;
use vstd::string::StringExecFns;
use crate::util::spec_indent;
use crate::util::spec_next_level;
use crate::vhdl::library_use::LibraryUse;
use crate::vhdl::library_use::spec_use_clause;
use crate::ordered_set::use_set_contents;

verus! {

/// Text of a list of use-clauses, one per line.
pub open spec fn spec_use_clauses(ms: Seq<(Seq<char>, Seq<char>, Seq<char>)>, indent: nat) -> Seq<
    char,
>
    decreases ms.len(),
{
    if ms.len() == 0 {
        Seq::empty()
    } else {
        spec_use_clauses(ms.drop_last(), indent) + spec_use_clause(ms.last(), indent)
    }
}

/// Text of a library clause given its name and its use-clauses.
pub open spec fn spec_library_code(
    m: (Seq<char>, Seq<(Seq<char>, Seq<char>, Seq<char>)>),
    indent: nat,
) -> Seq<char> {
    spec_indent(indent) + "library "@ + m.0 + ";\n"@ + spec_use_clauses(
        m.1,
        spec_next_level(indent),
    )
}

/// A library dependency: a name together with an insertion-ordered set of
/// use-clauses.
#[derive(Debug)]
pub struct Library {
    pub name: String,
    pub uses: linked_hash_set::LinkedHashSet<LibraryUse>,
}

impl Clone for Library {
    fn clone(&self) -> (r: Self)
        ensures
            r.model() == self.model(),
    {
        Library { name: self.name.clone(), uses: crate::ordered_set::use_set_clone(&self.uses) }
    }
}

impl Library {
    /// The name and the ordered use-clauses, as plain values.
    pub open spec fn model(self) -> (Seq<char>, Seq<(Seq<char>, Seq<char>, Seq<char>)>) {
        (self.name@, use_set_contents(self.uses))
    }

    pub open spec fn spec_source_code(self, indent: nat) -> Seq<char> {
        spec_library_code(self.model(), indent)
    }

    pub fn new(name: &str) -> (r: Library)
        ensures
            r.name@ == name@,
            use_set_contents(r.uses) == Seq::<(Seq<char>, Seq<char>, Seq<char>)>::empty(),
    {
        Library { name: String::from_str(name), uses: crate::ordered_set::new_use_set() }
    }

    pub fn get_name(&self) -> (r: &String)
        ensures
            r@ == self.name@,
    {
        &self.name
    }

    /// Adds a use-clause; one already present is a no-op.
    pub fn add_use(&mut self, library_use: LibraryUse)
        ensures
            final(self).name == old(self).name,
            use_set_contents(final(self).uses) == if use_set_contents(old(self).uses).contains(
                library_use.model(),
            ) {
                use_set_contents(old(self).uses)
            } else {
                use_set_contents(old(self).uses).push(library_use.model())
            },
    {
        crate::ordered_set::use_set_insert(&mut self.uses, library_use);
    }

    pub fn to_source_code(&self, indent: usize) -> (r: String)
        ensures
            r@ == self.spec_source_code(indent as nat),
    {
        let mut source = crate::util::indent(indent);
        source.append("library ");
        source.append(self.name.as_str());
        source.append(";\n");
        let deeper = crate::util::next_level(indent);
        let uses = crate::ordered_set::use_set_to_vec(&self.uses);
        let ghost contents = use_set_contents(self.uses);
        let n: usize = uses.len();
        let mut i: usize = 0;
        while i < n
            invariant
                n == uses@.len(),
                i <= n,
                crate::ordered_set::use_models_of(uses@) == contents,
                deeper as nat == spec_next_level(indent as nat),
                source@ == spec_indent(indent as nat) + "library "@ + self.name@ + ";\n"@
                    + spec_use_clauses(contents.take(i as int), deeper as nat),
            decreases n - i,
        {
            let clause = uses[i].to_source_code(deeper);
            source.append(clause.as_str());
            proof {
                assert(contents.take(i + 1 as int).drop_last() =~~= contents.take(i as int));
                assert(contents.take(i + 1 as int).last() == uses@[i as int].model());
            }
            i = i + 1;
        }
        proof {
            assert(contents.take(n as int) =~~= contents);
        }
        source
    }
}

} // verus!
