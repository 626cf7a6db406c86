use vstd::prelude::*;
use vstd::string::StringExecFns;
use crate::comment::single_line_comment::spec_comment_lines;
use crate::util::spec_header;
use crate::util::spec_indent;
use crate::util::spec_split_lines;
use crate::vhdl::architecture::Architecture;
use crate::vhdl::entity::Entity;
use crate::vhdl::single_line_comment::SingleLineComment;

verus! {

/// A top-level design unit of a source file.
#[derive(Debug)]
pub enum DesignUnit {
    Entity(Entity),
    Architecture(Architecture),
}

impl DesignUnit {
    pub open spec fn wf(self) -> bool {
        match self {
            DesignUnit::Entity(_) => true,
            DesignUnit::Architecture(a) => a.wf(),
        }
    }

    pub open spec fn spec_source_code(self, indent: nat) -> Seq<char> {
        match self {
            DesignUnit::Entity(e) => e.spec_source_code(indent),
            DesignUnit::Architecture(a) => a.spec_source_code(indent),
        }
    }
}

/// Text of a list of design units, a blank line after each.
pub open spec fn spec_design_units_code(units: Seq<DesignUnit>, indent: nat) -> Seq<char>
    decreases units.len(),
{
    if units.len() == 0 {
        Seq::empty()
    } else {
        spec_design_units_code(units.drop_last(), indent) + units.last().spec_source_code(indent)
            + "\n"@
    }
}

/// Text of the generated-file banner as a comment block, around a
/// timestamp.
pub open spec fn spec_rendered_header(timestamp: Seq<char>) -> Seq<char> {
    if spec_header(timestamp).len() == 0 {
        Seq::<char>::empty()
    } else {
        spec_comment_lines(spec_split_lines(spec_header(timestamp)), spec_indent(0), "--"@)
    }
}

/// An ordered collection of design units destined for one source file.
#[derive(Debug)]
pub struct VhdlFile {
    pub file_name: String,
    pub design_units: Vec<DesignUnit>,
}

impl VhdlFile {
    pub open spec fn wf(self) -> bool {
        forall|k: int| 0 <= k < self.design_units@.len() ==> (#[trigger] self.design_units@[k]).wf()
    }

    pub fn new(file_name: &str) -> (r: VhdlFile)
        ensures
            r.file_name@ == file_name@,
            r.design_units@ == Seq::<DesignUnit>::empty(),
            r.wf(),
    {
        VhdlFile { file_name: String::from_str(file_name), design_units: Vec::new() }
    }

    pub fn add_entity(&mut self, design_unit: Entity)
        ensures
            final(self).file_name == old(self).file_name,
            final(self).design_units@ == old(self).design_units@.push(
                DesignUnit::Entity(design_unit),
            ),
            old(self).wf() ==> final(self).wf(),
    {
        self.design_units.push(DesignUnit::Entity(design_unit));
    }

    pub fn add_architecture(&mut self, design_unit: Architecture)
        requires
            design_unit.wf(),
        ensures
            final(self).file_name == old(self).file_name,
            final(self).design_units@ == old(self).design_units@.push(
                DesignUnit::Architecture(design_unit),
            ),
            old(self).wf() ==> final(self).wf(),
    {
        self.design_units.push(DesignUnit::Architecture(design_unit));
    }

    pub fn get_file_name(&self) -> (r: &String)
        ensures
            r@ == self.file_name@,
    {
        &self.file_name
    }

    /// The banner written above the rendered units; only its timestamp
    /// varies between runs.
    pub fn get_file_header(&self) -> (r: String)
        ensures
            exists|timestamp: Seq<char>| r@ == spec_rendered_header(timestamp),
    {
        let text = crate::util::header();
        let ghost ts = choose|ts: Seq<char>| text@ == spec_header(ts);
        let comment = SingleLineComment::new_with_text(text.as_str());
        let r = comment.to_source_code(0);
        proof {
            assert(r@ == spec_rendered_header(ts));
        }
        r
    }

    pub open spec fn spec_source_code(self, indent: nat) -> Seq<char> {
        spec_design_units_code(self.design_units@, indent)
    }

    pub fn to_source_code(&self, indent: usize) -> (r: String)
        requires
            self.wf(),
        ensures
            r@ == self.spec_source_code(indent as nat),
    {
        let mut source = String::new();
        let n: usize = self.design_units.len();
        let mut i: usize = 0;
        while i < n
            invariant
                n == self.design_units@.len(),
                i <= n,
                self.wf(),
                source@ == spec_design_units_code(self.design_units@.take(i as int), indent as nat),
            decreases n - i,
        {
            proof {
                assert(self.design_units@[i as int].wf());
            }
            let text = match &self.design_units[i] {
                DesignUnit::Entity(e) => e.to_source_code(indent),
                DesignUnit::Architecture(a) => a.to_source_code(indent),
            };
            source.append(text.as_str());
            source.append("\n");
            proof {
                assert(self.design_units@.take(i + 1 as int).drop_last() =~= self.design_units@.take(
                    i as int,
                ));
                assert(self.design_units@.take(i + 1 as int).last()
                    == self.design_units@[i as int]);
            }
            i = i + 1;
        }
        proof {
            assert(self.design_units@.take(n as int) =~= self.design_units@);
        }
        source
    }
}

/// Rendering is deterministic: the text of a file is a function of the
/// design model alone, so identical builder-call sequences, which build
/// equal models, render byte-identically.  Only the file banner departs
/// from this, by exactly its one timestamp line.
pub proof fn lemma_deterministic_rendering(f1: VhdlFile, f2: VhdlFile, indent: nat)
    requires
        f1 == f2,
    ensures
        f1.spec_source_code(indent) == f2.spec_source_code(indent),
{
}

} // verus!
