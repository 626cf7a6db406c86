use vstd::prelude::*;
use vstd::string::StringExecFns;
use crate::util::spec_indent;
use crate::util::spec_next_level;
use crate::vhdl::constant_declaration::ConstantDeclaration;
use crate::vhdl::sensitivity_list::SensitivityList;
use crate::vhdl::sensitivity_list::spec_sensitivity_code;
use crate::vhdl::variable_declaration::VariableDeclaration;

verus! {

/// A declaration that may stand in a process head.
#[derive(Debug)]
pub enum ProcessDeclarative {
    Constant(ConstantDeclaration),
    Variable(VariableDeclaration),
}

impl ProcessDeclarative {
    pub open spec fn spec_source_code(self, indent: nat) -> Seq<char> {
        match self {
            ProcessDeclarative::Constant(c) => c.spec_source_code(indent),
            ProcessDeclarative::Variable(v) => v.spec_source_code(indent),
        }
    }
}

/// Text of a list of process declarations.
pub open spec fn spec_process_declarations(ds: Seq<ProcessDeclarative>, indent: nat) -> Seq<char>
    decreases ds.len(),
{
    if ds.len() == 0 {
        Seq::empty()
    } else {
        spec_process_declarations(ds.drop_last(), indent) + ds.last().spec_source_code(indent)
    }
}

/// A labelled process statement with a sensitivity list and local
/// declarations.
#[derive(Debug)]
pub struct Process {
    pub label: String,
    pub sensitivity_list: SensitivityList,
    pub declarations: Vec<ProcessDeclarative>,
}

impl Process {
    pub open spec fn spec_source_code(self, indent: nat) -> Seq<char> {
        spec_indent(indent) + self.label@ + " : process"@ + (
        if self.sensitivity_list.model().len() == 0 {
            Seq::<char>::empty()
        } else {
            "( "@ + spec_sensitivity_code(self.sensitivity_list.model(), spec_next_level(indent))
                + " )"@
        }) + " is\n"@ + spec_process_declarations(self.declarations@, spec_next_level(indent))
            + spec_indent(indent) + "begin\n"@ + spec_indent(indent) + "end process "@
            + self.label@ + ";\n"@
    }

    pub fn new(label: &str) -> (r: Process)
        ensures
            r.label@ == label@,
            r.sensitivity_list.model() == Seq::<Seq<char>>::empty(),
            r.declarations@ == Seq::<ProcessDeclarative>::empty(),
    {
        Process {
            label: String::from_str(label),
            sensitivity_list: SensitivityList::new(),
            declarations: Vec::new(),
        }
    }

    pub fn to_source_code(&self, indent: usize) -> (r: String)
        ensures
            r@ == self.spec_source_code(indent as nat),
    {
        let mut source = crate::util::indent(indent);
        source.append(self.label.as_str());
        source.append(" : process");
        let deeper = crate::util::next_level(indent);
        if !self.sensitivity_list.is_empty() {
            source.append("( ");
            let names = self.sensitivity_list.to_source_code(deeper);
            source.append(names.as_str());
            source.append(" )");
        }
        source.append(" is\n");
        let n: usize = self.declarations.len();
        let mut i: usize = 0;
        let ghost head = source@;
        while i < n
            invariant
                n == self.declarations@.len(),
                i <= n,
                deeper as nat == spec_next_level(indent as nat),
                source@ == head + spec_process_declarations(
                    self.declarations@.take(i as int),
                    deeper as nat,
                ),
            decreases n - i,
        {
            let text = match &self.declarations[i] {
                ProcessDeclarative::Constant(c) => c.to_source_code(deeper),
                ProcessDeclarative::Variable(v) => v.to_source_code(deeper),
            };
            source.append(text.as_str());
            proof {
                assert(self.declarations@.take(i + 1 as int).drop_last() =~= self.declarations@.take(
                    i as int,
                ));
                assert(self.declarations@.take(i + 1 as int).last() == self.declarations@[i as int]);
            }
            i = i + 1;
        }
        proof {
            assert(self.declarations@.take(n as int) =~= self.declarations@);
        }
        let indent_str = crate::util::indent(indent);
        source.append(indent_str.as_str());
        source.append("begin\n");
        source.append(indent_str.as_str());
        source.append("end process ");
        source.append(self.label.as_str());
        source.append(";\n");
        source
    }
}

} // verus!
