use vstd::prelude::*;
use vstd::string::StringExecFns;
use crate::util::spec_indent;

verus! {

/// A concurrent assignment of an opaque expression to a signal, with an
/// optional label.
#[derive(Debug)]
pub struct SignalAssignment {
    pub label: String,
    pub signal: String,
    pub expression: String,
}

impl Clone for SignalAssignment {
    fn clone(&self) -> (r: Self)
        ensures
            r == *self,
    {
        SignalAssignment {
            label: self.label.clone(),
            signal: self.signal.clone(),
            expression: self.expression.clone(),
        }
    }
}

impl SignalAssignment {
    pub open spec fn spec_source_code(self, indent: nat) -> Seq<char> {
        spec_indent(indent) + if self.label@.len() == 0 {
            Seq::<char>::empty()
        } else {
            self.label@ + ":"@
        } + " "@ + self.signal@ + " <= "@ + self.expression@ + ";\n"@
    }

    pub fn new(signal: &str, expression: &str) -> (r: SignalAssignment)
        ensures
            r.label@ == Seq::<char>::empty(),
            r.signal@ == signal@,
            r.expression@ == expression@,
    {
        SignalAssignment {
            label: String::new(),
            signal: String::from_str(signal),
            expression: String::from_str(expression),
        }
    }

    pub fn new_with_label(label: &str, signal: &str, expression: &str) -> (r: SignalAssignment)
        ensures
            r.label@ == label@,
            r.signal@ == signal@,
            r.expression@ == expression@,
    {
        SignalAssignment {
            label: String::from_str(label),
            signal: String::from_str(signal),
            expression: String::from_str(expression),
        }
    }

    pub fn to_source_code(&self, indent: usize) -> (r: String)
        ensures
            r@ == self.spec_source_code(indent as nat),
    {
        let mut source = crate::util::indent(indent);
        if !self.label.as_str().is_empty() {
            source.append(self.label.as_str());
            source.append(":");
        }
        source.append(" ");
        source.append(self.signal.as_str());
        source.append(" <= ");
        source.append(self.expression.as_str());
        source.append(";\n");
        source
    }
}


impl crate::element::Element for SignalAssignment {
    fn to_source_code(&self, indent: usize) -> (r: String)
        ensures
            r@ == self.spec_source_code(indent as nat),
    {
        SignalAssignment::to_source_code(self, indent)
    }
}

} // verus!
