use vstd::prelude::*;
use vstd::string::StringExecFns;
use crate::util::spec_indent;
use crate::vhdl::direction::Direction;
use crate::vhdl::port::Port;

verus! {

/// The association of one declared port of an instance with an outer
/// identifier; an empty outer identifier means unbound.
#[derive(Debug)]
pub struct PortBinding {
    pub inner: String,
    pub direction: Direction,
    pub data_type: String,
    pub outer: String,
}

impl Clone for PortBinding {
    fn clone(&self) -> (r: Self)
        ensures
            r == *self,
    {
        PortBinding {
            inner: self.inner.clone(),
            direction: self.direction,
            data_type: self.data_type.clone(),
            outer: self.outer.clone(),
        }
    }
}

impl PortBinding {
    pub open spec fn spec_is_bound(self) -> bool {
        self.outer@.len() != 0
    }

    pub open spec fn spec_source_code(self, indent: nat) -> Seq<char> {
        spec_indent(indent) + self.inner@ + " => "@ + self.outer@
    }

    pub fn from_port(port: &Port) -> (r: PortBinding)
        ensures
            r.inner@ == port.spec_name(),
            r.direction == port.direction,
            r.data_type@ == port.data_type@,
            r.outer@ == Seq::<char>::empty(),
    {
        PortBinding {
            inner: port.get_name(),
            direction: port.get_direction(),
            data_type: port.get_data_type().clone(),
            outer: String::new(),
        }
    }

    /// Connecting a port whose direction or data type disagrees with the
    /// binding's declared shape is a construction bug, so such inputs
    /// are ruled out rather than reported.
    pub fn connect(&mut self, port: &Port)
        requires
            old(self).direction == port.direction,
            old(self).data_type@ == port.data_type@,
        ensures
            final(self).inner == old(self).inner,
            final(self).direction == old(self).direction,
            final(self).data_type == old(self).data_type,
            final(self).outer@ == port.spec_name(),
    {
        self.outer = port.get_name();
    }

    /// Sets the outer identifier unconditionally: manual wiring to a
    /// literal identifier, without validation.
    pub fn connect_by_name(&mut self, outer: &str)
        ensures
            final(self).inner == old(self).inner,
            final(self).direction == old(self).direction,
            final(self).data_type == old(self).data_type,
            final(self).outer@ == outer@,
    {
        self.outer = String::from_str(outer);
    }

    pub fn get_inner(&self) -> (r: &String)
        ensures
            r@ == self.inner@,
    {
        &self.inner
    }

    pub fn get_direction(&self) -> (r: &Direction)
        ensures
            *r == self.direction,
    {
        &self.direction
    }

    pub fn get_data_type(&self) -> (r: &String)
        ensures
            r@ == self.data_type@,
    {
        &self.data_type
    }

    pub fn get_outer(&self) -> (r: &String)
        ensures
            r@ == self.outer@,
    {
        &self.outer
    }

    pub fn is_bound(&self) -> (r: bool)
        ensures
            r == self.spec_is_bound(),
    {
        !self.outer.as_str().is_empty()
    }

    pub fn to_source_code(&self, indent: usize) -> (r: String)
        ensures
            r@ == self.spec_source_code(indent as nat),
    {
        let mut source = crate::util::indent(indent);
        source.append(self.inner.as_str());
        source.append(" => ");
        source.append(self.outer.as_str());
        source
    }
}


impl crate::element::Element for PortBinding {
    fn to_source_code(&self, indent: usize) -> (r: String)
        ensures
            r@ == self.spec_source_code(indent as nat),
    {
        PortBinding::to_source_code(self, indent)
    }
}

} // verus!
