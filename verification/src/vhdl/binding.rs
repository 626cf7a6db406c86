use vstd::prelude::*;
use vstd::string::StringExecFns;
use crate::util::spec_indent;
use crate::vhdl::direction::Direction;
use crate::vhdl::generic::Generic;
use crate::vhdl::port::Port;

verus! {

/// An association of an inner generic or port identifier with an outer
/// identifier of the enclosing architecture; an empty outer identifier
/// means unconnected.
#[derive(Debug)]
pub struct Binding {
    pub generic: bool,
    pub inner: String,
    pub direction: Direction,
    pub data_type: String,
    pub outer: String,
}

impl Clone for Binding {
    fn clone(&self) -> (r: Self)
        ensures
            r == *self,
    {
        Binding {
            generic: self.generic,
            inner: self.inner.clone(),
            direction: self.direction,
            data_type: self.data_type.clone(),
            outer: self.outer.clone(),
        }
    }
}

impl Binding {
    pub open spec fn spec_source_code(self, indent: nat) -> Seq<char> {
        if self.generic && self.outer@.len() == 0 {
            Seq::empty()
        } else {
            spec_indent(indent) + self.inner@ + " => "@ + self.outer@
        }
    }

    pub fn from_generic(generic: &Generic) -> (r: Binding)
        ensures
            r.generic == true,
            r.inner@ == generic.spec_name(),
            r.direction == Direction::IN,
            r.data_type@ == generic.data_type@,
            r.outer@ == Seq::<char>::empty(),
    {
        Binding {
            generic: true,
            inner: generic.get_name(),
            direction: Direction::IN,
            data_type: generic.get_data_type().clone(),
            outer: String::new(),
        }
    }

    pub fn from_port(port: &Port) -> (r: Binding)
        ensures
            r.generic == false,
            r.inner@ == port.spec_name(),
            r.direction == port.direction,
            r.data_type@ == port.data_type@,
            r.outer@ == Seq::<char>::empty(),
    {
        Binding {
            generic: false,
            inner: port.get_name(),
            direction: port.get_direction(),
            data_type: port.get_data_type().clone(),
            outer: String::new(),
        }
    }

    pub fn connect_to_generic(&mut self, generic: &Generic)
        ensures
            final(self).generic == old(self).generic,
            final(self).inner == old(self).inner,
            final(self).direction == old(self).direction,
            final(self).data_type == old(self).data_type,
            final(self).outer@ == generic.spec_name(),
    {
        self.outer = generic.get_name();
    }

    /// Connecting a port whose direction or data type disagrees with the
    /// binding's declared shape is a construction bug, so such inputs
    /// are ruled out rather than reported.
    pub fn connect_to_port(&mut self, port: &Port)
        requires
            old(self).direction == port.direction,
            old(self).data_type@ == port.data_type@,
        ensures
            final(self).generic == old(self).generic,
            final(self).inner == old(self).inner,
            final(self).direction == old(self).direction,
            final(self).data_type == old(self).data_type,
            final(self).outer@ == port.spec_name(),
    {
        self.outer = port.get_name();
    }

    /// Sets the outer identifier unconditionally: manual wiring to a
    /// literal identifier, without validation.
    pub fn connect_by_name(&mut self, outer: &str)
        ensures
            final(self).generic == old(self).generic,
            final(self).inner == old(self).inner,
            final(self).direction == old(self).direction,
            final(self).data_type == old(self).data_type,
            final(self).outer@ == outer@,
    {
        self.outer = String::from_str(outer);
    }

    pub fn get_inner(&self) -> (r: &String)
        ensures
            r@ == self.inner@,
    {
        &self.inner
    }

    pub fn get_direction(&self) -> (r: &Direction)
        ensures
            *r == self.direction,
    {
        &self.direction
    }

    pub fn get_data_type(&self) -> (r: &String)
        ensures
            r@ == self.data_type@,
    {
        &self.data_type
    }

    pub fn get_outer(&self) -> (r: &String)
        ensures
            r@ == self.outer@,
    {
        &self.outer
    }

    pub fn to_source_code(&self, indent: usize) -> (r: String)
        ensures
            r@ == self.spec_source_code(indent as nat),
    {
        let mut source = String::new();
        if self.generic && self.outer.as_str().is_empty() {
            return source;
        }
        let indent_str = crate::util::indent(indent);
        source.append(indent_str.as_str());
        source.append(self.inner.as_str());
        source.append(" => ");
        source.append(self.outer.as_str());
        source
    }
}


impl crate::element::Element for Binding {
    fn to_source_code(&self, indent: usize) -> (r: String)
        ensures
            r@ == self.spec_source_code(indent as nat),
    {
        Binding::to_source_code(self, indent)
    }
}

} // verus!
