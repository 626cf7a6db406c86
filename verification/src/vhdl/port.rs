use vstd::prelude::*;
use vstd::string::StringExecFns;
use crate::util::spec_indent;
use crate::vhdl::direction::Direction;

verus! {

/// A runtime signal of an entity, with a direction and a data type.  When
/// the port belongs to a named interface, its rendered identifier is
/// prefixed with that interface's name.
#[derive(Debug)]
pub struct Port {
    pub name: String,
    pub interface: String,
    pub direction: Direction,
    pub data_type: String,
    pub default: String,
}

impl Clone for Port {
    fn clone(&self) -> (r: Self)
        ensures
            r == *self,
    {
        Port {
            name: self.name.clone(),
            interface: self.interface.clone(),
            direction: self.direction,
            data_type: self.data_type.clone(),
            default: self.default.clone(),
        }
    }
}

impl Port {
    /// The rendered identifier: the plain name, or prefixed with the
    /// owning interface's name.
    pub open spec fn spec_name(self) -> Seq<char> {
        if self.interface@.len() == 0 {
            self.name@
        } else {
            self.interface@ + "_"@ + self.name@
        }
    }

    /// The same port with the mirrored direction.
    pub open spec fn spec_inverted(self) -> Port {
        Port { direction: self.direction.spec_inverted(), ..self }
    }

    pub open spec fn spec_source_code(self, indent: nat) -> Seq<char> {
        spec_indent(indent) + self.spec_name() + " : "@ + self.direction.spec_keyword() + " "@
            + self.data_type@ + if self.default@.len() != 0 {
            " := "@ + self.default@
        } else {
            Seq::<char>::empty()
        }
    }

    pub fn new(name: &str, direction: Direction, data_type: &str) -> (r: Port)
        ensures
            r.name@ == name@,
            r.interface@ == Seq::<char>::empty(),
            r.direction == direction,
            r.data_type@ == data_type@,
            r.default@ == Seq::<char>::empty(),
    {
        Port {
            name: String::from_str(name),
            interface: String::new(),
            direction,
            data_type: String::from_str(data_type),
            default: String::new(),
        }
    }

    pub fn new_with_default(name: &str, direction: Direction, data_type: &str, default: &str) -> (r:
        Port)
        ensures
            r.name@ == name@,
            r.interface@ == Seq::<char>::empty(),
            r.direction == direction,
            r.data_type@ == data_type@,
            r.default@ == default@,
    {
        Port {
            name: String::from_str(name),
            interface: String::new(),
            direction,
            data_type: String::from_str(data_type),
            default: String::from_str(default),
        }
    }

    /// A copy of this port with the mirrored direction; the interface
    /// prefix is not kept, matching construction from the plain fields.
    pub fn clone_invert(&self) -> (r: Port)
        ensures
            r.name@ == self.name@,
            r.interface@ == Seq::<char>::empty(),
            r.direction == self.direction.spec_inverted(),
            r.data_type@ == self.data_type@,
            r.default@ == self.default@,
    {
        Port::new_with_default(
            self.name.as_str(),
            self.direction.get_inverted(),
            self.data_type.as_str(),
            self.default.as_str(),
        )
    }

    pub fn get_name(&self) -> (r: String)
        ensures
            r@ == self.spec_name(),
    {
        if !self.interface.as_str().is_empty() {
            let mut name = self.interface.clone();
            name.append("_");
            name.append(self.name.as_str());
            name
        } else {
            self.name.clone()
        }
    }

    pub fn get_direction(&self) -> (r: Direction)
        ensures
            r == self.direction,
    {
        self.direction
    }

    pub fn get_data_type(&self) -> (r: &String)
        ensures
            r@ == self.data_type@,
    {
        &self.data_type
    }

    pub fn set_name(&mut self, name: &str)
        ensures
            final(self).name@ == name@,
            final(self).interface == old(self).interface,
            final(self).direction == old(self).direction,
            final(self).data_type == old(self).data_type,
            final(self).default == old(self).default,
    {
        self.name = String::from_str(name);
    }

    pub fn set_interface(&mut self, interface: &str)
        ensures
            final(self).interface@ == interface@,
            final(self).name == old(self).name,
            final(self).direction == old(self).direction,
            final(self).data_type == old(self).data_type,
            final(self).default == old(self).default,
    {
        self.interface = String::from_str(interface);
    }

    pub fn invert(&mut self)
        ensures
            *final(self) == old(self).spec_inverted(),
    {
        self.direction.invert();
    }

    pub fn to_source_code(&self, indent: usize) -> (r: String)
        ensures
            r@ == self.spec_source_code(indent as nat),
    {
        let mut source = crate::util::indent(indent);
        let name = self.get_name();
        source.append(name.as_str());
        source.append(" : ");
        let direction = self.direction.to_string();
        source.append(direction.as_str());
        source.append(" ");
        source.append(self.data_type.as_str());
        if !self.default.as_str().is_empty() {
            source.append(" := ");
            source.append(self.default.as_str());
        }
        source
    }
}


/// Round trip: mirroring a port twice restores its original direction,
/// for every port that is no buffer port.  A buffer mirrors to a plain
/// input, which mirrors onward to an output, so buffers are the one
/// direction the round trip cannot restore.
pub proof fn lemma_invert_round_trip(p: Port)
    requires
        p.direction != Direction::BUFFER,
    ensures
        p.spec_inverted().spec_inverted() == p,
{
}

impl crate::element::Element for Port {
    fn to_source_code(&self, indent: usize) -> (r: String)
        ensures
            r@ == self.spec_source_code(indent as nat),
    {
        Port::to_source_code(self, indent)
    }
}

} // verus!
