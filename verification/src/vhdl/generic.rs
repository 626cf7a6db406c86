use vstd::prelude::*;
use vstd::string::StringExecFns;
use crate::util::spec_indent;

verus! {

/// A compile-time parameter of an entity, optionally defaulted.  When the
/// generic belongs to a named interface, its rendered identifier is
/// prefixed with that interface's name.
#[derive(Debug)]
pub struct Generic {
    pub name: String,
    pub interface: String,
    pub data_type: String,
    pub default: String,
}

impl Clone for Generic {
    fn clone(&self) -> (r: Self)
        ensures
            r == *self,
    {
        Generic {
            name: self.name.clone(),
            interface: self.interface.clone(),
            data_type: self.data_type.clone(),
            default: self.default.clone(),
        }
    }
}

impl Generic {
    /// The rendered identifier: the plain name, or prefixed with the
    /// owning interface's name.
    pub open spec fn spec_name(self) -> Seq<char> {
        if self.interface@.len() == 0 {
            self.name@
        } else {
            self.interface@ + "_"@ + self.name@
        }
    }

    pub open spec fn spec_has_default(self) -> bool {
        self.default@.len() != 0
    }

    pub open spec fn spec_source_code(self, indent: nat) -> Seq<char> {
        spec_indent(indent) + self.spec_name() + " : "@ + self.data_type@ + if self.spec_has_default() {
            " := "@ + self.default@
        } else {
            Seq::<char>::empty()
        }
    }

    pub fn new(name: &str, data_type: &str) -> (r: Generic)
        ensures
            r.name@ == name@,
            r.interface@ == Seq::<char>::empty(),
            r.data_type@ == data_type@,
            r.default@ == Seq::<char>::empty(),
    {
        Generic {
            name: String::from_str(name),
            interface: String::new(),
            data_type: String::from_str(data_type),
            default: String::new(),
        }
    }

    pub fn new_with_default(name: &str, data_type: &str, default: &str) -> (r: Generic)
        ensures
            r.name@ == name@,
            r.interface@ == Seq::<char>::empty(),
            r.data_type@ == data_type@,
            r.default@ == default@,
    {
        Generic {
            name: String::from_str(name),
            interface: String::new(),
            data_type: String::from_str(data_type),
            default: String::from_str(default),
        }
    }

    pub fn get_name(&self) -> (r: String)
        ensures
            r@ == self.spec_name(),
    {
        if !self.interface.as_str().is_empty() {
            let mut name = self.interface.clone();
            name.append("_");
            name.append(self.name.as_str());
            name
        } else {
            self.name.clone()
        }
    }

    pub fn set_name(&mut self, name: &str)
        ensures
            final(self).name@ == name@,
            final(self).interface == old(self).interface,
            final(self).data_type == old(self).data_type,
            final(self).default == old(self).default,
    {
        self.name = String::from_str(name);
    }

    pub fn set_interface(&mut self, interface: &str)
        ensures
            final(self).interface@ == interface@,
            final(self).name == old(self).name,
            final(self).data_type == old(self).data_type,
            final(self).default == old(self).default,
    {
        self.interface = String::from_str(interface);
    }

    pub fn get_interface(&mut self) -> (r: &String)
        ensures
            r@ == old(self).interface@,
            *final(self) == *old(self),
    {
        &self.interface
    }

    pub fn remove_interface(&mut self)
        ensures
            final(self).interface@ == Seq::<char>::empty(),
            final(self).name == old(self).name,
            final(self).data_type == old(self).data_type,
            final(self).default == old(self).default,
    {
        self.interface = String::new();
    }

    pub fn get_data_type(&self) -> (r: &String)
        ensures
            r@ == self.data_type@,
    {
        &self.data_type
    }

    pub fn has_default(&self) -> (r: bool)
        ensures
            r == self.spec_has_default(),
    {
        !self.default.as_str().is_empty()
    }

    pub fn to_source_code(&self, indent: usize) -> (r: String)
        ensures
            r@ == self.spec_source_code(indent as nat),
    {
        let mut source = crate::util::indent(indent);
        let name = self.get_name();
        source.append(name.as_str());
        source.append(" : ");
        source.append(self.data_type.as_str());
        if !self.default.as_str().is_empty() {
            source.append(" := ");
            source.append(self.default.as_str());
        }
        source
    }
}


impl crate::element::Element for Generic {
    fn to_source_code(&self, indent: usize) -> (r: String)
        ensures
            r@ == self.spec_source_code(indent as nat),
    {
        Generic::to_source_code(self, indent)
    }
}

} // verus!
