use vstd::prelude::*;
use vstd::string::StringExecFns;
use crate::util::spec_indent;
use crate::vhdl::generic::Generic;

verus! {

/// The association of one declared generic of an instance with an outer
/// identifier; an empty outer identifier means unbound.
#[derive(Debug)]
pub struct GenericBinding {
    pub inner: String,
    pub data_type: String,
    pub outer: String,
    pub requires_binding: bool,
}

impl Clone for GenericBinding {
    fn clone(&self) -> (r: Self)
        ensures
            r == *self,
    {
        GenericBinding {
            inner: self.inner.clone(),
            data_type: self.data_type.clone(),
            outer: self.outer.clone(),
            requires_binding: self.requires_binding,
        }
    }
}

impl GenericBinding {
    pub open spec fn spec_is_bound(self) -> bool {
        self.outer@.len() != 0
    }

    /// An unbound or defaulted generic renders as nothing; a bound or
    /// default-less one renders as an association.
    pub open spec fn spec_source_code(self, indent: nat) -> Seq<char> {
        if self.outer@.len() == 0 && !self.requires_binding {
            Seq::empty()
        } else {
            spec_indent(indent) + self.inner@ + " => "@ + self.outer@
        }
    }

    /// A binding is owed exactly when the generic carries no default.
    pub fn from_generic(generic: &Generic) -> (r: GenericBinding)
        ensures
            r.inner@ == generic.spec_name(),
            r.data_type@ == generic.data_type@,
            r.outer@ == Seq::<char>::empty(),
            r.requires_binding == !generic.spec_has_default(),
    {
        GenericBinding {
            inner: generic.get_name(),
            data_type: generic.get_data_type().clone(),
            outer: String::new(),
            requires_binding: !generic.has_default(),
        }
    }

    pub fn connect(&mut self, generic: &Generic)
        ensures
            final(self).inner == old(self).inner,
            final(self).data_type == old(self).data_type,
            final(self).requires_binding == old(self).requires_binding,
            final(self).outer@ == generic.spec_name(),
    {
        self.outer = generic.get_name();
    }

    pub fn connect_by_name(&mut self, outer: &str)
        ensures
            final(self).inner == old(self).inner,
            final(self).data_type == old(self).data_type,
            final(self).requires_binding == old(self).requires_binding,
            final(self).outer@ == outer@,
    {
        self.outer = String::from_str(outer);
    }

    pub fn get_inner(&self) -> (r: &String)
        ensures
            r@ == self.inner@,
    {
        &self.inner
    }

    pub fn get_data_type(&self) -> (r: &String)
        ensures
            r@ == self.data_type@,
    {
        &self.data_type
    }

    pub fn get_outer(&self) -> (r: &String)
        ensures
            r@ == self.outer@,
    {
        &self.outer
    }

    pub fn is_bound(&self) -> (r: bool)
        ensures
            r == self.spec_is_bound(),
    {
        !self.outer.as_str().is_empty()
    }

    pub fn requires_binding(&self) -> (r: bool)
        ensures
            r == self.requires_binding,
    {
        self.requires_binding
    }

    pub fn to_source_code(&self, indent: usize) -> (r: String)
        ensures
            r@ == self.spec_source_code(indent as nat),
    {
        let mut source = String::new();
        if self.outer.as_str().is_empty() && !self.requires_binding {
            return source;
        }
        let indent_str = crate::util::indent(indent);
        source.append(indent_str.as_str());
        source.append(self.inner.as_str());
        source.append(" => ");
        source.append(self.outer.as_str());
        source
    }
}


impl crate::element::Element for GenericBinding {
    fn to_source_code(&self, indent: usize) -> (r: String)
        ensures
            r@ == self.spec_source_code(indent as nat),
    {
        GenericBinding::to_source_code(self, indent)
    }
}

} // verus!
