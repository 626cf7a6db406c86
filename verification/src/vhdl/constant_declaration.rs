use vstd::prelude::*;
use vstd::string::StringExecFns;
use crate::util::spec_indent;

verus! {

/// A constant declared in an architecture body.
#[derive(Debug)]
pub struct ConstantDeclaration {
    pub name: String,
    pub data_type: String,
    pub default: String,
}

impl Clone for ConstantDeclaration {
    fn clone(&self) -> (r: Self)
        ensures
            r == *self,
    {
        ConstantDeclaration {
            name: self.name.clone(),
            data_type: self.data_type.clone(),
            default: self.default.clone(),
        }
    }
}

impl ConstantDeclaration {
    pub open spec fn spec_source_code(self, indent: nat) -> Seq<char> {
        spec_indent(indent) + "constant "@ + self.name@ + " : "@ + self.data_type@ + if self.default@.len()
            != 0 {
            " := "@ + self.default@
        } else {
            Seq::<char>::empty()
        } + ";\n"@
    }

    pub fn new(name: &str, data_type: &str, default: &str) -> (r: ConstantDeclaration)
        ensures
            r.name@ == name@,
            r.data_type@ == data_type@,
            r.default@ == default@,
    {
        ConstantDeclaration {
            name: String::from_str(name),
            data_type: String::from_str(data_type),
            default: String::from_str(default),
        }
    }

    pub fn get_name(&self) -> (r: &String)
        ensures
            r@ == self.name@,
    {
        &self.name
    }

    pub fn get_data_type(&self) -> (r: &String)
        ensures
            r@ == self.data_type@,
    {
        &self.data_type
    }

    pub fn to_source_code(&self, indent: usize) -> (r: String)
        ensures
            r@ == self.spec_source_code(indent as nat),
    {
        let mut source = crate::util::indent(indent);
        source.append("constant ");
        source.append(self.name.as_str());
        source.append(" : ");
        source.append(self.data_type.as_str());
        if !self.default.as_str().is_empty() {
            source.append(" := ");
            source.append(self.default.as_str());
        }
        source.append(";\n");
        source
    }
}


impl crate::element::Element for ConstantDeclaration {
    fn to_source_code(&self, indent: usize) -> (r: String)
        ensures
            r@ == self.spec_source_code(indent as nat),
    {
        ConstantDeclaration::to_source_code(self, indent)
    }
}

} // verus!
