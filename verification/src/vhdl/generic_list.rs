use vstd::prelude::*;
use crate::element::spec_keyword_block;
use crate::element::views_of;
use crate::util::spec_next_level;
use crate::vhdl::generic::Generic;

verus! {

/// A free-standing generic clause.
#[derive(Debug)]
pub struct GenericList {
    pub generics: Vec<Generic>,
}

impl GenericList {
    /// Each generic rendered on its own, ready for joining.
    pub open spec fn spec_parts(self) -> Seq<Seq<char>> {
        self.generics@.map_values(|g: Generic| g.spec_source_code(0))
    }

    pub open spec fn spec_source_code(self, indent: nat) -> Seq<char> {
        spec_keyword_block("generic"@, self.spec_parts(), spec_next_level(indent))
    }

    pub fn new() -> (r: GenericList)
        ensures
            r.generics@ == Seq::<Generic>::empty(),
    {
        GenericList { generics: Vec::new() }
    }

    pub fn add_generic(&mut self, generic: Generic)
        ensures
            final(self).generics@ == old(self).generics@.push(generic),
    {
        self.generics.push(generic);
    }

    pub fn to_source_code(&self, indent: usize) -> (r: String)
        ensures
            r@ == self.spec_source_code(indent as nat),
    {
        let mut parts: Vec<String> = Vec::new();
        let n: usize = self.generics.len();
        let mut i: usize = 0;
        while i < n
            invariant
                n == self.generics@.len(),
                i <= n,
                parts@.len() == i as int,
                forall|k: int|
                    0 <= k < i ==> (#[trigger] parts@[k])@ == self.generics@[k].spec_source_code(0),
            decreases n - i,
        {
            parts.push(self.generics[i].to_source_code(0));
            i = i + 1;
        }
        proof {
            assert(views_of(parts@) =~~= self.spec_parts());
        }
        let level = crate::util::next_level(indent);
        crate::element::to_keyword_block("generic", &parts, level)
    }
}

} // verus!
