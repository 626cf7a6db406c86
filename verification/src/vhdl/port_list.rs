use vstd::prelude::*;
use crate::element::spec_keyword_block;
use crate::element::views_of;
use crate::util::spec_next_level;
use crate::vhdl::port::Port;

verus! {

/// A free-standing port clause.
#[derive(Debug)]
pub struct PortList {
    pub ports: Vec<Port>,
}

impl PortList {
    /// Each port rendered on its own, ready for joining.
    pub open spec fn spec_parts(self) -> Seq<Seq<char>> {
        self.ports@.map_values(|p: Port| p.spec_source_code(0))
    }

    pub open spec fn spec_source_code(self, indent: nat) -> Seq<char> {
        spec_keyword_block("port"@, self.spec_parts(), spec_next_level(indent))
    }

    pub fn new() -> (r: PortList)
        ensures
            r.ports@ == Seq::<Port>::empty(),
    {
        PortList { ports: Vec::new() }
    }

    pub fn add_port(&mut self, port: Port)
        ensures
            final(self).ports@ == old(self).ports@.push(port),
    {
        self.ports.push(port);
    }

    pub fn to_source_code(&self, indent: usize) -> (r: String)
        ensures
            r@ == self.spec_source_code(indent as nat),
    {
        let mut parts: Vec<String> = Vec::new();
        let n: usize = self.ports.len();
        let mut i: usize = 0;
        while i < n
            invariant
                n == self.ports@.len(),
                i <= n,
                parts@.len() == i as int,
                forall|k: int|
                    0 <= k < i ==> (#[trigger] parts@[k])@ == self.ports@[k].spec_source_code(0),
            decreases n - i,
        {
            parts.push(self.ports[i].to_source_code(0));
            i = i + 1;
        }
        proof {
            assert(views_of(parts@) =~~= self.spec_parts());
        }
        let level = crate::util::next_level(indent);
        crate::element::to_keyword_block("port", &parts, level)
    }
}

} // verus!
