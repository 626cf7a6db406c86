use vstd::prelude::*;
use crate::element::views_of;
use crate::vhdl::constant_declaration::ConstantDeclaration;
use crate::vhdl::signal_declaration::SignalDeclaraion;

verus! {

/// One slot of the declaration order: an index into the signals or into
/// the constants.
#[derive(Debug, Clone, Copy, PartialEq, Eq, Structural)]
pub enum BlockDeclarationType {
    Signal(usize),
    Constant(usize),
}

/// The uniquely-named declarations of an architecture body, signals and
/// constants mixed, their insertion order preserved across both kinds.
#[derive(Debug)]
pub struct BlockDeclarativeList {
    pub order: Vec<BlockDeclarationType>,
    pub constants: Vec<ConstantDeclaration>,
    pub signals: Vec<SignalDeclaraion>,
}

/// The plain value of the list: the order slots, the constants and the
/// signals.
pub type BlockModel = (Seq<BlockDeclarationType>, Seq<ConstantDeclaration>, Seq<SignalDeclaraion>);

/// The names of the signals, in insertion order.
pub open spec fn spec_signal_names(m: BlockModel) -> Seq<Seq<char>> {
    m.2.map_values(|s: SignalDeclaraion| s.name@)
}

/// The names of the constants, in insertion order.
pub open spec fn spec_constant_names(m: BlockModel) -> Seq<Seq<char>> {
    m.1.map_values(|c: ConstantDeclaration| c.name@)
}

/// Whether some declaration of either kind carries the name.
pub open spec fn spec_has_name(m: BlockModel, name: Seq<char>) -> bool {
    spec_signal_names(m).contains(name) || spec_constant_names(m).contains(name)
}

/// The list after a signal declaration is folded in: a name already
/// declared leaves everything unchanged.
pub open spec fn spec_add_signal(m: BlockModel, s: SignalDeclaraion) -> BlockModel {
    if spec_has_name(m, s.name@) {
        m
    } else {
        (m.0.push(BlockDeclarationType::Signal(m.2.len() as usize)), m.1, m.2.push(s))
    }
}

/// The list after a constant declaration is folded in: a name already
/// declared leaves everything unchanged.
pub open spec fn spec_add_constant(m: BlockModel, c: ConstantDeclaration) -> BlockModel {
    if spec_has_name(m, c.name@) {
        m
    } else {
        (m.0.push(BlockDeclarationType::Constant(m.1.len() as usize)), m.1.push(c), m.2)
    }
}

/// Each order slot points into its vector.
pub open spec fn spec_block_wf(m: BlockModel) -> bool {
    forall|k: int|
        0 <= k < m.0.len() ==> match #[trigger] m.0[k] {
            BlockDeclarationType::Signal(idx) => idx < m.2.len(),
            BlockDeclarationType::Constant(idx) => idx < m.1.len(),
        }
}

/// Text of the declarations named by the order slots, one after the
/// other.
pub open spec fn spec_block_code(m: BlockModel, order: Seq<BlockDeclarationType>, indent: nat) -> Seq<
    char,
>
    decreases order.len(),
{
    if order.len() == 0 {
        Seq::empty()
    } else {
        spec_block_code(m, order.drop_last(), indent) + match order.last() {
            BlockDeclarationType::Signal(idx) => if idx < m.2.len() {
                m.2[idx as int].spec_source_code(indent)
            } else {
                Seq::empty()
            },
            BlockDeclarationType::Constant(idx) => if idx < m.1.len() {
                m.1[idx as int].spec_source_code(indent)
            } else {
                Seq::empty()
            },
        }
    }
}

/// Folding a declaration in twice declares it once: the second add finds
/// the name and changes nothing.
pub proof fn lemma_add_signal_idempotent(m: BlockModel, s: SignalDeclaraion)
    ensures
        spec_add_signal(spec_add_signal(m, s), s) == spec_add_signal(m, s),
{
    let once = spec_add_signal(m, s);
    if !spec_has_name(m, s.name@) {
        assert(spec_signal_names(once)[m.2.len() as int] == s.name@);
        assert(spec_signal_names(once).contains(s.name@));
    }
}

/// Folding a constant in twice declares it once, as for signals.
pub proof fn lemma_add_constant_idempotent(m: BlockModel, c: ConstantDeclaration)
    ensures
        spec_add_constant(spec_add_constant(m, c), c) == spec_add_constant(m, c),
{
    let once = spec_add_constant(m, c);
    if !spec_has_name(m, c.name@) {
        assert(spec_constant_names(once)[m.1.len() as int] == c.name@);
        assert(spec_constant_names(once).contains(c.name@));
    }
}

impl BlockDeclarativeList {
    pub open spec fn model(self) -> BlockModel {
        (self.order@, self.constants@, self.signals@)
    }

    pub open spec fn wf(self) -> bool {
        spec_block_wf(self.model())
    }

    pub open spec fn spec_source_code(self, indent: nat) -> Seq<char> {
        spec_block_code(self.model(), self.model().0, indent)
    }

    pub fn new() -> (r: BlockDeclarativeList)
        ensures
            r.model().0 == Seq::<BlockDeclarationType>::empty(),
            r.model().1 == Seq::<ConstantDeclaration>::empty(),
            r.model().2 == Seq::<SignalDeclaraion>::empty(),
            r.wf(),
    {
        BlockDeclarativeList { order: Vec::new(), constants: Vec::new(), signals: Vec::new() }
    }

    /// Whether any declaration, of either kind, carries the name.
    fn has_name(&self, name: &str) -> (r: bool)
        ensures
            r == spec_has_name(self.model(), name@),
    {
        let sn: usize = self.signals.len();
        let mut i: usize = 0;
        while i < sn
            invariant
                sn == self.signals@.len(),
                i <= sn,
                forall|k: int| 0 <= k < i ==> self.signals@[k].name@ != name@,
            decreases sn - i,
        {
            if crate::text_util::str_eq(self.signals[i].get_name().as_str(), name) {
                proof {
                    assert(spec_signal_names(self.model())[i as int] == name@);
                }
                return true;
            }
            i = i + 1;
        }
        let cn: usize = self.constants.len();
        let mut j: usize = 0;
        while j < cn
            invariant
                cn == self.constants@.len(),
                j <= cn,
                forall|k: int| 0 <= k < j ==> self.constants@[k].name@ != name@,
            decreases cn - j,
        {
            if crate::text_util::str_eq(self.constants[j].get_name().as_str(), name) {
                proof {
                    assert(spec_constant_names(self.model())[j as int] == name@);
                }
                return true;
            }
            j = j + 1;
        }
        proof {
            assert forall|k: int| 0 <= k < spec_signal_names(self.model()).len() implies
                spec_signal_names(self.model())[k] != name@ by {
                assert(self.signals@[k].name@ != name@);
            }
            assert forall|k: int| 0 <= k < spec_constant_names(self.model()).len() implies
                spec_constant_names(self.model())[k] != name@ by {
                assert(self.constants@[k].name@ != name@);
            }
        }
        false
    }

    /// Adds a signal declaration; a name already declared is a no-op.
    pub fn add_signal(&mut self, signal: &SignalDeclaraion)
        requires
            old(self).wf(),
        ensures
            final(self).model() == spec_add_signal(old(self).model(), *signal),
            final(self).wf(),
    {
        if !self.has_name(signal.get_name().as_str()) {
            self.order.push(BlockDeclarationType::Signal(self.signals.len()));
            self.signals.push(signal.clone());
        }
    }

    /// Adds a constant declaration; a name already declared is a no-op.
    pub fn add_constant(&mut self, constant: &ConstantDeclaration)
        requires
            old(self).wf(),
        ensures
            final(self).model() == spec_add_constant(old(self).model(), *constant),
            final(self).wf(),
    {
        if !self.has_name(constant.get_name().as_str()) {
            self.order.push(BlockDeclarationType::Constant(self.constants.len()));
            self.constants.push(constant.clone());
        }
    }

    /// Whether a signal of the given name is declared.
    pub fn contains_signal_by_name(&self, name: &str) -> (r: bool)
        ensures
            r == spec_signal_names(self.model()).contains(name@),
    {
        let sn: usize = self.signals.len();
        let mut i: usize = 0;
        while i < sn
            invariant
                sn == self.signals@.len(),
                i <= sn,
                forall|k: int| 0 <= k < i ==> self.signals@[k].name@ != name@,
            decreases sn - i,
        {
            if crate::text_util::str_eq(self.signals[i].get_name().as_str(), name) {
                proof {
                    assert(spec_signal_names(self.model())[i as int] == name@);
                }
                return true;
            }
            i = i + 1;
        }
        proof {
            assert forall|k: int| 0 <= k < spec_signal_names(self.model()).len() implies
                spec_signal_names(self.model())[k] != name@ by {
                assert(self.signals@[k].name@ != name@);
            }
        }
        false
    }

    pub fn get_constants(&self) -> (r: &Vec<ConstantDeclaration>)
        ensures
            r@ == self.model().1,
    {
        &self.constants
    }

    pub fn to_source_code(&self, indent: usize) -> (r: String)
        ensures
            r@ == self.spec_source_code(indent as nat),
    {
        let mut source = String::new();
        let n: usize = self.order.len();
        let mut i: usize = 0;
        while i < n
            invariant
                n == self.order@.len(),
                i <= n,
                source@ == spec_block_code(self.model(), self.model().0.take(i as int), indent as nat),
            decreases n - i,
        {
            let text = match self.order[i] {
                BlockDeclarationType::Signal(idx) => {
                    if idx < self.signals.len() {
                        self.signals[idx].to_source_code(indent)
                    } else {
                        String::new()
                    }
                },
                BlockDeclarationType::Constant(idx) => {
                    if idx < self.constants.len() {
                        self.constants[idx].to_source_code(indent)
                    } else {
                        String::new()
                    }
                },
            };
            source.append(text.as_str());
            proof {
                assert(self.model().0.take(i + 1 as int).drop_last() =~= self.model().0.take(
                    i as int,
                ));
                assert(self.model().0.take(i + 1 as int).last() == self.model().0[i as int]);
            }
            i = i + 1;
        }
        proof {
            assert(self.model().0.take(n as int) =~= self.model().0);
        }
        source
    }
}

} // verus!
