use vstd::prelude::*;
use vstd::string::StringExecFns;
use crate::text_util::lower_of;
use crate::util::spec_indent;
use crate::util::spec_next_level;
use crate::vhdl::block_declarative_list::BlockDeclarativeList;
use crate::vhdl::block_declarative_list::BlockModel;
use crate::vhdl::block_declarative_list::spec_add_constant;
use crate::vhdl::block_declarative_list::spec_add_signal;
use crate::vhdl::block_declarative_list::spec_has_name;
use crate::vhdl::block_declarative_list::BlockDeclarationType;
use crate::vhdl::constant_declaration::ConstantDeclaration;
use crate::vhdl::entity::Entity;
use crate::vhdl::entity_interface::EntityInterface;
use crate::vhdl::entity::spec_after_missing_use;
use crate::vhdl::entity::spec_after_missing_uses;
use crate::vhdl::entity_interface_binding::EntityInterfaceBinding;
use crate::vhdl::entity_interface_binding::spec_connection_signal_name;
use crate::vhdl::entity_interface_binding_list::spec_iface_has_generic;
use crate::vhdl::entity_interface_binding_list::spec_iface_has_port;
use crate::vhdl::entity_interface_binding_list::spec_generic_connected;
use crate::vhdl::entity_interface_binding_list::spec_port_connected;
use crate::vhdl::entity::spec_concat_generics;
use crate::vhdl::instance::spec_port_data_type;
use crate::vhdl::generic::Generic;
use crate::vhdl::generic_binding::GenericBinding;
use crate::vhdl::instance::Instance;
use crate::vhdl::instance::spec_all_unbound_generics;
use crate::vhdl::instance::spec_instance_match_pairs;
use crate::vhdl::library_list::LibraryModel;
use crate::vhdl::match_index::spec_match_score;
use crate::vhdl::port_binding::PortBinding;
use crate::vhdl::process::Process;
use crate::vhdl::signal_assignment::SignalAssignment;
use crate::vhdl::signal_declaration::SignalDeclaraion;
use crate::vhdl::vhdl_error::VhdlError;

verus! {

/// A top-level behavioural element of an architecture body.
#[derive(Debug)]
pub enum ConcurrentStatement {
    Assignment(SignalAssignment),
    Process(Process),
}

impl ConcurrentStatement {
    pub open spec fn spec_source_code(self, indent: nat) -> Seq<char> {
        match self {
            ConcurrentStatement::Assignment(a) => a.spec_source_code(indent),
            ConcurrentStatement::Process(p) => p.spec_source_code(indent),
        }
    }
}

/// Text of a list of concurrent statements, in call order.
pub open spec fn spec_statements_code(ss: Seq<ConcurrentStatement>, indent: nat) -> Seq<char>
    decreases ss.len(),
{
    if ss.len() == 0 {
        Seq::empty()
    } else {
        spec_statements_code(ss.drop_last(), indent) + ss.last().spec_source_code(indent)
    }
}

/// Text of a list of instances, in insertion order.
pub open spec fn spec_instances_code(insts: Seq<Instance>, indent: nat) -> Seq<char>
    decreases insts.len(),
{
    if insts.len() == 0 {
        Seq::empty()
    } else {
        spec_instances_code(insts.drop_last(), indent) + insts.last().spec_source_code(indent)
    }
}

/// The index of the first instance carrying the name, or the length if
/// none does.
pub open spec fn spec_instance_index(insts: Seq<Instance>, name: Seq<char>) -> int
    decreases insts.len(),
{
    if insts.len() == 0 {
        0
    } else if insts[0].name@ == name {
        0
    } else {
        1 + spec_instance_index(insts.drop_first(), name)
    }
}

/// Whether some instance carries the name.
pub open spec fn spec_has_instance(insts: Seq<Instance>, name: Seq<char>) -> bool {
    exists|k: int| 0 <= k < insts.len() && (#[trigger] insts[k]).name@ == name
}

/// The instances after one is placed: a name already present has its
/// earlier placement removed, and the new instance goes to the end.
pub open spec fn spec_add_instance(insts: Seq<Instance>, inst: Instance) -> Seq<Instance> {
    if spec_has_instance(insts, inst.name@) {
        insts.remove(spec_instance_index(insts, inst.name@)).push(inst)
    } else {
        insts.push(inst)
    }
}

/// The strength of an unbound generic against an architecture constant:
/// the usual heuristic, gated on exact data-type equality.
pub open spec fn spec_generic_constant_score(b: GenericBinding, c: ConstantDeclaration) -> u32 {
    spec_match_score(lower_of(b.inner@), lower_of(c.name@), b.data_type@ == c.data_type@)
}

/// The strength of an unbound generic against an entity generic: the
/// usual heuristic, gated on exact data-type equality.
pub open spec fn spec_generic_generic_score(b: GenericBinding, g: Generic) -> u32 {
    spec_match_score(lower_of(b.inner@), lower_of(g.spec_name()), b.data_type@ == g.data_type@)
}

/// The incumbent of the fold over the first `n` constants.
pub open spec fn spec_best_constant_match(
    b: GenericBinding,
    cs: Seq<ConstantDeclaration>,
    n: int,
) -> (int, u32)
    decreases n,
{
    if n <= 0 {
        (0, 0u32)
    } else {
        let prev = spec_best_constant_match(b, cs, n - 1);
        let s = spec_generic_constant_score(b, cs[n - 1]);
        if prev.1 < s {
            (n - 1, s)
        } else {
            prev
        }
    }
}

/// The incumbent of the fold over the first `n` entity generics.
pub open spec fn spec_best_generic_match(b: GenericBinding, gs: Seq<Generic>, n: int) -> (int, u32)
    decreases n,
{
    if n <= 0 {
        (0, 0u32)
    } else {
        let prev = spec_best_generic_match(b, gs, n - 1);
        let s = spec_generic_generic_score(b, gs[n - 1]);
        if prev.1 < s {
            (n - 1, s)
        } else {
            prev
        }
    }
}

/// The outer identifier an unbound generic resolves to: the best
/// constant where it scores strictly above the best entity generic, else
/// the best entity generic where it scores at all, else nothing, written
/// as the empty text.
pub open spec fn spec_unbound_match(
    b: GenericBinding,
    cs: Seq<ConstantDeclaration>,
    gs: Seq<Generic>,
) -> Seq<char> {
    let cbest = spec_best_constant_match(b, cs, cs.len() as int);
    let gbest = spec_best_generic_match(b, gs, gs.len() as int);
    if cbest.1 > gbest.1 {
        cs[cbest.0].name@
    } else if gbest.1 > 0 {
        gs[gbest.0].spec_name()
    } else {
        Seq::empty()
    }
}

/// One step of resolving an unbound generic: where something scores the
/// first binding of its inner name is bound, else nothing changes.
pub open spec fn spec_unbound_step(
    prev: Seq<EntityInterfaceBinding>,
    next: Seq<EntityInterfaceBinding>,
    b: GenericBinding,
    cs: Seq<ConstantDeclaration>,
    gs: Seq<Generic>,
) -> bool {
    let outer = spec_unbound_match(b, cs, gs);
    if outer.len() == 0 {
        next == prev
    } else {
        spec_generic_connected(prev, next, b.inner@, outer)
    }
}

/// Whether the chain of interface states walks through the pending
/// generics, one resolution step each.
pub open spec fn spec_unbound_chain(
    chain: Seq<Seq<EntityInterfaceBinding>>,
    pending: Seq<GenericBinding>,
    cs: Seq<ConstantDeclaration>,
    gs: Seq<Generic>,
) -> bool {
    chain.len() == pending.len() + 1 && forall|k: int|
        0 <= k < pending.len() ==> spec_unbound_step(
            chain[k],
            #[trigger] chain[k + 1],
            pending[k],
            cs,
            gs,
        )
}

/// Whether `s1` is `s0` after the still unbound generics in `pending`
/// were resolved one after the other against the constants and the
/// entity generics, each one left alone when nothing scores.
pub open spec fn spec_unbound_resolved(
    s0: Seq<EntityInterfaceBinding>,
    s1: Seq<EntityInterfaceBinding>,
    pending: Seq<GenericBinding>,
    cs: Seq<ConstantDeclaration>,
    gs: Seq<Generic>,
) -> bool {
    exists|chain: Seq<Seq<EntityInterfaceBinding>>|
        #[trigger] spec_unbound_chain(chain, pending, cs, gs) && chain[0] == s0 && chain.last()
            == s1
}

/// Whether every matched interface pair between two instances fits: the
/// second side's interface exists and has no more ports than the first
/// side's, so one signal list serves both.
pub open spec fn spec_pairs_fit(a: Instance, b: Instance) -> bool {
    let pairs = spec_instance_match_pairs(
        a.bindings.interfaces@,
        b.bindings.interfaces@,
        a.bindings.interfaces@.len() as int,
    );
    forall|p: int|
        0 <= p < pairs.len() ==> ((#[trigger] pairs[p]).1 as int) < b.bindings.interfaces@.len()
            && b.bindings.interfaces@[pairs[p].1 as int].ports@.len()
            <= a.bindings.interfaces@[pairs[p].0 as int].ports@.len()
}

/// Whether two interface bindings agree everywhere but possibly in
/// their ports' outer identifiers.
pub open spec fn spec_ports_shape_eq(x: EntityInterfaceBinding, y: EntityInterfaceBinding) -> bool {
    &&& x.name == y.name
    &&& x.class == y.class
    &&& x.generics@ == y.generics@
    &&& x.ports@.len() == y.ports@.len()
    &&& forall|w: int|
        0 <= w < y.ports@.len() ==> #[trigger] x.ports@[w] == (PortBinding {
            outer: x.ports@[w].outer,
            ..y.ports@[w]
        })
}

/// Whether the interface `n` is `o` with every port bound to the name at
/// its position.
pub open spec fn spec_iface_on_signals(
    o: EntityInterfaceBinding,
    n: EntityInterfaceBinding,
    names: Seq<Seq<char>>,
) -> bool {
    &&& n.name == o.name
    &&& n.class == o.class
    &&& n.generics@ == o.generics@
    &&& n.ports@.len() == o.ports@.len()
    &&& forall|k: int|
        0 <= k < o.ports@.len() ==> #[trigger] n.ports@[k] == (PortBinding {
            outer: n.ports@[k].outer,
            ..o.ports@[k]
        }) && n.ports@[k].outer@ == names[k]
}

/// The names of the signals synthesized for one matched interface, one
/// per port.
pub open spec fn spec_signal_names_for(
    iface: EntityInterfaceBinding,
    a: Seq<char>,
    b: Seq<char>,
) -> Seq<Seq<char>> {
    Seq::new(
        iface.ports@.len(),
        |k: int| spec_connection_signal_name(iface.ports@[k].direction, a, b, iface.ports@[k].inner@),
    )
}

/// The (name, data type, default) triples of the signals synthesized
/// for all matched interfaces, in match order; synthesized signals carry
/// no default.
pub open spec fn spec_signals_of_pairs(
    pairs: Seq<(usize, usize)>,
    a_ifs: Seq<EntityInterfaceBinding>,
    a: Seq<char>,
    b: Seq<char>,
) -> Seq<(Seq<char>, Seq<char>, Seq<char>)>
    decreases pairs.len(),
{
    if pairs.len() == 0 {
        Seq::empty()
    } else {
        let iface = a_ifs[pairs.last().0 as int];
        spec_signals_of_pairs(pairs.drop_last(), a_ifs, a, b) + Seq::new(
            iface.ports@.len(),
            |k: int|
                (
                    spec_connection_signal_name(iface.ports@[k].direction, a, b, iface.ports@[k].inner@),
                    iface.ports@[k].data_type@,
                    Seq::<char>::empty(),
                ),
        )
    }
}

/// One step of wiring a matched pair: only the picked interface
/// changes, and it binds to the synthesized signal names.
pub open spec fn spec_pair_step(
    prev: Seq<EntityInterfaceBinding>,
    next: Seq<EntityInterfaceBinding>,
    pr: (usize, usize),
    a_ifs: Seq<EntityInterfaceBinding>,
    pick_a: bool,
    a: Seq<char>,
    b: Seq<char>,
) -> bool {
    let t: int = if pick_a {
        pr.0 as int
    } else {
        pr.1 as int
    };
    let names = spec_signal_names_for(a_ifs[pr.0 as int], a, b);
    &&& prev.len() == next.len()
    &&& 0 <= t < next.len()
    &&& forall|k: int| 0 <= k < next.len() && k != t ==> next[k] == prev[k]
    &&& spec_iface_on_signals(prev[t], next[t], names)
}

/// Whether the chain of interface states walks through the matched
/// pairs, one wiring step each.
pub open spec fn spec_pairs_chain(
    chain: Seq<Seq<EntityInterfaceBinding>>,
    pairs: Seq<(usize, usize)>,
    a_ifs: Seq<EntityInterfaceBinding>,
    pick_a: bool,
    a: Seq<char>,
    b: Seq<char>,
) -> bool {
    chain.len() == pairs.len() + 1 && forall|k: int|
        0 <= k < pairs.len() ==> spec_pair_step(
            chain[k],
            #[trigger] chain[k + 1],
            pairs[k],
            a_ifs,
            pick_a,
            a,
            b,
        )
}

/// Whether `s1` is `s0` with, for every matched pair in order, the
/// picked interface bound to the synthesized signal names.  `pick_a`
/// selects which side of each pair is connected; the names always come
/// from the first instance's interfaces.
pub open spec fn spec_pairs_connected(
    s0: Seq<EntityInterfaceBinding>,
    s1: Seq<EntityInterfaceBinding>,
    pairs: Seq<(usize, usize)>,
    a_ifs: Seq<EntityInterfaceBinding>,
    pick_a: bool,
    a: Seq<char>,
    b: Seq<char>,
) -> bool {
    exists|chain: Seq<Seq<EntityInterfaceBinding>>|
        #[trigger] spec_pairs_chain(chain, pairs, a_ifs, pick_a, a, b) && chain[0] == s0
            && chain.last() == s1
}

/// Whether `m1` is `m0` with one signal of the given name, data type
/// and default declared, idempotently.
pub open spec fn spec_signal_declared(
    m0: BlockModel,
    m1: BlockModel,
    sig: (Seq<char>, Seq<char>, Seq<char>),
) -> bool {
    if spec_has_name(m0, sig.0) {
        m1 == m0
    } else {
        exists|v: SignalDeclaraion|
            v.name@ == sig.0 && v.data_type@ == sig.1 && v.default@ == sig.2 && m1
                == #[trigger] spec_add_signal(m0, v)
    }
}

/// Whether the chain of models walks through the listed signals: each
/// step declares the next signal idempotently.
pub open spec fn spec_signal_chain(
    mids: Seq<BlockModel>,
    sigs: Seq<(Seq<char>, Seq<char>, Seq<char>)>,
) -> bool {
    mids.len() == sigs.len() + 1 && forall|k: int|
        0 <= k < sigs.len() ==> spec_signal_declared(mids[k], #[trigger] mids[k + 1], sigs[k])
}

/// Whether `m1` is `m0` with every listed signal declared, in order,
/// each idempotently.
pub open spec fn spec_signals_declared(
    m0: BlockModel,
    m1: BlockModel,
    sigs: Seq<(Seq<char>, Seq<char>, Seq<char>)>,
) -> bool {
    exists|mids: Seq<BlockModel>|
        #[trigger] spec_signal_chain(mids, sigs) && mids[0] == m0 && mids.last() == m1
}

/// The data types of a list of synthesized signals, in order.
pub open spec fn spec_signal_types(sigs: Seq<(Seq<char>, Seq<char>, Seq<char>)>) -> Seq<Seq<char>> {
    sigs.map_values(|p: (Seq<char>, Seq<char>, Seq<char>)| p.1)
}

/// Whether, at index `x`, the first instance of the given name was
/// wired to the entity interfaces by the greedy resolution, all other
/// instances untouched.
pub open spec fn spec_entity_wired_at(
    pre_insts: Seq<Instance>,
    es: Seq<EntityInterface>,
    post_insts: Seq<Instance>,
    name: Seq<char>,
    x: int,
) -> bool {
    &&& 0 <= x < pre_insts.len()
    &&& pre_insts[x].name@ == name
    &&& forall|k: int| 0 <= k < x ==> (#[trigger] pre_insts[k]).name@ != name
    &&& forall|k: int|
        0 <= k < pre_insts.len() && k != x ==> #[trigger] post_insts[k] == pre_insts[k]
    &&& post_insts[x].name == pre_insts[x].name
    &&& post_insts[x].library == pre_insts[x].library
    &&& post_insts[x].entity == pre_insts[x].entity
    &&& post_insts[x].bindings.interfaces@.len() == pre_insts[x].bindings.interfaces@.len()
    &&& forall|i: int|
        0 <= i < pre_insts[x].bindings.interfaces@.len()
            ==> match crate::vhdl::instance::spec_chosen_entity_interface(
            pre_insts[x].bindings.interfaces@,
            es,
            i,
        ) {
            Some(idx) => 0 <= idx < es.len() && crate::vhdl::instance::spec_connected_to(
                pre_insts[x].bindings.interfaces@[i],
                es[idx],
                #[trigger] post_insts[x].bindings.interfaces@[i],
            ),
            None => post_insts[x].bindings.interfaces@[i] == pre_insts[x].bindings.interfaces@[i],
        }
}

/// Whether, at indices `xa` and `xb`, the two first-named instances were
/// wired together over their matched interface pairs, the synthesized
/// signals declared, and everything else untouched.
pub open spec fn spec_instances_wired_at(
    pre: Architecture,
    post: Architecture,
    inst_name_a: Seq<char>,
    inst_name_b: Seq<char>,
    xa: int,
    xb: int,
) -> bool {
    let a0 = pre.instances@[xa];
    let b0 = pre.instances@[xb];
    let pairs = spec_instance_match_pairs(
        a0.bindings.interfaces@,
        b0.bindings.interfaces@,
        a0.bindings.interfaces@.len() as int,
    );
    let sigs = spec_signals_of_pairs(pairs, a0.bindings.interfaces@, inst_name_a, inst_name_b);
    &&& 0 <= xa < pre.instances@.len()
    &&& 0 <= xb < pre.instances@.len()
    &&& xa != xb
    &&& a0.name@ == inst_name_a
    &&& b0.name@ == inst_name_b
    &&& forall|k: int| 0 <= k < xa ==> (#[trigger] pre.instances@[k]).name@ != inst_name_a
    &&& forall|k: int| 0 <= k < xb ==> (#[trigger] pre.instances@[k]).name@ != inst_name_b
    &&& forall|k: int|
        0 <= k < pre.instances@.len() && k != xa && k != xb ==> #[trigger] post.instances@[k]
            == pre.instances@[k]
    &&& post.instances@.len() == pre.instances@.len()
    &&& post.instances@[xa].name == a0.name
    &&& post.instances@[xa].library == a0.library
    &&& post.instances@[xa].entity == a0.entity
    &&& post.instances@[xb].name == b0.name
    &&& post.instances@[xb].library == b0.library
    &&& post.instances@[xb].entity == b0.entity
    &&& spec_pairs_connected(
        a0.bindings.interfaces@,
        post.instances@[xa].bindings.interfaces@,
        pairs,
        a0.bindings.interfaces@,
        true,
        inst_name_a,
        inst_name_b,
    )
    &&& spec_pairs_connected(
        b0.bindings.interfaces@,
        post.instances@[xb].bindings.interfaces@,
        pairs,
        a0.bindings.interfaces@,
        false,
        inst_name_a,
        inst_name_b,
    )
    &&& post.entity.libraries.spec_models() == spec_after_missing_uses(
        pre.entity.libraries.spec_models(),
        spec_signal_types(sigs),
    )
    &&& spec_signals_declared(pre.declarations.model(), post.declarations.model(), sigs)
    &&& post.entity.name == pre.entity.name
    &&& post.entity.library == pre.entity.library
    &&& post.entity.description == pre.entity.description
    &&& post.entity.interfaces == pre.entity.interfaces
}

/// Whether, at index `x`, the first instance of the given name had its
/// still unbound generics resolved against the constants and the entity
/// generics, all else untouched.
pub open spec fn spec_unbound_wired_at(
    pre: Architecture,
    post: Architecture,
    name: Seq<char>,
    x: int,
) -> bool {
    let ifs0 = pre.instances@[x].bindings.interfaces@;
    &&& 0 <= x < pre.instances@.len()
    &&& pre.instances@[x].name@ == name
    &&& forall|k: int| 0 <= k < x ==> (#[trigger] pre.instances@[k]).name@ != name
    &&& forall|k: int|
        0 <= k < pre.instances@.len() && k != x ==> #[trigger] post.instances@[k]
            == pre.instances@[k]
    &&& post.instances@.len() == pre.instances@.len()
    &&& post.instances@[x].name == pre.instances@[x].name
    &&& post.instances@[x].library == pre.instances@[x].library
    &&& post.instances@[x].entity == pre.instances@[x].entity
    &&& spec_unbound_resolved(
        ifs0,
        post.instances@[x].bindings.interfaces@,
        spec_all_unbound_generics(ifs0),
        pre.declarations.model().1,
        spec_concat_generics(pre.entity.interfaces@),
    )
    &&& post.entity == pre.entity
    &&& post.declarations == pre.declarations
    &&& post.statements == pre.statements
    &&& post.name == pre.name
}

/// Whether, at index `x`, the first instance of the given name had the
/// named port bound to the outer identifier, all else untouched.
pub open spec fn spec_port_bound_at(
    pre: Architecture,
    post: Architecture,
    name: Seq<char>,
    inner: Seq<char>,
    outer: Seq<char>,
    x: int,
) -> bool {
    &&& 0 <= x < pre.instances@.len()
    &&& pre.instances@[x].name@ == name
    &&& forall|k: int| 0 <= k < x ==> (#[trigger] pre.instances@[k]).name@ != name
    &&& forall|k: int|
        0 <= k < pre.instances@.len() && k != x ==> #[trigger] post.instances@[k]
            == pre.instances@[k]
    &&& post.instances@.len() == pre.instances@.len()
    &&& post.instances@[x].name == pre.instances@[x].name
    &&& post.instances@[x].library == pre.instances@[x].library
    &&& post.instances@[x].entity == pre.instances@[x].entity
    &&& spec_port_connected(
        pre.instances@[x].bindings.interfaces@,
        post.instances@[x].bindings.interfaces@,
        inner,
        outer,
    )
}

/// The structural body of an entity: uniquely-named declarations,
/// name-keyed instances in insertion order, and concurrent statements,
/// together with the resolution engine that wires instances up.
#[derive(Debug)]
pub struct Architecture {
    pub name: String,
    pub entity: Entity,
    pub declarations: BlockDeclarativeList,
    pub instances: Vec<Instance>,
    pub statements: Vec<ConcurrentStatement>,
}

impl Architecture {
    /// The architecture's lists are well formed and the owned entity has
    /// its default interface.
    pub open spec fn wf(self) -> bool {
        self.entity.wf() && self.declarations.wf()
    }

    pub fn new(name: &str, entity: &Entity) -> (r: Architecture)
        requires
            entity.wf(),
        ensures
            r.name@ == name@,
            r.entity.name == entity.name,
            r.entity.library == entity.library,
            r.entity.description == entity.description,
            r.entity.libraries.spec_models() == entity.libraries.spec_models(),
            r.entity.interfaces@.len() == entity.interfaces@.len(),
            forall|k: int|
                0 <= k < entity.interfaces@.len() ==> (#[trigger] r.entity.interfaces@[k]).spec_equal(
                    entity.interfaces@[k],
                ),
            r.declarations.model().0 == Seq::<BlockDeclarationType>::empty(),
            r.declarations.model().1 == Seq::<ConstantDeclaration>::empty(),
            r.declarations.model().2 == Seq::<SignalDeclaraion>::empty(),
            r.instances@ == Seq::<Instance>::empty(),
            r.statements@ == Seq::<ConcurrentStatement>::empty(),
            r.wf(),
    {
        Architecture {
            name: String::from_str(name),
            entity: entity.clone(),
            declarations: BlockDeclarativeList::new(),
            instances: Vec::new(),
            statements: Vec::new(),
        }
    }

    /// Declares a constant; a name already declared is a no-op.  The
    /// constant's data type may pull in a library import.
    pub fn add_constant_declaration(&mut self, constant: &ConstantDeclaration)
        requires
            old(self).wf(),
        ensures
            final(self).name == old(self).name,
            final(self).instances == old(self).instances,
            final(self).statements == old(self).statements,
            final(self).entity.name == old(self).entity.name,
            final(self).entity.library == old(self).entity.library,
            final(self).entity.description == old(self).entity.description,
            final(self).entity.interfaces == old(self).entity.interfaces,
            final(self).entity.libraries.spec_models() == spec_after_missing_use(
                old(self).entity.libraries.spec_models(),
                constant.data_type@,
            ),
            final(self).declarations.model() == spec_add_constant(
                old(self).declarations.model(),
                *constant,
            ),
            final(self).wf(),
    {
        self.entity.add_missing_library_use(constant.get_data_type().clone().as_str());
        self.declarations.add_constant(constant);
    }

    /// Declares a signal; a name already declared is a no-op.  The
    /// signal's data type may pull in a library import.
    pub fn add_signal_declaration(&mut self, signal: &SignalDeclaraion)
        requires
            old(self).wf(),
        ensures
            final(self).name == old(self).name,
            final(self).instances == old(self).instances,
            final(self).statements == old(self).statements,
            final(self).entity.name == old(self).entity.name,
            final(self).entity.library == old(self).entity.library,
            final(self).entity.description == old(self).entity.description,
            final(self).entity.interfaces == old(self).entity.interfaces,
            final(self).entity.libraries.spec_models() == spec_after_missing_use(
                old(self).entity.libraries.spec_models(),
                signal.data_type@,
            ),
            final(self).declarations.model() == spec_add_signal(
                old(self).declarations.model(),
                *signal,
            ),
            final(self).wf(),
    {
        self.entity.add_missing_library_use(signal.get_data_type().clone().as_str());
        self.declarations.add_signal(signal);
    }

    /// Declares every signal of the list, in order, each idempotently.
    pub fn add_signal_declaration_list(&mut self, signal_list: &Vec<SignalDeclaraion>)
        requires
            old(self).wf(),
        ensures
            final(self).name == old(self).name,
            final(self).instances == old(self).instances,
            final(self).statements == old(self).statements,
            final(self).entity.name == old(self).entity.name,
            final(self).entity.library == old(self).entity.library,
            final(self).entity.description == old(self).entity.description,
            final(self).entity.interfaces == old(self).entity.interfaces,
            final(self).entity.libraries.spec_models() == spec_after_missing_uses(
                old(self).entity.libraries.spec_models(),
                signal_list@.map_values(|s: SignalDeclaraion| s.data_type@),
            ),
            spec_signals_declared(
                old(self).declarations.model(),
                final(self).declarations.model(),
                signal_list@.map_values(|s: SignalDeclaraion| (s.name@, s.data_type@, s.default@)),
            ),
            final(self).wf(),
    {
        let ghost sigs = signal_list@.map_values(
            |s: SignalDeclaraion| (s.name@, s.data_type@, s.default@),
        );
        let ghost types = signal_list@.map_values(|s: SignalDeclaraion| s.data_type@);
        let ghost ms0 = self.entity.libraries.spec_models();
        let ghost m0 = self.declarations.model();
        let ghost mut chain: Seq<BlockModel> = seq![m0];
        proof {
            assert(spec_signal_chain(chain, sigs.take(0)));
        }
        let n: usize = signal_list.len();
        let mut i: usize = 0;
        while i < n
            invariant
                chain.len() == i + 1,
                chain[0] == m0,
                chain.last() == self.declarations.model(),
                spec_signal_chain(chain, sigs.take(i as int)),
                n == signal_list@.len(),
                i <= n,
                self.wf(),
                sigs == signal_list@.map_values(
                    |s: SignalDeclaraion| (s.name@, s.data_type@, s.default@),
                ),
                types == signal_list@.map_values(|s: SignalDeclaraion| s.data_type@),
                ms0 == old(self).entity.libraries.spec_models(),
                m0 == old(self).declarations.model(),
                self.name == old(self).name,
                self.instances == old(self).instances,
                self.statements == old(self).statements,
                self.entity.name == old(self).entity.name,
                self.entity.library == old(self).entity.library,
                self.entity.description == old(self).entity.description,
                self.entity.interfaces == old(self).entity.interfaces,
                self.entity.libraries.spec_models() == spec_after_missing_uses(
                    ms0,
                    types.take(i as int),
                ),
            decreases n - i,
        {
            let ghost mid = self.declarations.model();
            let ghost pre_chain = chain;
            self.add_signal_declaration(&signal_list[i]);
            proof {
                chain = chain.push(self.declarations.model());
            }
            proof {
                assert(types.take(i + 1 as int).drop_last() =~~= types.take(i as int));
                assert(types.take(i + 1 as int).last() == signal_list@[i as int].data_type@);
                assert(sigs.take(i + 1 as int).drop_last() =~~= sigs.take(i as int));
                assert(sigs.take(i + 1 as int).last() == (
                    signal_list@[i as int].name@,
                    signal_list@[i as int].data_type@,
                    signal_list@[i as int].default@,
                ));
                assert(spec_signal_declared(
                    mid,
                    self.declarations.model(),
                    (
                        signal_list@[i as int].name@,
                        signal_list@[i as int].data_type@,
                        signal_list@[i as int].default@,
                    ),
                )) by {
                    if !spec_has_name(mid, signal_list@[i as int].name@) {
                        assert(self.declarations.model() == spec_add_signal(
                            mid,
                            signal_list@[i as int],
                        ));
                    }
                }
                assert(spec_signal_chain(chain, sigs.take(i + 1 as int))) by {
                    assert(chain[i as int] == mid);
                    assert(chain[i + 1 as int] == self.declarations.model());
                    assert forall|k: int| 0 <= k < i + 1 implies spec_signal_declared(
                        chain[k],
                        #[trigger] chain[k + 1],
                        sigs.take(i + 1 as int)[k],
                    ) by {
                        if k < i {
                            assert(spec_signal_declared(
                                pre_chain[k],
                                pre_chain[k + 1],
                                sigs.take(i as int)[k],
                            ));
                            assert(chain[k] == pre_chain[k]);
                            assert(chain[k + 1] == pre_chain[k + 1]);
                            assert(sigs.take(i + 1 as int)[k] == sigs.take(i as int)[k]);
                        }
                    }
                }
            }
            i = i + 1;
        }
        proof {
            assert(types.take(n as int) =~~= types);
            assert(sigs.take(n as int) =~~= sigs);
            assert(spec_signals_declared(m0, self.declarations.model(), sigs)) by {
                assert(spec_signal_chain(chain, sigs));
            }
        }
    }

    /// Appends a concurrent signal assignment.
    pub fn add_signal_assignment(&mut self, signal_assignment: SignalAssignment)
        ensures
            final(self).name == old(self).name,
            final(self).entity == old(self).entity,
            final(self).declarations == old(self).declarations,
            final(self).instances == old(self).instances,
            final(self).statements@ == old(self).statements@.push(
                ConcurrentStatement::Assignment(signal_assignment),
            ),
    {
        self.statements.push(ConcurrentStatement::Assignment(signal_assignment));
    }

    /// Appends a process statement.
    pub fn add_process(&mut self, process: Process)
        ensures
            final(self).name == old(self).name,
            final(self).entity == old(self).entity,
            final(self).declarations == old(self).declarations,
            final(self).instances == old(self).instances,
            final(self).statements@ == old(self).statements@.push(
                ConcurrentStatement::Process(process),
            ),
    {
        self.statements.push(ConcurrentStatement::Process(process));
    }

    /// Places an instance, keyed by its name: a name already placed has
    /// its earlier placement removed and the new instance goes to the
    /// end.
    pub fn add_instance(&mut self, instance: Instance)
        ensures
            final(self).name == old(self).name,
            final(self).entity == old(self).entity,
            final(self).declarations == old(self).declarations,
            final(self).statements == old(self).statements,
            final(self).instances@ == spec_add_instance(old(self).instances@, instance),
    {
        let found = self.find_instance(instance.get_name().as_str());
        match found {
            Some(i) => {
                let ghost pre = self.instances@;
                self.instances.remove(i);
                self.instances.push(instance);
                proof {
                    lemma_instance_index_first(pre, instance.name@, i as int);
                }
            },
            None => {
                self.instances.push(instance);
            },
        }
    }

    /// The index of the first instance carrying the name, if any.
    fn find_instance(&self, name: &str) -> (r: Option<usize>)
        ensures
            match r {
                Some(i) => 0 <= i < self.instances@.len() && self.instances@[i as int].name@
                    == name@ && (forall|k: int|
                    0 <= k < i ==> (#[trigger] self.instances@[k]).name@ != name@)
                    && spec_has_instance(self.instances@, name@),
                None => !spec_has_instance(self.instances@, name@),
            },
    {
        let n: usize = self.instances.len();
        let mut i: usize = 0;
        while i < n
            invariant
                n == self.instances@.len(),
                i <= n,
                forall|k: int| 0 <= k < i ==> (#[trigger] self.instances@[k]).name@ != name@,
            decreases n - i,
        {
            if crate::text_util::str_eq(self.instances[i].get_name().as_str(), name) {
                return Some(i);
            }
            i = i + 1;
        }
        None
    }

    /// The error reported when a named instance is missing.
    fn instance_not_found_error(&self, name: &str) -> (r: VhdlError)
        ensures
            r.message@ == "error: Instance \""@ + name@ + "\" not found in architecture \""@
                + self.name@ + "\"!"@,
    {
        let mut message = String::from_str("error: Instance \"");
        message.append(name);
        message.append("\" not found in architecture \"");
        message.append(self.name.as_str());
        message.append("\"!");
        VhdlError::new(message.as_str())
    }

    /// Wires the named instance to the owning entity's interfaces by the
    /// greedy per-interface resolution.  Interfaces of one class must
    /// share their shape; that is the construction-time invariant of the
    /// model.
    pub fn connect_instance_to_entity(&mut self, name: &str) -> (r: Result<(), VhdlError>)
        requires
            forall|x: int, i: int, j: int|
                0 <= x < old(self).instances@.len() && (#[trigger] old(self).instances@[x]).name@
                    == name@ && 0 <= i < old(self).instances@[x].bindings.interfaces@.len() && 0
                    <= j < old(self).entity.interfaces@.len() && (
                #[trigger] old(self).instances@[x].bindings.interfaces@[i]).class@ == (
                #[trigger] old(self).entity.interfaces@[j]).class@ ==> old(self).instances@[x].bindings.interfaces@[i].spec_compatible_with(
                    old(self).entity.interfaces@[j],
                ),
        ensures
            final(self).name == old(self).name,
            final(self).entity == old(self).entity,
            final(self).declarations == old(self).declarations,
            final(self).statements == old(self).statements,
            final(self).instances@.len() == old(self).instances@.len(),
            match r {
                Ok(_) => {
                    &&& spec_has_instance(old(self).instances@, name@)
                    &&& exists|x: int|
                        spec_entity_wired_at(
                            old(self).instances@,
                            old(self).entity.interfaces@,
                            final(self).instances@,
                            name@,
                            x,
                        )
                },
                Err(e) => {
                    &&& !spec_has_instance(old(self).instances@, name@)
                    &&& final(self).instances == old(self).instances
                    &&& e.message@ == "error: Instance \""@ + name@
                        + "\" not found in architecture \""@ + old(self).name@ + "\"!"@
                },
            },
    {
        let found = self.find_instance(name);
        match found {
            Some(x) => {
                proof {
                    assert(old(self).instances@[x as int].name@ == name@);
                    assert forall|i: int, j: int|
                        0 <= i < old(self).instances@[x as int].bindings.interfaces@.len() && 0
                            <= j < old(self).entity.interfaces@.len() && (
                        #[trigger] old(self).instances@[x as int].bindings.interfaces@[i]).class@
                            == (#[trigger] old(self).entity.interfaces@[j]).class@ implies old(self).instances@[x as int].bindings.interfaces@[i].spec_compatible_with(
                        old(self).entity.interfaces@[j],
                    ) by {
                        assert(old(self).instances@[x as int].name@ == name@);
                    }
                }
                let entity_ref = &self.entity;
                self.instances[x].connect_to_entity(entity_ref);
                proof {
                    assert((#[trigger] old(self).instances@[x as int]).name@ == name@);
                    assert(forall|k: int|
                        0 <= k < old(self).instances@.len() && k != x
                            ==> #[trigger] self.instances@[k] == old(self).instances@[k]);
                    assert(self.instances@[x as int].bindings.interfaces@.len() == old(self).instances@[x as int].bindings.interfaces@.len());
                    assert(self.entity == old(self).entity);
                    assert forall|i: int|
                        0 <= i < old(self).instances@[x as int].bindings.interfaces@.len() implies (
                    match crate::vhdl::instance::spec_chosen_entity_interface(
                        old(self).instances@[x as int].bindings.interfaces@,
                        old(self).entity.interfaces@,
                        i,
                    ) {
                        Some(idx) => 0 <= idx < old(self).entity.interfaces@.len()
                            && crate::vhdl::instance::spec_connected_to(
                            old(self).instances@[x as int].bindings.interfaces@[i],
                            old(self).entity.interfaces@[idx],
                            #[trigger] self.instances@[x as int].bindings.interfaces@[i],
                        ),
                        None => self.instances@[x as int].bindings.interfaces@[i] == old(self).instances@[x as int].bindings.interfaces@[i],
                    }) by {
                        // Naming the choice and the final binding here lets the
                        // callee's postcondition instantiate at this index.
                        let c = crate::vhdl::instance::spec_chosen_entity_interface(
                            old(self).instances@[x as int].bindings.interfaces@,
                            old(self).entity.interfaces@,
                            i,
                        );
                        let b = self.instances@[x as int].bindings.interfaces@[i];
                        assert(c == c && b == b);
                    }
                    assert forall|i: int|
                        0 <= i < old(self).instances@[x as int].bindings.interfaces@.len()
                            && crate::vhdl::instance::spec_chosen_entity_interface(
                            old(self).instances@[x as int].bindings.interfaces@,
                            old(self).entity.interfaces@,
                            i,
                        ) is Some implies 0 <= (
                    #[trigger] crate::vhdl::instance::spec_chosen_entity_interface(
                        old(self).instances@[x as int].bindings.interfaces@,
                        old(self).entity.interfaces@,
                        i,
                    )).unwrap() < old(self).entity.interfaces@.len() by {
                        crate::vhdl::instance::lemma_chosen_in_range(
                            old(self).instances@[x as int].bindings.interfaces@,
                            old(self).entity.interfaces@,
                            i,
                        );
                    }
                    assert(spec_entity_wired_at(
                        old(self).instances@,
                        old(self).entity.interfaces@,
                        self.instances@,
                        name@,
                        x as int,
                    ));
                }
                Ok(())
            },
            None => Err(self.instance_not_found_error(name)),
        }
    }

    /// Wires two placed instances together: every matched interface pair
    /// gets one synthesized signal per port, both sides bind to the same
    /// signals, and each signal is declared idempotently.  Matched
    /// interface pairs must agree on their port count; that is the
    /// construction-time invariant of the model.
    pub fn connect_instance_to_instance(&mut self, inst_name_a: &str, inst_name_b: &str) -> (r:
        Result<(), VhdlError>)
        requires
            old(self).wf(),
            forall|xa: int, xb: int|
                0 <= xa < old(self).instances@.len() && 0 <= xb < old(self).instances@.len() && (
                #[trigger] old(self).instances@[xa]).name@ == inst_name_a@ && (
                #[trigger] old(self).instances@[xb]).name@ == inst_name_b@ ==> spec_pairs_fit(
                    old(self).instances@[xa],
                    old(self).instances@[xb],
                ),
            inst_name_a@ != inst_name_b@,
        ensures
            final(self).name == old(self).name,
            final(self).statements == old(self).statements,
            final(self).wf(),
            match r {
                Ok(_) => spec_has_instance(old(self).instances@, inst_name_a@)
                    && spec_has_instance(old(self).instances@, inst_name_b@) && exists|
                    xa: int,
                    xb: int,
                |
                    spec_instances_wired_at(
                        *old(self),
                        *final(self),
                        inst_name_a@,
                        inst_name_b@,
                        xa,
                        xb,
                    ),
                Err(e) => {
                    &&& final(self).instances == old(self).instances
                    &&& final(self).entity == old(self).entity
                    &&& final(self).declarations == old(self).declarations
                    &&& !(spec_has_instance(old(self).instances@, inst_name_a@)
                        && spec_has_instance(old(self).instances@, inst_name_b@))
                    &&& e.message@ == if !spec_has_instance(old(self).instances@, inst_name_a@) {
                        "error: Instance \""@ + inst_name_a@
                            + "\" not found in architecture \""@ + old(self).name@ + "\"!"@
                    } else {
                        "error: Instance \""@ + inst_name_b@
                            + "\" not found in architecture \""@ + old(self).name@ + "\"!"@
                    }
                },
            },
    {
        let found_a = self.find_instance(inst_name_a);
        let xa = match found_a {
            Some(x) => x,
            None => {
                return Err(self.instance_not_found_error(inst_name_a));
            },
        };
        let found_b = self.find_instance(inst_name_b);
        let xb = match found_b {
            Some(x) => x,
            None => {
                return Err(self.instance_not_found_error(inst_name_b));
            },
        };
        proof {
            assert(xa != xb);
        }
        let ghost a0 = self.instances@[xa as int];
        let ghost b0 = self.instances@[xb as int];
        let matches = self.instances[xa].get_instance_interface_matches(&self.instances[xb]);
        let ghost pairs = spec_instance_match_pairs(
            a0.bindings.interfaces@,
            b0.bindings.interfaces@,
            a0.bindings.interfaces@.len() as int,
        );
        proof {
            lemma_instance_pairs_in_range(
                a0.bindings.interfaces@,
                b0.bindings.interfaces@,
                a0.bindings.interfaces@.len() as int,
            );
        }
        let ghost all_sigs = spec_signals_of_pairs(
            pairs,
            a0.bindings.interfaces@,
            inst_name_a@,
            inst_name_b@,
        );
        let mut connection_signal_lists: Vec<Vec<SignalDeclaraion>> = Vec::new();
        let ghost mut chain_a: Seq<Seq<EntityInterfaceBinding>> = seq![a0.bindings.interfaces@];
        let mn: usize = matches.len();
        let mut p: usize = 0;
        while p < mn
            invariant
                mn == pairs.len(),
                matches@ == pairs,
                p <= mn,
                old(self).wf(),
                self.wf(),
                xa < self.instances@.len(),
                xb < self.instances@.len(),
                xa != xb,
                self.instances@.len() == old(self).instances@.len(),
                a0 == old(self).instances@[xa as int],
                b0 == old(self).instances@[xb as int],
                pairs == spec_instance_match_pairs(
                    a0.bindings.interfaces@,
                    b0.bindings.interfaces@,
                    a0.bindings.interfaces@.len() as int,
                ),
                forall|k: int|
                    0 <= k < pairs.len() ==> ((#[trigger] pairs[k]).0 as int)
                        < a0.bindings.interfaces@.len() && ((pairs[k]).1 as int)
                        < b0.bindings.interfaces@.len(),
                forall|k: int|
                    0 <= k < self.instances@.len() && k != xa ==> #[trigger] self.instances@[k]
                        == old(self).instances@[k],
                self.name == old(self).name,
                self.entity == old(self).entity,
                self.declarations == old(self).declarations,
                self.statements == old(self).statements,
                self.instances@[xa as int].name == a0.name,
                self.instances@[xa as int].library == a0.library,
                self.instances@[xa as int].entity == a0.entity,
                self.instances@[xa as int].bindings.interfaces@.len()
                    == a0.bindings.interfaces@.len(),
                forall|k: int|
                    0 <= k < a0.bindings.interfaces@.len() ==> spec_ports_shape_eq(
                        #[trigger] self.instances@[xa as int].bindings.interfaces@[k],
                        a0.bindings.interfaces@[k],
                    ),
                chain_a.len() == p + 1,
                chain_a[0] == a0.bindings.interfaces@,
                chain_a.last() == self.instances@[xa as int].bindings.interfaces@,
                spec_pairs_chain(
                    chain_a,
                    pairs.take(p as int),
                    a0.bindings.interfaces@,
                    true,
                    inst_name_a@,
                    inst_name_b@,
                ),
                connection_signal_lists@.len() == p as int,
                forall|k: int|
                    0 <= k < p ==> {
                        let names = spec_signal_names_for(
                            a0.bindings.interfaces@[pairs[k].0 as int],
                            inst_name_a@,
                            inst_name_b@,
                        );
                        let vs = (#[trigger] connection_signal_lists@[k])@;
                        &&& vs.len() == a0.bindings.interfaces@[pairs[k].0 as int].ports@.len()
                        &&& forall|q: int|
                            0 <= q < vs.len() ==> (#[trigger] vs[q]).name@ == names[q]
                                && vs[q].data_type@
                                == a0.bindings.interfaces@[pairs[k].0 as int].ports@[q].data_type@
                                && vs[q].default@ == Seq::<char>::empty()
                    },
            decreases mn - p,
        {
            let (ai, _bi) = matches[p];
            let ghost pre_a = self.instances@[xa as int].bindings.interfaces@;
            let ghost pre_chain_a = chain_a;
            let signal_list = self.instances[xa].bindings.interfaces[ai].get_connection_signal_list(
                inst_name_a,
                inst_name_b,
            );
            self.instances[xa].connect_interface_by_index_to_signal_list(ai, &signal_list);
            connection_signal_lists.push(signal_list);
            proof {
                chain_a = chain_a.push(self.instances@[xa as int].bindings.interfaces@);
                assert(pairs.take(p + 1 as int).drop_last() =~= pairs.take(p as int));
                assert(pairs.take(p + 1 as int).last() == pairs[p as int]);
                let names = spec_signal_names_for(
                    a0.bindings.interfaces@[pairs[p as int].0 as int],
                    inst_name_a@,
                    inst_name_b@,
                );
                assert forall|q: int|
                    0 <= q < names.len() implies (#[trigger] connection_signal_lists@[p as int])@[q].name@
                        == names[q] by {
                    assert(pre_a[ai as int].ports@[q] == (PortBinding {
                        outer: pre_a[ai as int].ports@[q].outer,
                        ..a0.bindings.interfaces@[ai as int].ports@[q]
                    }));
                }
                assert(spec_iface_on_signals(
                    pre_a[ai as int],
                    self.instances@[xa as int].bindings.interfaces@[ai as int],
                    names,
                ));
                assert(spec_pairs_connected(
                    a0.bindings.interfaces@,
                    self.instances@[xa as int].bindings.interfaces@,
                    pairs.take(p + 1 as int),
                    a0.bindings.interfaces@,
                    true,
                    inst_name_a@,
                    inst_name_b@,
                )) by {
                    assert(spec_pair_step(
                        pre_a,
                        self.instances@[xa as int].bindings.interfaces@,
                        pairs[p as int],
                        a0.bindings.interfaces@,
                        true,
                        inst_name_a@,
                        inst_name_b@,
                    ));
                    assert(spec_pairs_chain(
                        chain_a,
                        pairs.take(p + 1 as int),
                        a0.bindings.interfaces@,
                        true,
                        inst_name_a@,
                        inst_name_b@,
                    )) by {
                        assert forall|k: int| 0 <= k < p + 1 implies spec_pair_step(
                            chain_a[k],
                            #[trigger] chain_a[k + 1],
                            pairs.take(p + 1 as int)[k],
                            a0.bindings.interfaces@,
                            true,
                            inst_name_a@,
                            inst_name_b@,
                        ) by {
                            if k < p {
                                assert(spec_pair_step(
                                    pre_chain_a[k],
                                    pre_chain_a[k + 1],
                                    pairs.take(p as int)[k],
                                    a0.bindings.interfaces@,
                                    true,
                                    inst_name_a@,
                                    inst_name_b@,
                                ));
                                assert(chain_a[k] == pre_chain_a[k]);
                                assert(chain_a[k + 1] == pre_chain_a[k + 1]);
                            } else {
                                assert(chain_a[k] == pre_a);
                                assert(chain_a[k + 1]
                                    == self.instances@[xa as int].bindings.interfaces@);
                            }
                        }
                    }
                }
            }
            p = p + 1;
        }
        proof {
            assert(pairs.take(mn as int) =~= pairs);
            assert(spec_pairs_connected(
                a0.bindings.interfaces@,
                self.instances@[xa as int].bindings.interfaces@,
                pairs,
                a0.bindings.interfaces@,
                true,
                inst_name_a@,
                inst_name_b@,
            )) by {
                assert(spec_pairs_chain(
                    chain_a,
                    pairs,
                    a0.bindings.interfaces@,
                    true,
                    inst_name_a@,
                    inst_name_b@,
                ));
            }
        }
        let ghost post_a = self.instances@[xa as int].bindings.interfaces@;
        let ghost mut chain_b: Seq<Seq<EntityInterfaceBinding>> = seq![b0.bindings.interfaces@];
        let mut q: usize = 0;
        while q < mn
            invariant
                mn == pairs.len(),
                matches@ == pairs,
                q <= mn,
                old(self).wf(),
                self.wf(),
                xa < self.instances@.len(),
                xb < self.instances@.len(),
                xa != xb,
                self.instances@.len() == old(self).instances@.len(),
                a0 == old(self).instances@[xa as int],
                b0 == old(self).instances@[xb as int],
                forall|k: int|
                    0 <= k < pairs.len() ==> ((#[trigger] pairs[k]).0 as int)
                        < a0.bindings.interfaces@.len() && ((pairs[k]).1 as int)
                        < b0.bindings.interfaces@.len(),
                forall|k: int|
                    0 <= k < pairs.len() ==> (#[trigger] b0.bindings.interfaces@[pairs[k].1 as int]).ports@.len()
                        <= a0.bindings.interfaces@[pairs[k].0 as int].ports@.len(),
                forall|k: int|
                    0 <= k < self.instances@.len() && k != xa && k != xb
                        ==> #[trigger] self.instances@[k] == old(self).instances@[k],
                self.name == old(self).name,
                self.entity == old(self).entity,
                self.declarations == old(self).declarations,
                self.statements == old(self).statements,
                self.instances@[xa as int].bindings.interfaces@ == post_a,
                spec_pairs_connected(
                    a0.bindings.interfaces@,
                    post_a,
                    pairs,
                    a0.bindings.interfaces@,
                    true,
                    inst_name_a@,
                    inst_name_b@,
                ),
                self.instances@[xa as int].name == a0.name,
                self.instances@[xa as int].library == a0.library,
                self.instances@[xa as int].entity == a0.entity,
                self.instances@[xb as int].name == b0.name,
                self.instances@[xb as int].library == b0.library,
                self.instances@[xb as int].entity == b0.entity,
                self.instances@[xb as int].bindings.interfaces@.len()
                    == b0.bindings.interfaces@.len(),
                forall|k: int|
                    0 <= k < b0.bindings.interfaces@.len() ==> spec_ports_shape_eq(
                        #[trigger] self.instances@[xb as int].bindings.interfaces@[k],
                        b0.bindings.interfaces@[k],
                    ),
                chain_b.len() == q + 1,
                chain_b[0] == b0.bindings.interfaces@,
                chain_b.last() == self.instances@[xb as int].bindings.interfaces@,
                spec_pairs_chain(
                    chain_b,
                    pairs.take(q as int),
                    a0.bindings.interfaces@,
                    false,
                    inst_name_a@,
                    inst_name_b@,
                ),
                connection_signal_lists@.len() == mn as int,
                forall|k: int|
                    0 <= k < mn ==> {
                        let names = spec_signal_names_for(
                            a0.bindings.interfaces@[pairs[k].0 as int],
                            inst_name_a@,
                            inst_name_b@,
                        );
                        let vs = (#[trigger] connection_signal_lists@[k])@;
                        &&& vs.len() == a0.bindings.interfaces@[pairs[k].0 as int].ports@.len()
                        &&& forall|w: int|
                            0 <= w < vs.len() ==> (#[trigger] vs[w]).name@ == names[w]
                                && vs[w].data_type@
                                == a0.bindings.interfaces@[pairs[k].0 as int].ports@[w].data_type@
                                && vs[w].default@ == Seq::<char>::empty()
                    },
            decreases mn - q,
        {
            let (_ai, bi) = matches[q];
            let ghost pre_b = self.instances@[xb as int].bindings.interfaces@;
            let ghost pre_chain_b = chain_b;
            self.instances[xb].connect_interface_by_index_to_signal_list(
                bi,
                &connection_signal_lists[q],
            );
            proof {
                chain_b = chain_b.push(self.instances@[xb as int].bindings.interfaces@);
                assert(pairs.take(q + 1 as int).drop_last() =~= pairs.take(q as int));
                assert(pairs.take(q + 1 as int).last() == pairs[q as int]);
                let names = spec_signal_names_for(
                    a0.bindings.interfaces@[pairs[q as int].0 as int],
                    inst_name_a@,
                    inst_name_b@,
                );
                assert(spec_iface_on_signals(
                    pre_b[bi as int],
                    self.instances@[xb as int].bindings.interfaces@[bi as int],
                    names,
                ));
                assert(spec_pairs_connected(
                    b0.bindings.interfaces@,
                    self.instances@[xb as int].bindings.interfaces@,
                    pairs.take(q + 1 as int),
                    a0.bindings.interfaces@,
                    false,
                    inst_name_a@,
                    inst_name_b@,
                )) by {
                    assert(spec_pair_step(
                        pre_b,
                        self.instances@[xb as int].bindings.interfaces@,
                        pairs[q as int],
                        a0.bindings.interfaces@,
                        false,
                        inst_name_a@,
                        inst_name_b@,
                    ));
                    assert(spec_pairs_chain(
                        chain_b,
                        pairs.take(q + 1 as int),
                        a0.bindings.interfaces@,
                        false,
                        inst_name_a@,
                        inst_name_b@,
                    )) by {
                        assert forall|k: int| 0 <= k < q + 1 implies spec_pair_step(
                            chain_b[k],
                            #[trigger] chain_b[k + 1],
                            pairs.take(q + 1 as int)[k],
                            a0.bindings.interfaces@,
                            false,
                            inst_name_a@,
                            inst_name_b@,
                        ) by {
                            if k < q {
                                assert(spec_pair_step(
                                    pre_chain_b[k],
                                    pre_chain_b[k + 1],
                                    pairs.take(q as int)[k],
                                    a0.bindings.interfaces@,
                                    false,
                                    inst_name_a@,
                                    inst_name_b@,
                                ));
                                assert(chain_b[k] == pre_chain_b[k]);
                                assert(chain_b[k + 1] == pre_chain_b[k + 1]);
                            } else {
                                assert(chain_b[k] == pre_b);
                                assert(chain_b[k + 1]
                                    == self.instances@[xb as int].bindings.interfaces@);
                            }
                        }
                    }
                }
            }
            q = q + 1;
        }
        proof {
            assert(pairs.take(mn as int) =~= pairs);
            assert(spec_pairs_connected(
                b0.bindings.interfaces@,
                self.instances@[xb as int].bindings.interfaces@,
                pairs,
                a0.bindings.interfaces@,
                false,
                inst_name_a@,
                inst_name_b@,
            )) by {
                assert(spec_pairs_chain(
                    chain_b,
                    pairs,
                    a0.bindings.interfaces@,
                    false,
                    inst_name_a@,
                    inst_name_b@,
                ));
            }
        }
        let ghost post_b = self.instances@[xb as int].bindings.interfaces@;
        let ghost insts_frozen = self.instances@;
        let ghost ms_pre = self.entity.libraries.spec_models();
        let ghost m_pre = self.declarations.model();
        proof {
            assert(pairs.take(0) =~= Seq::<(usize, usize)>::empty());
            let sigs0 = spec_signals_of_pairs_upto(
                0,
                pairs,
                a0.bindings.interfaces@,
                inst_name_a@,
                inst_name_b@,
            );
            assert(sigs0.len() == 0);
            assert(spec_signal_types(sigs0) =~~= Seq::<Seq<char>>::empty());
            assert(spec_after_missing_uses(ms_pre, spec_signal_types(sigs0)) == ms_pre);
            assert(spec_signals_declared(m_pre, m_pre, sigs0)) by {
                let c: Seq<BlockModel> = seq![m_pre];
                assert(c[0] == m_pre && c.last() == m_pre);
                assert(spec_signal_chain(c, sigs0));
            }
        }
        let ln: usize = connection_signal_lists.len();
        let mut l: usize = 0;
        while l < ln
            invariant
                ln == mn,
                mn == pairs.len(),
                l <= ln,
                self.wf(),
                old(self).wf(),
                xa < self.instances@.len(),
                xb < self.instances@.len(),
                self.instances@.len() == old(self).instances@.len(),
                a0 == old(self).instances@[xa as int],
                forall|k: int|
                    0 <= k < pairs.len() ==> ((#[trigger] pairs[k]).0 as int)
                        < a0.bindings.interfaces@.len(),
                self.name == old(self).name,
                self.statements == old(self).statements,
                self.instances@ == insts_frozen,
                insts_frozen.len() == old(self).instances@.len(),
                xa != xb,
                xb < insts_frozen.len(),
                b0 == old(self).instances@[xb as int],
                forall|k: int|
                    0 <= k < insts_frozen.len() && k != xa && k != xb ==> #[trigger] insts_frozen[k]
                        == old(self).instances@[k],
                insts_frozen[xa as int].name == a0.name,
                insts_frozen[xa as int].library == a0.library,
                insts_frozen[xa as int].entity == a0.entity,
                insts_frozen[xb as int].name == b0.name,
                insts_frozen[xb as int].library == b0.library,
                insts_frozen[xb as int].entity == b0.entity,
                insts_frozen[xa as int].bindings.interfaces@ == post_a,
                insts_frozen[xb as int].bindings.interfaces@ == post_b,
                spec_pairs_connected(
                    a0.bindings.interfaces@,
                    post_a,
                    pairs,
                    a0.bindings.interfaces@,
                    true,
                    inst_name_a@,
                    inst_name_b@,
                ),
                spec_pairs_connected(
                    b0.bindings.interfaces@,
                    post_b,
                    pairs,
                    a0.bindings.interfaces@,
                    false,
                    inst_name_a@,
                    inst_name_b@,
                ),
                forall|k: int|
                    0 <= k < xa ==> (#[trigger] old(self).instances@[k]).name@ != inst_name_a@,
                forall|k: int|
                    0 <= k < xb ==> (#[trigger] old(self).instances@[k]).name@ != inst_name_b@,
                a0.name@ == inst_name_a@,
                b0.name@ == inst_name_b@,
                self.entity.name == old(self).entity.name,
                self.entity.library == old(self).entity.library,
                self.entity.description == old(self).entity.description,
                self.entity.interfaces == old(self).entity.interfaces,
                connection_signal_lists@.len() == mn as int,
                all_sigs == spec_signals_of_pairs(
                    pairs,
                    a0.bindings.interfaces@,
                    inst_name_a@,
                    inst_name_b@,
                ),
                forall|k: int|
                    0 <= k < mn ==> {
                        let names = spec_signal_names_for(
                            a0.bindings.interfaces@[pairs[k].0 as int],
                            inst_name_a@,
                            inst_name_b@,
                        );
                        let vs = (#[trigger] connection_signal_lists@[k])@;
                        &&& vs.len() == a0.bindings.interfaces@[pairs[k].0 as int].ports@.len()
                        &&& forall|w: int|
                            0 <= w < vs.len() ==> (#[trigger] vs[w]).name@ == names[w]
                                && vs[w].data_type@
                                == a0.bindings.interfaces@[pairs[k].0 as int].ports@[w].data_type@
                                && vs[w].default@ == Seq::<char>::empty()
                    },
                self.entity.libraries.spec_models() == spec_after_missing_uses(
                    ms_pre,
                    spec_signal_types(spec_signals_of_pairs_upto(l as int, pairs, a0.bindings.interfaces@, inst_name_a@, inst_name_b@)),
                ),
                spec_signals_declared(
                    m_pre,
                    self.declarations.model(),
                    spec_signals_of_pairs_upto(l as int, pairs, a0.bindings.interfaces@, inst_name_a@, inst_name_b@),
                ),
            decreases ln - l,
        {
            let ghost ms_mid = self.entity.libraries.spec_models();
            let ghost m_mid = self.declarations.model();
            self.add_signal_declaration_list(&connection_signal_lists[l]);
            proof {
                lemma_signals_upto_step(
                    l as int,
                    pairs,
                    a0.bindings.interfaces@,
                    inst_name_a@,
                    inst_name_b@,
                );
                let iface = a0.bindings.interfaces@[pairs[l as int].0 as int];
                let segment = Seq::new(
                    iface.ports@.len(),
                    |k: int|
                        (
                            spec_connection_signal_name(
                                iface.ports@[k].direction,
                                inst_name_a@,
                                inst_name_b@,
                                iface.ports@[k].inner@,
                            ),
                            iface.ports@[k].data_type@,
                            Seq::<char>::empty(),
                        ),
                );
                let vs = connection_signal_lists@[l as int]@;
                assert(vs.map_values(|x: SignalDeclaraion| (x.name@, x.data_type@, x.default@))
                    =~~= segment);
                assert(vs.map_values(|x: SignalDeclaraion| x.data_type@) =~~= spec_signal_types(
                    segment,
                ));
                let upto = spec_signals_of_pairs_upto(
                    l as int,
                    pairs,
                    a0.bindings.interfaces@,
                    inst_name_a@,
                    inst_name_b@,
                );
                assert(spec_signal_types(upto + segment) =~~= spec_signal_types(upto)
                    + spec_signal_types(segment));
                lemma_missing_uses_concat(ms_pre, spec_signal_types(upto), spec_signal_types(segment));
                lemma_signals_declared_concat(
                    m_pre,
                    m_mid,
                    self.declarations.model(),
                    upto,
                    segment,
                );
            }
            l = l + 1;
        }
        proof {
            assert(pairs.take(mn as int) =~= pairs);
            assert(all_sigs == spec_signals_of_pairs_upto(
                mn as int,
                pairs,
                a0.bindings.interfaces@,
                inst_name_a@,
                inst_name_b@,
            ));
            assert((#[trigger] old(self).instances@[xa as int]).name@ == inst_name_a@);
            assert((#[trigger] old(self).instances@[xb as int]).name@ == inst_name_b@);
            assert(spec_instances_wired_at(
                *old(self),
                *self,
                inst_name_a@,
                inst_name_b@,
                xa as int,
                xb as int,
            ));
        }
        Ok(())
    }

    /// The strength of an unbound generic against one constant.
    fn get_generic_constant_match_strength(
        &self,
        binding: &GenericBinding,
        constant: &ConstantDeclaration,
    ) -> (r: u32)
        ensures
            r == spec_generic_constant_score(*binding, *constant),
    {
        let binding_name = crate::text_util::to_lowercase(binding.get_inner().as_str());
        let constant_name = crate::text_util::to_lowercase(constant.get_name().as_str());
        let data_type_match = crate::text_util::str_eq(
            binding.get_data_type().as_str(),
            constant.get_data_type().as_str(),
        );
        if !data_type_match {
            return 0;
        }
        if crate::text_util::str_eq(binding_name.as_str(), constant_name.as_str()) {
            return 3;
        }
        if crate::text_util::contains(constant_name.as_str(), binding_name.as_str())
            || crate::text_util::contains(binding_name.as_str(), constant_name.as_str()) {
            return 2;
        }
        1
    }

    /// The strength of an unbound generic against one entity generic.
    fn get_generic_generic_match_strength(&self, binding: &GenericBinding, generic: &Generic) -> (r:
        u32)
        ensures
            r == spec_generic_generic_score(*binding, *generic),
    {
        let binding_name = crate::text_util::to_lowercase(binding.get_inner().as_str());
        let generic_full_name = generic.get_name();
        let generic_name = crate::text_util::to_lowercase(generic_full_name.as_str());
        let data_type_match = crate::text_util::str_eq(
            binding.get_data_type().as_str(),
            generic.get_data_type().as_str(),
        );
        if !data_type_match {
            return 0;
        }
        if crate::text_util::str_eq(binding_name.as_str(), generic_name.as_str()) {
            return 3;
        }
        if crate::text_util::contains(generic_name.as_str(), binding_name.as_str())
            || crate::text_util::contains(binding_name.as_str(), generic_name.as_str()) {
            return 2;
        }
        1
    }

    /// The outer identifier an unbound generic resolves to: the
    /// constants are searched first and win only on a strictly higher
    /// strength; the empty text means nothing scored.
    fn get_instance_generic_match(&self, binding: &GenericBinding) -> (r: String)
        requires
            self.wf(),
        ensures
            r@ == spec_unbound_match(
                *binding,
                self.declarations.model().1,
                spec_concat_generics(self.entity.interfaces@),
            ),
    {
        let ghost cs = self.declarations.model().1;
        let ghost gs = spec_concat_generics(self.entity.interfaces@);
        let constants = self.declarations.get_constants();
        let mut constant_match = crate::vhdl::match_index::MatchIndex::new();
        let cn: usize = constants.len();
        let mut i: usize = 0;
        while i < cn
            invariant
                cn == cs.len(),
                constants@ == cs,
                cs == self.declarations.model().1,
                i <= cn,
                (constant_match.index as int, constant_match.strength) == spec_best_constant_match(
                    *binding,
                    cs,
                    i as int,
                ),
            decreases cn - i,
        {
            let strength = self.get_generic_constant_match_strength(binding, &constants[i]);
            constant_match.update(i, strength);
            i = i + 1;
        }
        let generics = self.entity.get_generics();
        let mut generic_match = crate::vhdl::match_index::MatchIndex::new();
        let gn: usize = generics.len();
        let mut j: usize = 0;
        while j < gn
            invariant
                gn == gs.len(),
                generics@ == gs,
                gs == spec_concat_generics(self.entity.interfaces@),
                j <= gn,
                (generic_match.index as int, generic_match.strength) == spec_best_generic_match(
                    *binding,
                    gs,
                    j as int,
                ),
            decreases gn - j,
        {
            let strength = self.get_generic_generic_match_strength(binding, &generics[j]);
            generic_match.update(j, strength);
            j = j + 1;
        }
        proof {
            lemma_best_constant_in_range(*binding, cs, cn as int);
            lemma_best_generic_in_range(*binding, gs, gn as int);
        }
        if constant_match.strength() > generic_match.strength() {
            constants[constant_match.position()].get_name().clone()
        } else if generic_match.strength() > 0 {
            generics[generic_match.position()].get_name()
        } else {
            String::new()
        }
    }

    /// Resolves the still unbound generics of the named instance by
    /// best-effort matching against the architecture's constants and
    /// the owning entity's generics; a generic matching nothing stays
    /// unbound, and that is no error.
    pub fn connect_instance_unbound_by_name(&mut self, instance: &str) -> (r: Result<
        (),
        VhdlError,
    >)
        requires
            old(self).wf(),
        ensures
            final(self).name == old(self).name,
            final(self).entity == old(self).entity,
            final(self).declarations == old(self).declarations,
            final(self).statements == old(self).statements,
            final(self).wf(),
            match r {
                Ok(_) => spec_has_instance(old(self).instances@, instance@) && exists|x: int|
                    spec_unbound_wired_at(*old(self), *final(self), instance@, x),
                Err(e) => {
                    &&& !spec_has_instance(old(self).instances@, instance@)
                    &&& final(self).instances == old(self).instances
                    &&& e.message@ == "error: Instance \""@ + instance@
                        + "\" not found in architecture \""@ + old(self).name@ + "\"!"@
                },
            },
    {
        let found = self.find_instance(instance);
        let x = match found {
            Some(x) => x,
            None => {
                return Err(self.instance_not_found_error(instance));
            },
        };
        let ghost ifs0 = self.instances@[x as int].bindings.interfaces@;
        let ghost cs = self.declarations.model().1;
        let ghost gs = spec_concat_generics(self.entity.interfaces@);
        let pending = self.instances[x].get_unbound_generics();
        proof {
            crate::vhdl::instance::lemma_all_unbound_membership(ifs0);
        }
        let mut outers: Vec<String> = Vec::new();
        let pn: usize = pending.len();
        let mut t: usize = 0;
        while t < pn
            invariant
                pn == pending@.len(),
                t <= pn,
                self.wf(),
                cs == self.declarations.model().1,
                gs == spec_concat_generics(self.entity.interfaces@),
                outers@.len() == t as int,
                forall|w: int|
                    0 <= w < t ==> (#[trigger] outers@[w])@ == spec_unbound_match(
                        pending@[w],
                        cs,
                        gs,
                    ),
            decreases pn - t,
        {
            outers.push(self.get_instance_generic_match(&pending[t]));
            t = t + 1;
        }
        let ghost mut chain: Seq<Seq<EntityInterfaceBinding>> = seq![ifs0];
        let mut k: usize = 0;
        while k < pn
            invariant
                pn == pending@.len(),
                k <= pn,
                old(self).wf(),
                self.wf(),
                x < self.instances@.len(),
                self.instances@.len() == old(self).instances@.len(),
                ifs0 == old(self).instances@[x as int].bindings.interfaces@,
                pending@ == spec_all_unbound_generics(ifs0),
                cs == old(self).declarations.model().1,
                gs == spec_concat_generics(old(self).entity.interfaces@),
                outers@.len() == pn as int,
                forall|w: int|
                    0 <= w < pn ==> (#[trigger] outers@[w])@ == spec_unbound_match(
                        pending@[w],
                        cs,
                        gs,
                    ),
                forall|t2: int|
                    0 <= t2 < pending@.len() ==> exists|j: int|
                        0 <= j < ifs0.len() && spec_iface_has_generic(
                            ifs0[j],
                            (#[trigger] pending@[t2]).inner@,
                        ),
                self.name == old(self).name,
                self.entity == old(self).entity,
                self.declarations == old(self).declarations,
                self.statements == old(self).statements,
                forall|w: int|
                    0 <= w < self.instances@.len() && w != x ==> #[trigger] self.instances@[w]
                        == old(self).instances@[w],
                self.instances@[x as int].name == old(self).instances@[x as int].name,
                self.instances@[x as int].library == old(self).instances@[x as int].library,
                self.instances@[x as int].entity == old(self).instances@[x as int].entity,
                spec_generics_inner_preserved(
                    self.instances@[x as int].bindings.interfaces@,
                    ifs0,
                ),
                chain.len() == k + 1,
                chain[0] == ifs0,
                chain.last() == self.instances@[x as int].bindings.interfaces@,
                spec_unbound_chain(chain, pending@.take(k as int), cs, gs),
            decreases pn - k,
        {
            let ghost pre = self.instances@[x as int].bindings.interfaces@;
            let ghost pre_chain = chain;
            if !outers[k].as_str().is_empty() {
                proof {
                    let j = choose|j: int|
                        0 <= j < ifs0.len() && spec_iface_has_generic(
                            ifs0[j],
                            pending@[k as int].inner@,
                        );
                    let g = choose|g: int|
                        0 <= g < ifs0[j].generics@.len() && (#[trigger] ifs0[j].generics@[g]).inner@
                            == pending@[k as int].inner@;
                    assert(pre[j].generics@[g].inner@ == pending@[k as int].inner@);
                    assert(spec_iface_has_generic(pre[j], pending@[k as int].inner@));
                }
                let rr = self.instances[x].connect_generic(
                    pending[k].get_inner().as_str(),
                    outers[k].as_str(),
                );
                proof {
                    if rr is Err {
                        assert(false);
                    }
                    chain = chain.push(self.instances@[x as int].bindings.interfaces@);
                    assert(spec_generic_connected(
                        pre,
                        self.instances@[x as int].bindings.interfaces@,
                        pending@[k as int].inner@,
                        outers@[k as int]@,
                    ));
                    assert(spec_unbound_step(
                        pre,
                        self.instances@[x as int].bindings.interfaces@,
                        pending@[k as int],
                        cs,
                        gs,
                    ));
                    assert(spec_generics_inner_preserved(
                        self.instances@[x as int].bindings.interfaces@,
                        ifs0,
                    )) by {
                        let cur = self.instances@[x as int].bindings.interfaces@;
                        let j = choose|j: int|
                            {
                                &&& 0 <= j < pre.len() == cur.len()
                                &&& forall|jj: int|
                                    0 <= jj < j ==> !spec_iface_has_generic(
                                        #[trigger] pre[jj],
                                        pending@[k as int].inner@,
                                    )
                                &&& spec_iface_has_generic(
                                    #[trigger] pre[j],
                                    pending@[k as int].inner@,
                                )
                                &&& forall|jj: int|
                                    0 <= jj < pre.len() && jj != j ==> cur[jj] == pre[jj]
                                &&& cur[j].name == pre[j].name
                                &&& cur[j].class == pre[j].class
                                &&& cur[j].ports@ == pre[j].ports@
                                &&& cur[j].generics@.len() == pre[j].generics@.len()
                                &&& exists|g: int|
                                    {
                                        &&& 0 <= g < pre[j].generics@.len()
                                        &&& (#[trigger] pre[j].generics@[g]).inner@
                                            == pending@[k as int].inner@
                                        &&& forall|gg: int|
                                            0 <= gg < g ==> (
                                            #[trigger] pre[j].generics@[gg]).inner@
                                                != pending@[k as int].inner@
                                        &&& cur[j].generics@ == pre[j].generics@.update(
                                            g,
                                            GenericBinding {
                                                outer: cur[j].generics@[g].outer,
                                                ..pre[j].generics@[g]
                                            },
                                        )
                                        &&& cur[j].generics@[g].outer@ == outers@[k as int]@
                                    }
                            };
                        assert forall|jj: int| 0 <= jj < ifs0.len() implies (
                        #[trigger] cur[jj]).generics@.len() == ifs0[jj].generics@.len() && (
                        forall|g2: int|
                            0 <= g2 < ifs0[jj].generics@.len() ==> (
                            #[trigger] cur[jj].generics@[g2]).inner@
                                == ifs0[jj].generics@[g2].inner@) by {
                            assert(pre[jj].generics@.len() == ifs0[jj].generics@.len());
                        }
                    }
                }
            } else {
                proof {
                    chain = chain.push(self.instances@[x as int].bindings.interfaces@);
                    assert(spec_unbound_step(
                        pre,
                        self.instances@[x as int].bindings.interfaces@,
                        pending@[k as int],
                        cs,
                        gs,
                    ));
                }
            }
            proof {
                assert(pending@.take(k + 1 as int).drop_last() =~= pending@.take(k as int));
                assert(pending@.take(k + 1 as int).last() == pending@[k as int]);
                assert(spec_unbound_chain(chain, pending@.take(k + 1 as int), cs, gs)) by {
                    assert forall|w: int| 0 <= w < k + 1 implies spec_unbound_step(
                        chain[w],
                        #[trigger] chain[w + 1],
                        pending@.take(k + 1 as int)[w],
                        cs,
                        gs,
                    ) by {
                        if w < k {
                            assert(spec_unbound_step(
                                pre_chain[w],
                                pre_chain[w + 1],
                                pending@.take(k as int)[w],
                                cs,
                                gs,
                            ));
                            assert(chain[w] == pre_chain[w]);
                            assert(chain[w + 1] == pre_chain[w + 1]);
                        } else {
                            assert(chain[w] == pre);
                            assert(chain[w + 1]
                                == self.instances@[x as int].bindings.interfaces@);
                        }
                    }
                }
            }
            k = k + 1;
        }
        proof {
            assert(pending@.take(pn as int) =~= pending@);
            assert(spec_unbound_resolved(
                ifs0,
                self.instances@[x as int].bindings.interfaces@,
                pending@,
                cs,
                gs,
            )) by {
                assert(spec_unbound_chain(chain, pending@, cs, gs));
            }
            assert(spec_unbound_wired_at(*old(self), *self, instance@, x as int));
        }
        Ok(())
    }

    /// Binds the named port of the named instance to a literal outer
    /// identifier.
    pub fn connect_instance_to_port_by_name(
        &mut self,
        instance: &str,
        inner: &str,
        outer: &str,
    ) -> (r: Result<(), VhdlError>)
        ensures
            final(self).name == old(self).name,
            final(self).entity == old(self).entity,
            final(self).declarations == old(self).declarations,
            final(self).statements == old(self).statements,
            match r {
                Ok(_) => spec_has_instance(old(self).instances@, instance@) && exists|x: int|
                    spec_port_bound_at(*old(self), *final(self), instance@, inner@, outer@, x),
                Err(e) => if !spec_has_instance(old(self).instances@, instance@) {
                    &&& final(self).instances == old(self).instances
                    &&& e.message@ == "error: Architecture \""@ + old(self).name@
                        + "\" does not contain instance \""@ + instance@ + "\""@
                } else {
                    &&& final(self).instances@.len() == old(self).instances@.len()
                    &&& exists|x: int|
                        {
                            &&& 0 <= x < old(self).instances@.len()
                            &&& (#[trigger] old(self).instances@[x]).name@ == instance@
                            &&& forall|k: int|
                                0 <= k < old(self).instances@.len() && k != x ==> #[trigger] final(self).instances@[k] == old(self).instances@[k]
                            &&& final(self).instances@[x].name == old(self).instances@[x].name
                            &&& final(self).instances@[x].library == old(self).instances@[x].library
                            &&& final(self).instances@[x].entity == old(self).instances@[x].entity
                            &&& final(self).instances@[x].bindings.interfaces@ == old(self).instances@[x].bindings.interfaces@
                            &&& forall|j: int|
                                0 <= j < old(self).instances@[x].bindings.interfaces@.len()
                                    ==> !spec_iface_has_port(
                                    #[trigger] old(self).instances@[x].bindings.interfaces@[j],
                                    inner@,
                                )
                        }
                    &&& e.message@ == "error: Port \""@ + inner@ + "\" not found!"@
                },
            },
    {
        let found = self.find_instance(instance);
        let x = match found {
            Some(x) => x,
            None => {
                let mut message = String::from_str("error: Architecture \"");
                message.append(self.name.as_str());
                message.append("\" does not contain instance \"");
                message.append(instance);
                message.append("\"");
                return Err(VhdlError::new(message.as_str()));
            },
        };
        let rr = self.instances[x].connect_to_port(inner, outer);
        match rr {
            Ok(_) => {
                proof {
                    assert(spec_port_bound_at(
                        *old(self),
                        *self,
                        instance@,
                        inner@,
                        outer@,
                        x as int,
                    ));
                    assert(exists|w: int|
                        spec_port_bound_at(*old(self), *self, instance@, inner@, outer@, w));
                }
                Ok(())
            },
            Err(e) => {
                proof {
                    assert((#[trigger] old(self).instances@[x as int]).name@ == instance@);
                }
                Err(e)
            },
        }
    }

    /// Binds the named port of the named instance to an outer signal and
    /// declares that signal, typed like the port, idempotently.
    #[verifier::rlimit(80)]
    pub fn connect_instance_to_signal_by_name(
        &mut self,
        instance: &str,
        inner: &str,
        outer: &str,
    ) -> (r: Result<(), VhdlError>)
        requires
            old(self).wf(),
        ensures
            final(self).name == old(self).name,
            final(self).statements == old(self).statements,
            final(self).entity.name == old(self).entity.name,
            final(self).entity.library == old(self).entity.library,
            final(self).entity.description == old(self).entity.description,
            final(self).entity.interfaces == old(self).entity.interfaces,
            final(self).wf(),
            match r {
                Ok(_) => spec_has_instance(old(self).instances@, instance@) && exists|x: int|
                    {
                        let dt = spec_port_data_type(
                            final(self).instances@[x].bindings.interfaces@,
                            inner@,
                        );
                        &&& #[trigger] spec_port_bound_at(
                            *old(self),
                            *final(self),
                            instance@,
                            inner@,
                            outer@,
                            x,
                        )
                        &&& dt is Some
                        &&& final(self).entity.libraries.spec_models() == spec_after_missing_use(
                            old(self).entity.libraries.spec_models(),
                            dt.unwrap(),
                        )
                        &&& spec_signal_declared(
                            old(self).declarations.model(),
                            final(self).declarations.model(),
                            (outer@, dt.unwrap(), Seq::<char>::empty()),
                        )
                    },
                Err(e) => {
                    &&& final(self).entity == old(self).entity
                    &&& final(self).declarations == old(self).declarations
                    &&& if !spec_has_instance(old(self).instances@, instance@) {
                        e.message@ == "error: Architecture \""@ + old(self).name@
                            + "\" does not contain instance \""@ + instance@ + "\""@
                    } else {
                        e.message@ == "error: Port \""@ + inner@ + "\" not found!"@
                    }
                },
            },
    {
        let found = self.find_instance(instance);
        let x = match found {
            Some(x) => x,
            None => {
                let mut message = String::from_str("error: Architecture \"");
                message.append(self.name.as_str());
                message.append("\" does not contain instance \"");
                message.append(instance);
                message.append("\"");
                return Err(VhdlError::new(message.as_str()));
            },
        };
        let rr = self.instances[x].connect_to_port(inner, outer);
        match rr {
            Ok(_) => {},
            Err(e) => {
                proof {
                    assert((#[trigger] old(self).instances@[x as int]).name@ == instance@);
                }
                return Err(e);
            },
        }
        proof {
            assert(spec_port_bound_at(*old(self), *self, instance@, inner@, outer@, x as int));
            let pre_ifs = old(self).instances@[x as int].bindings.interfaces@;
            let post_ifs = self.instances@[x as int].bindings.interfaces@;
            let j = choose|j: int|
                {
                    &&& 0 <= j < pre_ifs.len() == post_ifs.len()
                    &&& forall|jj: int|
                        0 <= jj < j ==> !spec_iface_has_port(#[trigger] pre_ifs[jj], inner@)
                    &&& spec_iface_has_port(#[trigger] pre_ifs[j], inner@)
                    &&& forall|jj: int|
                        0 <= jj < pre_ifs.len() && jj != j ==> post_ifs[jj] == pre_ifs[jj]
                    &&& post_ifs[j].name == pre_ifs[j].name
                    &&& post_ifs[j].class == pre_ifs[j].class
                    &&& post_ifs[j].generics@ == pre_ifs[j].generics@
                    &&& post_ifs[j].ports@.len() == pre_ifs[j].ports@.len()
                    &&& exists|k: int|
                        {
                            &&& 0 <= k < pre_ifs[j].ports@.len()
                            &&& (#[trigger] pre_ifs[j].ports@[k]).inner@ == inner@
                            &&& forall|kk: int|
                                0 <= kk < k ==> (#[trigger] pre_ifs[j].ports@[kk]).inner@
                                    != inner@
                            &&& post_ifs[j].ports@ == pre_ifs[j].ports@.update(
                                k,
                                PortBinding {
                                    outer: post_ifs[j].ports@[k].outer,
                                    ..pre_ifs[j].ports@[k]
                                },
                            )
                            &&& post_ifs[j].ports@[k].outer@ == outer@
                        }
                };
            let k = choose|k: int|
                0 <= k < pre_ifs[j].ports@.len() && (#[trigger] pre_ifs[j].ports@[k]).inner@
                    == inner@;
            assert(post_ifs[j].ports@[k].inner@ == inner@);
            assert(spec_iface_has_port(post_ifs[j], inner@));
            crate::vhdl::instance::lemma_port_data_type_some(post_ifs, inner@);
            assert(spec_port_data_type(post_ifs, inner@) is Some);
        }
        let data_type = match self.instances[x].get_port_data_type_by_name(inner) {
            Some(dt) => dt.clone(),
            None => {
                proof {
                    assert(false);
                }
                String::new()
            },
        };
        let ghost pre_decl = self.declarations.model();
        let signal = SignalDeclaraion::new(outer, data_type.as_str());
        self.add_signal_declaration(&signal);
        proof {
            assert(spec_signal_declared(
                pre_decl,
                self.declarations.model(),
                (outer@, data_type@, Seq::<char>::empty()),
            )) by {
                if !spec_has_name(pre_decl, outer@) {
                    assert(self.declarations.model() == spec_add_signal(pre_decl, signal));
                }
            }
            assert((#[trigger] old(self).instances@[x as int]).name@ == instance@);
            assert(spec_port_bound_at(*old(self), *self, instance@, inner@, outer@, x as int));
            assert(spec_port_data_type(self.instances@[x as int].bindings.interfaces@, inner@)
                == Some(data_type@));
        }
        Ok(())
    }

    pub fn to_source_code(&self, indent: usize) -> (r: String)
        requires
            self.wf(),
        ensures
            r@ == self.spec_source_code(indent as nat),
    {
        let mut source = self.entity.to_source_code(indent);
        source.append("\n");
        let indent_str = crate::util::indent(indent);
        source.append(indent_str.as_str());
        source.append("architecture ");
        source.append(self.name.as_str());
        source.append(" of ");
        source.append(self.entity.get_name().as_str());
        source.append(" is\n");
        let deeper = crate::util::next_level(indent);
        let declarations = self.declarations.to_source_code(deeper);
        source.append(declarations.as_str());
        source.append(indent_str.as_str());
        source.append("begin\n");
        let ghost head = source@;
        let n: usize = self.instances.len();
        let mut i: usize = 0;
        while i < n
            invariant
                n == self.instances@.len(),
                i <= n,
                deeper as nat == spec_next_level(indent as nat),
                source@ == head + spec_instances_code(
                    self.instances@.take(i as int),
                    deeper as nat,
                ),
            decreases n - i,
        {
            let text = self.instances[i].to_source_code(deeper);
            source.append(text.as_str());
            proof {
                assert(self.instances@.take(i + 1 as int).drop_last() =~= self.instances@.take(
                    i as int,
                ));
                assert(self.instances@.take(i + 1 as int).last() == self.instances@[i as int]);
            }
            i = i + 1;
        }
        proof {
            assert(self.instances@.take(n as int) =~= self.instances@);
        }
        let ghost head2 = source@;
        let sn: usize = self.statements.len();
        let mut j: usize = 0;
        while j < sn
            invariant
                sn == self.statements@.len(),
                j <= sn,
                deeper as nat == spec_next_level(indent as nat),
                source@ == head2 + spec_statements_code(
                    self.statements@.take(j as int),
                    deeper as nat,
                ),
            decreases sn - j,
        {
            let text = match &self.statements[j] {
                ConcurrentStatement::Assignment(a) => a.to_source_code(deeper),
                ConcurrentStatement::Process(pr) => pr.to_source_code(deeper),
            };
            source.append(text.as_str());
            proof {
                assert(self.statements@.take(j + 1 as int).drop_last() =~= self.statements@.take(
                    j as int,
                ));
                assert(self.statements@.take(j + 1 as int).last() == self.statements@[j as int]);
            }
            j = j + 1;
        }
        proof {
            assert(self.statements@.take(sn as int) =~= self.statements@);
        }
        source.append(indent_str.as_str());
        source.append("end architecture ");
        source.append(self.name.as_str());
        source.append(";\n");
        source
    }

    /// Text of the architecture: its entity's full text first, then its
    /// own sections.
    pub open spec fn spec_source_code(self, indent: nat) -> Seq<char> {
        self.entity.spec_source_code(indent) + "\n"@ + spec_indent(indent) + "architecture "@
            + self.name@ + " of "@ + self.entity.name@ + " is\n"@
            + self.declarations.spec_source_code(spec_next_level(indent)) + spec_indent(indent)
            + "begin\n"@ + spec_instances_code(self.instances@, spec_next_level(indent))
            + spec_statements_code(self.statements@, spec_next_level(indent)) + spec_indent(indent)
            + "end architecture "@ + self.name@ + ";\n"@
    }
}

/// Whether the interfaces keep their generic inner names (and counts)
/// from the original state; only outer identifiers may differ.
pub open spec fn spec_generics_inner_preserved(
    cur: Seq<EntityInterfaceBinding>,
    orig: Seq<EntityInterfaceBinding>,
) -> bool {
    cur.len() == orig.len() && forall|j: int|
        0 <= j < orig.len() ==> (#[trigger] cur[j]).generics@.len() == orig[j].generics@.len() && (
        forall|g: int|
            0 <= g < orig[j].generics@.len() ==> (#[trigger] cur[j].generics@[g]).inner@
                == orig[j].generics@[g].inner@)
}

/// A winning constant candidate is in range.
proof fn lemma_best_constant_in_range(b: GenericBinding, cs: Seq<ConstantDeclaration>, n: int)
    requires
        n <= cs.len(),
    ensures
        ({
            let best = spec_best_constant_match(b, cs, n);
            best.1 > 0 ==> 0 <= best.0 < n
        }),
    decreases n,
{
    if n > 0 {
        lemma_best_constant_in_range(b, cs, n - 1);
    }
}

/// A winning entity-generic candidate is in range.
proof fn lemma_best_generic_in_range(b: GenericBinding, gs: Seq<Generic>, n: int)
    requires
        n <= gs.len(),
    ensures
        ({
            let best = spec_best_generic_match(b, gs, n);
            best.1 > 0 ==> 0 <= best.0 < n
        }),
    decreases n,
{
    if n > 0 {
        lemma_best_generic_in_range(b, gs, n - 1);
    }
}

/// The first matching index really is the first.
proof fn lemma_instance_index_first(insts: Seq<Instance>, name: Seq<char>, i: int)
    requires
        0 <= i < insts.len(),
        insts[i].name@ == name,
        forall|k: int| 0 <= k < i ==> (#[trigger] insts[k]).name@ != name,
    ensures
        spec_instance_index(insts, name) == i,
    decreases insts.len(),
{
    if i > 0 {
        lemma_instance_index_first(insts.drop_first(), name, i - 1);
    }
}

/// Matched pairs point into the two interface lists.
pub proof fn lemma_instance_pairs_in_range(
    as_: Seq<EntityInterfaceBinding>,
    bs: Seq<EntityInterfaceBinding>,
    n: int,
)
    requires
        n <= as_.len(),
    ensures
        forall|k: int|
            0 <= k < spec_instance_match_pairs(as_, bs, n).len() ==> ((
            #[trigger] spec_instance_match_pairs(as_, bs, n)[k]).0 as int) < as_.len() && ((
            spec_instance_match_pairs(as_, bs, n)[k]).1 as int) < bs.len(),
    decreases n,
{
    if n > 0 {
        lemma_instance_pairs_in_range(as_, bs, n - 1);
        let best = crate::vhdl::instance::spec_best_instance_match(as_[n - 1], bs, bs.len() as int);
        if best.1 > 0 {
            lemma_best_instance_in_range(as_[n - 1], bs, bs.len() as int);
            assert(spec_instance_match_pairs(as_, bs, n) == spec_instance_match_pairs(
                as_,
                bs,
                n - 1,
            ).push((((n - 1) as usize), (best.0 as usize))));
        }
    }
}

/// A winning instance-interface candidate is in range.
proof fn lemma_best_instance_in_range(
    a: EntityInterfaceBinding,
    bs: Seq<EntityInterfaceBinding>,
    n: int,
)
    requires
        n <= bs.len(),
    ensures
        ({
            let best = crate::vhdl::instance::spec_best_instance_match(a, bs, n);
            best.1 > 0 ==> 0 <= best.0 < n
        }),
    decreases n,
{
    if n > 0 {
        lemma_best_instance_in_range(a, bs, n - 1);
    }
}

/// The signals of the first `l` matched pairs.
pub open spec fn spec_signals_of_pairs_upto(
    l: int,
    pairs: Seq<(usize, usize)>,
    a_ifs: Seq<EntityInterfaceBinding>,
    a: Seq<char>,
    b: Seq<char>,
) -> Seq<(Seq<char>, Seq<char>, Seq<char>)> {
    spec_signals_of_pairs(pairs.take(l), a_ifs, a, b)
}

/// One more matched pair appends exactly its interface's signals.
proof fn lemma_signals_upto_step(
    l: int,
    pairs: Seq<(usize, usize)>,
    a_ifs: Seq<EntityInterfaceBinding>,
    a: Seq<char>,
    b: Seq<char>,
)
    requires
        0 <= l < pairs.len(),
    ensures
        spec_signals_of_pairs_upto(l + 1, pairs, a_ifs, a, b) == spec_signals_of_pairs_upto(
            l,
            pairs,
            a_ifs,
            a,
            b,
        ) + Seq::new(
            a_ifs[pairs[l].0 as int].ports@.len(),
            |k: int|
                (
                    spec_connection_signal_name(
                        a_ifs[pairs[l].0 as int].ports@[k].direction,
                        a,
                        b,
                        a_ifs[pairs[l].0 as int].ports@[k].inner@,
                    ),
                    a_ifs[pairs[l].0 as int].ports@[k].data_type@,
                    Seq::<char>::empty(),
                ),
        ),
{
    assert(pairs.take(l + 1).drop_last() =~= pairs.take(l));
    assert(pairs.take(l + 1).last() == pairs[l]);
}

/// Folding imports for a concatenation folds the first part, then the
/// second.
pub proof fn lemma_missing_uses_concat(
    ms: Seq<LibraryModel>,
    t1: Seq<Seq<char>>,
    t2: Seq<Seq<char>>,
)
    ensures
        spec_after_missing_uses(ms, t1 + t2) == spec_after_missing_uses(
            spec_after_missing_uses(ms, t1),
            t2,
        ),
    decreases t2.len(),
{
    if t2.len() == 0 {
        assert(t1 + t2 =~~= t1);
    } else {
        lemma_missing_uses_concat(ms, t1, t2.drop_last());
        assert((t1 + t2).drop_last() =~~= t1 + t2.drop_last());
        assert((t1 + t2).last() == t2.last());
    }
}

/// Declaring a concatenation of signal lists is declaring the first
/// list, then the second.
pub proof fn lemma_signals_declared_concat(
    m0: BlockModel,
    m1: BlockModel,
    m2: BlockModel,
    s1: Seq<(Seq<char>, Seq<char>, Seq<char>)>,
    s2: Seq<(Seq<char>, Seq<char>, Seq<char>)>,
)
    requires
        spec_signals_declared(m0, m1, s1),
        spec_signals_declared(m1, m2, s2),
    ensures
        spec_signals_declared(m0, m2, s1 + s2),
{
    let c1 = choose|c: Seq<BlockModel>|
        #[trigger] spec_signal_chain(c, s1) && c[0] == m0 && c.last() == m1;
    let c2 = choose|c: Seq<BlockModel>|
        #[trigger] spec_signal_chain(c, s2) && c[0] == m1 && c.last() == m2;
    let combined = c1 + c2.drop_first();
    assert(spec_signal_chain(combined, s1 + s2)) by {
        assert forall|k: int| 0 <= k < s1.len() + s2.len() implies spec_signal_declared(
            combined[k],
            #[trigger] combined[k + 1],
            (s1 + s2)[k],
        ) by {
            if k < s1.len() {
                assert(combined[k] == c1[k]);
                assert(combined[k + 1] == c1[k + 1]);
                assert(spec_signal_declared(c1[k], c1[k + 1], s1[k]));
            } else {
                let j = k - s1.len();
                assert(spec_signal_declared(c2[j], c2[j + 1], s2[j]));
                if k == s1.len() {
                    assert(combined[k] == c1.last());
                } else {
                    assert(combined[k] == c2.drop_first()[k - c1.len() as int]);
                    assert(combined[k] == c2[j]);
                }
                assert(combined[k + 1] == c2.drop_first()[k + 1 - c1.len() as int]);
                assert(combined[k + 1] == c2[j + 1]);
            }
        }
    }
    assert(combined[0] == m0);
    if s2.len() == 0 {
        assert(c2.len() == 1);
        assert(combined =~~= c1);
        assert(combined.last() == m2);
    } else {
        assert(combined.last() == c2.last());
    }
    assert(spec_signals_declared(m0, m2, s1 + s2)) by {
        assert(spec_signal_chain(combined, s1 + s2));
    }
}

/// Declaring the same signal twice declares it once, and so does
/// declaring the same constant twice: the second add finds the name
/// already declared and the library import of its data type already
/// folded in, and changes nothing.
pub proof fn lemma_signal_declaration_idempotent(
    ms: Seq<LibraryModel>,
    m: BlockModel,
    s: SignalDeclaraion,
)
    ensures
        spec_after_missing_use(spec_after_missing_use(ms, s.data_type@), s.data_type@)
            =~~= spec_after_missing_use(ms, s.data_type@),
        spec_add_signal(spec_add_signal(m, s), s) == spec_add_signal(m, s),
{
    crate::vhdl::entity::lemma_missing_use_idempotent(ms, s.data_type@);
    crate::vhdl::block_declarative_list::lemma_add_signal_idempotent(m, s);
}

/// The constant counterpart of the declaration idempotence law.
pub proof fn lemma_constant_declaration_idempotent(
    ms: Seq<LibraryModel>,
    m: BlockModel,
    c: ConstantDeclaration,
)
    ensures
        spec_after_missing_use(spec_after_missing_use(ms, c.data_type@), c.data_type@)
            =~~= spec_after_missing_use(ms, c.data_type@),
        spec_add_constant(spec_add_constant(m, c), c) == spec_add_constant(m, c),
{
    crate::vhdl::entity::lemma_missing_use_idempotent(ms, c.data_type@);
    crate::vhdl::block_declarative_list::lemma_add_constant_idempotent(m, c);
}

} // verus!
