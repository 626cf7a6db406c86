use vstd::prelude::*;
use vstd::string::StringExecFns;
use crate::element::spec_join;
use crate::element::views_of;
use crate::util::spec_indent;
use crate::util::spec_next_level;
use crate::vhdl::entity::Entity;
use crate::vhdl::entity_interface::EntityInterface;
use crate::vhdl::entity_interface_binding::EntityInterfaceBinding;
use crate::vhdl::entity_interface_binding::spec_unbound_generics;
use crate::vhdl::entity_interface_binding_list::EntityInterfaceBindingList;
use crate::vhdl::entity_interface_binding_list::spec_iface_binding_from;
use crate::vhdl::generic_binding::GenericBinding;
use crate::vhdl::port_binding::PortBinding;
use crate::vhdl::signal_declaration::SignalDeclaraion;
use crate::vhdl::vhdl_error::VhdlError;

verus! {

/// The incumbent of the fold over the first `n` entity interfaces: the
/// index of the strongest not-yet-consumed candidate and its strength,
/// earlier candidates winning ties.
pub open spec fn spec_best_entity_match(
    b: EntityInterfaceBinding,
    ifaces: Seq<EntityInterface>,
    avail: Seq<bool>,
    n: int,
) -> (int, u32)
    decreases n,
{
    if n <= 0 {
        (0, 0u32)
    } else {
        let prev = spec_best_entity_match(b, ifaces, avail, n - 1);
        let s: u32 = if avail[n - 1] {
            b.spec_entity_matching(ifaces[n - 1])
        } else {
            0u32
        };
        if prev.1 < s {
            (n - 1, s)
        } else {
            prev
        }
    }
}

/// Which entity interfaces are still unconsumed after the first `i`
/// instance interfaces took their pick.
pub open spec fn spec_avail_after(
    orig: Seq<EntityInterfaceBinding>,
    ifaces: Seq<EntityInterface>,
    i: int,
) -> Seq<bool>
    decreases i,
{
    if i <= 0 {
        Seq::new(ifaces.len(), |k: int| true)
    } else {
        let avail = spec_avail_after(orig, ifaces, i - 1);
        let best = spec_best_entity_match(orig[i - 1], ifaces, avail, ifaces.len() as int);
        if best.1 > 0 {
            avail.update(best.0, false)
        } else {
            avail
        }
    }
}

/// The entity interface that instance interface `i` binds to under the
/// greedy resolution, if any: the best-scoring unconsumed candidate,
/// provided it scores at all.
pub open spec fn spec_chosen_entity_interface(
    orig: Seq<EntityInterfaceBinding>,
    ifaces: Seq<EntityInterface>,
    i: int,
) -> Option<int> {
    let best = spec_best_entity_match(
        orig[i],
        ifaces,
        spec_avail_after(orig, ifaces, i),
        ifaces.len() as int,
    );
    if best.1 > 0 {
        Some(best.0)
    } else {
        None
    }
}

/// Whether `newb` is `oldb` with every binding connected positionally to
/// the generics and ports of `e`.
pub open spec fn spec_connected_to(
    oldb: EntityInterfaceBinding,
    e: EntityInterface,
    newb: EntityInterfaceBinding,
) -> bool {
    &&& newb.name == oldb.name
    &&& newb.class == oldb.class
    &&& newb.generics@.len() == oldb.generics@.len()
    &&& forall|k: int|
        0 <= k < oldb.generics@.len() ==> #[trigger] newb.generics@[k] == (GenericBinding {
            outer: newb.generics@[k].outer,
            ..oldb.generics@[k]
        }) && newb.generics@[k].outer@ == e.generics@[k].spec_name()
    &&& newb.ports@.len() == oldb.ports@.len()
    &&& forall|k: int|
        0 <= k < oldb.ports@.len() ==> #[trigger] newb.ports@[k] == (PortBinding {
            outer: newb.ports@[k].outer,
            ..oldb.ports@[k]
        }) && newb.ports@[k].outer@ == e.ports@[k].spec_name()
}

/// A winning candidate is in range, unconsumed, and scores its match
/// strength.
pub proof fn lemma_best_entity_match_props(
    b: EntityInterfaceBinding,
    ifaces: Seq<EntityInterface>,
    avail: Seq<bool>,
    n: int,
)
    requires
        n <= ifaces.len(),
        avail.len() == ifaces.len(),
    ensures
        ({
            let best = spec_best_entity_match(b, ifaces, avail, n);
            best.1 > 0 ==> 0 <= best.0 < n && avail[best.0] && best.1 == b.spec_entity_matching(
                ifaces[best.0],
            )
        }),
    decreases n,
{
    if n > 0 {
        lemma_best_entity_match_props(b, ifaces, avail, n - 1);
    }
}

/// A consumed entity interface stays consumed for every later step.
pub proof fn lemma_avail_monotone(
    orig: Seq<EntityInterfaceBinding>,
    ifaces: Seq<EntityInterface>,
    i1: int,
    i2: int,
    k: int,
)
    requires
        0 <= i1 <= i2,
        0 <= k < ifaces.len(),
        !spec_avail_after(orig, ifaces, i1)[k],
    ensures
        !spec_avail_after(orig, ifaces, i2)[k],
    decreases i2 - i1,
{
    if i1 < i2 {
        lemma_avail_monotone(orig, ifaces, i1, i2 - 1, k);
        lemma_avail_len(orig, ifaces, i2 - 1);
        let av = spec_avail_after(orig, ifaces, i2 - 1);
        let best = spec_best_entity_match(orig[i2 - 1], ifaces, av, ifaces.len() as int);
        lemma_best_entity_match_props(orig[i2 - 1], ifaces, av, ifaces.len() as int);
        if best.1 > 0 {
            assert(spec_avail_after(orig, ifaces, i2) == av.update(best.0, false));
            assert(!av.update(best.0, false)[k]);
        } else {
            assert(spec_avail_after(orig, ifaces, i2) == av);
        }
    }
}

/// The unconsumed markers always cover exactly the entity interfaces.
pub proof fn lemma_avail_len(orig: Seq<EntityInterfaceBinding>, ifaces: Seq<EntityInterface>, i: int)
    ensures
        spec_avail_after(orig, ifaces, i).len() == ifaces.len(),
    decreases i,
{
    if i > 0 {
        lemma_avail_len(orig, ifaces, i - 1);
        let avail = spec_avail_after(orig, ifaces, i - 1);
        lemma_best_entity_match_props(orig[i - 1], ifaces, avail, ifaces.len() as int);
    }
}

/// Greedy resolution is exclusive: no two instance interfaces bind to
/// the same entity interface, because a chosen candidate is consumed at
/// once and never offered again.
pub proof fn lemma_resolution_exclusive(
    orig: Seq<EntityInterfaceBinding>,
    ifaces: Seq<EntityInterface>,
    i1: int,
    i2: int,
)
    requires
        0 <= i1 < i2 < orig.len(),
        spec_chosen_entity_interface(orig, ifaces, i1) is Some,
        spec_chosen_entity_interface(orig, ifaces, i2) is Some,
    ensures
        spec_chosen_entity_interface(orig, ifaces, i1)
            != spec_chosen_entity_interface(orig, ifaces, i2),
{
    let k1 = spec_chosen_entity_interface(orig, ifaces, i1).unwrap();
    let k2 = spec_chosen_entity_interface(orig, ifaces, i2).unwrap();
    lemma_avail_len(orig, ifaces, i1);
    lemma_avail_len(orig, ifaces, i2);
    lemma_best_entity_match_props(
        orig[i1],
        ifaces,
        spec_avail_after(orig, ifaces, i1),
        ifaces.len() as int,
    );
    lemma_best_entity_match_props(
        orig[i2],
        ifaces,
        spec_avail_after(orig, ifaces, i2),
        ifaces.len() as int,
    );
    if k1 == k2 {
        assert(!spec_avail_after(orig, ifaces, i1 + 1)[k1]);
        lemma_avail_monotone(orig, ifaces, i1 + 1, i2, k1);
        assert(false);
    }
}

/// A chosen entity interface is always in range.
pub proof fn lemma_chosen_in_range(
    orig: Seq<EntityInterfaceBinding>,
    ifaces: Seq<EntityInterface>,
    i: int,
)
    ensures
        spec_chosen_entity_interface(orig, ifaces, i) is Some
            ==> 0 <= spec_chosen_entity_interface(orig, ifaces, i).unwrap() < ifaces.len(),
{
    lemma_avail_len(orig, ifaces, i);
    lemma_best_entity_match_props(
        orig[i],
        ifaces,
        spec_avail_after(orig, ifaces, i),
        ifaces.len() as int,
    );
}

/// The incumbent of the fold over another instance's interfaces, with
/// no consumption tracking.
pub open spec fn spec_best_instance_match(
    a: EntityInterfaceBinding,
    bs: Seq<EntityInterfaceBinding>,
    n: int,
) -> (int, u32)
    decreases n,
{
    if n <= 0 {
        (0, 0u32)
    } else {
        let prev = spec_best_instance_match(a, bs, n - 1);
        let s: u32 = a.spec_instance_matching(bs[n - 1]);
        if prev.1 < s {
            (n - 1, s)
        } else {
            prev
        }
    }
}

/// The interface pairs matched between two instances: for each interface
/// of the first, the best-scoring interface of the second, kept only
/// when it scores at all.
pub open spec fn spec_instance_match_pairs(
    as_: Seq<EntityInterfaceBinding>,
    bs: Seq<EntityInterfaceBinding>,
    i: int,
) -> Seq<(usize, usize)>
    decreases i,
{
    if i <= 0 {
        Seq::empty()
    } else {
        let prev = spec_instance_match_pairs(as_, bs, i - 1);
        let best = spec_best_instance_match(as_[i - 1], bs, bs.len() as int);
        if best.1 > 0 {
            prev.push(((i - 1) as usize, best.0 as usize))
        } else {
            prev
        }
    }
}

/// The first port data type carried under the inner name in a list of
/// port bindings.
pub open spec fn spec_port_data_type_in(ports: Seq<PortBinding>, name: Seq<char>) -> Option<
    Seq<char>,
>
    decreases ports.len(),
{
    if ports.len() == 0 {
        None
    } else if ports[0].inner@ == name {
        Some(ports[0].data_type@)
    } else {
        spec_port_data_type_in(ports.drop_first(), name)
    }
}

/// The first port data type carried under the inner name across the
/// interfaces.
pub open spec fn spec_port_data_type(ifs: Seq<EntityInterfaceBinding>, name: Seq<char>) -> Option<
    Seq<char>,
>
    decreases ifs.len(),
{
    if ifs.len() == 0 {
        None
    } else if spec_port_data_type_in(ifs[0].ports@, name) is Some {
        spec_port_data_type_in(ifs[0].ports@, name)
    } else {
        spec_port_data_type(ifs.drop_first(), name)
    }
}

/// The generic bindings that render on an instance: the bound ones and
/// those owing a binding.
pub open spec fn spec_rendered_generics(gs: Seq<GenericBinding>) -> Seq<GenericBinding>
    decreases gs.len(),
{
    if gs.len() == 0 {
        gs
    } else if gs.last().spec_is_bound() || gs.last().requires_binding {
        spec_rendered_generics(gs.drop_last()).push(gs.last())
    } else {
        spec_rendered_generics(gs.drop_last())
    }
}

/// All rendering generic bindings of the interfaces, in order.
pub open spec fn spec_all_rendered_generics(ifs: Seq<EntityInterfaceBinding>) -> Seq<GenericBinding>
    decreases ifs.len(),
{
    if ifs.len() == 0 {
        Seq::empty()
    } else {
        spec_all_rendered_generics(ifs.drop_last()) + spec_rendered_generics(ifs.last().generics@)
    }
}

/// All port bindings of the interfaces, in order.
pub open spec fn spec_all_port_bindings(ifs: Seq<EntityInterfaceBinding>) -> Seq<PortBinding>
    decreases ifs.len(),
{
    if ifs.len() == 0 {
        Seq::empty()
    } else {
        spec_all_port_bindings(ifs.drop_last()) + ifs.last().ports@
    }
}

/// An entity placed as a sub-module: a snapshot of the entity's shape
/// with one binding list spanning every interface.
#[derive(Debug)]
pub struct Instance {
    pub name: String,
    pub library: String,
    pub entity: String,
    pub bindings: EntityInterfaceBindingList,
}

impl Clone for Instance {
    fn clone(&self) -> (r: Self)
        ensures
            r.name == self.name,
            r.library == self.library,
            r.entity == self.entity,
            r.bindings.interfaces@.len() == self.bindings.interfaces@.len(),
            forall|k: int|
                0 <= k < self.bindings.interfaces@.len() ==> (#[trigger] r.bindings.interfaces@[k]).name
                    == self.bindings.interfaces@[k].name && r.bindings.interfaces@[k].class
                    == self.bindings.interfaces@[k].class && r.bindings.interfaces@[k].generics@
                    == self.bindings.interfaces@[k].generics@ && r.bindings.interfaces@[k].ports@
                    == self.bindings.interfaces@[k].ports@,
    {
        Instance {
            name: self.name.clone(),
            library: self.library.clone(),
            entity: self.entity.clone(),
            bindings: self.bindings.clone(),
        }
    }
}

impl Instance {
    /// Snapshots the entity's name, target library and interface shape;
    /// later changes to the entity never reach the instance.
    pub fn from_entity(name: &str, entity: &Entity) -> (r: Instance)
        ensures
            r.name@ == name@,
            r.library@ == entity.library@,
            r.entity@ == entity.name@,
            r.bindings.interfaces@.len() == entity.interfaces@.len(),
            forall|k: int|
                0 <= k < entity.interfaces@.len() ==> spec_iface_binding_from(
                    #[trigger] r.bindings.interfaces@[k],
                    entity.interfaces@[k],
                ),
    {
        Instance {
            name: String::from_str(name),
            library: entity.get_target_library().clone(),
            entity: entity.get_name().clone(),
            bindings: EntityInterfaceBindingList::from_entity(entity),
        }
    }

    /// Greedily binds each interface, in declaration order, to the
    /// best-scoring not-yet-consumed interface of the entity.  Earlier
    /// interfaces get first pick on ties.
    pub fn connect_to_entity(&mut self, entity: &Entity)
        requires
            forall|i: int, j: int|
                0 <= i < old(self).bindings.interfaces@.len() && 0 <= j
                    < entity.interfaces@.len() && (
                #[trigger] old(self).bindings.interfaces@[i]).class@ == (
                #[trigger] entity.interfaces@[j]).class@ ==> old(self).bindings.interfaces@[i].spec_compatible_with(entity.interfaces@[j]),
        ensures
            final(self).name == old(self).name,
            final(self).library == old(self).library,
            final(self).entity == old(self).entity,
            final(self).bindings.interfaces@.len() == old(self).bindings.interfaces@.len(),
            forall|i: int|
                0 <= i < old(self).bindings.interfaces@.len() ==> match spec_chosen_entity_interface(
                    old(self).bindings.interfaces@,
                    entity.interfaces@,
                    i,
                ) {
                    Some(idx) => 0 <= idx < entity.interfaces@.len() && spec_connected_to(
                        old(self).bindings.interfaces@[i],
                        entity.interfaces@[idx],
                        #[trigger] final(self).bindings.interfaces@[i],
                    ),
                    None => final(self).bindings.interfaces@[i] == old(self).bindings.interfaces@[i],
                },
    {
        let ghost orig = self.bindings.interfaces@;
        let ghost es = entity.interfaces@;
        let entity_interfaces = entity.get_interfaces();
        let m: usize = entity_interfaces.len();
        let mut avail: Vec<bool> = Vec::new();
        let mut k: usize = 0;
        while k < m
            invariant
                k <= m,
                avail@ =~= Seq::new(k as nat, |x: int| true),
            decreases m - k,
        {
            avail.push(true);
            k = k + 1;
        }
        proof {
            assert(avail@ =~= spec_avail_after(orig, es, 0));
        }
        let n: usize = self.bindings.interfaces.len();
        let mut i: usize = 0;
        while i < n
            invariant
                n == self.bindings.interfaces@.len(),
                n == orig.len(),
                m == es.len(),
                es == entity.interfaces@,
                entity_interfaces@ == es,
                i <= n,
                self.name == old(self).name,
                self.library == old(self).library,
                self.entity == old(self).entity,
                avail@.len() == m as int,
                avail@ == spec_avail_after(orig, es, i as int),
                orig == old(self).bindings.interfaces@,
                forall|ii: int| i <= ii < n ==> self.bindings.interfaces@[ii] == orig[ii],
                forall|i2: int, j2: int|
                    0 <= i2 < orig.len() && 0 <= j2 < es.len() && (#[trigger] orig[i2]).class@ == (
                    #[trigger] es[j2]).class@ ==> orig[i2].spec_compatible_with(es[j2]),
                forall|ii: int|
                    0 <= ii < i ==> match spec_chosen_entity_interface(orig, es, ii) {
                        Some(idx) => 0 <= idx < es.len() && spec_connected_to(
                            orig[ii],
                            es[idx],
                            #[trigger] self.bindings.interfaces@[ii],
                        ),
                        None => self.bindings.interfaces@[ii] == orig[ii],
                    },
            decreases n - i,
        {
            let mut match_index = crate::vhdl::match_index::MatchIndex::new();
            let mut j: usize = 0;
            while j < m
                invariant
                    n == self.bindings.interfaces@.len(),
                    m == es.len(),
                    entity_interfaces@ == es,
                    i < n,
                    j <= m,
                    avail@.len() == m as int,
                    self.bindings.interfaces@[i as int] == orig[i as int],
                    (match_index.index as int, match_index.strength) == spec_best_entity_match(
                        orig[i as int],
                        es,
                        avail@,
                        j as int,
                    ),
                decreases m - j,
            {
                if avail[j] {
                    let strength = Instance::get_match_strength(
                        &self.bindings.interfaces[i],
                        &entity_interfaces[j],
                    );
                    match_index.update(j, strength);
                } else {
                    proof {
                        let prev = spec_best_entity_match(orig[i as int], es, avail@, j as int);
                        assert(spec_best_entity_match(orig[i as int], es, avail@, j + 1 as int)
                            == prev);
                    }
                }
                j = j + 1;
            }
            proof {
                lemma_best_entity_match_props(orig[i as int], es, avail@, m as int);
            }
            let ghost pre = self.bindings.interfaces@;
            if match_index.is_match() {
                let pos = match_index.position();
                proof {
                    assert(orig[i as int].spec_entity_matching(es[pos as int]) > 0);
                    assert(orig[i as int].class@ == es[pos as int].class@);
                    assert(orig[i as int].spec_compatible_with(es[pos as int]));
                }
                self.bindings.interfaces[i].connect_to_entity_interface(&entity_interfaces[pos]);
                let slot = &mut avail[pos];
                *slot = false;
                proof {
                    assert(avail@ =~= spec_avail_after(orig, es, i + 1 as int));
                    assert(spec_chosen_entity_interface(orig, es, i as int) == Some(pos as int));
                    assert(spec_connected_to(
                        orig[i as int],
                        es[pos as int],
                        self.bindings.interfaces@[i as int],
                    ));
                    assert(self.bindings.interfaces@ == pre.update(
                        i as int,
                        self.bindings.interfaces@[i as int],
                    ));
                    assert forall|ii: int| 0 <= ii < i + 1 implies (
                    match #[trigger] spec_chosen_entity_interface(orig, es, ii) {
                        Some(idx) => 0 <= idx < es.len() && spec_connected_to(
                            orig[ii],
                            es[idx],
                            self.bindings.interfaces@[ii],
                        ),
                        None => self.bindings.interfaces@[ii] == orig[ii],
                    }) by {
                        if ii < i {
                            assert(self.bindings.interfaces@[ii] == pre[ii]);
                        }
                    }
                }
            } else {
                proof {
                    assert(avail@ =~= spec_avail_after(orig, es, i + 1 as int));
                    assert(spec_chosen_entity_interface(orig, es, i as int) is None);
                    assert forall|ii: int| 0 <= ii < i + 1 implies (
                    match #[trigger] spec_chosen_entity_interface(orig, es, ii) {
                        Some(idx) => 0 <= idx < es.len() && spec_connected_to(
                            orig[ii],
                            es[idx],
                            self.bindings.interfaces@[ii],
                        ),
                        None => self.bindings.interfaces@[ii] == orig[ii],
                    }) by {
                        if ii < i {
                            assert(self.bindings.interfaces@[ii] == pre[ii]);
                        }
                    }
                }
            }
            i = i + 1;
        }
        proof {
            assert forall|ix: int| 0 <= ix < orig.len() implies (
            match #[trigger] spec_chosen_entity_interface(orig, es, ix) {
                Some(idx) => 0 <= idx < es.len() && spec_connected_to(
                    orig[ix],
                    es[idx],
                    self.bindings.interfaces@[ix],
                ),
                None => self.bindings.interfaces@[ix] == orig[ix],
            }) by {
                assert(0 <= ix < n);
                let c = spec_chosen_entity_interface(orig, es, ix);
                let b = self.bindings.interfaces@[ix];
                assert(c == spec_chosen_entity_interface(orig, es, ix));
            }
        }
    }

    /// The strength of one instance interface against one entity
    /// interface; an already bound instance interface scores nothing.
    fn get_match_strength(instance: &EntityInterfaceBinding, entity: &EntityInterface) -> (r: u32)
        ensures
            r == instance.spec_entity_matching(*entity),
    {
        if instance.is_bound() {
            return crate::vhdl::match_index::NO_MATCH;
        }
        instance.get_entity_matching(entity)
    }

    /// The index of the first interface carrying the name, if any.
    fn find_interface_by_name(&self, name: &str) -> (r: Option<usize>)
        ensures
            match r {
                Some(j) => 0 <= j < self.bindings.interfaces@.len()
                    && self.bindings.interfaces@[j as int].name@ == name@ && forall|k: int|
                    0 <= k < j ==> (#[trigger] self.bindings.interfaces@[k]).name@ != name@,
                None => forall|k: int|
                    0 <= k < self.bindings.interfaces@.len() ==> (
                    #[trigger] self.bindings.interfaces@[k]).name@ != name@,
            },
    {
        let n: usize = self.bindings.interfaces.len();
        let mut i: usize = 0;
        while i < n
            invariant
                n == self.bindings.interfaces@.len(),
                i <= n,
                forall|k: int| 0 <= k < i ==> (#[trigger] self.bindings.interfaces@[k]).name@ != name@,
            decreases n - i,
        {
            if crate::text_util::str_eq(self.bindings.interfaces[i].get_name().as_str(), name) {
                return Some(i);
            }
            i = i + 1;
        }
        None
    }

    /// Binds every port of the first interface of the given name to the
    /// positionally matching synthesized signal.  Naming an interface
    /// the instance lacks is a construction bug, so it is ruled out.
    pub fn connect_interface_by_name_to_signal_list(
        &mut self,
        name: &str,
        signal_list: &Vec<SignalDeclaraion>,
    )
        requires
            exists|k: int|
                0 <= k < old(self).bindings.interfaces@.len() && (
                #[trigger] old(self).bindings.interfaces@[k]).name@ == name@,
            forall|k: int|
                0 <= k < old(self).bindings.interfaces@.len() && (
                #[trigger] old(self).bindings.interfaces@[k]).name@ == name@ ==> old(self).bindings.interfaces@[k].ports@.len() <= signal_list@.len(),
        ensures
            final(self).name == old(self).name,
            final(self).library == old(self).library,
            final(self).entity == old(self).entity,
            final(self).bindings.interfaces@.len() == old(self).bindings.interfaces@.len(),
            exists|j: int|
                {
                    &&& 0 <= j < old(self).bindings.interfaces@.len()
                    &&& (#[trigger] old(self).bindings.interfaces@[j]).name@ == name@
                    &&& forall|k: int|
                        0 <= k < j ==> (#[trigger] old(self).bindings.interfaces@[k]).name@
                            != name@
                    &&& forall|k: int|
                        0 <= k < old(self).bindings.interfaces@.len() && k != j
                            ==> #[trigger] final(self).bindings.interfaces@[k] == old(self).bindings.interfaces@[k]
                    &&& final(self).bindings.interfaces@[j].name == old(self).bindings.interfaces@[j].name
                    &&& final(self).bindings.interfaces@[j].class == old(self).bindings.interfaces@[j].class
                    &&& final(self).bindings.interfaces@[j].generics@ == old(self).bindings.interfaces@[j].generics@
                    &&& final(self).bindings.interfaces@[j].ports@.len() == old(self).bindings.interfaces@[j].ports@.len()
                    &&& forall|k: int|
                        0 <= k < old(self).bindings.interfaces@[j].ports@.len() ==> #[trigger] final(self).bindings.interfaces@[j].ports@[k] == (PortBinding {
                            outer: final(self).bindings.interfaces@[j].ports@[k].outer,
                            ..old(self).bindings.interfaces@[j].ports@[k]
                        }) && final(self).bindings.interfaces@[j].ports@[k].outer@
                            == signal_list@[k].name@
                },
    {
        let found = self.find_interface_by_name(name);
        match found {
            Some(j) => {
                self.bindings.interfaces[j].connect_to_signal_list(signal_list);
            },
            None => {
                proof {
                    let w = choose|w: int|
                        0 <= w < old(self).bindings.interfaces@.len() && (
                        #[trigger] old(self).bindings.interfaces@[w]).name@ == name@;
                    assert(false);
                }
            },
        }
    }

    /// Binds every port of the interface at the given index to the
    /// positionally matching synthesized signal.
    pub fn connect_interface_by_index_to_signal_list(
        &mut self,
        index: usize,
        signal_list: &Vec<SignalDeclaraion>,
    )
        requires
            index < old(self).bindings.interfaces@.len(),
            old(self).bindings.interfaces@[index as int].ports@.len() <= signal_list@.len(),
        ensures
            final(self).name == old(self).name,
            final(self).library == old(self).library,
            final(self).entity == old(self).entity,
            final(self).bindings.interfaces@.len() == old(self).bindings.interfaces@.len(),
            forall|k: int|
                0 <= k < old(self).bindings.interfaces@.len() && k != index
                    ==> #[trigger] final(self).bindings.interfaces@[k] == old(self).bindings.interfaces@[k],
            final(self).bindings.interfaces@[index as int].name == old(self).bindings.interfaces@[index as int].name,
            final(self).bindings.interfaces@[index as int].class == old(self).bindings.interfaces@[index as int].class,
            final(self).bindings.interfaces@[index as int].generics@ == old(self).bindings.interfaces@[index as int].generics@,
            final(self).bindings.interfaces@[index as int].ports@.len() == old(self).bindings.interfaces@[index as int].ports@.len(),
            forall|k: int|
                0 <= k < old(self).bindings.interfaces@[index as int].ports@.len()
                    ==> #[trigger] final(self).bindings.interfaces@[index as int].ports@[k]
                    == (PortBinding {
                    outer: final(self).bindings.interfaces@[index as int].ports@[k].outer,
                    ..old(self).bindings.interfaces@[index as int].ports@[k]
                }) && final(self).bindings.interfaces@[index as int].ports@[k].outer@
                    == signal_list@[k].name@,
    {
        self.bindings.interfaces[index].connect_to_signal_list(signal_list);
    }

    /// Binds the named generic to the outer identifier; a name the
    /// instance lacks is reported as an error.
    pub fn connect_generic(&mut self, inner: &str, outer: &str) -> (r: Result<(), VhdlError>)
        ensures
            final(self).name == old(self).name,
            final(self).library == old(self).library,
            final(self).entity == old(self).entity,
            final(self).bindings.interfaces@.len() == old(self).bindings.interfaces@.len(),
            r is Ok <==> (exists|j: int|
                0 <= j < old(self).bindings.interfaces@.len()
                    && crate::vhdl::entity_interface_binding_list::spec_iface_has_generic(
                    #[trigger] old(self).bindings.interfaces@[j],
                    inner@,
                )),
            r is Ok ==> crate::vhdl::entity_interface_binding_list::spec_generic_connected(
                old(self).bindings.interfaces@,
                final(self).bindings.interfaces@,
                inner@,
                outer@,
            ),
            r is Err ==> final(self).bindings.interfaces@ == old(self).bindings.interfaces@,
            r matches Err(e) ==> e.message@ == "error: Port \""@ + inner@ + "\" not found!"@,
    {
        self.bindings.connect_generic_by_name(inner, outer)
    }

    /// Binds the named port to the outer identifier; a name the instance
    /// lacks is reported as an error.
    pub fn connect_to_port(&mut self, inner: &str, outer: &str) -> (r: Result<(), VhdlError>)
        ensures
            final(self).name == old(self).name,
            final(self).library == old(self).library,
            final(self).entity == old(self).entity,
            final(self).bindings.interfaces@.len() == old(self).bindings.interfaces@.len(),
            r is Ok <==> (exists|j: int|
                0 <= j < old(self).bindings.interfaces@.len()
                    && crate::vhdl::entity_interface_binding_list::spec_iface_has_port(
                    #[trigger] old(self).bindings.interfaces@[j],
                    inner@,
                )),
            r is Ok ==> crate::vhdl::entity_interface_binding_list::spec_port_connected(
                old(self).bindings.interfaces@,
                final(self).bindings.interfaces@,
                inner@,
                outer@,
            ),
            r is Err ==> final(self).bindings.interfaces@ == old(self).bindings.interfaces@,
            r matches Err(e) ==> e.message@ == "error: Port \""@ + inner@ + "\" not found!"@,
    {
        self.bindings.connect_port_by_name(inner, outer)
    }

    pub fn get_name(&self) -> (r: &String)
        ensures
            r@ == self.name@,
    {
        &self.name
    }

    pub fn get_interfaces(&self) -> (r: &Vec<EntityInterfaceBinding>)
        ensures
            r@ == self.bindings.interfaces@,
    {
        self.bindings.get_interfaces()
    }

    /// The first interface carrying the name, if any.
    pub fn get_interface_by_name(&self, name: &str) -> (r: Option<&EntityInterfaceBinding>)
        ensures
            match r {
                Some(b) => exists|j: int|
                    0 <= j < self.bindings.interfaces@.len() && *b == (
                    #[trigger] self.bindings.interfaces@[j]) && self.bindings.interfaces@[j].name@
                        == name@,
                None => forall|k: int|
                    0 <= k < self.bindings.interfaces@.len() ==> (
                    #[trigger] self.bindings.interfaces@[k]).name@ != name@,
            },
    {
        let found = self.find_interface_by_name(name);
        match found {
            Some(j) => Some(&self.bindings.interfaces[j]),
            None => None,
        }
    }

    /// Whether the instance has an interface of the given name.
    pub fn contains_interface(&self, name: &str) -> (r: bool)
        ensures
            r == (exists|j: int|
                0 <= j < self.bindings.interfaces@.len() && (
                #[trigger] self.bindings.interfaces@[j]).name@ == name@),
    {
        let found = self.find_interface_by_name(name);
        match found {
            Some(j) => {
                proof {
                    assert(self.bindings.interfaces@[j as int].name@ == name@);
                }
                true
            },
            None => false,
        }
    }

    /// For every interface of this instance, the best-scoring interface
    /// of the other instance, among all of its interfaces; pairs that
    /// score nothing are left out.
    pub fn get_instance_interface_matches(&self, inst_b: &Instance) -> (r: Vec<(usize, usize)>)
        ensures
            r@ == spec_instance_match_pairs(
                self.bindings.interfaces@,
                inst_b.bindings.interfaces@,
                self.bindings.interfaces@.len() as int,
            ),
    {
        let ghost as_ = self.bindings.interfaces@;
        let ghost bs = inst_b.bindings.interfaces@;
        let mut matches: Vec<(usize, usize)> = Vec::new();
        let n: usize = self.bindings.interfaces.len();
        let m: usize = inst_b.bindings.interfaces.len();
        let mut i: usize = 0;
        while i < n
            invariant
                n == as_.len(),
                m == bs.len(),
                as_ == self.bindings.interfaces@,
                bs == inst_b.bindings.interfaces@,
                i <= n,
                matches@ == spec_instance_match_pairs(as_, bs, i as int),
            decreases n - i,
        {
            let mut match_index = crate::vhdl::match_index::MatchIndex::new();
            let mut j: usize = 0;
            while j < m
                invariant
                    n == as_.len(),
                    m == bs.len(),
                    as_ == self.bindings.interfaces@,
                    bs == inst_b.bindings.interfaces@,
                    i < n,
                    j <= m,
                    (match_index.index as int, match_index.strength) == spec_best_instance_match(
                        as_[i as int],
                        bs,
                        j as int,
                    ),
                decreases m - j,
            {
                let strength = self.bindings.interfaces[i].get_instance_matching(
                    &inst_b.bindings.interfaces[j],
                );
                match_index.update(j, strength);
                j = j + 1;
            }
            if match_index.is_match() {
                matches.push((i, match_index.position()));
                proof {
                    assert(matches@ =~= spec_instance_match_pairs(as_, bs, i + 1 as int));
                }
            }
            i = i + 1;
        }
        matches
    }

    /// The still unbound generic bindings across all interfaces, as
    /// copies.
    pub fn get_unbound_generics(&self) -> (r: Vec<GenericBinding>)
        ensures
            r@ == spec_all_unbound_generics(self.bindings.interfaces@),
    {
        let mut generics: Vec<GenericBinding> = Vec::new();
        let n: usize = self.bindings.interfaces.len();
        let mut i: usize = 0;
        while i < n
            invariant
                n == self.bindings.interfaces@.len(),
                i <= n,
                generics@ == spec_all_unbound_generics(self.bindings.interfaces@.take(i as int)),
            decreases n - i,
        {
            let mut unbound = self.bindings.interfaces[i].get_unbound_generics();
            let un: usize = unbound.len();
            let ghost head = generics@;
            let mut j: usize = 0;
            while j < un
                invariant
                    un == unbound@.len(),
                    j <= un,
                    generics@ == head + unbound@.take(j as int),
                decreases un - j,
            {
                generics.push(unbound[j].clone());
                proof {
                    assert(unbound@.take(j + 1 as int) =~= unbound@.take(j as int).push(
                        unbound@[j as int],
                    ));
                    assert(generics@ =~= head + unbound@.take(j + 1 as int));
                }
                j = j + 1;
            }
            proof {
                assert(unbound@.take(un as int) =~= unbound@);
                assert(self.bindings.interfaces@.take(i + 1 as int).drop_last()
                    =~= self.bindings.interfaces@.take(i as int));
                assert(self.bindings.interfaces@.take(i + 1 as int).last()
                    == self.bindings.interfaces@[i as int]);
            }
            i = i + 1;
        }
        proof {
            assert(self.bindings.interfaces@.take(n as int) =~= self.bindings.interfaces@);
        }
        generics
    }

    /// The data type of the first port carrying the inner name, if any.
    pub fn get_port_data_type_by_name(&self, name: &str) -> (r: Option<&String>)
        ensures
            match r {
                Some(dt) => spec_port_data_type(self.bindings.interfaces@, name@) == Some(dt@),
                None => spec_port_data_type(self.bindings.interfaces@, name@) is None,
            },
    {
        let ghost ifs = self.bindings.interfaces@;
        let n: usize = self.bindings.interfaces.len();
        proof {
            assert(ifs.skip(0) =~= ifs);
        }
        let mut i: usize = 0;
        while i < n
            invariant
                n == ifs.len(),
                ifs == self.bindings.interfaces@,
                i <= n,
                spec_port_data_type(ifs, name@) == spec_port_data_type(ifs.skip(i as int), name@),
            decreases n - i,
        {
            let ports = self.bindings.interfaces[i].get_ports();
            let pn: usize = ports.len();
            let ghost ps = ifs[i as int].ports@;
            proof {
                assert(ps.skip(0) =~= ps);
            }
            let mut j: usize = 0;
            while j < pn
                invariant
                    n == ifs.len(),
                    ifs == self.bindings.interfaces@,
                    i < n,
                    pn == ps.len(),
                    ps == ifs[i as int].ports@,
                    ports@ == ps,
                    spec_port_data_type(ifs, name@) == spec_port_data_type(
                        ifs.skip(i as int),
                        name@,
                    ),
                    j <= pn,
                    spec_port_data_type_in(ps, name@) == spec_port_data_type_in(
                        ps.skip(j as int),
                        name@,
                    ),
                decreases pn - j,
            {
                proof {
                    assert(ps.skip(j as int)[0] == ps[j as int]);
                    assert(ps.skip(j as int).drop_first() =~= ps.skip(j + 1 as int));
                }
                if crate::text_util::str_eq(ports[j].get_inner().as_str(), name) {
                    proof {
                        assert(spec_port_data_type_in(ps.skip(j as int), name@) == Some(
                            ps[j as int].data_type@,
                        ));
                        assert(ifs.skip(i as int)[0] == ifs[i as int]);
                        assert(spec_port_data_type(ifs.skip(i as int), name@) == Some(
                            ps[j as int].data_type@,
                        ));
                    }
                    return Some(self.bindings.interfaces[i].ports[j].get_data_type());
                }
                j = j + 1;
            }
            proof {
                assert(ps.skip(pn as int).len() == 0);
                assert(spec_port_data_type_in(ps, name@) is None);
                assert(ifs.skip(i as int)[0] == ifs[i as int]);
                assert(ifs.skip(i as int).drop_first() =~= ifs.skip(i + 1 as int));
            }
            i = i + 1;
        }
        proof {
            assert(ifs.skip(n as int).len() == 0);
        }
        None
    }

    /// Text of the whole instantiation statement.
    pub open spec fn spec_source_code(self, indent: nat) -> Seq<char> {
        let map_level = spec_next_level(indent);
        let binding_level = spec_next_level(map_level);
        let gparts = spec_all_rendered_generics(self.bindings.interfaces@).map_values(
            |g: GenericBinding| g.spec_source_code(0),
        );
        let pparts = spec_all_port_bindings(self.bindings.interfaces@).map_values(
            |p: PortBinding| p.spec_source_code(0),
        );
        spec_indent(indent) + self.name@ + " : entity "@ + self.library@ + "."@ + self.entity@
            + "\n"@ + (
        if gparts.len() == 0 {
            Seq::<char>::empty()
        } else {
            spec_indent(map_level) + "generic map (\n"@ + spec_indent(binding_level) + spec_join(
                gparts,
                ",\n"@ + spec_indent(binding_level),
            ) + "\n"@ + spec_indent(map_level) + ")"@
        }) + (
        if pparts.len() == 0 {
            Seq::<char>::empty()
        } else {
            (if gparts.len() == 0 {
                Seq::<char>::empty()
            } else {
                "\n"@
            }) + spec_indent(map_level) + "port map (\n"@ + spec_indent(binding_level) + spec_join(
                pparts,
                ",\n"@ + spec_indent(binding_level),
            ) + "\n"@ + spec_indent(map_level) + ")"@
        }) + ";\n"@
    }

    #[verifier::rlimit(60)]
    pub fn to_source_code(&self, indent: usize) -> (r: String)
        ensures
            r@ == self.spec_source_code(indent as nat),
    {
        let mut source = crate::util::indent(indent);
        source.append(self.name.as_str());
        source.append(" : entity ");
        source.append(self.library.as_str());
        source.append(".");
        source.append(self.entity.as_str());
        source.append("\n");
        let map_level = crate::util::next_level(indent);
        let binding_level = crate::util::next_level(map_level);
        let map_str = crate::util::indent(map_level);
        let binding_str = crate::util::indent(binding_level);
        let mut delimiter = String::from_str(",\n");
        delimiter.append(binding_str.as_str());

        let generic_parts = self.collect_generic_binding_parts();
        let port_parts = self.collect_port_binding_parts();
        let has_generics = generic_parts.len() > 0;
        if has_generics {
            source.append(map_str.as_str());
            source.append("generic map (\n");
            source.append(binding_str.as_str());
            let list = crate::element::to_source_code_list(&generic_parts, delimiter.as_str());
            source.append(list.as_str());
            source.append("\n");
            source.append(map_str.as_str());
            source.append(")");
        }
        if port_parts.len() > 0 {
            if has_generics {
                source.append("\n");
            }
            source.append(map_str.as_str());
            source.append("port map (\n");
            source.append(binding_str.as_str());
            let list = crate::element::to_source_code_list(&port_parts, delimiter.as_str());
            source.append(list.as_str());
            source.append("\n");
            source.append(map_str.as_str());
            source.append(")");
        }
        source.append(";\n");
        source
    }

    /// The bound and binding-owing generic bindings across all
    /// interfaces, as copies.
    fn collect_rendered_generics(&self) -> (r: Vec<GenericBinding>)
        ensures
            r@ == spec_all_rendered_generics(self.bindings.interfaces@),
    {
        let mut generics: Vec<GenericBinding> = Vec::new();
        let n: usize = self.bindings.interfaces.len();
        let mut i: usize = 0;
        while i < n
            invariant
                n == self.bindings.interfaces@.len(),
                i <= n,
                generics@ == spec_all_rendered_generics(self.bindings.interfaces@.take(i as int)),
            decreases n - i,
        {
            let gn: usize = self.bindings.interfaces[i].generics.len();
            let ghost head = generics@;
            let ghost gs = self.bindings.interfaces@[i as int].generics@;
            let mut j: usize = 0;
            while j < gn
                invariant
                    n == self.bindings.interfaces@.len(),
                    i < n,
                    gn == self.bindings.interfaces@[i as int].generics@.len(),
                    gs == self.bindings.interfaces@[i as int].generics@,
                    j <= gn,
                    generics@ == head + spec_rendered_generics(gs.take(j as int)),
                decreases gn - j,
            {
                proof {
                    assert(gs.take(j + 1 as int).drop_last() =~= gs.take(j as int));
                    assert(gs.take(j + 1 as int).last() == gs[j as int]);
                }
                if self.bindings.interfaces[i].generics[j].is_bound()
                    || self.bindings.interfaces[i].generics[j].requires_binding() {
                    generics.push(self.bindings.interfaces[i].generics[j].clone());
                    proof {
                        assert(generics@ =~= head + spec_rendered_generics(gs.take(j + 1 as int)));
                    }
                }
                j = j + 1;
            }
            proof {
                assert(gs.take(gn as int) =~= gs);
                assert(self.bindings.interfaces@.take(i + 1 as int).drop_last()
                    =~= self.bindings.interfaces@.take(i as int));
                assert(self.bindings.interfaces@.take(i + 1 as int).last()
                    == self.bindings.interfaces@[i as int]);
            }
            i = i + 1;
        }
        proof {
            assert(self.bindings.interfaces@.take(n as int) =~= self.bindings.interfaces@);
        }
        generics
    }

    /// Every port binding across all interfaces, as copies.
    fn collect_port_bindings(&self) -> (r: Vec<PortBinding>)
        ensures
            r@ == spec_all_port_bindings(self.bindings.interfaces@),
    {
        let mut ports: Vec<PortBinding> = Vec::new();
        let n: usize = self.bindings.interfaces.len();
        let mut i: usize = 0;
        while i < n
            invariant
                n == self.bindings.interfaces@.len(),
                i <= n,
                ports@ == spec_all_port_bindings(self.bindings.interfaces@.take(i as int)),
            decreases n - i,
        {
            let pn: usize = self.bindings.interfaces[i].ports.len();
            let ghost head = ports@;
            let ghost ps = self.bindings.interfaces@[i as int].ports@;
            let mut j: usize = 0;
            while j < pn
                invariant
                    n == self.bindings.interfaces@.len(),
                    i < n,
                    pn == self.bindings.interfaces@[i as int].ports@.len(),
                    ps == self.bindings.interfaces@[i as int].ports@,
                    j <= pn,
                    ports@ == head + ps.take(j as int),
                decreases pn - j,
            {
                ports.push(self.bindings.interfaces[i].ports[j].clone());
                proof {
                    assert(ps.take(j + 1 as int) =~= ps.take(j as int).push(ps[j as int]));
                    assert(ports@ =~= head + ps.take(j + 1 as int));
                }
                j = j + 1;
            }
            proof {
                assert(ps.take(pn as int) =~= ps);
                assert(self.bindings.interfaces@.take(i + 1 as int).drop_last()
                    =~= self.bindings.interfaces@.take(i as int));
                assert(self.bindings.interfaces@.take(i + 1 as int).last()
                    == self.bindings.interfaces@[i as int]);
            }
            i = i + 1;
        }
        proof {
            assert(self.bindings.interfaces@.take(n as int) =~= self.bindings.interfaces@);
        }
        ports
    }

    /// The bound and binding-owing generic bindings, each rendered on
    /// its own.
    fn collect_generic_binding_parts(&self) -> (r: Vec<String>)
        ensures
            views_of(r@) == spec_all_rendered_generics(self.bindings.interfaces@).map_values(
                |g: GenericBinding| g.spec_source_code(0),
            ),
    {
        let generics = self.collect_rendered_generics();
        let mut parts: Vec<String> = Vec::new();
        let n: usize = generics.len();
        let mut i: usize = 0;
        while i < n
            invariant
                n == generics@.len(),
                generics@ == spec_all_rendered_generics(self.bindings.interfaces@),
                i <= n,
                parts@.len() == i as int,
                forall|k: int|
                    0 <= k < i ==> (#[trigger] parts@[k])@ == generics@[k].spec_source_code(0),
            decreases n - i,
        {
            parts.push(generics[i].to_source_code(0));
            i = i + 1;
        }
        proof {
            assert(views_of(parts@) =~~= spec_all_rendered_generics(
                self.bindings.interfaces@,
            ).map_values(|g: GenericBinding| g.spec_source_code(0)));
        }
        parts
    }

    /// Every port binding, each rendered on its own.
    fn collect_port_binding_parts(&self) -> (r: Vec<String>)
        ensures
            views_of(r@) == spec_all_port_bindings(self.bindings.interfaces@).map_values(
                |p: PortBinding| p.spec_source_code(0),
            ),
    {
        let ports = self.collect_port_bindings();
        let mut parts: Vec<String> = Vec::new();
        let n: usize = ports.len();
        let mut i: usize = 0;
        while i < n
            invariant
                n == ports@.len(),
                ports@ == spec_all_port_bindings(self.bindings.interfaces@),
                i <= n,
                parts@.len() == i as int,
                forall|k: int|
                    0 <= k < i ==> (#[trigger] parts@[k])@ == ports@[k].spec_source_code(0),
            decreases n - i,
        {
            parts.push(ports[i].to_source_code(0));
            i = i + 1;
        }
        proof {
            assert(views_of(parts@) =~~= spec_all_port_bindings(
                self.bindings.interfaces@,
            ).map_values(|p: PortBinding| p.spec_source_code(0)));
        }
        parts
    }
}

/// Every still unbound binding is one of the list's bindings.
proof fn lemma_unbound_subset(gs: Seq<GenericBinding>)
    ensures
        forall|t: int|
            0 <= t < spec_unbound_generics(gs).len() ==> gs.contains(
                #[trigger] spec_unbound_generics(gs)[t],
            ),
    decreases gs.len(),
{
    if gs.len() > 0 {
        lemma_unbound_subset(gs.drop_last());
        assert forall|t: int| 0 <= t < spec_unbound_generics(gs).len() implies gs.contains(
            #[trigger] spec_unbound_generics(gs)[t],
        ) by {
            let e = spec_unbound_generics(gs)[t];
            if !gs.last().spec_is_bound() && t == spec_unbound_generics(gs).len() - 1 {
                assert(gs[gs.len() - 1] == e);
            } else {
                assert(spec_unbound_generics(gs.drop_last())[t] == e);
                assert(gs.drop_last().contains(e));
                let w = choose|w: int|
                    0 <= w < gs.drop_last().len() && gs.drop_last()[w] == e;
                assert(gs[w] == e);
            }
        }
    }
}

/// Every pending unbound binding's inner name is declared by one of the
/// interfaces.
pub proof fn lemma_all_unbound_membership(ifs: Seq<EntityInterfaceBinding>)
    ensures
        forall|t: int|
            0 <= t < spec_all_unbound_generics(ifs).len() ==> exists|j: int|
                0 <= j < ifs.len()
                    && crate::vhdl::entity_interface_binding_list::spec_iface_has_generic(
                    ifs[j],
                    (#[trigger] spec_all_unbound_generics(ifs)[t]).inner@,
                ),
    decreases ifs.len(),
{
    if ifs.len() > 0 {
        lemma_all_unbound_membership(ifs.drop_last());
        lemma_unbound_subset(ifs.last().generics@);
        assert forall|t: int| 0 <= t < spec_all_unbound_generics(ifs).len() implies exists|j: int|
            0 <= j < ifs.len()
                && crate::vhdl::entity_interface_binding_list::spec_iface_has_generic(
                ifs[j],
                (#[trigger] spec_all_unbound_generics(ifs)[t]).inner@,
            ) by {
            let e = spec_all_unbound_generics(ifs)[t];
            let head = spec_all_unbound_generics(ifs.drop_last());
            if t < head.len() {
                assert(head[t] == e);
                let j = choose|j: int|
                    0 <= j < ifs.drop_last().len()
                        && crate::vhdl::entity_interface_binding_list::spec_iface_has_generic(
                        ifs.drop_last()[j],
                        head[t].inner@,
                    );
                assert(ifs[j] == ifs.drop_last()[j]);
                assert(crate::vhdl::entity_interface_binding_list::spec_iface_has_generic(
                    ifs[j],
                    e.inner@,
                ));
            } else {
                let tail = spec_unbound_generics(ifs.last().generics@);
                assert(tail[t - head.len()] == e);
                assert(ifs.last().generics@.contains(e));
                let w = choose|w: int|
                    0 <= w < ifs.last().generics@.len() && ifs.last().generics@[w] == e;
                assert((ifs[ifs.len() - 1]).generics@[w].inner@ == e.inner@);
                assert(crate::vhdl::entity_interface_binding_list::spec_iface_has_generic(
                    ifs[ifs.len() - 1],
                    e.inner@,
                ));
            }
        }
    }
}

/// A port's data type is found exactly when some binding carries the
/// inner name.
proof fn lemma_port_data_type_in_some(ports: Seq<PortBinding>, name: Seq<char>)
    ensures
        spec_port_data_type_in(ports, name) is Some <==> (exists|k: int|
            0 <= k < ports.len() && (#[trigger] ports[k]).inner@ == name),
    decreases ports.len(),
{
    if ports.len() > 0 {
        lemma_port_data_type_in_some(ports.drop_first(), name);
        if ports[0].inner@ != name {
            if exists|k: int| 0 <= k < ports.len() && (#[trigger] ports[k]).inner@ == name {
                let k = choose|k: int|
                    0 <= k < ports.len() && (#[trigger] ports[k]).inner@ == name;
                assert(ports.drop_first()[k - 1].inner@ == name);
            }
            if exists|k: int|
                0 <= k < ports.drop_first().len() && (#[trigger] ports.drop_first()[k]).inner@
                    == name {
                let k = choose|k: int|
                    0 <= k < ports.drop_first().len() && (
                    #[trigger] ports.drop_first()[k]).inner@ == name;
                assert(ports[k + 1].inner@ == name);
            }
        }
    }
}

/// A port data type is found across the interfaces exactly when one of
/// them declares the port.
pub proof fn lemma_port_data_type_some(ifs: Seq<EntityInterfaceBinding>, name: Seq<char>)
    ensures
        spec_port_data_type(ifs, name) is Some <==> (exists|j: int|
            0 <= j < ifs.len()
                && crate::vhdl::entity_interface_binding_list::spec_iface_has_port(
                #[trigger] ifs[j],
                name,
            )),
    decreases ifs.len(),
{
    if ifs.len() > 0 {
        lemma_port_data_type_some(ifs.drop_first(), name);
        lemma_port_data_type_in_some(ifs[0].ports@, name);
        if spec_port_data_type(ifs, name) is Some {
            if spec_port_data_type_in(ifs[0].ports@, name) is Some {
                assert(crate::vhdl::entity_interface_binding_list::spec_iface_has_port(
                    ifs[0],
                    name,
                ));
            } else {
                let j = choose|j: int|
                    0 <= j < ifs.drop_first().len()
                        && crate::vhdl::entity_interface_binding_list::spec_iface_has_port(
                        #[trigger] ifs.drop_first()[j],
                        name,
                    );
                assert(ifs[j + 1] == ifs.drop_first()[j]);
            }
        }
        if exists|j: int|
            0 <= j < ifs.len() && crate::vhdl::entity_interface_binding_list::spec_iface_has_port(
                #[trigger] ifs[j],
                name,
            ) {
            let j = choose|j: int|
                0 <= j < ifs.len()
                    && crate::vhdl::entity_interface_binding_list::spec_iface_has_port(
                    #[trigger] ifs[j],
                    name,
                );
            if j == 0 {
            } else {
                assert(ifs.drop_first()[j - 1] == ifs[j]);
            }
        }
    }
}

/// The still unbound generic bindings of all interfaces, in order.
pub open spec fn spec_all_unbound_generics(ifs: Seq<EntityInterfaceBinding>) -> Seq<GenericBinding>
    decreases ifs.len(),
{
    if ifs.len() == 0 {
        Seq::empty()
    } else {
        spec_all_unbound_generics(ifs.drop_last()) + spec_unbound_generics(ifs.last().generics@)
    }
}

} // verus!
