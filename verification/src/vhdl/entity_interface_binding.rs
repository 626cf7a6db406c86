use vstd::prelude::*;
use vstd::string::StringExecFns;
use crate::text_util::lower_of;
use crate::vhdl::direction::Direction;
use crate::vhdl::entity_interface::EntityInterface;
use crate::vhdl::generic::Generic;
use crate::vhdl::generic_binding::GenericBinding;
use crate::vhdl::match_index::spec_match_score;
use crate::vhdl::match_index::CLASS_MATCH;
use crate::vhdl::match_index::FULL_MATCH;
use crate::vhdl::match_index::NO_MATCH;
use crate::vhdl::match_index::PARTIAL_MATCH;
use crate::vhdl::port::Port;
use crate::vhdl::port_binding::PortBinding;
use crate::vhdl::signal_declaration::SignalDeclaraion;

verus! {

/// Whether a generic binding is the fresh, unbound binding of the given
/// generic.
pub open spec fn spec_generic_binding_from(b: GenericBinding, g: Generic) -> bool {
    b.inner@ == g.spec_name() && b.data_type@ == g.data_type@ && b.outer@.len() == 0
        && b.requires_binding == !g.spec_has_default()
}

/// Whether a port binding is the fresh, unbound binding of the given
/// port.
pub open spec fn spec_port_binding_from(b: PortBinding, p: Port) -> bool {
    b.inner@ == p.spec_name() && b.direction == p.direction && b.data_type@ == p.data_type@
        && b.outer@.len() == 0
}

/// The still unbound generic bindings, in order.
pub open spec fn spec_unbound_generics(gs: Seq<GenericBinding>) -> Seq<GenericBinding>
    decreases gs.len(),
{
    if gs.len() == 0 {
        gs
    } else if gs.last().spec_is_bound() {
        spec_unbound_generics(gs.drop_last())
    } else {
        spec_unbound_generics(gs.drop_last()).push(gs.last())
    }
}

/// The name of the signal synthesized for one inferred port connection:
/// driven from instance `a` towards instance `b` or the other way round,
/// depending on the port's direction on the `a` side.
pub open spec fn spec_connection_signal_name(
    direction: Direction,
    inst_name_a: Seq<char>,
    inst_name_b: Seq<char>,
    port_inner: Seq<char>,
) -> Seq<char> {
    match direction {
        Direction::IN | Direction::INOUT => inst_name_b + "_to_"@ + inst_name_a + "_"@
            + port_inner,
        Direction::OUT | Direction::BUFFER => inst_name_a + "_to_"@ + inst_name_b + "_"@
            + port_inner,
    }
}

/// The binding state of one interface of an instance: generic and port
/// bindings derived one to one from an entity interface.
#[derive(Debug)]
pub struct EntityInterfaceBinding {
    pub name: String,
    pub class: String,
    pub generics: Vec<GenericBinding>,
    pub ports: Vec<PortBinding>,
}

impl Clone for EntityInterfaceBinding {
    fn clone(&self) -> (r: Self)
        ensures
            r.name == self.name,
            r.class == self.class,
            r.generics@ == self.generics@,
            r.ports@ == self.ports@,
    {
        let mut generics: Vec<GenericBinding> = Vec::new();
        let gn: usize = self.generics.len();
        let mut i: usize = 0;
        while i < gn
            invariant
                gn == self.generics@.len(),
                i <= gn,
                generics@ =~= self.generics@.take(i as int),
            decreases gn - i,
        {
            generics.push(self.generics[i].clone());
            i = i + 1;
        }
        let mut ports: Vec<PortBinding> = Vec::new();
        let pn: usize = self.ports.len();
        let mut j: usize = 0;
        while j < pn
            invariant
                pn == self.ports@.len(),
                j <= pn,
                ports@ =~= self.ports@.take(j as int),
            decreases pn - j,
        {
            ports.push(self.ports[j].clone());
            j = j + 1;
        }
        proof {
            assert(generics@ =~= self.generics@);
            assert(ports@ =~= self.ports@);
        }
        EntityInterfaceBinding { name: self.name.clone(), class: self.class.clone(), generics, ports }
    }
}

impl EntityInterfaceBinding {
    /// An interface is bound once any of its bindings is.
    pub open spec fn spec_is_bound(self) -> bool {
        (exists|k: int| 0 <= k < self.generics@.len() && self.generics@[k].spec_is_bound()) || (
        exists|k: int| 0 <= k < self.ports@.len() && self.ports@[k].spec_is_bound())
    }

    /// Whether this binding list has the shape of the given interface,
    /// so that a positional connection cannot go wrong.
    pub open spec fn spec_compatible_with(self, interface: EntityInterface) -> bool {
        self.generics@.len() <= interface.generics@.len() && self.ports@.len()
            <= interface.ports@.len() && forall|k: int|
            0 <= k < self.ports@.len() ==> self.ports@[k].direction
                == interface.ports@[k].direction && self.ports@[k].data_type@
                == interface.ports@[k].data_type@
    }

    /// The strength of this interface against an entity interface: an
    /// already bound interface scores nothing, classes must agree, and
    /// the names are compared case-insensitively.
    pub open spec fn spec_entity_matching(self, entity: EntityInterface) -> u32 {
        if self.spec_is_bound() {
            0
        } else {
            spec_match_score(
                lower_of(self.name@),
                lower_of(entity.name@),
                self.class@ == entity.class@,
            )
        }
    }

    /// The strength of this interface against another instance's
    /// interface.
    pub open spec fn spec_instance_matching(self, other: EntityInterfaceBinding) -> u32 {
        spec_match_score(lower_of(self.name@), lower_of(other.name@), self.class@ == other.class@)
    }

    pub fn from_entity_interface(interface: &EntityInterface) -> (r: EntityInterfaceBinding)
        ensures
            r.name@ == interface.name@,
            r.class@ == interface.class@,
            r.generics@.len() == interface.generics@.len(),
            forall|k: int|
                0 <= k < interface.generics@.len() ==> spec_generic_binding_from(
                    #[trigger] r.generics@[k],
                    interface.generics@[k],
                ),
            r.ports@.len() == interface.ports@.len(),
            forall|k: int|
                0 <= k < interface.ports@.len() ==> spec_port_binding_from(
                    #[trigger] r.ports@[k],
                    interface.ports@[k],
                ),
            !r.spec_is_bound(),
    {
        let mut generics: Vec<GenericBinding> = Vec::new();
        let gn: usize = interface.generics.len();
        let mut i: usize = 0;
        while i < gn
            invariant
                gn == interface.generics@.len(),
                i <= gn,
                generics@.len() == i as int,
                forall|k: int|
                    0 <= k < i ==> spec_generic_binding_from(
                        #[trigger] generics@[k],
                        interface.generics@[k],
                    ),
            decreases gn - i,
        {
            generics.push(GenericBinding::from_generic(&interface.generics[i]));
            i = i + 1;
        }
        let mut ports: Vec<PortBinding> = Vec::new();
        let pn: usize = interface.ports.len();
        let mut j: usize = 0;
        while j < pn
            invariant
                pn == interface.ports@.len(),
                j <= pn,
                ports@.len() == j as int,
                forall|k: int|
                    0 <= k < j ==> spec_port_binding_from(
                        #[trigger] ports@[k],
                        interface.ports@[k],
                    ),
            decreases pn - j,
        {
            ports.push(PortBinding::from_port(&interface.ports[j]));
            j = j + 1;
        }
        EntityInterfaceBinding {
            name: interface.get_name().clone(),
            class: interface.get_class().clone(),
            generics,
            ports,
        }
    }

    pub fn get_name(&self) -> (r: &String)
        ensures
            r@ == self.name@,
    {
        &self.name
    }

    pub fn get_class(&self) -> (r: &String)
        ensures
            r@ == self.class@,
    {
        &self.class
    }

    pub fn get_generics(&self) -> (r: &Vec<GenericBinding>)
        ensures
            r@ == self.generics@,
    {
        &self.generics
    }

    pub fn get_ports(&self) -> (r: &Vec<PortBinding>)
        ensures
            r@ == self.ports@,
    {
        &self.ports
    }

    /// The generic bindings still unbound, as copies.
    pub fn get_unbound_generics(&self) -> (r: Vec<GenericBinding>)
        ensures
            r@ == spec_unbound_generics(self.generics@),
    {
        let mut unbound: Vec<GenericBinding> = Vec::new();
        let n: usize = self.generics.len();
        let mut i: usize = 0;
        while i < n
            invariant
                n == self.generics@.len(),
                i <= n,
                unbound@ == spec_unbound_generics(self.generics@.take(i as int)),
            decreases n - i,
        {
            proof {
                assert(self.generics@.take(i + 1 as int).drop_last() =~= self.generics@.take(
                    i as int,
                ));
                assert(self.generics@.take(i + 1 as int).last() == self.generics@[i as int]);
            }
            if !self.generics[i].is_bound() {
                unbound.push(self.generics[i].clone());
            }
            i = i + 1;
        }
        proof {
            assert(self.generics@.take(n as int) =~= self.generics@);
        }
        unbound
    }

    /// All port bindings; the resolver rebinds a whole interface at
    /// once, so no per-port filtering happens here.
    pub fn get_unbound_ports(&self) -> (r: &Vec<PortBinding>)
        ensures
            r@ == self.ports@,
    {
        &self.ports
    }

    /// Connects every binding to the positionally matching generic or
    /// port of the entity interface.  Calling this with an interface of
    /// another shape would be a construction bug, so such calls are
    /// ruled out.
    pub fn connect_to_entity_interface(&mut self, entity: &EntityInterface)
        requires
            old(self).spec_compatible_with(*entity),
        ensures
            final(self).name == old(self).name,
            final(self).class == old(self).class,
            final(self).generics@.len() == old(self).generics@.len(),
            forall|k: int|
                0 <= k < old(self).generics@.len() ==> #[trigger] final(self).generics@[k]
                    == (GenericBinding {
                    outer: final(self).generics@[k].outer,
                    ..old(self).generics@[k]
                }) && final(self).generics@[k].outer@ == entity.generics@[k].spec_name(),
            final(self).ports@.len() == old(self).ports@.len(),
            forall|k: int|
                0 <= k < old(self).ports@.len() ==> #[trigger] final(self).ports@[k]
                    == (PortBinding {
                    outer: final(self).ports@[k].outer,
                    ..old(self).ports@[k]
                }) && final(self).ports@[k].outer@ == entity.ports@[k].spec_name(),
    {
        let gn: usize = self.generics.len();
        let mut i: usize = 0;
        while i < gn
            invariant
                gn == self.generics@.len(),
                gn == old(self).generics@.len(),
                gn <= entity.generics@.len(),
                i <= gn,
                self.name == old(self).name,
                self.class == old(self).class,
                self.ports@ == old(self).ports@,
                forall|k: int| i <= k < gn ==> self.generics@[k] == old(self).generics@[k],
                forall|k: int|
                    0 <= k < i ==> #[trigger] self.generics@[k] == (GenericBinding {
                        outer: self.generics@[k].outer,
                        ..old(self).generics@[k]
                    }) && self.generics@[k].outer@ == entity.generics@[k].spec_name(),
            decreases gn - i,
        {
            self.generics[i].connect(&entity.generics[i]);
            i = i + 1;
        }
        let pn: usize = self.ports.len();
        let mut j: usize = 0;
        while j < pn
            invariant
                pn == self.ports@.len(),
                pn == old(self).ports@.len(),
                pn <= entity.ports@.len(),
                j <= pn,
                self.name == old(self).name,
                self.class == old(self).class,
                self.generics@.len() == old(self).generics@.len(),
                forall|k: int|
                    0 <= k < self.generics@.len() ==> #[trigger] self.generics@[k]
                        == (GenericBinding {
                        outer: self.generics@[k].outer,
                        ..old(self).generics@[k]
                    }) && self.generics@[k].outer@ == entity.generics@[k].spec_name(),
                forall|k: int|
                    j <= k < pn ==> self.ports@[k] == old(self).ports@[k] && old(
                        self,
                    ).ports@[k].direction == entity.ports@[k].direction && old(
                        self,
                    ).ports@[k].data_type@ == entity.ports@[k].data_type@,
                forall|k: int|
                    0 <= k < j ==> #[trigger] self.ports@[k] == (PortBinding {
                        outer: self.ports@[k].outer,
                        ..old(self).ports@[k]
                    }) && self.ports@[k].outer@ == entity.ports@[k].spec_name(),
            decreases pn - j,
        {
            self.ports[j].connect(&entity.ports[j]);
            j = j + 1;
        }
    }

    /// Whether any generic or port binding of the interface is bound.
    pub fn is_bound(&self) -> (r: bool)
        ensures
            r == self.spec_is_bound(),
    {
        let gn: usize = self.generics.len();
        let mut i: usize = 0;
        while i < gn
            invariant
                gn == self.generics@.len(),
                i <= gn,
                forall|k: int| 0 <= k < i ==> !(#[trigger] self.generics@[k]).spec_is_bound(),
            decreases gn - i,
        {
            if self.generics[i].is_bound() {
                return true;
            }
            i = i + 1;
        }
        let pn: usize = self.ports.len();
        let mut j: usize = 0;
        while j < pn
            invariant
                pn == self.ports@.len(),
                j <= pn,
                forall|k: int| 0 <= k < self.generics@.len() ==> !(#[trigger] self.generics@[k]).spec_is_bound(),
                forall|k: int| 0 <= k < j ==> !(#[trigger] self.ports@[k]).spec_is_bound(),
            decreases pn - j,
        {
            if self.ports[j].is_bound() {
                return true;
            }
            j = j + 1;
        }
        false
    }

    pub fn contains_generic(&self, name: &str) -> (r: bool)
        ensures
            r == (exists|k: int|
                0 <= k < self.generics@.len() && (#[trigger] self.generics@[k]).inner@ == name@),
    {
        let n: usize = self.generics.len();
        let mut i: usize = 0;
        while i < n
            invariant
                n == self.generics@.len(),
                i <= n,
                forall|k: int| 0 <= k < i ==> (#[trigger] self.generics@[k]).inner@ != name@,
            decreases n - i,
        {
            if crate::text_util::str_eq(self.generics[i].get_inner().as_str(), name) {
                return true;
            }
            i = i + 1;
        }
        false
    }

    pub fn contains_port(&self, name: &str) -> (r: bool)
        ensures
            r == (exists|k: int|
                0 <= k < self.ports@.len() && (#[trigger] self.ports@[k]).inner@ == name@),
    {
        let n: usize = self.ports.len();
        let mut i: usize = 0;
        while i < n
            invariant
                n == self.ports@.len(),
                i <= n,
                forall|k: int| 0 <= k < i ==> (#[trigger] self.ports@[k]).inner@ != name@,
            decreases n - i,
        {
            if crate::text_util::str_eq(self.ports[i].get_inner().as_str(), name) {
                return true;
            }
            i = i + 1;
        }
        false
    }

    /// Binds the first generic of the given inner name to the outer
    /// identifier; reports whether one was found.
    pub fn connect_generic_by_name(&mut self, inner: &str, outer: &str) -> (r: bool)
        ensures
            final(self).name == old(self).name,
            final(self).class == old(self).class,
            final(self).ports@ == old(self).ports@,
            final(self).generics@.len() == old(self).generics@.len(),
            r == (exists|k: int|
                0 <= k < old(self).generics@.len() && (#[trigger] old(self).generics@[k]).inner@
                    == inner@),
            if r {
                exists|k: int|
                    {
                        &&& 0 <= k < old(self).generics@.len()
                        &&& (#[trigger] old(self).generics@[k]).inner@ == inner@
                        &&& forall|kk: int|
                            0 <= kk < k ==> (#[trigger] old(self).generics@[kk]).inner@ != inner@
                        &&& final(self).generics@ == old(self).generics@.update(
                            k,
                            GenericBinding {
                                outer: final(self).generics@[k].outer,
                                ..old(self).generics@[k]
                            },
                        )
                        &&& final(self).generics@[k].outer@ == outer@
                    }
            } else {
                final(self).generics@ == old(self).generics@
            },
    {
        let n: usize = self.generics.len();
        let mut i: usize = 0;
        while i < n
            invariant
                n == self.generics@.len(),
                i <= n,
                *self == *old(self),
                forall|k: int| 0 <= k < i ==> (#[trigger] self.generics@[k]).inner@ != inner@,
            decreases n - i,
        {
            if crate::text_util::str_eq(self.generics[i].get_inner().as_str(), inner) {
                self.generics[i].connect_by_name(outer);
                proof {
                    assert(old(self).generics@[i as int].inner@ == inner@);
                    assert(self.generics@ =~= old(self).generics@.update(
                        i as int,
                        GenericBinding {
                            outer: self.generics@[i as int].outer,
                            ..old(self).generics@[i as int]
                        },
                    ));
                }
                return true;
            }
            i = i + 1;
        }
        false
    }

    /// Binds the first port of the given inner name to the outer
    /// identifier; reports whether one was found.
    pub fn connect_port_by_name(&mut self, inner: &str, outer: &str) -> (r: bool)
        ensures
            final(self).name == old(self).name,
            final(self).class == old(self).class,
            final(self).generics@ == old(self).generics@,
            final(self).ports@.len() == old(self).ports@.len(),
            r == (exists|k: int|
                0 <= k < old(self).ports@.len() && (#[trigger] old(self).ports@[k]).inner@
                    == inner@),
            if r {
                exists|k: int|
                    {
                        &&& 0 <= k < old(self).ports@.len()
                        &&& (#[trigger] old(self).ports@[k]).inner@ == inner@
                        &&& forall|kk: int|
                            0 <= kk < k ==> (#[trigger] old(self).ports@[kk]).inner@ != inner@
                        &&& final(self).ports@ == old(self).ports@.update(
                            k,
                            PortBinding {
                                outer: final(self).ports@[k].outer,
                                ..old(self).ports@[k]
                            },
                        )
                        &&& final(self).ports@[k].outer@ == outer@
                    }
            } else {
                final(self).ports@ == old(self).ports@
            },
    {
        let n: usize = self.ports.len();
        let mut i: usize = 0;
        while i < n
            invariant
                n == self.ports@.len(),
                i <= n,
                *self == *old(self),
                forall|k: int| 0 <= k < i ==> (#[trigger] self.ports@[k]).inner@ != inner@,
            decreases n - i,
        {
            if crate::text_util::str_eq(self.ports[i].get_inner().as_str(), inner) {
                self.ports[i].connect_by_name(outer);
                proof {
                    assert(old(self).ports@[i as int].inner@ == inner@);
                    assert(self.ports@ =~= old(self).ports@.update(
                        i as int,
                        PortBinding {
                            outer: self.ports@[i as int].outer,
                            ..old(self).ports@[i as int]
                        },
                    ));
                }
                return true;
            }
            i = i + 1;
        }
        false
    }

    pub fn get_entity_matching(&self, entity: &EntityInterface) -> (r: u32)
        ensures
            r == spec_match_score(
                lower_of(self.name@),
                lower_of(entity.name@),
                self.class@ == entity.class@,
            ),
    {
        let instance_name = crate::text_util::to_lowercase(self.name.as_str());
        let entity_name = crate::text_util::to_lowercase(entity.get_name().as_str());
        let class_match = crate::text_util::str_eq(
            self.class.as_str(),
            entity.get_class().as_str(),
        );
        if !class_match {
            return NO_MATCH;
        }
        if crate::text_util::str_eq(instance_name.as_str(), entity_name.as_str()) {
            return FULL_MATCH;
        }
        if crate::text_util::contains(entity_name.as_str(), instance_name.as_str())
            || crate::text_util::contains(instance_name.as_str(), entity_name.as_str()) {
            return PARTIAL_MATCH;
        }
        CLASS_MATCH
    }

    pub fn get_instance_matching(&self, inst_b: &EntityInterfaceBinding) -> (r: u32)
        ensures
            r == self.spec_instance_matching(*inst_b),
    {
        let inst_a_name = crate::text_util::to_lowercase(self.name.as_str());
        let inst_b_name = crate::text_util::to_lowercase(inst_b.get_name().as_str());
        let class_match = crate::text_util::str_eq(
            self.class.as_str(),
            inst_b.get_class().as_str(),
        );
        if !class_match {
            return NO_MATCH;
        }
        if crate::text_util::str_eq(inst_a_name.as_str(), inst_b_name.as_str()) {
            return FULL_MATCH;
        }
        if crate::text_util::contains(inst_b_name.as_str(), inst_a_name.as_str())
            || crate::text_util::contains(inst_a_name.as_str(), inst_b_name.as_str()) {
            return PARTIAL_MATCH;
        }
        CLASS_MATCH
    }

    /// One synthesized signal per port, named from the two instance
    /// names and the port identifier, typed like the port.
    pub fn get_connection_signal_list(&self, inst_name_a: &str, inst_name_b: &str) -> (r: Vec<
        SignalDeclaraion,
    >)
        ensures
            r@.len() == self.ports@.len(),
            forall|k: int|
                0 <= k < self.ports@.len() ==> (#[trigger] r@[k]).name@
                    == spec_connection_signal_name(
                    self.ports@[k].direction,
                    inst_name_a@,
                    inst_name_b@,
                    self.ports@[k].inner@,
                ) && r@[k].data_type@ == self.ports@[k].data_type@ && r@[k].default@
                    == Seq::<char>::empty(),
    {
        let mut signal_list: Vec<SignalDeclaraion> = Vec::new();
        let n: usize = self.ports.len();
        let mut i: usize = 0;
        while i < n
            invariant
                n == self.ports@.len(),
                i <= n,
                signal_list@.len() == i as int,
                forall|k: int|
                    0 <= k < i ==> (#[trigger] signal_list@[k]).name@
                        == spec_connection_signal_name(
                        self.ports@[k].direction,
                        inst_name_a@,
                        inst_name_b@,
                        self.ports@[k].inner@,
                    ) && signal_list@[k].data_type@ == self.ports@[k].data_type@
                        && signal_list@[k].default@ == Seq::<char>::empty(),
            decreases n - i,
        {
            let port = &self.ports[i];
            let mut name = String::new();
            match port.get_direction() {
                Direction::IN | Direction::INOUT => {
                    name.append(inst_name_b);
                    name.append("_to_");
                    name.append(inst_name_a);
                    name.append("_");
                    name.append(port.get_inner().as_str());
                },
                Direction::OUT | Direction::BUFFER => {
                    name.append(inst_name_a);
                    name.append("_to_");
                    name.append(inst_name_b);
                    name.append("_");
                    name.append(port.get_inner().as_str());
                },
            }
            signal_list.push(SignalDeclaraion::new(name.as_str(), port.get_data_type().as_str()));
            i = i + 1;
        }
        signal_list
    }

    /// Binds every port to the positionally matching synthesized signal.
    pub fn connect_to_signal_list(&mut self, signal_list: &Vec<SignalDeclaraion>)
        requires
            old(self).ports@.len() <= signal_list@.len(),
        ensures
            final(self).name == old(self).name,
            final(self).class == old(self).class,
            final(self).generics@ == old(self).generics@,
            final(self).ports@.len() == old(self).ports@.len(),
            forall|k: int|
                0 <= k < old(self).ports@.len() ==> #[trigger] final(self).ports@[k]
                    == (PortBinding {
                    outer: final(self).ports@[k].outer,
                    ..old(self).ports@[k]
                }) && final(self).ports@[k].outer@ == signal_list@[k].name@,
    {
        let n: usize = self.ports.len();
        let mut i: usize = 0;
        while i < n
            invariant
                n == self.ports@.len(),
                n == old(self).ports@.len(),
                n <= signal_list@.len(),
                i <= n,
                self.name == old(self).name,
                self.class == old(self).class,
                self.generics@ == old(self).generics@,
                forall|k: int| i <= k < n ==> self.ports@[k] == old(self).ports@[k],
                forall|k: int|
                    0 <= k < i ==> #[trigger] self.ports@[k] == (PortBinding {
                        outer: self.ports@[k].outer,
                        ..old(self).ports@[k]
                    }) && self.ports@[k].outer@ == signal_list@[k].name@,
            decreases n - i,
        {
            self.ports[i].connect_by_name(signal_list[i].get_name().as_str());
            i = i + 1;
        }
    }
}

} // verus!
