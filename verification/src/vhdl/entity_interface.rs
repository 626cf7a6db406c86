use vstd::prelude::*;
use vstd::string::StringExecFns;
use crate::vhdl::generic::Generic;
use crate::vhdl::port::Port;
use crate::element::views_of;
use crate::text_util::spec_dedup;

verus! {

/// A named, classed group of generics and ports modelling one side of a
/// reusable connection contract.
#[derive(Debug)]
pub struct EntityInterface {
    pub name: String,
    pub class: String,
    pub inverted: bool,
    pub generics: Vec<Generic>,
    pub ports: Vec<Port>,
}

impl Clone for EntityInterface {
    fn clone(&self) -> (r: Self)
        ensures
            r.name == self.name,
            r.class == self.class,
            r.inverted == self.inverted,
            r.generics@ == self.generics@,
            r.ports@ == self.ports@,
    {
        let mut generics: Vec<Generic> = Vec::new();
        let gn: usize = self.generics.len();
        let mut i: usize = 0;
        while i < gn
            invariant
                gn == self.generics@.len(),
                i <= gn,
                generics@ =~= self.generics@.take(i as int),
            decreases gn - i,
        {
            generics.push(self.generics[i].clone());
            i = i + 1;
        }
        let mut ports: Vec<Port> = Vec::new();
        let pn: usize = self.ports.len();
        let mut j: usize = 0;
        while j < pn
            invariant
                pn == self.ports@.len(),
                j <= pn,
                ports@ =~= self.ports@.take(j as int),
            decreases pn - j,
        {
            ports.push(self.ports[j].clone());
            j = j + 1;
        }
        proof {
            assert(generics@ =~= self.generics@);
            assert(ports@ =~= self.ports@);
        }
        EntityInterface {
            name: self.name.clone(),
            class: self.class.clone(),
            inverted: self.inverted,
            generics,
            ports,
        }
    }
}

impl EntityInterface {
    /// Whether two interfaces agree in every field.
    pub open spec fn spec_equal(self, other: EntityInterface) -> bool {
        self.name == other.name && self.class == other.class && self.inverted == other.inverted
            && self.generics@ == other.generics@ && self.ports@ == other.ports@
    }

    /// The data types of all generics and ports, in declaration order.
    pub open spec fn spec_all_data_types(self) -> Seq<Seq<char>> {
        self.generics@.map_values(|g: Generic| g.data_type@) + self.ports@.map_values(
            |p: Port| p.data_type@,
        )
    }

    pub fn new(name: &str, class: &str) -> (r: EntityInterface)
        ensures
            r.name@ == name@,
            r.class@ == class@,
            r.inverted == false,
            r.generics@ == Seq::<Generic>::empty(),
            r.ports@ == Seq::<Port>::empty(),
    {
        EntityInterface {
            name: String::from_str(name),
            class: String::from_str(class),
            inverted: false,
            generics: Vec::new(),
            ports: Vec::new(),
        }
    }

    pub fn new_unnamed(class: &str) -> (r: EntityInterface)
        ensures
            r.name@ == Seq::<char>::empty(),
            r.class@ == class@,
            r.inverted == false,
            r.generics@ == Seq::<Generic>::empty(),
            r.ports@ == Seq::<Port>::empty(),
    {
        proof {
            reveal_strlit("");
        }
        EntityInterface::new("", class)
    }

    /// A copy with every port direction mirrored.
    pub fn clone_inverted(&self) -> (r: EntityInterface)
        ensures
            r.name == self.name,
            r.class == self.class,
            r.inverted == !self.inverted,
            r.generics@ == self.generics@,
            r.ports@.len() == self.ports@.len(),
            forall|k: int|
                0 <= k < self.ports@.len() ==> r.ports@[k] == self.ports@[k].spec_inverted(),
    {
        let mut inverted = self.clone();
        inverted.invert();
        inverted
    }

    /// A copy with every port direction mirrored and the identifiers
    /// renamed under the given interface name.
    pub fn clone_inverted_with_rename(&self, name: &str) -> (r: EntityInterface)
        ensures
            r.name@ == name@,
            r.class == self.class,
            r.inverted == !self.inverted,
            r.generics@.len() == self.generics@.len(),
            forall|k: int|
                0 <= k < self.generics@.len() ==> r.generics@[k] == (Generic {
                    interface: r.generics@[k].interface,
                    ..self.generics@[k]
                }) && r.generics@[k].interface@ == name@,
            r.ports@.len() == self.ports@.len(),
            forall|k: int|
                0 <= k < self.ports@.len() ==> r.ports@[k] == (Port {
                    interface: r.ports@[k].interface,
                    ..self.ports@[k].spec_inverted()
                }) && r.ports@[k].interface@ == name@,
    {
        let mut inverted = self.clone();
        inverted.invert();
        inverted.rename(name);
        inverted
    }

    pub fn get_name(&self) -> (r: &String)
        ensures
            r@ == self.name@,
    {
        &self.name
    }

    pub fn get_class(&self) -> (r: &String)
        ensures
            r@ == self.class@,
    {
        &self.class
    }

    pub fn get_generics(&self) -> (r: &Vec<Generic>)
        ensures
            r@ == self.generics@,
    {
        &self.generics
    }

    pub fn get_ports(&self) -> (r: &Vec<Port>)
        ensures
            r@ == self.ports@,
    {
        &self.ports
    }

    /// The distinct data types the interface uses, each at its first
    /// position of appearance, generics before ports.
    pub fn get_data_types(&self) -> (r: Vec<String>)
        ensures
            views_of(r@) == spec_dedup(self.spec_all_data_types()),
    {
        let mut data_types: Vec<String> = Vec::new();
        let ghost all = self.spec_all_data_types();
        let gn: usize = self.generics.len();
        let mut i: usize = 0;
        while i < gn
            invariant
                gn == self.generics@.len(),
                i <= gn,
                all == self.spec_all_data_types(),
                views_of(data_types@) == spec_dedup(all.take(i as int)),
            decreases gn - i,
        {
            proof {
                assert(all.take(i + 1 as int).drop_last() =~~= all.take(i as int));
                assert(all.take(i + 1 as int).last() == self.generics@[i as int].data_type@);
            }
            if !crate::text_util::vec_contains_str(
                &data_types,
                self.generics[i].get_data_type().as_str(),
            ) {
                data_types.push(self.generics[i].get_data_type().clone());
                proof {
                    assert(views_of(data_types@) =~~= spec_dedup(all.take(i + 1 as int)));
                }
            }
            i = i + 1;
        }
        let pn: usize = self.ports.len();
        let mut j: usize = 0;
        while j < pn
            invariant
                gn == self.generics@.len(),
                pn == self.ports@.len(),
                j <= pn,
                all == self.spec_all_data_types(),
                views_of(data_types@) == spec_dedup(all.take(gn + j as int)),
            decreases pn - j,
        {
            proof {
                assert(all.take(gn + j + 1 as int).drop_last() =~~= all.take(gn + j as int));
                assert(all.take(gn + j + 1 as int).last() == self.ports@[j as int].data_type@);
            }
            if !crate::text_util::vec_contains_str(
                &data_types,
                self.ports[j].get_data_type().as_str(),
            ) {
                data_types.push(self.ports[j].get_data_type().clone());
                proof {
                    assert(views_of(data_types@) =~~= spec_dedup(all.take(gn + j + 1 as int)));
                }
            }
            j = j + 1;
        }
        proof {
            assert(all.take(gn + pn as int) =~~= all);
        }
        data_types
    }

    /// Renames the interface and prefixes its generic and port
    /// identifiers with the new name.
    pub fn rename(&mut self, name: &str)
        ensures
            final(self).name@ == name@,
            final(self).class == old(self).class,
            final(self).inverted == old(self).inverted,
            final(self).generics@.len() == old(self).generics@.len(),
            forall|k: int|
                0 <= k < old(self).generics@.len() ==> final(self).generics@[k] == (Generic {
                    interface: final(self).generics@[k].interface,
                    ..old(self).generics@[k]
                }) && final(self).generics@[k].interface@ == name@,
            final(self).ports@.len() == old(self).ports@.len(),
            forall|k: int|
                0 <= k < old(self).ports@.len() ==> final(self).ports@[k] == (Port {
                    interface: final(self).ports@[k].interface,
                    ..old(self).ports@[k]
                }) && final(self).ports@[k].interface@ == name@,
    {
        self.name = String::from_str(name);
        let gn: usize = self.generics.len();
        let mut i: usize = 0;
        while i < gn
            invariant
                gn == self.generics@.len(),
                gn == old(self).generics@.len(),
                i <= gn,
                self.name@ == name@,
                self.class == old(self).class,
                self.inverted == old(self).inverted,
                self.ports@ == old(self).ports@,
                forall|k: int| i <= k < gn ==> self.generics@[k] == old(self).generics@[k],
                forall|k: int|
                    0 <= k < i ==> #[trigger] self.generics@[k] == (Generic {
                        interface: self.generics@[k].interface,
                        ..old(self).generics@[k]
                    }) && self.generics@[k].interface@ == name@,
            decreases gn - i,
        {
            self.generics[i].set_interface(name);
            i = i + 1;
        }
        let pn: usize = self.ports.len();
        let mut j: usize = 0;
        while j < pn
            invariant
                pn == self.ports@.len(),
                pn == old(self).ports@.len(),
                j <= pn,
                self.name@ == name@,
                self.class == old(self).class,
                self.inverted == old(self).inverted,
                self.generics@.len() == old(self).generics@.len(),
                forall|k: int|
                    0 <= k < self.generics@.len() ==> #[trigger] self.generics@[k] == (Generic {
                        interface: self.generics@[k].interface,
                        ..old(self).generics@[k]
                    }) && self.generics@[k].interface@ == name@,
                forall|k: int| j <= k < pn ==> self.ports@[k] == old(self).ports@[k],
                forall|k: int|
                    0 <= k < j ==> #[trigger] self.ports@[k] == (Port {
                        interface: self.ports@[k].interface,
                        ..old(self).ports@[k]
                    }) && self.ports@[k].interface@ == name@,
            decreases pn - j,
        {
            self.ports[j].set_interface(name);
            j = j + 1;
        }
    }

    /// Mirrors the direction of every port and records the inversion.
    pub fn invert(&mut self)
        ensures
            final(self).name == old(self).name,
            final(self).class == old(self).class,
            final(self).inverted == !old(self).inverted,
            final(self).generics@ == old(self).generics@,
            final(self).ports@.len() == old(self).ports@.len(),
            forall|k: int|
                0 <= k < old(self).ports@.len() ==> final(self).ports@[k] == old(
                    self,
                ).ports@[k].spec_inverted(),
    {
        let pn: usize = self.ports.len();
        let mut j: usize = 0;
        while j < pn
            invariant
                pn == self.ports@.len(),
                pn == old(self).ports@.len(),
                j <= pn,
                self.name == old(self).name,
                self.class == old(self).class,
                self.inverted == old(self).inverted,
                self.generics@ == old(self).generics@,
                forall|k: int| j <= k < pn ==> self.ports@[k] == old(self).ports@[k],
                forall|k: int|
                    0 <= k < j ==> #[trigger] self.ports@[k] == old(self).ports@[k].spec_inverted(),
            decreases pn - j,
        {
            self.ports[j].invert();
            j = j + 1;
        }
        self.inverted = !self.inverted;
    }

    pub fn add_generic(&mut self, generic: Generic)
        ensures
            final(self).name == old(self).name,
            final(self).class == old(self).class,
            final(self).inverted == old(self).inverted,
            final(self).ports@ == old(self).ports@,
            final(self).generics@ == old(self).generics@.push(generic),
    {
        self.generics.push(generic);
    }

    pub fn remove_generics(&mut self)
        ensures
            final(self).name == old(self).name,
            final(self).class == old(self).class,
            final(self).inverted == old(self).inverted,
            final(self).ports@ == old(self).ports@,
            final(self).generics@ == Seq::<Generic>::empty(),
    {
        self.generics = Vec::new();
        proof {
            assert(self.generics@ =~= Seq::<Generic>::empty());
        }
    }

    /// Drops the interface prefix from every generic identifier.
    pub fn remove_interface_from_generics(&mut self)
        ensures
            final(self).name == old(self).name,
            final(self).class == old(self).class,
            final(self).inverted == old(self).inverted,
            final(self).ports@ == old(self).ports@,
            final(self).generics@.len() == old(self).generics@.len(),
            forall|k: int|
                0 <= k < old(self).generics@.len() ==> #[trigger] final(self).generics@[k]
                    == (Generic {
                    interface: final(self).generics@[k].interface,
                    ..old(self).generics@[k]
                }) && final(self).generics@[k].interface@ == Seq::<char>::empty(),
    {
        let gn: usize = self.generics.len();
        let mut i: usize = 0;
        while i < gn
            invariant
                gn == self.generics@.len(),
                gn == old(self).generics@.len(),
                i <= gn,
                self.name == old(self).name,
                self.class == old(self).class,
                self.inverted == old(self).inverted,
                self.ports@ == old(self).ports@,
                forall|k: int| i <= k < gn ==> self.generics@[k] == old(self).generics@[k],
                forall|k: int|
                    0 <= k < i ==> #[trigger] self.generics@[k] == (Generic {
                        interface: self.generics@[k].interface,
                        ..old(self).generics@[k]
                    }) && self.generics@[k].interface@ == Seq::<char>::empty(),
            decreases gn - i,
        {
            self.generics[i].remove_interface();
            i = i + 1;
        }
    }

    pub fn add_port(&mut self, port: Port)
        ensures
            final(self).name == old(self).name,
            final(self).class == old(self).class,
            final(self).inverted == old(self).inverted,
            final(self).generics@ == old(self).generics@,
            final(self).ports@ == old(self).ports@.push(port),
    {
        self.ports.push(port);
    }
}

} // verus!
