use vstd::prelude::*;
use vstd::string::StringExecFns;
use crate::vhdl::entity::Entity;
use crate::vhdl::entity_interface::EntityInterface;
use crate::vhdl::entity_interface_binding::EntityInterfaceBinding;
use crate::vhdl::entity_interface_binding::spec_generic_binding_from;
use crate::vhdl::entity_interface_binding::spec_port_binding_from;
use crate::vhdl::generic_binding::GenericBinding;
use crate::vhdl::port_binding::PortBinding;
use crate::vhdl::vhdl_error::VhdlError;

verus! {

/// Whether an interface binding is the fresh binding list of the given
/// interface.
pub open spec fn spec_iface_binding_from(b: EntityInterfaceBinding, i: EntityInterface) -> bool {
    &&& b.name@ == i.name@
    &&& b.class@ == i.class@
    &&& b.generics@.len() == i.generics@.len()
    &&& forall|k: int|
        0 <= k < i.generics@.len() ==> spec_generic_binding_from(
            #[trigger] b.generics@[k],
            i.generics@[k],
        )
    &&& b.ports@.len() == i.ports@.len()
    &&& forall|k: int|
        0 <= k < i.ports@.len() ==> spec_port_binding_from(#[trigger] b.ports@[k], i.ports@[k])
}

/// Whether one of the generic bindings carries the inner name.
pub open spec fn spec_iface_has_generic(b: EntityInterfaceBinding, name: Seq<char>) -> bool {
    exists|k: int| 0 <= k < b.generics@.len() && (#[trigger] b.generics@[k]).inner@ == name
}

/// Whether one of the port bindings carries the inner name.
pub open spec fn spec_iface_has_port(b: EntityInterfaceBinding, name: Seq<char>) -> bool {
    exists|k: int| 0 <= k < b.ports@.len() && (#[trigger] b.ports@[k]).inner@ == name
}

/// Whether `s1` is `s0` with, in the first interface declaring it, the
/// first generic binding named `inner` bound to `outer`.
pub open spec fn spec_generic_connected(
    s0: Seq<EntityInterfaceBinding>,
    s1: Seq<EntityInterfaceBinding>,
    inner: Seq<char>,
    outer: Seq<char>,
) -> bool {
    exists|j: int|
        {
            &&& 0 <= j < s0.len() == s1.len()
            &&& forall|jj: int| 0 <= jj < j ==> !spec_iface_has_generic(#[trigger] s0[jj], inner)
            &&& spec_iface_has_generic(#[trigger] s0[j], inner)
            &&& forall|jj: int| 0 <= jj < s0.len() && jj != j ==> s1[jj] == s0[jj]
            &&& s1[j].name == s0[j].name
            &&& s1[j].class == s0[j].class
            &&& s1[j].ports@ == s0[j].ports@
            &&& s1[j].generics@.len() == s0[j].generics@.len()
            &&& exists|k: int|
                {
                    &&& 0 <= k < s0[j].generics@.len()
                    &&& (#[trigger] s0[j].generics@[k]).inner@ == inner
                    &&& forall|kk: int|
                        0 <= kk < k ==> (#[trigger] s0[j].generics@[kk]).inner@ != inner
                    &&& s1[j].generics@ == s0[j].generics@.update(
                        k,
                        GenericBinding { outer: s1[j].generics@[k].outer, ..s0[j].generics@[k] },
                    )
                    &&& s1[j].generics@[k].outer@ == outer
                }
        }
}

/// Whether `s1` is `s0` with, in the first interface declaring it, the
/// first port binding named `inner` bound to `outer`.
pub open spec fn spec_port_connected(
    s0: Seq<EntityInterfaceBinding>,
    s1: Seq<EntityInterfaceBinding>,
    inner: Seq<char>,
    outer: Seq<char>,
) -> bool {
    exists|j: int|
        {
            &&& 0 <= j < s0.len() == s1.len()
            &&& forall|jj: int| 0 <= jj < j ==> !spec_iface_has_port(#[trigger] s0[jj], inner)
            &&& spec_iface_has_port(#[trigger] s0[j], inner)
            &&& forall|jj: int| 0 <= jj < s0.len() && jj != j ==> s1[jj] == s0[jj]
            &&& s1[j].name == s0[j].name
            &&& s1[j].class == s0[j].class
            &&& s1[j].generics@ == s0[j].generics@
            &&& s1[j].ports@.len() == s0[j].ports@.len()
            &&& exists|k: int|
                {
                    &&& 0 <= k < s0[j].ports@.len()
                    &&& (#[trigger] s0[j].ports@[k]).inner@ == inner
                    &&& forall|kk: int|
                        0 <= kk < k ==> (#[trigger] s0[j].ports@[kk]).inner@ != inner
                    &&& s1[j].ports@ == s0[j].ports@.update(
                        k,
                        PortBinding { outer: s1[j].ports@[k].outer, ..s0[j].ports@[k] },
                    )
                    &&& s1[j].ports@[k].outer@ == outer
                }
        }
}

/// The binding state of a whole instance: one interface binding per
/// interface of the instantiated entity, in entity order.
#[derive(Debug)]
pub struct EntityInterfaceBindingList {
    pub interfaces: Vec<EntityInterfaceBinding>,
}

impl Clone for EntityInterfaceBindingList {
    fn clone(&self) -> (r: Self)
        ensures
            r.interfaces@.len() == self.interfaces@.len(),
            forall|k: int|
                0 <= k < self.interfaces@.len() ==> (#[trigger] r.interfaces@[k]).name
                    == self.interfaces@[k].name && r.interfaces@[k].class
                    == self.interfaces@[k].class && r.interfaces@[k].generics@
                    == self.interfaces@[k].generics@ && r.interfaces@[k].ports@
                    == self.interfaces@[k].ports@,
    {
        let mut interfaces: Vec<EntityInterfaceBinding> = Vec::new();
        let n: usize = self.interfaces.len();
        let mut i: usize = 0;
        while i < n
            invariant
                n == self.interfaces@.len(),
                i <= n,
                interfaces@.len() == i as int,
                forall|k: int|
                    0 <= k < i ==> (#[trigger] interfaces@[k]).name == self.interfaces@[k].name
                        && interfaces@[k].class == self.interfaces@[k].class
                        && interfaces@[k].generics@ == self.interfaces@[k].generics@
                        && interfaces@[k].ports@ == self.interfaces@[k].ports@,
            decreases n - i,
        {
            interfaces.push(self.interfaces[i].clone());
            i = i + 1;
        }
        EntityInterfaceBindingList { interfaces }
    }
}

impl EntityInterfaceBindingList {
    /// One fresh interface binding per interface of the entity, in
    /// entity order.
    pub fn from_entity(entity: &Entity) -> (r: EntityInterfaceBindingList)
        ensures
            r.interfaces@.len() == entity.interfaces@.len(),
            forall|k: int|
                0 <= k < entity.interfaces@.len() ==> spec_iface_binding_from(
                    #[trigger] r.interfaces@[k],
                    entity.interfaces@[k],
                ),
    {
        let mut interfaces: Vec<EntityInterfaceBinding> = Vec::new();
        let source = entity.get_interfaces();
        let n: usize = source.len();
        let mut i: usize = 0;
        while i < n
            invariant
                n == entity.interfaces@.len(),
                source@ == entity.interfaces@,
                i <= n,
                interfaces@.len() == i as int,
                forall|k: int|
                    0 <= k < i ==> spec_iface_binding_from(
                        #[trigger] interfaces@[k],
                        entity.interfaces@[k],
                    ),
            decreases n - i,
        {
            interfaces.push(EntityInterfaceBinding::from_entity_interface(&source[i]));
            i = i + 1;
        }
        EntityInterfaceBindingList { interfaces }
    }

    pub fn get_interfaces(&self) -> (r: &Vec<EntityInterfaceBinding>)
        ensures
            r@ == self.interfaces@,
    {
        &self.interfaces
    }

    pub fn get_interfaces_mut(&mut self) -> (r: &mut Vec<EntityInterfaceBinding>)
        ensures
            *r == old(self).interfaces,
            final(self).interfaces == *final(r),
    {
        &mut self.interfaces
    }

    /// Binds the named generic in the first interface that declares it;
    /// a name declared nowhere is reported as an error and changes
    /// nothing.
    pub fn connect_generic_by_name(&mut self, inner: &str, outer: &str) -> (r: Result<
        (),
        VhdlError,
    >)
        ensures
            final(self).interfaces@.len() == old(self).interfaces@.len(),
            match r {
                Ok(_) => spec_generic_connected(
                    old(self).interfaces@,
                    final(self).interfaces@,
                    inner@,
                    outer@,
                ),
                Err(e) => {
                    &&& forall|jj: int|
                        0 <= jj < old(self).interfaces@.len() ==> !spec_iface_has_generic(
                            #[trigger] old(self).interfaces@[jj],
                            inner@,
                        )
                    &&& final(self).interfaces@ == old(self).interfaces@
                    &&& e.message@ == "error: Port \""@ + inner@ + "\" not found!"@
                },
            },
    {
        let n: usize = self.interfaces.len();
        let mut j: usize = 0;
        while j < n
            invariant
                n == self.interfaces@.len(),
                j <= n,
                *self == *old(self),
                forall|jj: int|
                    0 <= jj < j ==> !spec_iface_has_generic(
                        #[trigger] self.interfaces@[jj],
                        inner@,
                    ),
            decreases n - j,
        {
            if self.interfaces[j].contains_generic(inner) {
                let found = self.interfaces[j].connect_generic_by_name(inner, outer);
                proof {
                    assert(found);
                    assert(spec_iface_has_generic(old(self).interfaces@[j as int], inner@));
                    assert(forall|jj: int|
                        0 <= jj < self.interfaces@.len() && jj != j ==> #[trigger] self.interfaces@[jj]
                            == old(self).interfaces@[jj]);
                }
                return Ok(());
            }
            j = j + 1;
        }
        let mut message = String::from_str("error: Port \"");
        message.append(inner);
        message.append("\" not found!");
        Err(VhdlError::new(message.as_str()))
    }

    /// Binds the named port in the first interface that declares it; a
    /// name declared nowhere is reported as an error and changes
    /// nothing.
    pub fn connect_port_by_name(&mut self, inner: &str, outer: &str) -> (r: Result<(), VhdlError>)
        ensures
            final(self).interfaces@.len() == old(self).interfaces@.len(),
            match r {
                Ok(_) => spec_port_connected(
                    old(self).interfaces@,
                    final(self).interfaces@,
                    inner@,
                    outer@,
                ),
                Err(e) => {
                    &&& forall|jj: int|
                        0 <= jj < old(self).interfaces@.len() ==> !spec_iface_has_port(
                            #[trigger] old(self).interfaces@[jj],
                            inner@,
                        )
                    &&& final(self).interfaces@ == old(self).interfaces@
                    &&& e.message@ == "error: Port \""@ + inner@ + "\" not found!"@
                },
            },
    {
        let n: usize = self.interfaces.len();
        let mut j: usize = 0;
        while j < n
            invariant
                n == self.interfaces@.len(),
                j <= n,
                *self == *old(self),
                forall|jj: int|
                    0 <= jj < j ==> !spec_iface_has_port(#[trigger] self.interfaces@[jj], inner@),
            decreases n - j,
        {
            if self.interfaces[j].contains_port(inner) {
                let found = self.interfaces[j].connect_port_by_name(inner, outer);
                proof {
                    assert(found);
                    assert(spec_iface_has_port(old(self).interfaces@[j as int], inner@));
                    assert(forall|jj: int|
                        0 <= jj < self.interfaces@.len() && jj != j ==> #[trigger] self.interfaces@[jj]
                            == old(self).interfaces@[jj]);
                }
                return Ok(());
            }
            j = j + 1;
        }
        let mut message = String::from_str("error: Port \"");
        message.append(inner);
        message.append("\" not found!");
        Err(VhdlError::new(message.as_str()))
    }
}

} // verus!
