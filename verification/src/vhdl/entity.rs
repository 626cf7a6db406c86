use vstd::prelude::*;
use vstd::string::StringExecFns;
use crate::element::views_of;
use crate::element::spec_keyword_block;
use crate::util::spec_indent;
use crate::util::spec_next_level;
use crate::vhdl::entity_interface::EntityInterface;
use crate::text_util::spec_dedup;
use crate::vhdl::generic::Generic;
use crate::vhdl::known_libraries::spec_known_library_use;
use crate::vhdl::library::Library;
use crate::vhdl::library_list::LibraryList;
use crate::vhdl::library_list::LibraryModel;
use crate::vhdl::library_list::spec_after_library_use;
use crate::vhdl::library_use::LibraryUse;
use crate::vhdl::port::Port;
use crate::vhdl::single_line_comment::SingleLineComment;
use crate::vhdl::vhdl_error::VhdlError;

verus! {

/// Whether one of the interfaces carries the given name and class.
pub open spec fn spec_contains_interface(
    ifs: Seq<EntityInterface>,
    name: Seq<char>,
    class: Seq<char>,
) -> bool {
    exists|i: int| 0 <= i < ifs.len() && ifs[i].name@ == name && ifs[i].class@ == class
}

/// The library entries after the import that one data type asks for is
/// folded in; a type needing no import leaves them alone.
pub open spec fn spec_after_missing_use(ms: Seq<LibraryModel>, data_type: Seq<char>) -> Seq<
    LibraryModel,
> {
    match spec_known_library_use(data_type) {
        Some(u) => spec_after_library_use(ms, (u.0, u.1, "all"@)),
        None => ms,
    }
}

/// The library entries after the imports of a list of data types are
/// folded in, first type first.
pub open spec fn spec_after_missing_uses(ms: Seq<LibraryModel>, dts: Seq<Seq<char>>) -> Seq<
    LibraryModel,
>
    decreases dts.len(),
{
    if dts.len() == 0 {
        ms
    } else {
        spec_after_missing_use(spec_after_missing_uses(ms, dts.drop_last()), dts.last())
    }
}

/// Folding the import of one data type in twice folds it in once.
pub proof fn lemma_missing_use_idempotent(ms: Seq<LibraryModel>, data_type: Seq<char>)
    ensures
        spec_after_missing_use(spec_after_missing_use(ms, data_type), data_type)
            =~~= spec_after_missing_use(ms, data_type),
{
    match spec_known_library_use(data_type) {
        Some(u) => {
            crate::vhdl::library_list::lemma_after_library_use_idempotent(
                ms,
                (u.0, u.1, "all"@),
            );
        },
        None => {},
    }
}

/// All generics of a list of interfaces, in interface order.
pub open spec fn spec_concat_generics(ifs: Seq<EntityInterface>) -> Seq<Generic>
    decreases ifs.len(),
{
    if ifs.len() == 0 {
        Seq::empty()
    } else {
        spec_concat_generics(ifs.drop_last()) + ifs.last().generics@
    }
}

/// All ports of a list of interfaces, in interface order.
pub open spec fn spec_concat_ports(ifs: Seq<EntityInterface>) -> Seq<Port>
    decreases ifs.len(),
{
    if ifs.len() == 0 {
        Seq::empty()
    } else {
        spec_concat_ports(ifs.drop_last()) + ifs.last().ports@
    }
}

/// A named design unit owning an implicit default interface, further
/// named interfaces, and the library imports its data types ask for.
#[derive(Debug)]
pub struct Entity {
    pub name: String,
    pub library: String,
    pub description: SingleLineComment,
    pub libraries: LibraryList,
    pub interfaces: Vec<EntityInterface>,
}

impl Clone for Entity {
    fn clone(&self) -> (r: Self)
        ensures
            r.name == self.name,
            r.library == self.library,
            r.description == self.description,
            r.libraries.spec_models() == self.libraries.spec_models(),
            r.interfaces@.len() == self.interfaces@.len(),
            forall|k: int|
                0 <= k < self.interfaces@.len() ==> #[trigger] r.interfaces@[k].spec_equal(
                    self.interfaces@[k],
                ),
    {
        let mut interfaces: Vec<EntityInterface> = Vec::new();
        let n: usize = self.interfaces.len();
        let mut i: usize = 0;
        while i < n
            invariant
                n == self.interfaces@.len(),
                i <= n,
                interfaces@.len() == i as int,
                forall|k: int|
                    0 <= k < i ==> #[trigger] interfaces@[k].spec_equal(self.interfaces@[k]),
            decreases n - i,
        {
            interfaces.push(self.interfaces[i].clone());
            i = i + 1;
        }
        Entity {
            name: self.name.clone(),
            library: self.library.clone(),
            description: self.description.clone(),
            libraries: self.libraries.clone(),
            interfaces,
        }
    }
}

impl Entity {
    /// An entity is always born with its implicit default interface at
    /// position zero.
    pub open spec fn wf(self) -> bool {
        self.interfaces@.len() > 0
    }

    pub fn new(name: &str) -> (r: Entity)
        ensures
            r.name@ == name@,
            r.library@ == "work"@,
            r.description.comment.text@ == Seq::<char>::empty(),
            r.libraries.spec_models() == Seq::<LibraryModel>::empty(),
            r.interfaces@.len() == 1,
            r.interfaces@[0].name@ == Seq::<char>::empty(),
            r.interfaces@[0].class@ == "__default__"@,
            r.interfaces@[0].inverted == false,
            r.interfaces@[0].generics@ == Seq::<Generic>::empty(),
            r.interfaces@[0].ports@ == Seq::<Port>::empty(),
            r.wf(),
    {
        let mut interfaces: Vec<EntityInterface> = Vec::new();
        interfaces.push(EntityInterface::new_unnamed("__default__"));
        Entity {
            name: String::from_str(name),
            library: String::from_str("work"),
            description: SingleLineComment::new(),
            libraries: LibraryList::new(),
            interfaces,
        }
    }

    /// An entity exposing one given interface beside the default one.
    pub fn with_interface(name: &str, interface: &EntityInterface) -> (r: Entity)
        requires
            !(interface.name@ == Seq::<char>::empty() && interface.class@ == "__default__"@),
        ensures
            r.name@ == name@,
            r.library@ == "work"@,
            r.description.comment.text@ == Seq::<char>::empty(),
            r.interfaces@.len() == 2,
            r.interfaces@[0].name@ == Seq::<char>::empty(),
            r.interfaces@[0].class@ == "__default__"@,
            r.interfaces@[0].generics@ == Seq::<Generic>::empty(),
            r.interfaces@[0].ports@ == Seq::<Port>::empty(),
            r.interfaces@[1].spec_equal(*interface),
            r.libraries.spec_models() == spec_after_missing_uses(
                Seq::empty(),
                spec_dedup(interface.spec_all_data_types()),
            ),
            r.wf(),
    {
        let mut entity = Entity::new(name);
        let r = entity.add_interface(interface);
        proof {
            if r is Err {
                assert(spec_contains_interface(
                    seq![entity.interfaces@[0]],
                    interface.name@,
                    interface.class@,
                ) == false) by {
                    assert(forall|i: int|
                        0 <= i < 1 ==> !(seq![entity.interfaces@[0]][i].name@ == interface.name@
                            && seq![entity.interfaces@[0]][i].class@ == interface.class@));
                }
                assert(false);
            }
        }
        entity
    }

    pub fn add_description(&mut self, text: &str)
        ensures
            final(self).name == old(self).name,
            final(self).library == old(self).library,
            final(self).description.comment.start@ == "--"@,
            final(self).description.comment.text@ == text@,
            final(self).libraries == old(self).libraries,
            final(self).interfaces == old(self).interfaces,
    {
        self.description = SingleLineComment::new_with_text(text);
    }

    pub fn contains_library(&self, library_name: &str) -> (r: bool)
        ensures
            r == crate::vhdl::library_list::spec_model_names(self.libraries.spec_models()).contains(
                library_name@,
            ),
    {
        self.libraries.contains(library_name)
    }

    pub fn add_library(&mut self, library: Library)
        ensures
            final(self).name == old(self).name,
            final(self).library == old(self).library,
            final(self).description == old(self).description,
            final(self).interfaces == old(self).interfaces,
            final(self).libraries.spec_models() == if crate::vhdl::library_list::spec_model_names(
                old(self).libraries.spec_models(),
            ).contains(library.model().0) {
                old(self).libraries.spec_models()
            } else {
                old(self).libraries.spec_models().push(library.model())
            },
    {
        self.libraries.add_library(library);
    }

    pub fn add_library_use(&mut self, library_use: &LibraryUse)
        ensures
            final(self).name == old(self).name,
            final(self).library == old(self).library,
            final(self).description == old(self).description,
            final(self).interfaces == old(self).interfaces,
            final(self).libraries.spec_models() == spec_after_library_use(
                old(self).libraries.spec_models(),
                library_use.model(),
            ),
    {
        self.libraries.add_library_use(library_use.clone());
    }

    /// Folds in the import that the data type asks for, if any.
    pub fn add_missing_library_use(&mut self, data_type: &str)
        ensures
            final(self).name == old(self).name,
            final(self).library == old(self).library,
            final(self).description == old(self).description,
            final(self).interfaces == old(self).interfaces,
            final(self).libraries.spec_models() == spec_after_missing_use(
                old(self).libraries.spec_models(),
                data_type@,
            ),
    {
        let known = crate::vhdl::known_libraries::get_known_library_use(data_type);
        match known {
            Some(l) => {
                self.add_library_use(&l);
            },
            None => {},
        }
    }

    /// Adds a generic to the implicit default interface, folding in the
    /// import its data type asks for.
    pub fn add_generic(&mut self, generic: Generic)
        requires
            old(self).wf(),
        ensures
            final(self).name == old(self).name,
            final(self).library == old(self).library,
            final(self).description == old(self).description,
            final(self).libraries.spec_models() == spec_after_missing_use(
                old(self).libraries.spec_models(),
                generic.data_type@,
            ),
            final(self).interfaces@.len() == old(self).interfaces@.len(),
            forall|k: int|
                1 <= k < old(self).interfaces@.len() ==> final(self).interfaces@[k] == old(
                    self,
                ).interfaces@[k],
            final(self).interfaces@[0].name == old(self).interfaces@[0].name,
            final(self).interfaces@[0].class == old(self).interfaces@[0].class,
            final(self).interfaces@[0].inverted == old(self).interfaces@[0].inverted,
            final(self).interfaces@[0].ports@ == old(self).interfaces@[0].ports@,
            final(self).interfaces@[0].generics@ == old(self).interfaces@[0].generics@.push(
                generic,
            ),
            final(self).wf(),
    {
        self.add_missing_library_use(generic.get_data_type().clone().as_str());
        self.interfaces[0].add_generic(generic);
    }

    /// Adds a port to the implicit default interface, folding in the
    /// import its data type asks for.
    pub fn add_port(&mut self, port: Port)
        requires
            old(self).wf(),
        ensures
            final(self).name == old(self).name,
            final(self).library == old(self).library,
            final(self).description == old(self).description,
            final(self).libraries.spec_models() == spec_after_missing_use(
                old(self).libraries.spec_models(),
                port.data_type@,
            ),
            final(self).interfaces@.len() == old(self).interfaces@.len(),
            forall|k: int|
                1 <= k < old(self).interfaces@.len() ==> final(self).interfaces@[k] == old(
                    self,
                ).interfaces@[k],
            final(self).interfaces@[0].name == old(self).interfaces@[0].name,
            final(self).interfaces@[0].class == old(self).interfaces@[0].class,
            final(self).interfaces@[0].inverted == old(self).interfaces@[0].inverted,
            final(self).interfaces@[0].generics@ == old(self).interfaces@[0].generics@,
            final(self).interfaces@[0].ports@ == old(self).interfaces@[0].ports@.push(port),
            final(self).wf(),
    {
        self.add_missing_library_use(port.get_data_type().clone().as_str());
        self.interfaces[0].add_port(port);
    }

    /// Adds a whole interface.  A second interface of the same name and
    /// class is refused, and the entity is then left unchanged.
    pub fn add_interface(&mut self, interface: &EntityInterface) -> (r: Result<(), VhdlError>)
        ensures
            final(self).name == old(self).name,
            final(self).library == old(self).library,
            final(self).description == old(self).description,
            match r {
                Ok(_) => {
                    &&& !spec_contains_interface(
                        old(self).interfaces@,
                        interface.name@,
                        interface.class@,
                    )
                    &&& final(self).interfaces@.len() == old(self).interfaces@.len() + 1
                    &&& forall|k: int|
                        0 <= k < old(self).interfaces@.len() ==> final(self).interfaces@[k] == old(
                            self,
                        ).interfaces@[k]
                    &&& final(self).interfaces@.last().spec_equal(*interface)
                    &&& final(self).libraries.spec_models() == spec_after_missing_uses(
                        old(self).libraries.spec_models(),
                        spec_dedup(interface.spec_all_data_types()),
                    )
                },
                Err(e) => {
                    &&& spec_contains_interface(
                        old(self).interfaces@,
                        interface.name@,
                        interface.class@,
                    )
                    &&& final(self).interfaces == old(self).interfaces
                    &&& final(self).libraries == old(self).libraries
                    &&& e.message@ == "error: Entity \""@ + old(self).name@
                        + "\" already contains an interface of class \""@ + interface.class@
                        + "\" and name \""@ + interface.name@ + "\""@
                },
            },
    {
        if self.contains_interface(interface) {
            let mut message = String::from_str("error: Entity \"");
            message.append(self.name.as_str());
            message.append("\" already contains an interface of class \"");
            message.append(interface.class.as_str());
            message.append("\" and name \"");
            message.append(interface.name.as_str());
            message.append("\"");
            return Err(VhdlError::new(message.as_str()));
        }
        let data_types = interface.get_data_types();
        let ghost ms0 = self.libraries.spec_models();
        let ghost dts = spec_dedup(interface.spec_all_data_types());
        let n: usize = data_types.len();
        let mut i: usize = 0;
        while i < n
            invariant
                n == data_types@.len(),
                i <= n,
                views_of(data_types@) == dts,
                self.name == old(self).name,
                self.library == old(self).library,
                self.description == old(self).description,
                self.interfaces == old(self).interfaces,
                self.libraries.spec_models() == spec_after_missing_uses(ms0, dts.take(i as int)),
            decreases n - i,
        {
            self.add_missing_library_use(data_types[i].as_str());
            proof {
                assert(dts.take(i + 1 as int).drop_last() =~~= dts.take(i as int));
                assert(dts.take(i + 1 as int).last() == data_types@[i as int]@);
            }
            i = i + 1;
        }
        proof {
            assert(dts.take(n as int) =~~= dts);
        }
        self.interfaces.push(interface.clone());
        Ok(())
    }

    pub fn get_name(&self) -> (r: &String)
        ensures
            r@ == self.name@,
    {
        &self.name
    }

    pub fn get_target_library(&self) -> (r: &String)
        ensures
            r@ == self.library@,
    {
        &self.library
    }

    pub fn get_interfaces(&self) -> (r: &Vec<EntityInterface>)
        ensures
            r@ == self.interfaces@,
    {
        &self.interfaces
    }

    pub fn contains_interface(&self, interface: &EntityInterface) -> (r: bool)
        ensures
            r == spec_contains_interface(self.interfaces@, interface.name@, interface.class@),
    {
        let n: usize = self.interfaces.len();
        let mut i: usize = 0;
        while i < n
            invariant
                n == self.interfaces@.len(),
                i <= n,
                forall|k: int|
                    0 <= k < i ==> !(self.interfaces@[k].name@ == interface.name@
                        && self.interfaces@[k].class@ == interface.class@),
            decreases n - i,
        {
            if crate::text_util::str_eq(
                self.interfaces[i].get_name().as_str(),
                interface.get_name().as_str(),
            ) && crate::text_util::str_eq(
                self.interfaces[i].get_class().as_str(),
                interface.get_class().as_str(),
            ) {
                return true;
            }
            i = i + 1;
        }
        false
    }

    /// All generics of the entity, in interface order.
    pub fn get_generics(&self) -> (r: Vec<Generic>)
        ensures
            r@ == spec_concat_generics(self.interfaces@),
    {
        let mut generics: Vec<Generic> = Vec::new();
        let n: usize = self.interfaces.len();
        let mut i: usize = 0;
        while i < n
            invariant
                n == self.interfaces@.len(),
                i <= n,
                generics@ == spec_concat_generics(self.interfaces@.take(i as int)),
            decreases n - i,
        {
            let m: usize = self.interfaces[i].generics.len();
            let mut j: usize = 0;
            while j < m
                invariant
                    n == self.interfaces@.len(),
                    i < n,
                    m == self.interfaces@[i as int].generics@.len(),
                    j <= m,
                    generics@ == spec_concat_generics(self.interfaces@.take(i as int))
                        + self.interfaces@[i as int].generics@.take(j as int),
                decreases m - j,
            {
                generics.push(self.interfaces[i].generics[j].clone());
                proof {
                    assert(self.interfaces@[i as int].generics@.take(j + 1 as int)
                        =~= self.interfaces@[i as int].generics@.take(j as int).push(
                        self.interfaces@[i as int].generics@[j as int],
                    ));
                    assert(generics@ =~= spec_concat_generics(self.interfaces@.take(i as int))
                        + self.interfaces@[i as int].generics@.take(j + 1 as int));
                }
                j = j + 1;
            }
            proof {
                assert(self.interfaces@.take(i + 1 as int).drop_last() =~~= self.interfaces@.take(
                    i as int,
                ));
                assert(self.interfaces@.take(i + 1 as int).last() == self.interfaces@[i as int]);
                assert(self.interfaces@[i as int].generics@.take(m as int)
                    =~= self.interfaces@[i as int].generics@);
                assert(generics@ == spec_concat_generics(self.interfaces@.take(i + 1 as int)));
            }
            i = i + 1;
        }
        proof {
            assert(self.interfaces@.take(n as int) =~~= self.interfaces@);
        }
        generics
    }

    /// All ports of the entity, in interface order.
    fn collect_ports(&self) -> (r: Vec<Port>)
        ensures
            r@ == spec_concat_ports(self.interfaces@),
    {
        let mut ports: Vec<Port> = Vec::new();
        let n: usize = self.interfaces.len();
        let mut i: usize = 0;
        while i < n
            invariant
                n == self.interfaces@.len(),
                i <= n,
                ports@ == spec_concat_ports(self.interfaces@.take(i as int)),
            decreases n - i,
        {
            let m: usize = self.interfaces[i].ports.len();
            let mut j: usize = 0;
            while j < m
                invariant
                    n == self.interfaces@.len(),
                    i < n,
                    m == self.interfaces@[i as int].ports@.len(),
                    j <= m,
                    ports@ == spec_concat_ports(self.interfaces@.take(i as int))
                        + self.interfaces@[i as int].ports@.take(j as int),
                decreases m - j,
            {
                ports.push(self.interfaces[i].ports[j].clone());
                proof {
                    assert(self.interfaces@[i as int].ports@.take(j + 1 as int)
                        =~= self.interfaces@[i as int].ports@.take(j as int).push(
                        self.interfaces@[i as int].ports@[j as int],
                    ));
                    assert(ports@ =~= spec_concat_ports(self.interfaces@.take(i as int))
                        + self.interfaces@[i as int].ports@.take(j + 1 as int));
                }
                j = j + 1;
            }
            proof {
                assert(self.interfaces@.take(i + 1 as int).drop_last() =~~= self.interfaces@.take(
                    i as int,
                ));
                assert(self.interfaces@.take(i + 1 as int).last() == self.interfaces@[i as int]);
                assert(self.interfaces@[i as int].ports@.take(m as int)
                    =~= self.interfaces@[i as int].ports@);
                assert(ports@ == spec_concat_ports(self.interfaces@.take(i + 1 as int)));
            }
            i = i + 1;
        }
        proof {
            assert(self.interfaces@.take(n as int) =~~= self.interfaces@);
        }
        ports
    }

    /// Text of the whole entity declaration.
    pub open spec fn spec_source_code(self, indent: nat) -> Seq<char> {
        self.libraries.spec_source_code(indent) + (
        if self.description.comment.text@.len() == 0 {
            Seq::<char>::empty()
        } else {
            self.description.spec_source_code(indent)
        }) + spec_indent(indent) + "entity "@ + self.name@ + " is\n"@ + spec_keyword_block(
            "generic"@,
            spec_concat_generics(self.interfaces@).map_values(|g: Generic| g.spec_source_code(0)),
            spec_next_level(indent),
        ) + spec_keyword_block(
            "port"@,
            spec_concat_ports(self.interfaces@).map_values(|p: Port| p.spec_source_code(0)),
            spec_next_level(indent),
        ) + spec_indent(indent) + "begin\n"@ + spec_indent(indent) + "end entity "@ + self.name@
            + ";\n"@
    }

    pub fn to_source_code(&self, indent: usize) -> (r: String)
        ensures
            r@ == self.spec_source_code(indent as nat),
    {
        let mut source = self.libraries.to_source_code(indent);
        if !self.description.is_empty() {
            let description = self.description.to_source_code(indent);
            source.append(description.as_str());
        }
        let indent_str = crate::util::indent(indent);
        source.append(indent_str.as_str());
        source.append("entity ");
        source.append(self.name.as_str());
        source.append(" is\n");
        let level = crate::util::next_level(indent);

        let generics = self.get_generics();
        let mut generic_parts: Vec<String> = Vec::new();
        let gn: usize = generics.len();
        let mut i: usize = 0;
        while i < gn
            invariant
                gn == generics@.len(),
                i <= gn,
                generic_parts@.len() == i as int,
                forall|k: int|
                    0 <= k < i ==> (#[trigger] generic_parts@[k])@ == generics@[k].spec_source_code(
                        0,
                    ),
            decreases gn - i,
        {
            generic_parts.push(generics[i].to_source_code(0));
            i = i + 1;
        }
        proof {
            assert(views_of(generic_parts@) =~~= spec_concat_generics(
                self.interfaces@,
            ).map_values(|g: Generic| g.spec_source_code(0)));
        }
        let generic_block = crate::element::to_keyword_block("generic", &generic_parts, level);
        source.append(generic_block.as_str());

        let ports = self.collect_ports();
        let mut port_parts: Vec<String> = Vec::new();
        let pn: usize = ports.len();
        let mut j: usize = 0;
        while j < pn
            invariant
                pn == ports@.len(),
                j <= pn,
                port_parts@.len() == j as int,
                forall|k: int|
                    0 <= k < j ==> (#[trigger] port_parts@[k])@ == ports@[k].spec_source_code(0),
            decreases pn - j,
        {
            port_parts.push(ports[j].to_source_code(0));
            j = j + 1;
        }
        proof {
            assert(views_of(port_parts@) =~~= spec_concat_ports(self.interfaces@).map_values(
                |p: Port| p.spec_source_code(0),
            ));
        }
        let port_block = crate::element::to_keyword_block("port", &port_parts, level);
        source.append(port_block.as_str());

        source.append(indent_str.as_str());
        source.append("begin\n");
        source.append(indent_str.as_str());
        source.append("end entity ");
        source.append(self.name.as_str());
        source.append(";\n");
        source
    }
}

} // verus!
