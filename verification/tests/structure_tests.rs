use source_generator::vhdl::architecture::Architecture;
use source_generator::vhdl::direction::Direction;
use source_generator::vhdl::entity::Entity;
use source_generator::vhdl::entity_interface::EntityInterface;
use source_generator::vhdl::generic::Generic;
use source_generator::vhdl::generic_list::GenericList;
use source_generator::vhdl::library::Library;
use source_generator::vhdl::library_list::LibraryList;
use source_generator::vhdl::library_use::LibraryUse;
use source_generator::vhdl::port::Port;
use source_generator::vhdl::port_list::PortList;
use source_generator::vhdl::process::Process;
use source_generator::vhdl::sensitivity_list::SensitivityList;
use source_generator::vhdl::vhdl_file::VhdlFile;

#[test]
fn generic_list() {
    let mut generic_list = GenericList::new();
    generic_list.add_generic(Generic::new_with_default("a", "integer", "0"));
    generic_list.add_generic(Generic::new_with_default("b", "std_logic", "'0'"));
    generic_list.add_generic(Generic::new("c", "boolean"));
    assert_eq!(
        generic_list.to_source_code(0),
        "    generic (\n        a : integer := 0;\n        b : std_logic := '0';\n        c : boolean\n    );\n"
        .to_string()
    );
}

#[test]
fn port_list() {
    let mut generic_list = PortList::new();
    generic_list.add_port(Port::new_with_default("a", Direction::IN, "integer", "0"));
    generic_list.add_port(Port::new_with_default("b", Direction::OUT, "std_logic", "'0'"));
    generic_list.add_port(Port::new("c", Direction::INOUT, "boolean"));
    generic_list.add_port(Port::new("d", Direction::BUFFER, "positive"));
    assert_eq!(
        generic_list.to_source_code(0),
        "    port (\n        a : in integer := 0;\n        b : out std_logic := '0';\n        c : inout boolean;\n        d : buffer positive\n    );\n"
        .to_string()
    );
}

#[test]
fn library() {
    let l = Library::new("ieee");
    assert_eq!(l.to_source_code(0), String::from("library ieee;\n"));
}

#[test]
fn library_with_use() {
    let mut l = Library::new("ieee");
    l.add_use(LibraryUse::new("ieee", "std_logic_1164"));
    l.add_use(LibraryUse::new("ieee", "std_logic_1164"));
    l.add_use(LibraryUse::new("ieee", "numeric_std"));
    assert_eq!(
        l.to_source_code(0),
        String::from(
            "library ieee;\n    use ieee.std_logic_1164.all;\n    use ieee.numeric_std.all;\n"
        )
    );
}

const LIBRARIES: &'static str = "library ieee;\n    use ieee.std_logic_1164.all;\n    use ieee.numeric_std.all;\n\nlibrary test;\n    use test.utility.all;\n\n";

#[test]
fn library_list() {
    let mut library_list = LibraryList::new();
    library_list.add_library_use(LibraryUse::new("ieee", "std_logic_1164"));
    library_list.add_library_use(LibraryUse::new("ieee", "numeric_std"));
    library_list.add_library_use(LibraryUse::new("test", "utility"));
    assert_eq!(library_list.to_source_code(0), format!("{}", LIBRARIES));
}

#[test]
fn library_list_sorts_names() {
    let mut library_list = LibraryList::new();
    library_list.add_library_use(LibraryUse::new("test", "utility"));
    library_list.add_library_use(LibraryUse::new("ieee", "numeric_std"));
    library_list.add_library_use(LibraryUse::new("ieee", "std_logic_1164"));
    assert_eq!(
        library_list.to_source_code(0),
        "library ieee;\n    use ieee.numeric_std.all;\n    use ieee.std_logic_1164.all;\n\nlibrary test;\n    use test.utility.all;\n\n"
    );
}

fn add_generics(interface: &mut EntityInterface) {
    interface.add_generic(Generic::new_with_default("A", "integer", "0"));
    interface.add_generic(Generic::new_with_default("B", "std_logic", "'0'"));
    interface.add_generic(Generic::new("C", "boolean"));
    interface.add_generic(Generic::new("D", "positive"));
}

fn add_ports(interface: &mut EntityInterface) {
    interface.add_port(Port::new_with_default("a", Direction::IN, "integer", "0"));
    interface.add_port(Port::new_with_default("b", Direction::OUT, "std_logic", "'0'"));
    interface.add_port(Port::new("c", Direction::INOUT, "boolean"));
    interface.add_port(Port::new("d", Direction::BUFFER, "positive"));
}

fn new_test_interface() -> EntityInterface {
    let mut interface = EntityInterface::new_unnamed("test");
    add_generics(&mut interface);
    add_ports(&mut interface);
    interface
}

fn interface_to_string(interface: &EntityInterface) -> String {
    let mut source = String::new();
    for generic in interface.get_generics() {
        source.push_str(&format!("{}", generic.to_source_code(0)));
    }
    for port in interface.get_ports() {
        source.push_str(&format!("{}", port.to_source_code(0)));
    }
    source
}

const PORTS: &'static str = "a : in integer := 0b : out std_logic := '0'c : inout booleand : buffer positive";

const GENERICS: &'static str = "A : integer := 0B : std_logic := '0'C : booleanD : positive";

const INVERTED: &'static str = "A : integer := 0B : std_logic := '0'C : booleanD : positivea : out integer := 0b : in std_logic := '0'c : inout booleand : in positive";

#[test]
fn port_interface() {
    let mut interface = EntityInterface::new_unnamed("test");
    add_ports(&mut interface);
    let source = interface_to_string(&interface);
    assert_eq!(PORTS, source);
}

#[test]
fn generic_interface() {
    let mut interface = EntityInterface::new_unnamed("test");
    add_generics(&mut interface);
    let source = interface_to_string(&interface);
    assert_eq!(GENERICS, source);
}

#[test]
fn invert() {
    let mut interface = new_test_interface();
    interface.invert();
    let source = interface_to_string(&interface);
    assert_eq!(INVERTED, source);
}

#[test]
fn clone_inverted() {
    let interface = new_test_interface();
    let interface = interface.clone_inverted();
    let source = interface_to_string(&interface);
    assert_eq!(INVERTED, source);
}

const NAME: &'static str = "test";
const DESCRIPTION: &'static str = "-- A cool entity description\n";
const HEADER: &'static str = "entity test is\n";
const ENTITY_GENERICS: &'static str = "    generic (\n        GA : std_logic;\n        GB : integer := 5\n    );\n";
const ENTITY_PORTS: &'static str = "    port (\n        a : in std_logic;\n        b : out boolean;\n        c : inout std_logic_vector( 31 downto 0 );\n        d : buffer std_logic_vector( 31 downto 0 )\n    );\n";
const BEGIN: &'static str = "begin\n";
const END: &'static str = "end entity test;\n";
const USE_STD_LOGIC_1164: &'static str =
    "library ieee;\n    use ieee.std_logic_1164.all;\n\n";
const INTERFACE: &'static str = "    generic (\n        A : integer := 0;\n        B : std_logic := '0';\n        C : boolean;\n        D : positive\n    );\n    port (\n        a : in integer := 0;\n        b : out std_logic := '0';\n        c : inout boolean;\n        d : buffer positive\n    );\n";

#[test]
fn entity_frame() {
    let entity = Entity::new(NAME);
    assert_eq!(
        entity.to_source_code(0),
        format!("{}{}{}", HEADER, BEGIN, END)
    );
}

#[test]
fn entity_with_description() {
    let mut entity = Entity::new(NAME);
    entity.add_description("A cool entity description");
    assert_eq!(
        entity.to_source_code(0),
        format!("{}{}{}{}", DESCRIPTION, HEADER, BEGIN, END)
    );
}

#[test]
fn entity_with_ports() {
    let mut entity = Entity::new(NAME);
    entity.add_description("A cool entity description");
    entity.add_port(Port::new("a", Direction::IN, "std_logic"));
    entity.add_port(Port::new("b", Direction::OUT, "boolean"));
    entity.add_port(Port::new("c", Direction::INOUT, "std_logic_vector( 31 downto 0 )"));
    entity.add_port(Port::new("d", Direction::BUFFER, "std_logic_vector( 31 downto 0 )"));
    assert_eq!(
        entity.to_source_code(0),
        format!(
            "{}{}{}{}{}{}",
            USE_STD_LOGIC_1164, DESCRIPTION, HEADER, ENTITY_PORTS, BEGIN, END
        )
    );
}

#[test]
fn entity_with_generics_and_ports() {
    let mut entity = Entity::new(NAME);
    entity.add_description("A cool entity description");
    entity.add_generic(Generic::new("GA", "std_logic"));
    entity.add_generic(Generic::new_with_default("GB", "integer", "5"));
    entity.add_port(Port::new("a", Direction::IN, "std_logic"));
    entity.add_port(Port::new("b", Direction::OUT, "boolean"));
    entity.add_port(Port::new("c", Direction::INOUT, "std_logic_vector( 31 downto 0 )"));
    entity.add_port(Port::new("d", Direction::BUFFER, "std_logic_vector( 31 downto 0 )"));
    assert_eq!(
        entity.to_source_code(0),
        format!(
            "{}{}{}{}{}{}{}",
            USE_STD_LOGIC_1164, DESCRIPTION, HEADER, ENTITY_GENERICS, ENTITY_PORTS, BEGIN, END
        )
    );
}

/// The interface carries an `integer := 0` generic among others, so the
/// standard logic package import is pulled in by its `std_logic` typed
/// entries.
#[test]
fn entity_with_interface() {
    let interface = new_test_interface();
    let mut entity = Entity::new(NAME);
    entity.add_interface(&interface).unwrap();
    assert_eq!(
        entity.to_source_code(0),
        format!("{}{}{}{}{}", USE_STD_LOGIC_1164, HEADER, INTERFACE, BEGIN, END)
    );
}

#[test]
fn interface_already_exists_error() {
    let mut interface = new_test_interface();
    interface.rename("test");
    let mut entity = Entity::new(NAME);
    entity.add_interface(&interface).unwrap();
    let ret = entity.add_interface(&interface);
    assert!(ret.is_err());
}

#[test]
fn entity_with_library() {
    let mut entity = Entity::new(NAME);
    entity.add_library(Library::new("ieee"));
    entity.add_library_use(&LibraryUse::new("ieee", "std_logic_1164"));
    entity.add_library_use(&LibraryUse::new("ieee", "numeric_std"));
    entity.add_library_use(&LibraryUse::new("test", "utility"));
    assert_eq!(
        entity.to_source_code(0),
        format!("{}{}{}{}", LIBRARIES, HEADER, BEGIN, END)
    );
}

#[test]
fn process_frame() {
    let process = Process::new("test");
    assert_eq!(
        process.to_source_code(0),
        format!("{}{}{}", "test : process is\n", "begin\n", "end process test;\n")
    );
}

#[test]
fn empty_list() {
    let sensitivity_list = SensitivityList::new();
    assert_eq!(sensitivity_list.to_source_code(0), String::new());
}

#[test]
fn single_list_entry() {
    let sensitivity_list = SensitivityList::new_with_signal("all");
    assert_eq!(sensitivity_list.to_source_code(0), "all".to_string());
}

#[test]
fn two_list_entries() {
    let sensitivity_list =
        SensitivityList::new_with_list(vec!["a".to_string(), "b".to_string()]);
    assert_eq!(sensitivity_list.to_source_code(1), "a,\n    b".to_string());
}

#[test]
fn add_three_entries() {
    let mut sensitivity_list = SensitivityList::new();
    sensitivity_list.add_signal("a");
    sensitivity_list.add_signal("b");
    sensitivity_list.add_signal("c");
    assert_eq!(
        sensitivity_list.to_source_code(2),
        "a,\n        b,\n        c".to_string()
    );
}

#[test]
fn add_list() {
    let mut sensitivity_list = SensitivityList::new();
    sensitivity_list.add_list(vec!["a".to_string(), "b".to_string(), "c".to_string()]);
    assert_eq!(
        sensitivity_list.to_source_code(2),
        "a,\n        b,\n        c".to_string()
    );
}

#[test]
fn add_two_lists() {
    let mut sensitivity_list = SensitivityList::new();
    sensitivity_list.add_list(vec!["a".to_string(), "b".to_string(), "c".to_string()]);
    sensitivity_list.add_list(vec!["b".to_string(), "c".to_string(), "d".to_string()]);
    assert_eq!(
        sensitivity_list.to_source_code(2),
        "a,\n        b,\n        c,\n        d".to_string()
    );
}

const FILE_ENTITY: &'static str = "entity test is\nbegin\nend entity test;\n\n";
const FILE_ARCHITECTURE: &'static str =
    "architecture arch of test is\nbegin\nend architecture arch;\n\n";

#[test]
fn new() {
    let file = VhdlFile::new("test");
    assert_eq!("test", file.get_file_name());
}

#[test]
fn add_entity() {
    let mut file = VhdlFile::new("test");
    file.add_entity(Entity::new("test"));
    assert_eq!(FILE_ENTITY, file.to_source_code(0));
}

#[test]
fn add_architecture() {
    let mut file = VhdlFile::new("test");
    file.add_architecture(Architecture::new("arch", &Entity::new("test")));
    let expected = format!("{}{}", FILE_ENTITY, FILE_ARCHITECTURE);
    assert_eq!(expected, file.to_source_code(0));
}

use source_generator::vhdl::instance::Instance;

/// Placing an instance under a name already placed removes the earlier
/// placement and appends the new one at the end.
#[test]
fn add_instance_replaces_by_name() {
    let sub = Entity::new("sub");
    let newer = Entity::new("newer");
    let mut arch = Architecture::new("struct", &Entity::new("main"));
    arch.add_instance(Instance::from_entity("u_a", &sub));
    arch.add_instance(Instance::from_entity("u_b", &sub));
    arch.add_instance(Instance::from_entity("u_a", &newer));
    let source = arch.to_source_code(0);
    let a_pos = source.find("u_a : entity work.newer").unwrap();
    let b_pos = source.find("u_b : entity work.sub").unwrap();
    assert!(b_pos < a_pos);
    assert!(!source.contains("u_a : entity work.sub"));
}
