use source_generator::vhdl::architecture::Architecture;
use source_generator::vhdl::constant_declaration::ConstantDeclaration;
use source_generator::vhdl::direction::Direction;
use source_generator::vhdl::entity::Entity;
use source_generator::vhdl::entity_interface::EntityInterface;
use source_generator::vhdl::entity_interface_binding::EntityInterfaceBinding;
use source_generator::vhdl::generic::Generic;
use source_generator::vhdl::instance::Instance;
use source_generator::vhdl::port::Port;
use source_generator::vhdl::signal_assignment::SignalAssignment;
use source_generator::vhdl::signal_declaration::SignalDeclaraion;
use source_generator::vhdl::vhdl_file::VhdlFile;

fn new_binding_test_interface() -> EntityInterface {
    let mut interface = EntityInterface::new("interface", "test");
    interface.add_generic(Generic::new_with_default("A", "integer", "0"));
    interface.add_generic(Generic::new_with_default("B", "std_logic", "'0'"));
    interface.add_generic(Generic::new("C", "boolean"));
    interface.add_generic(Generic::new("D", "positive"));
    interface.add_port(Port::new_with_default("a", Direction::IN, "integer", "0"));
    interface.add_port(Port::new_with_default("b", Direction::OUT, "std_logic", "'0'"));
    interface.add_port(Port::new("c", Direction::INOUT, "boolean"));
    interface.add_port(Port::new("d", Direction::BUFFER, "positive"));
    interface
}

fn binding_to_string(binding: &EntityInterfaceBinding) -> String {
    let mut s = String::new();
    s.push_str(&format!("{} {}\n", binding.get_name(), binding.get_class()));
    for generic in binding.get_generics() {
        s.push_str(&format!(
            "    {} {} {}\n",
            generic.get_inner(),
            generic.get_data_type(),
            generic.get_outer()
        ));
    }
    for port in binding.get_ports() {
        s.push_str(&format!(
            "    {} {} {} {}\n",
            port.get_inner(),
            port.get_direction().to_string(),
            port.get_data_type(),
            port.get_outer()
        ));
    }
    s
}

const UNBOUND: &'static str = "interface test\n    A integer \n    B std_logic \n    C boolean \n    D positive \n    a in integer \n    b out std_logic \n    c inout boolean \n    d buffer positive \n";

const BOUND: &'static str = "interface test\n    A integer A\n    B std_logic B\n    C boolean C\n    D positive D\n    a in integer a\n    b out std_logic b\n    c inout boolean c\n    d buffer positive d\n";

#[test]
fn from_entity_interface() {
    let interface = new_binding_test_interface();
    let binding = EntityInterfaceBinding::from_entity_interface(&interface);
    assert_eq!(UNBOUND, binding_to_string(&binding));
}

#[test]
fn connect_to_entity_interface() {
    let interface = new_binding_test_interface();
    let mut binding = EntityInterfaceBinding::from_entity_interface(&interface);
    let entity = Entity::with_interface("test", &interface);
    binding.connect_to_entity_interface(&entity.get_interfaces()[1]);
    assert_eq!(BOUND, binding_to_string(&binding));
}

#[test]
fn matching_strength_orders_candidates() {
    let requester =
        EntityInterfaceBinding::from_entity_interface(&EntityInterface::new("bus_a", "avalon"));
    let exact = EntityInterface::new("Bus_A", "avalon");
    let contained = EntityInterface::new("bus", "avalon");
    let class_only = EntityInterface::new("other", "avalon");
    let mismatch = EntityInterface::new("bus_a", "axi");
    assert_eq!(requester.get_entity_matching(&exact), 3);
    assert_eq!(requester.get_entity_matching(&contained), 2);
    assert_eq!(requester.get_entity_matching(&class_only), 1);
    assert_eq!(requester.get_entity_matching(&mismatch), 0);
}

const ARCH_NAME: &'static str = "rtl";
const ARCH_ENTITY: &'static str = "test";
const ENTITY_TEST: &'static str = "entity test is\nbegin\nend entity test;\n\n";
const ARCH_HEADER: &'static str = "architecture rtl of test is\n";
const ARCH_BEGIN: &'static str = "begin\n";
const ARCH_END: &'static str = "end architecture rtl;\n";
const SIGNAL_DECLARATION: &'static str = "    signal signal_1 : boolean;\n";
const SIGNAL_ASSIGNMENT: &'static str = "    s1: signal_1 <= true;\n";
const CONSTANT_DECLARATION: &'static str = "    constant const_1 : integer := 12;\n";

#[test]
fn architecture_frame() {
    let architecture = Architecture::new(ARCH_NAME, &Entity::new(ARCH_ENTITY));
    assert_eq!(
        architecture.to_source_code(0),
        format!("{}{}{}{}", ENTITY_TEST, ARCH_HEADER, ARCH_BEGIN, ARCH_END)
    );
}

#[test]
fn architecture_with_signal_declaration() {
    let mut architecture = Architecture::new(ARCH_NAME, &Entity::new(ARCH_ENTITY));
    architecture.add_signal_declaration(&SignalDeclaraion::new("signal_1", "boolean"));
    assert_eq!(
        architecture.to_source_code(0),
        format!(
            "{}{}{}{}{}",
            ENTITY_TEST, ARCH_HEADER, SIGNAL_DECLARATION, ARCH_BEGIN, ARCH_END
        )
    );
}

#[test]
fn architecture_with_signal_declaration_and_assignment() {
    let mut architecture = Architecture::new(ARCH_NAME, &Entity::new(ARCH_ENTITY));
    architecture.add_signal_declaration(&SignalDeclaraion::new("signal_1", "boolean"));
    architecture.add_signal_assignment(SignalAssignment::new_with_label("s1", "signal_1", "true"));
    assert_eq!(
        architecture.to_source_code(0),
        format!(
            "{}{}{}{}{}{}",
            ENTITY_TEST, ARCH_HEADER, SIGNAL_DECLARATION, ARCH_BEGIN, SIGNAL_ASSIGNMENT, ARCH_END
        )
    );
}

#[test]
fn architecture_with_constant_declaration_and_assignment() {
    let mut architecture = Architecture::new(ARCH_NAME, &Entity::new(ARCH_ENTITY));
    architecture.add_constant_declaration(&ConstantDeclaration::new("const_1", "integer", "12"));
    assert_eq!(
        architecture.to_source_code(0),
        format!(
            "{}{}{}{}{}",
            ENTITY_TEST, ARCH_HEADER, CONSTANT_DECLARATION, ARCH_BEGIN, ARCH_END
        )
    );
}

#[test]
fn connect_instance_to_instance() {
    let mut _architecture = Architecture::new(ARCH_NAME, &Entity::new(ARCH_ENTITY));
}

/// Declaring the same signal or constant again changes nothing in the
/// rendered text.
#[test]
fn repeated_declarations_render_once() {
    let mut architecture = Architecture::new(ARCH_NAME, &Entity::new(ARCH_ENTITY));
    architecture.add_signal_declaration(&SignalDeclaraion::new("signal_1", "boolean"));
    architecture.add_constant_declaration(&ConstantDeclaration::new("const_1", "integer", "12"));
    let once = architecture.to_source_code(0);
    architecture.add_signal_declaration(&SignalDeclaraion::new("signal_1", "boolean"));
    architecture.add_constant_declaration(&ConstantDeclaration::new("const_1", "integer", "12"));
    assert_eq!(once, architecture.to_source_code(0));
}

/// Adding a port of an `unsigned` data type pulls the numeric package
/// import into the file, before the entity text, without any explicit
/// library call.
#[test]
fn implicit_numeric_import() {
    let mut entity = Entity::new("widener");
    entity.add_port(Port::new("value", Direction::IN, "unsigned( 7 downto 0 )"));
    let mut file = VhdlFile::new("widener.vhd");
    file.add_entity(entity);
    let source = file.to_source_code(0);
    assert_eq!(
        source,
        "library ieee;\n    use ieee.numeric_std.all;\n\nentity widener is\n    port (\n        value : in unsigned( 7 downto 0 )\n    );\nbegin\nend entity widener;\n\n"
    );
}

fn avalon_interface() -> EntityInterface {
    let mut interface = EntityInterface::new_unnamed("avalon_mm");
    interface.add_port(Port::new(
        "address",
        Direction::OUT,
        "std_logic_vector( 7 downto 0 )",
    ));
    interface.add_port(Port::new(
        "readdata",
        Direction::IN,
        "std_logic_vector( 7 downto 0 )",
    ));
    interface
}

const WIRED: &'static str = "library ieee;\n    use ieee.std_logic_1164.all;\n\nentity main is\nbegin\nend entity main;\n\narchitecture struct of main is\n    signal host_to_agent_address : std_logic_vector( 7 downto 0 );\n    signal agent_to_host_readdata : std_logic_vector( 7 downto 0 );\nbegin\n    host : entity work.host\n        port map (\n            address => host_to_agent_address,\n            readdata => agent_to_host_readdata\n        );\n    agent : entity work.agent\n        port map (\n            address => host_to_agent_address,\n            readdata => agent_to_host_readdata\n        );\nend architecture struct;\n";

/// Wiring two instances that share an interface class synthesizes one
/// signal per port, named from driver, receiver and port, and declares
/// each exactly once.
#[test]
fn inter_instance_wiring() {
    let interface = avalon_interface();
    let main = Entity::new("main");
    let host = Entity::with_interface("host", &interface);
    let agent = Entity::with_interface("agent", &interface.clone_inverted());
    let mut arch = Architecture::new("struct", &main);
    arch.add_instance(Instance::from_entity("host", &host));
    arch.add_instance(Instance::from_entity("agent", &agent));
    arch.connect_instance_to_instance("host", "agent").unwrap();
    assert_eq!(arch.to_source_code(0), WIRED);
}

/// Wiring the same pair again declares no second copy of any signal.
#[test]
fn inter_instance_wiring_is_stable() {
    let interface = avalon_interface();
    let main = Entity::new("main");
    let host = Entity::with_interface("host", &interface);
    let agent = Entity::with_interface("agent", &interface.clone_inverted());
    let mut arch = Architecture::new("struct", &main);
    arch.add_instance(Instance::from_entity("host", &host));
    arch.add_instance(Instance::from_entity("agent", &agent));
    arch.connect_instance_to_instance("host", "agent").unwrap();
    arch.connect_instance_to_instance("host", "agent").unwrap();
    assert_eq!(arch.to_source_code(0), WIRED);
}

/// A defaulted generic that matches no constant and no entity generic
/// stays unbound and renders with no binding entry; no error is raised.
#[test]
fn unresolved_generic_stays_unbound() {
    let mut sub = Entity::new("sub");
    sub.add_generic(Generic::new_with_default("DEPTH", "natural", "8"));
    let main = Entity::new("main");
    let mut arch = Architecture::new("struct", &main);
    arch.add_instance(Instance::from_entity("u_sub", &sub));
    arch.connect_instance_unbound_by_name("u_sub").unwrap();
    assert_eq!(
        arch.to_source_code(0),
        "entity main is\nbegin\nend entity main;\n\narchitecture struct of main is\nbegin\n    u_sub : entity work.sub\n;\nend architecture struct;\n"
    );
}

/// A defaulted generic whose name and data type match an entity generic
/// of the owning entity binds to it.
#[test]
fn unbound_generic_binds_to_entity_generic() {
    let mut sub = Entity::new("sub");
    sub.add_generic(Generic::new_with_default("WIDTH", "natural", "8"));
    let mut main = Entity::new("main");
    main.add_generic(Generic::new_with_default("WIDTH", "natural", "8"));
    let mut arch = Architecture::new("struct", &main);
    arch.add_instance(Instance::from_entity("u_sub", &sub));
    arch.connect_instance_unbound_by_name("u_sub").unwrap();
    let source = arch.to_source_code(0);
    assert!(source.contains("WIDTH => WIDTH"));
}

#[test]
fn connect_missing_instance_is_reported() {
    let mut arch = Architecture::new(ARCH_NAME, &Entity::new(ARCH_ENTITY));
    let err = arch.connect_instance_to_entity("missing").unwrap_err();
    assert_eq!(
        err.get_message(),
        "error: Instance \"missing\" not found in architecture \"rtl\"!"
    );
}

#[test]
fn connect_missing_port_is_reported() {
    let sub = Entity::new("sub");
    let mut arch = Architecture::new(ARCH_NAME, &Entity::new(ARCH_ENTITY));
    arch.add_instance(Instance::from_entity("u_sub", &sub));
    let err = arch
        .connect_instance_to_port_by_name("u_sub", "zz", "outer")
        .unwrap_err();
    assert_eq!(err.get_message(), "error: Port \"zz\" not found!");
    let err = arch
        .connect_instance_to_port_by_name("nope", "zz", "outer")
        .unwrap_err();
    assert_eq!(
        err.get_message(),
        "error: Architecture \"rtl\" does not contain instance \"nope\""
    );
}

/// Connecting a port by signal name also declares the signal, typed
/// like the port.
#[test]
fn connect_to_signal_declares_it() {
    let mut sub = Entity::new("sub");
    sub.add_port(Port::new("y", Direction::OUT, "std_logic"));
    let mut arch = Architecture::new(ARCH_NAME, &Entity::new(ARCH_ENTITY));
    arch.add_instance(Instance::from_entity("u_sub", &sub));
    arch.connect_instance_to_signal_by_name("u_sub", "y", "y_wire")
        .unwrap();
    let source = arch.to_source_code(0);
    assert!(source.contains("    signal y_wire : std_logic;\n"));
    assert!(source.contains("y => y_wire"));
}

/// Wiring an instance to its parent entity binds matching interfaces by
/// class and name, and the same entity interface is never consumed
/// twice.
#[test]
fn connect_to_entity_binds_interfaces() {
    let mut clk_rst = EntityInterface::new_unnamed("clk_rst");
    clk_rst.add_port(Port::new("clk", Direction::IN, "std_logic"));
    clk_rst.add_port(Port::new("rst", Direction::IN, "std_logic"));
    let main = Entity::with_interface("main", &clk_rst);
    let sub = Entity::with_interface("sub", &clk_rst);
    let mut arch = Architecture::new("struct", &main);
    arch.add_instance(Instance::from_entity("sub_a", &sub));
    arch.connect_instance_to_entity("sub_a").unwrap();
    let source = arch.to_source_code(0);
    assert!(source.contains("clk => clk"));
    assert!(source.contains("rst => rst"));
}

/// Mirroring an interface twice restores the original port directions
/// for input, output and bidirectional ports.
#[test]
fn invert_round_trip_restores_directions() {
    let mut interface = EntityInterface::new_unnamed("bus");
    interface.add_port(Port::new("a", Direction::IN, "std_logic"));
    interface.add_port(Port::new("b", Direction::OUT, "std_logic"));
    interface.add_port(Port::new("c", Direction::INOUT, "std_logic"));
    let twice = interface.clone_inverted().clone_inverted();
    for (orig, twice) in interface.get_ports().iter().zip(twice.get_ports().iter()) {
        assert_eq!(
            orig.get_direction().to_string(),
            twice.get_direction().to_string()
        );
    }
}

#[test]
fn wiring_missing_instance_is_reported() {
    let mut arch = Architecture::new("struct", &Entity::new("main"));
    arch.add_instance(Instance::from_entity("host", &Entity::new("host")));
    let err = arch.connect_instance_to_instance("host", "agent").unwrap_err();
    assert_eq!(
        err.get_message(),
        "error: Instance \"agent\" not found in architecture \"struct\"!"
    );
}

/// The entity snapshot inside an architecture keeps its library imports,
/// and declarations folded into the architecture extend them.
#[test]
fn architecture_declaration_pulls_import() {
    let mut arch = Architecture::new(ARCH_NAME, &Entity::new(ARCH_ENTITY));
    arch.add_signal_declaration(&SignalDeclaraion::new("s", "std_logic"));
    assert_eq!(
        arch.to_source_code(0),
        "library ieee;\n    use ieee.std_logic_1164.all;\n\nentity test is\nbegin\nend entity test;\n\narchitecture rtl of test is\n    signal s : std_logic;\nbegin\nend architecture rtl;\n"
    );
}
