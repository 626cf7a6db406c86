use source_generator::element::to_source_code_list;
use source_generator::util::indent;
use source_generator::vhdl::binding::Binding;
use source_generator::vhdl::constant_declaration::ConstantDeclaration;
use source_generator::vhdl::direction::Direction;
use source_generator::vhdl::generic::Generic;
use source_generator::vhdl::generic_binding::GenericBinding;
use source_generator::vhdl::library_use::LibraryUse;
use source_generator::vhdl::port::Port;
use source_generator::vhdl::port_binding::PortBinding;
use source_generator::vhdl::signal_declaration::SignalDeclaraion;
use source_generator::vhdl::variable_declaration::VariableDeclaration;

fn create_test_list() -> Vec<String> {
    vec![
        "1".to_string(),
        "2".to_string(),
        "3".to_string(),
        "4".to_string(),
        "5".to_string(),
    ]
}

#[test]
fn comma_separated_list() {
    let source = to_source_code_list(&create_test_list(), ", ");
    assert_eq!(source, "1, 2, 3, 4, 5".to_string());
}

#[test]
fn semicolon_separated_list() {
    let source = to_source_code_list(&create_test_list(), ";\n    ");
    assert_eq!(source, "1;\n    2;\n    3;\n    4;\n    5".to_string());
}

#[test]
fn indent_zero() {
    let i0 = indent(0);
    assert_eq!(i0, "");
}

#[test]
fn indent_one() {
    let i1 = indent(1);
    assert_eq!(i1, "    ");
}

#[test]
fn indent_four() {
    let i4 = indent(4);
    assert_eq!(i4, "                ");
}

/// Calls the banner creation and compares it with a locally created
/// banner.  The timestamp comparison might fail if the two calls fall on
/// the two sides of a second increment.
#[test]
fn header() {
    let header = source_generator::util::header();
    let now = chrono::offset::Local::now().format("%Y-%m-%d %H:%M:%S");
    let expected = format!("\nAutomatically generated on {}.\nDo _NOT_ edit!\n", now);
    assert_eq!(header, expected);
}

#[test]
fn in_to_string() {
    assert_eq!(Direction::IN.to_string(), String::from("in"));
}

#[test]
fn out_to_string() {
    assert_eq!(Direction::OUT.to_string(), String::from("out"));
}

#[test]
fn inout_to_string() {
    assert_eq!(Direction::INOUT.to_string(), String::from("inout"));
}

#[test]
fn buffer_to_string() {
    assert_eq!(Direction::BUFFER.to_string(), String::from("buffer"));
}

#[test]
fn invert_in() {
    let mut direction = Direction::IN;
    direction.invert();
    assert_eq!(direction.to_string(), String::from("out"));
}

#[test]
fn invert_out() {
    let mut direction = Direction::OUT;
    direction.invert();
    assert_eq!(direction.to_string(), String::from("in"));
}

#[test]
fn invert_inout() {
    let mut direction = Direction::INOUT;
    direction.invert();
    assert_eq!(direction.to_string(), String::from("inout"));
}

#[test]
fn invert_buffer() {
    let mut direction = Direction::BUFFER;
    direction.invert();
    assert_eq!(direction.to_string(), String::from("in"));
}

#[test]
fn get_inverted_in() {
    assert_eq!(Direction::IN.get_inverted().to_string(), String::from("out"));
}

#[test]
fn get_inverted_out() {
    assert_eq!(Direction::OUT.get_inverted().to_string(), String::from("in"));
}

#[test]
fn get_inverted_inout() {
    assert_eq!(
        Direction::INOUT.get_inverted().to_string(),
        String::from("inout")
    );
}

#[test]
fn get_inverted_buffer() {
    assert_eq!(
        Direction::BUFFER.get_inverted().to_string(),
        String::from("in")
    );
}

const GENERIC: &'static str = "test : boolean";
const GENERIC_WITH_DEFAULT: &'static str = "test : boolean := true";

#[test]
fn generic() {
    let generic = Generic::new("test", "boolean");
    assert_eq!(generic.to_source_code(0), GENERIC.to_string());
}

#[test]
fn generic_with_default() {
    let generic = Generic::new_with_default("test", "boolean", "true");
    assert_eq!(generic.to_source_code(0), GENERIC_WITH_DEFAULT.to_string());
}

#[test]
fn input_port() {
    let port = Port::new("test", Direction::IN, "boolean");
    assert_eq!(port.to_source_code(0), "test : in boolean".to_string());
}

#[test]
fn output_port() {
    let port = Port::new("test", Direction::OUT, "boolean");
    assert_eq!(port.to_source_code(0), "test : out boolean".to_string());
}

#[test]
fn inout_port() {
    let port = Port::new("test", Direction::INOUT, "boolean");
    assert_eq!(port.to_source_code(0), "test : inout boolean".to_string());
}

#[test]
fn buffer_port() {
    let port = Port::new("test", Direction::BUFFER, "boolean");
    assert_eq!(port.to_source_code(0), "test : buffer boolean".to_string());
}

#[test]
fn input_port_with_default() {
    let port = Port::new_with_default("test", Direction::IN, "boolean", "true");
    assert_eq!(
        port.to_source_code(0),
        "test : in boolean := true".to_string()
    );
}

#[test]
fn library_use_all() {
    let c1 = LibraryUse::new("ieee", "std_logic_1164");
    assert_eq!(
        c1.to_source_code(1),
        String::from("    use ieee.std_logic_1164.all;\n")
    );
}

#[test]
fn library_use_element() {
    let c1 = LibraryUse::new_with_element("ieee", "std_logic_1164", "std_logic");
    assert_eq!(
        c1.to_source_code(1),
        String::from("    use ieee.std_logic_1164.std_logic;\n")
    );
}

#[test]
fn signal_declaration() {
    let signal_declaration = SignalDeclaraion::new("test", "boolean");
    assert_eq!(
        signal_declaration.to_source_code(0),
        format!("signal test : boolean;\n")
    );
}

#[test]
fn signal_declaration_with_default() {
    let signal_declaration = SignalDeclaraion::new_with_default("test", "boolean", "false");
    assert_eq!(
        signal_declaration.to_source_code(0),
        format!("signal test : boolean := false;\n")
    );
}

#[test]
fn constant_declaration_with_default() {
    let constant_declaration = ConstantDeclaration::new("test", "boolean", "false");
    assert_eq!(
        constant_declaration.to_source_code(0),
        format!("constant test : boolean := false;\n")
    );
}

#[test]
fn variable_declaration() {
    let variable_declaration = VariableDeclaration::new("test", "boolean");
    assert_eq!(
        variable_declaration.to_source_code(0),
        format!("variable test : boolean;\n")
    );
}

#[test]
fn variable_declaration_with_default() {
    let variable_declaration = VariableDeclaration::new_with_default("test", "boolean", "false");
    assert_eq!(
        variable_declaration.to_source_code(0),
        format!("variable test : boolean := false;\n")
    );
}

#[test]
fn binding_from_generic() {
    let binding = Binding::from_generic(&Generic::new("test", "boolean"));
    assert_eq!(&binding.to_source_code(0), "");
}

#[test]
fn binding_from_port() {
    let binding = Binding::from_port(&Port::new("test", Direction::OUT, "boolean"));
    assert_eq!(&binding.to_source_code(0), "test => ");
}

#[test]
fn binding_connect_to_generic() {
    let generic = Generic::new("extern", "boolean");
    let mut binding = Binding::from_generic(&Generic::new("test", "boolean"));
    binding.connect_to_generic(&generic);
    assert_eq!(&binding.to_source_code(0), "test => extern");
}

#[test]
fn binding_connect_to_port() {
    let port = Port::new("extern", Direction::IN, "boolean");
    let mut binding = Binding::from_port(&Port::new("test", Direction::IN, "boolean"));
    binding.connect_to_port(&port);
    assert_eq!(&binding.to_source_code(0), "test => extern");
}

#[test]
fn generic_binding_from_generic() {
    let binding = GenericBinding::from_generic(&Generic::new("test", "boolean"));
    assert_eq!(&binding.to_source_code(0), "test => ");
}

#[test]
fn generic_binding_connect_to_generic() {
    let generic = Generic::new("extern", "boolean");
    let mut binding = GenericBinding::from_generic(&Generic::new("test", "boolean"));
    binding.connect(&generic);
    assert_eq!(&binding.to_source_code(0), "test => extern");
}

#[test]
fn port_binding_from_port() {
    let binding = PortBinding::from_port(&Port::new("test", Direction::OUT, "boolean"));
    assert_eq!(&binding.to_source_code(0), "test => ");
}

#[test]
fn port_binding_connect_to_port() {
    let port = Port::new("extern", Direction::IN, "boolean");
    let mut binding = PortBinding::from_port(&Port::new("test", Direction::IN, "boolean"));
    binding.connect(&port);
    assert_eq!(&binding.to_source_code(0), "test => extern");
}
