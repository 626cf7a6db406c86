pub mod binding;
pub mod block_declarative_list;
pub mod direction;
pub mod entity;
pub mod entity_interface;
pub mod entity_interface_binding;
pub mod entity_interface_binding_list;
pub mod constant_declaration;
pub mod generic;
pub mod generic_binding;
pub mod generic_list;
pub mod instance;
pub mod known_libraries;
pub mod library;
pub mod library_list;
pub mod library_use;
pub mod port;
pub mod process;
pub mod sensitivity_list;
pub mod port_binding;
pub mod port_list;
pub mod signal_assignment;
pub mod signal_declaration;
pub mod variable_declaration;
pub mod match_index;
pub mod single_line_comment;
pub mod architecture;
pub mod vhdl_error;
pub mod vhdl_file;
