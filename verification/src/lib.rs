pub mod packet;
pub mod packet_laws;
pub mod crc;
pub mod text;
pub mod base37;
pub mod bits;
pub mod ring;
pub mod linklist;
pub mod doubly_linklist;
pub mod script_opcode;
pub mod script_file;
pub mod script_pointer;
pub mod script_state;
pub mod script_provider;
pub mod script_ops;
pub mod script_runner;
pub mod script_laws;
pub mod interpreter_laws;
pub mod math_ops;
pub mod math_laws;
pub mod param_helper;
pub mod config_type;
pub mod obj_type;
pub mod loc_type;
pub mod config_text;
pub mod obj_writer;
pub mod loc_writer;
pub mod js5;
pub mod rsa;
pub mod server_messages;
pub mod pack_file;
pub mod config_names;
pub mod namemap;
pub mod compiler;
pub mod symbols;
pub mod pack_laws;
pub mod writer_laws;
pub mod config_laws;
pub mod decode_checks;
