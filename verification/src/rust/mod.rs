pub mod struct_models;
pub mod struct_buffers;
pub mod enum_models;
pub mod enum_buffers;
pub mod consts;
pub mod rpc;
