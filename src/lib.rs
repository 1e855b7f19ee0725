//! Aoi: a small register-plus-stack virtual machine for a dynamically typed
//! toy language, with a byte-exact codec for its instruction streams.
//!
//! Values of type `Float` carry their IEEE-754 single-precision bit pattern;
//! the arithmetic that needs real floating point (and the host interrupts) is
//! supplied by the embedder through [`AoHost`].
pub mod args;
pub mod bin_oper;
pub mod float;
pub mod host;
pub mod laws;
pub mod memory;
pub mod opcode;
pub mod serialization;
pub mod status;
pub mod text;
pub mod types;
pub mod vm;

pub use args::{AoArg, AoArgLowerCase};
pub use bin_oper::AoTypeBinOper;
pub use host::{AoFloatOp, AoHost};
pub use memory::Memory;
pub use opcode::{AoOpCode, AoProgram};
pub use serialization::AoAsmSerializer;
pub use status::AoStatus;
pub use types::AoType;
pub use vm::AoVM;
