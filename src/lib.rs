//! Decoder for the action bytecode of Flash movies: a byte range becomes a
//! list of instructions whose branches are resolved to instruction indices.
pub mod decode;
pub mod fields;
pub mod grammar;
pub mod laws;
pub mod opcode;
pub mod reader;
pub mod text;
pub mod types;

pub use opcode::SimpleOp;
pub use reader::Reader;
pub use types::{
    Action, ActionList, CatchVar, DecodeError, Function, FunctionParam, SendVarsMethod, TryBlock,
    Value,
};
