//! An Emacs-like editor core: text buffers with a point and a mark, the
//! set of open buffers, editor commands with typed parameters, and the
//! MessagePack-RPC message layer that clients talk to.


pub mod buffer;
pub mod command;
pub mod command_value;
pub mod daemon;
pub mod error;
pub mod events;
pub mod keyed;
pub mod msgpack;
pub mod pane;
pub mod ping;
pub mod point;
pub mod rope;
pub mod rpc;
pub mod text;
