//! Client-side protocol layer of an online game: a byte cursor with primitive
//! decoders, the codec of every wire value, the packet catalog, the dispatcher
//! that turns a raw buffer into typed events, and the session state machine
//! that walks the login, character and map servers in order.
//!
//! Every executable function is verified against its contract. The contracts
//! speak of byte sequences and of the model of each value.

pub mod loaders;
pub mod network;
