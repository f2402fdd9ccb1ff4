//! StateMaster: a database of finite state machines.
//!
//! A machine definition fixes the states of an entity, the events that move it
//! from one state to the next, the guards that may veto a move and the effects
//! that a move emits. The library holds the whole of that logic: planning a
//! transition, storing it, delivering it to subscribers, and the wire protocol,
//! client and shell built on top.
pub mod text;
pub mod wording;
pub mod order;
pub mod clock;
pub mod complaints;
pub mod id;
pub mod json;
pub mod fsm;
pub mod names;
pub mod storage;
pub mod engine;
pub mod proto;
pub mod wire;
pub mod sdk;
pub mod daemon;
pub mod shell;
