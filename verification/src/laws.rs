//! What the operations of the library are for. Each law speaks of calls: of what came back from
//! them, and of how one call relates to another. `call_ensures` stands for "the call came to this".

pub mod assets;
pub mod blocks;
pub mod bounce;
pub mod buffers;
pub mod field;
pub mod fluids;
pub mod identity;
pub mod items;
pub mod loading;
pub mod lock;
pub mod messages;
pub mod models;
pub mod options;
pub mod pam;
pub mod panoramas;
pub mod rendering;
pub mod scenes;
pub mod schedule;
pub mod session;
pub mod texts;
pub mod torches;
pub mod walkers;
