pub mod codes;
pub mod conversation;
pub mod error;
pub mod secret;
pub mod transaction;
