pub mod animations;
pub mod history;
pub mod identity;
pub mod pam;
pub mod state;
pub mod worker;
