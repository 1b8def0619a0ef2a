pub mod register;
pub mod sync;
pub mod unregister;
