pub mod v0;
