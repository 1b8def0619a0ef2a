pub mod features;
pub mod record;
pub mod status;
pub mod version;
