pub mod collection;
pub mod handles;
pub mod laws;
pub mod payload;
pub mod record;
pub mod update;
pub mod value;
pub mod window;
