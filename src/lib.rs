pub mod errors;
pub mod key_service;
pub mod short_key;
pub mod url;
pub mod store;
pub mod service;
pub mod laws;
