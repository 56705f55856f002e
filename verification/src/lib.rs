pub mod heap;
pub mod laws;
pub mod person;
pub mod policy;
pub mod positive;
pub mod store;
pub mod text;
pub mod transform;
pub mod wrapper;
