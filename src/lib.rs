pub mod model;
pub mod store;
pub mod authz;
pub mod audit;
pub mod quota;
pub mod cascade;
pub mod admin;
pub mod schema;
