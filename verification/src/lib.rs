pub mod errors;
pub mod idgen;
pub mod ident;
pub mod post;
pub mod query;
pub mod ranking;
pub mod store;
pub mod text;
