pub mod attr;
pub mod event;
pub mod handler;
pub mod model;
pub mod scan;
pub mod session;
pub mod text;
pub mod tree;
