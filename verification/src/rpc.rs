pub mod codec;
pub mod convert;
pub mod display;
pub mod extensions;
pub mod handler;
pub mod record;
pub mod routes;
