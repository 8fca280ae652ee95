pub mod context;
pub mod handler;

pub use context::Context;
pub use handler::InterruptToken;
