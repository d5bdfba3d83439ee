pub mod codes;
pub mod display;
pub mod field;
pub mod protocol;
pub mod session;
pub mod telnet;

pub use protocol::FieldAttribute;

pub use session::Session;
