//! Address parsing and settings resolution for a small file-sharing server.
//!
//! Address strings of the form `host` or `host:port` are classified and
//! parsed into [`IPAddr`] records, and the command line and the configuration
//! document are merged, field by field, into the [`Settings`] to run with.

pub mod error;
pub mod port;
pub mod address;
pub mod settings;

pub use address::{ip_type, Convert, IPAddr, IPType};
pub use error::ParseError;
pub use port::{parse_port, DEFAULT_PORT};
pub use settings::{Arguments, Config, Settings};
