//! A verified core for managing init-system units over a message bus.
//!
//! The library decodes the manager daemon's unit-file listing, classifies
//! each unit by type and enablement state, sorts the listing
//! case-insensitively by name, filters it down to the units a user may
//! toggle, and interprets the daemon's replies to enable, disable, start
//! and stop requests.  The bus transport itself is I/O and lives outside
//! this crate: callers perform each round trip and hand its outcome in as
//! a plain value.

pub mod text;
pub mod units;
pub mod sorting;
pub mod decode;
pub mod reply;
pub mod filters;

pub use decode::list_unit_files;
pub use decode::parse_message;
pub use filters::collect_togglable_services;
pub use filters::collect_togglable_sockets;
pub use filters::collect_togglable_timers;
pub use reply::BusItem;
pub use reply::Dbus;
pub use units::SystemdUnit;
pub use units::UnitState;
pub use units::UnitType;
