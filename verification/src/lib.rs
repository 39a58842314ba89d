//! Building blocks of a component runtime: capability routing between realms,
//! and the small protocol and tooling pieces that live around it.

pub mod args;
pub mod device_watcher;
pub mod fonts;
pub mod health;
pub mod igmp;
pub mod protocol;
pub mod request_builder;
pub mod routing;
pub mod search;
pub mod stream;
pub mod text;
