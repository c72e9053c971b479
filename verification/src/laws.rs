//! What the operations are for: what holds of their results whatever they are
//! given, said of the values that go in and come out.
pub mod host;
pub mod media;
pub mod migrate;
pub mod package;
pub mod plugins;
pub mod profile;
pub mod protocol;
pub mod refusals;
pub mod server;
pub mod store;
pub mod update;
pub mod window;
