pub mod address;
pub mod catalog;
pub mod config;
pub mod console;
pub mod desktop;
pub mod digest;
pub mod form;
pub mod host_core;
pub mod host_update;
pub mod json;
pub mod laws;
pub mod manifest;
pub mod media;
pub mod media_server;
pub mod migrate;
pub mod models;
pub mod package;
pub mod paths;
pub mod plugins;
pub mod procedures;
pub mod profile;
pub mod protocol;
pub mod proxy;
pub mod records;
pub mod stamp;
pub mod table;
pub mod text;
pub mod textures;
pub mod thumbnails;
pub mod transport;
