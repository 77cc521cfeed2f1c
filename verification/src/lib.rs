//! Verified core of a command-line manager for Godot Engine projects,
//! editor versions, addons and export templates.
pub mod text;
pub mod numparse;
pub mod version;
pub mod releases;
pub mod zipdir;
pub mod strmap;
pub mod platform;
pub mod config;
pub mod github;
pub mod project;
pub mod addons;
pub mod repository;
pub mod builder;
pub mod shared;
pub mod projects;
pub mod news;
pub mod search;
pub mod gdre;
pub mod templates;
pub mod laws;
pub mod upload;
pub mod addon_list;
pub mod template_install;
pub mod sync;
pub mod exclude;
pub mod globals;
pub mod template_build;
pub mod editors;
pub mod recovery;
pub mod launch;
pub mod shell;
pub mod secure;
pub mod gut;
pub mod addon_install;
pub mod store_api;
pub mod tags;
pub mod ci;
pub mod line_laws;
pub mod tag_laws;
pub mod plugin_laws;
pub mod template_laws;
pub mod link_laws;
pub mod version_laws;
