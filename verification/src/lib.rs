pub mod text;
pub mod pkg;
pub mod glob;
pub mod release;
pub mod paths;
pub mod registry;
pub mod version;
pub mod lists;
pub mod dispatch;
pub mod recents;
pub mod repo;
pub mod detect;
pub mod install;
pub mod github;
pub mod cleanup;
pub mod desktop;
