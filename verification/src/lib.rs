//! Spora: project configuration, dependency coordinates, the content store,
//! incremental build planning and toolchain selection for JVM projects.

pub mod text;
pub mod strmap;
pub mod builder;
pub mod digest;
pub mod store;
pub mod resolver;
pub mod pom;
pub mod config;
pub mod toolchain;
pub mod packaging;
pub mod platform;
pub mod cli;
