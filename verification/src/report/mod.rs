pub mod assemblies;
pub mod dump;
pub mod types;
