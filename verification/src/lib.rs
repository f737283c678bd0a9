//! Server-panel operations.
pub mod codec;
pub mod error;
pub mod model;
pub mod net;
pub mod nodeapp;
pub mod path;
pub mod plan;
pub mod plugin;
pub mod posture;
pub mod procedure;
pub mod registry;
pub mod services;
pub mod sftp;
pub mod site;
pub mod stack;
pub mod svc;
pub mod terminal;
pub mod text;
pub mod tls;
