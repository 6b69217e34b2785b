//! Verified core of the `ared` remote-environment daemon: caller identity,
//! wire framing, path confinement rules, capability grants, the session and
//! process tables, and the authorization decisions taken on every request.

pub mod text;

pub mod hex;
pub mod auth;
pub mod framing;
pub mod paths;
pub mod names;
pub mod grants;
pub mod envvars;
pub mod process;
pub mod session;
pub mod ids;
pub mod proc_table;
pub mod fs;
pub mod authz;
pub mod daemon;
pub mod tls;
