//! Installation parameters per environment and the command-line model.

use vstd::prelude::*;
use crate::catalog::ChooseEnvironment;

verus! {

/// Java installation parameters.
pub struct JavaArgs {
    pub version: Option<String>,
}

/// Python installation parameters.
pub struct PythonArgs {
    pub version: Option<String>,
    pub pip: bool,
}

/// Node.js installation parameters.
pub struct NodeArgs {
    pub version: Option<String>,
    pub npm: bool,
}

/// Rust installation parameters.
pub struct RustArgs {
    pub version: Option<String>,
    pub cargo: bool,
}

/// Go installation parameters.
pub struct GoArgs {
    pub version: Option<String>,
    pub set_gopath: bool,
}

/// MySQL installation parameters.
pub struct MySQLArgs {
    pub version: Option<String>,
    pub root_password: Option<String>,
    pub port: u16,
}

/// PostgreSQL installation parameters.
pub struct PostgreSQLArgs {
    pub version: Option<String>,
    pub port: u16,
}

/// MongoDB installation parameters.
pub struct MongoDBArgs {
    pub version: Option<String>,
    pub port: u16,
}

/// Redis installation parameters.
pub struct RedisArgs {
    pub version: Option<String>,
    pub port: u16,
    pub password: Option<String>,
}

/// Arguments of the `dev` command.
pub struct DevEnvironmentArgs {
    pub name: Option<String>,
}

/// The subcommands.
pub enum EnvSubCommand {
    /// Global configuration: install directory and refresh.
    Config { dir: Option<String>, flush: bool },
    /// Install environments.
    Dev(DevEnvironmentArgs),
    /// Choose the active version of an environment.
    Choose { name: ChooseEnvironment },
}

/// The command line.
pub struct EnvArgs {
    pub command: Option<EnvSubCommand>,
}

} // verus!
