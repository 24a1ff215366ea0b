use vstd::prelude::*;

verus! {

/// Settings of the HTTP layer.
#[derive(Debug, Clone)]
pub struct APIConfig {
    /// Bytes that sign session tokens.
    pub jwt_secret: String,
}

/// Settings of the caches.
#[derive(Debug, Clone, Copy)]
pub struct CacheConfig {
    /// Freshness window in seconds; 0 keeps entries until they are evicted.
    pub duration: u16,
}

impl CacheConfig {
    /// The window in the unit the caches take.
    pub fn window(&self) -> (r: u64)
        ensures
            r == self.duration as u64,
    {
        self.duration as u64
    }
}

/// Subcommands of the command line.
#[derive(Debug, Clone, Copy, PartialEq, Eq, Structural)]
pub enum Command {
    /// Print a fresh base64-encoded 16-byte random value.
    GenerateSecret,
    /// Load and check the configuration file.
    TestConfig,
}

/// The command line: a subcommand, or none to run the server.
#[derive(Debug, Clone, Copy)]
pub struct Options {
    pub cmd: Option<Command>,
}

} // verus!
