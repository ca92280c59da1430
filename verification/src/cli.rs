//! The command-line surface: which subcommands exist and what each one
//! runs. Argument parsing itself happens outside the library; the decision
//! of what a command means is made here.

use crate::models::ServeMode;
use vstd::prelude::*;

verus! {

/// One invocation's subcommand.
#[derive(Clone, Debug)]
pub enum Commands {
    /// Initialize a new site's scaffold.
    Init { path: String, overwrite: bool, clean: bool },
    /// Run the development server: watcher, sidecar, reload injection.
    Preview,
    /// Build the static site once.
    Build,
    /// Serve the production build.
    Serve,
}

/// One parsed invocation.
#[derive(Clone, Debug)]
pub struct Cli {
    pub command: Commands,
}

/// The serve mode a command runs the orchestrator in, if it serves at all:
/// `Preview` serves in development mode, `Serve` in production mode;
/// `Init` and `Build` never start a server.
pub fn command_serve_mode(command: &Commands) -> (r: Option<ServeMode>)
    ensures
        command is Preview ==> r == Some(ServeMode::Dev),
        command is Serve ==> r == Some(ServeMode::Prod),
        command is Init || command is Build ==> r is None,
{
    match command {
        Commands::Preview => Some(ServeMode::Dev),
        Commands::Serve => Some(ServeMode::Prod),
        Commands::Init { .. } => None,
        Commands::Build => None,
    }
}

} // verus!
