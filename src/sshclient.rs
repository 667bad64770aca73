use vstd::prelude::*;

verus! {

/// Text and status reported by a backend: the output and exit status of a
/// command, or a message and the backend's error code.
#[derive(Debug)]
pub struct RunOutput(pub String, pub i32);

/// The result of running a command: `Done` when the command ran to its exit,
/// `Failed` when the channel to the backend failed.
#[derive(Debug)]
pub enum RunResult {
    Done(RunOutput),
    Failed(RunOutput),
}

/// A remote-shell backend: it opens authenticated shells and runs commands
/// on them. The registry never looks inside a `Shell`.
pub trait ShellProvider {
    type Shell;

    /// Opens a shell on `host` for `user`, or reports why it could not
    /// (`-255` where the backend cannot classify the error).
    fn connect(&self, host: &str, user: &str, password: &str) -> Result<Self::Shell, RunOutput>;

    /// Runs `command` on `shell`, capturing its output.
    fn run_command(&self, shell: &Self::Shell, command: &str) -> RunResult;
}

/// The production backend, which speaks SSH to the target host.
#[derive(Debug, Clone, Copy, PartialEq, Eq)]
pub struct SSHClient;

impl SSHClient {
    pub fn new() -> (r: SSHClient)
        ensures
            r == SSHClient,
    {
        SSHClient
    }
}

} // verus!
