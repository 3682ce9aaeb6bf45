//! The decisions of connecting to the browser daemon: whether to reuse a
//! running daemon or start one, how long to wait for it and for the browser
//! extension, what to tell the user while waiting, and what error to give.
//! The waiting, probing and process spawning themselves happen outside.

use vstd::prelude::*;
use vstd::string::*;
use crate::error::CliError;
use crate::text::{decimal_nat, push_decimal_u64};

verus! {

/// The port the daemon listens on unless told otherwise.
pub const DEFAULT_PORT: u16 = 19825;

/// How long to wait for a freshly started daemon to answer, in seconds.
pub const READY_TIMEOUT_SECS: u64 = 10;

/// The pause between two probes of a starting daemon, in milliseconds.
pub const READY_POLL_INTERVAL_MS: u64 = 200;

/// How long to wait for the browser extension to connect, in seconds.
pub const EXTENSION_TIMEOUT_SECS: u64 = 30;

/// The pause between two checks for the extension, in milliseconds.
pub const EXTENSION_POLL_INTERVAL_MS: u64 = 500;

/// High-level bridge that manages the Daemon process and provides IPage instances.
/// The daemon runs as a detached background process with its own idle-shutdown lifecycle.
pub struct BrowserBridge {
    /// The port of the daemon.
    pub port: u16,
}

/// What `connect` does next.
#[derive(Debug)]
pub enum ConnectStep {
    /// Start the daemon process, then wait until it answers.
    SpawnDaemon,
    /// Wait for the browser extension to connect to the daemon.
    WaitForExtension,
    /// Hand out a page on the daemon.
    OpenPage,
    /// Give up with this error.
    Fail(CliError),
}

/// Whether `e` is the error given when the daemon did not answer in time.
pub open spec fn is_ready_timeout_error(e: CliError) -> bool {
    e matches CliError::Timeout { message } && message@ == "Daemon did not become ready within "@
        + decimal_nat(READY_TIMEOUT_SECS as nat) + "s"@
}

/// Whether `e` is the error given when the extension did not connect to the
/// daemon on `port`.
pub open spec fn is_extension_missing_error(e: CliError, port: u16) -> bool {
    e matches CliError::BrowserConnect { message, suggestions } && message@
        == "Chrome extension not connected"@ && suggestions@.len() == 3 && suggestions@[0]@
        == "Install the OpenCLI Chrome extension"@ && suggestions@[1]@
        == "Make sure Chrome is running with the extension enabled"@ && suggestions@[2]@
        == "The daemon is listening on port "@ + decimal_nat(port as nat)
}

/// The arguments that start the current program as a daemon on `port`.
pub open spec fn daemon_args_of(port: u16) -> Seq<Seq<char>> {
    seq!["--daemon"@, "--port"@, decimal_nat(port as nat)]
}

impl BrowserBridge {
    /// A bridge to the daemon on `port`.
    pub fn new(port: u16) -> (r: Self)
        ensures
            r.port == port,
    {
        Self { port }
    }

    /// Create a bridge using the default port.
    pub fn default_port() -> (r: Self)
        ensures
            r.port == DEFAULT_PORT,
    {
        Self::new(DEFAULT_PORT)
    }

    /// Whether waiting for a started daemon goes on after `elapsed_secs`
    /// whole seconds.
    pub fn within_ready_deadline(elapsed_secs: u64) -> (b: bool)
        ensures
            b == (elapsed_secs < READY_TIMEOUT_SECS),
    {
        elapsed_secs < READY_TIMEOUT_SECS
    }

    /// The first decision of `connect`: a daemon that already answers on the
    /// port is reused (both daemons speak the same protocol); otherwise one
    /// is started.
    pub fn step_after_probe(&self, daemon_running: bool) -> (r: ConnectStep)
        ensures
            daemon_running ==> r is WaitForExtension,
            !daemon_running ==> r is SpawnDaemon,
    {
        if daemon_running {
            ConnectStep::WaitForExtension
        } else {
            ConnectStep::SpawnDaemon
        }
    }

    /// After waiting for a started daemon: go on to the extension when it
    /// answered, else fail with a timeout.
    pub fn step_after_ready(&self, ready: bool) -> (r: ConnectStep)
        ensures
            ready ==> r is WaitForExtension,
            !ready ==> (r matches ConnectStep::Fail(e) && is_ready_timeout_error(e)),
    {
        if ready {
            ConnectStep::WaitForExtension
        } else {
            let mut message = String::from_str("Daemon did not become ready within ");
            push_decimal_u64(&mut message, READY_TIMEOUT_SECS);
            message.append("s");
            ConnectStep::Fail(CliError::Timeout { message })
        }
    }

    /// After waiting for the extension: open a page when it connected, else
    /// fail, telling the user how to get the extension and where the daemon
    /// listens.
    pub fn step_after_extension(&self, connected: bool) -> (r: ConnectStep)
        ensures
            connected ==> r is OpenPage,
            !connected ==> (r matches ConnectStep::Fail(e) && is_extension_missing_error(
                e,
                self.port,
            )),
    {
        if connected {
            ConnectStep::OpenPage
        } else {
            let mut port_note = String::from_str("The daemon is listening on port ");
            push_decimal_u64(&mut port_note, self.port as u64);
            let mut suggestions: Vec<String> = Vec::new();
            suggestions.push(String::from_str("Install the OpenCLI Chrome extension"));
            suggestions.push(
                String::from_str("Make sure Chrome is running with the extension enabled"),
            );
            suggestions.push(port_note);
            ConnectStep::Fail(
                CliError::BrowserConnect {
                    message: String::from_str("Chrome extension not connected"),
                    suggestions,
                },
            )
        }
    }

    /// The command-line arguments of the daemon process for this bridge:
    /// `--daemon --port <port>`.
    pub fn daemon_args(&self) -> (r: Vec<String>)
        ensures
            r@.len() == 3,
            forall|i: int| 0 <= i < 3 ==> #[trigger] r@[i]@ == daemon_args_of(self.port)[i],
    {
        let mut port = String::new();
        push_decimal_u64(&mut port, self.port as u64);
        let mut r: Vec<String> = Vec::new();
        r.push(String::from_str("--daemon"));
        r.push(String::from_str("--port"));
        r.push(port);
        r
    }
}

/// What to print while waiting for the extension.
#[derive(Debug, Clone, Copy, PartialEq, Eq)]
pub enum WaitNotice {
    /// Print nothing.
    Nothing,
    /// Print "Waiting for Chrome extension to connect".
    Banner,
    /// Print one more dot after the banner.
    Dot,
}

/// The progress display while waiting for the extension to connect.
pub struct ExtensionWait {
    /// Whether the waiting banner was printed (and a line must be ended).
    pub printed_waiting: bool,
}

impl ExtensionWait {
    /// Nothing printed yet.
    pub fn new() -> (r: Self)
        ensures
            !r.printed_waiting,
    {
        ExtensionWait { printed_waiting: false }
    }

    /// Whether the wait goes on after `elapsed_secs` seconds.
    pub fn within_deadline(elapsed_secs: u64) -> (b: bool)
        ensures
            b == (elapsed_secs < EXTENSION_TIMEOUT_SECS),
    {
        elapsed_secs < EXTENSION_TIMEOUT_SECS
    }

    /// What to print after a check found no extension, `elapsed_secs` seconds
    /// into the wait: the banner once two seconds have passed, then a dot in
    /// every check that falls on a whole multiple of three seconds.
    pub fn on_pending(&mut self, elapsed_secs: u64) -> (r: WaitNotice)
        ensures
            !old(self).printed_waiting && elapsed_secs >= 2 ==> r == WaitNotice::Banner
                && final(self).printed_waiting,
            !old(self).printed_waiting && elapsed_secs < 2 ==> r == WaitNotice::Nothing
                && !final(self).printed_waiting,
            old(self).printed_waiting ==> final(self).printed_waiting && r == (if elapsed_secs
                % 3 == 0 {
                WaitNotice::Dot
            } else {
                WaitNotice::Nothing
            }),
    {
        if elapsed_secs >= 2 && !self.printed_waiting {
            self.printed_waiting = true;
            WaitNotice::Banner
        } else if self.printed_waiting && elapsed_secs % 3 == 0 {
            WaitNotice::Dot
        } else {
            WaitNotice::Nothing
        }
    }

    /// Whether the line of dots must be ended when the wait is over.
    pub fn needs_newline(&self) -> (b: bool)
        ensures
            b == self.printed_waiting,
    {
        self.printed_waiting
    }
}

} // verus!
