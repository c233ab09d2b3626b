//! The error types of the settings editor and what they say.

use vstd::prelude::*;
use vstd::string::*;

verus! {

/// Why loading, saving or validating the settings failed.
#[derive(Clone, Debug, PartialEq, Eq)]
pub enum SettingsError {
    /// A file could not be read or written (the system's message).
    Io(String),
    /// The JSON store could not be read or written (the serialiser's message).
    Json(String),
    /// The managed KDL did not parse (the parser's message).
    Kdl(String),
    /// `niri validate` rejected the configuration (its diagnostics).
    Validation(String),
}

impl SettingsError {
    pub open spec fn message_spec(self) -> Seq<char> {
        match self {
            SettingsError::Io(m) => "IO error: "@ + m@,
            SettingsError::Json(m) => "JSON serialisation error: "@ + m@,
            SettingsError::Kdl(m) => "invalid managed KDL: "@ + m@,
            SettingsError::Validation(m) => "niri rejected the configuration:\n"@ + m@,
        }
    }

    /// The user-facing description of the error.
    pub fn message(&self) -> (r: String)
        ensures
            r@ == self.message_spec(),
    {
        let (head, m) = match self {
            SettingsError::Io(m) => ("IO error: ", m),
            SettingsError::Json(m) => ("JSON serialisation error: ", m),
            SettingsError::Kdl(m) => ("invalid managed KDL: ", m),
            SettingsError::Validation(m) => ("niri rejected the configuration:\n", m),
        };
        let mut r = String::from_str(head);
        r.append(m.as_str());
        r
    }
}

/// Why a query over the niri IPC socket failed.
#[derive(Clone, Debug, PartialEq, Eq)]
pub enum IpcError {
    SocketEnvMissing,
    Connect(String),
    Send(String),
    Recv(String),
    Parse(String),
}

impl IpcError {
    pub open spec fn message_spec(self) -> Seq<char> {
        match self {
            IpcError::SocketEnvMissing => "$NIRI_SOCKET environment variable not set"@,
            IpcError::Connect(m) => "failed to connect to niri IPC socket: "@ + m@,
            IpcError::Send(m) => "IPC send failed: "@ + m@,
            IpcError::Recv(m) => "IPC recv failed: "@ + m@,
            IpcError::Parse(m) => "IPC JSON parse error: "@ + m@,
        }
    }

    /// The user-facing description of the error.
    pub fn message(&self) -> (r: String)
        ensures
            r@ == self.message_spec(),
    {
        match self {
            IpcError::SocketEnvMissing => String::from_str(
                "$NIRI_SOCKET environment variable not set",
            ),
            IpcError::Connect(m) => {
                let mut r = String::from_str("failed to connect to niri IPC socket: ");
                r.append(m.as_str());
                r
            },
            IpcError::Send(m) => {
                let mut r = String::from_str("IPC send failed: ");
                r.append(m.as_str());
                r
            },
            IpcError::Recv(m) => {
                let mut r = String::from_str("IPC recv failed: ");
                r.append(m.as_str());
                r
            },
            IpcError::Parse(m) => {
                let mut r = String::from_str("IPC JSON parse error: ");
                r.append(m.as_str());
                r
            },
        }
    }
}

/// Application-level failures.
#[derive(Clone, Debug, PartialEq, Eq)]
pub enum ShellError {
    GtkInit,
    Ipc(IpcError),
    Settings(SettingsError),
}

impl ShellError {
    pub open spec fn message_spec(self) -> Seq<char> {
        match self {
            ShellError::GtkInit => "gtk failed to initialize"@,
            ShellError::Ipc(e) => "ipc error: "@ + e.message_spec(),
            ShellError::Settings(e) => "settings error: "@ + e.message_spec(),
        }
    }

    /// The user-facing description of the error.
    pub fn message(&self) -> (r: String)
        ensures
            r@ == self.message_spec(),
    {
        match self {
            ShellError::GtkInit => String::from_str("gtk failed to initialize"),
            ShellError::Ipc(e) => {
                let mut r = String::from_str("ipc error: ");
                let m = e.message();
                r.append(m.as_str());
                r
            },
            ShellError::Settings(e) => {
                let mut r = String::from_str("settings error: ");
                let m = e.message();
                r.append(m.as_str());
                r
            },
        }
    }
}

} // verus!
