//! Domain types shared by the layers.
use vstd::prelude::*;
use crate::text::{push_decimal, push_str};

verus! {

/// Observable state of the storage server (any backend).
#[derive(Debug, Clone, PartialEq, Eq)]
pub enum ServerStatus {
    Running,
    Stopped,
    /// Failure, with a message that tells the user how to fix it.
    Error(String),
}

/// Access mode of the share. `Guest` (anonymous) is the default, as the loader
/// connects out of the box. `User` requires a Samba login; the password never
/// lives here, only the mode and the user name.
#[derive(Debug, Clone, PartialEq, Eq)]
pub enum ShareAuth {
    /// Free (guest/anonymous) access. Default.
    Guest,
    /// Access authenticated as an existing Samba user of the system.
    User { username: String },
}

impl Default for ShareAuth {
    fn default() -> (r: Self)
        ensures
            r is Guest,
    {
        ShareAuth::Guest
    }
}

/// Configuration of a share, independent of the backend.
#[derive(Debug, Clone, PartialEq, Eq)]
pub struct ShareConfig {
    /// Root chosen by the user where the loader's folders live.
    pub target_dir: String,
    /// Name of the exposed share (e.g. `"PS2SMB"`).
    pub share_name: String,
    /// Port of the service (445 by default for SMB).
    pub port: u16,
    /// Owner of the folder, used as `force user` by the SMB backend.
    pub owner_user: String,
    /// Access mode: guest (default) or user and password.
    pub auth: ShareAuth,
}

/// UDP port of the UDPBD server.
pub const UDPBD_PORT: u16 = 48573;

/// Configuration of the UDPBD backend: the block device or image it serves.
#[derive(Debug, Clone, PartialEq, Eq)]
pub struct UdpbdConfig {
    pub device: String,
}

/// Failure of a storage backend operation, descriptive enough for the user
/// interface to guide the user.
#[derive(Debug, Clone, PartialEq, Eq)]
pub enum BackendError {
    /// The root operation was denied or cancelled at the Polkit prompt.
    PrivilegeDenied,
    /// The port is already used by another service.
    PortInUse(u16),
    /// Any other failure, with context.
    Other(String),
}

impl BackendError {
    /// The message shown for the error.
    pub fn message(&self) -> (r: String)
        ensures
            r@ == (match self {
                BackendError::PrivilegeDenied => "privilégio root negado (Polkit)"@,
                BackendError::PortInUse(p) => "porta "@ + crate::text::decimal(*p as nat)
                    + " em uso por outro serviço"@,
                BackendError::Other(m) => m@,
            }),
    {
        match self {
            BackendError::PrivilegeDenied => "privilégio root negado (Polkit)".to_owned(),
            BackendError::PortInUse(p) => {
                let mut s = "porta ".to_owned();
                push_decimal(&mut s, *p as u64);
                push_str(&mut s, " em uso por outro serviço");
                s
            },
            BackendError::Other(m) => m.clone(),
        }
    }
}

} // verus!
