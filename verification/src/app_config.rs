//! What the interface builds from its state: the share configuration, the
//! access mode and the settings kept between runs. The user name comes from
//! the environment and is handed in.
use vstd::prelude::*;
use crate::domain::{ShareAuth, ShareConfig};
use crate::settings::{AppSettings, SETTINGS_VERSION};

verus! {

/// Name of the exposed share.
pub const SHARE_NAME: &'static str = "PS2SMB";

/// Port of the SMB service.
pub const SMB_PORT: u16 = 445;

/// The share of a target folder: the fixed name and port, owned by `owner`
/// (the `force user` of the share).
pub fn share_config(target: &str, auth: ShareAuth, owner: String) -> (r: ShareConfig)
    ensures
        r.target_dir@ == target@,
        r.share_name@ == SHARE_NAME@,
        r.port == SMB_PORT,
        r.owner_user == owner,
        r.auth == auth,
{
    ShareConfig {
        target_dir: target.to_owned(),
        share_name: SHARE_NAME.to_owned(),
        port: SMB_PORT,
        owner_user: owner,
        auth,
    }
}

/// Access mode from the interface's toggle: authenticated as the folder's
/// owner when on, guest (the default) when off.
pub fn auth_mode(enabled: bool, user: String) -> (r: ShareAuth)
    ensures
        enabled ==> r == (ShareAuth::User { username: user }),
        !enabled ==> r is Guest,
{
    if enabled {
        ShareAuth::User { username: user }
    } else {
        ShareAuth::Guest
    }
}

/// The settings kept after a successful operation: the folder and the toggle,
/// with the share user. Never a password.
pub fn session_settings(last_target_dir: Option<String>, auth_required: bool, user: String) -> (r:
    AppSettings)
    ensures
        r.version == SETTINGS_VERSION,
        r.last_target_dir == last_target_dir,
        r.auth_required == auth_required,
        r.auth_username == Some(user),
{
    AppSettings {
        version: SETTINGS_VERSION,
        last_target_dir,
        auth_required,
        auth_username: Some(user),
    }
}

} // verus!
