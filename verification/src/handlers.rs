//! The decisions behind the window's buttons: what the input asks for, or the
//! message key that explains why nothing is started. The work itself (Polkit,
//! network, the dialog) runs elsewhere; these only look at the form.
use vstd::prelude::*;
use crate::compat::{mode_bit, CompatFlags, CompatMode};
use crate::game_id::{derive_title, derived_title};
use crate::text::{chars_of, string_of, trim, trim_vec};

verus! {

/// Message key: no target folder before activating.
pub const MSG_CHOOSE_DIR_BEFORE_ACTIVATE: &'static str = "msg-choose-dir-before-activate";

/// Message key: authentication on but no password.
pub const MSG_SET_PASSWORD: &'static str = "msg-set-password";

/// Message key: no target folder before downloading covers.
pub const MSG_CHOOSE_DIR_BEFORE_ART: &'static str = "msg-choose-dir-before-art";

/// What the server form holds when the toggle is clicked.
#[derive(Debug, Clone, PartialEq, Eq)]
pub struct ServerForm {
    pub dir_path: String,
    pub auth_enabled: bool,
    pub auth_password: String,
    /// Whether the configuration is applied now (the toggle's state).
    pub server_active: bool,
}

/// What the toggle asks for.
#[derive(Debug, Clone, PartialEq, Eq)]
pub enum ServerCommand {
    /// Apply the share on the (trimmed) target folder.
    Activate { target: String, auth_enabled: bool, password: String },
    /// Roll everything back.
    Deactivate { target: String, auth_enabled: bool },
    /// Start nothing; show the message of this key.
    Refuse(&'static str),
}

/// The single server toggle: rolls back when the configuration is applied,
/// applies it otherwise. Applying needs a target folder, and a password when
/// authentication is on.
pub fn handle_toggle_server(form: &ServerForm) -> (r: ServerCommand)
    ensures
        form.server_active ==> (r matches ServerCommand::Deactivate { target, auth_enabled }
            && target@ == form.dir_path@ && auth_enabled == form.auth_enabled),
        !form.server_active && trim(form.dir_path@).len() == 0 ==> (r matches ServerCommand::Refuse(
            k,
        ) && k@ == MSG_CHOOSE_DIR_BEFORE_ACTIVATE@),
        !form.server_active && trim(form.dir_path@).len() != 0 && form.auth_enabled && trim(
            form.auth_password@,
        ).len() == 0 ==> (r matches ServerCommand::Refuse(k) && k@ == MSG_SET_PASSWORD@),
        !form.server_active && trim(form.dir_path@).len() != 0 && !(form.auth_enabled && trim(
            form.auth_password@,
        ).len() == 0) ==> (r matches ServerCommand::Activate { target, auth_enabled, password }
            && target@ == trim(form.dir_path@) && auth_enabled == form.auth_enabled && password@
            == form.auth_password@),
{
    if form.server_active {
        return ServerCommand::Deactivate {
            target: form.dir_path.clone(),
            auth_enabled: form.auth_enabled,
        };
    }
    let dir = trim_vec(&chars_of(form.dir_path.as_str()));
    if dir.len() == 0 {
        return ServerCommand::Refuse(MSG_CHOOSE_DIR_BEFORE_ACTIVATE);
    }
    let pw = trim_vec(&chars_of(form.auth_password.as_str()));
    if form.auth_enabled && pw.len() == 0 {
        return ServerCommand::Refuse(MSG_SET_PASSWORD);
    }
    ServerCommand::Activate {
        target: string_of(&dir),
        auth_enabled: form.auth_enabled,
        password: form.auth_password.clone(),
    }
}

/// `Some(trim(s))` when that is not empty.
pub open spec fn non_empty_spec(s: Seq<char>) -> Option<Seq<char>> {
    if trim(s).len() == 0 {
        None
    } else {
        Some(trim(s))
    }
}

/// The trimmed text, or `None` when nothing is left: an empty editor field
/// means "remove the key".
pub fn non_empty(s: &str) -> (r: Option<String>)
    ensures
        match r {
            Some(t) => non_empty_spec(s@) == Some(t@),
            None => non_empty_spec(s@) is None,
        },
{
    let t = trim_vec(&chars_of(s));
    if t.len() == 0 {
        None
    } else {
        Some(string_of(&t))
    }
}

/// "Choose folder": the folder the picker starts in, the typed path when
/// there is one.
pub fn handle_choose_dir(dir_path: &str) -> (r: Option<String>)
    ensures
        match r {
            Some(t) => non_empty_spec(dir_path@) == Some(t@),
            None => non_empty_spec(dir_path@) is None,
        },
{
    non_empty(dir_path)
}

/// "Download covers": the trimmed target folder, or the message key when
/// there is none.
pub fn handle_download_art(dir_path: &str) -> (r: Result<String, &'static str>)
    ensures
        trim(dir_path@).len() == 0 ==> (r matches Err(k) && k@ == MSG_CHOOSE_DIR_BEFORE_ART@),
        trim(dir_path@).len() != 0 ==> (r matches Ok(t) && t@ == trim(dir_path@)),
{
    match non_empty(dir_path) {
        Some(t) => Ok(t),
        None => Err(MSG_CHOOSE_DIR_BEFORE_ART),
    }
}

/// The title a catalog row shows after its metadata was saved: the title
/// written, else the one derived from the file name, else the file name.
pub open spec fn edited_title_spec(title: Option<Seq<char>>, file_name: Seq<char>) -> Seq<char> {
    match title {
        Some(t) => t,
        None => if derived_title(file_name).len() == 0 {
            file_name
        } else {
            derived_title(file_name)
        },
    }
}

/// Title of an edited row, so that the list matches what the loader will
/// show without reading the disc again.
pub fn edited_row_title(title: Option<&str>, file_name: &str) -> (r: String)
    ensures
        r@ == edited_title_spec(
            match title {
                Some(t) => Some(t@),
                None => None,
            },
            file_name@,
        ),
{
    match title {
        Some(t) => t.to_owned(),
        None => {
            let derived = derive_title(file_name);
            if derived.as_str().is_empty() {
                file_name.to_owned()
            } else {
                derived
            }
        },
    }
}

/// Sets or clears one mode bit.
pub open spec fn with_mode(flags: u8, mode: CompatMode, on: bool) -> u8 {
    if on {
        flags | mode_bit(mode)
    } else {
        flags & !mode_bit(mode)
    }
}

/// Setting or clearing a labelled mode leaves the two high bits (`0x40`,
/// `0x80`) as they were.
pub proof fn lemma_with_mode_keeps_high(f: u8, mode: CompatMode, on: bool)
    ensures
        with_mode(f, mode, on) & 0xC0u8 == f & 0xC0u8,
{
    let m = mode_bit(mode);
    assert(m & 0xC0u8 == 0u8) by (bit_vector)
        requires
            m == 1u8 || m == 2u8 || m == 4u8 || m == 8u8 || m == 16u8 || m == 32u8,
    ;
    if on {
        assert((f | m) & 0xC0u8 == f & 0xC0u8) by (bit_vector)
            requires
                m & 0xC0u8 == 0u8,
        ;
    } else {
        assert((f & !m) & 0xC0u8 == f & 0xC0u8) by (bit_vector)
            requires
                m & 0xC0u8 == 0u8,
        ;
    }
}

/// The six checkboxes of the editor, mode 1 to mode 6.
#[derive(Debug, Clone, Copy, PartialEq, Eq)]
pub struct CompatChecks {
    pub mode1: bool,
    pub mode2: bool,
    pub mode3: bool,
    pub mode4: bool,
    pub mode5: bool,
    pub mode6: bool,
}

/// The mask the editor saves: the six checkboxes written over the mask read
/// from disc, so that the two bits with no checkbox survive.
pub open spec fn editor_mask(base: u8, c: CompatChecks) -> u8 {
    with_mode(
        with_mode(
            with_mode(
                with_mode(
                    with_mode(with_mode(base, CompatMode::AccurateReads, c.mode1), CompatMode::SynchronousMode, c.mode2),
                    CompatMode::UnhookSyscalls,
                    c.mode3,
                ),
                CompatMode::SkipVideos,
                c.mode4,
            ),
            CompatMode::EmulateDvdDl,
            c.mode5,
        ),
        CompatMode::DisableIgr,
        c.mode6,
    )
}

/// Applies the editor's checkboxes over the current mask.
pub fn editor_compat(base: CompatFlags, checks: CompatChecks) -> (r: CompatFlags)
    ensures
        r@ == editor_mask(base@, checks),
        r@ & 0xC0u8 == base@ & 0xC0u8,
{
    let mut flags = base;
    flags.set(CompatMode::AccurateReads, checks.mode1);
    flags.set(CompatMode::SynchronousMode, checks.mode2);
    flags.set(CompatMode::UnhookSyscalls, checks.mode3);
    flags.set(CompatMode::SkipVideos, checks.mode4);
    flags.set(CompatMode::EmulateDvdDl, checks.mode5);
    flags.set(CompatMode::DisableIgr, checks.mode6);
    proof {
        lemma_with_mode_keeps_high(base@, CompatMode::AccurateReads, checks.mode1);
        let f1 = with_mode(base@, CompatMode::AccurateReads, checks.mode1);
        lemma_with_mode_keeps_high(f1, CompatMode::SynchronousMode, checks.mode2);
        let f2 = with_mode(f1, CompatMode::SynchronousMode, checks.mode2);
        lemma_with_mode_keeps_high(f2, CompatMode::UnhookSyscalls, checks.mode3);
        let f3 = with_mode(f2, CompatMode::UnhookSyscalls, checks.mode3);
        lemma_with_mode_keeps_high(f3, CompatMode::SkipVideos, checks.mode4);
        let f4 = with_mode(f3, CompatMode::SkipVideos, checks.mode4);
        lemma_with_mode_keeps_high(f4, CompatMode::EmulateDvdDl, checks.mode5);
        let f5 = with_mode(f4, CompatMode::EmulateDvdDl, checks.mode5);
        lemma_with_mode_keeps_high(f5, CompatMode::DisableIgr, checks.mode6);
    }
    flags
}

} // verus!
