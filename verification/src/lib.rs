//! `oplhost`: hosts a PlayStation 2 game library for Open PS2 Loader over the
//! network. The library holds the rules: the loader's folder layout, the
//! catalog and its cache, game ids read from disc images, the per-game `.cfg`
//! metadata and compatibility modes, the root scripts that apply and revert
//! the SMB share or supervise the UDPBD server, and the decisions of the
//! interface. Disc, network, processes and the window stay outside, behind the
//! ports declared here.
use vstd::prelude::*;

pub mod text;
pub mod paths;
pub mod catalog;
pub mod game_id;
pub mod game_info;
pub mod compat;
pub mod release;
pub mod iso9660;
pub mod domain;
pub mod ports;
pub mod opl_layout;
pub mod meta;
pub mod settings;
pub mod firewall;
pub mod shell;
pub mod smb_script;
pub mod udpbd_script;
pub mod art;
pub mod stores;
pub mod backends;
pub mod dialog;
pub mod ui_update;
pub mod i18n;
pub mod handlers;
pub mod app_config;
pub mod dir_hint;

pub use catalog::{summarize, CatalogSummary, GameEntry, Media};
pub use compat::{CompatFlags, CompatMode, CONFIG_ITEM_COMPAT};
pub use domain::{BackendError, ServerStatus, ShareAuth, ShareConfig, UdpbdConfig, UDPBD_PORT};
pub use game_id::{derive_title, is_game_image_name, parse_boot2_game_id, GameId};
pub use game_info::{
    cfg_file_name, FieldError, FieldErrorKind, GameCfg, GameInfo, GameInfoError, GameInfoStore,
    OPL_VALUE_MAX_LEN,
};
pub use release::{normalize_release, ReleaseError};
pub use meta::{GameMeta, MediaKind, MetaError, MetaStore, OplMeta};
pub use opl_layout::{create_opl_layout, opl_dir_paths, OPL_DIRS};
pub use ports::{Fs, StorageBackend};
pub use settings::{AppSettings, SettingsError, SettingsStore, SETTINGS_VERSION};
pub use art::{art_dest_name, art_url, ArtError, ArtFiles, ArtProvider, ArtType, FetchOutcome, HttpGet};
pub use firewall::{FirewallManager, Protocol};
pub use stores::{FsGameInfoStore, FsSettingsStore, JsonMetaStore};
pub use smb_script::{build_apply_script, build_rollback_script, build_smb_conf, SmbPaths};
pub use backends::{
    PrivilegeEscalator, ServerCheck, SmbBackend, UdpbdBackend, UserShell, DEFAULT_SERVER_BIN,
};
pub use udpbd_script::needs_root;
pub use ui_update::{RowData, UiUpdate};
pub use i18n::Lang;
