//! Locations and contents of the files the adapters keep: the per-game
//! `CFG/<GameID>.cfg`, the user's `config.json` and the target's
//! `opl_meta.json`. The reading and writing itself happens outside; what is
//! written is computed here.
use vstd::prelude::*;
use crate::game_id::GameId;
use crate::game_info::{
    cfg_apply_info, cfg_file_name, cfg_text, error_pairs, field_errors, opt_view, parse_cfg,
    FieldError, GameCfg, GameInfo, GameInfoError, KEY_DESCRIPTION, KEY_DEVELOPER, KEY_GENRE,
    KEY_RELEASE, KEY_TITLE,
};
use crate::paths::{join, join_path};

verus! {

/// Folder of the loader that holds the per-game `.cfg` files.
pub const CFG_DIR_NAME: &'static str = "CFG";

/// Name of the settings file under the application's folder.
pub const CONFIG_FILE_NAME: &'static str = "config.json";

/// The application's folder inside the user's config folder.
pub const APP_DIR_NAME: &'static str = "oplhost";

/// Name of the cache file at the root of the target.
pub const META_FILE_NAME: &'static str = "opl_meta.json";

/// Keeps the game information in `<target>/CFG/<GameID>.cfg`.
#[derive(Debug, Clone)]
pub struct FsGameInfoStore {
    cfg_dir: String,
}

impl View for FsGameInfoStore {
    type V = Seq<char>;

    closed spec fn view(&self) -> Seq<char> {
        self.cfg_dir@
    }
}

/// All fields of the information pass validation.
pub open spec fn info_is_valid(info: GameInfo) -> bool {
    (field_errors(KEY_TITLE@, opt_view(info.title)) + field_errors(
        KEY_GENRE@,
        opt_view(info.genre),
    ) + field_errors(KEY_RELEASE@, opt_view(info.release)) + field_errors(
        KEY_DEVELOPER@,
        opt_view(info.developer),
    ) + field_errors(KEY_DESCRIPTION@, opt_view(info.description))).len() == 0
}

impl FsGameInfoStore {
    /// A store for `<target_dir>/CFG`.
    pub fn new(target_dir: &str) -> (r: Self)
        ensures
            r@ == join(target_dir@, CFG_DIR_NAME@),
    {
        FsGameInfoStore { cfg_dir: join_path(target_dir, CFG_DIR_NAME) }
    }

    /// The folder of the `.cfg` files.
    pub fn cfg_dir(&self) -> (r: &str)
        ensures
            r@ == self@,
    {
        self.cfg_dir.as_str()
    }

    /// Path of a game's `.cfg` (whether or not it exists).
    pub fn cfg_path(&self, game_id: &GameId) -> (r: String)
        ensures
            r@ == join(self@, game_id@ + ".cfg"@),
    {
        let name = cfg_file_name(game_id);
        join_path(self.cfg_dir.as_str(), name.as_str())
    }

    /// The check saving makes before it touches the disk: `Ok` exactly when
    /// every field is valid, else the field errors.
    pub fn check_info(info: &GameInfo) -> (r: Result<(), GameInfoError>)
        ensures
            r is Ok <==> info_is_valid(*info),
            r matches Err(e) ==> e matches GameInfoError::Invalid(errs) && error_pairs(errs@)
                == field_errors(KEY_TITLE@, opt_view(info.title)) + field_errors(
                KEY_GENRE@,
                opt_view(info.genre),
            ) + field_errors(KEY_RELEASE@, opt_view(info.release)) + field_errors(
                KEY_DEVELOPER@,
                opt_view(info.developer),
            ) + field_errors(KEY_DESCRIPTION@, opt_view(info.description)),
    {
        let errs = info.validate();
        if errs.len() > 0 {
            return Err(GameInfoError::Invalid(errs));
        }
        Ok(())
    }

    /// What saving writes, given the current text of the `.cfg` (empty when
    /// the file is missing): the information is validated first (nothing is
    /// written when a field is invalid), then applied read-modify-write, so
    /// that compatibility settings and other lines stay.
    pub fn save_text(raw_cfg: &str, info: &GameInfo) -> (r: Result<String, GameInfoError>)
        ensures
            match r {
                Ok(text) => info_is_valid(*info) && text@ == cfg_text(
                    cfg_apply_info(parse_cfg(raw_cfg@), *info),
                ),
                Err(GameInfoError::Invalid(errs)) => !info_is_valid(*info) && error_pairs(errs@)
                    == field_errors(KEY_TITLE@, opt_view(info.title)) + field_errors(
                    KEY_GENRE@,
                    opt_view(info.genre),
                ) + field_errors(KEY_RELEASE@, opt_view(info.release)) + field_errors(
                    KEY_DEVELOPER@,
                    opt_view(info.developer),
                ) + field_errors(KEY_DESCRIPTION@, opt_view(info.description)),
                Err(GameInfoError::Io(_)) => false,
            },
    {
        let errs = info.validate();
        if errs.len() > 0 {
            return Err(GameInfoError::Invalid(errs));
        }
        let mut cfg = GameCfg::parse(raw_cfg);
        cfg.apply_info(info);
        Ok(cfg.to_string())
    }

    /// The information held in the text of a `.cfg` (empty text, as for a
    /// missing file, gives empty information).
    pub fn load_text(raw_cfg: &str) -> (r: GameInfo)
        ensures
            opt_view(r.title) == crate::game_info::cfg_get(parse_cfg(raw_cfg@), KEY_TITLE@),
            opt_view(r.genre) == crate::game_info::cfg_get(parse_cfg(raw_cfg@), KEY_GENRE@),
            opt_view(r.release) == crate::game_info::cfg_get(parse_cfg(raw_cfg@), KEY_RELEASE@),
            opt_view(r.developer) == crate::game_info::cfg_get(
                parse_cfg(raw_cfg@),
                KEY_DEVELOPER@,
            ),
            opt_view(r.description) == crate::game_info::cfg_get(
                parse_cfg(raw_cfg@),
                KEY_DESCRIPTION@,
            ),
    {
        GameCfg::parse(raw_cfg).info()
    }
}

/// Keeps the interface state in `<config dir>/oplhost/config.json`.
#[derive(Debug, Clone)]
pub struct FsSettingsStore {
    file_path: String,
}

impl View for FsSettingsStore {
    type V = Seq<char>;

    closed spec fn view(&self) -> Seq<char> {
        self.file_path@
    }
}

/// The user's config folder by the XDG rule: `$XDG_CONFIG_HOME` when set and
/// absolute, otherwise `$HOME/.config`.
pub open spec fn config_base(xdg: Option<Seq<char>>, home: Option<Seq<char>>) -> Option<Seq<char>> {
    match xdg {
        Some(x) if x.len() > 0 && x[0] == '/' => Some(x),
        _ => match home {
            Some(h) => Some(join(h, ".config"@)),
            None => None,
        },
    }
}

impl FsSettingsStore {
    /// The store for the given values of `$XDG_CONFIG_HOME` and `$HOME`:
    /// `<config dir>/oplhost/config.json`, or `None` when neither gives a
    /// folder (the interface then runs without persistence).
    pub fn from_env_values(xdg_config_home: Option<&str>, home: Option<&str>) -> (r: Option<Self>)
        ensures
            match config_base(
                match xdg_config_home {
                    Some(x) => Some(x@),
                    None => None,
                },
                match home {
                    Some(h) => Some(h@),
                    None => None,
                },
            ) {
                Some(base) => r matches Some(s) && s@ == join(
                    join(base, APP_DIR_NAME@),
                    CONFIG_FILE_NAME@,
                ),
                None => r is None,
            },
    {
        let base = match xdg_config_home {
            Some(x) if x.unicode_len() > 0 && x.get_char(0) == '/' => x.to_owned(),
            _ => match home {
                Some(h) => join_path(h, ".config"),
                None => {
                    return None;
                },
            },
        };
        let dir = join_path(base.as_str(), APP_DIR_NAME);
        Some(FsSettingsStore { file_path: join_path(dir.as_str(), CONFIG_FILE_NAME) })
    }

    /// A store at an explicit path.
    pub fn with_path(file_path: String) -> (r: Self)
        ensures
            r@ == file_path@,
    {
        FsSettingsStore { file_path }
    }

    /// Path of the managed file.
    pub fn path(&self) -> (r: &str)
        ensures
            r@ == self@,
    {
        self.file_path.as_str()
    }
}

/// Keeps `opl_meta.json` in the target folder.
#[derive(Debug, Clone)]
pub struct JsonMetaStore {
    file_path: String,
}

impl View for JsonMetaStore {
    type V = Seq<char>;

    closed spec fn view(&self) -> Seq<char> {
        self.file_path@
    }
}

impl JsonMetaStore {
    /// A store for `<target_dir>/opl_meta.json`.
    pub fn new(target_dir: &str) -> (r: Self)
        ensures
            r@ == join(target_dir@, META_FILE_NAME@),
    {
        JsonMetaStore { file_path: join_path(target_dir, META_FILE_NAME) }
    }

    /// Path of the managed file.
    pub fn path(&self) -> (r: &str)
        ensures
            r@ == self@,
    {
        self.file_path.as_str()
    }
}

} // verus!
