use oplhost::handlers::{
    edited_row_title, editor_compat, handle_choose_dir, handle_download_art, handle_toggle_server,
    non_empty, CompatChecks, ServerCommand, ServerForm, MSG_CHOOSE_DIR_BEFORE_ACTIVATE,
    MSG_CHOOSE_DIR_BEFORE_ART, MSG_SET_PASSWORD,
};
use oplhost::i18n::detect_lang;
use oplhost::shell::sh_squote;
use oplhost::{
    CompatFlags, CompatMode, FsGameInfoStore, FsSettingsStore, GameId, GameInfo, GameInfoError,
    JsonMetaStore, Lang, UiUpdate,
};

fn form(dir: &str, auth: bool, pw: &str, active: bool) -> ServerForm {
    ServerForm {
        dir_path: dir.to_string(),
        auth_enabled: auth,
        auth_password: pw.to_string(),
        server_active: active,
    }
}

#[test]
fn toggle_deactivates_when_applied() {
    assert_eq!(
        handle_toggle_server(&form(" /mnt/ps2 ", true, "", true)),
        ServerCommand::Deactivate { target: " /mnt/ps2 ".to_string(), auth_enabled: true }
    );
}

#[test]
fn toggle_asks_for_a_folder_first() {
    assert_eq!(
        handle_toggle_server(&form("   ", false, "", false)),
        ServerCommand::Refuse(MSG_CHOOSE_DIR_BEFORE_ACTIVATE)
    );
    assert_eq!(MSG_CHOOSE_DIR_BEFORE_ACTIVATE, "msg-choose-dir-before-activate");
}

#[test]
fn toggle_asks_for_a_password_when_authenticated() {
    assert_eq!(
        handle_toggle_server(&form("/mnt/ps2", true, "  ", false)),
        ServerCommand::Refuse(MSG_SET_PASSWORD)
    );
}

#[test]
fn toggle_activates_with_the_trimmed_folder() {
    assert_eq!(
        handle_toggle_server(&form("  /mnt/ps2\n", true, " s3nha ", false)),
        ServerCommand::Activate {
            target: "/mnt/ps2".to_string(),
            auth_enabled: true,
            password: " s3nha ".to_string(),
        }
    );
    assert_eq!(
        handle_toggle_server(&form("/mnt/ps2", false, "", false)),
        ServerCommand::Activate { target: "/mnt/ps2".to_string(), auth_enabled: false, password: String::new() }
    );
}

#[test]
fn choose_dir_and_download_art_decisions() {
    assert_eq!(handle_choose_dir("  "), None);
    assert_eq!(handle_choose_dir(" /a "), Some("/a".to_string()));
    assert_eq!(handle_download_art(""), Err(MSG_CHOOSE_DIR_BEFORE_ART));
    assert_eq!(handle_download_art(" /a/b "), Ok("/a/b".to_string()));
}

#[test]
fn non_empty_maps_blank_fields_to_none() {
    assert_eq!(non_empty(" \t\n"), None);
    assert_eq!(non_empty("  God of War "), Some("God of War".to_string()));
}

#[test]
fn edited_title_falls_back_to_the_file() {
    assert_eq!(edited_row_title(Some("T"), "SLUS_200.02.God of War.iso"), "T");
    assert_eq!(edited_row_title(None, "SLUS_200.02.God of War.iso"), "God of War");
    assert_eq!(edited_row_title(None, ".iso"), ".iso");
}

#[test]
fn editor_keeps_the_bits_without_checkbox() {
    let base = CompatFlags::parse("197"); // 0x80 | 0x40 | 0x04 | 0x01
    let checks = CompatChecks { mode1: false, mode2: true, mode3: true, mode4: false, mode5: false, mode6: true };
    let f = editor_compat(base, checks);
    assert_eq!(f.to_config_value(), Some((0xC0u8 | 0x02 | 0x04 | 0x20).to_string()));
    assert!(!f.is_set(CompatMode::AccurateReads));
    let none = CompatChecks { mode1: false, mode2: false, mode3: false, mode4: false, mode5: false, mode6: false };
    assert!(editor_compat(CompatFlags::default(), none).is_empty());
}

#[test]
fn language_from_locale() {
    assert_eq!(detect_lang(Some("pt_BR.UTF-8"), Some("en_US"), None), Lang::PtBr);
    assert_eq!(detect_lang(None, Some("PT_pt"), Some("en")), Lang::PtBr);
    assert_eq!(detect_lang(None, None, Some("en_US.UTF-8")), Lang::EnUs);
    assert_eq!(detect_lang(Some(""), Some("pt_BR"), None), Lang::EnUs);
    assert_eq!(detect_lang(None, None, None), Lang::EnUs);
    assert_eq!(Lang::PtBr.bcp47(), "pt-BR");
    assert_eq!(Lang::EnUs.bcp47(), "en-US");
    assert_eq!(Lang::EnUs.slint_code(), "en");
}

#[test]
fn ui_update_default_and_message() {
    let d = UiUpdate::default();
    assert!(d.status.is_none() && d.rows.is_none() && d.message.is_empty());
    let m = UiUpdate::message("erro".to_string());
    assert_eq!(m.message, "erro");
    assert!(m.active.is_none() && m.dir.is_none() && m.hint.is_none());
}

#[test]
fn store_paths() {
    let id = GameId::parse("SLUS_200.02").unwrap();
    let s = FsGameInfoStore::new("/mnt/ps2");
    assert_eq!(s.cfg_dir(), "/mnt/ps2/CFG");
    assert_eq!(s.cfg_path(&id), "/mnt/ps2/CFG/SLUS_200.02.cfg");
    assert_eq!(JsonMetaStore::new("/mnt/ps2/").path(), "/mnt/ps2/opl_meta.json");
    assert_eq!(
        FsSettingsStore::from_env_values(Some("/x/cfg"), Some("/home/u")).unwrap().path(),
        "/x/cfg/oplhost/config.json"
    );
    assert_eq!(
        FsSettingsStore::from_env_values(Some("rel"), Some("/home/u")).unwrap().path(),
        "/home/u/.config/oplhost/config.json"
    );
    assert!(FsSettingsStore::from_env_values(None, None).is_none());
    assert_eq!(FsSettingsStore::with_path("/a/b.json".to_string()).path(), "/a/b.json");
}

#[test]
fn save_text_keeps_compatibility_and_validates() {
    let info = GameInfo { title: Some("Novo".into()), ..Default::default() };
    let out = FsGameInfoStore::save_text("$Compatibility=5\nTitle=Velho\n", &info).unwrap();
    assert_eq!(out, "$Compatibility=5\nTitle=Novo\n");
    assert_eq!(FsGameInfoStore::load_text(&out).title.as_deref(), Some("Novo"));
    let bad = GameInfo { title: Some("a\nb".into()), ..Default::default() };
    assert!(matches!(FsGameInfoStore::save_text("", &bad), Err(GameInfoError::Invalid(_))));
    assert_eq!(FsGameInfoStore::load_text(""), GameInfo::default());
}

#[test]
fn single_quotes_survive_the_shell() {
    assert_eq!(sh_squote("it's"), r"'it'\''s'");
    assert_eq!(sh_squote(""), "''");
    assert_eq!(sh_squote("plain"), "'plain'");
}
