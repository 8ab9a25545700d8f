use std::cell::RefCell;
use std::collections::HashMap;

use oplhost::app_config::{auth_mode, session_settings, share_config, SHARE_NAME, SMB_PORT};
use oplhost::art::{
    backoff_ms, next_http_step, ArtTally, HttpAttempt, HttpNext, DEFAULT_BASE_URL, DEFAULT_MAX_RETRIES,
};
use oplhost::backends::{root_exit_result, root_script_file, user_exit_result, user_script};
use oplhost::catalog::{is_catalog_file, GAME_DIRS};
use oplhost::dir_hint::{dir_hint, is_opl_subdir_name, DirHint};
use oplhost::iso9660::{game_id_from_system_cnf, system_cnf_extent, SECTOR_SIZE};
use oplhost::{
    art_url, ArtError, ArtFiles, ArtProvider, ArtType, BackendError, GameCfg, GameId, HttpGet,
    ShareAuth, SETTINGS_VERSION,
};

#[test]
fn backoff_doubles_up_to_eight_seconds() {
    assert_eq!(backoff_ms(0), 500);
    assert_eq!(backoff_ms(1), 500);
    assert_eq!(backoff_ms(2), 1000);
    assert_eq!(backoff_ms(3), 2000);
    assert_eq!(backoff_ms(4), 4000);
    assert_eq!(backoff_ms(5), 8000);
    assert_eq!(backoff_ms(u32::MAX), 8000);
}

#[test]
fn http_steps() {
    assert_eq!(next_http_step(HttpAttempt::Success, 0, 3), HttpNext::ReadBody);
    assert_eq!(next_http_step(HttpAttempt::Status(404), 3, 3), HttpNext::NotFound);
    assert_eq!(next_http_step(HttpAttempt::Status(503), 0, 3), HttpNext::Retry { wait_ms: 500 });
    assert_eq!(next_http_step(HttpAttempt::Status(502), 2, 3), HttpNext::Retry { wait_ms: 2000 });
    assert_eq!(next_http_step(HttpAttempt::Status(504), 3, 3), HttpNext::GiveUp);
    assert_eq!(next_http_step(HttpAttempt::Status(500), 0, 3), HttpNext::GiveUp);
    assert_eq!(next_http_step(HttpAttempt::Failed, 0, 3), HttpNext::GiveUp);
    assert_eq!(DEFAULT_MAX_RETRIES, 3);
}

struct MockHttp {
    responses: HashMap<String, Vec<u8>>,
    fail: Option<String>,
}

impl HttpGet for MockHttp {
    fn get(&self, url: &str) -> Result<Option<Vec<u8>>, ArtError> {
        if let Some(f) = &self.fail {
            if url.contains(f.as_str()) {
                return Err(ArtError::Http("boom".into()));
            }
        }
        Ok(self.responses.get(url).cloned())
    }
}

#[derive(Default)]
struct MemArtDir {
    files: RefCell<HashMap<String, Vec<u8>>>,
}

impl ArtFiles for MemArtDir {
    fn has_file(&self, name: &str) -> bool {
        self.files.borrow().contains_key(name)
    }
    fn write_file(&self, name: &str, bytes: &[u8]) -> Result<(), ArtError> {
        self.files.borrow_mut().insert(name.to_string(), bytes.to_vec());
        Ok(())
    }
}

#[test]
fn library_tally_counts_every_game() {
    let a = GameId::parse("SLUS_200.02").unwrap();
    let b = GameId::parse("SCUS_973.13").unwrap();
    let c = GameId::parse("SLES_501.23").unwrap();
    let mut responses = HashMap::new();
    responses.insert(art_url(DEFAULT_BASE_URL, &a, ArtType::Cov, "jpg"), b"A".to_vec());
    let http = MockHttp { responses, fail: Some("SLES_501.23".to_string()) };
    let dir = MemArtDir::default();
    dir.write_file("SCUS_973.13_COV.png", b"old").unwrap();
    let provider = ArtProvider::with_parts(http, DEFAULT_BASE_URL.into(), vec![ArtType::Cov]);
    let ids = vec![Some(a), None, Some(b), Some(c), None];
    let t = provider.fetch_library(&ids, &dir);
    assert_eq!(
        t,
        ArtTally { downloaded: 1, skipped: 1, not_found: 0, no_id: 2, errors: 1 }
    );
}

#[test]
fn root_exit_mapping() {
    assert_eq!(root_exit_result(true, Some(0)), Ok(()));
    assert_eq!(root_exit_result(false, Some(126)), Err(BackendError::PrivilegeDenied));
    assert_eq!(root_exit_result(false, Some(127)), Err(BackendError::PrivilegeDenied));
    assert_eq!(
        root_exit_result(false, Some(1)),
        Err(BackendError::Other("operação root falhou (status 1)".to_string()))
    );
    assert_eq!(
        root_exit_result(false, Some(-3)),
        Err(BackendError::Other("operação root falhou (status -3)".to_string()))
    );
    assert_eq!(
        root_exit_result(false, None),
        Err(BackendError::Other("operação root terminada por sinal".to_string()))
    );
    assert_eq!(root_script_file("echo hi"), "#!/bin/bash\nset -euo pipefail\necho hi\n");
}

#[test]
fn user_exit_mapping() {
    assert_eq!(user_exit_result(true, Some(0)), Ok(()));
    assert_eq!(
        user_exit_result(false, Some(2)),
        Err(BackendError::Other("udpbd-server (systemd --user) falhou (status Some(2))".to_string()))
    );
    assert_eq!(
        user_exit_result(false, None),
        Err(BackendError::Other("udpbd-server (systemd --user) falhou (status None)".to_string()))
    );
    assert_eq!(user_script("true"), "set -euo pipefail\ntrue\n");
}

#[test]
fn dir_hints() {
    assert_eq!(dir_hint("", None, None, false), DirHint::Empty);
    assert_eq!(
        dir_hint("/mnt/ps2/CD", Some("CD"), Some("/mnt/ps2"), true),
        DirHint::Subdir { name: "CD".to_string(), parent: Some("/mnt/ps2".to_string()) }
    );
    assert_eq!(
        dir_hint("CD", Some("CD"), Some(""), false),
        DirHint::Subdir { name: "CD".to_string(), parent: None }
    );
    assert_eq!(dir_hint("/mnt/ps2", Some("ps2"), Some("/mnt"), true), DirHint::Detected);
    assert_eq!(dir_hint("/mnt/ps2", Some("ps2"), Some("/mnt"), false), DirHint::WillCreate);
    assert_eq!(dir_hint("/", None, None, false), DirHint::WillCreate);
    assert!(is_opl_subdir_name("POPS"));
    assert!(!is_opl_subdir_name("cd"));
    assert!(!is_opl_subdir_name("GAMES"));
}

#[test]
fn share_and_settings_from_the_form() {
    let auth = auth_mode(true, "maicom".to_string());
    assert_eq!(auth, ShareAuth::User { username: "maicom".to_string() });
    assert_eq!(auth_mode(false, "maicom".to_string()), ShareAuth::Guest);
    let c = share_config("/mnt/ps2", auth.clone(), "maicom".to_string());
    assert_eq!(c.share_name, SHARE_NAME);
    assert_eq!(c.port, SMB_PORT);
    assert_eq!(c.port, 445);
    assert_eq!(c.target_dir, "/mnt/ps2");
    assert_eq!(c.auth, auth);
    let s = session_settings(Some("/mnt/ps2".to_string()), true, "maicom".to_string());
    assert_eq!(s.version, SETTINGS_VERSION);
    assert_eq!(s.auth_username.as_deref(), Some("maicom"));
    assert!(s.auth_required);
}

fn make_record(name: &str, extent: u32, size: u32, is_dir: bool) -> Vec<u8> {
    let name_bytes = name.as_bytes();
    let len = 33 + name_bytes.len();
    let mut rec = vec![0u8; len];
    rec[0] = len as u8;
    rec[2..6].copy_from_slice(&extent.to_le_bytes());
    rec[10..14].copy_from_slice(&size.to_le_bytes());
    rec[25] = if is_dir { 0x02 } else { 0x00 };
    rec[32] = name_bytes.len() as u8;
    rec[33..].copy_from_slice(name_bytes);
    rec
}

#[test]
fn system_cnf_is_found_in_the_root_directory() {
    let mut data = make_record("\u{0}", 17, 2048, true);
    data.extend(make_record("SYSTEM.CNF", 30, 0, true));
    data.extend(make_record("SYSTEM.CNF;1", 18, 64, false));
    data.resize(SECTOR_SIZE, 0);
    assert_eq!(system_cnf_extent(&data), Some((18, 64)));
    assert_eq!(system_cnf_extent(&make_record("OTHER;1", 1, 1, false)), None);
    let cnf = b"BOOT2 = cdrom0:\\SLUS_213.86;1\nVER = 1.00\n";
    assert_eq!(game_id_from_system_cnf(cnf).unwrap().as_str(), "SLUS_213.86");
    assert!(game_id_from_system_cnf(b"\xff\xfe").is_none());
}

#[test]
fn catalog_files() {
    assert_eq!(GAME_DIRS, ["CD", "DVD"]);
    assert!(is_catalog_file(true, 10, "a.iso"));
    assert!(is_catalog_file(true, 10, "a.ZSO"));
    assert!(!is_catalog_file(true, 0, "vazio.iso"));
    assert!(!is_catalog_file(false, 10, "dir.iso"));
    assert!(!is_catalog_file(true, 4, "LEIAME.txt"));
    assert!(!is_catalog_file(true, 4, "games"));
}

#[test]
fn cfg_round_trip_on_plain_text() {
    for raw in ["", "A=1\n", "$Compatibility=2\nGenre=Action\nLinhaEstranhaSemIgual\n\n", "K= v \n"] {
        assert_eq!(GameCfg::parse(raw).to_string(), raw);
    }
}
