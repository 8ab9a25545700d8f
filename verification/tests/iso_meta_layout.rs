use std::cell::RefCell;
use std::collections::HashSet;
use std::path::Path;

use oplhost::iso9660::{
    find_file, name_matches, parse_dir_record, parse_dir_records, parse_root_record, DirRecord,
    SECTOR_SIZE,
};
use oplhost::meta::META_VERSION;
use oplhost::{
    create_opl_layout, opl_dir_paths, summarize, AppSettings, Fs, GameEntry, MediaKind, OplMeta,
    OPL_DIRS, SETTINGS_VERSION,
};

fn make_record(name: &str, extent: u32, size: u32, is_dir: bool) -> Vec<u8> {
    let name_bytes = name.as_bytes();
    let len = 33 + name_bytes.len();
    let mut rec = vec![0u8; len];
    rec[0] = len as u8;
    rec[2..6].copy_from_slice(&extent.to_le_bytes());
    rec[10..14].copy_from_slice(&size.to_le_bytes());
    rec[25] = if is_dir { 0x02 } else { 0x00 };
    rec[32] = name_bytes.len() as u8;
    rec[33..].copy_from_slice(name_bytes);
    rec
}

#[test]
fn parse_dir_record_le_extent_tamanho_e_nome() {
    let rec = make_record("SYSTEM.CNF;1", 24, 96, false);
    let parsed = parse_dir_record(&rec).unwrap();
    assert_eq!(parsed.name, "SYSTEM.CNF;1");
    assert_eq!(parsed.extent_lba, 24);
    assert_eq!(parsed.size, 96);
    assert!(!parsed.is_dir);
}

#[test]
fn name_matches_ignora_versao_e_caixa() {
    assert!(name_matches("SYSTEM.CNF;1", "system.cnf"));
    assert!(name_matches("SYSTEM.CNF", "SYSTEM.CNF"));
    assert!(!name_matches("SYSTEM.INI;1", "SYSTEM.CNF"));
}

#[test]
fn parse_dir_records_varre_multiplos_e_para_no_padding() {
    let mut data = Vec::new();
    data.extend(make_record(".", 20, 2048, true));
    data.extend(make_record("..", 20, 2048, true));
    data.extend(make_record("SYSTEM.CNF;1", 24, 96, false));
    data.resize(SECTOR_SIZE, 0);

    let records = parse_dir_records(&data);
    assert_eq!(records.len(), 3);
    let sys = find_file(&records, "SYSTEM.CNF").unwrap();
    assert_eq!(sys.extent_lba, 24);
    assert_eq!(sys.size, 96);
}

#[test]
fn find_file_ignora_diretorios_com_mesmo_nome() {
    let records = vec![
        DirRecord { name: "SYSTEM.CNF".into(), extent_lba: 1, size: 0, is_dir: true },
        DirRecord { name: "SYSTEM.CNF;1".into(), extent_lba: 2, size: 96, is_dir: false },
    ];
    assert_eq!(find_file(&records, "SYSTEM.CNF").unwrap().extent_lba, 2);
}

#[test]
fn parse_root_record_valida_assinatura_cd001() {
    let mut pvd = vec![0u8; SECTOR_SIZE];
    pvd[0] = 1;
    pvd[1..6].copy_from_slice(b"CD001");
    let root = make_record(".", 20, 2048, true);
    pvd[156..156 + root.len()].copy_from_slice(&root);

    let parsed = parse_root_record(&pvd).unwrap();
    assert_eq!(parsed.extent_lba, 20);
    assert!(parsed.is_dir);

    pvd[1] = b'X';
    assert!(parse_root_record(&pvd).is_none());
}

fn entries() -> Vec<GameEntry> {
    vec![
        GameEntry { file_name: "pequeno.iso".into(), size_bytes: 100 * 1024 * 1024 },
        GameEntry { file_name: "grande.iso".into(), size_bytes: 4 * 1024 * 1024 * 1024 },
    ]
}

#[test]
fn rebuild_from_categoriza_e_preenche_versao() {
    let meta = OplMeta::rebuild_from(&entries());
    assert_eq!(meta.version, META_VERSION);
    assert_eq!(meta.games.len(), 2);
    assert_eq!(meta.games[0].media, MediaKind::Cd);
    assert_eq!(meta.games[1].media, MediaKind::Dvd);
}

#[test]
fn summary_do_cache_bate_com_o_do_catalogo() {
    let es = entries();
    let meta = OplMeta::rebuild_from(&es);
    assert_eq!(meta.summary(), summarize(&es));
    assert!(meta.matches(&es));
}

#[test]
fn matches_falso_quando_o_disco_diverge_do_cache() {
    let meta = OplMeta::rebuild_from(&entries());
    let mut outras = entries();
    outras.pop();
    assert!(!meta.matches(&outras));
}

#[derive(Default)]
struct MockFs {
    created: RefCell<HashSet<String>>,
}

impl Fs for MockFs {
    fn create_dir_all(&self, path: &str) -> std::io::Result<()> {
        self.created.borrow_mut().insert(path.to_string());
        Ok(())
    }
    fn path_exists(&self, path: &str) -> bool {
        self.created.borrow().contains(path)
    }
}

fn joined(root: &str, dir: &str) -> String {
    Path::new(root).join(dir).to_string_lossy().into_owned()
}

#[test]
fn opl_dir_paths_gera_dez_pastas_sob_a_raiz() {
    let root = "/mnt/ps2";
    let paths = opl_dir_paths(root);
    assert_eq!(paths.len(), 10);
    assert!(paths.contains(&joined(root, "CD")));
    assert!(paths.contains(&joined(root, "POPS")));
}

#[test]
fn create_opl_layout_cria_todas_as_pastas_esperadas() {
    let fs = MockFs::default();
    let root = "/mnt/ps2";

    create_opl_layout(&fs, root).unwrap();

    let created = fs.created.borrow();
    assert_eq!(created.len(), OPL_DIRS.len());
    for dir in OPL_DIRS {
        assert!(created.contains(&joined(root, dir)), "pasta {dir} deveria ter sido criada");
    }
}

#[test]
fn create_opl_layout_e_idempotente_no_contrato() {
    let fs = MockFs::default();
    let root = "/mnt/ps2";

    create_opl_layout(&fs, root).unwrap();
    create_opl_layout(&fs, root).unwrap();

    assert_eq!(fs.created.borrow().len(), OPL_DIRS.len());
}

#[test]
fn default_preenche_versao_e_zera_campos() {
    let s = AppSettings::default();
    assert_eq!(s.version, SETTINGS_VERSION);
    assert_eq!(s.last_target_dir, None);
    assert!(!s.auth_required);
    assert_eq!(s.auth_username, None);
}

// Own tests.

#[test]
fn opl_dir_paths_under_a_root_with_trailing_slash() {
    let paths = opl_dir_paths("/mnt/ps2/");
    assert_eq!(paths[0], "/mnt/ps2/CD");
    assert_eq!(paths[9], "/mnt/ps2/POPS");
}

struct FailingFs;

impl Fs for FailingFs {
    fn create_dir_all(&self, _path: &str) -> std::io::Result<()> {
        Err(std::io::Error::new(std::io::ErrorKind::PermissionDenied, "no"))
    }
    fn path_exists(&self, _path: &str) -> bool {
        false
    }
}

#[test]
fn create_opl_layout_reports_the_first_failure() {
    assert!(create_opl_layout(&FailingFs, "/x").is_err());
}

#[test]
fn dir_record_special_names_and_short_input() {
    let rec = make_record("\u{0}", 5, 2048, true);
    assert_eq!(parse_dir_record(&rec).unwrap().name, ".");
    let rec = make_record("\u{1}", 5, 2048, true);
    assert_eq!(parse_dir_record(&rec).unwrap().name, "..");
    assert!(parse_dir_record(&[0u8; 10]).is_none());
    let mut bad = make_record("SYSTEM.CNF;1", 1, 1, false);
    bad[32] = 200;
    assert!(parse_dir_record(&bad).is_none());
}

#[test]
fn dir_records_skip_to_the_next_sector_on_padding() {
    let mut data = make_record("A.TXT;1", 30, 10, false);
    data.resize(SECTOR_SIZE, 0);
    data.extend(make_record("SYSTEM.CNF;1", 31, 50, false));
    let records = parse_dir_records(&data);
    assert_eq!(records.len(), 2);
    assert_eq!(find_file(&records, "system.cnf").unwrap().extent_lba, 31);
    assert!(find_file(&records, "MISSING").is_none());
}

#[test]
fn cache_summary_and_match_of_empty_disc() {
    let meta = OplMeta::rebuild_from(&[]);
    assert!(meta.games.is_empty());
    assert!(meta.matches(&[]));
    assert_eq!(meta.summary(), summarize(&[]));
}
