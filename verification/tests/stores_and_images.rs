use oplhost::iso9660::{game_id_from_system_cnf, parse_root_record, system_cnf_extent, SECTOR_SIZE};
use oplhost::{summarize, FsGameInfoStore, GameEntry, GameId, GameInfo, GameInfoError};

fn an_id() -> GameId {
    GameId::parse("SLUS_200.02").unwrap()
}

#[test]
fn load_de_cfg_inexistente_e_vazio() {
    // A missing `.cfg` is read as empty text.
    assert_eq!(FsGameInfoStore::load_text(""), GameInfo::default());
}

#[test]
fn save_cria_cfg_dir_e_grava_os_campos() {
    let store = FsGameInfoStore::new("/tmp/lib");
    let info = GameInfo {
        title: Some("God of War".into()),
        genre: Some("Action".into()),
        ..Default::default()
    };
    let text = FsGameInfoStore::save_text("", &info).unwrap();
    assert_eq!(FsGameInfoStore::load_text(&text), info);
    assert_eq!(store.cfg_path(&an_id()), "/tmp/lib/CFG/SLUS_200.02.cfg");
}

#[test]
fn save_preserva_compatibilidade_existente_no_disco() {
    let raw = FsGameInfoStore::save_text(
        "$Compatibility=4\n$VMC_0=Save\nGenre=Antigo\n",
        &GameInfo {
            genre: Some("RPG".into()),
            developer: Some("Capcom".into()),
            ..Default::default()
        },
    )
    .unwrap();
    assert!(raw.contains("$Compatibility=4"));
    assert!(raw.contains("$VMC_0=Save"));
    assert!(raw.contains("Genre=RPG"));
    assert!(raw.contains("Developer=Capcom"));
    assert!(!raw.contains("Genre=Antigo"));
}

#[test]
fn save_de_campo_invalido_nao_grava_e_retorna_invalid() {
    let info = GameInfo {
        description: Some("a".repeat(300)),
        ..Default::default()
    };
    match FsGameInfoStore::save_text("", &info) {
        Err(GameInfoError::Invalid(errs)) => assert_eq!(errs.len(), 1),
        other => panic!("esperava Invalid, veio {other:?}"),
    }
}

fn dir_record(name: &str, extent: u32, size: u32, is_dir: bool) -> Vec<u8> {
    let nb = name.as_bytes();
    let len = 33 + nb.len();
    let mut rec = vec![0u8; len];
    rec[0] = len as u8;
    rec[2..6].copy_from_slice(&extent.to_le_bytes());
    rec[10..14].copy_from_slice(&size.to_le_bytes());
    rec[25] = if is_dir { 0x02 } else { 0x00 };
    rec[32] = nb.len() as u8;
    rec[33..].copy_from_slice(nb);
    rec
}

fn build_minimal_iso(boot2_id: &str) -> Vec<u8> {
    let mut img = vec![0u8; 19 * SECTOR_SIZE];
    let pvd = 16 * SECTOR_SIZE;
    img[pvd] = 1;
    img[pvd + 1..pvd + 6].copy_from_slice(b"CD001");
    let root = dir_record(".", 17, SECTOR_SIZE as u32, true);
    img[pvd + 156..pvd + 156 + root.len()].copy_from_slice(&root);
    let dir = 17 * SECTOR_SIZE;
    let cnf_rec = dir_record("SYSTEM.CNF;1", 18, 64, false);
    img[dir..dir + cnf_rec.len()].copy_from_slice(&cnf_rec);
    let cnf = 18 * SECTOR_SIZE;
    let body = format!("BOOT2 = cdrom0:\\{boot2_id};1\nVER = 1.00\n");
    img[cnf..cnf + body.len()].copy_from_slice(body.as_bytes());
    img
}

fn extent(img: &[u8], lba: u32, size: u32) -> &[u8] {
    let start = lba as usize * SECTOR_SIZE;
    &img[start..start + size as usize]
}

/// The three reads of the image, as the program makes them from disk.
fn read_game_id(img: &[u8]) -> Option<GameId> {
    let root = parse_root_record(extent(img, 16, SECTOR_SIZE as u32))?;
    let (lba, size) = system_cnf_extent(extent(img, root.extent_lba, root.size))?;
    game_id_from_system_cnf(extent(img, lba, size))
}

#[test]
fn extrai_game_id_de_iso_minima() {
    let img = build_minimal_iso("SLUS_213.86");
    let id = read_game_id(&img);
    assert_eq!(id.unwrap().as_str(), "SLUS_213.86");
}

#[test]
fn arquivo_sem_assinatura_iso_vira_none() {
    let img = vec![0u8; 17 * SECTOR_SIZE];
    assert_eq!(read_game_id(&img), None);
}

#[test]
fn check_info_before_touching_the_disk() {
    assert_eq!(FsGameInfoStore::check_info(&GameInfo::default()), Ok(()));
    let bad = GameInfo { genre: Some("a\nb".into()), ..Default::default() };
    match FsGameInfoStore::check_info(&bad) {
        Err(GameInfoError::Invalid(errs)) => assert_eq!(errs.len(), 1),
        other => panic!("expected Invalid, got {other:?}"),
    }
}

#[test]
fn summary_ignores_the_order_of_entries() {
    let a = GameEntry { file_name: "a.iso".into(), size_bytes: 10 };
    let b = GameEntry { file_name: "b.iso".into(), size_bytes: 900_000_000 };
    assert_eq!(summarize(&[a.clone(), b.clone()]), summarize(&[b, a]));
}
