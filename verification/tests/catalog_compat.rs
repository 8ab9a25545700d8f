use oplhost::catalog::CD_MAX_BYTES;
use oplhost::game_info::KEY_GENRE;
use oplhost::{summarize, CatalogSummary, CompatFlags, CompatMode, GameCfg, GameEntry, Media, CONFIG_ITEM_COMPAT};

fn iso(name: &str, size: u64) -> GameEntry {
    GameEntry {
        file_name: name.to_string(),
        size_bytes: size,
    }
}

#[test]
fn no_limite_de_700mb_ainda_e_cd() {
    let e = iso("borda.iso", CD_MAX_BYTES);
    assert_eq!(e.media(), Media::Cd);
    assert_eq!(e.media().dir_name(), "CD");
}

#[test]
fn um_byte_acima_do_limite_vira_dvd() {
    let e = iso("grande.iso", CD_MAX_BYTES + 1);
    assert_eq!(e.media(), Media::Dvd);
    assert_eq!(e.media().dir_name(), "DVD");
}

#[test]
fn summarize_conta_e_soma_por_midia() {
    let entries = vec![
        iso("a.iso", 100 * 1024 * 1024),
        iso("b.iso", CD_MAX_BYTES),
        iso("c.iso", 4 * 1024 * 1024 * 1024),
    ];
    let s = summarize(&entries);
    assert_eq!(s.cd_count, 2);
    assert_eq!(s.dvd_count, 1);
    assert_eq!(s.total_count(), 3);
    assert_eq!(s.total_bytes, 100 * 1024 * 1024 + CD_MAX_BYTES + 4 * 1024 * 1024 * 1024);
}

#[test]
fn summarize_de_lista_vazia_e_zerado() {
    let s = summarize(&[]);
    assert_eq!(s, CatalogSummary::default());
    assert_eq!(s.total_count(), 0);
    assert_eq!(s.total_bytes, 0);
}

#[test]
fn parse_le_bitmask_decimal() {
    let f = CompatFlags::parse("5");
    assert!(f.is_set(CompatMode::AccurateReads));
    assert!(f.is_set(CompatMode::UnhookSyscalls));
    assert!(!f.is_set(CompatMode::SynchronousMode));
}

#[test]
fn parse_de_valor_invalido_ou_vazio_e_zero() {
    assert!(CompatFlags::parse("").is_empty());
    assert!(CompatFlags::parse("abc").is_empty());
}

#[test]
fn to_config_value_zero_vira_none() {
    assert_eq!(CompatFlags::default().to_config_value(), None);
    let mut f = CompatFlags::default();
    f.set(CompatMode::SkipVideos, true);
    assert_eq!(f.to_config_value(), Some("8".to_string()));
}

#[test]
fn set_preserva_outros_bits() {
    let mut f = CompatFlags::parse("5");
    f.set(CompatMode::SynchronousMode, true);
    assert_eq!(f.to_config_value(), Some("7".to_string()));
    f.set(CompatMode::AccurateReads, false);
    assert_eq!(f.to_config_value(), Some("6".to_string()));
}

#[test]
fn bits_desconhecidos_7_8_sao_preservados() {
    let mut f = CompatFlags::parse("64");
    assert!(!f.is_empty());
    f.set(CompatMode::DisableIgr, true);
    assert_eq!(f.to_config_value(), Some("96".to_string()));
}

#[test]
fn compat_e_apply_compat_round_trip_no_cfg() {
    let mut cfg = GameCfg::parse("Genre=Action\n$Compatibility=5\n");
    let f = cfg.compat();
    assert!(f.is_set(CompatMode::AccurateReads));
    assert!(f.is_set(CompatMode::UnhookSyscalls));

    let mut f2 = f;
    f2.set(CompatMode::DisableIgr, true);
    cfg.apply_compat(&f2);
    assert_eq!(cfg.get(CONFIG_ITEM_COMPAT), Some("37"));
    assert_eq!(cfg.get(KEY_GENRE), Some("Action"));
}

#[test]
fn apply_compat_preserva_info_e_outras_chaves() {
    let mut cfg = GameCfg::parse("Title=GoW\n$VMC_0=Save\n$Compatibility=1\n");
    let mut f = cfg.compat();
    f.set(CompatMode::SkipVideos, true);
    cfg.apply_compat(&f);
    assert_eq!(cfg.get("Title"), Some("GoW"));
    assert_eq!(cfg.get("$VMC_0"), Some("Save"));
    assert_eq!(cfg.get(CONFIG_ITEM_COMPAT), Some("9"));
}

#[test]
fn apply_compat_zero_remove_a_chave() {
    let mut cfg = GameCfg::parse("$Compatibility=4\nGenre=Action\n");
    cfg.apply_compat(&CompatFlags::default());
    assert_eq!(cfg.get(CONFIG_ITEM_COMPAT), None);
    assert_eq!(cfg.get(KEY_GENRE), Some("Action"));
}

#[test]
fn todos_os_modos_tem_bits_e_numeros_distintos() {
    let bits: Vec<u8> = CompatMode::ALL.iter().map(|m| m.bit()).collect();
    assert_eq!(bits, vec![0x01, 0x02, 0x04, 0x08, 0x10, 0x20]);
    let nums: Vec<u8> = CompatMode::ALL.iter().map(|m| m.number()).collect();
    assert_eq!(nums, vec![1, 2, 3, 4, 5, 6]);
}

// Own tests.

#[test]
fn compat_labels_are_the_loader_source_texts() {
    assert_eq!(CompatMode::AccurateReads.label(), "Accurate Reads");
    assert_eq!(CompatMode::EmulateDvdDl.label(), "Emulate DVD-DL");
    assert_eq!(CompatMode::DisableIgr.label(), "Disable IGR");
}

#[test]
fn compat_parse_trims_and_rejects_out_of_range() {
    assert!(CompatFlags::parse(" 3 ").is_set(CompatMode::SynchronousMode));
    assert!(CompatFlags::parse("256").is_empty());
    assert!(CompatFlags::parse("-1").is_empty());
    assert_eq!(CompatFlags::parse("255").to_config_value(), Some("255".to_string()));
}

#[test]
fn compat_round_trips_through_config_value() {
    for v in [1u8, 37, 64, 200, 255] {
        let f = CompatFlags::parse(&v.to_string());
        assert_eq!(f.to_config_value(), Some(v.to_string()));
        assert_eq!(CompatFlags::parse(&f.to_config_value().unwrap()), f);
    }
}

#[test]
fn compat_of_cfg_without_key_is_empty() {
    let cfg = GameCfg::parse("Title=X\n");
    assert!(cfg.compat().is_empty());
}

#[test]
fn summarize_with_only_dvds() {
    let s = summarize(&[iso("x.iso", CD_MAX_BYTES + 10), iso("y.iso", CD_MAX_BYTES * 2)]);
    assert_eq!(s.cd_count, 0);
    assert_eq!(s.dvd_count, 2);
    assert_eq!(s.total_bytes, CD_MAX_BYTES * 3 + 10);
}
