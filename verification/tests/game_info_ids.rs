use oplhost::game_info::{KEY_DESCRIPTION, KEY_GENRE, KEY_TITLE};
use oplhost::{
    cfg_file_name, derive_title, normalize_release, parse_boot2_game_id, FieldErrorKind, GameCfg,
    GameId, GameInfo, GameInfoError, OPL_VALUE_MAX_LEN,
};

#[test]
fn parse_normaliza_para_maiusculas() {
    assert_eq!(GameId::parse("slus_213.86").unwrap().as_str(), "SLUS_213.86");
}

#[test]
fn rejeita_formatos_invalidos() {
    assert!(GameId::parse("SLUS21386").is_none());
    assert!(GameId::parse("SLUS_213.8").is_none());
    assert!(GameId::parse("SL1S_213.86").is_none());
    assert!(GameId::parse("").is_none());
}

#[test]
fn boot2_caminho_completo_com_versao() {
    let cnf = "BOOT2 = cdrom0:\\SLUS_213.86;1\nVER = 1.00\nVMODE = NTSC\n";
    assert_eq!(parse_boot2_game_id(cnf).unwrap().as_str(), "SLUS_213.86");
}

#[test]
fn boot2_sem_espacos_e_barra_unix() {
    let cnf = "BOOT2=cdrom0:/SCUS_972.00;1\n";
    assert_eq!(parse_boot2_game_id(cnf).unwrap().as_str(), "SCUS_972.00");
}

#[test]
fn ignora_outras_chaves_e_boot_sem_2() {
    let cnf = "BOOT = cdrom0:\\SLUS_999.99;1\nVER = 1.00\n";
    assert!(parse_boot2_game_id(cnf).is_none());
}

#[test]
fn system_cnf_sem_boot2_retorna_none() {
    assert!(parse_boot2_game_id("VER = 1.00\nVMODE = NTSC\n").is_none());
}

#[test]
fn derive_title_remove_prefixo_de_game_id_e_extensao() {
    assert_eq!(derive_title("SLUS_200.02.God of War.iso"), "God of War");
    assert_eq!(derive_title("scus_973.13.gran turismo 4.ZSO"), "gran turismo 4");
}

#[test]
fn derive_title_sem_prefixo_usa_nome_sem_extensao() {
    assert_eq!(derive_title("Shadow of the Colossus.iso"), "Shadow of the Colossus");
    assert_eq!(derive_title("sem_extensao_conhecida.dat"), "sem_extensao_conhecida.dat");
}

#[test]
fn parse_e_info_extraem_os_cinco_campos() {
    let raw = "Title=God of War\nGenre=Action\nRelease=2005-03-22\n\
               Developer=SCE Santa Monica\nDescription=Kratos vs gods.\n";
    let info = GameCfg::parse(raw).info();
    assert_eq!(info.title.as_deref(), Some("God of War"));
    assert_eq!(info.genre.as_deref(), Some("Action"));
    assert_eq!(info.release.as_deref(), Some("2005-03-22"));
    assert_eq!(info.developer.as_deref(), Some("SCE Santa Monica"));
    assert_eq!(info.description.as_deref(), Some("Kratos vs gods."));
}

#[test]
fn info_de_cfg_vazio_e_default() {
    assert_eq!(GameCfg::default().info(), GameInfo::default());
    assert!(GameCfg::parse("").info().is_empty());
}

#[test]
fn apply_info_preserva_chaves_de_compatibilidade() {
    let raw = "$Compatibility=4\n$VMC_0=Game\nGenre=OldGenre\n";
    let mut cfg = GameCfg::parse(raw);
    cfg.apply_info(&GameInfo {
        title: Some("Novo Título".into()),
        genre: Some("RPG".into()),
        ..Default::default()
    });
    assert_eq!(cfg.get("$Compatibility"), Some("4"));
    assert_eq!(cfg.get("$VMC_0"), Some("Game"));
    assert_eq!(cfg.get(KEY_GENRE), Some("RPG"));
    assert_eq!(cfg.get(KEY_TITLE), Some("Novo Título"));
}

#[test]
fn set_atualiza_no_lugar_sem_duplicar() {
    let mut cfg = GameCfg::parse("Genre=Action\n$Compatibility=1\n");
    cfg.set(KEY_GENRE, "Adventure");
    let out = cfg.to_string();
    assert_eq!(out, "Genre=Adventure\n$Compatibility=1\n");
    assert_eq!(out.matches("Genre=").count(), 1);
}

#[test]
fn apply_info_com_campo_none_remove_a_chave() {
    let mut cfg = GameCfg::parse("Title=Antigo\nGenre=Action\n$VMC_1=X\n");
    cfg.apply_info(&GameInfo {
        genre: Some("Racing".into()),
        ..Default::default()
    });
    assert_eq!(cfg.get(KEY_TITLE), None);
    assert_eq!(cfg.get(KEY_GENRE), Some("Racing"));
    assert_eq!(cfg.get("$VMC_1"), Some("X"));
}

#[test]
fn parse_preserva_linhas_desconhecidas_e_ordem_no_roundtrip() {
    let raw = "$Compatibility=2\nGenre=Action\nLinhaEstranhaSemIgual\n";
    let cfg = GameCfg::parse(raw);
    assert_eq!(cfg.to_string(), raw);
}

#[test]
fn parse_ignora_whitespace_inicial_da_chave_como_o_opl() {
    let cfg = GameCfg::parse("    Genre=Action\n");
    assert_eq!(cfg.get(KEY_GENRE), Some("Action"));
}

#[test]
fn validate_reprova_valor_longo_demais() {
    let info = GameInfo {
        description: Some("a".repeat(OPL_VALUE_MAX_LEN + 1)),
        ..Default::default()
    };
    let errs = info.validate();
    assert_eq!(errs.len(), 1);
    assert_eq!(errs[0].key, KEY_DESCRIPTION);
    assert!(matches!(errs[0].kind, FieldErrorKind::TooLong { .. }));
}

#[test]
fn validate_aceita_valor_no_limite() {
    let info = GameInfo {
        description: Some("a".repeat(OPL_VALUE_MAX_LEN)),
        ..Default::default()
    };
    assert!(info.validate().is_empty());
}

#[test]
fn validate_reprova_quebra_de_linha() {
    let info = GameInfo {
        genre: Some("Action\nAdventure".into()),
        ..Default::default()
    };
    let errs = info.validate();
    assert_eq!(errs.len(), 1);
    assert!(matches!(errs[0].kind, FieldErrorKind::Newline));
}

#[test]
fn cfg_file_name_usa_o_game_id() {
    let id = GameId::parse("SLUS_200.02").unwrap();
    assert_eq!(cfg_file_name(&id), "SLUS_200.02.cfg");
}

#[test]
fn valor_pode_conter_igual_apos_o_primeiro() {
    let cfg = GameCfg::parse("Description=x = y = z\n");
    assert_eq!(cfg.get(KEY_DESCRIPTION), Some("x = y = z"));
}

#[test]
fn release_vazio_vira_none() {
    assert_eq!(normalize_release("   "), Ok(None));
}

#[test]
fn release_canonico_passa_e_zera_pad() {
    assert_eq!(normalize_release("2007-3-1"), Ok(Some("2007-03-01".to_string())));
    assert_eq!(normalize_release("2005-03-22"), Ok(Some("2005-03-22".to_string())));
}

#[test]
fn release_formato_br_e_reordenado_para_iso() {
    assert_eq!(normalize_release("24/06/2007"), Ok(Some("2007-06-24".to_string())));
}

#[test]
fn release_so_ano_ou_ano_mes() {
    assert_eq!(normalize_release("2007"), Ok(Some("2007".to_string())));
    assert_eq!(normalize_release("03/2007"), Ok(Some("2007-03".to_string())));
}

#[test]
fn release_data_like_invalida_e_rejeitada() {
    assert!(normalize_release("2007-03-132").is_err());
    assert!(normalize_release("2007-13-01").is_err());
    assert!(normalize_release("2007-02-29").is_err());
    assert!(normalize_release("12/06/07").is_err());
}

#[test]
fn release_29_fev_bissexto_passa() {
    assert_eq!(normalize_release("2008-02-29"), Ok(Some("2008-02-29".to_string())));
}

#[test]
fn release_texto_livre_com_letras_passa_verbatim() {
    assert_eq!(normalize_release("Verão de 2007"), Ok(Some("Verão de 2007".to_string())));
}

// Own tests.

#[test]
fn get_after_set_reads_back_and_keeps_other_keys() {
    let mut cfg = GameCfg::parse("A=1\nB=2\n");
    cfg.set("C", "3");
    assert_eq!(cfg.get("C"), Some("3"));
    assert_eq!(cfg.get("A"), Some("1"));
    assert_eq!(cfg.to_string(), "A=1\nB=2\nC=3\n");
}

#[test]
fn remove_takes_every_line_of_the_key() {
    let mut cfg = GameCfg::parse("A=1\nB=2\nA=3\n");
    cfg.remove("A");
    assert_eq!(cfg.get("A"), None);
    assert_eq!(cfg.to_string(), "B=2\n");
}

#[test]
fn apply_info_then_info_reads_back() {
    let info = GameInfo {
        title: Some("T".into()),
        genre: None,
        release: Some("2001".into()),
        developer: Some("D".into()),
        description: None,
    };
    let mut cfg = GameCfg::parse("Genre=X\n$Compatibility=9\n");
    cfg.apply_info(&info);
    assert_eq!(cfg.info(), info);
    assert_eq!(cfg.get("$Compatibility"), Some("9"));
}

#[test]
fn crlf_lines_are_read_without_carriage_return() {
    let cfg = GameCfg::parse("Title=A\r\nGenre=B\r\n");
    assert_eq!(cfg.get(KEY_TITLE), Some("A"));
    assert_eq!(cfg.get(KEY_GENRE), Some("B"));
}

#[test]
fn release_errors_carry_the_input() {
    let e = normalize_release("2007-13-01").unwrap_err();
    assert!(e.message().contains("2007-13-01"));
    assert_eq!(normalize_release(" 1999-12-31 "), Ok(Some("1999-12-31".to_string())));
    assert!(normalize_release("31/04/2001").is_err());
    assert_eq!(normalize_release("1/2/2003"), Ok(Some("2003-02-01".to_string())));
}

#[test]
fn release_is_idempotent_on_examples() {
    for raw in ["2007-3-1", "24/06/2007", "03/2007", "2007", "Verão de 2007"] {
        let once = normalize_release(raw).unwrap().unwrap();
        assert_eq!(normalize_release(&once), Ok(Some(once.clone())));
    }
}

#[test]
fn invalid_fields_message_lists_each_field() {
    let info = GameInfo {
        title: Some("a\nb".into()),
        genre: Some("g".repeat(300)),
        ..Default::default()
    };
    let errs = info.validate();
    assert_eq!(errs.len(), 2);
    let msg = GameInfoError::Invalid(errs).message();
    assert!(msg.starts_with("campos inválidos: "));
    assert!(msg.contains("; "));
    assert_eq!(GameInfoError::Io("x".into()).message(), "falha de I/O no .cfg do jogo: x");
}

#[test]
fn game_id_from_boot2_with_odd_spacing() {
    assert_eq!(parse_boot2_game_id("  boot2   =  cdrom0:\\SLES_501.23;1").map(|g| g.as_str().to_string()),
        GameId::parse("SLES_501.23").map(|g| g.as_str().to_string()));
    assert!(GameId::parse("SLUS_213.86X").is_none());
}
