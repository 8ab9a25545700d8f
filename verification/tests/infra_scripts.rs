use std::cell::RefCell;
use std::collections::HashMap;
use std::path::Path;

use oplhost::art::DEFAULT_BASE_URL;
use oplhost::backends::{has_trimmed_line_exec, reports_active};
use oplhost::dialog::{kdialog_args, parse_output, zenity_args};
use oplhost::udpbd_script::{build_apply_script as udpbd_apply, build_rollback_script as udpbd_rollback};
use oplhost::{
    art_dest_name, art_url, build_apply_script, build_rollback_script, build_smb_conf, needs_root,
    ArtError, ArtFiles, ArtProvider, ArtType, BackendError, FirewallManager, GameId, HttpGet,
    PrivilegeEscalator, Protocol, ServerCheck, ServerStatus, ShareAuth, ShareConfig, SmbBackend,
    SmbPaths, UdpbdBackend, UdpbdConfig, UserShell,
};

// --- folder picker ---

#[test]
fn saida_com_caminho_e_sucesso_vira_pathbuf() {
    let got = parse_output(b"/mnt/ps2games\n", true);
    assert_eq!(got, Some("/mnt/ps2games".to_string()));
}

#[test]
fn cancelamento_status_nao_zero_vira_none() {
    assert_eq!(parse_output(b"/mnt/ps2games\n", false), None);
}

#[test]
fn saida_vazia_vira_none_mesmo_com_sucesso() {
    assert_eq!(parse_output(b"\n", true), None);
    assert_eq!(parse_output(b"   ", true), None);
}

#[test]
fn picker_output_with_crlf_and_invalid_bytes() {
    assert_eq!(parse_output(b"/mnt/a b\r\n", true), Some("/mnt/a b".to_string()));
    assert_eq!(parse_output(b"/mnt/\xff\n", true), Some("/mnt/\u{fffd}".to_string()));
}

#[test]
fn picker_arguments() {
    assert_eq!(
        zenity_args(Some("/mnt/ps2")),
        vec![
            "--file-selection".to_string(),
            "--directory".to_string(),
            "--title=Escolha o diretório-alvo do OPL".to_string(),
            "--filename=/mnt/ps2/".to_string(),
        ]
    );
    assert_eq!(zenity_args(None).len(), 3);
    assert_eq!(kdialog_args(None), vec!["--getexistingdirectory".to_string(), ".".to_string()]);
    assert_eq!(kdialog_args(Some("/x")), vec!["--getexistingdirectory".to_string(), "/x".to_string()]);
}

// --- firewall ---

#[test]
fn open_fragment_cobre_ufw_e_iptables_para_a_porta() {
    let frag = FirewallManager.open_fragment(445, Protocol::Tcp);
    assert!(frag.contains("ufw allow 445/tcp"));
    assert!(frag.contains("iptables -I INPUT -p tcp --dport 445 -j ACCEPT"));
    assert!(frag.contains("iptables -C INPUT -p tcp --dport 445 -j ACCEPT"));
}

#[test]
fn close_fragment_e_tolerante_a_regra_ausente() {
    let frag = FirewallManager.close_fragment(445, Protocol::Tcp);
    assert!(frag.contains("ufw delete allow 445/tcp || true"));
    assert!(frag.contains("iptables -D INPUT -p tcp --dport 445 -j ACCEPT 2>/dev/null || true"));
}

#[test]
fn protocolo_udp_aparece_no_fragmento() {
    let frag = FirewallManager.open_fragment(48573, Protocol::Udp);
    assert!(frag.contains("48573/udp"));
    assert!(frag.contains("-p udp --dport 48573"));
}

#[test]
fn open_fragment_exact_text() {
    assert_eq!(
        FirewallManager.open_fragment(445, Protocol::Tcp),
        "if ufw status 2>/dev/null | grep -q 'Status: active'; then\n  ufw allow 445/tcp\nelse\n  iptables -C INPUT -p tcp --dport 445 -j ACCEPT 2>/dev/null \\\n    || iptables -I INPUT -p tcp --dport 445 -j ACCEPT\n  (command -v netfilter-persistent >/dev/null && netfilter-persistent save) || true\nfi"
    );
}

// --- SMB scripts ---

fn cfg() -> ShareConfig {
    ShareConfig {
        target_dir: "/mnt/ps2games".to_string(),
        share_name: "PS2SMB".to_string(),
        port: 445,
        owner_user: "maicom".to_string(),
        auth: ShareAuth::Guest,
    }
}

fn auth_cfg() -> ShareConfig {
    ShareConfig {
        auth: ShareAuth::User { username: "maicom".to_string() },
        ..cfg()
    }
}

#[test]
fn conf_forca_smbv1_e_guest_no_caminho_certo() {
    let c = build_smb_conf(&cfg());
    assert!(c.contains("client min protocol = NT1"));
    assert!(c.contains("server min protocol = NT1"));
    assert!(c.contains("lanman auth = yes"));
    assert!(c.contains("[PS2SMB]"));
    assert!(c.contains("path = /mnt/ps2games"));
    assert!(c.contains("force user = maicom"));
    assert!(c.contains("guest ok = yes"));
    assert!(!c.contains("valid users"));
}

#[test]
fn conf_autenticado_exige_usuario_e_nega_guest() {
    let c = build_smb_conf(&auth_cfg());
    assert!(c.contains("guest ok = no"));
    assert!(c.contains("valid users = maicom"));
    assert!(c.contains("force user = maicom"));
    assert!(!c.contains("guest ok = yes"));
}

#[test]
fn porta_padrao_445_nao_emite_smb_ports() {
    assert!(!build_smb_conf(&cfg()).contains("smb ports"));
}

#[test]
fn porta_alternativa_emite_smb_ports() {
    let mut c = cfg();
    c.port = 1445;
    let conf = build_smb_conf(&c);
    assert!(conf.contains("smb ports = 1445"));
}

#[test]
fn apply_guest_nao_mexe_em_smbpasswd() {
    let s = build_apply_script(&SmbPaths::default(), &cfg(), Some("ignorada"));
    assert!(!s.contains("smbpasswd"));
}

#[test]
fn apply_autenticado_sem_senha_nao_emite_smbpasswd() {
    let s = build_apply_script(&SmbPaths::default(), &auth_cfg(), None);
    assert!(!s.contains("smbpasswd"));
}

#[test]
fn senha_com_aspas_simples_e_escapada_para_o_shell() {
    let s = build_apply_script(&SmbPaths::default(), &auth_cfg(), Some("a'b"));
    assert!(s.contains(r"'a'\''b'"));
}

#[test]
fn rollback_autenticado_remove_a_conta_samba() {
    let s = build_rollback_script(&SmbPaths::default(), &auth_cfg());
    assert!(s.contains("smbpasswd -x 'maicom' || true"));
}

#[test]
fn include_line_of_default_paths() {
    assert_eq!(SmbPaths::default().include_line(), "include = /etc/samba/opl_share.conf");
}

// --- UDPBD scripts ---

fn ucfg() -> UdpbdConfig {
    UdpbdConfig { device: "/dev/sdb1".to_string() }
}

#[test]
fn apply_sobe_a_unit_com_o_device_e_a_porta_udp() {
    let s = udpbd_apply(&ucfg(), "/usr/bin/udpbd-server", false);
    assert!(s.contains("systemd-run --unit=oplhost-udpbd --collect"));
    assert!(s.contains("'/usr/bin/udpbd-server' '/dev/sdb1'"));
    assert!(s.contains("48573/udp"));
    assert!(s.contains("reset-failed oplhost-udpbd"));
}

#[test]
fn apply_user_scope_usa_systemd_run_user_e_nao_mexe_no_firewall() {
    let s = udpbd_apply(&ucfg(), "udpbd-server", true);
    assert!(s.contains("systemd-run --user --unit=oplhost-udpbd"));
    assert!(!s.contains("ufw"));
    assert!(!s.contains("iptables"));
}

#[test]
fn device_com_aspas_e_escapado_para_o_shell() {
    let c = UdpbdConfig { device: "/mnt/it's/ps2.img".to_string() };
    let s = udpbd_apply(&c, "udpbd-server", true);
    assert!(s.contains(r"'/mnt/it'\''s/ps2.img'"));
}

#[test]
fn rollback_para_a_unit_e_fecha_a_porta() {
    let s = udpbd_rollback(false);
    assert!(s.contains("systemctl stop oplhost-udpbd"));
    assert!(s.contains("ufw delete allow 48573/udp || true"));
}

#[test]
fn rollback_user_scope_nao_mexe_no_firewall() {
    let s = udpbd_rollback(true);
    assert!(s.contains("systemctl --user stop oplhost-udpbd"));
    assert!(!s.contains("ufw"));
}

#[test]
fn udpbd_user_rollback_exact_text() {
    assert_eq!(
        udpbd_rollback(true),
        "systemctl --user stop oplhost-udpbd 2>/dev/null || true\nsystemctl --user reset-failed oplhost-udpbd 2>/dev/null || true\n"
    );
}

// --- backends ---

#[derive(Default)]
struct RecordingEscalator {
    scripts: RefCell<Vec<String>>,
}

impl PrivilegeEscalator for RecordingEscalator {
    fn run_root_script(&self, script: &str) -> Result<(), BackendError> {
        self.scripts.borrow_mut().push(script.to_string());
        Ok(())
    }
}

#[derive(Default)]
struct RecordingShell {
    scripts: RefCell<Vec<String>>,
}

impl UserShell for RecordingShell {
    fn run_user_script(&self, script: &str) -> Result<(), BackendError> {
        self.scripts.borrow_mut().push(script.to_string());
        Ok(())
    }
}

fn bcfg() -> ShareConfig {
    ShareConfig {
        target_dir: "/mnt/ps2".to_string(),
        share_name: "PS2SMB".to_string(),
        port: 445,
        owner_user: "maicom".to_string(),
        auth: ShareAuth::Guest,
    }
}

#[test]
fn apply_config_entrega_um_unico_script_com_tudo() {
    let esc = RecordingEscalator::default();
    let backend = SmbBackend::with_parts(bcfg(), SmbPaths::default(), esc);

    backend.apply_config(true, false).unwrap();

    let scripts = backend.escalator().scripts.borrow();
    assert_eq!(scripts.len(), 1, "tudo numa única janela de privilégio");
    let s = &scripts[0];
    assert!(s.contains("opl_share.conf"));
    assert!(s.contains("systemctl reload smbd"));
    assert!(s.contains("ufw allow 445/tcp"));
}

#[test]
fn apply_and_rollback_reload_smbd_never_restart() {
    let a = build_apply_script(&SmbPaths::default(), &auth_cfg(), Some("s3nha"));
    let r = build_rollback_script(&SmbPaths::default(), &auth_cfg());
    assert!(!a.contains("restart") && !r.contains("restart"));
    let smbpasswd_at = a.find("smbpasswd -s -a").unwrap();
    assert!(smbpasswd_at < a.find("systemctl reload smbd").unwrap());
    assert!(a.contains("grep -qxF 'include = /etc/samba/opl_share.conf' /etc/samba/smb.conf"));
    assert!(r.contains("sed -i '\\#include = /etc/samba/opl_share.conf#d' /etc/samba/smb.conf"));
    assert!(r.contains("# oplhost"));
}

#[test]
fn apply_autenticado_repassa_a_senha_ao_script_numa_unica_janela() {
    let auth = ShareConfig {
        auth: ShareAuth::User { username: "maicom".to_string() },
        ..bcfg()
    };
    let esc = RecordingEscalator::default();
    let backend = SmbBackend::with_parts(auth.clone(), SmbPaths::default(), esc)
        .with_auth_password(Some("s3nha".to_string()));

    backend.apply_config(true, true).unwrap();

    let scripts = backend.escalator().scripts.borrow();
    assert_eq!(scripts.len(), 1, "auth + share + firewall numa única janela");
    let s = &scripts[0];
    assert!(s.contains("smbpasswd -s -a 'maicom'"));
    assert!(s.contains("'s3nha'"));
    assert!(s.contains("valid users = maicom"));
}

#[test]
fn rollback_fecha_a_mesma_porta_e_remove_o_include() {
    let esc = RecordingEscalator::default();
    let backend = SmbBackend::with_parts(bcfg(), SmbPaths::default(), esc);

    backend.rollback().unwrap();

    let scripts = backend.escalator().scripts.borrow();
    let s = &scripts[0];
    assert!(s.contains("rm -f /etc/samba/opl_share.conf"));
    assert!(s.contains("ufw delete allow 445/tcp || true"));
}

#[test]
fn status_deriva_da_config_aplicada_nao_do_smbd() {
    let paths = SmbPaths {
        share_conf: "/tmp/status/opl_share.conf".to_string(),
        smb_conf: "/tmp/status/smb.conf".to_string(),
    };
    let backend = SmbBackend::with_parts(bcfg(), paths.clone(), RecordingEscalator::default());

    assert_eq!(backend.status_from(false, Some("[global]\n")), ServerStatus::Stopped);
    assert_eq!(backend.status_from(true, Some("[global]\n")), ServerStatus::Stopped);
    let with_line = format!("[global]\n{}\n", paths.include_line());
    assert_eq!(backend.status_from(true, Some(&with_line)), ServerStatus::Running);
}

#[test]
fn apply_refuses_a_port_owned_by_another_service() {
    let backend = SmbBackend::with_parts(bcfg(), SmbPaths::default(), RecordingEscalator::default());
    assert_eq!(backend.apply_config(false, true), Err(BackendError::PortInUse(445)));
    assert!(backend.escalator().scripts.borrow().is_empty());
    assert_eq!(backend.apply_config(false, false), Ok(()));
    let scripts = backend.escalator().scripts.borrow();
    assert_eq!(scripts.len(), 1);
    assert_eq!(scripts[0], build_apply_script(&SmbPaths::default(), &bcfg(), None));
}

#[test]
fn status_needs_the_readable_smb_conf_and_the_exact_line() {
    let backend = SmbBackend::with_parts(bcfg(), SmbPaths::default(), RecordingEscalator::default());
    assert_eq!(backend.status_from(true, None), ServerStatus::Stopped);
    assert_eq!(
        backend.status_from(true, Some("  include = /etc/samba/opl_share.conf  \r\n")),
        ServerStatus::Running
    );
    assert_eq!(
        backend.status_from(true, Some("include = /etc/samba/opl_share.conf.bak\n")),
        ServerStatus::Stopped
    );
    assert!(has_trimmed_line_exec("a\n b \nc", "b"));
    assert!(!has_trimmed_line_exec("", ""));
}

fn backend_for(device: &str) -> UdpbdBackend<RecordingEscalator, RecordingShell> {
    UdpbdBackend::with_parts(
        UdpbdConfig { device: device.to_string() },
        "/usr/bin/udpbd-server".to_string(),
        RecordingEscalator::default(),
        RecordingShell::default(),
    )
}

#[test]
fn raw_device_usa_root_e_abre_firewall_numa_janela() {
    let b = backend_for("/dev/sdb1");
    b.apply().unwrap();
    assert_eq!(b.escalator().scripts.borrow().len(), 1);
    assert_eq!(b.shell().scripts.borrow().len(), 0);
    let s = &b.escalator().scripts.borrow()[0];
    assert!(s.contains("systemd-run --unit=oplhost-udpbd"));
    assert!(s.contains("'/dev/sdb1'"));
    assert!(s.contains("48573/udp"));
}

#[test]
fn imagem_usa_user_scope_sem_root_nem_firewall() {
    let b = backend_for("/home/maicom/ps2.img");
    b.apply().unwrap();
    assert_eq!(b.shell().scripts.borrow().len(), 1);
    assert_eq!(b.escalator().scripts.borrow().len(), 0);
    let s = &b.shell().scripts.borrow()[0];
    assert!(s.contains("systemd-run --user --unit=oplhost-udpbd"));
    assert!(!s.contains("ufw"));
}

#[test]
fn rollback_raw_device_para_a_unit_e_fecha_a_porta_como_root() {
    let b = backend_for("/dev/sdb1");
    b.rollback().unwrap();
    let s = &b.escalator().scripts.borrow()[0];
    assert!(s.contains("systemctl stop oplhost-udpbd"));
    assert!(s.contains("ufw delete allow 48573/udp || true"));
}

#[test]
fn rollback_imagem_para_a_unit_user_sem_root() {
    let b = backend_for("/home/maicom/ps2.img");
    b.rollback().unwrap();
    let s = &b.shell().scripts.borrow()[0];
    assert!(s.contains("systemctl --user stop oplhost-udpbd"));
    assert_eq!(b.escalator().scripts.borrow().len(), 0);
}

#[test]
fn needs_root_so_para_dev() {
    assert!(needs_root("/dev/sda"));
    assert!(!needs_root("/home/user/disk.img"));
    assert!(!needs_root("/mnt/ext/ps2.img"));
}

#[test]
fn server_available_checa_arquivo_absoluto() {
    let b = backend_for("/dev/sdb1");
    match b.server_check() {
        ServerCheck::IsFile(p) => assert!(!Path::new(&p).is_file()),
        other => panic!("unexpected check {other:?}"),
    }
}

#[test]
fn needs_root_follows_path_components() {
    assert!(needs_root("//dev/sdb"));
    assert!(needs_root("/./dev/sdb"));
    assert!(needs_root("/dev"));
    assert!(!needs_root("/device/x"));
    assert!(!needs_root("dev/sdb"));
    assert!(!needs_root(""));
}

#[test]
fn udpbd_status_command_and_output() {
    assert_eq!(backend_for("/dev/sdb1").status_command(), "systemctl is-active oplhost-udpbd");
    assert_eq!(
        backend_for("/home/u/a.img").status_command(),
        "systemctl --user is-active oplhost-udpbd"
    );
    type B = UdpbdBackend<RecordingEscalator, RecordingShell>;
    assert_eq!(B::status_from_output(Some(b"active\n")), ServerStatus::Running);
    assert_eq!(B::status_from_output(Some(b"inactive\n")), ServerStatus::Stopped);
    assert_eq!(B::status_from_output(Some(b"activating\n")), ServerStatus::Stopped);
    assert_eq!(B::status_from_output(None), ServerStatus::Stopped);
    assert!(reports_active(b"active"));
    assert!(!reports_active(b"activ"));
}

#[test]
fn server_lookup_on_path_for_a_bare_name() {
    let b = backend_for("/dev/sdb1").with_server_bin("udpbd-server".to_string());
    assert_eq!(
        b.server_check(),
        ServerCheck::ShellCommand("command -v udpbd-server >/dev/null 2>&1".to_string())
    );
}

// --- art ---

fn gid() -> GameId {
    GameId::parse("SCUS_973.13").unwrap()
}

#[test]
fn monta_url_e_nome_no_padrao_do_oplm() {
    let id = gid();
    assert_eq!(
        art_url(DEFAULT_BASE_URL, &id, ArtType::Cov, "jpg"),
        "https://archive.org/download/OPLM_ART_2023_11/OPLM_ART_2023_11.zip\
         /PS2/SCUS_973.13/SCUS_973.13_COV.jpg"
    );
    assert_eq!(art_dest_name(&id, ArtType::Cov, "png"), "SCUS_973.13_COV.png");
}

#[test]
fn url_nao_duplica_barra_da_base() {
    let id = gid();
    let with_slash = art_url("http://x/zip/", &id, ArtType::Cov, "jpg");
    assert_eq!(with_slash, "http://x/zip/PS2/SCUS_973.13/SCUS_973.13_COV.jpg");
}

struct MockHttp {
    responses: HashMap<String, Vec<u8>>,
    calls: RefCell<Vec<String>>,
}

impl MockHttp {
    fn new() -> Self {
        Self { responses: HashMap::new(), calls: RefCell::new(Vec::new()) }
    }
    fn serve(mut self, url: &str, bytes: &[u8]) -> Self {
        self.responses.insert(url.to_string(), bytes.to_vec());
        self
    }
}

impl HttpGet for MockHttp {
    fn get(&self, url: &str) -> Result<Option<Vec<u8>>, ArtError> {
        self.calls.borrow_mut().push(url.to_string());
        Ok(self.responses.get(url).cloned())
    }
}

#[derive(Default)]
struct MemArtDir {
    files: RefCell<HashMap<String, Vec<u8>>>,
}

impl ArtFiles for MemArtDir {
    fn has_file(&self, name: &str) -> bool {
        self.files.borrow().contains_key(name)
    }
    fn write_file(&self, name: &str, bytes: &[u8]) -> Result<(), ArtError> {
        self.files.borrow_mut().insert(name.to_string(), bytes.to_vec());
        Ok(())
    }
}

#[test]
fn baixa_cov_jpg_e_grava_em_art() {
    let id = gid();
    let dir = MemArtDir::default();
    let url = art_url(DEFAULT_BASE_URL, &id, ArtType::Cov, "jpg");
    let http = MockHttp::new().serve(&url, b"JPGDATA");
    let provider = ArtProvider::with_parts(http, DEFAULT_BASE_URL.into(), vec![ArtType::Cov]);

    let out = provider.fetch_for_game(&id, &dir, false).unwrap();
    assert_eq!(out.downloaded, vec!["SCUS_973.13_COV.jpg"]);
    assert!(out.not_found.is_empty());
    let written = dir.files.borrow().get("SCUS_973.13_COV.jpg").cloned().unwrap();
    assert_eq!(written, b"JPGDATA");
}

#[test]
fn cai_para_png_quando_jpg_nao_existe() {
    let id = gid();
    let dir = MemArtDir::default();
    let png = art_url(DEFAULT_BASE_URL, &id, ArtType::Cov, "png");
    let http = MockHttp::new().serve(&png, b"PNGDATA");
    let provider = ArtProvider::with_parts(http, DEFAULT_BASE_URL.into(), vec![ArtType::Cov]);

    let out = provider.fetch_for_game(&id, &dir, false).unwrap();
    assert_eq!(out.downloaded, vec!["SCUS_973.13_COV.png"]);
    assert!(dir.has_file("SCUS_973.13_COV.png"));
}

#[test]
fn nao_rebaixa_o_que_ja_existe() {
    let id = gid();
    let dir = MemArtDir::default();
    dir.write_file("SCUS_973.13_COV.jpg", b"OLD").unwrap();
    let http = MockHttp::new();
    let provider = ArtProvider::with_parts(http, DEFAULT_BASE_URL.into(), vec![ArtType::Cov]);

    let out = provider.fetch_for_game(&id, &dir, false).unwrap();
    assert_eq!(out.skipped, vec!["SCUS_973.13_COV.jpg"]);
    assert!(out.downloaded.is_empty());
    assert_eq!(dir.files.borrow().get("SCUS_973.13_COV.jpg").cloned().unwrap(), b"OLD");
}

#[test]
fn ausencia_na_fonte_vira_not_found_sem_erro() {
    let id = gid();
    let dir = MemArtDir::default();
    let http = MockHttp::new();
    let provider = ArtProvider::with_parts(http, DEFAULT_BASE_URL.into(), vec![ArtType::Cov]);

    let out = provider.fetch_for_game(&id, &dir, false).unwrap();
    assert_eq!(out.not_found, vec![ArtType::Cov]);
    assert!(out.downloaded.is_empty());
}

struct FailingHttp;

impl HttpGet for FailingHttp {
    fn get(&self, _url: &str) -> Result<Option<Vec<u8>>, ArtError> {
        Err(ArtError::Http("down".to_string()))
    }
}

#[test]
fn network_failure_stops_the_fetch() {
    let provider = ArtProvider::with_parts(FailingHttp, DEFAULT_BASE_URL.into(), vec![ArtType::Cov]);
    assert!(provider.fetch_for_game(&gid(), &MemArtDir::default(), false).is_err());
}

#[test]
fn overwrite_downloads_again_and_asks_jpg_first() {
    let id = gid();
    let dir = MemArtDir::default();
    dir.write_file("SCUS_973.13_COV.jpg", b"OLD").unwrap();
    let url = art_url("http://m", &id, ArtType::Cov, "jpg");
    let http = MockHttp::new().serve(&url, b"NEW");
    let provider = ArtProvider::with_parts(http, "http://m".into(), vec![ArtType::Cov]);
    let out = provider.fetch_for_game(&id, &dir, true).unwrap();
    assert!(out.skipped.is_empty());
    assert_eq!(out.downloaded, vec!["SCUS_973.13_COV.jpg"]);
    assert_eq!(dir.files.borrow().get("SCUS_973.13_COV.jpg").cloned().unwrap(), b"NEW");
}

#[test]
fn backend_error_messages() {
    assert_eq!(BackendError::PortInUse(445).message(), "porta 445 em uso por outro serviço");
    assert_eq!(BackendError::Other("x".into()).message(), "x");
}
