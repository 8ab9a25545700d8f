//! Builders of the SMB backend's scripts. Generating the isolated
//! `opl_share.conf` and the shell bodies of apply and rollback is the part
//! most prone to error, so it is kept free of I/O; the backend only composes
//! these pieces and hands them to the privilege escalator.
use vstd::prelude::*;
use crate::domain::{ShareAuth, ShareConfig};
use crate::firewall::{close_fragment_text, open_fragment_text, FirewallManager, Protocol};
use crate::shell::{sh_squote, squote};
use crate::text::{decimal, lemma_decimal_shape, push_decimal, push_str};

verus! {

/// Paths of the Samba configuration files the backend manages: the
/// application's isolated file, and the global one where only an `include`
/// line is added or removed.
#[derive(Debug, Clone)]
pub struct SmbPaths {
    pub share_conf: String,
    pub smb_conf: String,
}

pub const DEFAULT_SHARE_CONF: &'static str = "/etc/samba/opl_share.conf";

pub const DEFAULT_SMB_CONF: &'static str = "/etc/samba/smb.conf";

impl Default for SmbPaths {
    fn default() -> (r: Self)
        ensures
            r.share_conf@ == DEFAULT_SHARE_CONF@,
            r.smb_conf@ == DEFAULT_SMB_CONF@,
    {
        SmbPaths {
            share_conf: DEFAULT_SHARE_CONF.to_owned(),
            smb_conf: DEFAULT_SMB_CONF.to_owned(),
        }
    }
}

/// `include = <share_conf>`.
pub open spec fn include_text(share_conf: Seq<char>) -> Seq<char> {
    "include = "@ + share_conf
}

impl SmbPaths {
    /// The include line added to the global `smb.conf`.
    pub fn include_line(&self) -> (r: String)
        ensures
            r@ == include_text(self.share_conf@),
    {
        let mut s = "include = ".to_owned();
        push_str(&mut s, self.share_conf.as_str());
        s
    }
}

/// Comment that marks the application's addition to `smb.conf`.
pub const MARKER: &'static str = "# oplhost";

pub const CONF_GLOBAL: &'static str = "   client min protocol = NT1\n   server min protocol = NT1\n   ntlm auth = yes\n   lanman auth = yes\n   usershare allow guests = yes\n\n[";

/// The `smb ports` line, only for a port other than 445.
pub open spec fn smb_ports_text(port: u16) -> Seq<char> {
    if port == 445 {
        seq![]
    } else {
        "   smb ports = "@ + decimal(port as nat) + "\n"@
    }
}

/// The access block of the share: guest, or a required user.
pub open spec fn access_text(auth: ShareAuth) -> Seq<char> {
    match auth {
        ShareAuth::Guest => "   guest ok = yes\n"@,
        ShareAuth::User { username } => "   guest ok = no\n   valid users = "@ + username@ + "\n"@,
    }
}

/// The isolated `opl_share.conf`.
pub open spec fn smb_conf_text(cfg: ShareConfig) -> Seq<char> {
    "[global]\n"@ + smb_ports_text(cfg.port) + CONF_GLOBAL@ + cfg.share_name@
        + "]\n   comment = OPL Share\n   path = "@ + cfg.target_dir@ + "\n"@ + access_text(cfg.auth)
        + "   read only = no\n   browseable = yes\n   force user = "@ + cfg.owner_user@ + "\n"@
}

/// Generates the `opl_share.conf` that forces SMBv1/NT1, as the loader
/// requires. `smb ports` only appears for a port other than 445; the share
/// is guest by default, or requires the configured user; `force user` keeps
/// every write owned by the folder's owner.
pub fn build_smb_conf(cfg: &ShareConfig) -> (r: String)
    ensures
        r@ == smb_conf_text(*cfg),
{
    let mut s = "[global]\n".to_owned();
    if cfg.port != 445 {
        push_str(&mut s, "   smb ports = ");
        push_decimal(&mut s, cfg.port as u64);
        push_str(&mut s, "\n");
    }
    push_str(&mut s, CONF_GLOBAL);
    push_str(&mut s, cfg.share_name.as_str());
    push_str(&mut s, "]\n   comment = OPL Share\n   path = ");
    push_str(&mut s, cfg.target_dir.as_str());
    push_str(&mut s, "\n");
    match &cfg.auth {
        ShareAuth::Guest => push_str(&mut s, "   guest ok = yes\n"),
        ShareAuth::User { username } => {
            push_str(&mut s, "   guest ok = no\n   valid users = ");
            push_str(&mut s, username.as_str());
            push_str(&mut s, "\n");
        },
    }
    push_str(&mut s, "   read only = no\n   browseable = yes\n   force user = ");
    push_str(&mut s, cfg.owner_user.as_str());
    push_str(&mut s, "\n");
    proof {
        let sp = smb_ports_text(cfg.port);
        assert(s@ =~= smb_conf_text(*cfg));
    }
    s
}

pub const AUTH_GUARD_TAIL: &'static str = " >/dev/null 2>&1; then\n  echo 'usuario do sistema inexistente para o share autenticado' >&2\n  exit 1\nfi\nprintf '%s\\n%s\\n' ";

/// Root fragment that creates or updates the Samba user of an authenticated
/// share: empty for a guest share or without a password; otherwise it aborts
/// when the system user does not exist and sets the Samba password through
/// `smbpasswd -s -a`, reading it from standard input.
pub open spec fn auth_fragment_text(cfg: ShareConfig, password: Option<Seq<char>>) -> Seq<char> {
    match (cfg.auth, password) {
        (ShareAuth::User { username }, Some(pw)) => {
            let u = squote(username@);
            let p = squote(pw);
            "if ! id -u "@ + u + AUTH_GUARD_TAIL@ + p + " "@ + p + " | smbpasswd -s -a "@ + u
                + "\n\n"@
        },
        _ => seq![],
    }
}

fn build_auth_fragment(cfg: &ShareConfig, password: Option<&str>) -> (r: String)
    ensures
        r@ == auth_fragment_text(
            *cfg,
            match password {
                Some(p) => Some(p@),
                None => None,
            },
        ),
{
    match (&cfg.auth, password) {
        (ShareAuth::User { username }, Some(pw)) => {
            let u = sh_squote(username.as_str());
            let p = sh_squote(pw);
            let mut s = "if ! id -u ".to_owned();
            push_str(&mut s, u.as_str());
            push_str(&mut s, AUTH_GUARD_TAIL);
            push_str(&mut s, p.as_str());
            push_str(&mut s, " ");
            push_str(&mut s, p.as_str());
            push_str(&mut s, " | smbpasswd -s -a ");
            push_str(&mut s, u.as_str());
            push_str(&mut s, "\n\n");
            s
        },
        _ => String::new(),
    }
}

/// The apply script.
pub open spec fn apply_script_text(
    paths: SmbPaths,
    cfg: ShareConfig,
    password: Option<Seq<char>>,
) -> Seq<char> {
    let inc = include_text(paths.share_conf@);
    "cat > "@ + paths.share_conf@ + " <<'OPLEOF'\n"@ + smb_conf_text(cfg)
        + "OPLEOF\n\nif ! grep -qxF '"@ + inc + "' "@ + paths.smb_conf@ + "; then\n  printf '\\n"@
        + MARKER@ + "\\n"@ + inc + "\\n' >> "@ + paths.smb_conf@ + "\nfi\n\n"@
        + auth_fragment_text(cfg, password) + "systemctl reload smbd\n\n"@ + open_fragment_text(
        cfg.port,
        Protocol::Tcp,
    ) + "\n"@
}

/// Body of the root apply script: writes the isolated conf, adds the include
/// line unless present, creates the Samba user when authenticated, reloads
/// `smbd` and opens the port, all in one privilege window. The password is
/// used only in the authenticated mode. `smbd` is reloaded, never restarted:
/// the system's Samba keeps its other shares and connections.
pub fn build_apply_script(paths: &SmbPaths, cfg: &ShareConfig, password: Option<&str>) -> (r:
    String)
    ensures
        r@ == apply_script_text(
            *paths,
            *cfg,
            match password {
                Some(p) => Some(p@),
                None => None,
            },
        ),
{
    let conf = build_smb_conf(cfg);
    let inc_line = paths.include_line();
    let firewall = FirewallManager.open_fragment(cfg.port, Protocol::Tcp);
    let auth = build_auth_fragment(cfg, password);
    let mut s = "cat > ".to_owned();
    push_str(&mut s, paths.share_conf.as_str());
    push_str(&mut s, " <<'OPLEOF'\n");
    push_str(&mut s, conf.as_str());
    push_str(&mut s, "OPLEOF\n\nif ! grep -qxF '");
    push_str(&mut s, inc_line.as_str());
    push_str(&mut s, "' ");
    push_str(&mut s, paths.smb_conf.as_str());
    push_str(&mut s, "; then\n  printf '\\n");
    push_str(&mut s, MARKER);
    push_str(&mut s, "\\n");
    push_str(&mut s, inc_line.as_str());
    push_str(&mut s, "\\n' >> ");
    push_str(&mut s, paths.smb_conf.as_str());
    push_str(&mut s, "\nfi\n\n");
    push_str(&mut s, auth.as_str());
    push_str(&mut s, "systemctl reload smbd\n\n");
    push_str(&mut s, firewall.as_str());
    push_str(&mut s, "\n");
    s
}

/// The Samba account removal of an authenticated share (none for guest).
pub open spec fn deauth_text(auth: ShareAuth) -> Seq<char> {
    match auth {
        ShareAuth::User { username } => "smbpasswd -x "@ + squote(username@) + " || true\n"@,
        ShareAuth::Guest => seq![],
    }
}

/// The rollback script.
pub open spec fn rollback_script_text(paths: SmbPaths, cfg: ShareConfig) -> Seq<char> {
    "rm -f "@ + paths.share_conf@ + "\nsed -i '\\#"@ + include_text(paths.share_conf@) + "#d' "@
        + paths.smb_conf@ + "\nsed -i '/"@ + MARKER@ + "/d' "@ + paths.smb_conf@ + "\n"@
        + deauth_text(cfg.auth) + "systemctl reload smbd\n\n"@ + close_fragment_text(
        cfg.port,
        Protocol::Tcp,
    ) + "\n"@
}

/// Body of the root rollback script: removes the isolated conf, the include
/// line and the marker, removes the Samba account of an authenticated share
/// (tolerating its absence), reloads `smbd` and closes the port.
pub fn build_rollback_script(paths: &SmbPaths, cfg: &ShareConfig) -> (r: String)
    ensures
        r@ == rollback_script_text(*paths, *cfg),
{
    let inc_line = paths.include_line();
    let firewall = FirewallManager.close_fragment(cfg.port, Protocol::Tcp);
    let mut s = "rm -f ".to_owned();
    push_str(&mut s, paths.share_conf.as_str());
    push_str(&mut s, "\nsed -i '\\#");
    push_str(&mut s, inc_line.as_str());
    push_str(&mut s, "#d' ");
    push_str(&mut s, paths.smb_conf.as_str());
    push_str(&mut s, "\nsed -i '/");
    push_str(&mut s, MARKER);
    push_str(&mut s, "/d' ");
    push_str(&mut s, paths.smb_conf.as_str());
    push_str(&mut s, "\n");
    match &cfg.auth {
        ShareAuth::User { username } => {
            push_str(&mut s, "smbpasswd -x ");
            let q = sh_squote(username.as_str());
            push_str(&mut s, q.as_str());
            push_str(&mut s, " || true\n");
        },
        ShareAuth::Guest => {},
    }
    push_str(&mut s, "systemctl reload smbd\n\n");
    push_str(&mut s, firewall.as_str());
    push_str(&mut s, "\n");
    s
}

/// `t` is a prefix of `s`.
pub open spec fn starts_with(s: Seq<char>, t: Seq<char>) -> bool {
    s.len() >= t.len() && s.subrange(0, t.len() as int) == t
}

/// `t` is a suffix of `s`.
pub open spec fn ends_with(s: Seq<char>, t: Seq<char>) -> bool {
    s.len() >= t.len() && s.subrange(s.len() - t.len(), s.len() as int) == t
}

proof fn lemma_apply_appends_line(paths: SmbPaths, cfg: ShareConfig, password: Option<Seq<char>>)
    ensures
        contains_text(
            apply_script_text(paths, cfg, password),
            MARKER@ + "\\n"@ + include_text(paths.share_conf@) + "\\n' >> "@ + paths.smb_conf@,
        ),
{
    let a = apply_script_text(paths, cfg, password);
    let inc = include_text(paths.share_conf@);
    let xa = MARKER@ + "\\n"@ + inc + "\\n' >> "@ + paths.smb_conf@;
    let qa = "cat > "@ + paths.share_conf@ + " <<'OPLEOF'\n"@ + smb_conf_text(cfg)
        + "OPLEOF\n\nif ! grep -qxF '"@ + inc + "' "@ + paths.smb_conf@ + "; then\n  printf '\\n"@;
    let ta = "\nfi\n\n"@ + auth_fragment_text(cfg, password) + "systemctl reload smbd\n\n"@
        + open_fragment_text(cfg.port, Protocol::Tcp) + "\n"@;
    assert(a =~= qa + xa + ta);
    assert(a.subrange(qa.len() as int, (qa.len() + xa.len()) as int) =~= xa);
}

proof fn lemma_rollback_deletes_line(paths: SmbPaths, cfg: ShareConfig)
    ensures
        contains_text(
            rollback_script_text(paths, cfg),
            include_text(paths.share_conf@) + "#d' "@ + paths.smb_conf@,
        ),
        contains_text(rollback_script_text(paths, cfg), MARKER@ + "/d' "@ + paths.smb_conf@),
{
    let r = rollback_script_text(paths, cfg);
    let inc = include_text(paths.share_conf@);
    let xr = inc + "#d' "@ + paths.smb_conf@;
    let qr = "rm -f "@ + paths.share_conf@ + "\nsed -i '\\#"@;
    let zr = MARKER@ + "/d' "@ + paths.smb_conf@;
    let mr = "\nsed -i '/"@;
    let tr = "\n"@ + deauth_text(cfg.auth) + "systemctl reload smbd\n\n"@ + close_fragment_text(
        cfg.port,
        Protocol::Tcp,
    ) + "\n"@;
    assert(r =~= qr + xr + mr + zr + tr);
    assert(r.subrange(qr.len() as int, (qr.len() + xr.len()) as int) =~= xr);
    let pz = qr + xr + mr;
    assert(r.subrange(pz.len() as int, (pz.len() + zr.len()) as int) =~= zr);
}

/// `t` occurs in `s`.
pub open spec fn contains_text(s: Seq<char>, t: Seq<char>) -> bool {
    exists|i: int| 0 <= i && i + t.len() <= s.len() && #[trigger] s.subrange(i, i + t.len()) == t
}

/// Rollback undoes apply: apply starts by writing the isolated conf, appends
/// the marker and the include line to `smb.conf`, and ends by opening the
/// share's TCP port; rollback starts by deleting that same conf, deletes that
/// same include line and the marker from that same `smb.conf`, and ends by
/// closing that same port, whatever the password.
#[verifier::rlimit(30)]
pub proof fn law_rollback_matches_apply(paths: SmbPaths, cfg: ShareConfig, password: Option<Seq<char>>)
    ensures
        contains_text(
            apply_script_text(paths, cfg, password),
            MARKER@ + "\\n"@ + include_text(paths.share_conf@) + "\\n' >> "@ + paths.smb_conf@,
        ),
        contains_text(
            rollback_script_text(paths, cfg),
            include_text(paths.share_conf@) + "#d' "@ + paths.smb_conf@,
        ),
        contains_text(rollback_script_text(paths, cfg), MARKER@ + "/d' "@ + paths.smb_conf@),
        starts_with(apply_script_text(paths, cfg, password), "cat > "@ + paths.share_conf@),
        starts_with(rollback_script_text(paths, cfg), "rm -f "@ + paths.share_conf@),
        ends_with(
            apply_script_text(paths, cfg, password),
            open_fragment_text(cfg.port, Protocol::Tcp) + "\n"@,
        ),
        ends_with(
            rollback_script_text(paths, cfg),
            close_fragment_text(cfg.port, Protocol::Tcp) + "\n"@,
        ),
{
    let a = apply_script_text(paths, cfg, password);
    let r = rollback_script_text(paths, cfg);
    let oa = open_fragment_text(cfg.port, Protocol::Tcp) + "\n"@;
    let cr = close_fragment_text(cfg.port, Protocol::Tcp) + "\n"@;
    let pa = "cat > "@ + paths.share_conf@;
    let pr = "rm -f "@ + paths.share_conf@;
    let inc = include_text(paths.share_conf@);
    let ha = "cat > "@ + paths.share_conf@ + " <<'OPLEOF'\n"@ + smb_conf_text(cfg)
        + "OPLEOF\n\nif ! grep -qxF '"@ + inc + "' "@ + paths.smb_conf@ + "; then\n  printf '\\n"@
        + MARKER@ + "\\n"@ + inc + "\\n' >> "@ + paths.smb_conf@ + "\nfi\n\n"@
        + auth_fragment_text(cfg, password) + "systemctl reload smbd\n\n"@;
    assert(a =~= ha + oa);
    assert(a.subrange(a.len() - oa.len(), a.len() as int) =~= oa);
    let hr = "rm -f "@ + paths.share_conf@ + "\nsed -i '\\#"@ + inc + "#d' "@ + paths.smb_conf@
        + "\nsed -i '/"@ + MARKER@ + "/d' "@ + paths.smb_conf@ + "\n"@ + deauth_text(cfg.auth)
        + "systemctl reload smbd\n\n"@;
    assert(r =~= hr + cr);
    assert(r.subrange(r.len() - cr.len(), r.len() as int) =~= cr);
    assert(a.subrange(0, pa.len() as int) =~= pa) by {
        assert(ha.subrange(0, pa.len() as int) =~= pa);
    }
    assert(r.subrange(0, pr.len() as int) =~= pr) by {
        assert(hr.subrange(0, pr.len() as int) =~= pr);
    }
    lemma_apply_appends_line(paths, cfg, password);
    lemma_rollback_deletes_line(paths, cfg);
}

/// The share is writable: whatever the configuration, `opl_share.conf` holds
/// the line `read only = no` after the share's header, so the loader can write
/// (virtual memory cards, settings) as well as read.
pub proof fn law_share_is_writable(cfg: ShareConfig)
    ensures
        contains_text(smb_conf_text(cfg), cfg.share_name@ + "]\n"@),
        contains_text(smb_conf_text(cfg), "   read only = no\n"@),
{
    reveal_strlit("   read only = no\n");
    reveal_strlit("   read only = no\n   browseable = yes\n   force user = ");
    reveal_strlit("]\n");
    reveal_strlit("]\n   comment = OPL Share\n   path = ");
    reveal_strlit("   comment = OPL Share\n   path = ");
    reveal_strlit("   browseable = yes\n   force user = ");
    let c = smb_conf_text(cfg);
    let p1 = "[global]\n"@ + smb_ports_text(cfg.port) + CONF_GLOBAL@;
    let h = cfg.share_name@ + "]\n"@;
    let rest1 = "   comment = OPL Share\n   path = "@ + cfg.target_dir@ + "\n"@ + access_text(cfg.auth)
        + "   read only = no\n   browseable = yes\n   force user = "@ + cfg.owner_user@ + "\n"@;
    assert("]\n   comment = OPL Share\n   path = "@ =~= "]\n"@ + "   comment = OPL Share\n   path = "@);
    assert(c =~= p1 + h + rest1);
    assert(c.subrange(p1.len() as int, (p1.len() + h.len()) as int) =~= h);
    let p2 = p1 + cfg.share_name@ + "]\n   comment = OPL Share\n   path = "@ + cfg.target_dir@
        + "\n"@ + access_text(cfg.auth);
    let w = "   read only = no\n"@;
    let t2 = "   browseable = yes\n   force user = "@ + cfg.owner_user@ + "\n"@;
    assert("   read only = no\n   browseable = yes\n   force user = "@ =~= w
        + "   browseable = yes\n   force user = "@);
    assert(c =~= p2 + w + t2);
    assert(c.subrange(p2.len() as int, (p2.len() + w.len()) as int) =~= w);
}

/// No character of `s` is a line break.
pub open spec fn no_newline(s: Seq<char>) -> bool {
    forall|j: int| 0 <= j < s.len() ==> s[j] != '\n'
}

/// `x` is a whole line of `s`, a text whose lines each end in a line break.
pub open spec fn has_line(s: Seq<char>, x: Seq<char>) -> bool {
    contains_text("\n"@ + s, "\n"@ + x + "\n"@)
}

/// Empty, or ending in a line break.
pub open spec fn ends_line(s: Seq<char>) -> bool {
    s.len() == 0 || s.last() == '\n'
}

/// A single line holds exactly itself.
proof fn lemma_single_line(l: Seq<char>, x: Seq<char>)
    requires
        no_newline(l),
        no_newline(x),
    ensures
        has_line(l + "\n"@, x) <==> l == x,
        ends_line(l + "\n"@),
{
    reveal_strlit("\n");
    let t = l + "\n"@;
    let big = "\n"@ + t;
    let p = "\n"@ + x + "\n"@;
    assert(big.len() == l.len() + 2);
    assert(p.len() == x.len() + 2);
    assert(t.last() == '\n');
    if l == x {
        assert(big.subrange(0, 0 + p.len() as int) =~= p);
    }
    if has_line(t, x) {
        let i = choose|i: int|
            0 <= i && i + p.len() <= big.len() && #[trigger] big.subrange(i, i + p.len()) == p;
        assert(big.subrange(i, i + p.len())[0] == p[0]);
        if 1 <= i <= l.len() {
            assert(big[i] == l[i - 1]);
        }
        assert(i == 0);
        let k = x.len() + 1 as int;
        assert(big.subrange(i, i + p.len())[k] == p[k]);
        if x.len() < l.len() {
            assert(big[k] == l[k - 1]);
        }
        assert(x.len() == l.len());
        assert forall|j: int| 0 <= j < x.len() implies x[j] == l[j] by {
            assert(big.subrange(i, i + p.len())[j + 1] == p[j + 1]);
        }
        assert(l =~= x);
    }
}

/// The lines of two texts put one after the other are those of each.
proof fn lemma_join_lines(a: Seq<char>, b: Seq<char>, x: Seq<char>)
    requires
        ends_line(a),
        ends_line(b),
        no_newline(x),
    ensures
        ends_line(a + b),
        has_line(a + b, x) <==> has_line(a, x) || has_line(b, x),
{
    reveal_strlit("\n");
    let p = "\n"@ + x + "\n"@;
    let m = p.len() as int;
    let ha = "\n"@ + a;
    let hb = "\n"@ + b;
    let big = "\n"@ + (a + b);
    assert(big =~= ha + b);
    assert(ha[ha.len() - 1] == '\n') by {
        if a.len() > 0 {
            assert(ha[ha.len() - 1] == a[a.len() - 1]);
        }
    }
    assert forall|t: int| 0 <= t < hb.len() implies big[ha.len() - 1 + t] == hb[t] by {
        if t > 0 {
            assert(big[ha.len() - 1 + t] == b[t - 1]);
        }
    }
    if b.len() > 0 {
        assert((a + b).last() == b.last());
    } else {
        assert(a + b =~= a);
    }
    if has_line(a, x) {
        let i = choose|i: int|
            0 <= i && i + p.len() <= ha.len() && #[trigger] ha.subrange(i, i + p.len()) == p;
        assert(big.subrange(i, i + p.len()) =~= ha.subrange(i, i + p.len()));
    }
    if has_line(b, x) {
        let j = choose|j: int|
            0 <= j && j + p.len() <= hb.len() && #[trigger] hb.subrange(j, j + p.len()) == p;
        let i = ha.len() - 1 + j;
        assert(big.subrange(i, i + p.len()) =~= hb.subrange(j, j + p.len()));
    }
    if has_line(a + b, x) {
        let i = choose|i: int|
            0 <= i && i + p.len() <= big.len() && #[trigger] big.subrange(i, i + p.len()) == p;
        if i + m <= ha.len() {
            assert(ha.subrange(i, i + p.len()) =~= big.subrange(i, i + p.len()));
        } else if i >= ha.len() - 1 {
            let j = i - (ha.len() - 1);
            assert(hb.subrange(j, j + p.len()) =~= big.subrange(i, i + p.len()));
        } else {
            let k = ha.len() - 1 - i;
            assert(big.subrange(i, i + p.len())[k] == p[k]);
            assert(p[k] == x[k - 1]);
        }
    }
}

/// One more line after a text of whole lines.
proof fn lemma_add_line(a: Seq<char>, l: Seq<char>, x: Seq<char>)
    requires
        ends_line(a),
        no_newline(l),
        no_newline(x),
    ensures
        ends_line(a + (l + "\n"@)),
        has_line(a + (l + "\n"@), x) <==> has_line(a, x) || l == x,
{
    lemma_single_line(l, x);
    lemma_join_lines(a, l + "\n"@, x);
}

/// The lines of `opl_share.conf`, when none of the configured names holds a
/// line break.
proof fn lemma_conf_lines(cfg: ShareConfig, x: Seq<char>)
    requires
        no_newline(x),
        no_newline(cfg.share_name@),
        no_newline(cfg.target_dir@),
        no_newline(cfg.owner_user@),
        cfg.auth matches ShareAuth::User { username } ==> no_newline(username@),
    ensures
        has_line(smb_conf_text(cfg), x) <==> {
            ||| x == "[global]"@
            ||| cfg.port != 445 && x == "   smb ports = "@ + decimal(cfg.port as nat)
            ||| x == "   client min protocol = NT1"@
            ||| x == "   server min protocol = NT1"@
            ||| x == "   ntlm auth = yes"@
            ||| x == "   lanman auth = yes"@
            ||| x == "   usershare allow guests = yes"@
            ||| x == Seq::<char>::empty()
            ||| x == "["@ + cfg.share_name@ + "]"@
            ||| x == "   comment = OPL Share"@
            ||| x == "   path = "@ + cfg.target_dir@
            ||| match cfg.auth {
                ShareAuth::Guest => x == "   guest ok = yes"@,
                ShareAuth::User { username } => x == "   guest ok = no"@ || x
                    == "   valid users = "@ + username@,
            }
            ||| x == "   read only = no"@
            ||| x == "   browseable = yes"@
            ||| x == "   force user = "@ + cfg.owner_user@
        },
{
    reveal_strlit("\n");
    reveal_strlit("[global]\n");
    reveal_strlit("[global]");
    reveal_strlit("   smb ports = ");
    reveal_strlit("   client min protocol = NT1");
    reveal_strlit("   server min protocol = NT1");
    reveal_strlit("   ntlm auth = yes");
    reveal_strlit("   lanman auth = yes");
    reveal_strlit("   usershare allow guests = yes");
    reveal_strlit("[");
    reveal_strlit("]");
    reveal_strlit("   comment = OPL Share");
    reveal_strlit("   path = ");
    reveal_strlit("   guest ok = yes");
    reveal_strlit("   guest ok = yes\n");
    reveal_strlit("   guest ok = no");
    reveal_strlit("   guest ok = no\n   valid users = ");
    reveal_strlit("   valid users = ");
    reveal_strlit("   read only = no");
    reveal_strlit("   browseable = yes");
    reveal_strlit("   force user = ");
    reveal_strlit(
        "   client min protocol = NT1\n   server min protocol = NT1\n   ntlm auth = yes\n   lanman auth = yes\n   usershare allow guests = yes\n\n[",
    );
    reveal_strlit("]\n   comment = OPL Share\n   path = ");
    reveal_strlit("   read only = no\n   browseable = yes\n   force user = ");
    let nl = "\n"@;
    let e = Seq::<char>::empty();
    let l2 = "   smb ports = "@ + decimal(cfg.port as nat);
    let l9 = "["@ + cfg.share_name@ + "]"@;
    let l11 = "   path = "@ + cfg.target_dir@;
    let l15 = "   force user = "@ + cfg.owner_user@;
    lemma_decimal_shape(cfg.port as nat);
    assert(no_newline(l2));
    assert(no_newline(l9));
    assert(no_newline(l11));
    assert(no_newline(l15));
    assert(no_newline("[global]"@));
    assert(no_newline("   client min protocol = NT1"@));
    assert(no_newline("   server min protocol = NT1"@));
    assert(no_newline("   ntlm auth = yes"@));
    assert(no_newline("   lanman auth = yes"@));
    assert(no_newline("   usershare allow guests = yes"@));
    assert(no_newline(e));
    assert(no_newline("   comment = OPL Share"@));
    assert(no_newline("   guest ok = yes"@));
    assert(no_newline("   guest ok = no"@));
    assert(no_newline("   read only = no"@));
    assert(no_newline("   browseable = yes"@));
    // The global section.
    lemma_single_line("[global]"@, x);
    let s1 = "[global]"@ + nl;
    let s2 = if cfg.port != 445 {
        lemma_add_line(s1, l2, x);
        s1 + (l2 + nl)
    } else {
        s1
    };
    assert(s2 =~= "[global]\n"@ + smb_ports_text(cfg.port));
    lemma_add_line(s2, "   client min protocol = NT1"@, x);
    let s3 = s2 + ("   client min protocol = NT1"@ + nl);
    lemma_add_line(s3, "   server min protocol = NT1"@, x);
    let s4 = s3 + ("   server min protocol = NT1"@ + nl);
    lemma_add_line(s4, "   ntlm auth = yes"@, x);
    let s5 = s4 + ("   ntlm auth = yes"@ + nl);
    lemma_add_line(s5, "   lanman auth = yes"@, x);
    let s6 = s5 + ("   lanman auth = yes"@ + nl);
    lemma_add_line(s6, "   usershare allow guests = yes"@, x);
    let s7 = s6 + ("   usershare allow guests = yes"@ + nl);
    lemma_add_line(s7, e, x);
    let s8 = s7 + (e + nl);
    // The share's section.
    lemma_add_line(s8, l9, x);
    let s9 = s8 + (l9 + nl);
    lemma_add_line(s9, "   comment = OPL Share"@, x);
    let s10 = s9 + ("   comment = OPL Share"@ + nl);
    lemma_add_line(s10, l11, x);
    let s11 = s10 + (l11 + nl);
    let s12 = match cfg.auth {
        ShareAuth::Guest => {
            lemma_add_line(s11, "   guest ok = yes"@, x);
            assert(access_text(cfg.auth) =~= "   guest ok = yes"@ + nl);
            s11 + ("   guest ok = yes"@ + nl)
        },
        ShareAuth::User { username } => {
            let lu = "   valid users = "@ + username@;
            assert(no_newline(lu));
            lemma_add_line(s11, "   guest ok = no"@, x);
            let t = s11 + ("   guest ok = no"@ + nl);
            lemma_add_line(t, lu, x);
            assert(access_text(cfg.auth) =~= ("   guest ok = no"@ + nl) + (lu + nl));
            t + (lu + nl)
        },
    };
    assert(s12 =~= s11 + access_text(cfg.auth));
    lemma_add_line(s12, "   read only = no"@, x);
    let s13 = s12 + ("   read only = no"@ + nl);
    lemma_add_line(s13, "   browseable = yes"@, x);
    let s14 = s13 + ("   browseable = yes"@ + nl);
    lemma_add_line(s14, l15, x);
    let s15 = s14 + (l15 + nl);
    assert(CONF_GLOBAL@ =~= ("   client min protocol = NT1"@ + nl) + ("   server min protocol = NT1"@
        + nl) + ("   ntlm auth = yes"@ + nl) + ("   lanman auth = yes"@ + nl) + (
    "   usershare allow guests = yes"@ + nl) + (e + nl) + "["@);
    assert("]\n   comment = OPL Share\n   path = "@ =~= "]"@ + nl + ("   comment = OPL Share"@ + nl)
        + "   path = "@);
    assert("   read only = no\n   browseable = yes\n   force user = "@ =~= ("   read only = no"@
        + nl) + ("   browseable = yes"@ + nl) + "   force user = "@);
    assert(s8 + "["@ =~= "[global]\n"@ + smb_ports_text(cfg.port) + CONF_GLOBAL@);
    assert(s11 =~= "[global]\n"@ + smb_ports_text(cfg.port) + CONF_GLOBAL@ + cfg.share_name@
        + "]\n   comment = OPL Share\n   path = "@ + cfg.target_dir@ + "\n"@);
    assert(s15 =~= smb_conf_text(cfg));
}

/// Nothing in `opl_share.conf` makes the share read-only: while none of the
/// configured names holds a line break, the file has the line
/// `   read only = no` and no line `   read only = yes` or `   writable = no`.
pub proof fn law_share_never_read_only(cfg: ShareConfig)
    requires
        no_newline(cfg.share_name@),
        no_newline(cfg.target_dir@),
        no_newline(cfg.owner_user@),
        cfg.auth matches ShareAuth::User { username } ==> no_newline(username@),
    ensures
        has_line(smb_conf_text(cfg), "   read only = no"@),
        !has_line(smb_conf_text(cfg), "   read only = yes"@),
        !has_line(smb_conf_text(cfg), "   writable = no"@),
{
    reveal_strlit("   read only = no");
    reveal_strlit("   read only = yes");
    reveal_strlit("   writable = no");
    reveal_strlit("[global]");
    reveal_strlit("   smb ports = ");
    reveal_strlit("   client min protocol = NT1");
    reveal_strlit("   server min protocol = NT1");
    reveal_strlit("   ntlm auth = yes");
    reveal_strlit("   lanman auth = yes");
    reveal_strlit("   usershare allow guests = yes");
    reveal_strlit("[");
    reveal_strlit("   comment = OPL Share");
    reveal_strlit("   path = ");
    reveal_strlit("   guest ok = yes");
    reveal_strlit("   guest ok = no");
    reveal_strlit("   valid users = ");
    reveal_strlit("   browseable = yes");
    reveal_strlit("   force user = ");
    let ro = "   read only = no"@;
    assert(no_newline(ro));
    lemma_conf_lines(cfg, ro);
    let ry = "   read only = yes"@;
    let wn = "   writable = no"@;
    assert(no_newline(ry));
    assert(no_newline(wn));
    lemma_conf_lines(cfg, ry);
    lemma_conf_lines(cfg, wn);
    let name = cfg.share_name@;
    let l2 = "   smb ports = "@ + decimal(cfg.port as nat);
    let l9 = "["@ + name + "]"@;
    let l11 = "   path = "@ + cfg.target_dir@;
    let l15 = "   force user = "@ + cfg.owner_user@;
    assert(l2[3] == 's' && l9[0] == '[' && l11[3] == 'p' && l15[3] == 'f');
    assert(ry[0] == ' ' && ry[3] == 'r' && wn[0] == ' ' && wn[3] == 'w');
    if let ShareAuth::User { username } = cfg.auth {
        let lu = "   valid users = "@ + username@;
        assert(lu[3] == 'v');
    }
}

} // verus!
