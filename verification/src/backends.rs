//! The two storage backends. Each one composes its scripts (built in
//! `smb_script` and `udpbd_script`) and hands them to a runner: the privilege
//! escalator for what needs root, the user shell for what does not. What they
//! read of the machine (is `smbd` active, is the port taken, does the isolated
//! conf exist, what did `systemctl is-active` print) is passed in as plain
//! values, so that every decision here is checked.
use vstd::prelude::*;
use crate::domain::{BackendError, ServerStatus, ShareConfig, UdpbdConfig};
use crate::game_info::opt_view;
use crate::smb_script::{
    apply_script_text, build_apply_script, build_rollback_script, include_text,
    rollback_script_text, SmbPaths,
};
use crate::text::{
    chars_eq, chars_of, contains_char, decimal, lines, lines_vec, push_decimal, push_str, trim,
    trim_vec,
};
use crate::udpbd_script::{
    build_apply_script as build_udpbd_apply, build_rollback_script as build_udpbd_rollback,
    udpbd_apply_text, udpbd_rollback_text, under_dev, needs_root, UDPBD_UNIT,
};

verus! {

/// Runs a shell script as root, in a single privilege window (the real one
/// goes through Polkit's `pkexec`; tests record the script instead).
pub trait PrivilegeEscalator {
    /// The outcomes this escalator may give to running `script` as root, as
    /// its implementation describes them. By default nothing is described
    /// (every outcome is possible); an escalator that models its runs, such
    /// as a recording mock, narrows it.
    open spec fn root_runs(&self, script: Seq<char>, r: Result<(), BackendError>) -> bool {
        true
    }

    /// Runs `script` (the body of a `/bin/bash` script) as root.
    fn run_root_script(&self, script: &str) -> (r: Result<(), BackendError>)
        ensures
            self.root_runs(script@, r),
    ;
}

/// Runs a shell script as the current user, without elevation: the
/// counterpart of [`PrivilegeEscalator`] for an image file of the user.
pub trait UserShell {
    /// The outcomes this shell may give to running `script` (by default
    /// nothing is described).
    open spec fn user_runs(&self, script: Seq<char>, r: Result<(), BackendError>) -> bool {
        true
    }

    fn run_user_script(&self, script: &str) -> (r: Result<(), BackendError>)
        ensures
            self.user_runs(script@, r),
    ;
}

/// Name of the UDPBD server looked up on the `PATH` when no path is given.
pub const DEFAULT_SERVER_BIN: &'static str = "udpbd-server";

/// Some line of `text` (as `str::lines` splits it), once trimmed, is `line`.
pub open spec fn has_trimmed_line(text: Seq<char>, line: Seq<char>) -> bool {
    exists|i: int| 0 <= i < lines(text).len() && #[trigger] trim(lines(text)[i]) == line
}

/// Whether some line of `text`, trimmed, equals `line`.
pub fn has_trimmed_line_exec(text: &str, line: &str) -> (r: bool)
    ensures
        r == has_trimmed_line(text@, line@),
{
    let v = chars_of(text);
    let want = chars_of(line);
    let ls = lines_vec(&v);
    let mut i: usize = 0;
    while i < ls.len()
        invariant
            0 <= i <= ls@.len(),
            v@ == text@,
            want@ == line@,
            ls@.len() == lines(v@).len(),
            forall|k: int| 0 <= k < ls@.len() ==> #[trigger] ls@[k]@ == lines(v@)[k],
            forall|k: int| 0 <= k < i ==> #[trigger] trim(lines(v@)[k]) != line@,
        decreases ls@.len() - i,
    {
        let t = trim_vec(&ls[i]);
        assert(ls@[i as int]@ == lines(v@)[i as int]);
        if chars_eq(&t, &want) {
            assert(trim(lines(text@)[i as int]) == line@);
            return true;
        }
        i = i + 1;
    }
    false
}

/// `b"active"`, what `systemctl is-active` prints first for an active unit.
pub open spec fn active_word() -> Seq<u8> {
    seq![97u8, 99u8, 116u8, 105u8, 118u8, 101u8]
}

/// The output starts with the bytes of `active` (so `inactive` and
/// `activating` do not count).
pub open spec fn reports_active_spec(stdout: Seq<u8>) -> bool {
    stdout.len() >= 6 && stdout.subrange(0, 6) == active_word()
}

/// Whether the output of `systemctl is-active` starts with `active`.
pub fn reports_active(stdout: &[u8]) -> (r: bool)
    ensures
        r == reports_active_spec(stdout@),
{
    if stdout.len() < 6 {
        return false;
    }
    let r = stdout[0] == 97u8 && stdout[1] == 99u8 && stdout[2] == 116u8 && stdout[3] == 105u8
        && stdout[4] == 118u8 && stdout[5] == 101u8;
    proof {
        if r {
            assert(stdout@.subrange(0, 6) =~= active_word());
        } else if stdout@.subrange(0, 6) == active_word() {
            assert(stdout@.subrange(0, 6)[0] == stdout@[0]);
            assert(stdout@.subrange(0, 6)[1] == stdout@[1]);
            assert(stdout@.subrange(0, 6)[2] == stdout@[2]);
            assert(stdout@.subrange(0, 6)[3] == stdout@[3]);
            assert(stdout@.subrange(0, 6)[4] == stdout@[4]);
            assert(stdout@.subrange(0, 6)[5] == stdout@[5]);
        }
    }
    r
}

/// `Running` when serving, `Stopped` otherwise.
pub open spec fn status_of(serving: bool) -> ServerStatus {
    if serving {
        ServerStatus::Running
    } else {
        ServerStatus::Stopped
    }
}

/// The SMB configuration is applied: the isolated conf exists and the global
/// `smb.conf` (when it could be read) holds the line that pulls it in.
pub open spec fn smb_config_applied(
    paths: SmbPaths,
    share_conf_is_file: bool,
    smb_conf: Option<Seq<char>>,
) -> bool {
    share_conf_is_file && match smb_conf {
        Some(text) => has_trimmed_line(text, include_text(paths.share_conf@)),
        None => false,
    }
}

/// Whether the SMB configuration is applied, from what was read of the two
/// files: whether the isolated conf is a file, and the text of `smb.conf`
/// (`None` when it could not be read).
pub fn config_applied(paths: &SmbPaths, share_conf_is_file: bool, smb_conf: Option<&str>) -> (r:
    bool)
    ensures
        r == smb_config_applied(
            *paths,
            share_conf_is_file,
            match smb_conf {
                Some(t) => Some(t@),
                None => None,
            },
        ),
{
    if !share_conf_is_file {
        return false;
    }
    match smb_conf {
        Some(text) => {
            let line = paths.include_line();
            has_trimmed_line_exec(text, line.as_str())
        },
        None => false,
    }
}

/// The SMB backend: applies and removes the isolated share through one root
/// script each. Generic over the escalator, so that tests can record the
/// scripts instead of running them.
pub struct SmbBackend<E: PrivilegeEscalator> {
    paths: SmbPaths,
    escalator: E,
    /// Configuration to apply and to revert; rollback closes the port that
    /// apply opened.
    cfg: ShareConfig,
    /// Password of the Samba user in the authenticated mode, used only to
    /// build the apply script.
    auth_password: Option<String>,
}

impl<E: PrivilegeEscalator> SmbBackend<E> {
    pub closed spec fn paths_spec(&self) -> SmbPaths {
        self.paths
    }

    pub closed spec fn config(&self) -> ShareConfig {
        self.cfg
    }

    pub closed spec fn password(&self) -> Option<Seq<char>> {
        opt_view(self.auth_password)
    }

    pub closed spec fn escalator_spec(&self) -> E {
        self.escalator
    }

    /// Builds the backend from its configuration, paths and escalator, with no
    /// password.
    pub fn with_parts(cfg: ShareConfig, paths: SmbPaths, escalator: E) -> (r: Self)
        ensures
            r.config() == cfg,
            r.paths_spec() == paths,
            r.password() is None,
            r.escalator_spec() == escalator,
    {
        SmbBackend { paths, escalator, cfg, auth_password: None }
    }

    /// Sets the Samba password of the authenticated mode (`None` for guest).
    pub fn with_auth_password(self, password: Option<String>) -> (r: Self)
        ensures
            r.config() == self.config(),
            r.paths_spec() == self.paths_spec(),
            r.password() == opt_view(password),
            r.escalator_spec() == self.escalator_spec(),
    {
        SmbBackend {
            paths: self.paths,
            escalator: self.escalator,
            cfg: self.cfg,
            auth_password: password,
        }
    }

    /// The escalator the scripts are handed to.
    pub fn escalator(&self) -> (r: &E)
        ensures
            *r == self.escalator_spec(),
    {
        &self.escalator
    }

    /// What apply does, given whether `smbd` is active and whether something
    /// already listens on the share's port: when `smbd` is stopped and the
    /// port is taken, another service owns it and apply refuses; otherwise the
    /// script to run as root.
    pub fn apply_plan(&self, smbd_active: bool, port_listening: bool) -> (r: Result<
        String,
        BackendError,
    >)
        ensures
            !smbd_active && port_listening ==> r == Err::<String, BackendError>(
                BackendError::PortInUse(self.config().port),
            ),
            !(!smbd_active && port_listening) ==> (r matches Ok(s) && s@ == apply_script_text(
                self.paths_spec(),
                self.config(),
                self.password(),
            )),
    {
        if !smbd_active && port_listening {
            return Err(BackendError::PortInUse(self.cfg.port));
        }
        let pw: Option<&str> = match &self.auth_password {
            Some(p) => Some(p.as_str()),
            None => None,
        };
        Ok(build_apply_script(&self.paths, &self.cfg, pw))
    }

    /// Applies the share: refuses a port owned by another service (exactly
    /// when `smbd` is stopped and the port is taken), else runs the apply
    /// script through the escalator, in one privileged run, and returns what
    /// it returned.
    pub fn apply_config(&self, smbd_active: bool, port_listening: bool) -> (r: Result<
        (),
        BackendError,
    >)
        ensures
            !smbd_active && port_listening ==> r == Err::<(), BackendError>(
                BackendError::PortInUse(self.config().port),
            ),
            !(!smbd_active && port_listening) ==> self.escalator_spec().root_runs(
                apply_script_text(self.paths_spec(), self.config(), self.password()),
                r,
            ),
    {
        match self.apply_plan(smbd_active, port_listening) {
            Ok(script) => self.escalator.run_root_script(script.as_str()),
            Err(e) => Err(e),
        }
    }

    /// The rollback script of this backend's paths and configuration.
    pub fn rollback_script(&self) -> (r: String)
        ensures
            r@ == rollback_script_text(self.paths_spec(), self.config()),
    {
        build_rollback_script(&self.paths, &self.cfg)
    }

    /// Removes everything apply did, through the escalator, and returns what
    /// it returned.
    pub fn rollback(&self) -> (r: Result<(), BackendError>)
        ensures
            self.escalator_spec().root_runs(
                rollback_script_text(self.paths_spec(), self.config()),
                r,
            ),
    {
        let script = self.rollback_script();
        self.escalator.run_root_script(script.as_str())
    }

    /// Status from what was read of the files: `Running` exactly when the
    /// configuration is applied (not the state of the system's `smbd`).
    pub fn status_from(&self, share_conf_is_file: bool, smb_conf: Option<&str>) -> (r:
        ServerStatus)
        ensures
            r == status_of(
                smb_config_applied(
                    self.paths_spec(),
                    share_conf_is_file,
                    match smb_conf {
                        Some(t) => Some(t@),
                        None => None,
                    },
                ),
            ),
    {
        if config_applied(&self.paths, share_conf_is_file, smb_conf) {
            ServerStatus::Running
        } else {
            ServerStatus::Stopped
        }
    }
}

/// How to tell whether the UDPBD server binary is there: a name with a `/`
/// is a path whose file is checked; a bare name is looked up on the `PATH`
/// with this shell command.
#[derive(Debug, Clone, PartialEq, Eq)]
pub enum ServerCheck {
    IsFile(String),
    ShellCommand(String),
}

/// `systemctl [--user ]is-active oplhost-udpbd`.
pub open spec fn status_command_text(user_scope: bool) -> Seq<char> {
    "systemctl "@ + (if user_scope {
        "--user "@
    } else {
        seq![]
    }) + "is-active "@ + UDPBD_UNIT@
}

/// `command -v <bin> >/dev/null 2>&1`.
pub open spec fn lookup_command_text(bin: Seq<char>) -> Seq<char> {
    "command -v "@ + bin + " >/dev/null 2>&1"@
}

/// The UDPBD backend: supervises an existing `udpbd-server` in a transient
/// systemd unit. A raw device under `/dev/` needs root (system unit, through
/// the escalator); an image file of the user runs as a `--user` unit through
/// the user shell, with no password.
pub struct UdpbdBackend<E: PrivilegeEscalator, R: UserShell> {
    cfg: UdpbdConfig,
    server_bin: String,
    escalator: E,
    shell: R,
}

impl<E: PrivilegeEscalator, R: UserShell> UdpbdBackend<E, R> {
    pub closed spec fn config(&self) -> UdpbdConfig {
        self.cfg
    }

    pub closed spec fn server_bin_spec(&self) -> Seq<char> {
        self.server_bin@
    }

    pub closed spec fn escalator_spec(&self) -> E {
        self.escalator
    }

    pub closed spec fn shell_spec(&self) -> R {
        self.shell
    }

    /// The target is an image file of the user (no root needed).
    pub open spec fn user_scope_spec(&self) -> bool {
        !under_dev(self.config().device@)
    }

    /// Builds the backend from its configuration, server binary and runners.
    pub fn with_parts(cfg: UdpbdConfig, server_bin: String, escalator: E, shell: R) -> (r: Self)
        ensures
            r.config() == cfg,
            r.server_bin_spec() == server_bin@,
            r.escalator_spec() == escalator,
            r.shell_spec() == shell,
    {
        UdpbdBackend { cfg, server_bin, escalator, shell }
    }

    /// Points at a specific `udpbd-server` binary.
    pub fn with_server_bin(self, bin: String) -> (r: Self)
        ensures
            r.config() == self.config(),
            r.server_bin_spec() == bin@,
            r.escalator_spec() == self.escalator_spec(),
            r.shell_spec() == self.shell_spec(),
    {
        UdpbdBackend { cfg: self.cfg, server_bin: bin, escalator: self.escalator, shell: self.shell }
    }

    pub fn escalator(&self) -> (r: &E)
        ensures
            *r == self.escalator_spec(),
    {
        &self.escalator
    }

    pub fn shell(&self) -> (r: &R)
        ensures
            *r == self.shell_spec(),
    {
        &self.shell
    }

    /// `true` when the target is an image file (runs as `--user`, no root).
    pub fn user_scope(&self) -> (r: bool)
        ensures
            r == self.user_scope_spec(),
    {
        !needs_root(self.cfg.device.as_str())
    }

    /// The apply script for this target, in its scope.
    pub fn apply_script(&self) -> (r: String)
        ensures
            r@ == udpbd_apply_text(
                self.config().device@,
                self.server_bin_spec(),
                self.user_scope_spec(),
            ),
    {
        let user_scope = self.user_scope();
        build_udpbd_apply(&self.cfg, self.server_bin.as_str(), user_scope)
    }

    /// The rollback script for this target's scope.
    pub fn rollback_script(&self) -> (r: String)
        ensures
            r@ == udpbd_rollback_text(self.user_scope_spec()),
    {
        build_udpbd_rollback(self.user_scope())
    }

    /// Starts the server: the apply script goes to the user shell for an
    /// image file, to the escalator for a raw device; returns what the runner
    /// returned.
    pub fn apply(&self) -> (r: Result<(), BackendError>)
        ensures
            self.user_scope_spec() ==> self.shell_spec().user_runs(
                udpbd_apply_text(self.config().device@, self.server_bin_spec(), true),
                r,
            ),
            !self.user_scope_spec() ==> self.escalator_spec().root_runs(
                udpbd_apply_text(self.config().device@, self.server_bin_spec(), false),
                r,
            ),
    {
        let script = self.apply_script();
        if self.user_scope() {
            self.shell.run_user_script(script.as_str())
        } else {
            self.escalator.run_root_script(script.as_str())
        }
    }

    /// Stops the server (and, for a raw device, closes the port) through the
    /// runner of the target's scope; returns what it returned.
    pub fn rollback(&self) -> (r: Result<(), BackendError>)
        ensures
            self.user_scope_spec() ==> self.shell_spec().user_runs(udpbd_rollback_text(true), r),
            !self.user_scope_spec() ==> self.escalator_spec().root_runs(
                udpbd_rollback_text(false),
                r,
            ),
    {
        let script = self.rollback_script();
        if self.user_scope() {
            self.shell.run_user_script(script.as_str())
        } else {
            self.escalator.run_root_script(script.as_str())
        }
    }

    /// The command whose output tells whether the unit is active, in the
    /// target's scope.
    pub fn status_command(&self) -> (r: String)
        ensures
            r@ == status_command_text(self.user_scope_spec()),
    {
        let mut s = "systemctl ".to_owned();
        if self.user_scope() {
            push_str(&mut s, "--user ");
        }
        push_str(&mut s, "is-active ");
        push_str(&mut s, UDPBD_UNIT);
        s
    }

    /// Status from the output of the status command (`None` when it could not
    /// run): serving exactly when it starts with `active`. A failure is never
    /// an error, only `Stopped`.
    pub fn status_from_output(stdout: Option<&[u8]>) -> (r: ServerStatus)
        ensures
            r == status_of(
                match stdout {
                    Some(b) => reports_active_spec(b@),
                    None => false,
                },
            ),
    {
        let active = match stdout {
            Some(b) => reports_active(b),
            None => false,
        };
        if active {
            ServerStatus::Running
        } else {
            ServerStatus::Stopped
        }
    }

    /// How to check that the server binary is available.
    pub fn server_check(&self) -> (r: ServerCheck)
        ensures
            self.server_bin_spec().contains('/') ==> (r matches ServerCheck::IsFile(p) && p@
                == self.server_bin_spec()),
            !self.server_bin_spec().contains('/') ==> (r matches ServerCheck::ShellCommand(c)
                && c@ == lookup_command_text(self.server_bin_spec())),
    {
        let v = chars_of(self.server_bin.as_str());
        if contains_char(&v, '/') {
            return ServerCheck::IsFile(self.server_bin.clone());
        }
        let mut c = "command -v ".to_owned();
        push_str(&mut c, self.server_bin.as_str());
        push_str(&mut c, " >/dev/null 2>&1");
        ServerCheck::ShellCommand(c)
    }
}

/// `{}` of an `i32`.
pub open spec fn signed_decimal(c: int) -> Seq<char> {
    if c < 0 {
        "-"@ + decimal((-c) as nat)
    } else {
        decimal(c as nat)
    }
}

fn push_signed(out: &mut String, c: i32)
    ensures
        final(out)@ == old(out)@ + signed_decimal(c as int),
{
    if c < 0 {
        push_str(out, "-");
        let m: i64 = -(c as i64);
        push_decimal(out, m as u64);
        assert(final(out)@ =~= old(out)@ + signed_decimal(c as int));
    } else {
        push_decimal(out, c as u64);
    }
}

/// The file the escalator runs as root: a bash script that stops at the first
/// failure, with the body inside.
pub open spec fn root_script_file_text(script: Seq<char>) -> Seq<char> {
    "#!/bin/bash\nset -euo pipefail\n"@ + script + "\n"@
}

/// Text of the root script file.
pub fn root_script_file(script: &str) -> (r: String)
    ensures
        r@ == root_script_file_text(script@),
{
    let mut s = "#!/bin/bash\nset -euo pipefail\n".to_owned();
    push_str(&mut s, script);
    push_str(&mut s, "\n");
    s
}

/// The message of a root script that exited with another status.
pub open spec fn root_failed_text(c: int) -> Seq<char> {
    "operação root falhou (status "@ + signed_decimal(c) + ")"@
}

/// Maps the exit of the root script to the backend's result.
pub fn root_exit_result(success: bool, code: Option<i32>) -> (r: Result<(), BackendError>)
    ensures
        success ==> r is Ok,
        !success ==> match code {
            Some(c) => if c == 126 || c == 127 {
                r == Err::<(), BackendError>(BackendError::PrivilegeDenied)
            } else {
                r matches Err(BackendError::Other(m)) && m@ == root_failed_text(c as int)
            },
            None => r matches Err(BackendError::Other(m)) && m@
                == "operação root terminada por sinal"@,
        },
{
    if success {
        return Ok(());
    }
    match code {
        Some(c) => {
            if c == 126 || c == 127 {
                Err(BackendError::PrivilegeDenied)
            } else {
                let mut m = "operação root falhou (status ".to_owned();
                push_signed(&mut m, c);
                push_str(&mut m, ")");
                Err(BackendError::Other(m))
            }
        },
        None => Err(BackendError::Other("operação root terminada por sinal".to_owned())),
    }
}

/// The script the user shell runs: stops at the first failure.
pub open spec fn user_script_text(script: Seq<char>) -> Seq<char> {
    "set -euo pipefail\n"@ + script + "\n"@
}

/// Text handed to `bash -c` for a user script.
pub fn user_script(script: &str) -> (r: String)
    ensures
        r@ == user_script_text(script@),
{
    let mut s = "set -euo pipefail\n".to_owned();
    push_str(&mut s, script);
    push_str(&mut s, "\n");
    s
}

/// `{:?}` of the exit status of the user script.
pub open spec fn status_debug(code: Option<i32>) -> Seq<char> {
    match code {
        Some(c) => "Some("@ + signed_decimal(c as int) + ")"@,
        None => "None"@,
    }
}

/// Maps the exit of the user script (the `--user` unit) to the backend's
/// result.
pub fn user_exit_result(success: bool, code: Option<i32>) -> (r: Result<(), BackendError>)
    ensures
        success ==> r is Ok,
        !success ==> (r matches Err(BackendError::Other(m)) && m@
            == "udpbd-server (systemd --user) falhou (status "@ + status_debug(code) + ")"@),
{
    if success {
        return Ok(());
    }
    let mut m = "udpbd-server (systemd --user) falhou (status ".to_owned();
    match code {
        Some(c) => {
            push_str(&mut m, "Some(");
            push_signed(&mut m, c);
            push_str(&mut m, ")");
        },
        None => push_str(&mut m, "None"),
    }
    push_str(&mut m, ")");
    Err(BackendError::Other(m))
}

} // verus!
