//! Builders of the UDPBD backend's scripts. The `udpbd-server <device>` is a
//! blocking process that serves a block device or image over UDP 48573; the
//! application supervises it as a transient systemd unit, so that it outlives
//! the window and its state can be asked with `systemctl is-active`.
use vstd::prelude::*;
use crate::domain::{UdpbdConfig, UDPBD_PORT};
use crate::firewall::{close_fragment_text, open_fragment_text, FirewallManager, Protocol};
use crate::paths::join;
use crate::shell::{sh_squote, squote};
use crate::smb_script::{ends_with, starts_with};
use crate::text::{chars_of, eq_ignore_case, before_first, find_char_from, push_str, slice_vec};

verus! {

/// Name of the transient unit that runs the server; fixed, so that rollback
/// and status address the unit that apply created.
pub const UDPBD_UNIT: &'static str = "oplhost-udpbd";

/// `systemd-run` for the user scope (an image file of the user, no root) or
/// the system scope (a raw device, inside the Polkit window).
pub open spec fn systemd_run_text(user_scope: bool) -> Seq<char> {
    "systemd-run"@ + (if user_scope {
        " --user"@
    } else {
        seq![]
    }) + " --unit="@ + UDPBD_UNIT@ + " --collect"@
}

/// `systemctl` in the same scope.
pub open spec fn systemctl_text(user_scope: bool) -> Seq<char> {
    "systemctl"@ + if user_scope {
        " --user"@
    } else {
        seq![]
    }
}

pub fn systemd_run(user_scope: bool) -> (r: String)
    ensures
        r@ == systemd_run_text(user_scope),
{
    let mut s = "systemd-run".to_owned();
    if user_scope {
        push_str(&mut s, " --user");
    }
    push_str(&mut s, " --unit=");
    push_str(&mut s, UDPBD_UNIT);
    push_str(&mut s, " --collect");
    s
}

pub fn systemctl(user_scope: bool) -> (r: String)
    ensures
        r@ == systemctl_text(user_scope),
{
    let mut s = "systemctl".to_owned();
    if user_scope {
        push_str(&mut s, " --user");
    }
    s
}

/// The apply script.
pub open spec fn udpbd_apply_text(device: Seq<char>, server_bin: Seq<char>, user_scope: bool) -> Seq<
    char,
> {
    let firewall = if user_scope {
        seq![]
    } else {
        "\n\n"@ + open_fragment_text(UDPBD_PORT, Protocol::Udp)
    };
    systemctl_text(user_scope) + " reset-failed "@ + UDPBD_UNIT@ + " 2>/dev/null || true\n"@
        + systemd_run_text(user_scope) + " "@ + squote(server_bin) + " "@ + squote(device)
        + firewall + "\n"@
}

/// Body of the apply script: starts `udpbd-server <device>` as a transient
/// unit (resetting a failed one first) and, in the system scope, opens UDP
/// port 48573 in the same window. Without root the port cannot be opened, so
/// the user scope leaves the firewall alone.
pub fn build_apply_script(cfg: &UdpbdConfig, server_bin: &str, user_scope: bool) -> (r: String)
    ensures
        r@ == udpbd_apply_text(cfg.device@, server_bin@, user_scope),
{
    let run = systemd_run(user_scope);
    let ctl = systemctl(user_scope);
    let device = sh_squote(cfg.device.as_str());
    let bin = sh_squote(server_bin);
    let mut s = ctl;
    push_str(&mut s, " reset-failed ");
    push_str(&mut s, UDPBD_UNIT);
    push_str(&mut s, " 2>/dev/null || true\n");
    push_str(&mut s, run.as_str());
    push_str(&mut s, " ");
    push_str(&mut s, bin.as_str());
    push_str(&mut s, " ");
    push_str(&mut s, device.as_str());
    if !user_scope {
        push_str(&mut s, "\n\n");
        let fw = FirewallManager.open_fragment(UDPBD_PORT, Protocol::Udp);
        push_str(&mut s, fw.as_str());
    }
    push_str(&mut s, "\n");
    s
}

/// The rollback script.
pub open spec fn udpbd_rollback_text(user_scope: bool) -> Seq<char> {
    let firewall = if user_scope {
        seq![]
    } else {
        "\n\n"@ + close_fragment_text(UDPBD_PORT, Protocol::Udp)
    };
    let ctl = systemctl_text(user_scope);
    ctl + " stop "@ + UDPBD_UNIT@ + " 2>/dev/null || true\n"@ + ctl + " reset-failed "@ + UDPBD_UNIT@
        + " 2>/dev/null || true"@ + firewall + "\n"@
}

/// Body of the rollback script: stops the unit and, in the system scope,
/// closes the port. Tolerant of a missing unit (`|| true`).
pub fn build_rollback_script(user_scope: bool) -> (r: String)
    ensures
        r@ == udpbd_rollback_text(user_scope),
{
    let ctl = systemctl(user_scope);
    let mut s = ctl.clone();
    push_str(&mut s, " stop ");
    push_str(&mut s, UDPBD_UNIT);
    push_str(&mut s, " 2>/dev/null || true\n");
    push_str(&mut s, ctl.as_str());
    push_str(&mut s, " reset-failed ");
    push_str(&mut s, UDPBD_UNIT);
    push_str(&mut s, " 2>/dev/null || true");
    if !user_scope {
        push_str(&mut s, "\n\n");
        let fw = FirewallManager.close_fragment(UDPBD_PORT, Protocol::Udp);
        push_str(&mut s, fw.as_str());
    }
    push_str(&mut s, "\n");
    s
}

/// The first component of a path after its root: leading `/` and `.`
/// components are skipped, as `Path::components` does.
pub open spec fn first_component(s: Seq<char>) -> Seq<char>
    decreases s.len(),
{
    if s.len() == 0 {
        seq![]
    } else if s[0] == '/' {
        first_component(s.drop_first())
    } else if before_first(s, '/') == seq!['.'] {
        first_component(s.drop_first())
    } else {
        before_first(s, '/')
    }
}

/// The path is under `/dev/` (`Path::starts_with("/dev/")`, which compares
/// whole components: the root, then `dev`).
pub open spec fn under_dev(device: Seq<char>) -> bool {
    device.len() > 0 && device[0] == '/' && first_component(device.drop_first()) == "dev"@
}

/// Whether the target needs root: a block device under `/dev/` does, an
/// image file of the user does not. This picks the systemd scope.
pub fn needs_root(device: &str) -> (r: bool)
    ensures
        r == under_dev(device@),
{
    let v = chars_of(device);
    if v.len() == 0 || v[0] != '/' {
        return false;
    }
    let ghost tail = v@.drop_first();
    let mut i: usize = 1;
    assert(v@.subrange(1, v@.len() as int) =~= tail);
    while i < v.len() && (v[i] == '/' || (v[i] == '.' && (i + 1 == v.len() || v[i + 1] == '/')))
        invariant
            1 <= i <= v@.len(),
            v@ == device@,
            tail == v@.drop_first(),
            first_component(v@.subrange(i as int, v@.len() as int)) == first_component(tail),
        decreases v@.len() - i,
    {
        let ghost cur = v@.subrange(i as int, v@.len() as int);
        assert(cur.drop_first() =~= v@.subrange(i + 1, v@.len() as int));
        assert(cur[0] == v@[i as int]);
        proof {
            if v@[i as int] != '/' {
                let seg = before_first(cur, '/');
                if i + 1 < v@.len() {
                    assert(cur[1] == v@[i + 1]);
                }
                crate::text::lemma_first_index(cur, '/', 1);
                assert(seg =~= seq!['.']);
            }
        }
        i = i + 1;
    }
    let ghost cur = v@.subrange(i as int, v@.len() as int);
    if i == v.len() {
        proof {
            reveal_strlit("dev");
            assert(first_component(cur) =~= Seq::<char>::empty());
        }
        return false;
    }
    let j = find_char_from(&v, i, '/');
    let seg = slice_vec(&v, i, j);
    proof {
        assert(cur[0] == v@[i as int]);
        assert(seg@ =~= before_first(cur, '/'));
        crate::text::lemma_first_index_bounds(cur, '/');
        if v@[i as int] == '.' {
            assert(i + 1 < v@.len());
            assert(cur[1] == v@[i + 1]);
            assert(crate::text::first_index(cur, '/') >= 2);
            assert(before_first(cur, '/').len() >= 2);
        }
        assert(first_component(cur) == before_first(cur, '/'));
        reveal_strlit("dev");
    }
    let r = seg.len() == 3 && seg[0] == 'd' && seg[1] == 'e' && seg[2] == 'v';
    proof {
        if r {
            assert(seg@ =~= "dev"@);
        } else if seg@ == "dev"@ {
            assert(seg@.len() == 3 && seg@[0] == 'd' && seg@[1] == 'e' && seg@[2] == 'v');
        }
    }
    r
}

/// Rollback undoes apply in the same scope: both start with the `systemctl`
/// of that scope on the same unit; in the system scope apply ends by opening
/// UDP port 48573 and rollback ends by closing it.
pub proof fn law_udpbd_rollback_matches_apply(device: Seq<char>, server_bin: Seq<char>, user_scope: bool)
    ensures
        starts_with(
            udpbd_apply_text(device, server_bin, user_scope),
            systemctl_text(user_scope) + " reset-failed "@ + UDPBD_UNIT@,
        ),
        starts_with(
            udpbd_rollback_text(user_scope),
            systemctl_text(user_scope) + " stop "@ + UDPBD_UNIT@,
        ),
        !user_scope ==> ends_with(
            udpbd_apply_text(device, server_bin, user_scope),
            open_fragment_text(UDPBD_PORT, Protocol::Udp) + "\n"@,
        ),
        !user_scope ==> ends_with(
            udpbd_rollback_text(user_scope),
            close_fragment_text(UDPBD_PORT, Protocol::Udp) + "\n"@,
        ),
{
    let ctl = systemctl_text(user_scope);
    let a = udpbd_apply_text(device, server_bin, user_scope);
    let r = udpbd_rollback_text(user_scope);
    let pa = ctl + " reset-failed "@ + UDPBD_UNIT@;
    let pr = ctl + " stop "@ + UDPBD_UNIT@;
    let fa = if user_scope {
        seq![]
    } else {
        "\n\n"@ + open_fragment_text(UDPBD_PORT, Protocol::Udp)
    };
    let fr = if user_scope {
        seq![]
    } else {
        "\n\n"@ + close_fragment_text(UDPBD_PORT, Protocol::Udp)
    };
    let ta = " 2>/dev/null || true\n"@ + systemd_run_text(user_scope) + " "@ + squote(server_bin)
        + " "@ + squote(device);
    assert(a =~= pa + ta + fa + "\n"@);
    assert(a.subrange(0, pa.len() as int) =~= pa);
    let tr = " 2>/dev/null || true\n"@ + ctl + " reset-failed "@ + UDPBD_UNIT@
        + " 2>/dev/null || true"@;
    assert(r =~= pr + tr + fr + "\n"@);
    assert(r.subrange(0, pr.len() as int) =~= pr);
    if !user_scope {
        let oa = open_fragment_text(UDPBD_PORT, Protocol::Udp) + "\n"@;
        assert(a =~= pa + ta + "\n\n"@ + oa);
        assert(a.subrange(a.len() - oa.len(), a.len() as int) =~= oa);
        let cr = close_fragment_text(UDPBD_PORT, Protocol::Udp) + "\n"@;
        assert(r =~= pr + tr + "\n\n"@ + cr);
        assert(r.subrange(r.len() - cr.len(), r.len() as int) =~= cr);
    }
}

} // verus!
