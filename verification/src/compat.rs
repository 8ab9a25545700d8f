//! Per-game compatibility modes of the loader ("Game Settings").
//!
//! The loader keeps them under the key `$Compatibility` of the same
//! `CFG/<GameID>.cfg` as the information fields, as a plain decimal bitmask:
//! `0x01` Accurate Reads, `0x02` Synchronous Mode, `0x04` Unhook Syscalls,
//! `0x08` Skip Videos, `0x10` Emulate DVD-DL, `0x20` Disable IGR. Bits `0x40`
//! and `0x80` exist without a label; they are kept, never offered.
use vstd::prelude::*;
use crate::game_info::{
    cfg_get, cfg_remove, cfg_set, law_get_after_remove, law_get_after_set, law_remove_shapes, CfgEntry,
    GameCfg,
};
use crate::text::{chars_of, decimal, decimal_string, parse_u8, parse_u8_exec, trim, trim_vec};

verus! {

/// Key of the compatibility bitmask in the game's `.cfg`.
pub const CONFIG_ITEM_COMPAT: &'static str = "$Compatibility";

/// The six compatibility modes the loader offers.
#[derive(Debug, Clone, Copy, PartialEq, Eq, Structural)]
pub enum CompatMode {
    /// `0x01`: accurate disc reads (slower, more compatible).
    AccurateReads,
    /// `0x02`: synchronous read mode.
    SynchronousMode,
    /// `0x04`: unhooks syscalls.
    UnhookSyscalls,
    /// `0x08`: skips videos.
    SkipVideos,
    /// `0x10`: emulates a dual-layer DVD.
    EmulateDvdDl,
    /// `0x20`: disables the in-game reset.
    DisableIgr,
}

/// Bit of a mode in the `$Compatibility` mask.
pub open spec fn mode_bit(m: CompatMode) -> u8 {
    match m {
        CompatMode::AccurateReads => 0x01,
        CompatMode::SynchronousMode => 0x02,
        CompatMode::UnhookSyscalls => 0x04,
        CompatMode::SkipVideos => 0x08,
        CompatMode::EmulateDvdDl => 0x10,
        CompatMode::DisableIgr => 0x20,
    }
}

/// Number of a mode as the loader shows it (1 to 6).
pub open spec fn mode_number(m: CompatMode) -> u8 {
    match m {
        CompatMode::AccurateReads => 1,
        CompatMode::SynchronousMode => 2,
        CompatMode::UnhookSyscalls => 3,
        CompatMode::SkipVideos => 4,
        CompatMode::EmulateDvdDl => 5,
        CompatMode::DisableIgr => 6,
    }
}

impl CompatMode {
    /// All modes, in order (mode 1 to mode 6).
    pub const ALL: [CompatMode; 6] = [
        CompatMode::AccurateReads,
        CompatMode::SynchronousMode,
        CompatMode::UnhookSyscalls,
        CompatMode::SkipVideos,
        CompatMode::EmulateDvdDl,
        CompatMode::DisableIgr,
    ];

    /// Bit of the mode in the `$Compatibility` mask.
    pub fn bit(self) -> (r: u8)
        ensures
            r == mode_bit(self),
    {
        match self {
            CompatMode::AccurateReads => 0x01,
            CompatMode::SynchronousMode => 0x02,
            CompatMode::UnhookSyscalls => 0x04,
            CompatMode::SkipVideos => 0x08,
            CompatMode::EmulateDvdDl => 0x10,
            CompatMode::DisableIgr => 0x20,
        }
    }

    /// Number of the mode as the loader shows it (1 to 6).
    pub fn number(self) -> (r: u8)
        ensures
            r == mode_number(self),
    {
        match self {
            CompatMode::AccurateReads => 1,
            CompatMode::SynchronousMode => 2,
            CompatMode::UnhookSyscalls => 3,
            CompatMode::SkipVideos => 4,
            CompatMode::EmulateDvdDl => 5,
            CompatMode::DisableIgr => 6,
        }
    }

    /// The loader's own label of the mode (English source text).
    pub fn label(self) -> (r: &'static str)
        ensures
            r@ == (match self {
                CompatMode::AccurateReads => "Accurate Reads"@,
                CompatMode::SynchronousMode => "Synchronous Mode"@,
                CompatMode::UnhookSyscalls => "Unhook Syscalls"@,
                CompatMode::SkipVideos => "Skip Videos"@,
                CompatMode::EmulateDvdDl => "Emulate DVD-DL"@,
                CompatMode::DisableIgr => "Disable IGR"@,
            }),
    {
        match self {
            CompatMode::AccurateReads => "Accurate Reads",
            CompatMode::SynchronousMode => "Synchronous Mode",
            CompatMode::UnhookSyscalls => "Unhook Syscalls",
            CompatMode::SkipVideos => "Skip Videos",
            CompatMode::EmulateDvdDl => "Emulate DVD-DL",
            CompatMode::DisableIgr => "Disable IGR",
        }
    }
}

/// The compatibility bitmask of a game: the whole `u8` of `$Compatibility`,
/// so bits that are not offered survive a read-modify-write.
#[derive(Debug, Clone, Copy, PartialEq, Eq, Structural)]
pub struct CompatFlags(u8);

impl View for CompatFlags {
    type V = u8;

    closed spec fn view(&self) -> u8 {
        self.0
    }
}

impl Default for CompatFlags {
    fn default() -> (r: Self)
        ensures
            r@ == 0,
    {
        CompatFlags(0)
    }
}

/// The mask read from a raw `$Compatibility` value: its decimal `u8`, or no
/// modes when the value is not one.
pub open spec fn compat_of_raw(raw: Seq<char>) -> u8 {
    match parse_u8(trim(raw)) {
        Some(v) => v,
        None => 0,
    }
}

/// The mask of a `.cfg` whose `$Compatibility` has this value.
pub open spec fn compat_of_value(value: Option<Seq<char>>) -> u8 {
    match value {
        Some(raw) => compat_of_raw(raw),
        None => 0,
    }
}

impl CompatFlags {
    /// Reads the raw value of `$Compatibility` (decimal, as the loader reads
    /// it); an empty or non-numeric value means no modes.
    pub fn parse(raw: &str) -> (r: CompatFlags)
        ensures
            r@ == compat_of_raw(raw@),
    {
        let v = chars_of(raw);
        let t = trim_vec(&v);
        match parse_u8_exec(&t) {
            Some(n) => CompatFlags(n),
            None => CompatFlags(0),
        }
    }

    /// Value to write under the key, or `None` when no bit is set (the key is
    /// then removed, leaving the loader on its default).
    pub fn to_config_value(self) -> (r: Option<String>)
        ensures
            match r {
                Some(s) => self@ != 0 && s@ == decimal(self@ as nat),
                None => self@ == 0,
            },
    {
        if self.0 == 0 {
            None
        } else {
            Some(decimal_string(self.0 as u64))
        }
    }

    /// `true` if the mode is set.
    pub fn is_set(self, mode: CompatMode) -> (r: bool)
        ensures
            r == (self@ & mode_bit(mode) != 0),
    {
        self.0 & mode.bit() != 0
    }

    /// Sets or clears one mode, keeping every other bit (unlabelled ones too).
    pub fn set(&mut self, mode: CompatMode, on: bool)
        ensures
            final(self)@ == (if on {
                old(self)@ | mode_bit(mode)
            } else {
                old(self)@ & !mode_bit(mode)
            }),
    {
        if on {
            self.0 = self.0 | mode.bit();
        } else {
            self.0 = self.0 & !mode.bit();
        }
    }

    /// `true` if no bit is set (nothing to write).
    pub fn is_empty(self) -> (r: bool)
        ensures
            r == (self@ == 0),
    {
        self.0 == 0
    }
}

/// What `apply_compat` does to the entries of a `.cfg`.
pub open spec fn cfg_apply_compat(
    es: Seq<CfgEntry>,
    flags: u8,
) -> Seq<CfgEntry> {
    if flags == 0 {
        cfg_remove(es, CONFIG_ITEM_COMPAT@)
    } else {
        cfg_set(es, CONFIG_ITEM_COMPAT@, decimal(flags as nat))
    }
}

impl GameCfg {
    /// The compatibility bitmask of the current `.cfg`.
    pub fn compat(&self) -> (r: CompatFlags)
        ensures
            r@ == compat_of_value(cfg_get(self@, CONFIG_ITEM_COMPAT@)),
    {
        match self.get(CONFIG_ITEM_COMPAT) {
            Some(v) => CompatFlags::parse(v),
            None => CompatFlags::default(),
        }
    }

    /// Writes the bitmask, keeping everything else: a non-zero mask sets
    /// `$Compatibility`, an empty one removes the key. Information fields and
    /// other `$` keys are never touched.
    pub fn apply_compat(&mut self, flags: &CompatFlags)
        ensures
            final(self)@ == cfg_apply_compat(old(self)@, flags@),
    {
        match flags.to_config_value() {
            Some(v) => self.set(CONFIG_ITEM_COMPAT, v.as_str()),
            None => self.remove(CONFIG_ITEM_COMPAT),
        }
    }
}

// ---------------------------------------------------------------------------
// Laws
// ---------------------------------------------------------------------------

/// Setting a mode marks it, clearing a mode unmarks it.
pub proof fn law_set_then_is_set(flags: u8, mode: CompatMode, on: bool)
    ensures
        ((if on {
            flags | mode_bit(mode)
        } else {
            flags & !mode_bit(mode)
        }) & mode_bit(mode) != 0) == on,
{
    let b = mode_bit(mode);
    assert(b != 0);
    assert(b != 0 ==> (flags | b) & b != 0) by (bit_vector);
    assert((flags & !b) & b == 0) by (bit_vector);
}

/// Setting or clearing one mode leaves every other mode as it was, and the
/// two unlabelled high bits (`0xC0`) too.
pub proof fn law_set_keeps_other_bits(flags: u8, mode: CompatMode, on: bool, other: CompatMode)
    ensures
        ({
            let after = if on {
                flags | mode_bit(mode)
            } else {
                flags & !mode_bit(mode)
            };
            &&& other != mode ==> ((after & mode_bit(other) != 0) == (flags & mode_bit(other)
                != 0))
            &&& after & 0xC0 == flags & 0xC0
        }),
{
    let b = mode_bit(mode);
    let c = mode_bit(other);
    assert(b == 1 || b == 2 || b == 4 || b == 8 || b == 16 || b == 32);
    assert(c == 1 || c == 2 || c == 4 || c == 8 || c == 16 || c == 32);
    if other != mode {
        assert(b != c);
        assert(b & c == 0) by (bit_vector)
            requires
                b == 1 || b == 2 || b == 4 || b == 8 || b == 16 || b == 32,
                c == 1 || c == 2 || c == 4 || c == 8 || c == 16 || c == 32,
                b != c,
        ;
    }
    assert(b & 0xC0 == 0) by (bit_vector)
        requires
            b == 1 || b == 2 || b == 4 || b == 8 || b == 16 || b == 32,
    ;
    assert(b & c == 0 ==> (flags | b) & c == flags & c) by (bit_vector);
    assert(b & c == 0 ==> (flags & !b) & c == flags & c) by (bit_vector);
    assert(b & 0xC0 == 0 ==> (flags | b) & 0xC0 == flags & 0xC0) by (bit_vector);
    assert(b & 0xC0 == 0 ==> (flags & !b) & 0xC0 == flags & 0xC0) by (bit_vector);
}

/// The value written for a mask is read back as the same mask.
pub proof fn law_config_value_roundtrip(flags: u8)
    requires
        flags != 0,
    ensures
        compat_of_raw(decimal(flags as nat)) == flags,
{
    crate::text::lemma_decimal_shape(flags as nat);
    crate::text::lemma_parse_u8_decimal(flags);
    crate::text::lemma_trim_of_digits(decimal(flags as nat));
}

/// After `apply_compat`, the `.cfg` reads back exactly the mask written;
/// every other key reads as before, and with `$Compatibility` taken out the
/// entries are unchanged (information fields, other `$` keys, raw lines).
pub proof fn law_apply_compat(es: Seq<CfgEntry>, flags: u8, other: Seq<char>)
    ensures
        compat_of_value(cfg_get(cfg_apply_compat(es, flags), CONFIG_ITEM_COMPAT@)) == flags,
        other != CONFIG_ITEM_COMPAT@ ==> cfg_get(cfg_apply_compat(es, flags), other) == cfg_get(
            es,
            other,
        ),
        cfg_remove(cfg_apply_compat(es, flags), CONFIG_ITEM_COMPAT@) == cfg_remove(
            es,
            CONFIG_ITEM_COMPAT@,
        ),
{
    let k = CONFIG_ITEM_COMPAT@;
    if flags == 0 {
        law_get_after_remove(es, k, other);
        law_remove_shapes(es, k, seq![], other);
    } else {
        let v = decimal(flags as nat);
        law_get_after_set(es, k, v, other);
        law_remove_shapes(es, k, v, other);
        law_config_value_roundtrip(flags);
    }
}

} // verus!
