//! The interface language. English is the source and fallback; Portuguese is
//! picked from the system locale.
use vstd::prelude::*;
use crate::text::{ascii_lower, ascii_lower_exec, chars_of};

verus! {

/// Languages shipped with the application (en-US is the fallback).
#[derive(Debug, Clone, Copy, PartialEq, Eq, Structural)]
pub enum Lang {
    EnUs,
    PtBr,
}

impl Lang {
    /// BCP-47 tag of the language.
    pub fn bcp47(self) -> (r: &'static str)
        ensures
            r@ == (match self {
                Lang::EnUs => "en-US"@,
                Lang::PtBr => "pt-BR"@,
            }),
    {
        match self {
            Lang::EnUs => "en-US",
            Lang::PtBr => "pt-BR",
        }
    }

    /// Code that selects the bundled interface strings. English is the source
    /// text, so it has no bundle of its own and `"en"` falls back to it.
    pub fn slint_code(self) -> (r: &'static str)
        ensures
            r@ == (match self {
                Lang::EnUs => "en"@,
                Lang::PtBr => "pt-BR"@,
            }),
    {
        match self {
            Lang::EnUs => "en",
            Lang::PtBr => "pt-BR",
        }
    }
}

/// A locale value names Portuguese when, ASCII-lowercased, it starts with
/// `pt`.
pub open spec fn is_portuguese(raw: Seq<char>) -> bool {
    raw.len() >= 2 && ascii_lower(raw[0]) == 'p' && ascii_lower(raw[1]) == 't'
}

/// The language of the first locale variable that is set, `LC_ALL`, then
/// `LC_MESSAGES`, then `LANG` (none set reads as empty, hence English).
pub open spec fn lang_of_locale(
    lc_all: Option<Seq<char>>,
    lc_messages: Option<Seq<char>>,
    lang: Option<Seq<char>>,
) -> Lang {
    let raw = match lc_all {
        Some(v) => v,
        None => match lc_messages {
            Some(v) => v,
            None => match lang {
                Some(v) => v,
                None => seq![],
            },
        },
    };
    if is_portuguese(raw) {
        Lang::PtBr
    } else {
        Lang::EnUs
    }
}

pub open spec fn opt_str(o: Option<&str>) -> Option<Seq<char>> {
    match o {
        Some(s) => Some(s@),
        None => None,
    }
}

/// Picks the language from the values of `LC_ALL`, `LC_MESSAGES` and `LANG`
/// (`None` for a variable that is not set).
pub fn detect_lang(lc_all: Option<&str>, lc_messages: Option<&str>, lang: Option<&str>) -> (r:
    Lang)
    ensures
        r == lang_of_locale(opt_str(lc_all), opt_str(lc_messages), opt_str(lang)),
{
    let raw: &str = match lc_all {
        Some(v) => v,
        None => match lc_messages {
            Some(v) => v,
            None => match lang {
                Some(v) => v,
                None => "",
            },
        },
    };
    proof {
        reveal_strlit("");
    }
    let v = chars_of(raw);
    if v.len() >= 2 && ascii_lower_exec(v[0]) == 'p' && ascii_lower_exec(v[1]) == 't' {
        Lang::PtBr
    } else {
        Lang::EnUs
    }
}

} // verus!
