//! The native folder picker. The desktop's dialog tool is run as a separate
//! process (`zenity`, or `kdialog` when it is missing); what is checked here
//! is what it is told and how its output becomes a path.
use vstd::prelude::*;
use crate::iso9660::{from_utf8_lossy, utf8_lossy};
use crate::text::{chars_of, string_of, trim, trim_vec};

verus! {

/// Title of the `zenity` dialog.
pub const ZENITY_TITLE: &'static str = "--title=Escolha o diretório-alvo do OPL";

/// The arguments of `zenity`: a directory selection that, given a start
/// folder, opens inside it (hence the trailing `/`).
pub open spec fn zenity_args_spec(start: Option<Seq<char>>) -> Seq<Seq<char>> {
    let base = seq!["--file-selection"@, "--directory"@, ZENITY_TITLE@];
    match start {
        Some(p) => base.push("--filename="@ + p + "/"@),
        None => base,
    }
}

/// The arguments of `kdialog`: the start folder, or `.`.
pub open spec fn kdialog_args_spec(start: Option<Seq<char>>) -> Seq<Seq<char>> {
    seq![
        "--getexistingdirectory"@,
        match start {
            Some(p) => p,
            None => "."@,
        },
    ]
}

/// Arguments for `zenity`.
pub fn zenity_args(start: Option<&str>) -> (r: Vec<String>)
    ensures
        r@.len() == zenity_args_spec(
            match start {
                Some(p) => Some(p@),
                None => None,
            },
        ).len(),
        forall|i: int|
            0 <= i < r@.len() ==> #[trigger] r@[i]@ == zenity_args_spec(
                match start {
                    Some(p) => Some(p@),
                    None => None,
                },
            )[i],
{
    let mut v: Vec<String> = Vec::new();
    v.push("--file-selection".to_owned());
    v.push("--directory".to_owned());
    v.push(ZENITY_TITLE.to_owned());
    match start {
        Some(p) => {
            let mut a = "--filename=".to_owned();
            crate::text::push_str(&mut a, p);
            crate::text::push_str(&mut a, "/");
            v.push(a);
        },
        None => {},
    }
    v
}

/// Arguments for `kdialog`.
pub fn kdialog_args(start: Option<&str>) -> (r: Vec<String>)
    ensures
        r@.len() == 2,
        forall|i: int|
            0 <= i < 2 ==> #[trigger] r@[i]@ == kdialog_args_spec(
                match start {
                    Some(p) => Some(p@),
                    None => None,
                },
            )[i],
{
    let mut v: Vec<String> = Vec::new();
    v.push("--getexistingdirectory".to_owned());
    match start {
        Some(p) => v.push(p.to_owned()),
        None => v.push(".".to_owned()),
    }
    v
}

/// The path the dialog printed: nothing when it was cancelled (non-zero
/// exit), else its output, decoded leniently and trimmed (the final newline
/// both tools print is whitespace), unless that leaves nothing.
pub open spec fn picked_path(stdout: Seq<u8>, success: bool) -> Option<Seq<char>> {
    if !success {
        None
    } else if trim(utf8_lossy(stdout)).len() == 0 {
        None
    } else {
        Some(trim(utf8_lossy(stdout)))
    }
}

/// Turns the dialog's output and exit status into the chosen path.
pub fn parse_output(stdout: &[u8], success: bool) -> (r: Option<String>)
    ensures
        r matches Some(p) ==> picked_path(stdout@, success) == Some(p@),
        r is None ==> picked_path(stdout@, success) is None,
{
    if !success {
        return None;
    }
    let text = from_utf8_lossy(stdout);
    let v = chars_of(text.as_str());
    let t = trim_vec(&v);
    if t.len() == 0 {
        None
    } else {
        Some(string_of(&t))
    }
}

} // verus!
