//! The hint shown about the target folder: how to start, a warning when the
//! path points at one of the loader's own folders instead of the root, and
//! whether the layout is already there.
use vstd::prelude::*;
use crate::opl_layout::opl_dir_names;
use crate::text::{chars_eq, chars_of};

verus! {

/// The hint about a target folder.
#[derive(Debug, Clone, PartialEq, Eq)]
pub enum DirHint {
    /// No folder: the default instruction.
    Empty,
    /// The path is one of the loader's folders (`CD`, `ART`...) rather than
    /// the root: a warning with that name and the parent to choose instead
    /// (`None` when there is no parent to show).
    Subdir { name: String, parent: Option<String> },
    /// The folder already has `CD/` or `DVD/`: nothing is recreated.
    Detected,
    /// The layout will be created there.
    WillCreate,
}

/// The name of the loader's folder at `i`.
fn opl_dir_name(i: usize) -> (r: &'static str)
    requires
        i < 10,
    ensures
        r@ == opl_dir_names()[i as int],
{
    proof {
        reveal_strlit("CD");
        reveal_strlit("DVD");
        reveal_strlit("ART");
        reveal_strlit("THM");
        reveal_strlit("VMC");
        reveal_strlit("CFG");
        reveal_strlit("CHT");
        reveal_strlit("LNG");
        reveal_strlit("APPS");
        reveal_strlit("POPS");
    }
    match i {
        0 => "CD",
        1 => "DVD",
        2 => "ART",
        3 => "THM",
        4 => "VMC",
        5 => "CFG",
        6 => "CHT",
        7 => "LNG",
        8 => "APPS",
        _ => "POPS",
    }
}

/// Whether a folder name is one of the loader's folders (exact name).
pub fn is_opl_subdir_name(name: &str) -> (r: bool)
    ensures
        r == opl_dir_names().contains(name@),
{
    let v = chars_of(name);
    let mut i: usize = 0;
    while i < 10
        invariant
            0 <= i <= 10,
            v@ == name@,
            forall|k: int| 0 <= k < i ==> opl_dir_names()[k] != name@,
        decreases 10 - i,
    {
        let d = chars_of(opl_dir_name(i));
        if chars_eq(&d, &v) {
            assert(opl_dir_names()[i as int] == name@);
            return true;
        }
        i = i + 1;
    }
    assert(opl_dir_names().len() == 10);
    false
}

/// The hint for a path, given its last component and its parent as the
/// platform splits them, and whether `CD/` or `DVD/` exist under it.
pub open spec fn dir_hint_spec(
    path: Seq<char>,
    file_name: Option<Seq<char>>,
    parent: Option<Seq<char>>,
    has_game_dirs: bool,
) -> DirHintView {
    if path.len() == 0 {
        DirHintView::Empty
    } else if file_name matches Some(n) && opl_dir_names().contains(n) {
        DirHintView::Subdir {
            name: file_name->0,
            parent: match parent {
                Some(p) => if p.len() > 0 {
                    Some(p)
                } else {
                    None
                },
                None => None,
            },
        }
    } else if has_game_dirs {
        DirHintView::Detected
    } else {
        DirHintView::WillCreate
    }
}

/// View of a hint.
pub enum DirHintView {
    Empty,
    Subdir { name: Seq<char>, parent: Option<Seq<char>> },
    Detected,
    WillCreate,
}

impl View for DirHint {
    type V = DirHintView;

    open spec fn view(&self) -> DirHintView {
        match self {
            DirHint::Empty => DirHintView::Empty,
            DirHint::Subdir { name, parent } => DirHintView::Subdir {
                name: name@,
                parent: match parent {
                    Some(p) => Some(p@),
                    None => None,
                },
            },
            DirHint::Detected => DirHintView::Detected,
            DirHint::WillCreate => DirHintView::WillCreate,
        }
    }
}

/// Decides the hint about the target folder.
pub fn dir_hint(path: &str, file_name: Option<&str>, parent: Option<&str>, has_game_dirs: bool) -> (r:
    DirHint)
    ensures
        r@ == dir_hint_spec(
            path@,
            match file_name {
                Some(n) => Some(n@),
                None => None,
            },
            match parent {
                Some(p) => Some(p@),
                None => None,
            },
            has_game_dirs,
        ),
{
    if path.is_empty() {
        return DirHint::Empty;
    }
    match file_name {
        Some(n) => {
            if is_opl_subdir_name(n) {
                let parent = match parent {
                    Some(p) => if p.is_empty() {
                        None
                    } else {
                        Some(p.to_owned())
                    },
                    None => None,
                };
                return DirHint::Subdir { name: n.to_owned(), parent };
            }
        },
        None => {},
    }
    if has_game_dirs {
        DirHint::Detected
    } else {
        DirHint::WillCreate
    }
}

} // verus!
