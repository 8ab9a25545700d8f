//! The loader's folder layout. The loader finds games by the folders at the
//! root of the target, so the application creates them there.
use vstd::prelude::*;
use crate::paths::{join, join_path};
use crate::ports::Fs;

verus! {

/// Folders the loader recognizes at the root of the target: `CD`/`DVD`
/// images, `ART` covers, `THM` themes, `VMC` virtual memory cards, and
/// configs, cheats, languages, homebrew and PS1 games.
pub const OPL_DIRS: [&'static str; 10] = [
    "CD",
    "DVD",
    "ART",
    "THM",
    "VMC",
    "CFG",
    "CHT",
    "LNG",
    "APPS",
    "POPS",
];

/// The names of the loader's folders, in order.
pub open spec fn opl_dir_names() -> Seq<Seq<char>> {
    seq![
        "CD"@,
        "DVD"@,
        "ART"@,
        "THM"@,
        "VMC"@,
        "CFG"@,
        "CHT"@,
        "LNG"@,
        "APPS"@,
        "POPS"@,
    ]
}

/// Paths of the loader's folders under `root` (nothing is touched on disk).
pub fn opl_dir_paths(root: &str) -> (r: Vec<String>)
    ensures
        r@.len() == 10,
        forall|i: int| 0 <= i < 10 ==> #[trigger] r@[i]@ == join(root@, opl_dir_names()[i]),
{
    let mut r: Vec<String> = Vec::new();
    r.push(join_path(root, "CD"));
    r.push(join_path(root, "DVD"));
    r.push(join_path(root, "ART"));
    r.push(join_path(root, "THM"));
    r.push(join_path(root, "VMC"));
    r.push(join_path(root, "CFG"));
    r.push(join_path(root, "CHT"));
    r.push(join_path(root, "LNG"));
    r.push(join_path(root, "APPS"));
    r.push(join_path(root, "POPS"));
    r
}

/// The first `i` of the loader's folders under `root` were created.
pub open spec fn created_upto<F: Fs>(fs: F, root: Seq<char>, i: int) -> bool {
    forall|j: int|
        0 <= j < i ==> #[trigger] fs.creates(join(root, opl_dir_names()[j]), Ok(()))
}

/// Creates the loader's folders under `root` through the `Fs` port, in order,
/// stopping at the first failure, whose error it returns. Idempotent when the
/// port's `create_dir_all` is.
pub fn create_opl_layout<F: Fs>(fs: &F, root: &str) -> (r: Result<(), std::io::Error>)
    ensures
        r is Ok ==> created_upto(*fs, root@, 10),
        r matches Err(e) ==> exists|i: int|
            0 <= i < 10 && created_upto(*fs, root@, i) && #[trigger] fs.creates(
                join(root@, opl_dir_names()[i]),
                Err(e),
            ),
{
    let paths = opl_dir_paths(root);
    let mut i: usize = 0;
    while i < paths.len()
        invariant
            0 <= i <= paths@.len(),
            paths@.len() == 10,
            forall|k: int| 0 <= k < 10 ==> #[trigger] paths@[k]@ == join(root@, opl_dir_names()[k]),
            created_upto(*fs, root@, i as int),
        decreases paths@.len() - i,
    {
        let made = fs.create_dir_all(paths[i].as_str());
        match made {
            Err(e) => {
                assert(fs.creates(join(root@, opl_dir_names()[i as int]), Err(e)));
                return Err(e);
            },
            Ok(()) => {},
        }
        proof {
            assert(made->Ok_0 == ());
            assert(fs.creates(join(root@, opl_dir_names()[i as int]), Ok(())));
            assert forall|j: int| 0 <= j < i + 1 implies #[trigger] fs.creates(
                join(root@, opl_dir_names()[j]),
                Ok(()),
            ) by {
                if j < i {
                    assert(created_upto(*fs, root@, i as int));
                }
            }
        }
        i = i + 1;
    }
    Ok(())
}

} // verus!
