//! The loader's catalog: counting, sizing and filing images by media. Pure:
//! the entries are read from disk elsewhere and handed in.
use vstd::prelude::*;

verus! {

/// Largest image size, in bytes, that still counts as a CD game (700 MiB).
pub const CD_MAX_BYTES: u64 = 734003200;

/// Media an image is filed under by the loader: `CD/` or `DVD/`.
#[derive(Debug, Clone, Copy, PartialEq, Eq, Structural)]
pub enum Media {
    /// Small image (at most 700 MiB), stored under `CD/`.
    Cd,
    /// Large image (over 700 MiB), stored under `DVD/`.
    Dvd,
}

impl Media {
    /// Folder of the loader that holds games of this media.
    pub fn dir_name(self) -> (r: &'static str)
        ensures
            r@ == (match self {
                Media::Cd => "CD"@,
                Media::Dvd => "DVD"@,
            }),
    {
        match self {
            Media::Cd => "CD",
            Media::Dvd => "DVD",
        }
    }
}

/// Media of an image of the given size.
pub open spec fn media_of(size_bytes: u64) -> Media {
    if size_bytes <= CD_MAX_BYTES {
        Media::Cd
    } else {
        Media::Dvd
    }
}

/// An image present in the target directory.
#[derive(Debug, Clone, PartialEq, Eq)]
pub struct GameEntry {
    /// File name (e.g. `"SLUS_200.02.God of War.iso"`).
    pub file_name: String,
    /// File size in bytes.
    pub size_bytes: u64,
}

impl GameEntry {
    /// Files the entry under CD or DVD by the loader's size limit.
    pub fn media(&self) -> (r: Media)
        ensures
            r == media_of(self.size_bytes),
    {
        if self.size_bytes <= CD_MAX_BYTES {
            Media::Cd
        } else {
            Media::Dvd
        }
    }
}

/// Aggregate of the catalog, ready to be shown.
#[derive(Debug, Clone, PartialEq, Eq, Structural)]
pub struct CatalogSummary {
    /// Number of CD games (at most 700 MiB).
    pub cd_count: usize,
    /// Number of DVD games (over 700 MiB).
    pub dvd_count: usize,
    /// Sum of the sizes of all images, in bytes.
    pub total_bytes: u64,
}

impl Default for CatalogSummary {
    fn default() -> (r: Self)
        ensures
            r.cd_count == 0,
            r.dvd_count == 0,
            r.total_bytes == 0,
    {
        CatalogSummary { cd_count: 0, dvd_count: 0, total_bytes: 0 }
    }
}

impl CatalogSummary {
    /// Number of games (CD + DVD).
    pub fn total_count(&self) -> (r: usize)
        requires
            self.cd_count + self.dvd_count <= usize::MAX,
        ensures
            r == self.cd_count + self.dvd_count,
    {
        self.cd_count + self.dvd_count
    }
}

/// Number of sizes in `sizes` that count as CD images.
pub open spec fn cd_count_of(sizes: Seq<u64>) -> nat
    decreases sizes.len(),
{
    if sizes.len() == 0 {
        0
    } else {
        cd_count_of(sizes.drop_last()) + if media_of(sizes.last()) == Media::Cd {
            1nat
        } else {
            0nat
        }
    }
}

/// Number of sizes in `sizes` that count as DVD images.
pub open spec fn dvd_count_of(sizes: Seq<u64>) -> nat
    decreases sizes.len(),
{
    if sizes.len() == 0 {
        0
    } else {
        dvd_count_of(sizes.drop_last()) + if media_of(sizes.last()) == Media::Dvd {
            1nat
        } else {
            0nat
        }
    }
}

/// Sum of the sizes.
pub open spec fn total_of(sizes: Seq<u64>) -> nat
    decreases sizes.len(),
{
    if sizes.len() == 0 {
        0
    } else {
        total_of(sizes.drop_last()) + sizes.last() as nat
    }
}

/// The sizes of a list of entries.
pub open spec fn sizes_of(entries: Seq<GameEntry>) -> Seq<u64> {
    entries.map_values(|e: GameEntry| e.size_bytes)
}

/// The summary that the catalog of these sizes has.
pub open spec fn summary_of(sizes: Seq<u64>, s: CatalogSummary) -> bool {
    &&& s.cd_count == cd_count_of(sizes)
    &&& s.dvd_count == dvd_count_of(sizes)
    &&& s.total_bytes == total_of(sizes)
}

pub proof fn lemma_counts(sizes: Seq<u64>)
    ensures
        cd_count_of(sizes) + dvd_count_of(sizes) == sizes.len(),
    decreases sizes.len(),
{
    if sizes.len() > 0 {
        lemma_counts(sizes.drop_last());
    }
}

pub proof fn lemma_total_prefix(sizes: Seq<u64>, i: int)
    requires
        0 <= i <= sizes.len(),
    ensures
        total_of(sizes.take(i)) <= total_of(sizes),
    decreases sizes.len() - i,
{
    if i < sizes.len() {
        lemma_total_prefix(sizes, i + 1);
        assert(sizes.take(i + 1).drop_last() =~= sizes.take(i));
    } else {
        assert(sizes.take(i) =~= sizes);
    }
}

proof fn lemma_remove_at(s: Seq<u64>, i: int)
    requires
        0 <= i < s.len(),
    ensures
        cd_count_of(s) == cd_count_of(s.remove(i)) + if media_of(s[i]) == Media::Cd {
            1nat
        } else {
            0nat
        },
        dvd_count_of(s) == dvd_count_of(s.remove(i)) + if media_of(s[i]) == Media::Dvd {
            1nat
        } else {
            0nat
        },
        total_of(s) == total_of(s.remove(i)) + s[i] as nat,
    decreases s.len(),
{
    if i == s.len() - 1 {
        assert(s.remove(i) =~= s.drop_last());
    } else {
        lemma_remove_at(s.drop_last(), i);
        assert(s.drop_last().remove(i) =~= s.remove(i).drop_last());
        assert(s.remove(i).last() == s.last());
        assert(s.drop_last()[i] == s[i]);
    }
}

/// The summary does not depend on the order of the entries: two lists with
/// the same entries (as a multiset) have the same counts and total. The empty
/// list has the empty summary.
pub proof fn law_summary_order_free(e1: Seq<GameEntry>, e2: Seq<GameEntry>)
    requires
        e1.to_multiset() == e2.to_multiset(),
    ensures
        cd_count_of(sizes_of(e1)) == cd_count_of(sizes_of(e2)),
        dvd_count_of(sizes_of(e1)) == dvd_count_of(sizes_of(e2)),
        total_of(sizes_of(e1)) == total_of(sizes_of(e2)),
        cd_count_of(sizes_of(seq![])) == 0 && dvd_count_of(sizes_of(seq![])) == 0 && total_of(
            sizes_of(seq![]),
        ) == 0,
    decreases e1.len(),
{
    broadcast use vstd::seq_lib::group_to_multiset_ensures;

    if e1.len() == 0 {
        assert(e2.len() == e2.to_multiset().len());
        assert(e2.len() == 0);
        assert(sizes_of(e1) =~= Seq::<u64>::empty());
        assert(sizes_of(e2) =~= Seq::<u64>::empty());
    } else {
        let x = e1.last();
        let r1 = e1.drop_last();
        assert(r1.push(x) =~= e1);
        assert(e1.to_multiset() =~= r1.to_multiset().insert(x));
        assert(e2.to_multiset().count(x) > 0);
        assert(e2.contains(x));
        let j = choose|j: int| 0 <= j < e2.len() && e2[j] == x;
        let r2 = e2.remove(j);
        assert(r2.to_multiset() =~= e2.to_multiset().remove(x));
        assert(r2.to_multiset() =~= r1.to_multiset());
        law_summary_order_free(r1, r2);
        assert(sizes_of(r1) =~= sizes_of(e1).drop_last());
        assert(sizes_of(e1).last() == x.size_bytes);
        assert(sizes_of(r2) =~= sizes_of(e2).remove(j));
        lemma_remove_at(sizes_of(e2), j);
        assert(sizes_of(e2)[j] == x.size_bytes);
    }
    assert(sizes_of(seq![]) =~= Seq::<u64>::empty());
}

/// Computes the catalog summary from the entries read from disk.
pub fn summarize(entries: &[GameEntry]) -> (r: CatalogSummary)
    requires
        total_of(sizes_of(entries@)) <= u64::MAX,
    ensures
        summary_of(sizes_of(entries@), r),
{
    let ghost sizes = sizes_of(entries@);
    let mut summary = CatalogSummary::default();
    let mut i: usize = 0;
    while i < entries.len()
        invariant
            0 <= i <= entries@.len(),
            sizes == sizes_of(entries@),
            total_of(sizes) <= u64::MAX,
            summary_of(sizes.take(i as int), summary),
        decreases entries@.len() - i,
    {
        let entry = &entries[i];
        proof {
            assert(sizes.take(i + 1).drop_last() =~= sizes.take(i as int));
            assert(sizes.take(i + 1).last() == entry.size_bytes);
            lemma_total_prefix(sizes, i + 1);
            lemma_counts(sizes.take(i as int));
        }
        summary.total_bytes = summary.total_bytes + entry.size_bytes;
        match entry.media() {
            Media::Cd => summary.cd_count = summary.cd_count + 1,
            Media::Dvd => summary.dvd_count = summary.dvd_count + 1,
        }
        i = i + 1;
    }
    assert(sizes.take(entries@.len() as int) =~= sizes);
    summary
}

/// Subfolders of the target that hold game images.
pub const GAME_DIRS: [&'static str; 2] = ["CD", "DVD"];

/// A directory entry of `CD/` or `DVD/` enters the catalog when it is a
/// regular, non-empty file with an image extension the loader knows (so a
/// stray empty file or a note does not show up as a game).
pub fn is_catalog_file(is_file: bool, size: u64, name: &str) -> (r: bool)
    ensures
        r == (is_file && size > 0 && crate::game_id::has_image_ext(name@)),
{
    is_file && size > 0 && crate::game_id::is_game_image_name(name)
}

} // verus!
