//! `opl_meta.json`: the application's own cache (not the loader's) of the
//! games found in the target. The application works without it: the cache
//! is rebuilt from the images on disk whenever it is missing or stale.
use vstd::prelude::*;
use crate::catalog::{
    cd_count_of, dvd_count_of, lemma_counts, media_of, sizes_of, summarize, summary_of, total_of,
    CatalogSummary, GameEntry, Media,
};
use crate::text::push_str;

verus! {

/// Schema version of `opl_meta.json`.
pub const META_VERSION: u32 = 1;

/// Media as stored in the cache (`"CD"` / `"DVD"` in the JSON).
#[derive(Debug, Clone, Copy, PartialEq, Eq, Structural)]
pub enum MediaKind {
    Cd,
    Dvd,
}

/// The cache's media of a catalog media.
pub open spec fn media_kind_of(m: Media) -> MediaKind {
    match m {
        Media::Cd => MediaKind::Cd,
        Media::Dvd => MediaKind::Dvd,
    }
}

impl From<Media> for MediaKind {
    fn from(m: Media) -> (r: Self) {
        match m {
            Media::Cd => MediaKind::Cd,
            Media::Dvd => MediaKind::Dvd,
        }
    }
}

impl vstd::std_specs::convert::FromSpecImpl<Media> for MediaKind {
    open spec fn obeys_from_spec() -> bool {
        true
    }

    open spec fn from_spec(m: Media) -> MediaKind {
        media_kind_of(m)
    }
}

/// A game in the cache.
#[derive(Debug, Clone, PartialEq, Eq)]
pub struct GameMeta {
    pub file_name: String,
    pub size_bytes: u64,
    pub media: MediaKind,
}

impl GameMeta {
    /// The cache entry of a scanned image: its name, size and media.
    pub fn from_entry(e: &GameEntry) -> (r: GameMeta)
        ensures
            r.file_name == e.file_name,
            r.size_bytes == e.size_bytes,
            r.media == media_kind_of(media_of(e.size_bytes)),
    {
        GameMeta {
            file_name: e.file_name.clone(),
            size_bytes: e.size_bytes,
            media: MediaKind::from(e.media()),
        }
    }
}

/// Contents of `opl_meta.json`.
#[derive(Debug, Clone, PartialEq, Eq)]
pub struct OplMeta {
    pub version: u32,
    pub games: Vec<GameMeta>,
}

impl Default for OplMeta {
    fn default() -> (r: Self)
        ensures
            r.version == META_VERSION,
            r.games@.len() == 0,
    {
        OplMeta { version: META_VERSION, games: Vec::new() }
    }
}

/// Number of cached games stored as CD.
pub open spec fn meta_cd_count(games: Seq<GameMeta>) -> nat
    decreases games.len(),
{
    if games.len() == 0 {
        0
    } else {
        meta_cd_count(games.drop_last()) + if games.last().media == MediaKind::Cd {
            1nat
        } else {
            0nat
        }
    }
}

/// Number of cached games stored as DVD.
pub open spec fn meta_dvd_count(games: Seq<GameMeta>) -> nat
    decreases games.len(),
{
    if games.len() == 0 {
        0
    } else {
        meta_dvd_count(games.drop_last()) + if games.last().media == MediaKind::Dvd {
            1nat
        } else {
            0nat
        }
    }
}

/// The sizes of the cached games.
pub open spec fn meta_sizes(games: Seq<GameMeta>) -> Seq<u64> {
    games.map_values(|g: GameMeta| g.size_bytes)
}

/// The summary the cache describes: counts by the stored media, total of the
/// stored sizes.
pub open spec fn meta_summary_of(games: Seq<GameMeta>, s: CatalogSummary) -> bool {
    &&& s.cd_count == meta_cd_count(games)
    &&& s.dvd_count == meta_dvd_count(games)
    &&& s.total_bytes == total_of(meta_sizes(games))
}

/// The cache entries describe these scanned entries one for one.
pub open spec fn rebuilt_from(games: Seq<GameMeta>, entries: Seq<GameEntry>) -> bool {
    &&& games.len() == entries.len()
    &&& forall|i: int|
        0 <= i < games.len() ==> (#[trigger] games[i]).file_name == entries[i].file_name
            && games[i].size_bytes == entries[i].size_bytes && games[i].media == media_kind_of(
            media_of(entries[i].size_bytes),
        )
}

proof fn lemma_meta_counts(games: Seq<GameMeta>)
    ensures
        meta_cd_count(games) + meta_dvd_count(games) == games.len(),
    decreases games.len(),
{
    if games.len() > 0 {
        lemma_meta_counts(games.drop_last());
    }
}

impl OplMeta {
    /// Rebuilds the cache from the images read from disk; the path taken when
    /// the JSON is missing or broken.
    pub fn rebuild_from(entries: &[GameEntry]) -> (r: OplMeta)
        ensures
            r.version == META_VERSION,
            rebuilt_from(r.games@, entries@),
    {
        let mut games: Vec<GameMeta> = Vec::new();
        let mut i: usize = 0;
        while i < entries.len()
            invariant
                0 <= i <= entries@.len(),
                rebuilt_from(games@, entries@.take(i as int)),
            decreases entries@.len() - i,
        {
            games.push(GameMeta::from_entry(&entries[i]));
            i = i + 1;
        }
        assert(entries@.take(entries@.len() as int) =~= entries@);
        OplMeta { version: META_VERSION, games }
    }

    /// The summary of the cache, as the catalog would compute it, without
    /// reading the disk.
    pub fn summary(&self) -> (r: CatalogSummary)
        requires
            total_of(meta_sizes(self.games@)) <= u64::MAX,
        ensures
            meta_summary_of(self.games@, r),
    {
        let ghost games = self.games@;
        let mut s = CatalogSummary::default();
        let mut i: usize = 0;
        while i < self.games.len()
            invariant
                0 <= i <= games.len(),
                games == self.games@,
                total_of(meta_sizes(games)) <= u64::MAX,
                meta_summary_of(games.take(i as int), s),
            decreases games.len() - i,
        {
            let g = &self.games[i];
            proof {
                let t = games.take(i + 1);
                assert(t.drop_last() =~= games.take(i as int));
                assert(meta_sizes(t).drop_last() =~= meta_sizes(games.take(i as int)));
                assert(meta_sizes(games.take(i + 1)) =~= meta_sizes(games).take(i + 1));
                crate::catalog::lemma_total_prefix(meta_sizes(games), i + 1);
                lemma_meta_counts(games.take(i as int));
            }
            s.total_bytes = s.total_bytes + g.size_bytes;
            match g.media {
                MediaKind::Cd => s.cd_count = s.cd_count + 1,
                MediaKind::Dvd => s.dvd_count = s.dvd_count + 1,
            }
            i = i + 1;
        }
        assert(games.take(games.len() as int) =~= games);
        s
    }

    /// `true` if the cache agrees with the current scan of the disk (same
    /// counts and total size); the interface rebuilds it otherwise.
    pub fn matches(&self, entries: &[GameEntry]) -> (r: bool)
        requires
            total_of(meta_sizes(self.games@)) <= u64::MAX,
            total_of(sizes_of(entries@)) <= u64::MAX,
        ensures
            r == (meta_cd_count(self.games@) == cd_count_of(sizes_of(entries@))
                && meta_dvd_count(self.games@) == dvd_count_of(sizes_of(entries@)) && total_of(
                meta_sizes(self.games@),
            ) == total_of(sizes_of(entries@))),
    {
        let a = self.summary();
        let b = summarize(entries);
        a == b
    }
}

/// A cache rebuilt from a scan describes that scan: its summary is the
/// catalog's summary of the same entries.
pub proof fn law_rebuilt_summary(games: Seq<GameMeta>, entries: Seq<GameEntry>)
    requires
        rebuilt_from(games, entries),
    ensures
        meta_cd_count(games) == cd_count_of(sizes_of(entries)),
        meta_dvd_count(games) == dvd_count_of(sizes_of(entries)),
        meta_sizes(games) == sizes_of(entries),
    decreases games.len(),
{
    assert(meta_sizes(games) =~= sizes_of(entries));
    if games.len() > 0 {
        let g = games.drop_last();
        let e = entries.drop_last();
        assert forall|i: int| 0 <= i < g.len() implies (#[trigger] g[i]).file_name == e[i].file_name
            && g[i].size_bytes == e[i].size_bytes && g[i].media == media_kind_of(
            media_of(e[i].size_bytes),
        ) by {
            assert(g[i] == games[i]);
            assert(e[i] == entries[i]);
        }
        law_rebuilt_summary(g, e);
        assert(sizes_of(entries).drop_last() =~= sizes_of(e));
        assert(games.last() == games[games.len() - 1]);
    }
}

/// Port of the cache's persistence (a JSON file at the root of the target).
pub trait MetaStore {
    /// Reads the cache; `Ok(None)` when it does not exist yet.
    fn load(&self) -> Result<Option<OplMeta>, MetaError>;

    /// Writes the cache.
    fn save(&self, meta: &OplMeta) -> Result<(), MetaError>;
}

/// Failure reading or writing the cache. Never fatal: the application goes on
/// by rebuilding from the disk.
#[derive(Debug, Clone, PartialEq, Eq)]
pub enum MetaError {
    /// I/O failure on the file.
    Io(String),
    /// Malformed JSON (treated as missing and rebuilt).
    Malformed(String),
}

impl MetaError {
    /// The message shown for the error.
    pub fn message(&self) -> (r: String)
        ensures
            r@ == (match self {
                MetaError::Io(m) => "falha de I/O no opl_meta.json: "@ + m@,
                MetaError::Malformed(m) => "opl_meta.json malformado: "@ + m@,
            }),
    {
        match self {
            MetaError::Io(m) => {
                let mut s = "falha de I/O no opl_meta.json: ".to_owned();
                push_str(&mut s, m.as_str());
                s
            },
            MetaError::Malformed(m) => {
                let mut s = "opl_meta.json malformado: ".to_owned();
                push_str(&mut s, m.as_str());
                s
            },
        }
    }
}

} // verus!
