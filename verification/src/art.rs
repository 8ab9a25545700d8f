//! Cover art of a game, fetched by game id from the OPL Manager art database
//! and stored in `ART/` under the loader's naming. The network and the folder
//! are ports, so that the flow is independent of both.
use vstd::prelude::*;
use crate::game_id::GameId;
use crate::text::{chars_of, push_str, string_of, slice_vec};

verus! {

/// Current item of the OPL Manager art database on archive.org; one file of
/// the zip is extracted by URL: `<base>/PS2/<id>/<id>_<TYPE>.<ext>`.
pub const DEFAULT_BASE_URL: &'static str = "https://archive.org/download/OPLM_ART_2023_11/OPLM_ART_2023_11.zip";

/// Kinds of art the loader knows (suffix of the file name).
#[derive(Debug, Clone, Copy, PartialEq, Eq, Structural)]
pub enum ArtType {
    /// Front cover.
    Cov,
    /// Back cover.
    Cov2,
    /// Icon.
    Ico,
    /// Disc label.
    Lab,
    /// Logo.
    Lgo,
    /// Screenshot.
    Scr,
    /// Second screenshot.
    Scr2,
    /// Background.
    Bg,
}

/// The suffix of a kind of art.
pub open spec fn art_code(t: ArtType) -> Seq<char> {
    match t {
        ArtType::Cov => "COV"@,
        ArtType::Cov2 => "COV2"@,
        ArtType::Ico => "ICO"@,
        ArtType::Lab => "LAB"@,
        ArtType::Lgo => "LGO"@,
        ArtType::Scr => "SCR"@,
        ArtType::Scr2 => "SCR2"@,
        ArtType::Bg => "BG"@,
    }
}

impl ArtType {
    /// Suffix as written in the file name (e.g. `COV`).
    pub fn code(self) -> (r: &'static str)
        ensures
            r@ == art_code(self),
    {
        match self {
            ArtType::Cov => "COV",
            ArtType::Cov2 => "COV2",
            ArtType::Ico => "ICO",
            ArtType::Lab => "LAB",
            ArtType::Lgo => "LGO",
            ArtType::Scr => "SCR",
            ArtType::Scr2 => "SCR2",
            ArtType::Bg => "BG",
        }
    }
}

/// Failure of the art download. Never fatal: the interface shows it and goes
/// on.
#[derive(Debug, Clone, PartialEq, Eq)]
pub enum ArtError {
    /// Failure writing the art file.
    Io(String),
    /// Network or HTTP failure after the retries.
    Http(String),
}

impl ArtError {
    /// The message shown for the error.
    pub fn message(&self) -> (r: String)
        ensures
            r@ == (match self {
                ArtError::Io(m) => "falha ao gravar art: "@ + m@,
                ArtError::Http(m) => "falha ao baixar art: "@ + m@,
            }),
    {
        match self {
            ArtError::Io(m) => {
                let mut s = "falha ao gravar art: ".to_owned();
                push_str(&mut s, m.as_str());
                s
            },
            ArtError::Http(m) => {
                let mut s = "falha ao baixar art: ".to_owned();
                push_str(&mut s, m.as_str());
                s
            },
        }
    }
}

/// Result of fetching a game's art: what was downloaded, what was already
/// there, and what the source did not have.
#[derive(Debug, PartialEq, Eq)]
pub struct FetchOutcome {
    /// File names newly written to `ART/`.
    pub downloaded: Vec<String>,
    /// Files that were already there (not downloaded again).
    pub skipped: Vec<String>,
    /// Kinds the source did not have (404 for every extension).
    pub not_found: Vec<ArtType>,
}

impl Default for FetchOutcome {
    fn default() -> (r: Self)
        ensures
            r.downloaded@.len() == 0,
            r.skipped@.len() == 0,
            r.not_found@.len() == 0,
    {
        FetchOutcome { downloaded: Vec::new(), skipped: Vec::new(), not_found: Vec::new() }
    }
}

/// Network port: a GET that returns the body. `Ok(None)` means the resource
/// does not exist (404); `Err` is a real failure after retries.
pub trait HttpGet {
    /// The answers this client may give to a GET of `url`, as its
    /// implementation describes them. By default nothing is described (every
    /// answer is possible); a client that models its server, such as a mock
    /// with fixed answers, narrows it.
    open spec fn answers(&self, url: Seq<char>, r: Result<Option<Vec<u8>>, ArtError>) -> bool {
        true
    }

    fn get(&self, url: &str) -> (r: Result<Option<Vec<u8>>, ArtError>)
        ensures
            self.answers(url@, r),
    ;
}

/// Port of the `ART/` folder: whether a file is there, and writing one.
pub trait ArtFiles {
    /// The answers this folder may give to "is `name` there?" (by default
    /// nothing is described).
    open spec fn reports(&self, name: Seq<char>, r: bool) -> bool {
        true
    }

    /// The outcomes this folder may give to writing `bytes` under `name` (by
    /// default nothing is described).
    open spec fn stores(&self, name: Seq<char>, bytes: Seq<u8>, r: Result<(), ArtError>) -> bool {
        true
    }

    fn has_file(&self, name: &str) -> (r: bool)
        ensures
            self.reports(name@, r),
    ;

    fn write_file(&self, name: &str, bytes: &[u8]) -> (r: Result<(), ArtError>)
        ensures
            self.stores(name@, bytes@, r),
    ;
}

/// The error is one the ports gave for kind `t`: a GET of one of its two URLs
/// failed with it, or writing one of its two names did.
pub open spec fn port_error_at<H: HttpGet, F: ArtFiles>(
    http: H,
    files: F,
    base: Seq<char>,
    id: Seq<char>,
    t: ArtType,
    e: ArtError,
) -> bool {
    ||| http.answers(art_url_text(base, id, t, "jpg"@), Err(e))
    ||| http.answers(art_url_text(base, id, t, "png"@), Err(e))
    ||| exists|b: Seq<u8>| #[trigger] files.stores(art_name(id, t, "jpg"@), b, Err(e))
    ||| exists|b: Seq<u8>| #[trigger] files.stores(art_name(id, t, "png"@), b, Err(e))
}

/// `n` is the name of kind `t` in extension `ext`, and the body the URL of
/// that name answered with was stored under `n`.
pub open spec fn fetched_into<H: HttpGet, F: ArtFiles>(
    http: H,
    files: F,
    base: Seq<char>,
    id: Seq<char>,
    t: ArtType,
    ext: Seq<char>,
    n: Seq<char>,
) -> bool {
    &&& n == art_name(id, t, ext)
    &&& exists|b: Vec<u8>|
        #[trigger] http.answers(art_url_text(base, id, t, ext), Ok(Some(b))) && files.stores(
            n,
            b@,
            Ok(()),
        )
}

/// `n` was downloaded for kind `t`: the `.jpg`, or the `.png` after the source
/// had no `.jpg`.
pub open spec fn downloaded_as<H: HttpGet, F: ArtFiles>(
    http: H,
    files: F,
    base: Seq<char>,
    id: Seq<char>,
    t: ArtType,
    n: Seq<char>,
) -> bool {
    ||| fetched_into(http, files, base, id, t, "jpg"@, n)
    ||| http.answers(art_url_text(base, id, t, "jpg"@), Ok(None)) && fetched_into(
        http,
        files,
        base,
        id,
        t,
        "png"@,
        n,
    )
}

/// `n` was skipped for kind `t`: the folder reported the `.jpg`, or not the
/// `.jpg` but the `.png`.
pub open spec fn skipped_as<F: ArtFiles>(files: F, id: Seq<char>, t: ArtType, n: Seq<char>) -> bool {
    ||| n == art_name(id, t, "jpg"@) && files.reports(n, true)
    ||| n == art_name(id, t, "png"@) && files.reports(art_name(id, t, "jpg"@), false)
        && files.reports(n, true)
}

/// The source had kind `t` in neither extension.
pub open spec fn missing_at<H: HttpGet>(http: H, base: Seq<char>, id: Seq<char>, t: ArtType) -> bool {
    &&& http.answers(art_url_text(base, id, t, "jpg"@), Ok(None))
    &&& http.answers(art_url_text(base, id, t, "png"@), Ok(None))
}

/// What became of one kind of art in a fetch.
pub enum ArtVerdict {
    /// Downloaded under this name.
    Downloaded(Seq<char>),
    /// Already in the folder under this name.
    Skipped(Seq<char>),
    /// The source had it in neither extension.
    Missing,
}

/// The verdict is what fetching kind `t` came to, given the folder's and the
/// source's answers: skipped only when not overwriting; otherwise (or when the
/// folder reported neither name) downloaded or missing as the source answered.
pub open spec fn verdict_ok<H: HttpGet, F: ArtFiles>(
    http: H,
    files: F,
    base: Seq<char>,
    id: Seq<char>,
    t: ArtType,
    overwrite: bool,
    v: ArtVerdict,
) -> bool {
    let absent = overwrite || (files.reports(art_name(id, t, "jpg"@), false) && files.reports(
        art_name(id, t, "png"@),
        false,
    ));
    match v {
        ArtVerdict::Skipped(n) => !overwrite && skipped_as(files, id, t, n),
        ArtVerdict::Downloaded(n) => absent && downloaded_as(http, files, base, id, t, n),
        ArtVerdict::Missing => absent && missing_at(http, base, id, t),
    }
}

/// The downloaded names of the verdicts, in order.
pub open spec fn downloaded_names(vs: Seq<ArtVerdict>) -> Seq<Seq<char>>
    decreases vs.len(),
{
    if vs.len() == 0 {
        seq![]
    } else {
        downloaded_names(vs.drop_last()) + match vs.last() {
            ArtVerdict::Downloaded(n) => seq![n],
            _ => seq![],
        }
    }
}

/// The skipped names of the verdicts, in order.
pub open spec fn skipped_names(vs: Seq<ArtVerdict>) -> Seq<Seq<char>>
    decreases vs.len(),
{
    if vs.len() == 0 {
        seq![]
    } else {
        skipped_names(vs.drop_last()) + match vs.last() {
            ArtVerdict::Skipped(n) => seq![n],
            _ => seq![],
        }
    }
}

/// The kinds found missing, in the order of `types` (parallel to `vs`).
pub open spec fn missing_kinds(vs: Seq<ArtVerdict>, types: Seq<ArtType>) -> Seq<ArtType>
    decreases vs.len(),
{
    if vs.len() == 0 || types.len() == 0 {
        seq![]
    } else {
        missing_kinds(vs.drop_last(), types.drop_last()) + if vs.last() is Missing {
            seq![types.last()]
        } else {
            seq![]
        }
    }
}

/// The outcome lists are the verdicts of the kinds, one verdict per kind, in
/// the order of `types`.
pub open spec fn verdicts_explain<H: HttpGet, F: ArtFiles>(
    http: H,
    files: F,
    base: Seq<char>,
    id: Seq<char>,
    types: Seq<ArtType>,
    overwrite: bool,
    vs: Seq<ArtVerdict>,
    o: FetchOutcome,
) -> bool {
    &&& vs.len() == types.len()
    &&& forall|k: int|
        0 <= k < types.len() ==> #[trigger] verdict_ok(http, files, base, id, types[k], overwrite, vs[k])
    &&& o.downloaded@.map_values(|s: String| s@) == downloaded_names(vs)
    &&& o.skipped@.map_values(|s: String| s@) == skipped_names(vs)
    &&& o.not_found@ == missing_kinds(vs, types)
}

/// What fetching a game's art may give, as the ports answer: on success, one
/// verdict per kind, in order, explains the three lists; on failure, the error
/// is one a port gave for one of the kinds.
pub open spec fn fetch_result<H: HttpGet, F: ArtFiles>(
    http: H,
    files: F,
    base: Seq<char>,
    id: Seq<char>,
    types: Seq<ArtType>,
    overwrite: bool,
    r: Result<FetchOutcome, ArtError>,
) -> bool {
    match r {
        Ok(o) => {
            &&& o.downloaded@.len() + o.skipped@.len() + o.not_found@.len() == types.len()
            &&& exists|vs: Seq<ArtVerdict>|
                #[trigger] verdicts_explain(http, files, base, id, types, overwrite, vs, o)
        },
        Err(e) => exists|k: int|
            0 <= k < types.len() && #[trigger] port_error_at(http, files, base, id, types[k], e),
    }
}

proof fn lemma_verdicts_push(vs: Seq<ArtVerdict>, types: Seq<ArtType>, v: ArtVerdict, t: ArtType)
    requires
        vs.len() == types.len(),
    ensures
        downloaded_names(vs.push(v)) == downloaded_names(vs) + match v {
            ArtVerdict::Downloaded(n) => seq![n],
            _ => seq![],
        },
        skipped_names(vs.push(v)) == skipped_names(vs) + match v {
            ArtVerdict::Skipped(n) => seq![n],
            _ => seq![],
        },
        missing_kinds(vs.push(v), types.push(t)) == missing_kinds(vs, types) + if v is Missing {
            seq![t]
        } else {
            seq![]
        },
{
    assert(vs.push(v).drop_last() =~= vs);
    assert(types.push(t).drop_last() =~= types);
}

/// `<GameID>_<TYPE>.<ext>`.
pub open spec fn art_name(id: Seq<char>, t: ArtType, ext: Seq<char>) -> Seq<char> {
    id + "_"@ + art_code(t) + "."@ + ext
}

/// The file names are the loader's (and the art database's):
/// `<id>_COV`, `_COV2`, `_ICO`, `_LAB`, `_LGO`, `_SCR`, `_SCR2` and `_BG`,
/// then the extension, for every id and extension; and distinct kinds never
/// share a name.
pub proof fn law_art_names_follow_the_loader(id: Seq<char>, ext: Seq<char>, a: ArtType, b: ArtType)
    ensures
        art_name(id, ArtType::Cov, ext) == id + "_COV."@ + ext,
        art_name(id, ArtType::Cov2, ext) == id + "_COV2."@ + ext,
        art_name(id, ArtType::Ico, ext) == id + "_ICO."@ + ext,
        art_name(id, ArtType::Lab, ext) == id + "_LAB."@ + ext,
        art_name(id, ArtType::Lgo, ext) == id + "_LGO."@ + ext,
        art_name(id, ArtType::Scr, ext) == id + "_SCR."@ + ext,
        art_name(id, ArtType::Scr2, ext) == id + "_SCR2."@ + ext,
        art_name(id, ArtType::Bg, ext) == id + "_BG."@ + ext,
        a != b ==> art_name(id, a, ext) != art_name(id, b, ext),
{
    reveal_strlit("_");
    reveal_strlit(".");
    reveal_strlit("COV");
    reveal_strlit("COV2");
    reveal_strlit("ICO");
    reveal_strlit("LAB");
    reveal_strlit("LGO");
    reveal_strlit("SCR");
    reveal_strlit("SCR2");
    reveal_strlit("BG");
    reveal_strlit("_COV.");
    reveal_strlit("_COV2.");
    reveal_strlit("_ICO.");
    reveal_strlit("_LAB.");
    reveal_strlit("_LGO.");
    reveal_strlit("_SCR.");
    reveal_strlit("_SCR2.");
    reveal_strlit("_BG.");
    assert(art_name(id, ArtType::Cov, ext) =~= id + "_COV."@ + ext);
    assert(art_name(id, ArtType::Cov2, ext) =~= id + "_COV2."@ + ext);
    assert(art_name(id, ArtType::Ico, ext) =~= id + "_ICO."@ + ext);
    assert(art_name(id, ArtType::Lab, ext) =~= id + "_LAB."@ + ext);
    assert(art_name(id, ArtType::Lgo, ext) =~= id + "_LGO."@ + ext);
    assert(art_name(id, ArtType::Scr, ext) =~= id + "_SCR."@ + ext);
    assert(art_name(id, ArtType::Scr2, ext) =~= id + "_SCR2."@ + ext);
    assert(art_name(id, ArtType::Bg, ext) =~= id + "_BG."@ + ext);
    if a != b && art_name(id, a, ext) == art_name(id, b, ext) {
        let na = art_name(id, a, ext);
        let nb = art_name(id, b, ext);
        let k: int = id.len() as int + 1;
        assert(na[k] == nb[k]);
        assert(na[k + 1] == nb[k + 1]);
        assert(na[k + 2] == nb[k + 2]);
        if na.len() > k + 3 && nb.len() > k + 3 {
            assert(na[k + 3] == nb[k + 3]);
        }
        assert(na.len() == nb.len());
        assert(false);
    }
}

/// The base without its trailing `/` characters.
pub open spec fn trim_end_slashes(s: Seq<char>) -> Seq<char>
    decreases s.len(),
{
    if s.len() > 0 && s.last() == '/' {
        trim_end_slashes(s.drop_last())
    } else {
        s
    }
}

/// `<base>/PS2/<id>/<id>_<TYPE>.<ext>`, the base taken without trailing `/`.
pub open spec fn art_url_text(base: Seq<char>, id: Seq<char>, t: ArtType, ext: Seq<char>) -> Seq<
    char,
> {
    trim_end_slashes(base) + "/PS2/"@ + id + "/"@ + art_name(id, t, ext)
}

/// Name of the file in `ART/`: `<GameID>_<TYPE>.<ext>`.
pub fn art_dest_name(id: &GameId, ty: ArtType, ext: &str) -> (r: String)
    ensures
        r@ == art_name(id@, ty, ext@),
{
    let mut s = id.as_str().to_owned();
    push_str(&mut s, "_");
    push_str(&mut s, ty.code());
    push_str(&mut s, ".");
    push_str(&mut s, ext);
    s
}

proof fn lemma_trim_end_slashes(s: Seq<char>, j: int)
    requires
        0 <= j <= s.len(),
        forall|k: int| j <= k < s.len() ==> #[trigger] s[k] == '/',
        j == 0 || s[j - 1] != '/',
    ensures
        trim_end_slashes(s) == s.subrange(0, j),
    decreases s.len() - j,
{
    if j < s.len() {
        let t = s.drop_last();
        assert forall|k: int| j <= k < t.len() implies #[trigger] t[k] == '/' by {
            assert(t[k] == s[k]);
        }
        if j > 0 {
            assert(t[j - 1] == s[j - 1]);
        }
        lemma_trim_end_slashes(t, j);
        assert(t.subrange(0, j) =~= s.subrange(0, j));
    } else {
        assert(s.subrange(0, j) =~= s);
    }
}

/// URL that extracts one art file from inside the archive's zip.
pub fn art_url(base_url: &str, id: &GameId, ty: ArtType, ext: &str) -> (r: String)
    ensures
        r@ == art_url_text(base_url@, id@, ty, ext@),
{
    let b = chars_of(base_url);
    let mut j = b.len();
    while j > 0 && b[j - 1] == '/'
        invariant
            0 <= j <= b@.len(),
            forall|k: int| j <= k < b@.len() ==> #[trigger] b@[k] == '/',
        decreases j,
    {
        j = j - 1;
    }
    proof {
        lemma_trim_end_slashes(b@, j as int);
    }
    let mut s = string_of(&slice_vec(&b, 0, j));
    push_str(&mut s, "/PS2/");
    push_str(&mut s, id.as_str());
    push_str(&mut s, "/");
    let name = art_dest_name(id, ty, ext);
    push_str(&mut s, name.as_str());
    s
}

/// Downloads art by game id into `ART/`. Generic in the HTTP client so that
/// it can be exercised without a network.
pub struct ArtProvider<H: HttpGet> {
    http: H,
    base_url: String,
    types: Vec<ArtType>,
}

impl<H: HttpGet> ArtProvider<H> {
    /// Builds a provider from a client, a base URL and the kinds of art to
    /// fetch (for tests, or to point at a mirror or a local backup).
    pub fn with_parts(http: H, base_url: String, types: Vec<ArtType>) -> (r: Self)
        ensures
            r.client() == http,
            r.base_url() == base_url@,
            r.types() == types@,
    {
        ArtProvider { http, base_url, types }
    }

    /// The base URL.
    pub closed spec fn base_url(&self) -> Seq<char> {
        self.base_url@
    }

    /// The kinds of art fetched, in order.
    pub closed spec fn types(&self) -> Seq<ArtType> {
        self.types@
    }

    /// The HTTP client.
    pub closed spec fn client(&self) -> H {
        self.http
    }

    /// Fetches a game's art into the `ART/` folder. For each kind, in order, a
    /// file already there (either extension) is skipped unless `overwrite`;
    /// otherwise `.jpg` then `.png` are asked for and the first one found is
    /// written. A network or write failure stops with the error the port gave.
    /// Each kind gets exactly one verdict, and the three lists are the
    /// verdicts in the order of the kinds.
    pub fn fetch_for_game<F: ArtFiles>(&self, id: &GameId, art_dir: &F, overwrite: bool) -> (r:
        Result<FetchOutcome, ArtError>)
        ensures
            fetch_result(
                self.client(),
                *art_dir,
                self.base_url(),
                id@,
                self.types(),
                overwrite,
                r,
            ),
    {
        let mut outcome = FetchOutcome::default();
        let ghost types = self.types@;
        let ghost http = self.client();
        let ghost base = self.base_url();
        let ghost mut vs: Seq<ArtVerdict> = seq![];
        let mut t: usize = 0;
        assert(outcome.downloaded@.map_values(|s: String| s@) =~= downloaded_names(vs));
        assert(outcome.skipped@.map_values(|s: String| s@) =~= skipped_names(vs));
        assert(outcome.not_found@ =~= missing_kinds(vs, types.take(0)));
        while t < self.types.len()
            invariant
                0 <= t <= self.types@.len(),
                types == self.types@,
                types == self.types(),
                http == self.client(),
                base == self.base_url(),
                outcome.downloaded@.len() + outcome.skipped@.len() + outcome.not_found@.len() == t,
                vs.len() == t,
                forall|k: int|
                    0 <= k < t ==> #[trigger] verdict_ok(
                        http,
                        *art_dir,
                        base,
                        id@,
                        types[k],
                        overwrite,
                        vs[k],
                    ),
                outcome.downloaded@.map_values(|s: String| s@) == downloaded_names(vs),
                outcome.skipped@.map_values(|s: String| s@) == skipped_names(vs),
                outcome.not_found@ == missing_kinds(vs, types.take(t as int)),
            decreases self.types@.len() - t,
        {
            let ty = self.types[t];
            let jpg = art_dest_name(id, ty, "jpg");
            let png = art_dest_name(id, ty, "png");
            assert(types[t as int] == ty);
            let has_jpg = if overwrite {
                false
            } else {
                art_dir.has_file(jpg.as_str())
            };
            let has_png = if overwrite || has_jpg {
                false
            } else {
                art_dir.has_file(png.as_str())
            };
            let ghost v: ArtVerdict;
            let ghost od = outcome.downloaded@;
            let ghost os = outcome.skipped@;
            let ghost on = outcome.not_found@;
            if has_jpg {
                proof {
                    v = ArtVerdict::Skipped(jpg@);
                    assert(skipped_as(*art_dir, id@, ty, jpg@));
                }
                outcome.skipped.push(jpg);
            } else if has_png {
                proof {
                    v = ArtVerdict::Skipped(png@);
                    assert(skipped_as(*art_dir, id@, ty, png@));
                }
                outcome.skipped.push(png);
            } else {
                let url_jpg = art_url(self.base_url.as_str(), id, ty, "jpg");
                let got_jpg = self.http.get(url_jpg.as_str());
                match got_jpg {
                    Err(e) => {
                        assert(port_error_at(http, *art_dir, base, id@, types[t as int], e));
                        return Err(e);
                    },
                    Ok(Some(bytes)) => {
                        let written = art_dir.write_file(jpg.as_str(), bytes.as_slice());
                        match written {
                            Err(e) => {
                                assert(art_dir.stores(art_name(id@, ty, "jpg"@), bytes@, Err(e)));
                                assert(port_error_at(http, *art_dir, base, id@, types[t as int], e));
                                return Err(e);
                            },
                            Ok(()) => {},
                        }
                        proof {
                            v = ArtVerdict::Downloaded(jpg@);
                            assert(http.answers(art_url_text(base, id@, ty, "jpg"@), Ok(Some(bytes))));
                            assert(written->Ok_0 == ());
                            assert(art_dir.stores(jpg@, bytes@, Ok(())));
                            assert(fetched_into(http, *art_dir, base, id@, ty, "jpg"@, jpg@));
                            assert(downloaded_as(http, *art_dir, base, id@, ty, jpg@));
                        }
                        outcome.downloaded.push(jpg);
                    },
                    Ok(None) => {
                        let url_png = art_url(self.base_url.as_str(), id, ty, "png");
                        let got_png = self.http.get(url_png.as_str());
                        match got_png {
                            Err(e) => {
                                assert(port_error_at(http, *art_dir, base, id@, types[t as int], e));
                                return Err(e);
                            },
                            Ok(Some(bytes)) => {
                                let written = art_dir.write_file(png.as_str(), bytes.as_slice());
                                match written {
                                    Err(e) => {
                                        assert(art_dir.stores(art_name(id@, ty, "png"@), bytes@, Err(e)));
                                        assert(port_error_at(http, *art_dir, base, id@, types[t as int], e));
                                        return Err(e);
                                    },
                                    Ok(()) => {},
                                }
                                proof {
                                    v = ArtVerdict::Downloaded(png@);
                                    assert(http.answers(art_url_text(base, id@, ty, "png"@), Ok(Some(bytes))));
                                    assert(written->Ok_0 == ());
                                    assert(art_dir.stores(png@, bytes@, Ok(())));
                                    assert(fetched_into(http, *art_dir, base, id@, ty, "png"@, png@));
                                    assert(downloaded_as(http, *art_dir, base, id@, ty, png@));
                                }
                                outcome.downloaded.push(png);
                            },
                            Ok(None) => {
                                proof {
                                    v = ArtVerdict::Missing;
                                    assert(missing_at(http, base, id@, ty));
                                }
                                outcome.not_found.push(ty);
                            },
                        }
                    },
                }
            }
            proof {
                assert(verdict_ok(http, *art_dir, base, id@, ty, overwrite, v));
                lemma_verdicts_push(vs, types.take(t as int), v, ty);
                assert(types.take(t + 1) =~= types.take(t as int).push(ty));
                assert(od.map_values(|s: String| s@).len() == od.len());
                match v {
                    ArtVerdict::Downloaded(n) => {
                        assert(outcome.downloaded@.map_values(|s: String| s@) =~= od.map_values(
                            |s: String| s@,
                        ) + seq![n]);
                        assert(outcome.skipped@ == os);
                        assert(outcome.not_found@ == on);
                    },
                    ArtVerdict::Skipped(n) => {
                        assert(outcome.skipped@.map_values(|s: String| s@) =~= os.map_values(
                            |s: String| s@,
                        ) + seq![n]);
                        assert(outcome.downloaded@ == od);
                        assert(outcome.not_found@ == on);
                    },
                    ArtVerdict::Missing => {
                        assert(outcome.not_found@ =~= on + seq![ty]);
                        assert(outcome.downloaded@ == od);
                        assert(outcome.skipped@ == os);
                    },
                }
                let old_vs = vs;
                vs = vs.push(v);
                assert forall|k: int| 0 <= k < t + 1 implies #[trigger] verdict_ok(
                    http,
                    *art_dir,
                    base,
                    id@,
                    types[k],
                    overwrite,
                    vs[k],
                ) by {
                    if k < t {
                        assert(vs[k] == old_vs[k]);
                    }
                }
            }
            t = t + 1;
        }
        proof {
            assert(types.take(t as int) =~= types);
            assert(verdicts_explain(http, *art_dir, base, id@, types, overwrite, vs, outcome));
        }
        Ok(outcome)
    }
}

/// Totals of a cover download over a whole library.
#[derive(Debug, Clone, Copy, PartialEq, Eq)]
pub struct ArtTally {
    pub downloaded: usize,
    pub skipped: usize,
    pub not_found: usize,
    /// Images whose game id could not be read.
    pub no_id: usize,
    /// Games whose fetch failed (network or write).
    pub errors: usize,
}

/// Number of images without a game id.
pub open spec fn missing_ids(ids: Seq<Option<GameId>>) -> nat
    decreases ids.len(),
{
    if ids.len() == 0 {
        0
    } else {
        missing_ids(ids.drop_last()) + if ids.last() is None {
            1nat
        } else {
            0nat
        }
    }
}

/// Totals over the per-image results of a library fetch (`None` for an image
/// without id): downloaded, skipped and not-found entries of the successful
/// fetches, images without id, failed fetches.
pub open spec fn tally_of(rs: Seq<Option<Result<FetchOutcome, ArtError>>>) -> (nat, nat, nat, nat, nat)
    decreases rs.len(),
{
    if rs.len() == 0 {
        (0, 0, 0, 0, 0)
    } else {
        let (d, s, n, x, e) = tally_of(rs.drop_last());
        match rs.last() {
            None => (d, s, n, x + 1, e),
            Some(Ok(o)) => (
                d + o.downloaded@.len(),
                s + o.skipped@.len(),
                n + o.not_found@.len(),
                x,
                e,
            ),
            Some(Err(_)) => (d, s, n, x, e + 1),
        }
    }
}

/// Each image's result is what fetching its game (without overwriting) may
/// give, and an image without id has none.
pub open spec fn library_results<H: HttpGet, F: ArtFiles>(
    http: H,
    files: F,
    base: Seq<char>,
    types: Seq<ArtType>,
    ids: Seq<Option<GameId>>,
    rs: Seq<Option<Result<FetchOutcome, ArtError>>>,
) -> bool {
    &&& rs.len() == ids.len()
    &&& forall|g: int|
        0 <= g < ids.len() ==> match #[trigger] ids[g] {
            None => rs[g] is None,
            Some(id) => rs[g] matches Some(x) && fetch_result(http, files, base, id@, types, false, x),
        }
}

impl<H: HttpGet> ArtProvider<H> {
    /// Fetches the art of every image of a library, given the game id read
    /// from each (`None` when it could not be read), without downloading again
    /// what is already there. Never stops: an image without id is counted, a
    /// failed game is counted and the next one is tried. Every game that did
    /// not fail accounts for each kind of art exactly once.
    pub fn fetch_library<F: ArtFiles>(&self, ids: &[Option<GameId>], art_dir: &F) -> (r: ArtTally)
        requires
            ids@.len() * self.types().len() <= usize::MAX,
        ensures
            r.no_id == missing_ids(ids@),
            r.no_id + r.errors <= ids@.len(),
            r.downloaded + r.skipped + r.not_found == (ids@.len() - r.no_id - r.errors)
                * self.types().len(),
            exists|rs: Seq<Option<Result<FetchOutcome, ArtError>>>|
                #[trigger] library_results(
                    self.client(),
                    *art_dir,
                    self.base_url(),
                    self.types(),
                    ids@,
                    rs,
                ) && tally_of(rs) == (
                    r.downloaded as nat,
                    r.skipped as nat,
                    r.not_found as nat,
                    r.no_id as nat,
                    r.errors as nat,
                ),
    {
        let ghost t = self.types().len();
        let ghost mut rs: Seq<Option<Result<FetchOutcome, ArtError>>> = seq![];
        let mut tally = ArtTally { downloaded: 0, skipped: 0, not_found: 0, no_id: 0, errors: 0 };
        let mut i: usize = 0;
        while i < ids.len()
            invariant
                0 <= i <= ids@.len(),
                t == self.types().len(),
                ids@.len() * t <= usize::MAX,
                tally.no_id == missing_ids(ids@.take(i as int)),
                tally.no_id + tally.errors <= i,
                tally.downloaded + tally.skipped + tally.not_found == (i - tally.no_id
                    - tally.errors) * t,
                library_results(
                    self.client(),
                    *art_dir,
                    self.base_url(),
                    self.types(),
                    ids@.take(i as int),
                    rs,
                ),
                tally_of(rs) == (
                    tally.downloaded as nat,
                    tally.skipped as nat,
                    tally.not_found as nat,
                    tally.no_id as nat,
                    tally.errors as nat,
                ),
            decreases ids@.len() - i,
        {
            let ghost ok = i - tally.no_id - tally.errors;
            proof {
                assert(ids@.take(i + 1).drop_last() =~= ids@.take(i as int));
                assert(ids@.take(i + 1).last() == ids@[i as int]);
                assert(ok * t + t <= ids@.len() * t) by (nonlinear_arith)
                    requires
                        0 <= ok,
                        ok + 1 <= ids@.len(),
                        0 <= t,
                ;
                assert((ok + 1) * t == ok * t + t) by (nonlinear_arith);
            }
            let ghost item: Option<Result<FetchOutcome, ArtError>>;
            match &ids[i] {
                None => {
                    proof {
                        item = None;
                    }
                    tally.no_id = tally.no_id + 1;
                },
                Some(id) => {
                    let res = self.fetch_for_game(id, art_dir, false);
                    proof {
                        item = Some(res);
                    }
                    match res {
                        Ok(out) => {
                            tally.downloaded = tally.downloaded + out.downloaded.len();
                            tally.skipped = tally.skipped + out.skipped.len();
                            tally.not_found = tally.not_found + out.not_found.len();
                        },
                        Err(_) => {
                            tally.errors = tally.errors + 1;
                        },
                    }
                },
            }
            proof {
                let old_rs = rs;
                rs = rs.push(item);
                assert(rs.drop_last() =~= old_rs);
                let pre = ids@.take(i + 1);
                assert forall|g: int| 0 <= g < pre.len() implies match #[trigger] pre[g] {
                    None => rs[g] is None,
                    Some(id) => rs[g] matches Some(x) && fetch_result(
                        self.client(),
                        *art_dir,
                        self.base_url(),
                        id@,
                        self.types(),
                        false,
                        x,
                    ),
                } by {
                    if g < i {
                        assert(pre[g] == ids@.take(i as int)[g]);
                        assert(rs[g] == old_rs[g]);
                    } else {
                        assert(pre[g] == ids@[i as int]);
                    }
                }
            }
            i = i + 1;
        }
        assert(ids@.take(ids@.len() as int) =~= ids@);
        assert(library_results(self.client(), *art_dir, self.base_url(), self.types(), ids@, rs));
        tally
    }
}

/// Retries the HTTP client makes on a 502 to 504 (the archive's overload
/// answers) before giving up.
pub const DEFAULT_MAX_RETRIES: u32 = 3;

/// How one HTTP attempt ended.
#[derive(Debug, Clone, Copy, PartialEq, Eq, Structural)]
pub enum HttpAttempt {
    /// A successful response, whose body is to be read.
    Success,
    /// An error status.
    Status(u16),
    /// Any other failure (connection, TLS...).
    Failed,
}

/// What the client does after an attempt.
#[derive(Debug, Clone, Copy, PartialEq, Eq, Structural)]
pub enum HttpNext {
    ReadBody,
    /// The source does not have it (404).
    NotFound,
    /// Waits this many milliseconds and tries again.
    Retry { wait_ms: u64 },
    GiveUp,
}

/// Backoff before retry number `attempt` (1, 2, ...): 500 ms doubling each
/// time, at most 8 s.
pub open spec fn backoff_ms_spec(attempt: u32) -> u64 {
    if attempt <= 1 {
        500
    } else if attempt == 2 {
        1000
    } else if attempt == 3 {
        2000
    } else if attempt == 4 {
        4000
    } else {
        8000
    }
}

/// The wait before retry number `attempt`.
pub fn backoff_ms(attempt: u32) -> (r: u64)
    ensures
        r == backoff_ms_spec(attempt),
{
    let e: u32 = if attempt == 0 {
        0
    } else if attempt - 1 > 4 {
        4
    } else {
        attempt - 1
    };
    let mut ms: u64 = 500;
    let mut k: u32 = 0;
    while k < e
        invariant
            0 <= k <= e <= 4,
            e == (if attempt == 0 { 0 } else if attempt - 1 > 4 { 4 } else { attempt - 1 }),
            ms == (if k == 0 { 500u64 } else if k == 1 { 1000u64 } else if k == 2 { 2000u64 } else if k == 3 { 4000u64 } else { 8000u64 }),
        decreases e - k,
    {
        ms = ms * 2;
        k = k + 1;
    }
    if ms > 8000 {
        8000
    } else {
        ms
    }
}

/// The decision after an attempt, given how many retries were already made.
pub open spec fn next_http_step_spec(outcome: HttpAttempt, attempt: u32, max_retries: u32) -> HttpNext {
    match outcome {
        HttpAttempt::Success => HttpNext::ReadBody,
        HttpAttempt::Status(404) => HttpNext::NotFound,
        HttpAttempt::Status(c) => if 502 <= c <= 504 && attempt < max_retries {
            HttpNext::Retry { wait_ms: backoff_ms_spec((attempt + 1) as u32) }
        } else {
            HttpNext::GiveUp
        },
        HttpAttempt::Failed => HttpNext::GiveUp,
    }
}

/// Decides what the HTTP client does after an attempt: read the body, report
/// a missing resource, wait and retry an overloaded server, or give up.
pub fn next_http_step(outcome: HttpAttempt, attempt: u32, max_retries: u32) -> (r: HttpNext)
    ensures
        r == next_http_step_spec(outcome, attempt, max_retries),
{
    match outcome {
        HttpAttempt::Success => HttpNext::ReadBody,
        HttpAttempt::Status(c) => {
            if c == 404 {
                HttpNext::NotFound
            } else if 502 <= c && c <= 504 && attempt < max_retries {
                HttpNext::Retry { wait_ms: backoff_ms(attempt + 1) }
            } else {
                HttpNext::GiveUp
            }
        },
        HttpAttempt::Failed => HttpNext::GiveUp,
    }
}

} // verus!
