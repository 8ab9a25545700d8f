//! Game metadata editor: the five fields the loader shows on its information
//! screen, kept in `CFG/<GameID>.cfg` as `key=value` lines.
//!
//! The same file holds the loader's compatibility settings (keys starting with
//! `$`). Writing the information is read-modify-write: [`GameCfg`] keeps every
//! unknown line and the order, and [`GameCfg::apply_info`] touches only the five
//! information keys.
use vstd::prelude::*;
use crate::game_id::GameId;
use crate::text::{
    chars_of, decimal, first_index, find_char_from, push_char, push_decimal, push_str, slice_vec,
    string_of, trim, trim_vec, lines, lines_vec,
};

verus! {

/// Key of the displayed title (overrides the title derived from the file).
pub const KEY_TITLE: &'static str = "Title";

/// Key of the genre.
pub const KEY_GENRE: &'static str = "Genre";

/// Key of the release date or year (free text, shown as written).
pub const KEY_RELEASE: &'static str = "Release";

/// Key of the developer or publisher.
pub const KEY_DEVELOPER: &'static str = "Developer";

/// Key of the description.
pub const KEY_DESCRIPTION: &'static str = "Description";

/// Largest value, in characters, that the loader's `.cfg` parser keeps (its
/// buffer holds 256 bytes including the terminator).
pub const OPL_VALUE_MAX_LEN: usize = 255;

/// Views of an optional string.
pub open spec fn opt_view(o: Option<String>) -> Option<Seq<char>> {
    match o {
        Some(s) => Some(s@),
        None => None,
    }
}

/// Editable metadata of a game. `None` means the key is absent from the
/// `.cfg`, and the loader falls back to its default.
#[derive(Debug, Clone, PartialEq, Eq)]
pub struct GameInfo {
    pub title: Option<String>,
    pub genre: Option<String>,
    pub release: Option<String>,
    pub developer: Option<String>,
    pub description: Option<String>,
}

impl Default for GameInfo {
    fn default() -> (r: Self)
        ensures
            r.title is None,
            r.genre is None,
            r.release is None,
            r.developer is None,
            r.description is None,
    {
        GameInfo { title: None, genre: None, release: None, developer: None, description: None }
    }
}

/// Error found in one field, tied to the loader key of that field.
#[derive(Debug, Clone, PartialEq, Eq)]
pub struct FieldError {
    pub key: &'static str,
    pub kind: FieldErrorKind,
}

/// What is wrong with a field.
#[derive(Debug, Clone, Copy, PartialEq, Eq, Structural)]
pub enum FieldErrorKind {
    /// The value is longer than the loader accepts.
    TooLong { len: usize },
    /// The value holds a line break (each value is one line of the `.cfg`).
    Newline,
}

/// The errors of one field, in the order `validate` reports them.
pub open spec fn field_errors(key: Seq<char>, value: Option<Seq<char>>) -> Seq<
    (Seq<char>, FieldErrorKind),
> {
    match value {
        None => seq![],
        Some(v) => (if v.contains('\n') || v.contains('\r') {
            seq![(key, FieldErrorKind::Newline)]
        } else {
            seq![]
        }) + (if v.len() > OPL_VALUE_MAX_LEN {
            seq![(key, FieldErrorKind::TooLong { len: v.len() as usize })]
        } else {
            seq![]
        }),
    }
}

/// The `(key, kind)` pairs of a list of field errors.
pub open spec fn error_pairs(errs: Seq<FieldError>) -> Seq<(Seq<char>, FieldErrorKind)> {
    errs.map_values(|e: FieldError| (e.key@, e.kind))
}

impl GameInfo {
    /// `true` if no field is filled.
    pub fn is_empty(&self) -> (r: bool)
        ensures
            r == (self.title is None && self.genre is None && self.release is None
                && self.developer is None && self.description is None),
    {
        self.title.is_none() && self.genre.is_none() && self.release.is_none()
            && self.developer.is_none() && self.description.is_none()
    }

    /// All errors of the fields, in the loader's field order; for each field
    /// first a line break, then a length over [`OPL_VALUE_MAX_LEN`]
    /// characters. Empty when the information can be written.
    pub fn validate(&self) -> (r: Vec<FieldError>)
        ensures
            error_pairs(r@) == field_errors(KEY_TITLE@, opt_view(self.title)) + field_errors(
                KEY_GENRE@,
                opt_view(self.genre),
            ) + field_errors(KEY_RELEASE@, opt_view(self.release)) + field_errors(
                KEY_DEVELOPER@,
                opt_view(self.developer),
            ) + field_errors(KEY_DESCRIPTION@, opt_view(self.description)),
    {
        let mut errs: Vec<FieldError> = Vec::new();
        push_field_errors(&mut errs, KEY_TITLE, &self.title);
        push_field_errors(&mut errs, KEY_GENRE, &self.genre);
        push_field_errors(&mut errs, KEY_RELEASE, &self.release);
        push_field_errors(&mut errs, KEY_DEVELOPER, &self.developer);
        push_field_errors(&mut errs, KEY_DESCRIPTION, &self.description);
        errs
    }
}

fn push_field_errors(errs: &mut Vec<FieldError>, key: &'static str, value: &Option<String>)
    ensures
        error_pairs(final(errs)@) == error_pairs(old(errs)@) + field_errors(key@, opt_view(*value)),
{
    let ghost before = error_pairs(errs@);
    match value {
        None => {
            assert(error_pairs(errs@) =~= before + field_errors(key@, opt_view(*value)));
        },
        Some(v) => {
            let cs = chars_of(v.as_str());
            let nl = crate::text::contains_char(&cs, '\n') || crate::text::contains_char(&cs, '\r');
            if nl {
                errs.push(FieldError { key, kind: FieldErrorKind::Newline });
            }
            let ghost mid = error_pairs(errs@);
            assert(mid =~= before + (if v@.contains('\n') || v@.contains('\r') {
                seq![(key@, FieldErrorKind::Newline)]
            } else {
                seq![]
            }));
            if cs.len() > OPL_VALUE_MAX_LEN {
                errs.push(FieldError { key, kind: FieldErrorKind::TooLong { len: cs.len() } });
            }
            assert(error_pairs(errs@) =~= before + field_errors(key@, opt_view(*value)));
        },
    }
}

// ---------------------------------------------------------------------------
// The `.cfg` file
// ---------------------------------------------------------------------------

/// One line of a `.cfg`: a `key=value` pair, or a line kept as written (blank
/// or without `=`) so that writing the file back is faithful.
#[derive(Debug, Clone, PartialEq, Eq)]
pub enum CfgLine {
    Pair { key: String, value: String },
    Raw(String),
}

/// View of one line of a `.cfg`.
pub enum CfgEntry {
    Pair(Seq<char>, Seq<char>),
    Raw(Seq<char>),
}

impl View for CfgLine {
    type V = CfgEntry;

    open spec fn view(&self) -> CfgEntry {
        match self {
            CfgLine::Pair { key, value } => CfgEntry::Pair(key@, value@),
            CfgLine::Raw(r) => CfgEntry::Raw(r@),
        }
    }
}

/// A `.cfg` in memory: its lines in order, unknown ones included.
#[derive(Debug, Clone, PartialEq, Eq)]
pub struct GameCfg {
    lines: Vec<CfgLine>,
}

impl View for GameCfg {
    type V = Seq<CfgEntry>;

    closed spec fn view(&self) -> Seq<CfgEntry> {
        self.lines@.map_values(|l: CfgLine| l@)
    }
}

impl Default for GameCfg {
    /// An empty `.cfg`.
    fn default() -> (r: Self)
        ensures
            r@ == Seq::<CfgEntry>::empty(),
    {
        let r = GameCfg { lines: Vec::new() };
        assert(r@ =~= Seq::<CfgEntry>::empty());
        r
    }
}

/// How one line of text is read: split at the first `=`, key trimmed (the
/// loader ignores whitespace around the key); a line without `=` is raw.
pub open spec fn parse_line(l: Seq<char>) -> CfgEntry {
    let i = first_index(l, '=');
    if i < l.len() {
        CfgEntry::Pair(trim(l.subrange(0, i)), l.subrange(i + 1, l.len() as int))
    } else {
        CfgEntry::Raw(l)
    }
}

/// The entries of a `.cfg` text.
pub open spec fn parse_cfg(raw: Seq<char>) -> Seq<CfgEntry> {
    lines(raw).map_values(|l: Seq<char>| parse_line(l))
}

/// The entry is a pair with this key.
pub open spec fn has_key(e: CfgEntry, key: Seq<char>) -> bool {
    e matches CfgEntry::Pair(k, _) && k == key
}

/// Value of the first pair with this key.
pub open spec fn cfg_get(es: Seq<CfgEntry>, key: Seq<char>) -> Option<Seq<char>>
    decreases es.len(),
{
    if es.len() == 0 {
        None
    } else if has_key(es[0], key) {
        match es[0] {
            CfgEntry::Pair(_, v) => Some(v),
            CfgEntry::Raw(_) => None,
        }
    } else {
        cfg_get(es.drop_first(), key)
    }
}

/// Sets the first pair with this key in place, or appends a pair.
pub open spec fn cfg_set(es: Seq<CfgEntry>, key: Seq<char>, value: Seq<char>) -> Seq<CfgEntry>
    decreases es.len(),
{
    if es.len() == 0 {
        seq![CfgEntry::Pair(key, value)]
    } else if has_key(es[0], key) {
        seq![CfgEntry::Pair(key, value)] + es.drop_first()
    } else {
        seq![es[0]] + cfg_set(es.drop_first(), key, value)
    }
}

/// Removes every pair with this key, keeping the other lines in order.
pub open spec fn cfg_remove(es: Seq<CfgEntry>, key: Seq<char>) -> Seq<CfgEntry>
    decreases es.len(),
{
    if es.len() == 0 {
        seq![]
    } else if has_key(es[0], key) {
        cfg_remove(es.drop_first(), key)
    } else {
        seq![es[0]] + cfg_remove(es.drop_first(), key)
    }
}

proof fn lemma_remove_push(a: Seq<CfgEntry>, e: CfgEntry, key: Seq<char>)
    ensures
        cfg_remove(a.push(e), key) == cfg_remove(a, key) + (if has_key(e, key) {
            Seq::<CfgEntry>::empty()
        } else {
            seq![e]
        }),
    decreases a.len(),
{
    if a.len() == 0 {
        assert(a.push(e).drop_first() =~= Seq::<CfgEntry>::empty());
        assert(a.push(e)[0] == e);
        assert(cfg_remove(a.push(e).drop_first(), key) == Seq::<CfgEntry>::empty());
        assert(cfg_remove(a, key) == Seq::<CfgEntry>::empty());
        assert(cfg_remove(a.push(e), key) =~= cfg_remove(a, key) + (if has_key(e, key) {
            Seq::<CfgEntry>::empty()
        } else {
            seq![e]
        }));
    } else {
        lemma_remove_push(a.drop_first(), e, key);
        assert(a.push(e).drop_first() =~= a.drop_first().push(e));
        assert(a.push(e)[0] == a[0]);
        assert(cfg_remove(a.push(e), key) =~= cfg_remove(a, key) + (if has_key(e, key) {
            Seq::<CfgEntry>::empty()
        } else {
            seq![e]
        }));
    }
}

/// Text of one entry, without the line ending.
pub open spec fn entry_text(e: CfgEntry) -> Seq<char> {
    match e {
        CfgEntry::Pair(k, v) => k + seq!['='] + v,
        CfgEntry::Raw(r) => r,
    }
}

/// The `.cfg` text: one line per entry, each ending with `'\n'`.
pub open spec fn cfg_text(es: Seq<CfgEntry>) -> Seq<char>
    decreases es.len(),
{
    if es.len() == 0 {
        seq![]
    } else {
        cfg_text(es.drop_last()) + entry_text(es.last()) + seq!['\n']
    }
}

/// Sets the key when the value is present, removes it otherwise.
pub open spec fn cfg_apply(es: Seq<CfgEntry>, key: Seq<char>, value: Option<Seq<char>>) -> Seq<
    CfgEntry,
> {
    match value {
        Some(v) => cfg_set(es, key, v),
        None => cfg_remove(es, key),
    }
}

/// What `apply_info` does to the entries.
pub open spec fn cfg_apply_info(es: Seq<CfgEntry>, info: GameInfo) -> Seq<CfgEntry> {
    let a = cfg_apply(es, KEY_TITLE@, opt_view(info.title));
    let b = cfg_apply(a, KEY_GENRE@, opt_view(info.genre));
    let c = cfg_apply(b, KEY_RELEASE@, opt_view(info.release));
    let d = cfg_apply(c, KEY_DEVELOPER@, opt_view(info.developer));
    cfg_apply(d, KEY_DESCRIPTION@, opt_view(info.description))
}

proof fn lemma_get_skip(es: Seq<CfgEntry>, key: Seq<char>, i: int)
    requires
        0 <= i <= es.len(),
        forall|k: int| 0 <= k < i ==> !has_key(#[trigger] es[k], key),
    ensures
        cfg_get(es, key) == cfg_get(es.subrange(i, es.len() as int), key),
    decreases i,
{
    if i > 0 {
        let t = es.drop_first();
        assert forall|k: int| 0 <= k < i - 1 implies !has_key(#[trigger] t[k], key) by {
            assert(t[k] == es[k + 1]);
        }
        lemma_get_skip(t, key, i - 1);
        assert(t.subrange(i - 1, t.len() as int) =~= es.subrange(i, es.len() as int));
    } else {
        assert(es.subrange(0, es.len() as int) =~= es);
    }
}

proof fn lemma_set_at(es: Seq<CfgEntry>, key: Seq<char>, value: Seq<char>, i: int)
    requires
        0 <= i <= es.len(),
        forall|k: int| 0 <= k < i ==> !has_key(#[trigger] es[k], key),
        i == es.len() || has_key(es[i], key),
    ensures
        cfg_set(es, key, value) == (if i == es.len() {
            es.push(CfgEntry::Pair(key, value))
        } else {
            es.update(i, CfgEntry::Pair(key, value))
        }),
    decreases i,
{
    if i > 0 {
        let t = es.drop_first();
        assert forall|k: int| 0 <= k < i - 1 implies !has_key(#[trigger] t[k], key) by {
            assert(t[k] == es[k + 1]);
        }
        if i < es.len() {
            assert(t[i - 1] == es[i]);
        }
        lemma_set_at(t, key, value, i - 1);
        if i == es.len() {
            assert(seq![es[0]] + t.push(CfgEntry::Pair(key, value)) =~= es.push(
                CfgEntry::Pair(key, value),
            ));
        } else {
            assert(seq![es[0]] + t.update(i - 1, CfgEntry::Pair(key, value)) =~= es.update(
                i,
                CfgEntry::Pair(key, value),
            ));
        }
    } else {
        if es.len() == 0 {
            assert(seq![CfgEntry::Pair(key, value)] =~= es.push(CfgEntry::Pair(key, value)));
        } else {
            assert(seq![CfgEntry::Pair(key, value)] + es.drop_first() =~= es.update(
                0,
                CfgEntry::Pair(key, value),
            ));
        }
    }
}

fn str_eq(a: &str, b: &str) -> (r: bool)
    ensures
        r == (a@ == b@),
{
    let x = chars_of(a);
    let y = chars_of(b);
    if x.len() != y.len() {
        return false;
    }
    let mut i: usize = 0;
    while i < x.len()
        invariant
            x@ == a@,
            y@ == b@,
            x@.len() == y@.len(),
            0 <= i <= x@.len(),
            forall|k: int| 0 <= k < i ==> x@[k] == y@[k],
        decreases x@.len() - i,
    {
        if x[i] != y[i] {
            assert(x@[i as int] != y@[i as int]);
            return false;
        }
        i = i + 1;
    }
    assert(x@ =~= y@);
    true
}

fn clone_line(l: &CfgLine) -> (r: CfgLine)
    ensures
        r@ == l@,
{
    match l {
        CfgLine::Pair { key, value } => CfgLine::Pair { key: key.clone(), value: value.clone() },
        CfgLine::Raw(raw) => CfgLine::Raw(raw.clone()),
    }
}

fn line_has_key(l: &CfgLine, key: &str) -> (r: bool)
    ensures
        r == has_key(l@, key@),
{
    match l {
        CfgLine::Pair { key: k, value: _ } => str_eq(k.as_str(), key),
        CfgLine::Raw(_) => false,
    }
}

impl GameCfg {
    /// Reads a raw `.cfg`: each line becomes a pair (split at the first `=`,
    /// key trimmed) or, without `=`, a raw line kept as written.
    pub fn parse(raw: &str) -> (r: GameCfg)
        ensures
            r@ == parse_cfg(raw@),
    {
        let v = chars_of(raw);
        let ls = lines_vec(&v);
        let mut out: Vec<CfgLine> = Vec::new();
        let mut i: usize = 0;
        while i < ls.len()
            invariant
                0 <= i <= ls@.len(),
                ls@.len() == lines(raw@).len(),
                forall|k: int| 0 <= k < ls@.len() ==> #[trigger] ls@[k]@ == lines(raw@)[k],
                out@.len() == i,
                forall|k: int| 0 <= k < i ==> #[trigger] out@[k]@ == parse_line(lines(raw@)[k]),
            decreases ls@.len() - i,
        {
            let line = &ls[i];
            let eq = find_char_from(line, 0, '=');
            assert(line@.subrange(0, line@.len() as int) =~= line@);
            if eq < line.len() {
                let key = trim_vec(&slice_vec(line, 0, eq));
                let value = slice_vec(line, eq + 1, line.len());
                out.push(CfgLine::Pair { key: string_of(&key), value: string_of(&value) });
            } else {
                out.push(CfgLine::Raw(string_of(line)));
            }
            i = i + 1;
        }
        let r = GameCfg { lines: out };
        assert(r@ =~= parse_cfg(raw@));
        r
    }

    /// Value of a key (first occurrence), if present.
    pub fn get(&self, key: &str) -> (r: Option<&str>)
        ensures
            match r {
                Some(v) => cfg_get(self@, key@) == Some(v@),
                None => cfg_get(self@, key@) is None,
            },
    {
        let ghost es = self@;
        let mut i: usize = 0;
        while i < self.lines.len()
            invariant
                0 <= i <= self.lines@.len(),
                es == self@,
                es.len() == self.lines@.len(),
                forall|k: int| 0 <= k < i ==> !has_key(#[trigger] es[k], key@),
            decreases self.lines@.len() - i,
        {
            assert(es[i as int] == self.lines@[i as int]@);
            if line_has_key(&self.lines[i], key) {
                proof {
                    lemma_get_skip(es, key@, i as int);
                    let t = es.subrange(i as int, es.len() as int);
                    assert(t[0] == es[i as int]);
                }
                match &self.lines[i] {
                    CfgLine::Pair { key: _, value } => {
                        return Some(value.as_str());
                    },
                    CfgLine::Raw(_) => {
                        return None;
                    },
                }
            }
            i = i + 1;
        }
        proof {
            lemma_get_skip(es, key@, i as int);
        }
        None
    }

    /// Sets a key in place (at its first occurrence); appends it when absent.
    /// Never duplicates a key.
    pub fn set(&mut self, key: &str, value: &str)
        ensures
            final(self)@ == cfg_set(old(self)@, key@, value@),
    {
        let ghost es = self@;
        let mut i: usize = 0;
        while i < self.lines.len()
            invariant
                0 <= i <= self.lines@.len(),
                es == self@,
                es == old(self)@,
                es.len() == self.lines@.len(),
                forall|k: int| 0 <= k < i ==> !has_key(#[trigger] es[k], key@),
            decreases self.lines@.len() - i,
        {
            assert(es[i as int] == self.lines@[i as int]@);
            if line_has_key(&self.lines[i], key) {
                proof {
                    lemma_set_at(es, key@, value@, i as int);
                }
                self.lines.set(
                    i,
                    CfgLine::Pair { key: key.to_owned(), value: value.to_owned() },
                );
                assert(self@ =~= es.update(i as int, CfgEntry::Pair(key@, value@)));
                return ;
            }
            i = i + 1;
        }
        proof {
            lemma_set_at(es, key@, value@, i as int);
        }
        self.lines.push(CfgLine::Pair { key: key.to_owned(), value: value.to_owned() });
        assert(self@ =~= es.push(CfgEntry::Pair(key@, value@)));
    }

    /// Removes every occurrence of a key; the other lines stay as they are.
    pub fn remove(&mut self, key: &str)
        ensures
            final(self)@ == cfg_remove(old(self)@, key@),
    {
        let ghost es = self@;
        let mut out: Vec<CfgLine> = Vec::new();
        let mut i: usize = 0;
        assert(es.take(0) =~= Seq::<CfgEntry>::empty());
        assert(out@.map_values(|l: CfgLine| l@) =~= Seq::<CfgEntry>::empty());
        while i < self.lines.len()
            invariant
                0 <= i <= self.lines@.len(),
                es == self@,
                es == old(self)@,
                es.len() == self.lines@.len(),
                out@.map_values(|l: CfgLine| l@) == cfg_remove(es.take(i as int), key@),
            decreases self.lines@.len() - i,
        {
            let ghost prev = out@.map_values(|l: CfgLine| l@);
            assert(es[i as int] == self.lines@[i as int]@);
            assert(es.take(i + 1) =~= es.take(i as int).push(es[i as int]));
            proof {
                lemma_remove_push(es.take(i as int), es[i as int], key@);
            }
            if !line_has_key(&self.lines[i], key) {
                out.push(clone_line(&self.lines[i]));
            }
            assert(out@.map_values(|l: CfgLine| l@) =~= cfg_remove(es.take(i + 1), key@));
            i = i + 1;
        }
        assert(es.take(es.len() as int) =~= es);
        self.lines = out;
    }

    /// Extracts the five information fields.
    pub fn info(&self) -> (r: GameInfo)
        ensures
            opt_view(r.title) == cfg_get(self@, KEY_TITLE@),
            opt_view(r.genre) == cfg_get(self@, KEY_GENRE@),
            opt_view(r.release) == cfg_get(self@, KEY_RELEASE@),
            opt_view(r.developer) == cfg_get(self@, KEY_DEVELOPER@),
            opt_view(r.description) == cfg_get(self@, KEY_DESCRIPTION@),
    {
        GameInfo {
            title: self.get_owned(KEY_TITLE),
            genre: self.get_owned(KEY_GENRE),
            release: self.get_owned(KEY_RELEASE),
            developer: self.get_owned(KEY_DEVELOPER),
            description: self.get_owned(KEY_DESCRIPTION),
        }
    }

    fn get_owned(&self, key: &str) -> (r: Option<String>)
        ensures
            opt_view(r) == cfg_get(self@, key@),
    {
        match self.get(key) {
            Some(v) => Some(v.to_owned()),
            None => None,
        }
    }

    fn apply_field(&mut self, key: &str, value: &Option<String>)
        ensures
            final(self)@ == cfg_apply(old(self)@, key@, opt_view(*value)),
    {
        match value {
            Some(v) => self.set(key, v.as_str()),
            None => self.remove(key),
        }
    }

    /// Applies the five information fields, keeping everything else: a
    /// present field sets its key, an absent one removes it. Compatibility
    /// keys and any other lines are never touched.
    pub fn apply_info(&mut self, info: &GameInfo)
        ensures
            final(self)@ == cfg_apply_info(old(self)@, *info),
    {
        self.apply_field(KEY_TITLE, &info.title);
        self.apply_field(KEY_GENRE, &info.genre);
        self.apply_field(KEY_RELEASE, &info.release);
        self.apply_field(KEY_DEVELOPER, &info.developer);
        self.apply_field(KEY_DESCRIPTION, &info.description);
    }

    /// The `.cfg` text: `key=value` or the raw line, one per line, each ending
    /// with `'\n'`.
    pub fn to_string(&self) -> (r: String)
        ensures
            r@ == cfg_text(self@),
    {
        let ghost es = self@;
        let mut out = String::new();
        let mut i: usize = 0;
        while i < self.lines.len()
            invariant
                0 <= i <= self.lines@.len(),
                es == self@,
                es.len() == self.lines@.len(),
                out@ == cfg_text(es.take(i as int)),
            decreases self.lines@.len() - i,
        {
            assert(es[i as int] == self.lines@[i as int]@);
            assert(es.take(i + 1).drop_last() =~= es.take(i as int));
            match &self.lines[i] {
                CfgLine::Pair { key, value } => {
                    push_str(&mut out, key.as_str());
                    push_char(&mut out, '=');
                    push_str(&mut out, value.as_str());
                },
                CfgLine::Raw(raw) => {
                    push_str(&mut out, raw.as_str());
                },
            }
            push_char(&mut out, '\n');
            assert(out@ =~= cfg_text(es.take(i + 1)));
            i = i + 1;
        }
        assert(es.take(es.len() as int) =~= es);
        out
    }
}

// ---------------------------------------------------------------------------
// Laws of the `.cfg` editing operations
// ---------------------------------------------------------------------------

/// Reading a key after setting it gives the value set; other keys read as
/// before.
pub proof fn law_get_after_set(es: Seq<CfgEntry>, key: Seq<char>, value: Seq<char>, other: Seq<char>)
    ensures
        cfg_get(cfg_set(es, key, value), key) == Some(value),
        other != key ==> cfg_get(cfg_set(es, key, value), other) == cfg_get(es, other),
    decreases es.len(),
{
    let s = cfg_set(es, key, value);
    if es.len() == 0 {
        assert(s[0] == CfgEntry::Pair(key, value));
        assert(s.drop_first() =~= Seq::<CfgEntry>::empty());
        assert(cfg_get(s.drop_first(), other) is None);
    } else if has_key(es[0], key) {
        assert(s[0] == CfgEntry::Pair(key, value));
        assert(s.drop_first() =~= es.drop_first());
    } else {
        law_get_after_set(es.drop_first(), key, value, other);
        assert(s[0] == es[0]);
        assert(s.drop_first() =~= cfg_set(es.drop_first(), key, value));
    }
}

/// Reading a key after removing it gives nothing; other keys read as before.
pub proof fn law_get_after_remove(es: Seq<CfgEntry>, key: Seq<char>, other: Seq<char>)
    ensures
        cfg_get(cfg_remove(es, key), key) is None,
        other != key ==> cfg_get(cfg_remove(es, key), other) == cfg_get(es, other),
    decreases es.len(),
{
    if es.len() > 0 {
        law_get_after_remove(es.drop_first(), key, other);
        if !has_key(es[0], key) {
            let s = cfg_remove(es, key);
            assert(s[0] == es[0]);
            assert(s.drop_first() =~= cfg_remove(es.drop_first(), key));
        }
    }
}

/// Setting a key never duplicates it: at most one pair per key stays at most
/// one, and a present key is updated where it stands.
pub proof fn law_set_in_place(es: Seq<CfgEntry>, key: Seq<char>, value: Seq<char>, i: int)
    requires
        0 <= i < es.len(),
        has_key(es[i], key),
        forall|k: int| 0 <= k < i ==> !has_key(#[trigger] es[k], key),
    ensures
        cfg_set(es, key, value) == es.update(i, CfgEntry::Pair(key, value)),
{
    lemma_set_at(es, key, value, i);
}

proof fn lemma_remove_set_same(es: Seq<CfgEntry>, key: Seq<char>, value: Seq<char>)
    ensures
        cfg_remove(cfg_set(es, key, value), key) == cfg_remove(es, key),
    decreases es.len(),
{
    let s = cfg_set(es, key, value);
    if es.len() == 0 {
        assert(s[0] == CfgEntry::Pair(key, value));
        assert(s.drop_first() =~= Seq::<CfgEntry>::empty());
        assert(cfg_remove(s.drop_first(), key) =~= Seq::<CfgEntry>::empty());
    } else if has_key(es[0], key) {
        assert(s[0] == CfgEntry::Pair(key, value));
        assert(s.drop_first() =~= es.drop_first());
    } else {
        lemma_remove_set_same(es.drop_first(), key, value);
        assert(s[0] == es[0]);
        assert(s.drop_first() =~= cfg_set(es.drop_first(), key, value));
        assert(cfg_remove(s, key) =~= seq![es[0]] + cfg_remove(es.drop_first(), key));
    }
}

proof fn lemma_remove_idem(es: Seq<CfgEntry>, key: Seq<char>)
    ensures
        cfg_remove(cfg_remove(es, key), key) == cfg_remove(es, key),
    decreases es.len(),
{
    if es.len() > 0 {
        lemma_remove_idem(es.drop_first(), key);
        if !has_key(es[0], key) {
            let s = cfg_remove(es, key);
            assert(s[0] == es[0]);
            assert(s.drop_first() =~= cfg_remove(es.drop_first(), key));
            assert(cfg_remove(s, key) =~= seq![es[0]] + cfg_remove(
                cfg_remove(es.drop_first(), key),
                key,
            ));
        }
    }
}

proof fn lemma_remove_comm(es: Seq<CfgEntry>, k1: Seq<char>, k2: Seq<char>)
    ensures
        cfg_remove(cfg_remove(es, k1), k2) == cfg_remove(cfg_remove(es, k2), k1),
    decreases es.len(),
{
    if es.len() > 0 {
        lemma_remove_comm(es.drop_first(), k1, k2);
        let r1 = cfg_remove(es, k1);
        let r2 = cfg_remove(es, k2);
        if !has_key(es[0], k1) {
            assert(r1[0] == es[0]);
            assert(r1.drop_first() =~= cfg_remove(es.drop_first(), k1));
        }
        if !has_key(es[0], k2) {
            assert(r2[0] == es[0]);
            assert(r2.drop_first() =~= cfg_remove(es.drop_first(), k2));
        }
        if !has_key(es[0], k1) && !has_key(es[0], k2) {
            let a = cfg_remove(r1, k2);
            let b = cfg_remove(r2, k1);
            assert(a =~= seq![es[0]] + cfg_remove(cfg_remove(es.drop_first(), k1), k2));
            assert(b =~= seq![es[0]] + cfg_remove(cfg_remove(es.drop_first(), k2), k1));
        }
    }
}

proof fn lemma_remove_set_other(es: Seq<CfgEntry>, key: Seq<char>, value: Seq<char>, other: Seq<char>)
    requires
        key != other,
    ensures
        cfg_remove(cfg_set(es, key, value), other) == cfg_set(cfg_remove(es, other), key, value),
    decreases es.len(),
{
    let s = cfg_set(es, key, value);
    let p = CfgEntry::Pair(key, value);
    assert(!has_key(p, other));
    if es.len() == 0 {
        assert(s[0] == p);
        assert(s.drop_first() =~= Seq::<CfgEntry>::empty());
        assert(cfg_remove(s.drop_first(), other) =~= Seq::<CfgEntry>::empty());
        assert(cfg_remove(s, other) =~= seq![p]);
        assert(cfg_remove(es, other) =~= Seq::<CfgEntry>::empty());
    } else if has_key(es[0], key) {
        assert(!has_key(es[0], other));
        assert(s[0] == p);
        assert(s.drop_first() =~= es.drop_first());
        let r = cfg_remove(es, other);
        assert(r[0] == es[0]);
        assert(r.drop_first() =~= cfg_remove(es.drop_first(), other));
        assert(cfg_remove(s, other) =~= seq![p] + cfg_remove(es.drop_first(), other));
        assert(cfg_set(r, key, value) =~= seq![p] + r.drop_first());
    } else {
        lemma_remove_set_other(es.drop_first(), key, value, other);
        assert(s[0] == es[0]);
        assert(s.drop_first() =~= cfg_set(es.drop_first(), key, value));
        if has_key(es[0], other) {
            assert(cfg_remove(s, other) == cfg_remove(cfg_set(es.drop_first(), key, value), other));
        } else {
            let r = cfg_remove(es, other);
            assert(r[0] == es[0]);
            assert(r.drop_first() =~= cfg_remove(es.drop_first(), other));
            assert(cfg_remove(s, other) =~= seq![es[0]] + cfg_remove(
                cfg_set(es.drop_first(), key, value),
                other,
            ));
            assert(cfg_set(r, key, value) =~= seq![es[0]] + cfg_set(r.drop_first(), key, value));
        }
    }
}

/// The entries with the five information keys removed: what `apply_info`
/// must leave as it was.
pub open spec fn without_info(es: Seq<CfgEntry>) -> Seq<CfgEntry> {
    cfg_remove(
        cfg_remove(
            cfg_remove(cfg_remove(cfg_remove(es, KEY_TITLE@), KEY_GENRE@), KEY_RELEASE@),
            KEY_DEVELOPER@,
        ),
        KEY_DESCRIPTION@,
    )
}

/// The key is one of the five information keys.
pub open spec fn is_info_key(k: Seq<char>) -> bool {
    k == KEY_TITLE@ || k == KEY_GENRE@ || k == KEY_RELEASE@ || k == KEY_DEVELOPER@ || k
        == KEY_DESCRIPTION@
}

proof fn lemma_info_keys_distinct()
    ensures
        KEY_TITLE@ != KEY_GENRE@,
        KEY_TITLE@ != KEY_RELEASE@,
        KEY_TITLE@ != KEY_DEVELOPER@,
        KEY_TITLE@ != KEY_DESCRIPTION@,
        KEY_GENRE@ != KEY_RELEASE@,
        KEY_GENRE@ != KEY_DEVELOPER@,
        KEY_GENRE@ != KEY_DESCRIPTION@,
        KEY_RELEASE@ != KEY_DEVELOPER@,
        KEY_RELEASE@ != KEY_DESCRIPTION@,
        KEY_DEVELOPER@ != KEY_DESCRIPTION@,
{
    reveal_strlit("Title");
    reveal_strlit("Genre");
    reveal_strlit("Release");
    reveal_strlit("Developer");
    reveal_strlit("Description");
    assert(KEY_TITLE@[0] != KEY_GENRE@[0]);
    assert(KEY_DEVELOPER@.len() != KEY_DESCRIPTION@.len());
}

/// Pushes one remove of `k` through a remove of another key.
proof fn lemma_remove_absorbs(es: Seq<CfgEntry>, k: Seq<char>, o: Option<Seq<char>>)
    ensures
        cfg_remove(cfg_apply(es, k, o), k) == cfg_remove(es, k),
{
    match o {
        Some(v) => lemma_remove_set_same(es, k, v),
        None => lemma_remove_idem(es, k),
    }
}

proof fn lemma_remove_through(es: Seq<CfgEntry>, k: Seq<char>, o: Option<Seq<char>>, other: Seq<char>)
    requires
        k != other,
    ensures
        cfg_remove(cfg_apply(es, k, o), other) == cfg_apply(cfg_remove(es, other), k, o),
{
    match o {
        Some(v) => lemma_remove_set_other(es, k, v, other),
        None => lemma_remove_comm(es, k, other),
    }
}

/// Writing one information field leaves the entries without information keys
/// as they were.
proof fn lemma_without_info_apply(es: Seq<CfgEntry>, k: Seq<char>, o: Option<Seq<char>>)
    requires
        is_info_key(k),
    ensures
        without_info(cfg_apply(es, k, o)) == without_info(es),
{
    lemma_info_keys_distinct();
    let (t, g, r, d, x) = (KEY_TITLE@, KEY_GENRE@, KEY_RELEASE@, KEY_DEVELOPER@, KEY_DESCRIPTION@);
    if k == t {
        lemma_remove_absorbs(es, t, o);
    } else if k == g {
        lemma_remove_through(es, k, o, t);
        lemma_remove_absorbs(cfg_remove(es, t), g, o);
    } else if k == r {
        lemma_remove_through(es, k, o, t);
        lemma_remove_through(cfg_remove(es, t), k, o, g);
        lemma_remove_absorbs(cfg_remove(cfg_remove(es, t), g), r, o);
    } else if k == d {
        lemma_remove_through(es, k, o, t);
        lemma_remove_through(cfg_remove(es, t), k, o, g);
        lemma_remove_through(cfg_remove(cfg_remove(es, t), g), k, o, r);
        lemma_remove_absorbs(cfg_remove(cfg_remove(cfg_remove(es, t), g), r), d, o);
    } else {
        lemma_remove_through(es, k, o, t);
        lemma_remove_through(cfg_remove(es, t), k, o, g);
        lemma_remove_through(cfg_remove(cfg_remove(es, t), g), k, o, r);
        lemma_remove_through(cfg_remove(cfg_remove(cfg_remove(es, t), g), r), k, o, d);
        lemma_remove_absorbs(
            cfg_remove(cfg_remove(cfg_remove(cfg_remove(es, t), g), r), d),
            x,
            o,
        );
    }
}

proof fn lemma_get_after_apply(es: Seq<CfgEntry>, k: Seq<char>, o: Option<Seq<char>>, other: Seq<char>)
    ensures
        cfg_get(cfg_apply(es, k, o), k) == o,
        other != k ==> cfg_get(cfg_apply(es, k, o), other) == cfg_get(es, other),
{
    match o {
        Some(v) => law_get_after_set(es, k, v, other),
        None => law_get_after_remove(es, k, other),
    }
}

/// After `apply_info`, reading the information gives back exactly what was
/// written (a field set reads as its value, a field cleared reads as absent).
pub proof fn law_apply_info_reads_back(es: Seq<CfgEntry>, info: GameInfo)
    ensures
        cfg_get(cfg_apply_info(es, info), KEY_TITLE@) == opt_view(info.title),
        cfg_get(cfg_apply_info(es, info), KEY_GENRE@) == opt_view(info.genre),
        cfg_get(cfg_apply_info(es, info), KEY_RELEASE@) == opt_view(info.release),
        cfg_get(cfg_apply_info(es, info), KEY_DEVELOPER@) == opt_view(info.developer),
        cfg_get(cfg_apply_info(es, info), KEY_DESCRIPTION@) == opt_view(info.description),
{
    lemma_info_keys_distinct();
    let (t, g, r, d, x) = (KEY_TITLE@, KEY_GENRE@, KEY_RELEASE@, KEY_DEVELOPER@, KEY_DESCRIPTION@);
    let a = cfg_apply(es, t, opt_view(info.title));
    let b = cfg_apply(a, g, opt_view(info.genre));
    let c = cfg_apply(b, r, opt_view(info.release));
    let e = cfg_apply(c, d, opt_view(info.developer));
    let f = cfg_apply(e, x, opt_view(info.description));
    lemma_get_after_apply(es, t, opt_view(info.title), t);
    lemma_get_after_apply(a, g, opt_view(info.genre), t);
    lemma_get_after_apply(b, r, opt_view(info.release), t);
    lemma_get_after_apply(c, d, opt_view(info.developer), t);
    lemma_get_after_apply(e, x, opt_view(info.description), t);
    lemma_get_after_apply(a, g, opt_view(info.genre), g);
    lemma_get_after_apply(b, r, opt_view(info.release), g);
    lemma_get_after_apply(c, d, opt_view(info.developer), g);
    lemma_get_after_apply(e, x, opt_view(info.description), g);
    lemma_get_after_apply(b, r, opt_view(info.release), r);
    lemma_get_after_apply(c, d, opt_view(info.developer), r);
    lemma_get_after_apply(e, x, opt_view(info.description), r);
    lemma_get_after_apply(c, d, opt_view(info.developer), d);
    lemma_get_after_apply(e, x, opt_view(info.description), d);
    lemma_get_after_apply(e, x, opt_view(info.description), x);
}

/// `apply_info` never touches anything but the five information keys: with
/// those keys taken out, the entries are the same before and after, in the
/// same order (compatibility keys, unknown keys and raw lines included); and
/// every other key reads as before.
pub proof fn law_apply_info_keeps_rest(es: Seq<CfgEntry>, info: GameInfo, other: Seq<char>)
    ensures
        without_info(cfg_apply_info(es, info)) == without_info(es),
        !is_info_key(other) ==> cfg_get(cfg_apply_info(es, info), other) == cfg_get(es, other),
{
    lemma_info_keys_distinct();
    let (t, g, r, d, x) = (KEY_TITLE@, KEY_GENRE@, KEY_RELEASE@, KEY_DEVELOPER@, KEY_DESCRIPTION@);
    let a = cfg_apply(es, t, opt_view(info.title));
    let b = cfg_apply(a, g, opt_view(info.genre));
    let c = cfg_apply(b, r, opt_view(info.release));
    let e = cfg_apply(c, d, opt_view(info.developer));
    lemma_without_info_apply(es, t, opt_view(info.title));
    lemma_without_info_apply(a, g, opt_view(info.genre));
    lemma_without_info_apply(b, r, opt_view(info.release));
    lemma_without_info_apply(c, d, opt_view(info.developer));
    lemma_without_info_apply(e, x, opt_view(info.description));
    if !is_info_key(other) {
        lemma_get_after_apply(es, t, opt_view(info.title), other);
        lemma_get_after_apply(a, g, opt_view(info.genre), other);
        lemma_get_after_apply(b, r, opt_view(info.release), other);
        lemma_get_after_apply(c, d, opt_view(info.developer), other);
        lemma_get_after_apply(e, x, opt_view(info.description), other);
    }
}

/// Writing a key then removing it is the same as removing it; removing twice
/// is removing once; removes of different keys commute.
pub proof fn law_remove_shapes(es: Seq<CfgEntry>, key: Seq<char>, value: Seq<char>, other: Seq<char>)
    ensures
        cfg_remove(cfg_set(es, key, value), key) == cfg_remove(es, key),
        cfg_remove(cfg_remove(es, key), key) == cfg_remove(es, key),
        cfg_remove(cfg_remove(es, key), other) == cfg_remove(cfg_remove(es, other), key),
        key != other ==> cfg_remove(cfg_set(es, key, value), other) == cfg_set(
            cfg_remove(es, other),
            key,
            value,
        ),
{
    lemma_remove_set_same(es, key, value);
    lemma_remove_idem(es, key);
    lemma_remove_comm(es, key, other);
    if key != other {
        lemma_remove_set_other(es, key, value, other);
    }
}

/// A `.cfg` text that writing back reproduces: empty or ending with a line
/// break, without carriage returns, and with no whitespace around a key
/// (the parser trims keys, as the loader does).
pub open spec fn cfg_is_plain(raw: Seq<char>) -> bool {
    &&& raw.len() == 0 || raw.last() == '\n'
    &&& forall|j: int| 0 <= j < raw.len() ==> raw[j] != '\r'
    &&& forall|i: int|
        0 <= i < lines(raw).len() ==> key_is_trimmed(#[trigger] lines(raw)[i])
}

/// The part of the line before its first `=` (if any) has no surrounding
/// whitespace.
pub open spec fn key_is_trimmed(l: Seq<char>) -> bool {
    first_index(l, '=') < l.len() ==> trim(l.subrange(0, first_index(l, '='))) == l.subrange(
        0,
        first_index(l, '='),
    )
}

proof fn lemma_cfg_text_concat(a: Seq<CfgEntry>, b: Seq<CfgEntry>)
    ensures
        cfg_text(a + b) == cfg_text(a) + cfg_text(b),
    decreases b.len(),
{
    if b.len() == 0 {
        assert(a + b =~= a);
    } else {
        lemma_cfg_text_concat(a, b.drop_last());
        assert((a + b).drop_last() =~= a + b.drop_last());
        assert((a + b).last() == b.last());
    }
}

/// Reading a `.cfg` and writing it back gives the same text, unknown lines and
/// order included, for every text in the form the loader and this library
/// write.
pub proof fn law_cfg_roundtrip(raw: Seq<char>)
    requires
        cfg_is_plain(raw),
    ensures
        cfg_text(parse_cfg(raw)) == raw,
    decreases raw.len(),
{
    if raw.len() > 0 {
        crate::text::lemma_first_index_bounds(raw, '\n');
        crate::text::lemma_lines_unfold(raw);
        let i = first_index(raw, '\n');
        assert(raw[raw.len() - 1] == '\n');
        if i >= raw.len() {
            assert(false);
        }
        let l0 = raw.subrange(0, i);
        let rest = raw.subrange(i + 1, raw.len() as int);
        assert(strip_cr_free(l0)) by {
            if l0.len() > 0 {
                assert(l0.last() == raw[i - 1]);
            }
        }
        assert(crate::text::strip_cr(l0) == l0);
        assert(lines(raw) == seq![l0] + lines(rest));
        assert(key_is_trimmed(lines(raw)[0]));
        assert forall|k: int| 0 <= k < lines(rest).len() implies key_is_trimmed(
            #[trigger] lines(rest)[k],
        ) by {
            assert(lines(raw)[k + 1] == lines(rest)[k]);
        }
        assert forall|j: int| 0 <= j < rest.len() implies rest[j] != '\r' by {
            assert(rest[j] == raw[i + 1 + j]);
        }
        if rest.len() > 0 {
            assert(rest.last() == raw.last());
        }
        law_cfg_roundtrip(rest);
        assert(parse_cfg(raw) =~= seq![parse_line(l0)] + parse_cfg(rest));
        lemma_cfg_text_concat(seq![parse_line(l0)], parse_cfg(rest));
        assert(seq![parse_line(l0)].drop_last() =~= Seq::<CfgEntry>::empty());
        assert(seq![parse_line(l0)].last() == parse_line(l0));
        assert(cfg_text(Seq::<CfgEntry>::empty()) =~= Seq::<char>::empty());
        assert(cfg_text(seq![parse_line(l0)]) =~= entry_text(parse_line(l0)) + seq!['\n']);
        let f = first_index(l0, '=');
        crate::text::lemma_first_index_bounds(l0, '=');
        if f < l0.len() {
            assert(l0 =~= l0.subrange(0, f) + seq!['='] + l0.subrange(f + 1, l0.len() as int)) by {
                crate::text::lemma_first_index(l0, '=', f);
            }
        }
        assert(entry_text(parse_line(l0)) == l0);
        assert(raw =~= l0 + seq!['\n'] + rest);
    }
}

/// The line holds no carriage return at its end.
pub open spec fn strip_cr_free(l: Seq<char>) -> bool {
    l.len() == 0 || l.last() != '\r'
}

/// Name of the per-game config file the loader reads: `<GameID>.cfg`.
pub fn cfg_file_name(game_id: &GameId) -> (r: String)
    ensures
        r@ == game_id@ + ".cfg"@,
{
    let mut s = game_id.as_str().to_owned();
    push_str(&mut s, ".cfg");
    s
}

/// The message of one field error.
pub open spec fn field_error_text(key: Seq<char>, kind: FieldErrorKind) -> Seq<char> {
    match kind {
        FieldErrorKind::TooLong { len } => key + ": "@ + decimal(len as nat) + " caracteres (máximo "@
            + decimal(OPL_VALUE_MAX_LEN as nat) + ")"@,
        FieldErrorKind::Newline => key + ": não pode conter quebra de linha"@,
    }
}

impl FieldError {
    /// The message shown for the error.
    pub fn message(&self) -> (r: String)
        ensures
            r@ == field_error_text(self.key@, self.kind),
    {
        let mut s = self.key.to_owned();
        match self.kind {
            FieldErrorKind::TooLong { len } => {
                push_str(&mut s, ": ");
                push_decimal(&mut s, len as u64);
                push_str(&mut s, " caracteres (máximo ");
                push_decimal(&mut s, OPL_VALUE_MAX_LEN as u64);
                push_str(&mut s, ")");
            },
            FieldErrorKind::Newline => {
                push_str(&mut s, ": não pode conter quebra de linha");
            },
        }
        s
    }
}

/// Port of the game information's persistence (`CFG/<GameID>.cfg`). `save`
/// is read-modify-write: the other keys of the file are kept.
pub trait GameInfoStore {
    /// Reads the game's information; a missing `.cfg` gives empty information.
    fn load(&self, game_id: &GameId) -> Result<GameInfo, GameInfoError>;

    /// Writes the information, keeping the other keys of the `.cfg`.
    fn save(&self, game_id: &GameId, info: &GameInfo) -> Result<(), GameInfoError>;
}

/// Failure reading or writing the information. Never fatal.
#[derive(Debug, Clone, PartialEq, Eq)]
pub enum GameInfoError {
    /// I/O failure on the `.cfg`.
    Io(String),
    /// Invalid fields (too long or with a line break), listed for the user.
    Invalid(Vec<FieldError>),
}

/// The field errors joined with `"; "`.
pub open spec fn errors_text(errs: Seq<(Seq<char>, FieldErrorKind)>) -> Seq<char>
    decreases errs.len(),
{
    if errs.len() == 0 {
        seq![]
    } else if errs.len() == 1 {
        field_error_text(errs[0].0, errs[0].1)
    } else {
        errors_text(errs.drop_last()) + "; "@ + field_error_text(errs.last().0, errs.last().1)
    }
}

impl GameInfoError {
    /// The message shown for the error.
    pub fn message(&self) -> (r: String)
        ensures
            r@ == (match self {
                GameInfoError::Io(m) => "falha de I/O no .cfg do jogo: "@ + m@,
                GameInfoError::Invalid(errs) => "campos inválidos: "@ + errors_text(
                    error_pairs(errs@),
                ),
            }),
    {
        match self {
            GameInfoError::Io(m) => {
                let mut s = "falha de I/O no .cfg do jogo: ".to_owned();
                push_str(&mut s, m.as_str());
                s
            },
            GameInfoError::Invalid(errs) => {
                let mut s = "campos inválidos: ".to_owned();
                let ghost head = s@;
                let ghost pairs = error_pairs(errs@);
                let mut i: usize = 0;
                while i < errs.len()
                    invariant
                        0 <= i <= errs@.len(),
                        pairs == error_pairs(errs@),
                        s@ == head + errors_text(pairs.take(i as int)),
                    decreases errs@.len() - i,
                {
                    if i > 0 {
                        push_str(&mut s, "; ");
                    }
                    let m = errs[i].message();
                    push_str(&mut s, m.as_str());
                    proof {
                        let t = pairs.take(i + 1);
                        assert(t.drop_last() =~= pairs.take(i as int));
                        assert(t.last() == pairs[i as int]);
                        if i == 0 {
                            assert(errors_text(pairs.take(0)) =~= Seq::<char>::empty());
                            assert(t.len() == 1);
                        }
                    }
                    assert(s@ =~= head + errors_text(pairs.take(i + 1)));
                    i = i + 1;
                }
                assert(pairs.take(errs@.len() as int) =~= pairs);
                s
            },
        }
    }
}

} // verus!
