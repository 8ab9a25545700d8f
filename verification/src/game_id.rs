//! PS2 game ids: the key the loader uses for a game and its art. It comes from
//! the `BOOT2` line of the disc's `SYSTEM.CNF` (e.g. `cdrom0:\SLUS_213.86;1`).
//! Canonical form: four letters, `_`, three digits, `.`, two digits.
use vstd::prelude::*;
use crate::text::{
    ascii_lower, ascii_upper, trim_end, trim_start, chars_of, eq_ignore_case, eq_ignore_case_exec, find_char_from,
    first_index, before_first, is_digit, is_upper, lines, lines_vec, slice_vec, string_of, trim,
    trim_vec, upper_seq, upper_vec,
};

verus! {

/// `s` is a canonical game id: `LLLL_NNN.NN` in upper case.
pub open spec fn is_valid_id(s: Seq<char>) -> bool {
    &&& s.len() == 11
    &&& forall|i: int| 0 <= i < 4 ==> is_upper(#[trigger] s[i])
    &&& s[4] == '_'
    &&& forall|i: int| 5 <= i < 8 ==> is_digit(#[trigger] s[i])
    &&& s[8] == '.'
    &&& forall|i: int| 9 <= i < 11 ==> is_digit(#[trigger] s[i])
}

/// What `GameId::parse` makes of a raw string: trimmed, upper-cased, and kept
/// only if it is a canonical id.
pub open spec fn parse_game_id(raw: Seq<char>) -> Option<Seq<char>> {
    let u = upper_seq(trim(raw));
    if is_valid_id(u) {
        Some(u)
    } else {
        None
    }
}

/// A normalized PS2 game id (upper case, no `;version`). Only `parse` makes
/// one, so every value is canonical.
#[derive(Debug, PartialEq, Eq, Hash)]
pub struct GameId(String);

impl Clone for GameId {
    fn clone(&self) -> (r: Self)
        ensures
            r@ == self@,
    {
        proof {
            use_type_invariant(self);
        }
        GameId(self.0.clone())
    }
}

impl View for GameId {
    type V = Seq<char>;

    closed spec fn view(&self) -> Seq<char> {
        self.0@
    }
}

impl GameId {
    #[verifier::type_invariant]
    closed spec fn wf(self) -> bool {
        is_valid_id(self.0@)
    }

    /// Validates and normalizes a string into a game id; `None` unless it
    /// matches `LLLL_NNN.NN` (letters in either case).
    pub fn parse(raw: &str) -> (r: Option<GameId>)
        ensures
            r matches Some(id) ==> parse_game_id(raw@) == Some(id@),
            r is None ==> parse_game_id(raw@) is None,
    {
        let v = chars_of(raw);
        let t = trim_vec(&v);
        let u = upper_vec(&t);
        if is_valid_id_exec(&u) {
            Some(GameId(string_of(&u)))
        } else {
            None
        }
    }

    /// Canonical form (e.g. `SLUS_213.86`).
    pub fn as_str(&self) -> (r: &str)
        ensures
            r@ == self@,
            is_valid_id(self@),
    {
        proof {
            use_type_invariant(self);
        }
        self.0.as_str()
    }
}

/// A canonical id reads back as itself: parsing the text of a game id gives
/// that same id (so `GameId::parse(id.as_str())` is `id`).
pub proof fn law_parse_canonical(id: Seq<char>)
    requires
        is_valid_id(id),
    ensures
        parse_game_id(id) == Some(id),
{
    assert(is_upper(id[0]));
    assert(is_digit(id[10]));
    assert(trim_start(id) == id);
    assert(trim_end(id) == id);
    assert(upper_seq(id) =~= id) by {
        assert forall|i: int| 0 <= i < id.len() implies #[trigger] ascii_upper(id[i]) == id[i] by {
            if i < 4 {
                assert(is_upper(id[i]));
            } else if 5 <= i < 8 || 9 <= i < 11 {
                assert(is_digit(id[i]));
            }
        }
    }
}

pub fn is_valid_id_exec(s: &[char]) -> (r: bool)
    ensures
        r == is_valid_id(s@),
{
    if s.len() != 11 {
        return false;
    }
    let mut i: usize = 0;
    while i < 11
        invariant
            s@.len() == 11,
            0 <= i <= 11,
            forall|k: int| 0 <= k < i && k < 4 ==> is_upper(#[trigger] s@[k]),
            forall|k: int| 5 <= k < i && k < 8 ==> is_digit(#[trigger] s@[k]),
            forall|k: int| 9 <= k < i ==> is_digit(#[trigger] s@[k]),
            i > 4 ==> s@[4] == '_',
            i > 8 ==> s@[8] == '.',
        decreases 11 - i,
    {
        let c = s[i];
        let ok = if i < 4 {
            'A' <= c && c <= 'Z'
        } else if i == 4 {
            c == '_'
        } else if i == 8 {
            c == '.'
        } else {
            '0' <= c && c <= '9'
        };
        if !ok {
            return false;
        }
        i = i + 1;
    }
    true
}

/// Path separators that `parse_boot2_game_id` strips a directory prefix at.
pub open spec fn is_path_sep(c: char) -> bool {
    c == '\\' || c == '/' || c == ':'
}

/// The part after the last path separator (`s.rsplit([..]).next()`).
pub open spec fn after_last_sep(s: Seq<char>) -> Seq<char>
    decreases s.len(),
{
    if s.len() == 0 {
        s
    } else if is_path_sep(s.last()) {
        seq![]
    } else {
        after_last_sep(s.drop_last()).push(s.last())
    }
}

proof fn lemma_after_last_sep(s: Seq<char>, j: int)
    requires
        0 <= j <= s.len(),
        forall|k: int| j <= k < s.len() ==> !is_path_sep(#[trigger] s[k]),
        j == 0 || is_path_sep(s[j - 1]),
    ensures
        after_last_sep(s) == s.subrange(j, s.len() as int),
    decreases s.len() - j,
{
    if j < s.len() {
        let t = s.drop_last();
        assert forall|k: int| j <= k < t.len() implies !is_path_sep(#[trigger] t[k]) by {
            assert(t[k] == s[k]);
        }
        if j > 0 {
            assert(t[j - 1] == s[j - 1]);
        }
        lemma_after_last_sep(t, j);
        assert(t.subrange(j, t.len() as int).push(s.last()) =~= s.subrange(j, s.len() as int));
    } else {
        if j > 0 {
            assert(is_path_sep(s.last()));
        }
    }
}

fn after_last_sep_vec(v: &[char]) -> (r: Vec<char>)
    ensures
        r@ == after_last_sep(v@),
{
    let mut j: usize = v.len();
    while j > 0 && !(v[j - 1] == '\\' || v[j - 1] == '/' || v[j - 1] == ':')
        invariant
            0 <= j <= v@.len(),
            forall|k: int| j <= k < v@.len() ==> !is_path_sep(#[trigger] v@[k]),
        decreases j,
    {
        j = j - 1;
    }
    proof {
        lemma_after_last_sep(v@, j as int);
    }
    slice_vec(v, j, v.len())
}

/// Key of a `SYSTEM.CNF` line: the part before the first `=`, trimmed.
pub open spec fn cnf_key(line: Seq<char>) -> Seq<char> {
    trim(before_first(line, '='))
}

/// Value of a `SYSTEM.CNF` line: the part after the first `=`, trimmed; empty
/// when the line has no `=`.
pub open spec fn cnf_value(line: Seq<char>) -> Seq<char> {
    let i = first_index(line, '=');
    if i < line.len() {
        trim(line.subrange(i + 1, line.len() as int))
    } else {
        seq![]
    }
}

/// The id candidate of a `BOOT2` value: the executable's name without the
/// device/folder prefix and without the `;version` suffix.
pub open spec fn boot2_candidate(value: Seq<char>) -> Seq<char> {
    before_first(after_last_sep(value), ';')
}

/// The game id of the first `BOOT2` line (key compared without regard to
/// ASCII case) whose candidate is a valid id.
pub open spec fn boot2_id(lines: Seq<Seq<char>>) -> Option<Seq<char>>
    decreases lines.len(),
{
    if lines.len() == 0 {
        None
    } else {
        let l = lines[0];
        if eq_ignore_case(cnf_key(l), "BOOT2"@) && parse_game_id(
            boot2_candidate(cnf_value(l)),
        ) is Some {
            parse_game_id(boot2_candidate(cnf_value(l)))
        } else {
            boot2_id(lines.drop_first())
        }
    }
}

proof fn lemma_boot2_id_skip(ls: Seq<Seq<char>>, i: int)
    requires
        0 <= i < ls.len(),
        !(eq_ignore_case(cnf_key(ls[i]), "BOOT2"@) && parse_game_id(
            boot2_candidate(cnf_value(ls[i])),
        ) is Some),
    ensures
        boot2_id(ls.subrange(i, ls.len() as int)) == boot2_id(
            ls.subrange(i + 1, ls.len() as int),
        ),
{
    let s = ls.subrange(i, ls.len() as int);
    assert(s[0] == ls[i]);
    assert(s.drop_first() =~= ls.subrange(i + 1, ls.len() as int));
}

fn boot2_literal() -> (r: Vec<char>)
    ensures
        r@ == "BOOT2"@,
{
    proof {
        reveal_strlit("BOOT2");
    }
    let r = vec!['B', 'O', 'O', 'T', '2'];
    assert(r@ =~= "BOOT2"@);
    r
}

/// Extracts the game id from the contents of a `SYSTEM.CNF`: the first line
/// whose key is `BOOT2` (any ASCII case) and whose executable name, stripped
/// of device/folder prefix and `;version` suffix, is a valid id.
pub fn parse_boot2_game_id(system_cnf: &str) -> (r: Option<GameId>)
    ensures
        r matches Some(id) ==> boot2_id(lines(system_cnf@)) == Some(id@),
        r is None ==> boot2_id(lines(system_cnf@)) is None,
{
    let v = chars_of(system_cnf);
    let ls = lines_vec(&v);
    let ghost spec_lines = lines(v@);
    let boot2 = boot2_literal();
    let mut i: usize = 0;
    assert(spec_lines.subrange(0, spec_lines.len() as int) =~= spec_lines);
    while i < ls.len()
        invariant
            0 <= i <= ls@.len(),
            spec_lines == lines(system_cnf@),
            boot2@ == "BOOT2"@,
            ls@.len() == spec_lines.len(),
            forall|k: int| 0 <= k < ls@.len() ==> #[trigger] ls@[k]@ == spec_lines[k],
            boot2_id(spec_lines.subrange(i as int, spec_lines.len() as int)) == boot2_id(
                spec_lines,
            ),
        decreases ls@.len() - i,
    {
        let line = &ls[i];
        let ghost l = spec_lines[i as int];
        assert(line@ == l);
        let eq = find_char_from(line, 0, '=');
        assert(line@.subrange(0, line@.len() as int) =~= line@);
        let key = trim_vec(&slice_vec(line, 0, eq));
        let value = if eq < line.len() {
            trim_vec(&slice_vec(line, eq + 1, line.len()))
        } else {
            Vec::new()
        };
        assert(value@ =~= cnf_value(l));
        if eq_ignore_case_exec(&key, &boot2) {
            let base = after_last_sep_vec(&value);
            let semi = find_char_from(&base, 0, ';');
            assert(base@.subrange(0, base@.len() as int) =~= base@);
            let cand = slice_vec(&base, 0, semi);
            let cand_s = string_of(&cand);
            if let Some(id) = GameId::parse(cand_s.as_str()) {
                proof {
                    let s = spec_lines.subrange(i as int, spec_lines.len() as int);
                    assert(s[0] == l);
                }
                return Some(id);
            }
        }
        proof {
            lemma_boot2_id_skip(spec_lines, i as int);
        }
        i = i + 1;
    }
    None
}

/// Extensions of PS2 images recognized when deriving a title.
pub open spec fn is_image_ext(ext: Seq<char>) -> bool {
    ||| eq_ignore_case(ext, "iso"@)
    ||| eq_ignore_case(ext, "zso"@)
    ||| eq_ignore_case(ext, "cso"@)
    ||| eq_ignore_case(ext, "bin"@)
}

/// Index of the last `.`, if any.
pub open spec fn last_dot(s: Seq<char>) -> Option<int>
    decreases s.len(),
{
    if s.len() == 0 {
        None
    } else if s.last() == '.' {
        Some(s.len() - 1)
    } else {
        last_dot(s.drop_last())
    }
}

/// The name without a recognized image extension.
pub open spec fn strip_image_ext(name: Seq<char>) -> Seq<char> {
    match last_dot(name) {
        Some(d) => if 0 <= d < name.len() && is_image_ext(name.subrange(d + 1, name.len() as int)) {
            name.subrange(0, d)
        } else {
            name
        },
        None => name,
    }
}

/// The file name carries one of the recognized image extensions.
pub open spec fn has_image_ext(name: Seq<char>) -> bool {
    match last_dot(name) {
        Some(d) => 0 <= d < name.len() && is_image_ext(name.subrange(d + 1, name.len() as int)),
        None => false,
    }
}

/// Title derived from an image's file name: the name without its image
/// extension and, when it starts with a game id followed by `.`, without that
/// prefix (the `<GameID>.<Title>.iso` convention); trimmed either way.
pub open spec fn derived_title(file_name: Seq<char>) -> Seq<char> {
    let stem = strip_image_ext(file_name);
    if stem.len() > 12 && parse_game_id(stem.take(11)) is Some && stem[11] == '.' {
        trim(stem.subrange(12, stem.len() as int))
    } else {
        trim(stem)
    }
}

proof fn lemma_last_dot(s: Seq<char>, j: int)
    requires
        0 <= j <= s.len(),
        forall|k: int| j <= k < s.len() ==> #[trigger] s[k] != '.',
        j == 0 || s[j - 1] == '.',
    ensures
        last_dot(s) == (if j == 0 {
            None::<int>
        } else {
            Some(j - 1)
        }),
    decreases s.len() - j,
{
    if j < s.len() {
        let t = s.drop_last();
        assert forall|k: int| j <= k < t.len() implies #[trigger] t[k] != '.' by {
            assert(t[k] == s[k]);
        }
        if j > 0 {
            assert(t[j - 1] == s[j - 1]);
        }
        lemma_last_dot(t, j);
    }
}

/// The image extensions are `iso`, `zso`, `cso` and `bin`, in any ASCII
/// case: a name made of a stem, a dot and one of them is an image name, the
/// extension is what the title drops, and the title is the same whichever of
/// the four it carries.
pub proof fn law_image_extensions(stem: Seq<char>, e: Seq<char>)
    requires
        eq_ignore_case(e, "iso"@) || eq_ignore_case(e, "zso"@) || eq_ignore_case(e, "cso"@)
            || eq_ignore_case(e, "bin"@),
    ensures
        has_image_ext(stem + seq!['.'] + e),
        strip_image_ext(stem + seq!['.'] + e) == stem,
        derived_title(stem + seq!['.'] + e) == derived_title(stem + ".iso"@),
{
    reveal_strlit("iso");
    reveal_strlit("zso");
    reveal_strlit("cso");
    reveal_strlit("bin");
    lemma_ext_names_stem(stem, e);
    reveal_strlit(".iso");
    assert(eq_ignore_case("iso"@, "iso"@));
    lemma_ext_names_stem(stem, "iso"@);
    assert(stem + seq!['.'] + "iso"@ =~= stem + ".iso"@);
}

/// Only those four: a name whose last extension is anything else (or that
/// has no dot at all) is no image name, and its title keeps the extension.
pub proof fn law_other_extensions_kept(stem: Seq<char>, e: Seq<char>)
    requires
        forall|i: int| 0 <= i < e.len() ==> e[i] != '.',
        !eq_ignore_case(e, "iso"@),
        !eq_ignore_case(e, "zso"@),
        !eq_ignore_case(e, "cso"@),
        !eq_ignore_case(e, "bin"@),
    ensures
        !has_image_ext(stem + seq!['.'] + e),
        strip_image_ext(stem + seq!['.'] + e) == stem + seq!['.'] + e,
        (forall|i: int| 0 <= i < stem.len() ==> stem[i] != '.') ==> !has_image_ext(stem)
            && strip_image_ext(stem) == stem,
{
    let name = stem + seq!['.'] + e;
    let j: int = stem.len() as int + 1;
    assert forall|k: int| j <= k < name.len() implies #[trigger] name[k] != '.' by {
        assert(name[k] == e[k - j]);
    }
    assert(name[j - 1] == '.');
    lemma_last_dot(name, j);
    assert(name.subrange(j, name.len() as int) =~= e);
    if forall|i: int| 0 <= i < stem.len() ==> stem[i] != '.' {
        lemma_last_dot(stem, 0);
    }
}

proof fn lemma_ext_names_stem(stem: Seq<char>, e: Seq<char>)
    requires
        eq_ignore_case(e, "iso"@) || eq_ignore_case(e, "zso"@) || eq_ignore_case(e, "cso"@)
            || eq_ignore_case(e, "bin"@),
    ensures
        has_image_ext(stem + seq!['.'] + e),
        strip_image_ext(stem + seq!['.'] + e) == stem,
{
    reveal_strlit("iso");
    reveal_strlit("zso");
    reveal_strlit("cso");
    reveal_strlit("bin");
    let name = stem + seq!['.'] + e;
    let j: int = stem.len() as int + 1;
    assert(e.len() == 3);
    assert forall|k: int| j <= k < name.len() implies #[trigger] name[k] != '.' by {
        let i = k - j;
        assert(name[k] == e[i]);
        assert(ascii_lower(e[i]) != '.');
    }
    assert(name[j - 1] == '.');
    lemma_last_dot(name, j);
    assert(name.subrange(j, name.len() as int) =~= e);
    assert(name.subrange(0, j - 1) =~= stem);
}

fn lit3(a: char, b: char, c: char) -> (r: Vec<char>)
    ensures
        r@ == seq![a, b, c],
{
    let r = vec![a, b, c];
    assert(r@ =~= seq![a, b, c]);
    r
}

fn is_image_ext_exec(ext: &Vec<char>) -> (r: bool)
    ensures
        r == is_image_ext(ext@),
{
    proof {
        reveal_strlit("iso");
        reveal_strlit("zso");
        reveal_strlit("cso");
        reveal_strlit("bin");
        assert("iso"@ =~= seq!['i', 's', 'o']);
        assert("zso"@ =~= seq!['z', 's', 'o']);
        assert("cso"@ =~= seq!['c', 's', 'o']);
        assert("bin"@ =~= seq!['b', 'i', 'n']);
    }
    eq_ignore_case_exec(ext, &lit3('i', 's', 'o')) || eq_ignore_case_exec(
        ext,
        &lit3('z', 's', 'o'),
    ) || eq_ignore_case_exec(ext, &lit3('c', 's', 'o')) || eq_ignore_case_exec(
        ext,
        &lit3('b', 'i', 'n'),
    )
}

/// `(has_ext, stem_len)`: whether the name has an image extension and the
/// length of the name without it.
fn image_ext_split(name: &[char]) -> (r: (bool, usize))
    ensures
        r.0 == has_image_ext(name@),
        r.1 <= name@.len(),
        strip_image_ext(name@) == name@.subrange(0, r.1 as int),
{
    let mut j: usize = name.len();
    while j > 0 && name[j - 1] != '.'
        invariant
            0 <= j <= name@.len(),
            forall|k: int| j <= k < name@.len() ==> #[trigger] name@[k] != '.',
        decreases j,
    {
        j = j - 1;
    }
    proof {
        lemma_last_dot(name@, j as int);
    }
    assert(name@.subrange(0, name@.len() as int) =~= name@);
    if j == 0 {
        return (false, name.len());
    }
    let ext = slice_vec(name, j, name.len());
    if is_image_ext_exec(&ext) {
        (true, j - 1)
    } else {
        (false, name.len())
    }
}

/// `true` for a file name with an image extension the loader knows
/// (`iso`, `zso`, `cso`, `bin`, in any ASCII case).
pub fn is_game_image_name(name: &str) -> (r: bool)
    ensures
        r == has_image_ext(name@),
{
    let v = chars_of(name);
    image_ext_split(&v).0
}

/// Derives a readable title from an image's file name: drops the image
/// extension and a leading `<GameID>.` prefix, e.g.
/// `SLUS_200.02.God of War.iso` gives `God of War`.
pub fn derive_title(file_name: &str) -> (r: String)
    ensures
        r@ == derived_title(file_name@),
{
    let v = chars_of(file_name);
    let (_, stem_len) = image_ext_split(&v);
    let stem = slice_vec(&v, 0, stem_len);
    assert(stem@ == strip_image_ext(file_name@));
    if stem.len() > 12 && stem[11] == '.' {
        let head = slice_vec(&stem, 0, 11);
        assert(head@ =~= stem@.take(11));
        let head_s = string_of(&head);
        if GameId::parse(head_s.as_str()).is_some() {
            let title = slice_vec(&stem, 12, stem.len());
            return string_of(&trim_vec(&title));
        }
    }
    string_of(&trim_vec(&stem))
}

} // verus!
