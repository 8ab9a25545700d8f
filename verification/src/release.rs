//! The **Release** field. The loader shows it verbatim and does not read it
//! as a date, but a value that looks like a date is checked and written in a
//! canonical form, so that the user does not store a meaningless date.
use vstd::prelude::*;
use crate::text::{
    is_ws, lemma_decimal_shape, lemma_trim_end, lemma_trim_idem, lemma_trim_start,
    all_digits, chars_of, decimal, digit_val, decimal2, digits_value, is_ascii_alpha, is_digit, push_char,
    push_decimal, push_decimal2, push_str, string_of, trim, trim_vec, parse_digits,
};

verus! {

/// Whether a character has the Unicode `Alphabetic` property (the result of
/// `char::is_alphabetic`).
pub uninterp spec fn char_alphabetic(c: char) -> bool;

/// `char::is_alphabetic`: for an ASCII character exactly the letters `A`-`Z`
/// and `a`-`z` (the ASCII part of the Unicode `Alphabetic` property), beyond
/// ASCII the Unicode property itself.
pub open spec fn is_alphabetic_char(c: char) -> bool {
    if (c as u32) < 128 {
        is_ascii_alpha(c)
    } else {
        char_alphabetic(c)
    }
}

/// Calls `char::is_alphabetic`. Claimed: for an ASCII character the result is
/// true exactly for `A`-`Z` and `a`-`z`; for any other character it is
/// `char_alphabetic(c)`, the Unicode `Alphabetic` property, which is not
/// spelled out here.
#[verifier::external_body]
fn is_alphabetic(c: char) -> (r: bool)
    ensures
        r == (if (c as u32) < 128 {
            is_ascii_alpha(c)
        } else {
            char_alphabetic(c)
        }),
{
    c.is_alphabetic()
}

/// Error of the Release field: the user typed something that looks like a
/// date (only digits and separators) but is not a valid one.
#[derive(Debug, Clone, PartialEq, Eq)]
pub struct ReleaseError(pub String);

impl ReleaseError {
    /// The message of the error.
    pub fn message(&self) -> (r: String)
        ensures
            r@ == self.0@,
    {
        self.0.clone()
    }
}

/// Days in a month, leap years included; 0 for a month out of range.
pub open spec fn month_days(year: u32, month: u32) -> u32 {
    if month == 1 || month == 3 || month == 5 || month == 7 || month == 8 || month == 10 || month
        == 12 {
        31
    } else if month == 4 || month == 6 || month == 9 || month == 11 {
        30
    } else if month == 2 {
        if (year % 4 == 0 && year % 100 != 0) || year % 400 == 0 {
            29
        } else {
            28
        }
    } else {
        0
    }
}

/// The Gregorian calendar: from January to July the months alternate 31
/// and 30 days starting with 31 (February aside), from August to December
/// again starting with 31; a year has 365 days, 366 when it is a leap year
/// (divisible by 4 but not by 100, or by 400); there is no month 0 or 13.
pub proof fn law_month_lengths(year: u32, month: u32)
    ensures
        1 <= month <= 7 && month != 2 ==> month_days(year, month) == 30 + month % 2,
        8 <= month <= 12 ==> month_days(year, month) == 31 - month % 2,
        (month == 0 || month > 12) ==> month_days(year, month) == 0,
        month_days(year, 1) + month_days(year, 2) + month_days(year, 3) + month_days(year, 4)
            + month_days(year, 5) + month_days(year, 6) + month_days(year, 7) + month_days(year, 8)
            + month_days(year, 9) + month_days(year, 10) + month_days(year, 11) + month_days(
            year,
            12,
        ) == 365 + if (year % 4 == 0 && year % 100 != 0) || year % 400 == 0 {
            1int
        } else {
            0int
        },
{
}

/// Days in a month, aware of leap years (0 for an invalid month).
pub fn days_in_month(year: u32, month: u32) -> (r: u32)
    ensures
        r == month_days(year, month),
{
    if month == 1 || month == 3 || month == 5 || month == 7 || month == 8 || month == 10 || month
        == 12 {
        31
    } else if month == 4 || month == 6 || month == 9 || month == 11 {
        30
    } else if month == 2 {
        let leap = (year % 4 == 0 && year % 100 != 0) || year % 400 == 0;
        if leap {
            29
        } else {
            28
        }
    } else {
        0
    }
}

/// The maximal runs of ASCII digits of `s`, in order (what splitting at every
/// non-digit and dropping the empty pieces leaves).
pub open spec fn digit_runs(s: Seq<char>) -> Seq<Seq<char>>
    decreases s.len(),
{
    if s.len() == 0 {
        seq![]
    } else {
        let r = digit_runs(s.drop_last());
        if !is_digit(s.last()) {
            r
        } else if s.len() >= 2 && is_digit(s[s.len() - 2]) && r.len() > 0 {
            r.update(r.len() - 1, r.last().push(s.last()))
        } else {
            r.push(seq![s.last()])
        }
    }
}

/// Years accepted in a date.
pub open spec fn valid_year(y: nat) -> bool {
    1000 <= y <= 2999
}

/// The message of a rejected Release value.
pub open spec fn release_error_text(t: Seq<char>) -> Seq<char> {
    "\""@ + t + RELEASE_HINT@
}

/// Tail of the message of a rejected Release value.
pub const RELEASE_HINT: &'static str = "\" não é uma data válida. Use AAAA-MM-DD, DD/MM/AAAA ou só o ano (ou escreva por extenso).";

/// `YYYY-MM`.
pub open spec fn year_month(y: nat, m: nat) -> Seq<char> {
    decimal(y) + seq!['-'] + decimal2(m)
}

/// `YYYY-MM-DD`.
pub open spec fn year_month_day(y: nat, m: nat, d: nat) -> Seq<char> {
    decimal(y) + seq!['-'] + decimal2(m) + seq!['-'] + decimal2(d)
}

/// What a value of only digits and separators normalizes to, given its digit
/// runs `p` (values `v`): a year alone, a year and month in either order, or
/// a full date as `YYYY-MM-DD` or `DD-MM-YYYY` (the run with four digits is
/// the year). `None` when it is not a valid date.
pub open spec fn date_of_runs(p: Seq<Seq<char>>) -> Option<Seq<char>> {
    let v = p.map_values(|r: Seq<char>| digits_value(r));
    if p.len() == 1 {
        if p[0].len() == 4 && valid_year(v[0]) {
            Some(decimal(v[0]))
        } else {
            None
        }
    } else if p.len() == 2 {
        if p[0].len() != 4 && p[1].len() != 4 {
            None
        } else {
            let (y, m) = if p[0].len() == 4 {
                (v[0], v[1])
            } else {
                (v[1], v[0])
            };
            if valid_year(y) && 1 <= m <= 12 {
                Some(year_month(y, m))
            } else {
                None
            }
        }
    } else if p.len() == 3 {
        if p[0].len() != 4 && p[2].len() != 4 {
            None
        } else {
            let (y, m, d) = if p[0].len() == 4 {
                (v[0], v[1], v[2])
            } else {
                (v[2], v[1], v[0])
            };
            if valid_year(y) && 1 <= m <= 12 && 1 <= d <= month_days(y as u32, m as u32) {
                Some(year_month_day(y, m, d))
            } else {
                None
            }
        }
    } else {
        None
    }
}

/// Normalization of the Release field:
/// - empty after trimming: `Ok(None)` (the key is removed);
/// - holding a letter: free text, kept as typed (trimmed);
/// - otherwise a date: canonical `YYYY`, `YYYY-MM` or `YYYY-MM-DD`, or an
///   error when a number does not fit in `u32` or the date is not valid.
pub open spec fn release_spec(raw: Seq<char>) -> Result<Option<Seq<char>>, Seq<char>> {
    let t = trim(raw);
    if t.len() == 0 {
        Ok(None)
    } else if exists|i: int| 0 <= i < t.len() && is_alphabetic_char(#[trigger] t[i]) {
        Ok(Some(t))
    } else {
        let p = digit_runs(t);
        if exists|k: int| 0 <= k < p.len() && digits_value(#[trigger] p[k]) > u32::MAX {
            Err(release_error_text(t))
        } else {
            match date_of_runs(p) {
                Some(d) => Ok(Some(d)),
                None => Err(release_error_text(t)),
            }
        }
    }
}

proof fn lemma_runs_shape(s: Seq<char>)
    ensures
        forall|k: int| 0 <= k < digit_runs(s).len() ==> #[trigger] digit_runs(s)[k].len() > 0
            && all_digits(digit_runs(s)[k]),
        digit_runs(s).len() > 0 ==> (s.len() > 0 && is_digit(s.last()) ==> digit_runs(s).last().last()
            == s.last()),
    decreases s.len(),
{
    if s.len() > 0 {
        lemma_runs_shape(s.drop_last());
        let r = digit_runs(s.drop_last());
        let n = digit_runs(s);
        if is_digit(s.last()) {
            if s.len() >= 2 && is_digit(s[s.len() - 2]) && r.len() > 0 {
                let l = r.last().push(s.last());
                assert forall|i: int| 0 <= i < l.len() implies is_digit(#[trigger] l[i]) by {
                    if i < l.len() - 1 {
                        assert(l[i] == r.last()[i]);
                        assert(r[r.len() - 1] == r.last());
                    }
                }
                assert forall|k: int| 0 <= k < n.len() implies #[trigger] n[k].len() > 0 && all_digits(n[k]) by {
                    if k < n.len() - 1 {
                        assert(n[k] == r[k]);
                    } else {
                        assert(n[k] == l);
                    }
                }
            } else {
                let l = seq![s.last()];
                assert forall|k: int| 0 <= k < n.len() implies #[trigger] n[k].len() > 0 && all_digits(n[k]) by {
                    if k < n.len() - 1 {
                        assert(n[k] == r[k]);
                    } else {
                        assert(n[k] == l);
                        assert(all_digits(l));
                    }
                }
            }
        }
    }
}

/// The digit runs of `t` and whether a run was still open at the end.
fn split_digit_runs(t: &Vec<char>) -> (r: Vec<Vec<char>>)
    ensures
        r@.len() == digit_runs(t@).len(),
        forall|k: int| 0 <= k < r@.len() ==> #[trigger] r@[k]@ == digit_runs(t@)[k],
{
    let mut done: Vec<Vec<char>> = Vec::new();
    let mut cur: Vec<char> = Vec::new();
    let mut i: usize = 0;
    while i < t.len()
        invariant
            0 <= i <= t@.len(),
            ({
                let runs = digit_runs(t@.take(i as int));
                &&& runs.len() == done@.len() + (if cur@.len() > 0 {
                    1int
                } else {
                    0int
                })
                &&& forall|k: int| 0 <= k < done@.len() ==> #[trigger] done@[k]@ == runs[k]
                &&& cur@.len() > 0 ==> runs.last() == cur@
            }),
            cur@.len() > 0 <==> (i > 0 && is_digit(t@[i - 1])),
        decreases t@.len() - i,
    {
        let c = t[i];
        let ghost s = t@.take(i + 1);
        let ghost prev = digit_runs(t@.take(i as int));
        assert(s.drop_last() =~= t@.take(i as int));
        assert(s.last() == c);
        if '0' <= c && c <= '9' {
            if i > 0 {
                assert(s[s.len() - 2] == t@[i - 1]);
            }
            cur.push(c);
            proof {
                let runs = digit_runs(s);
                if cur@.len() > 1 {
                    assert(runs == prev.update(prev.len() - 1, prev.last().push(c)));
                    assert forall|k: int| 0 <= k < done@.len() implies #[trigger] done@[k]@ == runs[k] by {
                        assert(runs[k] == prev[k]);
                    }
                } else {
                    assert(runs == prev.push(seq![c]));
                    assert(cur@ =~= seq![c]);
                    assert forall|k: int| 0 <= k < done@.len() implies #[trigger] done@[k]@ == runs[k] by {
                        assert(runs[k] == prev[k]);
                    }
                }
            }
        } else {
            if cur.len() > 0 {
                let ghost old_done = done@;
                let taken = cur;
                cur = Vec::new();
                done.push(taken);
                proof {
                    assert forall|k: int| 0 <= k < done@.len() implies #[trigger] done@[k]@ == prev[k] by {
                        if k < old_done.len() {
                            assert(done@[k] == old_done[k]);
                        }
                    }
                }
            }
        }
        i = i + 1;
    }
    assert(t@.take(t@.len() as int) =~= t@);
    if cur.len() > 0 {
        done.push(cur);
    }
    done
}

fn any_alphabetic(t: &Vec<char>) -> (r: bool)
    ensures
        r == exists|i: int| 0 <= i < t@.len() && is_alphabetic_char(#[trigger] t@[i]),
{
    let mut i: usize = 0;
    while i < t.len()
        invariant
            0 <= i <= t@.len(),
            forall|k: int| 0 <= k < i ==> !is_alphabetic_char(#[trigger] t@[k]),
        decreases t@.len() - i,
    {
        if is_alphabetic(t[i]) {
            return true;
        }
        i = i + 1;
    }
    false
}

fn release_error(t: &Vec<char>) -> (r: ReleaseError)
    ensures
        r.0@ == release_error_text(t@),
{
    let mut s = String::new();
    push_char(&mut s, '"');
    push_str(&mut s, string_of(t).as_str());
    push_str(&mut s, RELEASE_HINT);
    proof {
        reveal_strlit("\"");
        assert(Seq::<char>::empty().push('"') =~= "\""@);
    }
    ReleaseError(s)
}

/// Normalizes the **Release** field (see [`release_spec`]). Empty gives
/// `Ok(None)`; text with a letter is kept; digits with separators are read as
/// a date (`YYYY-MM-DD`, `DD/MM/YYYY`, `YYYY-MM`, `MM/YYYY` or `YYYY`) and
/// written as `YYYY`, `YYYY-MM` or `YYYY-MM-DD`; anything else is an error.
pub fn normalize_release(raw: &str) -> (r: Result<Option<String>, ReleaseError>)
    ensures
        match r {
            Ok(None) => release_spec(raw@) == Ok::<Option<Seq<char>>, Seq<char>>(None),
            Ok(Some(s)) => release_spec(raw@) == Ok::<Option<Seq<char>>, Seq<char>>(Some(s@)),
            Err(e) => release_spec(raw@) == Err::<Option<Seq<char>>, Seq<char>>(e.0@),
        },
{
    let v = chars_of(raw);
    let t = trim_vec(&v);
    if t.len() == 0 {
        return Ok(None);
    }
    if any_alphabetic(&t) {
        return Ok(Some(string_of(&t)));
    }
    let parts = split_digit_runs(&t);
    let ghost p = digit_runs(t@);
    proof {
        lemma_runs_shape(t@);
    }
    let mut nums: Vec<u32> = Vec::new();
    let mut k: usize = 0;
    while k < parts.len()
        invariant
            0 <= k <= parts@.len(),
            t@ == trim(raw@),
            t@.len() > 0,
            !exists|i: int| 0 <= i < t@.len() && is_alphabetic_char(#[trigger] t@[i]),
            p == digit_runs(t@),
            parts@.len() == p.len(),
            forall|j: int| 0 <= j < parts@.len() ==> #[trigger] parts@[j]@ == p[j],
            forall|j: int| 0 <= j < p.len() ==> #[trigger] p[j].len() > 0 && all_digits(p[j]),
            nums@.len() == k,
            forall|j: int| 0 <= j < k ==> #[trigger] nums@[j] == digits_value(p[j]),
        decreases parts@.len() - k,
    {
        let part = &parts[k];
        assert(part@.subrange(0, part@.len() as int) =~= part@);
        match parse_digits(part, 0, part.len(), 0xffff_ffff) {
            Some(n) => {
                nums.push(n as u32);
            },
            None => {
                assert(digits_value(p[k as int]) > u32::MAX);
                return Err(release_error(&t));
            },
        }
        k = k + 1;
    }
    let ghost vals = p.map_values(|r: Seq<char>| digits_value(r));
    assert(forall|j: int| 0 <= j < p.len() ==> #[trigger] vals[j] == nums@[j]);
    if parts.len() == 1 {
        if parts[0].len() == 4 && 1000 <= nums[0] && nums[0] <= 2999 {
            return Ok(Some(crate::text::decimal_string(nums[0] as u64)));
        }
        return Err(release_error(&t));
    } else if parts.len() == 2 {
        let (year, month) = if parts[0].len() == 4 {
            (nums[0], nums[1])
        } else if parts[1].len() == 4 {
            (nums[1], nums[0])
        } else {
            return Err(release_error(&t));
        };
        if 1000 <= year && year <= 2999 && 1 <= month && month <= 12 {
            let mut s = String::new();
            push_decimal(&mut s, year as u64);
            push_char(&mut s, '-');
            push_decimal2(&mut s, month as u64);
            assert(s@ =~= year_month(year as nat, month as nat));
            return Ok(Some(s));
        }
        return Err(release_error(&t));
    } else if parts.len() == 3 {
        let (year, month, day) = if parts[0].len() == 4 {
            (nums[0], nums[1], nums[2])
        } else if parts[2].len() == 4 {
            (nums[2], nums[1], nums[0])
        } else {
            return Err(release_error(&t));
        };
        if 1000 <= year && year <= 2999 && 1 <= month && month <= 12 && 1 <= day && day
            <= days_in_month(year, month) {
            let mut s = String::new();
            push_decimal(&mut s, year as u64);
            push_char(&mut s, '-');
            push_decimal2(&mut s, month as u64);
            push_char(&mut s, '-');
            push_decimal2(&mut s, day as u64);
            assert(s@ =~= year_month_day(year as nat, month as nat, day as nat));
            return Ok(Some(s));
        }
        return Err(release_error(&t));
    }
    Err(release_error(&t))
}

// ---------------------------------------------------------------------------
// Law: a normalized value normalizes to itself
// ---------------------------------------------------------------------------

proof fn lemma_runs_nonempty(s: Seq<char>)
    requires
        s.len() > 0,
        is_digit(s.last()),
    ensures
        digit_runs(s).len() > 0,
{
}

proof fn lemma_runs_single(a: Seq<char>)
    requires
        a.len() > 0,
        all_digits(a),
    ensures
        digit_runs(a) == seq![a],
    decreases a.len(),
{
    assert(is_digit(a[a.len() - 1]));
    if a.len() == 1 {
        assert(a.drop_last() =~= Seq::<char>::empty());
        assert(digit_runs(a.drop_last()) =~= Seq::<Seq<char>>::empty());
        assert(a =~= seq![a.last()]);
        assert(digit_runs(a) =~= Seq::<Seq<char>>::empty().push(seq![a.last()]));
    } else {
        let d = a.drop_last();
        assert forall|i: int| 0 <= i < d.len() implies is_digit(#[trigger] d[i]) by {
            assert(d[i] == a[i]);
        }
        lemma_runs_single(d);
        assert(is_digit(a[a.len() - 2]));
        assert(d.push(a.last()) =~= a);
        let r = digit_runs(d);
        assert(r.last() == d);
        assert(digit_runs(a) == r.update(r.len() - 1, r.last().push(a.last())));
        assert(seq![d].update(0, d.push(a.last())) =~= seq![a]);
    }
}

proof fn lemma_runs_concat(a: Seq<char>, b: Seq<char>)
    ensures
        digit_runs(a + seq!['-'] + b) == digit_runs(a) + digit_runs(b),
    decreases b.len(),
{
    let s = a + seq!['-'] + b;
    if b.len() == 0 {
        assert(s.drop_last() =~= a);
        assert(s.last() == '-');
        assert(digit_runs(a) + digit_runs(b) =~= digit_runs(a));
    } else {
        let b0 = b.drop_last();
        let c = b.last();
        lemma_runs_concat(a, b0);
        assert(s.drop_last() =~= a + seq!['-'] + b0);
        assert(s.last() == c);
        let ra = digit_runs(a);
        let rb = digit_runs(b0);
        let r = digit_runs(s.drop_last());
        assert(r == ra + rb);
        if is_digit(c) {
            if b.len() >= 2 {
                assert(s[s.len() - 2] == b[b.len() - 2]);
            } else {
                assert(s[s.len() - 2] == '-');
            }
            if b.len() >= 2 && is_digit(b[b.len() - 2]) {
                assert(b0.last() == b[b.len() - 2]);
                lemma_runs_nonempty(b0);
                assert(r.update(r.len() - 1, r.last().push(c)) =~= ra + rb.update(
                    rb.len() - 1,
                    rb.last().push(c),
                ));
            } else {
                assert(r.push(seq![c]) =~= ra + rb.push(seq![c]));
            }
        }
    }
}

proof fn lemma_value_leading_zero(s: Seq<char>)
    ensures
        digits_value(seq!['0'] + s) == digits_value(s),
    decreases s.len(),
{
    let z = seq!['0'] + s;
    if s.len() == 0 {
        assert(z.drop_last() =~= Seq::<char>::empty());
        assert(digits_value(z.drop_last()) == 0);
        assert(z.last() == '0');
        assert(digits_value(z) == digits_value(z.drop_last()) * 10 + digit_val(z.last()));
    } else {
        lemma_value_leading_zero(s.drop_last());
        assert(z.drop_last() =~= seq!['0'] + s.drop_last());
        assert(z.last() == s.last());
        assert(digits_value(z) == digits_value(z.drop_last()) * 10 + digit_val(z.last()));
        assert(digits_value(s) == digits_value(s.drop_last()) * 10 + digit_val(s.last()));
    }
}

proof fn lemma_decimal2_shape(n: nat)
    requires
        1 <= n < 100,
    ensures
        decimal2(n).len() == 2,
        all_digits(decimal2(n)),
        digits_value(decimal2(n)) == n,
{
    lemma_decimal_shape(n);
    if n < 10 {
        let d = decimal2(n);
        lemma_value_leading_zero(decimal(n));
        assert forall|i: int| 0 <= i < d.len() implies is_digit(#[trigger] d[i]) by {
            if i > 0 {
                assert(d[i] == decimal(n)[i - 1]);
            }
        }
    }
}

/// ASCII digits and `-` only: nothing alphabetic, nothing to trim.
proof fn lemma_plain(s: Seq<char>)
    requires
        s.len() > 0,
        forall|i: int| 0 <= i < s.len() ==> is_digit(#[trigger] s[i]) || s[i] == '-',
        is_digit(s[0]),
        is_digit(s.last()),
    ensures
        trim(s) == s,
        !exists|i: int| 0 <= i < s.len() && is_alphabetic_char(#[trigger] s[i]),
{
    assert(!is_ws(s[0]));
    assert(!is_ws(s[s.len() - 1]));
    lemma_trim_start(s, 0);
    assert(s.subrange(0, s.len() as int) =~= s);
    lemma_trim_end(s, s.len() as int);
    assert forall|i: int| 0 <= i < s.len() implies !is_alphabetic_char(#[trigger] s[i]) by {
        assert(is_digit(s[i]) || s[i] == '-');
    }
}

proof fn lemma_digit_or_dash_concat(a: Seq<char>, b: Seq<char>)
    requires
        all_digits(a),
        all_digits(b),
    ensures
        forall|i: int|
            0 <= i < (a + seq!['-'] + b).len() ==> is_digit(#[trigger] (a + seq!['-'] + b)[i]) || (a
                + seq!['-'] + b)[i] == '-',
{
    let s = a + seq!['-'] + b;
    assert forall|i: int| 0 <= i < s.len() implies is_digit(#[trigger] s[i]) || s[i] == '-' by {
        if i < a.len() {
            assert(s[i] == a[i]);
        } else if i > a.len() {
            assert(s[i] == b[i - a.len() - 1]);
        }
    }
}

/// A date written as `YYYY-MM-DD`: nothing to trim, nothing alphabetic, and
/// its digit runs are the year, the month and the day.
proof fn lemma_ymd_plain(y: nat, m: nat, d: nat)
    requires
        1 <= y,
        1 <= m < 100,
        1 <= d < 100,
    ensures
        trim(year_month_day(y, m, d)) == year_month_day(y, m, d),
        !exists|i: int|
            0 <= i < year_month_day(y, m, d).len() && is_alphabetic_char(
                #[trigger] year_month_day(y, m, d)[i],
            ),
        digit_runs(year_month_day(y, m, d)) == seq![decimal(y), decimal2(m), decimal2(d)],
        decimal2(m).len() == 2 && digits_value(decimal2(m)) == m,
        decimal2(d).len() == 2 && digits_value(decimal2(d)) == d,
        digits_value(decimal(y)) == y,
{
    let s = year_month_day(y, m, d);
    lemma_decimal_shape(y);
    lemma_decimal2_shape(m);
    lemma_decimal2_shape(d);
    let a = decimal(y);
    let b = decimal2(m);
    let c = decimal2(d);
    let ab = a + seq!['-'] + b;
    assert(s == ab + seq!['-'] + c);
    lemma_runs_single(a);
    lemma_runs_single(b);
    lemma_runs_single(c);
    lemma_runs_concat(a, b);
    lemma_runs_concat(ab, c);
    lemma_digit_or_dash_concat(a, b);
    assert forall|i: int| 0 <= i < s.len() implies is_digit(#[trigger] s[i]) || s[i] == '-' by {
        if i < ab.len() {
            assert(s[i] == ab[i]);
        } else if i > ab.len() {
            assert(s[i] == c[i - ab.len() - 1]);
        }
    }
    assert(s[0] == a[0]);
    assert(s.last() == c.last());
    lemma_plain(s);
    assert(digit_runs(s) =~= seq![a, b, c]);
}

/// A value that normalization accepts is already normalized: normalizing it
/// again gives it back unchanged (free text stays as it is; a date written
/// as `YYYY`, `YYYY-MM` or `YYYY-MM-DD` reads back as the same date).
pub proof fn law_release_idempotent(raw: Seq<char>)
    ensures
        release_spec(raw) matches Ok(Some(s)) ==> release_spec(s) == Ok::<
            Option<Seq<char>>,
            Seq<char>,
        >(Some(s)),
{
    let t = trim(raw);
    if t.len() == 0 {
    } else if exists|i: int| 0 <= i < t.len() && is_alphabetic_char(#[trigger] t[i]) {
        lemma_trim_idem(raw);
    } else {
        let p = digit_runs(t);
        if !exists|k: int| 0 <= k < p.len() && digits_value(#[trigger] p[k]) > u32::MAX {
            if let Some(s) = date_of_runs(p) {
                let v = p.map_values(|r: Seq<char>| digits_value(r));
                if p.len() == 1 {
                    let y = v[0];
                    lemma_decimal_shape(y);
                    lemma_runs_single(s);
                    lemma_plain(s);
                    let q = digit_runs(s);
                    let w = q.map_values(|r: Seq<char>| digits_value(r));
                    assert(w[0] == y);
                    assert(date_of_runs(q) == Some(s));
                } else if p.len() == 2 {
                    let (y, m) = if p[0].len() == 4 {
                        (v[0], v[1])
                    } else {
                        (v[1], v[0])
                    };
                    lemma_decimal_shape(y);
                    lemma_decimal2_shape(m);
                    let a = decimal(y);
                    let b = decimal2(m);
                    assert(s == a + seq!['-'] + b);
                    lemma_runs_single(a);
                    lemma_runs_single(b);
                    lemma_runs_concat(a, b);
                    lemma_digit_or_dash_concat(a, b);
                    assert(s[0] == a[0]);
                    assert(s.last() == b.last());
                    lemma_plain(s);
                    let q = digit_runs(s);
                    assert(q =~= seq![a, b]);
                    let w = q.map_values(|r: Seq<char>| digits_value(r));
                    assert(w[0] == y && w[1] == m);
                    assert(date_of_runs(q) == Some(s));
                } else {
                    let (y, m, d) = if p[0].len() == 4 {
                        (v[0], v[1], v[2])
                    } else {
                        (v[2], v[1], v[0])
                    };
                    assert(d <= 31) by {
                        assert(month_days(y as u32, m as u32) <= 31);
                    }
                    lemma_decimal_shape(y);
                    lemma_ymd_plain(y, m, d);
                    let a = decimal(y);
                    let b = decimal2(m);
                    let c = decimal2(d);
                    let q = digit_runs(s);
                    assert(q =~= seq![a, b, c]);
                    let w = q.map_values(|r: Seq<char>| digits_value(r));
                    assert(w[0] == y && w[1] == m && w[2] == d);
                    assert(date_of_runs(q) == Some(s));
                }
            }
        }
    }
}

/// A date typed as `YYYY-MM-DD`, with a year from 1000 to 2999, is kept as
/// typed when the day exists in the Gregorian calendar and refused
/// otherwise: every month has the days 1 to 28; every month but February has
/// 29 and 30; February has 29 in a leap year (divisible by 4 but not by 100,
/// or by 400); the 31st exists in January, March, May, July, August, October
/// and December, that is in the odd months up to July and in the even ones
/// from August on.
pub proof fn law_calendar_dates(y: nat, m: nat, d: nat)
    requires
        valid_year(y),
        1 <= m <= 12,
        1 <= d <= 31,
    ensures
        release_spec(year_month_day(y, m, d)) == if d <= 28 || (m != 2 && d <= 30) || (m == 2 && d
            == 29 && ((y % 4 == 0 && y % 100 != 0) || y % 400 == 0)) || (d == 31 && (m <= 7) == (m
            % 2 == 1)) {
            Ok::<Option<Seq<char>>, Seq<char>>(Some(year_month_day(y, m, d)))
        } else {
            Err::<Option<Seq<char>>, Seq<char>>(release_error_text(year_month_day(y, m, d)))
        },
{
    let s = year_month_day(y, m, d);
    lemma_decimal_shape(y);
    lemma_ymd_plain(y, m, d);
    let p = digit_runs(s);
    assert(p[0] == decimal(y) && p[1] == decimal2(m) && p[2] == decimal2(d));
    assert forall|k: int| 0 <= k < p.len() implies digits_value(#[trigger] p[k]) <= u32::MAX by {
        if k == 0 {
        } else if k == 1 {
        } else {
        }
    }
    let v = p.map_values(|r: Seq<char>| digits_value(r));
    assert(v[0] == y && v[1] == m && v[2] == d);
    assert(trim(s) == s);
}

} // verus!
