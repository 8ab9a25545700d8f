//! Single quotes that are safe for the shell: the text is wrapped in `'...'`
//! and every inner `'` is written as `'\''`.
use vstd::prelude::*;
use crate::text::{chars_of, push_char, push_str};

verus! {

/// The body of a single-quoted word: each `'` becomes `'\''`.
pub open spec fn squote_body(s: Seq<char>) -> Seq<char>
    decreases s.len(),
{
    if s.len() == 0 {
        seq![]
    } else if s.last() == '\'' {
        squote_body(s.drop_last()) + seq!['\'', '\\', '\'', '\'']
    } else {
        squote_body(s.drop_last()).push(s.last())
    }
}

/// `s` as one single-quoted shell word.
pub open spec fn squote(s: Seq<char>) -> Seq<char> {
    seq!['\''] + squote_body(s) + seq!['\'']
}

/// Quotes `s` for the shell.
pub fn sh_squote(s: &str) -> (r: String)
    ensures
        r@ == squote(s@),
{
    let v = chars_of(s);
    let mut out = String::new();
    push_char(&mut out, '\'');
    let mut i: usize = 0;
    while i < v.len()
        invariant
            0 <= i <= v@.len(),
            v@ == s@,
            out@ == seq!['\''] + squote_body(v@.take(i as int)),
        decreases v@.len() - i,
    {
        let c = v[i];
        assert(v@.take(i + 1).drop_last() =~= v@.take(i as int));
        assert(v@.take(i + 1).last() == c);
        if c == '\'' {
            push_char(&mut out, '\'');
            push_char(&mut out, '\\');
            push_char(&mut out, '\'');
            push_char(&mut out, '\'');
        } else {
            push_char(&mut out, c);
        }
        assert(out@ =~= seq!['\''] + squote_body(v@.take(i + 1)));
        i = i + 1;
    }
    push_char(&mut out, '\'');
    assert(v@.take(v@.len() as int) =~= v@);
    assert(out@ =~= squote(s@));
    out
}

/// What a POSIX shell reads from the body of a word made of single-quoted
/// runs: a `'` closes the quote, `\'` is a literal quote, a `'` reopens it.
pub open spec fn shell_read_quoted(w: Seq<char>) -> Option<Seq<char>>
    decreases w.len(),
{
    if w.len() == 0 {
        Some(seq![])
    } else if w[0] != '\'' {
        match shell_read_quoted(w.drop_first()) {
            Some(rest) => Some(seq![w[0]] + rest),
            None => None,
        }
    } else if w.len() >= 4 && w[1] == '\\' && w[2] == '\'' && w[3] == '\'' {
        match shell_read_quoted(w.subrange(4, w.len() as int)) {
            Some(rest) => Some(seq!['\''] + rest),
            None => None,
        }
    } else {
        None
    }
}

proof fn lemma_body_prepend(c: char, s: Seq<char>)
    ensures
        squote_body(seq![c] + s) == (if c == '\'' {
            seq!['\'', '\\', '\'', '\'']
        } else {
            seq![c]
        }) + squote_body(s),
    decreases s.len(),
{
    let cs = seq![c] + s;
    if s.len() == 0 {
        assert(cs =~= seq![c]);
        assert(cs.drop_last() =~= Seq::<char>::empty());
        assert(squote_body(Seq::<char>::empty()) =~= Seq::<char>::empty());
    } else {
        lemma_body_prepend(c, s.drop_last());
        assert(cs.drop_last() =~= seq![c] + s.drop_last());
        assert(cs.last() == s.last());
        let head = if c == '\'' {
            seq!['\'', '\\', '\'', '\'']
        } else {
            seq![c]
        };
        if s.last() == '\'' {
            assert(squote_body(cs) =~= head + squote_body(s));
        } else {
            assert(squote_body(cs) =~= head + squote_body(s));
        }
    }
}

/// The quoting is faithful: a shell reading the quoted body gets back exactly
/// the same text, whatever quotes it holds (no injection).
pub proof fn law_squote_roundtrip(s: Seq<char>)
    ensures
        shell_read_quoted(squote_body(s)) == Some(s),
    decreases s.len(),
{
    if s.len() > 0 {
        let c = s[0];
        let rest = s.drop_first();
        assert(s =~= seq![c] + rest);
        lemma_body_prepend(c, rest);
        law_squote_roundtrip(rest);
        let b = squote_body(s);
        if c == '\'' {
            let e = seq!['\'', '\\', '\'', '\''];
            assert(b =~= e + squote_body(rest));
            assert(b.subrange(4, b.len() as int) =~= squote_body(rest));
            assert(seq!['\''] + rest =~= s);
        } else {
            assert(b =~= seq![c] + squote_body(rest));
            assert(b.drop_first() =~= squote_body(rest));
            assert(seq![c] + rest =~= s);
        }
    } else {
        assert(squote_body(s) =~= Seq::<char>::empty());
    }
}

} // verus!
