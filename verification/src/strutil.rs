//! Splitting, joining and related character-sequence operations that the
//! codec is built from, with the lemmas that relate them.

use vstd::prelude::*;

verus! {

/// The parts of `s` between occurrences of `sep`, in order, separators not
/// included. The result always has at least one element; empty input yields
/// one empty part.
pub open spec fn spec_split(s: Seq<char>, sep: char) -> Seq<Seq<char>>
    decreases s.len(),
{
    if s.len() == 0 {
        seq![Seq::<char>::empty()]
    } else if s[0] == sep {
        seq![Seq::<char>::empty()] + spec_split(s.skip(1), sep)
    } else {
        let rest = spec_split(s.skip(1), sep);
        seq![seq![s[0]] + rest[0]] + rest.skip(1)
    }
}

/// The parts glued back together with `sep` between consecutive parts.
pub open spec fn spec_join(parts: Seq<Seq<char>>, sep: char) -> Seq<char>
    decreases parts.len(),
{
    if parts.len() == 0 {
        Seq::<char>::empty()
    } else if parts.len() == 1 {
        parts[0]
    } else {
        parts[0] + seq![sep] + spec_join(parts.skip(1), sep)
    }
}

pub proof fn lemma_split_non_empty(s: Seq<char>, sep: char)
    ensures
        spec_split(s, sep).len() >= 1,
    decreases s.len(),
{
    if s.len() == 0 {
    } else if s[0] == sep {
        lemma_split_non_empty(s.skip(1), sep);
    } else {
        lemma_split_non_empty(s.skip(1), sep);
    }
}

/// No part of a split contains the separator.
pub proof fn lemma_split_parts_free_of_sep(s: Seq<char>, sep: char)
    ensures
        forall|i: int|
            0 <= i < spec_split(s, sep).len() ==> !spec_split(s, sep)[i].contains(sep),
    decreases s.len(),
{
    if s.len() == 0 {
        assert(!spec_split(s, sep)[0].contains(sep));
    } else if s[0] == sep {
        lemma_split_parts_free_of_sep(s.skip(1), sep);
        assert(!spec_split(s, sep)[0].contains(sep));
        assert forall|i: int| 1 <= i < spec_split(s, sep).len() implies !spec_split(
            s,
            sep,
        )[i].contains(sep) by {
            assert(spec_split(s, sep)[i] == spec_split(s.skip(1), sep)[i - 1]);
        }
    } else {
        lemma_split_parts_free_of_sep(s.skip(1), sep);
        lemma_split_non_empty(s.skip(1), sep);
        let rest = spec_split(s.skip(1), sep);
        assert(!rest[0].contains(sep));
        assert forall|j: int|
            0 <= j < (seq![s[0]] + rest[0]).len() implies (seq![s[0]] + rest[0])[j] != sep by {
            if j > 0 {
                assert(rest[0][j - 1] != sep);
            }
        }
        assert(!spec_split(s, sep)[0].contains(sep));
        assert forall|i: int| 1 <= i < spec_split(s, sep).len() implies !spec_split(
            s,
            sep,
        )[i].contains(sep) by {
            assert(spec_split(s, sep)[i] == rest.skip(1)[i - 1]);
            assert(rest.skip(1)[i - 1] == rest[i]);
        }
    }
}

/// Joining the parts of a split gives back the original sequence.
pub proof fn lemma_join_split(s: Seq<char>, sep: char)
    ensures
        spec_join(spec_split(s, sep), sep) == s,
    decreases s.len(),
{
    if s.len() == 0 {
    } else if s[0] == sep {
        lemma_join_split(s.skip(1), sep);
        lemma_split_non_empty(s.skip(1), sep);
        let parts = spec_split(s, sep);
        assert(parts.skip(1) =~= spec_split(s.skip(1), sep));
        assert(spec_join(parts, sep) =~= s);
    } else {
        lemma_join_split(s.skip(1), sep);
        lemma_split_non_empty(s.skip(1), sep);
        let rest = spec_split(s.skip(1), sep);
        let parts = spec_split(s, sep);
        if rest.len() == 1 {
            assert(parts.len() == 1);
            assert(spec_join(parts, sep) == seq![s[0]] + rest[0]);
            assert(spec_join(rest, sep) == rest[0]);
            assert(spec_join(parts, sep) =~= s);
        } else {
            assert(parts.len() >= 2);
            assert(parts.skip(1) =~= rest.skip(1));
            assert(spec_join(parts, sep) == (seq![s[0]] + rest[0]) + seq![sep] + spec_join(
                rest.skip(1),
                sep,
            ));
            assert(spec_join(rest, sep) == rest[0] + seq![sep] + spec_join(rest.skip(1), sep));
            assert(spec_join(rest, sep) == s.skip(1));
            assert(spec_join(parts, sep) =~= seq![s[0]] + spec_join(rest, sep));
            assert(seq![s[0]] + s.skip(1) =~= s);
        }
    }
}

/// Splitting a sequence that is free of the separator gives one part.
pub proof fn lemma_split_whole(s: Seq<char>, sep: char)
    requires
        !s.contains(sep),
    ensures
        spec_split(s, sep) == seq![s],
    decreases s.len(),
{
    if s.len() == 0 {
        assert(spec_split(s, sep) =~~= seq![s]);
    } else {
        assert(s[0] != sep);
        assert forall|i: int| 0 <= i < s.skip(1).len() implies s.skip(1)[i] != sep by {
            assert(s.skip(1)[i] == s[i + 1]);
        }
        lemma_split_whole(s.skip(1), sep);
        let rest = spec_split(s.skip(1), sep);
        assert(seq![s[0]] + rest[0] =~= s);
        assert(spec_split(s, sep) =~~= seq![s]);
    }
}

/// A separator-free token followed by a separator splits off as the first part.
pub proof fn lemma_split_prepend_token(tok: Seq<char>, rest: Seq<char>, sep: char)
    requires
        !tok.contains(sep),
    ensures
        spec_split(tok + seq![sep] + rest, sep) == seq![tok] + spec_split(rest, sep),
    decreases tok.len(),
{
    let s = tok + seq![sep] + rest;
    if tok.len() == 0 {
        assert(s =~= seq![sep] + rest);
        assert(s[0] == sep);
        assert(s.skip(1) =~= rest);
        assert(tok =~= Seq::<char>::empty());
        assert(spec_split(s, sep) =~~= seq![tok] + spec_split(rest, sep));
    } else {
        assert(tok.contains(tok[0]));
        assert(s[0] == tok[0]);
        assert(s[0] != sep);
        assert forall|i: int| 0 <= i < tok.skip(1).len() implies tok.skip(1)[i] != sep by {
            assert(tok.skip(1)[i] == tok[i + 1]);
        }
        lemma_split_prepend_token(tok.skip(1), rest, sep);
        assert(s.skip(1) =~= tok.skip(1) + seq![sep] + rest);
        let inner = spec_split(s.skip(1), sep);
        assert(inner == seq![tok.skip(1)] + spec_split(rest, sep));
        lemma_split_non_empty(rest, sep);
        assert(inner[0] == tok.skip(1));
        assert(seq![s[0]] + inner[0] =~= tok);
        assert(inner.skip(1) =~= spec_split(rest, sep));
        assert(spec_split(s, sep) =~= seq![tok] + spec_split(rest, sep));
    }
}

/// Splitting a join recovers the parts, provided each part is free of the
/// separator and there is at least one part.
pub proof fn lemma_split_join(parts: Seq<Seq<char>>, sep: char)
    requires
        parts.len() >= 1,
        forall|i: int| 0 <= i < parts.len() ==> !parts[i].contains(sep),
    ensures
        spec_split(spec_join(parts, sep), sep) == parts,
    decreases parts.len(),
{
    if parts.len() == 1 {
        lemma_split_whole(parts[0], sep);
        assert(spec_split(spec_join(parts, sep), sep) =~= parts);
    } else {
        assert(forall|i: int|
            0 <= i < parts.skip(1).len() ==> !#[trigger] parts.skip(1)[i].contains(sep));
        lemma_split_join(parts.skip(1), sep);
        lemma_split_prepend_token(parts[0], spec_join(parts.skip(1), sep), sep);
        assert(spec_join(parts, sep) == parts[0] + seq![sep] + spec_join(parts.skip(1), sep));
        assert(spec_split(spec_join(parts, sep), sep) =~= parts);
    }
}

/// Every character of every part occurs in the sequence that was split.
pub proof fn lemma_split_chars(s: Seq<char>, sep: char, c: char)
    requires
        !s.contains(c),
    ensures
        forall|i: int|
            0 <= i < spec_split(s, sep).len() ==> !spec_split(s, sep)[i].contains(c),
    decreases s.len(),
{
    if s.len() == 0 {
        assert(!spec_split(s, sep)[0].contains(c));
    } else {
        assert forall|i: int| 0 <= i < s.skip(1).len() implies s.skip(1)[i] != c by {
            assert(s.skip(1)[i] == s[i + 1]);
        }
        lemma_split_chars(s.skip(1), sep, c);
        if s[0] == sep {
            assert(!spec_split(s, sep)[0].contains(c));
            assert forall|i: int| 1 <= i < spec_split(s, sep).len() implies !spec_split(
                s,
                sep,
            )[i].contains(c) by {
                assert(spec_split(s, sep)[i] == spec_split(s.skip(1), sep)[i - 1]);
            }
        } else {
            let rest = spec_split(s.skip(1), sep);
            lemma_split_non_empty(s.skip(1), sep);
            assert(s.contains(s[0]));
            assert forall|j: int|
                0 <= j < (seq![s[0]] + rest[0]).len() implies (seq![s[0]] + rest[0])[j] != c by {
                if j > 0 {
                    assert(rest[0][j - 1] != c);
                }
            }
            assert(!spec_split(s, sep)[0].contains(c));
            assert forall|i: int| 1 <= i < spec_split(s, sep).len() implies !spec_split(
                s,
                sep,
            )[i].contains(c) by {
                assert(spec_split(s, sep)[i] == rest.skip(1)[i - 1]);
                assert(rest.skip(1)[i - 1] == rest[i]);
            }
        }
    }
}

/// A join of parts that are free of a character is free of it too, as long as
/// the separator is not that character.
pub proof fn lemma_join_chars(parts: Seq<Seq<char>>, sep: char, c: char)
    requires
        sep != c,
        forall|i: int| 0 <= i < parts.len() ==> !parts[i].contains(c),
    ensures
        !spec_join(parts, sep).contains(c),
    decreases parts.len(),
{
    if parts.len() == 0 {
    } else if parts.len() == 1 {
    } else {
        assert(forall|i: int|
            0 <= i < parts.skip(1).len() ==> !#[trigger] parts.skip(1)[i].contains(c));
        lemma_join_chars(parts.skip(1), sep, c);
        let j = spec_join(parts, sep);
        assert forall|i: int| 0 <= i < j.len() implies j[i] != c by {
            if i < parts[0].len() {
                assert(parts[0][i] != c);
            } else if i == parts[0].len() {
            } else {
                assert(j[i] == spec_join(parts.skip(1), sep)[i - parts[0].len() - 1]);
            }
        }
    }
}

/// A suffix of a sequence free of a character is free of it too.
pub proof fn lemma_skip_free(s: Seq<char>, n: int, c: char)
    requires
        !s.contains(c),
        0 <= n <= s.len(),
    ensures
        !s.skip(n).contains(c),
{
    assert forall|i: int| 0 <= i < s.skip(n).len() implies s.skip(n)[i] != c by {
        assert(s.skip(n)[i] == s[i + n]);
    }
}

/// Concatenation preserves freedom from a character.
pub proof fn lemma_concat_free(a: Seq<char>, b: Seq<char>, c: char)
    requires
        !a.contains(c),
        !b.contains(c),
    ensures
        !(a + b).contains(c),
{
    assert forall|i: int| 0 <= i < (a + b).len() implies (a + b)[i] != c by {
        if i < a.len() {
            assert(a[i] != c);
        } else {
            assert(b[i - a.len()] != c);
        }
    }
}

/// A prefix of a sequence free of a character is free of it too.
pub proof fn lemma_take_free(s: Seq<char>, n: int, c: char)
    requires
        !s.contains(c),
        0 <= n <= s.len(),
    ensures
        !s.take(n).contains(c),
{
    assert forall|i: int| 0 <= i < s.take(n).len() implies s.take(n)[i] != c by {
        assert(s.take(n)[i] == s[i]);
    }
}

/// Trimming preserves freedom from a character.
pub proof fn lemma_trim_start_free(s: Seq<char>, c: char)
    requires
        !s.contains(c),
    ensures
        !spec_trim_start(s).contains(c),
    decreases s.len(),
{
    if s.len() > 0 && is_space(s[0]) {
        lemma_skip_free(s, 1, c);
        lemma_trim_start_free(s.skip(1), c);
    }
}

/// Trimming preserves freedom from a character.
pub proof fn lemma_trim_end_free(s: Seq<char>, c: char)
    requires
        !s.contains(c),
    ensures
        !spec_trim_end(s).contains(c),
    decreases s.len(),
{
    if s.len() > 0 && is_space(s.last()) {
        lemma_take_free(s, s.len() - 1, c);
        lemma_trim_end_free(s.take(s.len() - 1), c);
    }
}

/// Trimming preserves freedom from a character.
pub proof fn lemma_trim_free(s: Seq<char>, c: char)
    requires
        !s.contains(c),
    ensures
        !spec_trim(s).contains(c),
{
    lemma_trim_start_free(s, c);
    lemma_trim_end_free(spec_trim_start(s), c);
}

/// Appending one more part to a join inserts one separator before it.
pub proof fn lemma_join_push(parts: Seq<Seq<char>>, x: Seq<char>, sep: char)
    requires
        parts.len() >= 1,
    ensures
        spec_join(parts.push(x), sep) == spec_join(parts, sep) + seq![sep] + x,
    decreases parts.len(),
{
    if parts.len() == 1 {
        assert(parts.push(x).skip(1) =~= seq![x]);
        assert(parts.push(x)[0] == parts[0]);
        assert(spec_join(seq![x], sep) == x);
        assert(parts.push(x).len() == 2);
        assert(spec_join(parts.push(x), sep) == parts[0] + seq![sep] + x);
    } else {
        lemma_join_push(parts.skip(1), x, sep);
        assert(parts.push(x).skip(1) =~= parts.skip(1).push(x));
        assert(spec_join(parts.push(x), sep) == parts[0] + seq![sep] + spec_join(
            parts.skip(1).push(x),
            sep,
        ));
        assert(spec_join(parts, sep) + seq![sep] + x =~= parts[0] + seq![sep] + (spec_join(
            parts.skip(1),
            sep,
        ) + seq![sep] + x));
    }
}

/// The uppercase form of an ASCII letter; any other character is unchanged.
pub open spec fn upper_char(c: char) -> char {
    if 'a' <= c && c <= 'z' {
        ((c as u8) - 32) as char
    } else {
        c
    }
}

/// Character-wise ASCII uppercasing.
pub open spec fn spec_upper(s: Seq<char>) -> Seq<char> {
    Seq::new(s.len(), |i: int| upper_char(s[i]))
}

/// The characters removed by trimming: the ASCII whitespace set.
pub open spec fn is_space(c: char) -> bool {
    c == ' ' || c == '\t' || c == '\r' || c == '\n'
}

/// `s` without leading ASCII whitespace.
pub open spec fn spec_trim_start(s: Seq<char>) -> Seq<char>
    decreases s.len(),
{
    if s.len() > 0 && is_space(s[0]) {
        spec_trim_start(s.skip(1))
    } else {
        s
    }
}

/// `s` without trailing ASCII whitespace.
pub open spec fn spec_trim_end(s: Seq<char>) -> Seq<char>
    decreases s.len(),
{
    if s.len() > 0 && is_space(s.last()) {
        spec_trim_end(s.take(s.len() - 1))
    } else {
        s
    }
}

/// `s` without leading and trailing ASCII whitespace.
pub open spec fn spec_trim(s: Seq<char>) -> Seq<char> {
    spec_trim_end(spec_trim_start(s))
}

/// A line-terminator character.
pub open spec fn is_line_end(c: char) -> bool {
    c == '\r' || c == '\n'
}

/// `s` without trailing CR and LF characters.
pub open spec fn spec_strip_ending(s: Seq<char>) -> Seq<char>
    decreases s.len(),
{
    if s.len() > 0 && is_line_end(s.last()) {
        spec_strip_ending(s.take(s.len() - 1))
    } else {
        s
    }
}

proof fn lemma_trim_start_skip(s: Seq<char>, k: int)
    requires
        0 <= k <= s.len(),
        forall|i: int| 0 <= i < k ==> is_space(s[i]),
        k == s.len() || !is_space(s[k]),
    ensures
        spec_trim_start(s) == s.skip(k),
    decreases k,
{
    if k == 0 {
        assert(s.skip(0) =~= s);
    } else {
        assert(is_space(s[0]));
        assert forall|i: int| 0 <= i < k - 1 implies is_space(s.skip(1)[i]) by {
            assert(s.skip(1)[i] == s[i + 1]);
        }
        if k - 1 < s.skip(1).len() {
            assert(s.skip(1)[k - 1] == s[k]);
        }
        lemma_trim_start_skip(s.skip(1), k - 1);
        assert(s.skip(1).skip(k - 1) =~= s.skip(k));
    }
}

proof fn lemma_trim_end_take(s: Seq<char>, m: int)
    requires
        0 <= m <= s.len(),
        forall|i: int| m <= i < s.len() ==> is_space(s[i]),
        m == 0 || !is_space(s[m - 1]),
    ensures
        spec_trim_end(s) == s.take(m),
    decreases s.len() - m,
{
    if m == s.len() {
        if s.len() > 0 && is_space(s.last()) {
            assert(!is_space(s[m - 1]));
            assert(false);
        }
        assert(s.take(m) =~= s);
    } else {
        assert(is_space(s.last()));
        let t = s.take(s.len() - 1);
        assert forall|i: int| m <= i < t.len() implies is_space(t[i]) by {
            assert(t[i] == s[i]);
        }
        if m > 0 {
            assert(t[m - 1] == s[m - 1]);
        }
        lemma_trim_end_take(t, m);
        assert(t.take(m) =~= s.take(m));
    }
}

proof fn lemma_strip_ending_take(s: Seq<char>, m: int)
    requires
        0 <= m <= s.len(),
        forall|i: int| m <= i < s.len() ==> is_line_end(s[i]),
        m == 0 || !is_line_end(s[m - 1]),
    ensures
        spec_strip_ending(s) == s.take(m),
    decreases s.len() - m,
{
    if m == s.len() {
        if s.len() > 0 && is_line_end(s.last()) {
            assert(!is_line_end(s[m - 1]));
            assert(false);
        }
        assert(s.take(m) =~= s);
    } else {
        assert(is_line_end(s.last()));
        let t = s.take(s.len() - 1);
        assert forall|i: int| m <= i < t.len() implies is_line_end(t[i]) by {
            assert(t[i] == s[i]);
        }
        if m > 0 {
            assert(t[m - 1] == s[m - 1]);
        }
        lemma_strip_ending_take(t, m);
        assert(t.take(m) =~= s.take(m));
    }
}

/// Splits `s` at every occurrence of `sep`.
pub fn split_char(s: &str, sep: char) -> (r: Vec<String>)
    ensures
        r.deep_view() == spec_split(s@, sep),
{
    let n = s.unicode_len();
    let mut parts: Vec<String> = Vec::new();
    let mut start: usize = 0;
    let mut i: usize = 0;
    proof {
        assert(parts.deep_view() =~= Seq::<Seq<char>>::empty());
        assert(s@.skip(0) =~= s@);
        assert(spec_split(s@, sep) =~= parts.deep_view() + spec_split(s@, sep));
    }
    while i < n
        invariant
            start <= i <= n,
            n == s@.len(),
            forall|k: int| start <= k < i ==> s@[k] != sep,
            spec_split(s@, sep) == parts.deep_view() + spec_split(s@.skip(start as int), sep),
        decreases n - i,
    {
        let c = s.get_char(i);
        if c == sep {
            let tok = s.substring_char(start, i);
            let ghost pre = parts.deep_view();
            parts.push(String::from_str(tok));
            proof {
                let toks = s@.subrange(start as int, i as int);
                assert forall|k: int| 0 <= k < toks.len() implies toks[k] != sep by {
                    assert(toks[k] == s@[start + k]);
                }
                assert(s@.skip(start as int) =~= toks + seq![sep] + s@.skip(i as int + 1));
                lemma_split_prepend_token(toks, s@.skip(i as int + 1), sep);
                assert(parts.deep_view() =~= pre.push(toks));
                assert(parts.deep_view() + spec_split(s@.skip(i as int + 1), sep) =~= pre
                    + spec_split(s@.skip(start as int), sep));
            }
            start = i + 1;
        }
        i += 1;
    }
    let tok = s.substring_char(start, n);
    let ghost pre = parts.deep_view();
    parts.push(String::from_str(tok));
    proof {
        let tail = s@.skip(start as int);
        assert forall|k: int| 0 <= k < tail.len() implies tail[k] != sep by {
            assert(tail[k] == s@[start + k]);
        }
        lemma_split_whole(tail, sep);
        assert(s@.subrange(start as int, n as int) =~= tail);
        assert(parts.deep_view() =~= pre.push(tail));
        assert(parts.deep_view() =~= pre + spec_split(tail, sep));
    }
    parts
}

/// Joins `parts[start..]` with the one-character separator `sep_str`.
pub fn join_from(parts: &Vec<String>, start: usize, sep_str: &str) -> (r: String)
    requires
        start <= parts@.len(),
        sep_str@.len() == 1,
    ensures
        r@ == spec_join(parts.deep_view().skip(start as int), sep_str@[0]),
{
    let ghost sep = sep_str@[0];
    let mut out = String::new();
    if start >= parts.len() {
        proof {
            assert(parts.deep_view().skip(start as int) =~= Seq::<Seq<char>>::empty());
        }
        return out;
    }
    out.append(parts[start].as_str());
    let mut i = start + 1;
    proof {
        assert(parts.deep_view().subrange(start as int, start + 1) =~= seq![
            parts.deep_view()[start as int],
        ]);
    }
    while i < parts.len()
        invariant
            start < i <= parts@.len(),
            sep_str@.len() == 1,
            sep == sep_str@[0],
            out@ == spec_join(parts.deep_view().subrange(start as int, i as int), sep),
        decreases parts@.len() - i,
    {
        out.append(sep_str);
        out.append(parts[i].as_str());
        proof {
            let dv = parts.deep_view();
            lemma_join_push(dv.subrange(start as int, i as int), dv[i as int], sep);
            assert(dv.subrange(start as int, i + 1) =~= dv.subrange(start as int, i as int).push(
                dv[i as int],
            ));
            assert(sep_str@ =~= seq![sep]);
        }
        i += 1;
    }
    proof {
        assert(parts.deep_view().subrange(start as int, parts@.len() as int)
            =~= parts.deep_view().skip(start as int));
    }
    out
}

/// Whether uppercasing `tok` yields exactly `verb`.
pub fn verb_matches(tok: &str, verb: &str) -> (r: bool)
    ensures
        r == (spec_upper(tok@) == verb@),
{
    let n = tok.unicode_len();
    if n != verb.unicode_len() {
        proof {
            assert(spec_upper(tok@).len() != verb@.len());
        }
        return false;
    }
    let mut i: usize = 0;
    while i < n
        invariant
            i <= n,
            n == tok@.len() == verb@.len(),
            forall|k: int| 0 <= k < i ==> upper_char(tok@[k]) == verb@[k],
        decreases n - i,
    {
        let c = tok.get_char(i);
        let u = if c >= 'a' && c <= 'z' {
            ((c as u8) - 32) as char
        } else {
            c
        };
        if u != verb.get_char(i) {
            proof {
                assert(spec_upper(tok@)[i as int] != verb@[i as int]);
            }
            return false;
        }
        i += 1;
    }
    proof {
        assert(spec_upper(tok@) =~= verb@);
    }
    true
}

/// Whether `s` contains the character `c`.
pub fn contains_char(s: &str, c: char) -> (r: bool)
    ensures
        r == s@.contains(c),
{
    let n = s.unicode_len();
    let mut i: usize = 0;
    while i < n
        invariant
            i <= n,
            n == s@.len(),
            forall|k: int| 0 <= k < i ==> s@[k] != c,
        decreases n - i,
    {
        if s.get_char(i) == c {
            return true;
        }
        i += 1;
    }
    false
}

/// Whether `s` begins with the character `c`.
pub fn starts_with_char(s: &str, c: char) -> (r: bool)
    ensures
        r == (s@.len() > 0 && s@[0] == c),
{
    if s.unicode_len() == 0 {
        false
    } else {
        s.get_char(0) == c
    }
}

/// Executable test for the ASCII whitespace set.
pub fn is_space_char(c: char) -> (r: bool)
    ensures
        r == is_space(c),
{
    c == ' ' || c == '\t' || c == '\r' || c == '\n'
}

/// Executable test for a line-terminator character.
pub fn is_line_end_char(c: char) -> (r: bool)
    ensures
        r == is_line_end(c),
{
    c == '\r' || c == '\n'
}

/// `s` without leading and trailing ASCII whitespace.
pub fn trim_ws(s: &str) -> (r: String)
    ensures
        r@ == spec_trim(s@),
{
    let n = s.unicode_len();
    let mut a: usize = 0;
    while a < n && is_space_char(s.get_char(a))
        invariant
            a <= n,
            n == s@.len(),
            forall|k: int| 0 <= k < a ==> is_space(s@[k]),
        decreases n - a,
    {
        a += 1;
    }
    let mut b: usize = n;
    while b > a && is_space_char(s.get_char(b - 1))
        invariant
            a <= b <= n,
            n == s@.len(),
            forall|k: int| 0 <= k < a ==> is_space(s@[k]),
            a == n || !is_space(s@[a as int]),
            forall|k: int| b <= k < n ==> is_space(s@[k]),
        decreases b,
    {
        b -= 1;
    }
    let r = String::from_str(s.substring_char(a, b));
    proof {
        lemma_trim_start_skip(s@, a as int);
        let t = s@.skip(a as int);
        assert forall|i: int| b - a <= i < t.len() implies is_space(t[i]) by {
            assert(t[i] == s@[i + a]);
        }
        if b > a {
            assert(t[b - a - 1] == s@[b - 1]);
            assert(!is_space(s@[b - 1]));
        }
        lemma_trim_end_take(t, b - a);
        assert(t.take(b - a) =~= s@.subrange(a as int, b as int));
    }
    r
}

/// The uppercase form of a lowercase ASCII letter, as a one-character string.
fn upper_letter(c: char) -> (r: &'static str)
    requires
        'a' <= c && c <= 'z',
    ensures
        r@ == seq![upper_char(c)],
{
    proof {
        reveal_strlit("A");
        reveal_strlit("B");
        reveal_strlit("C");
        reveal_strlit("D");
        reveal_strlit("E");
        reveal_strlit("F");
        reveal_strlit("G");
        reveal_strlit("H");
        reveal_strlit("I");
        reveal_strlit("J");
        reveal_strlit("K");
        reveal_strlit("L");
        reveal_strlit("M");
        reveal_strlit("N");
        reveal_strlit("O");
        reveal_strlit("P");
        reveal_strlit("Q");
        reveal_strlit("R");
        reveal_strlit("S");
        reveal_strlit("T");
        reveal_strlit("U");
        reveal_strlit("V");
        reveal_strlit("W");
        reveal_strlit("X");
        reveal_strlit("Y");
        reveal_strlit("Z");
    }
    match c {
        'a' => "A",
        'b' => "B",
        'c' => "C",
        'd' => "D",
        'e' => "E",
        'f' => "F",
        'g' => "G",
        'h' => "H",
        'i' => "I",
        'j' => "J",
        'k' => "K",
        'l' => "L",
        'm' => "M",
        'n' => "N",
        'o' => "O",
        'p' => "P",
        'q' => "Q",
        'r' => "R",
        's' => "S",
        't' => "T",
        'u' => "U",
        'v' => "V",
        'w' => "W",
        'x' => "X",
        'y' => "Y",
        _ => "Z",
    }
}

/// The character-wise ASCII uppercasing of `s`.
pub fn to_upper(s: &str) -> (r: String)
    ensures
        r@ == spec_upper(s@),
{
    let n = s.unicode_len();
    let mut out = String::new();
    let mut i: usize = 0;
    proof {
        assert(out@ =~= spec_upper(s@).take(0));
    }
    while i < n
        invariant
            i <= n,
            n == s@.len(),
            out@ == spec_upper(s@).take(i as int),
        decreases n - i,
    {
        let c = s.get_char(i);
        if c >= 'a' && c <= 'z' {
            out.append(upper_letter(c));
        } else {
            out.append(s.substring_char(i, i + 1));
            proof {
                assert(s@.subrange(i as int, i as int + 1) =~= seq![s@[i as int]]);
            }
        }
        proof {
            assert(out@ =~= spec_upper(s@).take(i as int + 1));
        }
        i += 1;
    }
    proof {
        assert(spec_upper(s@).take(n as int) =~= spec_upper(s@));
    }
    out
}

/// `s` without any trailing CR or LF characters.
pub fn strip_line_ending(s: &str) -> (r: String)
    ensures
        r@ == spec_strip_ending(s@),
{
    let n = s.unicode_len();
    let mut b: usize = n;
    while b > 0 && is_line_end_char(s.get_char(b - 1))
        invariant
            b <= n,
            n == s@.len(),
            forall|k: int| b <= k < n ==> is_line_end(s@[k]),
        decreases b,
    {
        b -= 1;
    }
    let r = String::from_str(s.substring_char(0, b));
    proof {
        if b > 0 {
            assert(!is_line_end(s@[b - 1]));
        }
        lemma_strip_ending_take(s@, b as int);
        assert(s@.take(b as int) =~= s@.subrange(0, b as int));
    }
    r
}

} // verus!
