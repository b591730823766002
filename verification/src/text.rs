//! Character-level string operations, each with the specification of the
//! std operation it stands for (trimming, splitting, joining, suffixes).

use vstd::prelude::*;

verus! {

/// Whether `c` is a Unicode `White_Space` character, as `char::is_whitespace`.
pub open spec fn is_ws(c: char) -> bool {
    let u = c as u32;
    ||| 0x09 <= u <= 0x0d
    ||| u == 0x20
    ||| u == 0x85
    ||| u == 0xa0
    ||| u == 0x1680
    ||| 0x2000 <= u <= 0x200a
    ||| u == 0x2028
    ||| u == 0x2029
    ||| u == 0x202f
    ||| u == 0x205f
    ||| u == 0x3000
}

/// `s` without its leading whitespace.
pub open spec fn trim_start(s: Seq<char>) -> Seq<char>
    decreases s.len(),
{
    if s.len() > 0 && is_ws(s[0]) {
        trim_start(s.drop_first())
    } else {
        s
    }
}

/// `s` without its trailing whitespace.
pub open spec fn trim_end(s: Seq<char>) -> Seq<char>
    decreases s.len(),
{
    if s.len() > 0 && is_ws(s.last()) {
        trim_end(s.drop_last())
    } else {
        s
    }
}

/// `s` without leading and trailing whitespace (`str::trim`).
pub open spec fn trim(s: Seq<char>) -> Seq<char> {
    trim_end(trim_start(s))
}

/// `s` without any trailing copies of `c` (`str::trim_end_matches` with a char).
pub open spec fn trim_end_char(s: Seq<char>, c: char) -> Seq<char>
    decreases s.len(),
{
    if s.len() > 0 && s.last() == c {
        trim_end_char(s.drop_last(), c)
    } else {
        s
    }
}

/// Whether `s` begins with `p`.
pub open spec fn has_prefix(s: Seq<char>, p: Seq<char>) -> bool {
    p.len() <= s.len() && s.take(p.len() as int) == p
}

/// Whether `s` ends with `p`.
pub open spec fn has_suffix(s: Seq<char>, p: Seq<char>) -> bool {
    p.len() <= s.len() && s.skip(s.len() - p.len()) == p
}

/// `s` without any trailing copies of the non-empty pattern `p`
/// (`str::trim_end_matches` with a string).
pub open spec fn trim_end_pattern(s: Seq<char>, p: Seq<char>) -> Seq<char>
    decreases s.len(),
{
    if p.len() > 0 && has_suffix(s, p) {
        trim_end_pattern(s.take(s.len() - p.len()), p)
    } else {
        s
    }
}

/// The pieces of `s` between occurrences of `sep` (`str::split` with a
/// char): `n` separators give `n + 1` pieces.
pub open spec fn split(s: Seq<char>, sep: char) -> Seq<Seq<char>>
    decreases s.len(),
{
    if s.len() == 0 {
        seq![Seq::<char>::empty()]
    } else {
        let p = split(s.drop_last(), sep);
        if s.last() == sep {
            p.push(Seq::<char>::empty())
        } else {
            p.update(p.len() - 1, p.last().push(s.last()))
        }
    }
}

/// The pieces of `parts` joined with `sep` between consecutive ones
/// (`[T]::join`).
pub open spec fn join(parts: Seq<Seq<char>>, sep: Seq<char>) -> Seq<char>
    decreases parts.len(),
{
    if parts.len() == 0 {
        Seq::<char>::empty()
    } else if parts.len() == 1 {
        parts[0]
    } else {
        join(parts.drop_last(), sep) + sep + parts.last()
    }
}

/// The maximal runs of non-whitespace characters of `s`, in order
/// (`str::split_whitespace`).
pub open spec fn words(s: Seq<char>) -> Seq<Seq<char>>
    decreases s.len(),
{
    if s.len() == 0 {
        Seq::<Seq<char>>::empty()
    } else {
        let w = words(s.drop_last());
        let c = s.last();
        if is_ws(c) {
            w
        } else if s.len() >= 2 && !is_ws(s[s.len() - 2]) {
            w.update(w.len() - 1, w.last().push(c))
        } else {
            w.push(seq![c])
        }
    }
}

/// The index of the last occurrence of `c` in `s`.
pub open spec fn rfind(s: Seq<char>, c: char) -> Option<int>
    decreases s.len(),
{
    if s.len() == 0 {
        None
    } else if s.last() == c {
        Some(s.len() - 1)
    } else {
        rfind(s.drop_last(), c)
    }
}

/// The views of a sequence of character vectors.
pub open spec fn views(v: Seq<Vec<char>>) -> Seq<Seq<char>> {
    v.map_values(|x: Vec<char>| x@)
}

// ---------------------------------------------------------------------------
// Lemmas
// ---------------------------------------------------------------------------

pub proof fn lemma_trim_start_shrinks(s: Seq<char>)
    ensures
        trim_start(s).len() <= s.len(),
        trim_start(s).len() > 0 ==> !is_ws(trim_start(s)[0]),
        trim_start(s) == s.skip(s.len() - trim_start(s).len()),
    decreases s.len(),
{
    if s.len() > 0 && is_ws(s[0]) {
        lemma_trim_start_shrinks(s.drop_first());
        assert(s.drop_first().skip(s.drop_first().len() - trim_start(s).len())
            =~= s.skip(s.len() - trim_start(s).len()));
    } else {
        assert(s.skip(0) =~= s);
    }
}

pub proof fn lemma_trim_end_shrinks(s: Seq<char>)
    ensures
        trim_end(s).len() <= s.len(),
        trim_end(s).len() > 0 ==> !is_ws(trim_end(s).last()),
        trim_end(s) == s.take(trim_end(s).len() as int),
    decreases s.len(),
{
    if s.len() > 0 && is_ws(s.last()) {
        lemma_trim_end_shrinks(s.drop_last());
        assert(s.drop_last().take(trim_end(s).len() as int) =~= s.take(trim_end(s).len() as int));
    } else {
        assert(s.take(s.len() as int) =~= s);
    }
}

/// `trim` keeps a contiguous part of its input, with no whitespace at either end.
pub proof fn lemma_trim_shape(s: Seq<char>)
    ensures
        trim(s).len() <= s.len(),
        trim(s).len() > 0 ==> !is_ws(trim(s)[0]) && !is_ws(trim(s).last()),
{
    lemma_trim_start_shrinks(s);
    lemma_trim_end_shrinks(trim_start(s));
    let t = trim_start(s);
    if trim(s).len() > 0 {
        assert(trim(s)[0] == t[0]);
    }
}

/// A string with no whitespace at either end is its own trim.
pub proof fn lemma_trim_fixed(s: Seq<char>)
    requires
        s.len() > 0 ==> !is_ws(s[0]) && !is_ws(s.last()),
    ensures
        trim(s) == s,
{
}

pub proof fn lemma_split_nonempty(s: Seq<char>, sep: char)
    ensures
        split(s, sep).len() >= 1,
    decreases s.len(),
{
    if s.len() > 0 {
        lemma_split_nonempty(s.drop_last(), sep);
    }
}

/// A string that ends in a non-whitespace character has at least one word.
pub proof fn lemma_words_nonempty(s: Seq<char>)
    requires
        s.len() > 0,
        !is_ws(s.last()),
    ensures
        words(s).len() >= 1,
    decreases s.len(),
{
    let w = words(s.drop_last());
    if s.len() >= 2 && !is_ws(s[s.len() - 2]) {
        assert(s.drop_last().last() == s[s.len() - 2]);
        lemma_words_nonempty(s.drop_last());
    }
}

/// `rfind` gives an index of `s` that holds `c`.
pub proof fn lemma_rfind_in_range(s: Seq<char>, c: char)
    ensures
        rfind(s, c) matches Some(k) ==> 0 <= k < s.len() && s[k] == c,
    decreases s.len(),
{
    if s.len() > 0 && s.last() != c {
        lemma_rfind_in_range(s.drop_last(), c);
    }
}

/// Extending the last piece extends the joined string.
pub proof fn lemma_join_extend_last(parts: Seq<Seq<char>>, sep: Seq<char>, c: char)
    requires
        parts.len() >= 1,
    ensures
        join(parts.update(parts.len() - 1, parts.last().push(c)), sep) == join(parts, sep).push(c),
{
    let q = parts.update(parts.len() - 1, parts.last().push(c));
    if parts.len() > 1 {
        assert(q.drop_last() =~= parts.drop_last());
        assert(join(q, sep) == join(q.drop_last(), sep) + sep + q.last());
        assert(join(q, sep) =~= join(parts, sep).push(c));
    }
}

/// Adding a piece adds the separator and the piece.
pub proof fn lemma_join_push(parts: Seq<Seq<char>>, sep: Seq<char>, x: Seq<char>)
    ensures
        join(parts.push(x), sep) == if parts.len() == 0 {
            x
        } else {
            join(parts, sep) + sep + x
        },
{
    assert(parts.push(x).drop_last() =~= parts);
}


/// Whether the only whitespace in `s` is the plain space.
pub open spec fn only_plain_spaces(s: Seq<char>) -> bool {
    forall|i: int| 0 <= i < s.len() && is_ws(#[trigger] s[i]) ==> s[i] == ' '
}

/// Whether `s` has no two spaces in a row.
pub open spec fn no_double_space(s: Seq<char>) -> bool {
    forall|i: int| 0 <= i < s.len() - 1 && #[trigger] s[i] == ' ' ==> s[i + 1] != ' '
}

/// The number of occurrences of `c` in `s`.
pub open spec fn count_char(s: Seq<char>, c: char) -> nat
    decreases s.len(),
{
    if s.len() == 0 {
        0
    } else {
        count_char(s.drop_last(), c) + if s.last() == c {
            1nat
        } else {
            0nat
        }
    }
}

/// Every word is non-empty and holds no whitespace.
pub proof fn lemma_words_clean(s: Seq<char>)
    ensures
        forall|k: int| 0 <= k < words(s).len() ==> #[trigger] words(s)[k].len() > 0,
        forall|k: int, j: int|
            0 <= k < words(s).len() && 0 <= j < words(s)[k].len() ==> !is_ws(
                #[trigger] words(s)[k][j],
            ),
    decreases s.len(),
{
    if s.len() > 0 {
        lemma_words_clean(s.drop_last());
        let w = words(s.drop_last());
        let c = s.last();
        if !is_ws(c) && s.len() >= 2 && !is_ws(s[s.len() - 2]) {
            assert(s.drop_last().last() == s[s.len() - 2]);
            lemma_words_nonempty(s.drop_last());
            let x = w.last().push(c);
            assert forall|k: int, j: int|
                0 <= k < words(s).len() && 0 <= j < words(s)[k].len() implies !is_ws(
                #[trigger] words(s)[k][j],
            ) by {
                if k == w.len() - 1 {
                    if j < w.last().len() {
                        assert(words(s)[k][j] == w[k][j]);
                    }
                } else {
                    assert(words(s)[k] == w[k]);
                }
            }
        } else if !is_ws(c) {
            assert forall|k: int, j: int|
                0 <= k < words(s).len() && 0 <= j < words(s)[k].len() implies !is_ws(
                #[trigger] words(s)[k][j],
            ) by {
                if k < w.len() {
                    assert(words(s)[k] == w[k]);
                }
            }
        }
    }
}

/// Joining clean words with single spaces gives text whose only whitespace
/// is single spaces between words.
pub proof fn lemma_join_words_clean(parts: Seq<Seq<char>>)
    requires
        forall|k: int| 0 <= k < parts.len() ==> #[trigger] parts[k].len() > 0,
        forall|k: int, j: int|
            0 <= k < parts.len() && 0 <= j < parts[k].len() ==> !is_ws(#[trigger] parts[k][j]),
    ensures
        only_plain_spaces(join(parts, seq![' '])),
        no_double_space(join(parts, seq![' '])),
        join(parts, seq![' ']).len() > 0 ==> !is_ws(join(parts, seq![' ']).last()),
        parts.len() > 0 ==> join(parts, seq![' ']).len() > 0,
    decreases parts.len(),
{
    if parts.len() == 1 {
        assert(join(parts, seq![' ']) == parts[0]);
        assert(parts[0].last() == parts[0][parts[0].len() - 1]);
    } else if parts.len() > 1 {
        let p = parts.drop_last();
        lemma_join_words_clean(p);
        let a = join(p, seq![' ']);
        let b = parts.last();
        let j = join(parts, seq![' ']);
        assert(j == a + seq![' '] + b);
        assert(b.len() > 0);
        assert(b[0] == parts[parts.len() - 1][0]);
        assert(b.last() == parts[parts.len() - 1][b.len() - 1]);
        assert forall|i: int| 0 <= i < j.len() && is_ws(#[trigger] j[i]) implies j[i] == ' ' by {
            if i < a.len() {
                assert(j[i] == a[i]);
            } else if i > a.len() {
                assert(j[i] == b[i - a.len() - 1]);
                assert(b[i - a.len() - 1] == parts[parts.len() - 1][i - a.len() - 1]);
            }
        }
        assert forall|i: int| 0 <= i < j.len() - 1 && #[trigger] j[i] == ' ' implies j[i + 1]
            != ' ' by {
            if i < a.len() - 1 {
                assert(j[i] == a[i] && j[i + 1] == a[i + 1]);
            } else if i == a.len() - 1 {
                assert(j[i] == a.last());
            } else if i == a.len() {
                assert(j[i + 1] == b[0]);
            } else {
                assert(j[i] == b[i - a.len() - 1]);
                assert(b[i - a.len() - 1] == parts[parts.len() - 1][i - a.len() - 1]);
            }
        }
        assert(j.last() == b.last());
    }
}

/// Any part of clean text is clean.
pub proof fn lemma_subrange_clean(s: Seq<char>, a: int, b: int)
    requires
        0 <= a <= b <= s.len(),
        only_plain_spaces(s),
        no_double_space(s),
    ensures
        only_plain_spaces(s.subrange(a, b)),
        no_double_space(s.subrange(a, b)),
{
    let t = s.subrange(a, b);
    assert forall|i: int| 0 <= i < t.len() && is_ws(#[trigger] t[i]) implies t[i] == ' ' by {
        assert(t[i] == s[a + i]);
    }
    assert forall|i: int| 0 <= i < t.len() - 1 && #[trigger] t[i] == ' ' implies t[i + 1]
        != ' ' by {
        assert(t[i] == s[a + i] && t[i + 1] == s[a + i + 1]);
    }
}

/// Removing trailing copies of a character keeps a prefix.
pub proof fn lemma_trim_end_char_prefix(s: Seq<char>, c: char)
    ensures
        trim_end_char(s, c).len() <= s.len(),
        trim_end_char(s, c) == s.take(trim_end_char(s, c).len() as int),
    decreases s.len(),
{
    if s.len() > 0 && s.last() == c {
        lemma_trim_end_char_prefix(s.drop_last(), c);
        assert(s.drop_last().take(trim_end_char(s, c).len() as int) =~= s.take(
            trim_end_char(s, c).len() as int,
        ));
    } else {
        assert(s.take(s.len() as int) =~= s);
    }
}

/// `trim` keeps a contiguous part of its input.
pub proof fn lemma_trim_subrange(s: Seq<char>)
    ensures
        exists|a: int, b: int| 0 <= a <= b <= s.len() && trim(s) == s.subrange(a, b),
{
    lemma_trim_start_shrinks(s);
    let t = trim_start(s);
    lemma_trim_end_shrinks(t);
    let a = s.len() - t.len();
    let b = a + trim(s).len();
    assert(trim(s) =~= s.subrange(a, b));
}

/// Joining the pieces of a split gives back the string.
pub proof fn lemma_join_split(s: Seq<char>, c: char)
    ensures
        join(split(s, c), seq![c]) == s,
    decreases s.len(),
{
    if s.len() > 0 {
        lemma_join_split(s.drop_last(), c);
        lemma_split_nonempty(s.drop_last(), c);
        let p = split(s.drop_last(), c);
        if s.last() == c {
            lemma_join_push(p, seq![c], Seq::<char>::empty());
            assert(s =~= s.drop_last() + seq![c] + Seq::<char>::empty());
        } else {
            lemma_join_extend_last(p, seq![c], s.last());
            assert(s =~= s.drop_last().push(s.last()));
        }
    } else {
        assert(join(split(s, c), seq![c]) == Seq::<char>::empty());
    }
}

/// No piece of a split holds the separator.
pub proof fn lemma_split_pieces(s: Seq<char>, c: char)
    ensures
        forall|k: int| 0 <= k < split(s, c).len() ==> count_char(#[trigger] split(s, c)[k], c) == 0,
    decreases s.len(),
{
    if s.len() > 0 {
        lemma_split_pieces(s.drop_last(), c);
        lemma_split_nonempty(s.drop_last(), c);
        let p = split(s.drop_last(), c);
        if s.last() == c {
            assert(Seq::<char>::empty().len() == 0);
            assert forall|k: int| 0 <= k < split(s, c).len() implies count_char(
                #[trigger] split(s, c)[k],
                c,
            ) == 0 by {
                if k < p.len() {
                    assert(split(s, c)[k] == p[k]);
                }
            }
        } else {
            assert forall|k: int| 0 <= k < split(s, c).len() implies count_char(
                #[trigger] split(s, c)[k],
                c,
            ) == 0 by {
                if k == p.len() - 1 {
                    let x = p.last().push(s.last());
                    assert(x.drop_last() =~= p.last());
                } else {
                    assert(split(s, c)[k] == p[k]);
                }
            }
        }
    }
}

/// Counting over a concatenation adds the counts.
pub proof fn lemma_count_concat(a: Seq<char>, b: Seq<char>, c: char)
    ensures
        count_char(a + b, c) == count_char(a, c) + count_char(b, c),
    decreases b.len(),
{
    if b.len() == 0 {
        assert(a + b =~= a);
    } else {
        lemma_count_concat(a, b.drop_last(), c);
        assert((a + b).drop_last() =~= a + b.drop_last());
    }
}

/// A prefix has no more occurrences than the whole.
pub proof fn lemma_count_prefix(s: Seq<char>, m: int, c: char)
    requires
        0 <= m <= s.len(),
    ensures
        count_char(s.take(m), c) <= count_char(s, c),
    decreases s.len(),
{
    if m < s.len() {
        lemma_count_prefix(s.drop_last(), m, c);
        assert(s.drop_last().take(m) =~= s.take(m));
    } else {
        assert(s.take(m) =~= s);
    }
}

/// Joining pieces that hold no separator counts one separator between each
/// two pieces.
pub proof fn lemma_count_join(parts: Seq<Seq<char>>, c: char)
    requires
        parts.len() > 0,
        forall|k: int| 0 <= k < parts.len() ==> count_char(#[trigger] parts[k], c) == 0,
    ensures
        count_char(join(parts, seq![c]), c) == parts.len() - 1,
    decreases parts.len(),
{
    if parts.len() > 1 {
        let p = parts.drop_last();
        assert forall|k: int| 0 <= k < p.len() implies count_char(#[trigger] p[k], c) == 0 by {
            assert(p[k] == parts[k]);
        }
        lemma_count_join(p, c);
        assert(count_char(parts[parts.len() - 1], c) == 0);
        assert(join(parts, seq![c]) == join(p, seq![c]) + seq![c] + parts.last());
        lemma_count_concat(join(p, seq![c]) + seq![c], parts.last(), c);
        lemma_count_concat(join(p, seq![c]), seq![c], c);
        assert(seq![c].drop_last() =~= Seq::<char>::empty());
        assert(count_char(Seq::<char>::empty(), c) == 0);
        assert(seq![c].last() == c);
        assert(count_char(seq![c], c) == count_char(seq![c].drop_last(), c) + 1);
    } else {
        assert(count_char(parts[0], c) == 0);
    }
}

/// The first pieces of a split, joined back, are a prefix of the string
/// that is either all of it or followed by the separator.
pub proof fn lemma_split_prefix(s: Seq<char>, c: char, k: int)
    requires
        1 <= k <= split(s, c).len(),
    ensures
        ({
            let j = join(split(s, c).take(k), seq![c]);
            &&& j.len() <= s.len()
            &&& j == s.take(j.len() as int)
            &&& j.len() < s.len() ==> s[j.len() as int] == c
            &&& k < split(s, c).len() ==> j.len() < s.len()
        }),
    decreases s.len(),
{
    let p = split(s, c);
    if k == p.len() {
        assert(p.take(k) =~= p);
        lemma_join_split(s, c);
        assert(s.take(s.len() as int) =~= s);
    } else {
        let q = split(s.drop_last(), c);
        lemma_split_nonempty(s.drop_last(), c);
        if s.last() == c {
            assert(p.take(k) =~= q.take(k));
            if k == q.len() {
                assert(q.take(k) =~= q);
                lemma_join_split(s.drop_last(), c);
                assert(s.drop_last() =~= s.take(s.len() - 1));
            } else {
                lemma_split_prefix(s.drop_last(), c, k);
                let j = join(q.take(k), seq![c]);
                assert(s.drop_last().take(j.len() as int) =~= s.take(j.len() as int));
                assert(s.drop_last()[j.len() as int] == s[j.len() as int]);
            }
        } else {
            assert(p.take(k) =~= q.take(k));
            lemma_split_prefix(s.drop_last(), c, k);
            let j = join(q.take(k), seq![c]);
            assert(s.drop_last().take(j.len() as int) =~= s.take(j.len() as int));
            assert(s.drop_last()[j.len() as int] == s[j.len() as int]);
        }
    }
}

/// `rfind` finds nothing only when the character does not occur.
pub proof fn lemma_rfind_none(s: Seq<char>, c: char)
    requires
        rfind(s, c) is None,
    ensures
        forall|i: int| 0 <= i < s.len() ==> s[i] != c,
    decreases s.len(),
{
    if s.len() > 0 {
        lemma_rfind_none(s.drop_last(), c);
        assert forall|i: int| 0 <= i < s.len() implies s[i] != c by {
            if i < s.len() - 1 {
                assert(s[i] == s.drop_last()[i]);
            }
        }
    }
}

// ---------------------------------------------------------------------------
// Executable operations
// ---------------------------------------------------------------------------

/// Appends one character to a `String` (`String::push`).
#[verifier::external_body]
fn push_char(s: &mut String, c: char)
    ensures
        final(s)@ == old(s)@.push(c),
{
    s.push(c);
}

/// The characters of `s`, in order.
pub fn chars_of(s: &str) -> (r: Vec<char>)
    ensures
        r@ == s@,
{
    let mut r: Vec<char> = Vec::new();
    for c in it: s.chars()
        invariant
            r@ == it.seq().take(it.index() as int),
            it.seq() == s@,
    {
        r.push(c);
    }
    r
}

/// The string made of the characters of `v`, in order.
pub fn string_of(v: &[char]) -> (r: String)
    ensures
        r@ == v@,
{
    let mut r = String::new();
    let mut i: usize = 0;
    while i < v.len()
        invariant
            i <= v.len(),
            r@ == v@.take(i as int),
        decreases v.len() - i,
    {
        push_char(&mut r, v[i]);
        i = i + 1;
    }
    r
}

/// Whether `c` is whitespace.
pub fn is_whitespace(c: char) -> (r: bool)
    ensures
        r == is_ws(c),
{
    let u = c as u32;
    (0x09 <= u && u <= 0x0d) || u == 0x20 || u == 0x85 || u == 0xa0 || u == 0x1680 || (0x2000
        <= u && u <= 0x200a) || u == 0x2028 || u == 0x2029 || u == 0x202f || u == 0x205f || u
        == 0x3000
}

/// The characters `s[from..to]`.
pub fn slice_chars(s: &[char], from: usize, to: usize) -> (r: Vec<char>)
    requires
        from <= to <= s.len(),
    ensures
        r@ == s@.subrange(from as int, to as int),
{
    let mut r: Vec<char> = Vec::new();
    let mut k = from;
    while k < to
        invariant
            from <= k <= to <= s.len(),
            r@ == s@.subrange(from as int, k as int),
        decreases to - k,
    {
        r.push(s[k]);
        k = k + 1;
    }
    r
}

/// Appends the characters of `src` to `dst`.
pub fn append_chars(dst: &mut Vec<char>, src: &[char])
    ensures
        final(dst)@ == old(dst)@ + src@,
{
    let mut k: usize = 0;
    while k < src.len()
        invariant
            k <= src.len(),
            dst@ == old(dst)@ + src@.take(k as int),
        decreases src.len() - k,
    {
        dst.push(src[k]);
        k = k + 1;
    }
    assert(src@.take(src.len() as int) =~= src@);
}

/// `s` without leading and trailing whitespace.
pub fn trim_chars(s: &[char]) -> (r: Vec<char>)
    ensures
        r@ == trim(s@),
{
    let n = s.len();
    let mut i: usize = 0;
    assert(s@.skip(0) =~= s@);
    while i < n && is_whitespace(s[i])
        invariant
            i <= n == s.len(),
            trim_start(s@) == trim_start(s@.skip(i as int)),
        decreases n - i,
    {
        assert(s@.skip(i as int).drop_first() =~= s@.skip(i + 1));
        i = i + 1;
    }
    let mut j: usize = n;
    assert(s@.skip(i as int) =~= s@.subrange(i as int, n as int));
    while j > i && is_whitespace(s[j - 1])
        invariant
            i <= j <= n == s.len(),
            trim(s@) == trim_end(s@.subrange(i as int, j as int)),
        decreases j - i,
    {
        assert(s@.subrange(i as int, j as int).drop_last() =~= s@.subrange(i as int, j - 1));
        j = j - 1;
    }
    slice_chars(s, i, j)
}

/// `s` without any trailing copies of `c`.
pub fn trim_end_char_chars(s: &[char], c: char) -> (r: Vec<char>)
    ensures
        r@ == trim_end_char(s@, c),
{
    let mut j: usize = s.len();
    assert(s@.take(j as int) =~= s@);
    while j > 0 && s[j - 1] == c
        invariant
            j <= s.len(),
            trim_end_char(s@, c) == trim_end_char(s@.take(j as int), c),
        decreases j,
    {
        assert(s@.take(j as int).drop_last() =~= s@.take(j - 1));
        j = j - 1;
    }
    slice_chars(s, 0, j)
}

/// Whether `s` ends with `p` (compared on the first `len` characters of `s`).
fn ends_with_at(s: &[char], len: usize, p: &[char]) -> (r: bool)
    requires
        len <= s.len(),
    ensures
        r == has_suffix(s@.take(len as int), p@),
{
    if p.len() > len {
        return false;
    }
    let off = len - p.len();
    let mut k: usize = 0;
    while k < p.len()
        invariant
            off + p.len() == len <= s.len(),
            k <= p.len(),
            forall|m: int| 0 <= m < k ==> s@[off + m] == p@[m],
        decreases p.len() - k,
    {
        if s[off + k] != p[k] {
            assert(s@.take(len as int).skip(off as int)[k as int] == s@[off + k]);
            return false;
        }
        k = k + 1;
    }
    assert(s@.take(len as int).skip(off as int) =~= p@);
    true
}

/// Whether `a` and `b` hold the same characters.
pub fn chars_equal(a: &[char], b: &[char]) -> (r: bool)
    ensures
        r == (a@ == b@),
{
    if a.len() != b.len() {
        return false;
    }
    let mut k: usize = 0;
    while k < a.len()
        invariant
            a.len() == b.len(),
            k <= a.len(),
            forall|m: int| 0 <= m < k ==> a@[m] == b@[m],
        decreases a.len() - k,
    {
        if a[k] != b[k] {
            return false;
        }
        k = k + 1;
    }
    assert(a@ =~= b@);
    true
}

/// Whether `a` and `b` are the same text.
pub fn str_equal(a: &str, b: &str) -> (r: bool)
    ensures
        r == (a@ == b@),
{
    chars_equal(chars_of(a).as_slice(), chars_of(b).as_slice())
}

/// A copy of `s`.
pub fn copy_str(s: &str) -> (r: String)
    ensures
        r@ == s@,
{
    string_of(chars_of(s).as_slice())
}

/// The text of an optional string.
pub open spec fn opt_chars(o: Option<String>) -> Option<Seq<char>> {
    match o {
        Some(s) => Some(s@),
        None => None,
    }
}

/// Whether `s` begins with `p`.
pub fn starts_with_chars(s: &[char], p: &[char]) -> (r: bool)
    ensures
        r == has_prefix(s@, p@),
{
    if p.len() > s.len() {
        return false;
    }
    let mut k: usize = 0;
    while k < p.len()
        invariant
            p.len() <= s.len(),
            k <= p.len(),
            forall|m: int| 0 <= m < k ==> s@[m] == p@[m],
        decreases p.len() - k,
    {
        if s[k] != p[k] {
            assert(s@.take(p.len() as int)[k as int] == s@[k as int]);
            return false;
        }
        k = k + 1;
    }
    assert(s@.take(p.len() as int) =~= p@);
    true
}

/// `s` without any trailing copies of the non-empty pattern `p`.
pub fn trim_end_pattern_chars(s: &[char], p: &[char]) -> (r: Vec<char>)
    requires
        p.len() > 0,
    ensures
        r@ == trim_end_pattern(s@, p@),
{
    let mut j: usize = s.len();
    assert(s@.take(j as int) =~= s@);
    while ends_with_at(s, j, p)
        invariant
            j <= s.len(),
            p.len() > 0,
            trim_end_pattern(s@, p@) == trim_end_pattern(s@.take(j as int), p@),
        decreases j,
    {
        assert(s@.take(j as int).take(j - p.len()) =~= s@.take(j - p.len()));
        j = j - p.len();
    }
    slice_chars(s, 0, j)
}

/// The pieces of `s` between occurrences of `sep`.
pub fn split_chars(s: &[char], sep: char) -> (r: Vec<Vec<char>>)
    ensures
        views(r@) == split(s@, sep),
        r.len() >= 1,
{
    let mut r: Vec<Vec<char>> = Vec::new();
    r.push(Vec::new());
    assert(s@.take(0) =~= Seq::<char>::empty());
    assert(views(r@) =~= split(s@.take(0), sep));
    let mut i: usize = 0;
    while i < s.len()
        invariant
            i <= s.len(),
            r.len() >= 1,
            views(r@) == split(s@.take(i as int), sep),
        decreases s.len() - i,
    {
        let c = s[i];
        assert(s@.take(i + 1).drop_last() =~= s@.take(i as int));
        if c == sep {
            r.push(Vec::new());
            assert(views(r@) =~= split(s@.take(i + 1), sep));
        } else {
            let ghost before = views(r@);
            let mut last = r.pop().unwrap();
            last.push(c);
            r.push(last);
            assert(views(r@) =~= before.update(before.len() - 1, before.last().push(c)));
        }
        i = i + 1;
    }
    assert(s@.take(s.len() as int) =~= s@);
    r
}

/// The pieces of `parts` joined with `sep`.
pub fn join_chars(parts: &Vec<Vec<char>>, sep: &[char]) -> (r: Vec<char>)
    ensures
        r@ == join(views(parts@), sep@),
{
    let mut r: Vec<char> = Vec::new();
    let mut k: usize = 0;
    assert(views(parts@).take(0) =~= Seq::<Seq<char>>::empty());
    while k < parts.len()
        invariant
            k <= parts.len(),
            r@ == join(views(parts@).take(k as int), sep@),
        decreases parts.len() - k,
    {
        proof {
            lemma_join_push(views(parts@).take(k as int), sep@, parts@[k as int]@);
            assert(views(parts@).take(k as int).push(parts@[k as int]@) =~= views(parts@).take(
                k + 1,
            ));
        }
        if k > 0 {
            append_chars(&mut r, sep);
        }
        append_chars(&mut r, parts[k].as_slice());
        k = k + 1;
    }
    assert(views(parts@).take(parts.len() as int) =~= views(parts@));
    r
}

/// The words of `s` joined with single spaces
/// (`split_whitespace` followed by `join(" ")`).
pub fn collapse_whitespace(s: &[char]) -> (r: Vec<char>)
    ensures
        r@ == join(words(s@), seq![' ']),
{
    let mut r: Vec<char> = Vec::new();
    let mut nwords: usize = 0;
    let mut i: usize = 0;
    assert(s@.take(0) =~= Seq::<char>::empty());
    while i < s.len()
        invariant
            i <= s.len(),
            nwords as int == words(s@.take(i as int)).len(),
            nwords <= i,
            r@ == join(words(s@.take(i as int)), seq![' ']),
        decreases s.len() - i,
    {
        let c = s[i];
        let ghost pre = s@.take(i as int);
        let ghost w = words(pre);
        assert(s@.take(i + 1).drop_last() =~= pre);
        assert(s@.take(i + 1).last() == c);
        if is_whitespace(c) {
        } else if i > 0 && !is_whitespace(s[i - 1]) {
            proof {
                assert(s@.take(i + 1)[i - 1] == s@[i - 1]);
                assert(pre.last() == s@[i - 1]);
                lemma_words_nonempty(pre);
                lemma_join_extend_last(w, seq![' '], c);
            }
            r.push(c);
        } else {
            proof {
                if i > 0 {
                    assert(s@.take(i + 1)[i - 1] == s@[i - 1]);
                }
                lemma_join_push(w, seq![' '], seq![c]);
            }
            if nwords > 0 {
                r.push(' ');
            }
            r.push(c);
            nwords = nwords + 1;
            assert(r@ =~= join(words(s@.take(i + 1)), seq![' ']));
        }
        i = i + 1;
    }
    assert(s@.take(s.len() as int) =~= s@);
    r
}

/// The index of the last occurrence of `c` in `s`.
pub fn rfind_char(s: &[char], c: char) -> (r: Option<usize>)
    ensures
        match r {
            Some(k) => rfind(s@, c) == Some(k as int),
            None => rfind(s@, c) is None,
        },
{
    let mut j: usize = s.len();
    assert(s@.take(j as int) =~= s@);
    while j > 0
        invariant
            j <= s.len(),
            rfind(s@, c) == rfind(s@.take(j as int), c),
        decreases j,
    {
        if s[j - 1] == c {
            return Some(j - 1);
        }
        assert(s@.take(j as int).drop_last() =~= s@.take(j - 1));
        j = j - 1;
    }
    None
}

} // verus!
