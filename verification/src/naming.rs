//! Turning a raw model reply into a short, single-line conversation title.

use vstd::prelude::*;

use crate::text::{
    chars_of, collapse_whitespace, count_char, is_ws, join, join_chars, lemma_count_join,
    lemma_count_prefix, lemma_join_words_clean, lemma_rfind_in_range, lemma_rfind_none,
    lemma_split_nonempty, lemma_split_pieces, lemma_split_prefix, lemma_subrange_clean,
    lemma_trim_end_char_prefix, lemma_trim_fixed, lemma_trim_shape, lemma_trim_subrange,
    lemma_words_clean,
    no_double_space, only_plain_spaces, rfind, rfind_char, slice_chars, split, split_chars,
    string_of, trim, trim_chars, trim_end_char, trim_end_char_chars, views, words,
};

verus! {

/// System prompt for the on-device "quick" model when naming a conversation.
pub const NAMING_SYSTEM_PROMPT: &'static str = "You name chat conversations. Given the user's first message, reply with a short title of 2 to 5 words that captures the topic. Reply with ONLY the title: no quotes, no punctuation at the end, no preamble, no explanation.";

/// Most words a title keeps.
pub const MAX_TITLE_WORDS: usize = 6;

/// Most characters a title keeps.
pub const MAX_TITLE_CHARS: usize = 48;

/// The trimmed text of the first line whose trim is not empty.
pub open spec fn first_nonblank(lines: Seq<Seq<char>>) -> Option<Seq<char>>
    decreases lines.len(),
{
    if lines.len() == 0 {
        None
    } else if trim(lines[0]).len() > 0 {
        Some(trim(lines[0]))
    } else {
        first_nonblank(lines.drop_first())
    }
}

/// Whether `s` is wrapped in a matching pair of straight double quotes,
/// straight single quotes, or curly double quotes.
pub open spec fn is_quoted(s: Seq<char>) -> bool {
    s.len() >= 2 && ((s[0] == '"' && s.last() == '"') || (s[0] == '\'' && s.last() == '\'') || (
    s[0] == '\u{201c}' && s.last() == '\u{201d}'))
}

/// Repeatedly removes one pair of surrounding quotes and trims what is inside.
pub open spec fn strip_quotes(s: Seq<char>) -> Seq<char>
    decreases s.len(),
{
    if is_quoted(s) {
        proof {
            lemma_trim_shape(s.subrange(1, s.len() - 1));
        }
        strip_quotes(trim(s.subrange(1, s.len() - 1)))
    } else {
        s
    }
}

/// The first `MAX_TITLE_WORDS` space-separated pieces of `s`, joined by spaces.
pub open spec fn cap_words(s: Seq<char>) -> Seq<char> {
    let parts = split(s, ' ');
    let kept = if parts.len() > MAX_TITLE_WORDS { parts.take(MAX_TITLE_WORDS as int) } else { parts };
    join(kept, seq![' '])
}

/// `s` cut to `MAX_TITLE_CHARS` characters, breaking before the last space of
/// the cut when there is one.
pub open spec fn cap_chars(s: Seq<char>) -> Seq<char> {
    if s.len() > MAX_TITLE_CHARS {
        let cut = s.take(MAX_TITLE_CHARS as int);
        match rfind(cut, ' ') {
            Some(k) => cut.take(k),
            None => cut,
        }
    } else {
        s
    }
}

/// The cleaned title of a raw reply: first non-blank line, quotes stripped,
/// whitespace collapsed, trailing periods dropped, at most six words and 48
/// characters; `None` when nothing is left.
pub open spec fn spec_clean_title(raw: Seq<char>) -> Option<Seq<char>> {
    match first_nonblank(split(raw, '\n')) {
        None => None,
        Some(line) => {
            let collapsed = join(words(strip_quotes(line)), seq![' ']);
            let trimmed = trim(trim_end_char(collapsed, '.'));
            if trimmed.len() == 0 {
                None
            } else {
                let out = cap_chars(cap_words(trimmed));
                if out.len() == 0 {
                    None
                } else {
                    Some(out)
                }
            }
        }
    }
}

/// Whether `t` is a short, single-line label: between one and
/// `MAX_TITLE_CHARS` characters, no whitespace but plain spaces (so no line
/// break), never two spaces in a row, no whitespace at either end, and at
/// most `MAX_TITLE_WORDS` words.
pub open spec fn is_short_label(t: Seq<char>) -> bool {
    &&& 1 <= t.len() <= MAX_TITLE_CHARS
    &&& only_plain_spaces(t)
    &&& no_double_space(t)
    &&& !is_ws(t[0])
    &&& !is_ws(t.last())
    &&& count_char(t, ' ') < MAX_TITLE_WORDS
}

/// Clean, single-spaced text with no whitespace at its ends.
spec fn tidy(t: Seq<char>) -> bool {
    &&& only_plain_spaces(t)
    &&& no_double_space(t)
    &&& t.len() > 0
    &&& !is_ws(t[0])
    &&& !is_ws(t.last())
}

proof fn lemma_cap_words_tidy(s: Seq<char>)
    requires
        tidy(s),
    ensures
        tidy(cap_words(s)),
        cap_words(s).len() <= s.len(),
        cap_words(s) == s.take(cap_words(s).len() as int),
        count_char(cap_words(s), ' ') < MAX_TITLE_WORDS,
{
    let parts = split(s, ' ');
    lemma_split_nonempty(s, ' ');
    let k: int = if parts.len() > MAX_TITLE_WORDS { MAX_TITLE_WORDS as int } else { parts.len() as int };
    let kept = parts.take(k);
    if parts.len() <= MAX_TITLE_WORDS {
        assert(kept =~= parts);
    }
    assert(cap_words(s) == join(kept, seq![' ']));
    lemma_split_prefix(s, ' ', k);
    let j = cap_words(s);
    let m = j.len() as int;
    lemma_split_pieces(s, ' ');
    assert forall|i: int| 0 <= i < kept.len() implies count_char(#[trigger] kept[i], ' ') == 0 by {
        assert(kept[i] == parts[i]);
    }
    lemma_count_join(kept, ' ');
    assert(j =~= s.subrange(0, m));
    lemma_subrange_clean(s, 0, m);
    if m < s.len() {
        assert(s[m] == ' ');
        assert(m != 0);
        assert(j.last() == s[m - 1]);
        assert(s[m - 1] != ' ');
        assert(j[0] == s[0]);
    }
}

proof fn lemma_cap_chars_label(s: Seq<char>)
    requires
        tidy(s),
        count_char(s, ' ') < MAX_TITLE_WORDS,
    ensures
        is_short_label(cap_chars(s)),
{
    if s.len() > MAX_TITLE_CHARS {
        let cut = s.take(MAX_TITLE_CHARS as int);
        assert(cut =~= s.subrange(0, MAX_TITLE_CHARS as int));
        lemma_subrange_clean(s, 0, MAX_TITLE_CHARS as int);
        lemma_count_prefix(s, MAX_TITLE_CHARS as int, ' ');
        assert(cut[0] == s[0]);
        match rfind(cut, ' ') {
            Some(k) => {
                lemma_rfind_in_range(cut, ' ');
                assert(k != 0);
                let out = cut.take(k);
                assert(out =~= cut.subrange(0, k));
                lemma_subrange_clean(cut, 0, k);
                lemma_count_prefix(cut, k, ' ');
                assert(out.last() == cut[k - 1]);
                assert(out[0] == cut[0]);
            },
            None => {
                lemma_rfind_none(cut, ' ');
                assert(cut.last() == cut[cut.len() - 1]);
            },
        }
    }
}

/// A cleaned title is always a short, single-line label.
pub proof fn law_clean_title_is_short_label(raw: Seq<char>)
    ensures
        spec_clean_title(raw) matches Some(t) ==> is_short_label(t),
{
    match first_nonblank(split(raw, '\n')) {
        None => {},
        Some(line) => {
            let x = strip_quotes(line);
            lemma_words_clean(x);
            lemma_join_words_clean(words(x));
            let collapsed = join(words(x), seq![' ']);
            let u = trim_end_char(collapsed, '.');
            lemma_trim_end_char_prefix(collapsed, '.');
            assert(u =~= collapsed.subrange(0, u.len() as int));
            lemma_subrange_clean(collapsed, 0, u.len() as int);
            let trimmed = trim(u);
            lemma_trim_subrange(u);
            let (a, b) = choose|a: int, b: int| 0 <= a <= b <= u.len() && trim(u) == u.subrange(a, b);
            lemma_subrange_clean(u, a, b);
            lemma_trim_shape(u);
            if trimmed.len() > 0 {
                lemma_cap_words_tidy(trimmed);
                lemma_cap_chars_label(cap_words(trimmed));
            }
        },
    }
}

fn first_nonblank_line(lines: &Vec<Vec<char>>) -> (r: Option<Vec<char>>)
    ensures
        match r {
            Some(l) => first_nonblank(views(lines@)) == Some(l@),
            None => first_nonblank(views(lines@)) is None,
        },
{
    let mut k: usize = 0;
    assert(views(lines@).skip(0) =~= views(lines@));
    while k < lines.len()
        invariant
            k <= lines.len(),
            first_nonblank(views(lines@)) == first_nonblank(views(lines@).skip(k as int)),
        decreases lines.len() - k,
    {
        let t = trim_chars(lines[k].as_slice());
        assert(views(lines@).skip(k as int)[0] == lines@[k as int]@);
        if t.len() > 0 {
            return Some(t);
        }
        assert(views(lines@).skip(k as int).drop_first() =~= views(lines@).skip(k + 1));
        k = k + 1;
    }
    None
}

fn strip_quote_pairs(s: Vec<char>) -> (r: Vec<char>)
    ensures
        r@ == strip_quotes(s@),
{
    let ghost given = s@;
    let mut s = s;
    while s.len() >= 2 && ((s[0] == '"' && s[s.len() - 1] == '"') || (s[0] == '\''
        && s[s.len() - 1] == '\'') || (s[0] == '\u{201c}' && s[s.len() - 1] == '\u{201d}'))
        invariant
            strip_quotes(s@) == strip_quotes(given),
        decreases s.len(),
    {
        let inner = slice_chars(s.as_slice(), 1, s.len() - 1);
        proof {
            lemma_trim_shape(inner@);
        }
        s = trim_chars(inner.as_slice());
    }
    s
}

fn cap_word_count(s: &[char]) -> (r: Vec<char>)
    ensures
        r@ == cap_words(s@),
{
    let mut parts = split_chars(s, ' ');
    let ghost all = views(parts@);
    if parts.len() > MAX_TITLE_WORDS {
        parts.truncate(MAX_TITLE_WORDS);
        assert(views(parts@) =~= all.take(MAX_TITLE_WORDS as int));
    }
    let sep: Vec<char> = vec![' '];
    assert(sep@ =~= seq![' ']);
    join_chars(&parts, sep.as_slice())
}

fn cap_char_count(s: Vec<char>) -> (r: Vec<char>)
    ensures
        r@ == cap_chars(s@),
{
    if s.len() > MAX_TITLE_CHARS {
        let cut = slice_chars(s.as_slice(), 0, MAX_TITLE_CHARS);
        assert(cut@ =~= s@.take(MAX_TITLE_CHARS as int));
        match rfind_char(cut.as_slice(), ' ') {
            Some(k) => {
                proof {
                    lemma_rfind_in_range(cut@, ' ');
                }
                let head = slice_chars(cut.as_slice(), 0, k);
                assert(head@ =~= cut@.take(k as int));
                head
            },
            None => cut,
        }
    } else {
        s
    }
}

/// Clean a raw model title into a short, single-line label.
/// Returns `None` when nothing usable remains (the caller then leaves the
/// title as it is).
pub fn clean_title(raw: &str) -> (r: Option<String>)
    ensures
        match r {
            Some(t) => spec_clean_title(raw@) == Some(t@),
            None => spec_clean_title(raw@) is None,
        },
{
    let chars = chars_of(raw);
    let lines = split_chars(chars.as_slice(), '\n');
    let line = match first_nonblank_line(&lines) {
        Some(l) => l,
        None => return None,
    };
    let stripped = strip_quote_pairs(line);
    let collapsed = collapse_whitespace(stripped.as_slice());
    let undotted = trim_end_char_chars(collapsed.as_slice(), '.');
    let trimmed = trim_chars(undotted.as_slice());
    if trimmed.len() == 0 {
        return None;
    }
    let words_capped = cap_word_count(trimmed.as_slice());
    let out = cap_char_count(words_capped);
    if out.len() == 0 {
        None
    } else {
        Some(string_of(out.as_slice()))
    }
}

proof fn lemma_count_zero_absent(s: Seq<char>, c: char)
    requires
        count_char(s, c) == 0,
    ensures
        forall|i: int| 0 <= i < s.len() ==> s[i] != c,
    decreases s.len(),
{
    if s.len() > 0 {
        lemma_count_zero_absent(s.drop_last(), c);
        assert forall|i: int| 0 <= i < s.len() implies s[i] != c by {
            if i < s.len() - 1 {
                assert(s[i] == s.drop_last()[i]);
            }
        }
    }
}

proof fn lemma_split_without_sep(s: Seq<char>, c: char)
    requires
        forall|i: int| 0 <= i < s.len() ==> s[i] != c,
    ensures
        split(s, c) == seq![s],
    decreases s.len(),
{
    if s.len() > 0 {
        assert forall|i: int| 0 <= i < s.drop_last().len() implies s.drop_last()[i] != c by {
            assert(s.drop_last()[i] == s[i]);
        }
        lemma_split_without_sep(s.drop_last(), c);
        assert(s.last() == s[s.len() - 1]);
        let p = split(s.drop_last(), c);
        assert(p.last() == s.drop_last());
        assert(s.drop_last().push(s.last()) =~= s);
        assert(split(s, c) =~= seq![s]);
    } else {
        assert(s =~= Seq::<char>::empty());
    }
}

/// The first non-blank line is a non-empty trimmed line that holds no line
/// break.
proof fn lemma_first_nonblank_shape(lines: Seq<Seq<char>>)
    requires
        forall|k: int| 0 <= k < lines.len() ==> count_char(#[trigger] lines[k], '\n') == 0,
    ensures
        first_nonblank(lines) matches Some(l) ==> l.len() > 0 && !is_ws(l[0]) && !is_ws(l.last())
            && forall|i: int| 0 <= i < l.len() ==> l[i] != '\n',
    decreases lines.len(),
{
    if lines.len() > 0 {
        let line = lines[0];
        if trim(line).len() > 0 {
            lemma_trim_shape(line);
            lemma_count_zero_absent(line, '\n');
            lemma_trim_subrange(line);
            let (a, b) = choose|a: int, b: int|
                0 <= a <= b <= line.len() && trim(line) == line.subrange(a, b);
            assert forall|i: int| 0 <= i < trim(line).len() implies trim(line)[i] != '\n' by {
                assert(trim(line)[i] == line[a + i]);
            }
        } else {
            assert forall|k: int| 0 <= k < lines.drop_first().len() implies count_char(
                #[trigger] lines.drop_first()[k],
                '\n',
            ) == 0 by {
                assert(lines.drop_first()[k] == lines[k + 1]);
            }
            lemma_first_nonblank_shape(lines.drop_first());
        }
    }
}

/// Only the first non-blank line of a reply matters: the title of the reply
/// is the title of that line alone, and there is none when every line is
/// blank.
pub proof fn law_clean_title_reads_first_nonblank_line(raw: Seq<char>)
    ensures
        spec_clean_title(raw) == (match first_nonblank(split(raw, '\n')) {
            None => None,
            Some(line) => spec_clean_title(line),
        }),
{
    lemma_split_pieces(raw, '\n');
    lemma_first_nonblank_shape(split(raw, '\n'));
    match first_nonblank(split(raw, '\n')) {
        None => {},
        Some(l) => {
            lemma_split_without_sep(l, '\n');
            lemma_trim_fixed(l);
            let one = split(l, '\n');
            assert(one[0] == l);
            assert(first_nonblank(one) == Some(l));
        },
    }
}

proof fn lemma_split_after_break(a: Seq<char>, b: Seq<char>)
    ensures
        split(a + seq!['\n'] + b, '\n') == split(a, '\n') + split(b, '\n'),
    decreases b.len(),
{
    let s = a + seq!['\n'] + b;
    if b.len() == 0 {
        assert(s.drop_last() =~= a);
        assert(split(s, '\n') =~= split(a, '\n') + split(b, '\n'));
    } else {
        assert(s.drop_last() =~= a + seq!['\n'] + b.drop_last());
        lemma_split_after_break(a, b.drop_last());
        lemma_split_nonempty(b.drop_last(), '\n');
        assert(s.last() == b.last());
        assert(split(s, '\n') =~= split(a, '\n') + split(b, '\n'));
    }
}

proof fn lemma_first_nonblank_prefix(p: Seq<Seq<char>>, q: Seq<Seq<char>>)
    requires
        first_nonblank(p) is Some,
    ensures
        first_nonblank(p + q) == first_nonblank(p),
    decreases p.len(),
{
    assert((p + q)[0] == p[0]);
    if trim(p[0]).len() == 0 {
        assert((p + q).drop_first() =~= p.drop_first() + q);
        lemma_first_nonblank_prefix(p.drop_first(), q);
    }
}

/// Lines after the first non-blank one never change the title: whatever
/// follows a line break after text that has a non-blank line, the title is
/// that of the text before it.
pub proof fn law_clean_title_ignores_later_lines(a: Seq<char>, b: Seq<char>)
    requires
        first_nonblank(split(a, '\n')) is Some,
    ensures
        spec_clean_title(a + seq!['\n'] + b) == spec_clean_title(a),
{
    lemma_split_after_break(a, b);
    lemma_first_nonblank_prefix(split(a, '\n'), split(b, '\n'));
}

} // verus!
