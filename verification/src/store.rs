//! Rows of the local store and of the sync wire format.

use vstd::prelude::*;

use crate::sync::DIGITS;
use crate::text::{append_chars, chars_of, string_of};

verus! {

/// A conversation as the UI lists it.
#[derive(Clone, Debug, PartialEq, Eq)]
pub struct Conversation {
    pub id: String,
    pub title: String,
    pub created_at: String,
    pub updated_at: String,
}

/// A stored message, with the tier and model that served it.
#[derive(Clone, Debug, PartialEq, Eq)]
pub struct Message {
    pub id: String,
    pub conversation_id: String,
    pub role: String,
    pub content: String,
    pub created_at: String,
    pub tier: Option<String>,
    pub served_model: Option<String>,
}

/// A conversation row as it is pushed and pulled.
#[derive(Clone, Debug, PartialEq, Eq)]
pub struct ConvRow {
    pub id: String,
    pub user_id: String,
    pub title: Option<String>,
    pub created_at: String,
    pub updated_at: String,
    /// The soft-delete tombstone: when the conversation was deleted, if it was.
    pub deleted_at: Option<String>,
}

/// A message row as it is pushed and pulled.
#[derive(Clone, Debug, PartialEq, Eq)]
pub struct MsgRow {
    pub id: String,
    pub conversation_id: String,
    pub role: String,
    pub content: String,
    pub model: Option<String>,
    pub created_at: String,
}

/// A distilled memory row.
#[derive(Clone, Debug, PartialEq, Eq)]
pub struct MemRow {
    pub id: String,
    pub user_id: String,
    pub text: String,
    pub source_conversation: Option<String>,
    pub updated_at: String,
}

/// A local profile with its device and sync cursor.
#[derive(Clone, Debug, PartialEq, Eq)]
pub struct User {
    pub user_id: String,
    pub device_id: String,
    pub display_name: String,
    pub profile: String,
    pub cursor: String,
}

/// `n` placeholders `?` separated by commas.
pub open spec fn placeholders(n: nat) -> Seq<char>
    decreases n,
{
    if n == 0 {
        Seq::empty()
    } else if n == 1 {
        seq!['?']
    } else {
        placeholders((n - 1) as nat) + seq![',', '?']
    }
}

/// The statement that clears the push flag of `n` rows of `table`, by id.
pub open spec fn spec_mark_pushed_sql(table: Seq<char>, n: nat) -> Seq<char> {
    "UPDATE "@ + table + " SET pending_push = 0 WHERE id IN ("@ + placeholders(n) + ")"@
}

/// The statement that clears the push flag of `n` rows of `table`, with one
/// bound `?` per id.
pub fn mark_pushed_sql(table: &str, n: usize) -> (r: String)
    requires
        n > 0,
    ensures
        r@ == spec_mark_pushed_sql(table@, n as nat),
{
    let mut marks: Vec<char> = Vec::new();
    marks.push('?');
    let mut k: usize = 1;
    while k < n
        invariant
            1 <= k <= n,
            marks@ == placeholders(k as nat),
        decreases n - k,
    {
        marks.push(',');
        marks.push('?');
        k = k + 1;
        assert(marks@ =~= placeholders(k as nat));
    }
    let mut out = chars_of("UPDATE ");
    append_chars(&mut out, chars_of(table).as_slice());
    append_chars(&mut out, chars_of(" SET pending_push = 0 WHERE id IN (").as_slice());
    append_chars(&mut out, marks.as_slice());
    append_chars(&mut out, chars_of(")").as_slice());
    string_of(out.as_slice())
}

/// The last `width` decimal digits of `n`, zero-padded on the left.
pub open spec fn padded(n: nat, width: nat) -> Seq<char>
    decreases width,
{
    if width == 0 {
        Seq::empty()
    } else {
        padded(n / 10, (width - 1) as nat).push(DIGITS@[(n % 10) as int])
    }
}

/// Ten to the power `w`.
pub open spec fn pow10(w: nat) -> nat
    decreases w,
{
    if w == 0 {
        1
    } else {
        10 * pow10((w - 1) as nat)
    }
}

/// Whether the fields name a UTC time of day on a calendar date with a
/// four-digit year (a leap second is second 60).
pub open spec fn valid_stamp(
    year: u32,
    month: u32,
    day: u32,
    hour: u32,
    minute: u32,
    second: u32,
    millis: u32,
) -> bool {
    &&& year <= 9999
    &&& 1 <= month <= 12
    &&& 1 <= day <= 31
    &&& hour < 24
    &&& minute < 60
    &&& second < 61
    &&& millis < 1000
}

/// The contract timestamp `YYYY-MM-DDTHH:MM:SS.mmmZ`: ISO-8601 UTC with
/// millisecond precision, every field zero-padded to its width.
pub open spec fn spec_iso_millis(
    year: u32,
    month: u32,
    day: u32,
    hour: u32,
    minute: u32,
    second: u32,
    millis: u32,
) -> Seq<char> {
    padded(year as nat, 4) + seq!['-'] + padded(month as nat, 2) + seq!['-'] + padded(day as nat, 2)
        + seq!['T'] + padded(hour as nat, 2) + seq![':'] + padded(minute as nat, 2) + seq![':']
        + padded(second as nat, 2) + seq!['.'] + padded(millis as nat, 3) + seq!['Z']
}

fn push_padded(out: &mut Vec<char>, n: u32, width: u32)
    ensures
        final(out)@ == old(out)@ + padded(n as nat, width as nat),
    decreases width,
{
    if width > 0 {
        push_padded(out, n / 10, width - 1);
        out.push(DIGITS[(n % 10) as usize]);
        assert(padded(n as nat, width as nat) =~= padded((n / 10) as nat, (width - 1) as nat).push(
            DIGITS@[(n % 10) as int],
        ));
    } else {
        assert(old(out)@ + padded(n as nat, 0) =~= old(out)@);
    }
}

/// The contract timestamp of a UTC date and time given by its fields, for
/// example `2026-06-06T14:03:21.118Z`.
pub fn iso_millis(
    year: u32,
    month: u32,
    day: u32,
    hour: u32,
    minute: u32,
    second: u32,
    millis: u32,
) -> (r: String)
    requires
        valid_stamp(year, month, day, hour, minute, second, millis),
    ensures
        r@ == spec_iso_millis(year, month, day, hour, minute, second, millis),
{
    let mut out: Vec<char> = Vec::new();
    push_padded(&mut out, year, 4);
    out.push('-');
    push_padded(&mut out, month, 2);
    out.push('-');
    push_padded(&mut out, day, 2);
    out.push('T');
    push_padded(&mut out, hour, 2);
    out.push(':');
    push_padded(&mut out, minute, 2);
    out.push(':');
    push_padded(&mut out, second, 2);
    out.push('.');
    push_padded(&mut out, millis, 3);
    out.push('Z');
    assert(out@ =~= spec_iso_millis(year, month, day, hour, minute, second, millis));
    string_of(out.as_slice())
}

/// The width of field `k` of a timestamp: four digits for the year, three
/// for the milliseconds, two for every other field.
pub open spec fn stamp_width(k: int) -> nat {
    if k == 0 {
        4
    } else if k == 6 {
        3
    } else {
        2
    }
}

/// The character that follows field `k` of a timestamp.
pub open spec fn stamp_sep(k: int) -> char {
    if k == 0 || k == 1 {
        '-'
    } else if k == 2 {
        'T'
    } else if k == 3 || k == 4 {
        ':'
    } else if k == 5 {
        '.'
    } else {
        'Z'
    }
}

/// The first `n` fields of a timestamp written out, each with the character
/// that follows it.
pub open spec fn render_fields(f: Seq<int>, n: nat) -> Seq<char>
    decreases n,
{
    if n == 0 {
        Seq::empty()
    } else {
        render_fields(f, (n - 1) as nat) + padded(f[n - 1] as nat, stamp_width(n - 1)) + seq![
            stamp_sep(n - 1),
        ]
    }
}

/// The fields of a timestamp, most significant first.
pub open spec fn stamp_fields(
    year: u32,
    month: u32,
    day: u32,
    hour: u32,
    minute: u32,
    second: u32,
    millis: u32,
) -> Seq<int> {
    seq![year as int, month as int, day as int, hour as int, minute as int, second as int, millis as int]
}

/// `a` and `b` agree before position `i` and `a` is smaller there.
pub open spec fn fields_differ_first_at(a: Seq<int>, b: Seq<int>, i: int) -> bool {
    0 <= i < a.len() && i < b.len() && a.take(i) == b.take(i) && a[i] < b[i]
}

/// Whether the fields `a` name an earlier time than the fields `b`: the
/// first field in which they differ is smaller in `a`.
pub open spec fn fields_before(a: Seq<int>, b: Seq<int>) -> bool {
    exists|i: int| #[trigger] fields_differ_first_at(a, b, i)
}

/// `a` and `b` agree before position `i` and `a` has the smaller character
/// there.
pub open spec fn text_differs_first_at(a: Seq<char>, b: Seq<char>, i: int) -> bool {
    0 <= i < a.len() && i < b.len() && a.take(i) == b.take(i) && (a[i] as u32) < (b[i] as u32)
}

/// Lexical order of strings, as `str` compares them: `a` comes first when
/// it has the smaller character at the first difference, or is a proper
/// prefix of `b`.
pub open spec fn text_before(a: Seq<char>, b: Seq<char>) -> bool {
    (exists|i: int| #[trigger] text_differs_first_at(a, b, i)) || (a.len() < b.len() && b.take(
        a.len() as int,
    ) == a)
}

proof fn lemma_padded_len(n: nat, w: nat)
    ensures
        padded(n, w).len() == w,
    decreases w,
{
    if w > 0 {
        lemma_padded_len(n / 10, (w - 1) as nat);
    }
}

proof fn lemma_digits_ascend()
    ensures
        forall|a: int, b: int|
            0 <= a < b < 10 ==> (#[trigger] DIGITS@[a] as u32) < (#[trigger] DIGITS@[b] as u32),
{
    assert(DIGITS@ =~= seq!['0', '1', '2', '3', '4', '5', '6', '7', '8', '9']);
}

/// Of two numbers below `10^w`, the smaller has the lexically smaller
/// `w`-digit form.
proof fn lemma_padded_before(x: nat, y: nat, w: nat)
    requires
        x < y < pow10(w),
    ensures
        exists|i: int| #[trigger] text_differs_first_at(padded(x, w), padded(y, w), i),
    decreases w,
{
    if w == 0 {
        assert(pow10(0) == 1);
    } else {
        let v = (w - 1) as nat;
        lemma_padded_len(x / 10, v);
        lemma_padded_len(y / 10, v);
        lemma_digits_ascend();
        let px = padded(x / 10, v);
        let py = padded(y / 10, v);
        assert(pow10(w) == 10 * pow10(v));
        if x / 10 < y / 10 {
            assert(y / 10 < pow10(v)) by (nonlinear_arith)
                requires
                    y < 10 * pow10(v),
            ;
            lemma_padded_before(x / 10, y / 10, v);
            let i = choose|i: int| #[trigger] text_differs_first_at(px, py, i);
            assert(padded(x, w).take(i) =~= px.take(i));
            assert(padded(y, w).take(i) =~= py.take(i));
            assert(text_differs_first_at(padded(x, w), padded(y, w), i));
        } else {
            assert(x / 10 == y / 10 && x % 10 < y % 10) by (nonlinear_arith)
                requires
                    x < y,
                    x / 10 >= y / 10,
            ;
            assert(padded(x, w).take(v as int) =~= px);
            assert(padded(y, w).take(v as int) =~= py);
            assert(text_differs_first_at(padded(x, w), padded(y, w), v as int));
        }
    }
}

/// A first difference inside a block stays the first difference when a
/// common prefix is put before the block and anything after it.
proof fn lemma_block_before(p: Seq<char>, x: Seq<char>, y: Seq<char>, s: Seq<char>, t: Seq<char>, i: int)
    requires
        text_differs_first_at(x, y, i),
    ensures
        text_differs_first_at(p + x + s, p + y + t, p.len() + i),
{
    assert((p + x + s).take(p.len() + i) =~= p + x.take(i));
    assert((p + y + t).take(p.len() + i) =~= p + y.take(i));
}

proof fn lemma_render_len(f: Seq<int>, n: nat)
    requires
        n <= 7,
    ensures
        render_fields(f, n).len() == (if n == 0 {
            0
        } else if n <= 6 {
            3 * n + 2
        } else {
            24
        }),
    decreases n,
{
    if n > 0 {
        lemma_render_len(f, (n - 1) as nat);
        lemma_padded_len(f[n - 1] as nat, stamp_width(n - 1));
    }
}

proof fn lemma_render_same_prefix(f: Seq<int>, g: Seq<int>, n: nat)
    requires
        n <= f.len(),
        n <= g.len(),
        f.take(n as int) == g.take(n as int),
    ensures
        render_fields(f, n) == render_fields(g, n),
    decreases n,
{
    if n > 0 {
        assert(f[n - 1] == f.take(n as int)[n - 1]);
        assert(g[n - 1] == g.take(n as int)[n - 1]);
        assert(f.take(n - 1) =~= f.take(n as int).take(n - 1));
        assert(g.take(n - 1) =~= g.take(n as int).take(n - 1));
        lemma_render_same_prefix(f, g, (n - 1) as nat);
    }
}

/// Fields of valid timestamps that differ first at `i` give texts that
/// differ first inside field `i`, the earlier text having the smaller
/// character.
proof fn lemma_render_before(f: Seq<int>, g: Seq<int>, i: int, n: nat)
    requires
        f.len() == 7,
        g.len() == 7,
        fields_differ_first_at(f, g, i),
        i < n <= 7,
        forall|k: int| 0 <= k < 7 ==> 0 <= #[trigger] f[k] < pow10(stamp_width(k)),
        forall|k: int| 0 <= k < 7 ==> 0 <= #[trigger] g[k] < pow10(stamp_width(k)),
    ensures
        exists|j: int| #[trigger] text_differs_first_at(render_fields(f, n), render_fields(g, n), j),
    decreases n,
{
    let m = (n - 1) as nat;
    if n == i + 1 {
        lemma_render_same_prefix(f, g, m);
        assert(0 <= f[i] < g[i] < pow10(stamp_width(i)));
        lemma_padded_before(f[i] as nat, g[i] as nat, stamp_width(i));
        let x = padded(f[i] as nat, stamp_width(i));
        let y = padded(g[i] as nat, stamp_width(i));
        let k = choose|k: int| #[trigger] text_differs_first_at(x, y, k);
        let p = render_fields(f, m);
        lemma_block_before(p, x, y, seq![stamp_sep(i)], seq![stamp_sep(i)], k);
        assert(text_differs_first_at(render_fields(f, n), render_fields(g, n), p.len() + k));
    } else {
        lemma_render_before(f, g, i, m);
        let j = choose|j: int| #[trigger] text_differs_first_at(render_fields(f, m), render_fields(g, m), j);
        let a = render_fields(f, m);
        let b = render_fields(g, m);
        let s = padded(f[m as int] as nat, stamp_width(m as int)) + seq![stamp_sep(m as int)];
        let t = padded(g[m as int] as nat, stamp_width(m as int)) + seq![stamp_sep(m as int)];
        lemma_block_before(Seq::empty(), a, b, s, t, j);
        assert(Seq::<char>::empty() + a + s =~= render_fields(f, n));
        assert(Seq::<char>::empty() + b + t =~= render_fields(g, n));
    }
}

proof fn lemma_iso_is_render(
    year: u32,
    month: u32,
    day: u32,
    hour: u32,
    minute: u32,
    second: u32,
    millis: u32,
)
    ensures
        spec_iso_millis(year, month, day, hour, minute, second, millis) == render_fields(
            stamp_fields(year, month, day, hour, minute, second, millis),
            7,
        ),
{
    let f = stamp_fields(year, month, day, hour, minute, second, millis);
    reveal_with_fuel(render_fields, 8);
    assert(spec_iso_millis(year, month, day, hour, minute, second, millis) =~= render_fields(f, 7));
}

proof fn lemma_valid_bounds(
    year: u32,
    month: u32,
    day: u32,
    hour: u32,
    minute: u32,
    second: u32,
    millis: u32,
)
    requires
        valid_stamp(year, month, day, hour, minute, second, millis),
    ensures
        forall|k: int|
            0 <= k < 7 ==> 0 <= #[trigger] stamp_fields(
                year,
                month,
                day,
                hour,
                minute,
                second,
                millis,
            )[k] < pow10(stamp_width(k)),
{
    reveal_with_fuel(pow10, 5);
    assert(pow10(2) == 100);
    assert(pow10(3) == 1000);
    assert(pow10(4) == 10000);
}

/// Lexical order is asymmetric on strings of one length.
proof fn lemma_text_asymmetric(a: Seq<char>, b: Seq<char>)
    requires
        a.len() == b.len(),
        text_before(a, b),
    ensures
        !text_before(b, a),
        a != b,
{
    let i = choose|i: int| #[trigger] text_differs_first_at(a, b, i);
    if text_before(b, a) {
        let j = choose|j: int| #[trigger] text_differs_first_at(b, a, j);
        if i < j {
            assert(a.take(j)[i] == b.take(j)[i]);
        } else if j < i {
            assert(a.take(i)[j] == b.take(i)[j]);
        }
    }
}

/// Two different field lists of one length differ first somewhere, one way
/// or the other.
proof fn lemma_fields_trichotomy(f: Seq<int>, g: Seq<int>)
    requires
        f.len() == g.len(),
        f != g,
    ensures
        fields_before(f, g) || fields_before(g, f),
{
    if forall|k: int| 0 <= k < f.len() ==> f[k] == g[k] {
        assert(f =~= g);
    }
    let d = choose|k: int| 0 <= k < f.len() && f[k] != g[k];
    let i = lemma_first_difference(f, g, d);
    assert(f.take(i) =~= g.take(i));
    if f[i] < g[i] {
        assert(fields_differ_first_at(f, g, i));
    } else {
        assert(fields_differ_first_at(g, f, i));
    }
}

proof fn lemma_first_difference(f: Seq<int>, g: Seq<int>, d: int) -> (i: int)
    requires
        f.len() == g.len(),
        0 <= d < f.len(),
        f[d] != g[d],
    ensures
        0 <= i <= d,
        f[i] != g[i],
        forall|k: int| 0 <= k < i ==> f[k] == g[k],
    decreases d,
{
    if exists|k: int| 0 <= k < d && f[k] != g[k] {
        let k = choose|k: int| 0 <= k < d && f[k] != g[k];
        lemma_first_difference(f, g, k)
    } else {
        d
    }
}

/// Contract timestamps sort as text in the order of the times they name:
/// of two valid field sets, the text of the one that names the earlier time
/// comes first, and two texts are equal only where all fields are.
pub proof fn law_iso_millis_sorts_by_time(
    year1: u32,
    month1: u32,
    day1: u32,
    hour1: u32,
    minute1: u32,
    second1: u32,
    millis1: u32,
    year2: u32,
    month2: u32,
    day2: u32,
    hour2: u32,
    minute2: u32,
    second2: u32,
    millis2: u32,
)
    requires
        valid_stamp(year1, month1, day1, hour1, minute1, second1, millis1),
        valid_stamp(year2, month2, day2, hour2, minute2, second2, millis2),
    ensures
        text_before(
            spec_iso_millis(year1, month1, day1, hour1, minute1, second1, millis1),
            spec_iso_millis(year2, month2, day2, hour2, minute2, second2, millis2),
        ) <==> fields_before(
            stamp_fields(year1, month1, day1, hour1, minute1, second1, millis1),
            stamp_fields(year2, month2, day2, hour2, minute2, second2, millis2),
        ),
        (spec_iso_millis(year1, month1, day1, hour1, minute1, second1, millis1) == spec_iso_millis(
            year2,
            month2,
            day2,
            hour2,
            minute2,
            second2,
            millis2,
        )) <==> (stamp_fields(year1, month1, day1, hour1, minute1, second1, millis1)
            == stamp_fields(year2, month2, day2, hour2, minute2, second2, millis2)),
{
    let f = stamp_fields(year1, month1, day1, hour1, minute1, second1, millis1);
    let g = stamp_fields(year2, month2, day2, hour2, minute2, second2, millis2);
    let a = spec_iso_millis(year1, month1, day1, hour1, minute1, second1, millis1);
    let b = spec_iso_millis(year2, month2, day2, hour2, minute2, second2, millis2);
    lemma_iso_is_render(year1, month1, day1, hour1, minute1, second1, millis1);
    lemma_iso_is_render(year2, month2, day2, hour2, minute2, second2, millis2);
    lemma_valid_bounds(year1, month1, day1, hour1, minute1, second1, millis1);
    lemma_valid_bounds(year2, month2, day2, hour2, minute2, second2, millis2);
    lemma_render_len(f, 7);
    lemma_render_len(g, 7);
    if fields_before(f, g) {
        let i = choose|i: int| #[trigger] fields_differ_first_at(f, g, i);
        lemma_render_before(f, g, i, 7);
    }
    if fields_before(g, f) {
        let i = choose|i: int| #[trigger] fields_differ_first_at(g, f, i);
        lemma_render_before(g, f, i, 7);
        lemma_text_asymmetric(b, a);
    }
    if f != g {
        lemma_fields_trichotomy(f, g);
        if fields_before(f, g) {
            lemma_text_asymmetric(a, b);
        }
    }
    if text_before(a, b) {
        lemma_text_asymmetric(a, b);
        if f == g {
            assert(a == b);
        }
    }
}

} // verus!
