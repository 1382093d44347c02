use vstd::prelude::*;

use crate::datetime::Date;
use crate::errors::{DecodeError, DocumentError, ReadError};
use crate::payment::{
    spec_decode, spec_opt_str_view, DocumentView, PaymentDocument, PaymentMethod,
};
use crate::text::{
    char_digit, digit_char, lemma_digit_char_val, spec_digit_char, spec_digit_val, spec_is_digit,
};

verus! {

/// Relies on String::push: appends the given char to the end of the string.
pub assume_specification[ String::push ](s: &mut String, c: char)
    ensures
        final(s)@ == old(s)@.push(c),
;

/// One character of a document string value as the framing writes it: a
/// quote or a backslash gets a leading backslash, everything else stands
/// for itself.
pub open spec fn spec_escape_char(c: char) -> Seq<char> {
    if c == '"' {
        seq!['\\', '"']
    } else if c == '\\' {
        seq!['\\', '\\']
    } else {
        seq![c]
    }
}

/// A string value with its quotes and backslashes escaped.
pub open spec fn spec_escape(s: Seq<char>) -> Seq<char>
    decreases s.len(),
{
    if s.len() == 0 {
        Seq::empty()
    } else {
        spec_escape_char(s[0]) + spec_escape(s.drop_first())
    }
}

/// Escaping distributes over concatenation.
proof fn lemma_escape_append(a: Seq<char>, b: Seq<char>)
    ensures
        spec_escape(a + b) == spec_escape(a) + spec_escape(b),
    decreases a.len(),
{
    if a.len() == 0 {
        assert(a + b =~= b);
        assert(spec_escape(a) + spec_escape(b) =~= spec_escape(b));
    } else {
        assert((a + b).drop_first() =~= a.drop_first() + b);
        lemma_escape_append(a.drop_first(), b);
        assert(spec_escape_char((a + b)[0]) + (spec_escape(a.drop_first()) + spec_escape(b))
            =~= (spec_escape_char(a[0]) + spec_escape(a.drop_first())) + spec_escape(b));
    }
}

/// A string field value in the document: quoted, escaped content.
pub open spec fn spec_json_string(s: Seq<char>) -> Seq<char> {
    seq!['"'] + spec_escape(s) + seq!['"']
}

/// An optional string field value: a quoted string or the null literal.
pub open spec fn spec_json_opt_string(o: Option<Seq<char>>) -> Seq<char> {
    match o {
        Some(s) => spec_json_string(s),
        None => "null"@,
    }
}

/// Two decimal digits, zero padded.
pub open spec fn spec_two_digits(n: int) -> Seq<char> {
    seq![spec_digit_char(n / 10), spec_digit_char(n % 10)]
}

/// Four decimal digits, zero padded.
pub open spec fn spec_four_digits(n: int) -> Seq<char> {
    seq![
        spec_digit_char(n / 1000),
        spec_digit_char((n / 100) % 10),
        spec_digit_char((n / 10) % 10),
        spec_digit_char(n % 10),
    ]
}

/// A date in the document's date notation: year, month and day as decimal
/// digits separated by hyphens.
pub open spec fn spec_iso_date(d: Date) -> Seq<char> {
    spec_four_digits(d.year as int) + seq!['-'] + spec_two_digits(d.month as int) + seq!['-']
        + spec_two_digits(d.day as int)
}

/// An optional date field value: a quoted date or the null literal.
pub open spec fn spec_json_opt_date(o: Option<Date>) -> Seq<char> {
    match o {
        Some(d) => seq!['"'] + spec_iso_date(d) + seq!['"'],
        None => "null"@,
    }
}

/// The stored text of a payment document: one object with exactly the four
/// named fields, in this order, with no spacing. This shape is the on-disk
/// contract of the document column.
pub open spec fn spec_doc_json(v: DocumentView) -> Seq<char> {
    "{\"mode_of_payment\":"@ + seq![spec_digit_char(v.mode_of_payment)]
        + ",\"payment_transaction_id\":"@ + spec_json_opt_string(v.payment_transaction_id)
        + ",\"payment_receiver\":"@ + spec_json_opt_string(v.payment_receiver)
        + ",\"payment_received_date\":"@ + spec_json_opt_date(v.payment_received_date) + "}"@
}

/// Appends the escaped characters of one string value.
fn push_escaped(out: &mut String, s: &str)
    ensures
        final(out)@ == old(out)@ + spec_escape(s@),
{
    let len = s.unicode_len();
    let mut i: usize = 0;
    while i < len
        invariant
            len == s@.len(),
            i <= len,
            out@ == old(out)@ + spec_escape(s@.take(i as int)),
        decreases len - i,
    {
        let c = s.get_char(i);
        match c {
            '"' => {
                out.push('\\');
                out.push('"');
            },
            '\\' => {
                out.push('\\');
                out.push('\\');
            },
            _ => {
                out.push(c);
            },
        }
        proof {
            let c = s@[i as int];
            lemma_escape_append(s@.take(i as int), seq![c]);
            assert(seq![c].drop_first() =~= Seq::<char>::empty());
            assert(seq![c][0] == c);
            assert(spec_escape(seq![c]) == spec_escape_char(c) + spec_escape(Seq::<char>::empty()));
            assert(spec_escape(seq![c]) =~= spec_escape_char(c));
            assert(s@.take(i + 1) =~= s@.take(i as int) + seq![c]);
            assert(out@ =~= old(out)@ + spec_escape(s@.take(i + 1)));
        }
        i += 1;
    }
    proof {
        assert(s@.take(len as int) =~= s@);
    }
}

/// Appends one quoted, escaped string value.
fn push_json_string(out: &mut String, s: &str)
    ensures
        final(out)@ == old(out)@ + spec_json_string(s@),
{
    out.push('"');
    push_escaped(out, s);
    out.push('"');
    proof {
        assert(out@ =~= old(out)@ + spec_json_string(s@));
    }
}

/// Appends an optional string field value.
fn push_opt_string(out: &mut String, o: &Option<String>)
    ensures
        final(out)@ == old(out)@ + spec_json_opt_string(spec_opt_str_view(*o)),
{
    match o {
        Some(s) => push_json_string(out, s.as_str()),
        None => out.append("null"),
    }
}

/// Appends two zero-padded decimal digits.
fn push_two_digits(out: &mut String, n: u8)
    requires
        n < 100,
    ensures
        final(out)@ == old(out)@ + spec_two_digits(n as int),
{
    out.push(digit_char(n / 10));
    out.push(digit_char(n % 10));
    proof {
        assert(out@ =~= old(out)@ + spec_two_digits(n as int));
    }
}

/// Appends a date in the document's date notation.
fn push_iso_date(out: &mut String, d: &Date)
    requires
        d.valid(),
    ensures
        final(out)@ == old(out)@ + spec_iso_date(*d),
{
    let y = d.year;
    out.push(digit_char((y / 1000) as u8));
    out.push(digit_char(((y / 100) % 10) as u8));
    out.push(digit_char(((y / 10) % 10) as u8));
    out.push(digit_char((y % 10) as u8));
    out.push('-');
    push_two_digits(out, d.month);
    out.push('-');
    push_two_digits(out, d.day);
    proof {
        assert(out@ =~= old(out)@ + spec_iso_date(*d));
    }
}

/// Appends an optional date field value.
fn push_opt_date(out: &mut String, o: &Option<Date>)
    requires
        o matches Some(d) ==> d.valid(),
    ensures
        final(out)@ == old(out)@ + spec_json_opt_date(*o),
{
    match o {
        Some(d) => {
            out.push('"');
            push_iso_date(out, d);
            out.push('"');
            proof {
                assert(out@ =~= old(out)@ + spec_json_opt_date(*o));
            }
        },
        None => out.append("null"),
    }
}

/// Whether `s` starts with the characters `p`.
pub open spec fn spec_starts_with(s: Seq<char>, p: Seq<char>) -> bool {
    p.len() <= s.len() && s.take(p.len() as int) == p
}

/// What scanning a string value yields, reading just after its opening
/// quote: the decoded content and how many characters were consumed, the
/// closing quote included. Nothing is yielded when the text ends before a
/// closing quote or holds an escape the framing never writes.
pub open spec fn spec_scan_string(s: Seq<char>) -> Option<(Seq<char>, int)>
    decreases s.len(),
{
    if s.len() == 0 {
        None
    } else if s[0] == '"' {
        Some((Seq::empty(), 1))
    } else if s[0] == '\\' {
        if 2 <= s.len() && (s[1] == '"' || s[1] == '\\') {
            match spec_scan_string(s.skip(2)) {
                Some(r) => Some((seq![s[1]] + r.0, 2 + r.1)),
                None => None,
            }
        } else {
            None
        }
    } else {
        match spec_scan_string(s.skip(1)) {
            Some(r) => Some((seq![s[0]] + r.0, 1 + r.1)),
            None => None,
        }
    }
}

/// Scanning an escaped string finds exactly the content that was escaped:
/// the decoding side of the string framing.
proof fn lemma_scan_escaped(content: Seq<char>, rest: Seq<char>)
    ensures
        spec_scan_string(spec_escape(content) + seq!['"'] + rest) == Some(
            (content, spec_escape(content).len() as int + 1),
        ),
    decreases content.len(),
{
    let s = spec_escape(content) + seq!['"'] + rest;
    if content.len() == 0 {
        assert(s[0] == '"');
        assert(content =~= Seq::<char>::empty());
    } else {
        let c = content[0];
        let t = content.drop_first();
        lemma_scan_escaped(t, rest);
        let s2 = spec_escape(t) + seq!['"'] + rest;
        if c == '"' || c == '\\' {
            assert(s[0] == '\\');
            assert(s[1] == c);
            assert(s.skip(2) =~= s2);
            assert(seq![s[1]] + t =~= content);
        } else {
            assert(s[0] == c);
            assert(s.skip(1) =~= s2);
            assert(seq![s[0]] + t =~= content);
        }
    }
}

/// A string scan continued behind an accumulator: what the whole scan
/// yields once `acc` has already been decoded and `delta` characters
/// consumed.
spec fn spec_scan_shifted(s: Seq<char>, acc: Seq<char>, delta: int) -> Option<
    (Seq<char>, int),
> {
    match spec_scan_string(s) {
        Some(r) => Some((acc + r.0, delta + r.1)),
        None => None,
    }
}

/// Scans the string value beginning at `start` (just after its opening
/// quote), decoding the escapes the framing writes.
fn scan_string(s: &str, start: usize) -> (r: Option<(String, usize)>)
    requires
        start <= s@.len(),
    ensures
        r matches Some((content, next)) ==> {
            &&& spec_scan_string(s@.skip(start as int)) == Some(
                (content@, next - start as int),
            )
            &&& start < next <= s@.len()
        },
        r is None ==> spec_scan_string(s@.skip(start as int)) is None,
{
    let len = s.unicode_len();
    let mut acc = String::new();
    let mut cur: usize = start;
    loop
        invariant
            len == s@.len(),
            start <= cur <= len,
            spec_scan_string(s@.skip(start as int)) == spec_scan_shifted(
                s@.skip(cur as int),
                acc@,
                cur - start,
            ),
        decreases len - cur,
    {
        if cur == len {
            proof {
                assert(s@.skip(cur as int).len() == 0);
            }
            return None;
        }
        let c = s.get_char(cur);
        proof {
            assert(s@.skip(cur as int)[0] == s@[cur as int]);
        }
        if c == '"' {
            proof {
                assert(spec_scan_string(s@.skip(cur as int)) == Some(
                    (Seq::<char>::empty(), 1int),
                ));
                assert(acc@ + Seq::<char>::empty() =~= acc@);
            }
            return Some((acc, cur + 1));
        } else if c == '\\' {
            if cur + 1 == len {
                proof {
                    assert(s@.skip(cur as int).len() == 1);
                    assert(spec_scan_string(s@.skip(cur as int)) is None);
                }
                return None;
            }
            let c2 = s.get_char(cur + 1);
            proof {
                assert(s@.skip(cur as int)[1] == s@[cur as int + 1]);
            }
            if c2 == '"' || c2 == '\\' {
                acc.push(c2);
                proof {
                    assert(s@.skip(cur as int).skip(2) =~= s@.skip(cur + 2));
                }
                cur = cur + 2;
            } else {
                proof {
                    assert(spec_scan_string(s@.skip(cur as int)) is None);
                }
                return None;
            }
        } else {
            acc.push(c);
            proof {
                assert(s@.skip(cur as int).skip(1) =~= s@.skip(cur + 1));
            }
            cur = cur + 1;
        }
    }
}

/// Whether the text at `start` continues with the characters of `lit`.
fn match_lit(s: &str, start: usize, lit: &str) -> (r: bool)
    requires
        start <= s@.len(),
    ensures
        r == spec_starts_with(s@.skip(start as int), lit@),
{
    let slen = s.unicode_len();
    let llen = lit.unicode_len();
    if slen - start < llen {
        return false;
    }
    let mut j: usize = 0;
    while j < llen
        invariant
            slen == s@.len(),
            llen == lit@.len(),
            start + llen <= slen,
            j <= llen,
            forall|i: int| 0 <= i < j ==> s@[start + i] == lit@[i],
        decreases llen - j,
    {
        if s.get_char(start + j) != lit.get_char(j) {
            assert(s@.skip(start as int)[j as int] != lit@[j as int]);
            assert(!spec_starts_with(s@.skip(start as int), lit@)) by {
                let pre = s@.skip(start as int).take(llen as int);
                assert(pre[j as int] == s@[start + j]);
            };
            return false;
        }
        j += 1;
    }
    proof {
        assert(s@.skip(start as int).take(llen as int) =~= lit@);
    }
    true
}

/// Leading decimal digits of a text.
pub open spec fn spec_digit_run(s: Seq<char>) -> int
    decreases s.len(),
{
    if s.len() == 0 || !spec_is_digit(s[0]) {
        0
    } else {
        1 + spec_digit_run(s.drop_first())
    }
}

/// The number a sequence of digit characters denotes.
pub open spec fn spec_digits_val(ds: Seq<char>) -> int
    decreases ds.len(),
{
    if ds.len() == 0 {
        0
    } else {
        spec_digits_val(ds.drop_last()) * 10 + spec_digit_val(ds.last())
    }
}

/// Ten to the given power.
pub open spec fn spec_pow10(n: nat) -> int
    decreases n,
{
    if n == 0 {
        1
    } else {
        10 * spec_pow10((n - 1) as nat)
    }
}

/// Powers of ten are positive.
proof fn lemma_pow10_pos(n: nat)
    ensures
        spec_pow10(n) >= 1,
    decreases n,
{
    if n > 0 {
        lemma_pow10_pos((n - 1) as nat);
    }
}

/// Powers of ten grow with the exponent.
proof fn lemma_pow10_increases(a: nat, b: nat)
    requires
        a <= b,
    ensures
        spec_pow10(a) <= spec_pow10(b),
    decreases b,
{
    if a < b {
        lemma_pow10_increases(a, (b - 1) as nat);
        lemma_pow10_pos((b - 1) as nat);
    }
}

/// A digit run is never negative.
proof fn lemma_digit_run_nonneg(t: Seq<char>)
    ensures
        spec_digit_run(t) >= 0,
    decreases t.len(),
{
    if t.len() > 0 && spec_is_digit(t[0]) {
        lemma_digit_run_nonneg(t.drop_first());
    }
}

/// A text that begins with `k` digits has a digit run of at least `k`.
proof fn lemma_digit_run_at_least(t: Seq<char>, k: int)
    requires
        0 <= k <= t.len(),
        forall|i: int| 0 <= i < k ==> spec_is_digit(t[i]),
    ensures
        spec_digit_run(t) >= k,
    decreases k,
{
    lemma_digit_run_nonneg(t);
    if k > 0 {
        assert(spec_is_digit(t[0]));
        assert forall|i: int| 0 <= i < k - 1 implies spec_is_digit(#[trigger] t.drop_first()[i]) by {
            assert(t.drop_first()[i] == t[i + 1]);
        };
        lemma_digit_run_at_least(t.drop_first(), k - 1);
    }
}

/// A text whose first `k` characters are digits, and whose next character
/// is not one, has a digit run of exactly `k`.
proof fn lemma_digit_run_is(t: Seq<char>, k: int)
    requires
        0 <= k <= t.len(),
        forall|i: int| 0 <= i < k ==> spec_is_digit(t[i]),
        k == t.len() || !spec_is_digit(t[k]),
    ensures
        spec_digit_run(t) == k,
    decreases k,
{
    if k == 0 {
    } else {
        assert(spec_is_digit(t[0]));
        assert forall|i: int| 0 <= i < k - 1 implies spec_is_digit(#[trigger] t.drop_first()[i]) by {
            assert(t.drop_first()[i] == t[i + 1]);
        };
        assert(k - 1 == t.drop_first().len() || !spec_is_digit(t.drop_first()[k - 1]));
        lemma_digit_run_is(t.drop_first(), k - 1);
    }
}

/// What scanning an integer field value yields: its value and how many
/// characters were consumed. The notation is strict: an optional minus
/// sign, then one to nine digits, with no leading zero and no negative
/// zero.
pub open spec fn spec_scan_int(s: Seq<char>) -> Option<(int, int)> {
    let neg = s.len() > 0 && s[0] == '-';
    let t = if neg {
        s.drop_first()
    } else {
        s
    };
    let k = spec_digit_run(t);
    if k == 0 || k > 9 {
        None
    } else if k > 1 && t[0] == '0' {
        None
    } else if neg && spec_digits_val(t.take(k)) == 0 {
        None
    } else {
        let v = spec_digits_val(t.take(k));
        Some(
            (
                if neg {
                    -v
                } else {
                    v
                },
                k + if neg {
                    1int
                } else {
                    0int
                },
            ),
        )
    }
}

/// Scans an integer field value beginning at `start`.
fn scan_int(s: &str, start: usize) -> (r: Option<(i32, usize)>)
    requires
        start <= s@.len(),
    ensures
        r matches Some((v, next)) ==> {
            &&& spec_scan_int(s@.skip(start as int)) == Some((v as int, next - start as int))
            &&& start < next <= s@.len()
        },
        r is None ==> spec_scan_int(s@.skip(start as int)) is None,
{
    let len = s.unicode_len();
    let ghost whole = s@.skip(start as int);
    let neg = start < len && s.get_char(start) == '-';
    let dstart = if neg {
        start + 1
    } else {
        start
    };
    proof {
        if start < len {
            assert(whole[0] == s@[start as int]);
        }
        if neg {
            assert(whole.drop_first() =~= s@.skip(dstart as int));
        } else {
            assert(whole =~= s@.skip(dstart as int));
        }
    }
    let ghost t = s@.skip(dstart as int);
    let mut j: usize = dstart;
    while j < len && j - dstart < 10 && char_digit(s.get_char(j)).is_some()
        invariant
            start <= dstart <= j <= len,
            len == s@.len(),
            t == s@.skip(dstart as int),
            j - dstart <= 10,
            forall|i: int| 0 <= i < j - dstart ==> spec_is_digit(t[i]),
        decreases len - j,
    {
        proof {
            assert(t[j - dstart] == s@[j as int]);
        }
        j += 1;
    }
    let k = j - dstart;
    if k == 0 {
        proof {
            lemma_digit_run_is(t, 0);
        }
        return None;
    }
    if k == 10 {
        proof {
            lemma_digit_run_at_least(t, 10);
        }
        return None;
    }
    proof {
        assert(j == len || !spec_is_digit(t[j - dstart]));
        lemma_digit_run_is(t, k as int);
    }
    proof {
        assert(t[0] == s@[dstart as int]);
    }
    if k > 1 && s.get_char(dstart) == '0' {
        return None;
    }
    let mut acc: u32 = 0;
    let mut i: usize = dstart;
    while i < j
        invariant
            dstart <= i <= j <= len,
            len == s@.len(),
            t == s@.skip(dstart as int),
            j - dstart <= 9,
            forall|ii: int| 0 <= ii < j - dstart ==> spec_is_digit(t[ii]),
            acc == spec_digits_val(t.take(i - dstart)),
            acc < spec_pow10((i - dstart) as nat),
        decreases j - i,
    {
        let d = match char_digit(s.get_char(i)) {
            Some(d) => d,
            None => {
                proof {
                    assert(t[i - dstart] == s@[i as int]);
                    assert(false);
                }
                0
            },
        };
        proof {
            assert(t[i - dstart] == s@[i as int]);
            lemma_pow10_increases((i - dstart) as nat, 8);
            assert(spec_pow10(8) == 100000000) by {
                assert(spec_pow10(0) == 1);
                assert(spec_pow10(1) == 10);
                assert(spec_pow10(2) == 100);
                assert(spec_pow10(3) == 1000);
                assert(spec_pow10(4) == 10000);
                assert(spec_pow10(5) == 100000);
                assert(spec_pow10(6) == 1000000);
                assert(spec_pow10(7) == 10000000);
            };
        }
        acc = acc * 10 + (d as u32);
        proof {
            let c: int = i - dstart;
            assert(t.take(c + 1).drop_last() =~= t.take(c));
            assert(t.take(c + 1).last() == t[c]);
        }
        i += 1;
    }
    proof {
        assert(t.take(k as int) =~= t.take(j - dstart));
        lemma_pow10_increases((j - dstart) as nat, 9);
        assert(spec_pow10(9) == 1000000000) by {
            assert(spec_pow10(0) == 1);
            assert(spec_pow10(1) == 10);
            assert(spec_pow10(2) == 100);
            assert(spec_pow10(3) == 1000);
            assert(spec_pow10(4) == 10000);
            assert(spec_pow10(5) == 100000);
            assert(spec_pow10(6) == 1000000);
            assert(spec_pow10(7) == 10000000);
            assert(spec_pow10(8) == 100000000);
        };
    }
    if neg {
        if acc == 0 {
            return None;
        }
        Some((-(acc as i32), j))
    } else {
        Some((acc as i32, j))
    }
}

/// What scanning a quoted date value yields: the date and the twelve
/// characters consumed. The notation is fixed width, as the rendering
/// writes it: four year digits, a hyphen, two month digits, a hyphen, two
/// day digits, all quoted; and the parts must name a real calendar date.
pub open spec fn spec_scan_date(s: Seq<char>) -> Option<(Date, int)> {
    if 12 <= s.len() && s[0] == '"' && spec_is_digit(s[1]) && spec_is_digit(s[2]) && spec_is_digit(
        s[3],
    ) && spec_is_digit(s[4]) && s[5] == '-' && spec_is_digit(s[6]) && spec_is_digit(s[7]) && s[8]
        == '-' && spec_is_digit(s[9]) && spec_is_digit(s[10]) && s[11] == '"' {
        let year = 1000 * spec_digit_val(s[1]) + 100 * spec_digit_val(s[2]) + 10 * spec_digit_val(
            s[3],
        ) + spec_digit_val(s[4]);
        let month = 10 * spec_digit_val(s[6]) + spec_digit_val(s[7]);
        let day = 10 * spec_digit_val(s[9]) + spec_digit_val(s[10]);
        let d = Date { year: year as i32, month: month as u8, day: day as u8 };
        if d.valid() {
            Some((d, 12))
        } else {
            None
        }
    } else {
        None
    }
}

/// Scans a quoted date value beginning at `start`.
fn scan_date(s: &str, start: usize) -> (r: Option<(Date, usize)>)
    requires
        start <= s@.len(),
    ensures
        r matches Some((d, next)) ==> {
            &&& spec_scan_date(s@.skip(start as int)) == Some((d, next - start as int))
            &&& start < next <= s@.len()
        },
        r is None ==> spec_scan_date(s@.skip(start as int)) is None,
{
    let len = s.unicode_len();
    if len - start < 12 {
        return None;
    }
    proof {
        assert(forall|i: int| 0 <= i < 12 ==> s@.skip(start as int)[i] == s@[start + i]);
    }
    if s.get_char(start) != '"' || s.get_char(start + 5) != '-' || s.get_char(start + 8) != '-'
        || s.get_char(start + 11) != '"' {
        return None;
    }
    let c1 = char_digit(s.get_char(start + 1));
    let c2 = char_digit(s.get_char(start + 2));
    let c3 = char_digit(s.get_char(start + 3));
    let c4 = char_digit(s.get_char(start + 4));
    let c6 = char_digit(s.get_char(start + 6));
    let c7 = char_digit(s.get_char(start + 7));
    let c9 = char_digit(s.get_char(start + 9));
    let c10 = char_digit(s.get_char(start + 10));
    match (c1, c2, c3, c4, c6, c7, c9, c10) {
        (
            Some(y1),
            Some(y2),
            Some(y3),
            Some(y4),
            Some(m1),
            Some(m2),
            Some(d1),
            Some(d2),
        ) => {
            let year: i32 = 1000 * (y1 as i32) + 100 * (y2 as i32) + 10 * (y3 as i32) + (
            y4 as i32);
            let month: u8 = 10 * m1 + m2;
            let day: u8 = 10 * d1 + d2;
            match Date::new(year, month, day) {
                Ok(d) => Some((d, start + 12)),
                Err(_) => None,
            }
        },
        _ => None,
    }
}

/// What scanning an optional string field value yields: the field content
/// (absent for the null literal) and the characters consumed; anything
/// else is a value of the wrong type.
pub open spec fn spec_scan_opt_string_field(s: Seq<char>) -> Result<
    (Option<Seq<char>>, int),
    DocumentError,
> {
    if spec_starts_with(s, "null"@) {
        Ok((None, 4))
    } else if 1 <= s.len() && s[0] == '"' {
        match spec_scan_string(s.skip(1)) {
            Some(r) => Ok((Some(r.0), 1 + r.1)),
            None => Err(DocumentError::WrongFieldType),
        }
    } else {
        Err(DocumentError::WrongFieldType)
    }
}

/// What scanning an optional date field value yields: the date (absent for
/// the null literal) and the characters consumed. A quoted value that is
/// not a real date in the fixed notation is an invalid date; anything else
/// is a value of the wrong type.
pub open spec fn spec_scan_opt_date_field(s: Seq<char>) -> Result<
    (Option<Date>, int),
    DocumentError,
> {
    if spec_starts_with(s, "null"@) {
        Ok((None, 4))
    } else if 1 <= s.len() && s[0] == '"' {
        match spec_scan_date(s) {
            Some(r) => Ok((Some(r.0), r.1)),
            None => Err(DocumentError::InvalidDate),
        }
    } else {
        Err(DocumentError::WrongFieldType)
    }
}

/// Scans an optional string field value beginning at `start`.
fn scan_opt_string_field(s: &str, start: usize) -> (r: Result<
    (Option<String>, usize),
    DocumentError,
>)
    requires
        start <= s@.len(),
    ensures
        r matches Ok((o, next)) ==> {
            &&& spec_scan_opt_string_field(s@.skip(start as int)) == Ok::<
                (Option<Seq<char>>, int),
                DocumentError,
            >((spec_opt_str_view(o), next - start as int))
            &&& start <= next <= s@.len()
        },
        r matches Err(e) ==> spec_scan_opt_string_field(s@.skip(start as int)) == Err::<
            (Option<Seq<char>>, int),
            DocumentError,
        >(e),
{
    let len = s.unicode_len();
    if match_lit(s, start, "null") {
        proof {
            reveal_strlit("null");
        }
        return Ok((None, start + 4));
    }
    if start == len {
        return Err(DocumentError::WrongFieldType);
    }
    proof {
        assert(s@.skip(start as int)[0] == s@[start as int]);
    }
    if s.get_char(start) != '"' {
        return Err(DocumentError::WrongFieldType);
    }
    proof {
        assert(s@.skip(start as int).skip(1) =~= s@.skip(start + 1));
    }
    match scan_string(s, start + 1) {
        Some((content, next)) => Ok((Some(content), next)),
        None => Err(DocumentError::WrongFieldType),
    }
}

/// Scans an optional date field value beginning at `start`.
fn scan_opt_date_field(s: &str, start: usize) -> (r: Result<
    (Option<Date>, usize),
    DocumentError,
>)
    requires
        start <= s@.len(),
    ensures
        r matches Ok((o, next)) ==> {
            &&& spec_scan_opt_date_field(s@.skip(start as int)) == Ok::<
                (Option<Date>, int),
                DocumentError,
            >((o, next - start as int))
            &&& start <= next <= s@.len()
        },
        r matches Err(e) ==> spec_scan_opt_date_field(s@.skip(start as int)) == Err::<
            (Option<Date>, int),
            DocumentError,
        >(e),
{
    let len = s.unicode_len();
    if match_lit(s, start, "null") {
        proof {
            reveal_strlit("null");
        }
        return Ok((None, start + 4));
    }
    if start == len {
        return Err(DocumentError::WrongFieldType);
    }
    proof {
        assert(s@.skip(start as int)[0] == s@[start as int]);
    }
    if s.get_char(start) != '"' {
        return Err(DocumentError::WrongFieldType);
    }
    match scan_date(s, start) {
        Some((d, next)) => Ok((Some(d), next)),
        None => Err(DocumentError::InvalidDate),
    }
}

/// What reading a stored payment document text yields: the document's
/// content, or the first failure. The text must be exactly the object
/// shape the rendering writes: the four named fields in their fixed order,
/// no spacing, nothing after the closing brace.
pub open spec fn spec_parse_doc(s: Seq<char>) -> Result<DocumentView, DocumentError> {
    let k0 = "{\"mode_of_payment\":"@;
    if !spec_starts_with(s, k0) {
        Err(DocumentError::Malformed)
    } else {
        let s1 = s.skip(k0.len() as int);
        match spec_scan_int(s1) {
            None => Err(DocumentError::WrongFieldType),
            Some((mode, n1)) => {
                let s2 = s1.skip(n1);
                let k1 = ",\"payment_transaction_id\":"@;
                if !spec_starts_with(s2, k1) {
                    Err(DocumentError::Malformed)
                } else {
                    let s3 = s2.skip(k1.len() as int);
                    match spec_scan_opt_string_field(s3) {
                        Err(e) => Err(e),
                        Ok((tx, n2)) => {
                            let s4 = s3.skip(n2);
                            let k2 = ",\"payment_receiver\":"@;
                            if !spec_starts_with(s4, k2) {
                                Err(DocumentError::Malformed)
                            } else {
                                let s5 = s4.skip(k2.len() as int);
                                match spec_scan_opt_string_field(s5) {
                                    Err(e) => Err(e),
                                    Ok((rc, n3)) => {
                                        let s6 = s5.skip(n3);
                                        let k3 = ",\"payment_received_date\":"@;
                                        if !spec_starts_with(s6, k3) {
                                            Err(DocumentError::Malformed)
                                        } else {
                                            let s7 = s6.skip(k3.len() as int);
                                            match spec_scan_opt_date_field(s7) {
                                                Err(e) => Err(e),
                                                Ok((date, n4)) => {
                                                    let s8 = s7.skip(n4);
                                                    if s8 == "}"@ {
                                                        Ok(
                                                            DocumentView {
                                                                mode_of_payment: mode,
                                                                payment_transaction_id: tx,
                                                                payment_receiver: rc,
                                                                payment_received_date: date,
                                                            },
                                                        )
                                                    } else {
                                                        Err(DocumentError::Malformed)
                                                    }
                                                },
                                            }
                                        }
                                    },
                                }
                            }
                        },
                    }
                }
            },
        }
    }
}

/// A number splits into its decimal digits and back: two digits.
proof fn lemma_recompose_two(m: int)
    requires
        0 <= m,
    ensures
        10 * (m / 10) + m % 10 == m,
{
    vstd::arithmetic::div_mod::lemma_fundamental_div_mod(m, 10);
}

/// A number splits into its decimal digits and back: four digits.
proof fn lemma_recompose_four(y: int)
    requires
        0 <= y,
    ensures
        1000 * (y / 1000) + 100 * ((y / 100) % 10) + 10 * ((y / 10) % 10) + y % 10 == y,
{
    vstd::arithmetic::div_mod::lemma_fundamental_div_mod(y, 10);
    vstd::arithmetic::div_mod::lemma_fundamental_div_mod(y / 10, 10);
    vstd::arithmetic::div_mod::lemma_fundamental_div_mod(y / 100, 10);
    vstd::arithmetic::div_mod::lemma_div_denominator(y, 10, 10);
    vstd::arithmetic::div_mod::lemma_div_denominator(y, 100, 10);
}

/// The digit parts of a small number are digits.
proof fn lemma_four_digit_parts(y: int)
    requires
        0 <= y <= 9999,
    ensures
        0 <= y / 1000 <= 9,
        0 <= (y / 100) % 10 <= 9,
        0 <= (y / 10) % 10 <= 9,
        0 <= y % 10 <= 9,
{
    vstd::arithmetic::div_mod::lemma_div_pos_is_pos(y, 1000);
    vstd::arithmetic::div_mod::lemma_div_pos_is_pos(y, 100);
    vstd::arithmetic::div_mod::lemma_div_pos_is_pos(y, 10);
    vstd::arithmetic::div_mod::lemma_fundamental_div_mod(y, 1000);
    vstd::arithmetic::div_mod::lemma_mod_pos_bound(y, 1000);
    vstd::arithmetic::div_mod::lemma_mod_pos_bound(y / 100, 10);
    vstd::arithmetic::div_mod::lemma_mod_pos_bound(y / 10, 10);
    vstd::arithmetic::div_mod::lemma_mod_pos_bound(y, 10);
}

/// Scanning the rendering of an optional string field finds the field
/// back, whatever follows it.
proof fn lemma_scan_opt_string_field_of_json(o: Option<Seq<char>>, rest: Seq<char>)
    ensures
        spec_scan_opt_string_field(spec_json_opt_string(o) + rest) == Ok::<
            (Option<Seq<char>>, int),
            DocumentError,
        >((o, spec_json_opt_string(o).len() as int)),
{
    reveal_strlit("null");
    let s = spec_json_opt_string(o) + rest;
    match o {
        None => {
            assert(s.take(4) =~= "null"@);
        },
        Some(c) => {
            let f = spec_json_string(c);
            assert(s[0] == '"');
            assert(!spec_starts_with(s, "null"@)) by {
                if spec_starts_with(s, "null"@) {
                    assert(s.take(4)[0] == s[0]);
                }
            };
            lemma_scan_escaped(c, rest);
            assert(s.skip(1) =~= spec_escape(c) + seq!['"'] + rest);
            assert(f.len() == spec_escape(c).len() + 2);
        },
    }
}

/// Scanning the rendering of an optional date field finds the field back,
/// whatever follows it.
proof fn lemma_scan_opt_date_field_of_json(o: Option<Date>, rest: Seq<char>)
    requires
        o matches Some(d) ==> d.valid(),
    ensures
        spec_scan_opt_date_field(spec_json_opt_date(o) + rest) == Ok::<
            (Option<Date>, int),
            DocumentError,
        >((o, spec_json_opt_date(o).len() as int)),
{
    reveal_strlit("null");
    let s = spec_json_opt_date(o) + rest;
    match o {
        None => {
            assert(s.take(4) =~= "null"@);
        },
        Some(d) => {
            let y = d.year as int;
            let mo = d.month as int;
            let dd = d.day as int;
            assert(s[0] == '"');
            assert(!spec_starts_with(s, "null"@)) by {
                if spec_starts_with(s, "null"@) {
                    assert(s.take(4)[0] == s[0]);
                }
            };
            lemma_four_digit_parts(y);
            vstd::arithmetic::div_mod::lemma_div_pos_is_pos(mo, 10);
            vstd::arithmetic::div_mod::lemma_mod_pos_bound(mo, 10);
            vstd::arithmetic::div_mod::lemma_div_pos_is_pos(dd, 10);
            vstd::arithmetic::div_mod::lemma_mod_pos_bound(dd, 10);
            assert(mo / 10 <= 9 && dd / 10 <= 9) by {
                vstd::arithmetic::div_mod::lemma_fundamental_div_mod(mo, 10);
                vstd::arithmetic::div_mod::lemma_fundamental_div_mod(dd, 10);
            };
            lemma_digit_char_val(y / 1000);
            lemma_digit_char_val((y / 100) % 10);
            lemma_digit_char_val((y / 10) % 10);
            lemma_digit_char_val(y % 10);
            lemma_digit_char_val(mo / 10);
            lemma_digit_char_val(mo % 10);
            lemma_digit_char_val(dd / 10);
            lemma_digit_char_val(dd % 10);
            assert(s[1] == spec_digit_char(y / 1000));
            assert(s[2] == spec_digit_char((y / 100) % 10));
            assert(s[3] == spec_digit_char((y / 10) % 10));
            assert(s[4] == spec_digit_char(y % 10));
            assert(s[5] == '-');
            assert(s[6] == spec_digit_char(mo / 10));
            assert(s[7] == spec_digit_char(mo % 10));
            assert(s[8] == '-');
            assert(s[9] == spec_digit_char(dd / 10));
            assert(s[10] == spec_digit_char(dd % 10));
            assert(s[11] == '"');
            lemma_recompose_four(y);
            lemma_recompose_two(mo);
            lemma_recompose_two(dd);
            assert(1000 * spec_digit_val(s[1]) + 100 * spec_digit_val(s[2]) + 10 * spec_digit_val(
                s[3],
            ) + spec_digit_val(s[4]) == y);
            assert(10 * spec_digit_val(s[6]) + spec_digit_val(s[7]) == mo);
            assert(10 * spec_digit_val(s[9]) + spec_digit_val(s[10]) == dd);
            assert(spec_scan_date(s) == Some((d, 12int)));
        },
    }
}

/// Reads a payment record back from the stored document text: the strict
/// read path. The framing and field types are checked, the mode code is
/// decoded, and each optional field must hold a value. Every failure is
/// reported: no default tag is ever substituted for an unknown code, and no
/// default or sentinel value for a null field.
pub fn read_payment_method(s: &str) -> (r: Result<PaymentMethod, ReadError>)
    ensures
        spec_parse_doc(s@) matches Err(e) ==> r == Err::<PaymentMethod, ReadError>(
            ReadError::Document(e),
        ),
        spec_parse_doc(s@) matches Ok(v) ==> match spec_decode(v.mode_of_payment) {
            None => r == Err::<PaymentMethod, ReadError>(
                ReadError::Decode(DecodeError { code: v.mode_of_payment as i32 }),
            ),
            Some(mode) => {
                if v.payment_transaction_id is None || v.payment_receiver is None
                    || v.payment_received_date is None {
                    r == Err::<PaymentMethod, ReadError>(
                        ReadError::Document(DocumentError::NullField),
                    )
                } else {
                    &&& r matches Ok(m)
                    &&& m.mode_of_payment == mode
                    &&& spec_opt_str_view(m.payment_transaction_id) == v.payment_transaction_id
                    &&& spec_opt_str_view(m.payment_receiver) == v.payment_receiver
                    &&& m.payment_received_date == v.payment_received_date
                }
            },
        },
{
    match PaymentDocument::from_json(s) {
        Err(e) => Err(ReadError::Document(e)),
        Ok(doc) => doc.deserialize(),
    }
}

/// A concatenation starts with its first part, and skipping that part
/// leaves the second.
proof fn lemma_concat_prefix_skip(p: Seq<char>, rest: Seq<char>)
    ensures
        spec_starts_with(p + rest, p),
        (p + rest).skip(p.len() as int) == rest,
{
    assert((p + rest).take(p.len() as int) =~= p);
    assert((p + rest).skip(p.len() as int) =~= rest);
}

/// The field key after the mode value begins with a comma, which is not a
/// digit, so it ends the mode value's digit run.
proof fn lemma_tx_key_head()
    ensures
        ",\"payment_transaction_id\":"@.len() == 26,
        ",\"payment_transaction_id\":"@[0] == ',',
{
    reveal_strlit(",\"payment_transaction_id\":");
}

/// Document text round-trip law: reading back the rendered text of any
/// well-formed payment document yields the document's content, unchanged.
#[verifier::rlimit(100)]
pub proof fn lemma_doc_json_round_trip(v: DocumentView)
    requires
        v.wf(),
    ensures
        spec_parse_doc(spec_doc_json(v)) == Ok::<DocumentView, DocumentError>(v),
{
    let k0 = "{\"mode_of_payment\":"@;
    let k1 = ",\"payment_transaction_id\":"@;
    let k2 = ",\"payment_receiver\":"@;
    let k3 = ",\"payment_received_date\":"@;
    let br = "}"@;
    let m0 = seq![spec_digit_char(v.mode_of_payment)];
    let f1 = spec_json_opt_string(v.payment_transaction_id);
    let f2 = spec_json_opt_string(v.payment_receiver);
    let f3 = spec_json_opt_date(v.payment_received_date);
    let s = spec_doc_json(v);
    let mode = v.mode_of_payment;
    assert(0 <= mode <= 3);
    lemma_digit_char_val(mode);
    lemma_tx_key_head();

    let r8 = f3 + br;
    let r7 = k3 + r8;
    let r6 = f2 + r7;
    let r5 = k2 + r6;
    let r4 = f1 + r5;
    let r3 = k1 + r4;
    let r2 = m0 + r3;
    assert(s =~= k0 + r2);
    lemma_concat_prefix_skip(k0, r2);

    assert(spec_scan_int(r2) == Some((mode, 1int))) by {
        lemma_tx_key_head();
        assert(r2[0] == spec_digit_char(mode));
        assert(r2[1] == k1[0]);
        assert(!spec_is_digit(','));
        lemma_digit_run_is(r2, 1);
        assert(r2[0] != '-');
        assert(r2.take(1) =~= m0);
        assert(m0.drop_last() =~= Seq::<char>::empty());
        assert(spec_digits_val(Seq::<char>::empty()) == 0);
        assert(spec_digits_val(m0) == mode);
    };
    lemma_concat_prefix_skip(m0, r3);
    assert(r2.skip(1) == r3);

    lemma_concat_prefix_skip(k1, r4);
    lemma_scan_opt_string_field_of_json(v.payment_transaction_id, r5);
    lemma_concat_prefix_skip(f1, r5);

    lemma_concat_prefix_skip(k2, r6);
    lemma_scan_opt_string_field_of_json(v.payment_receiver, r7);
    lemma_concat_prefix_skip(f2, r7);

    lemma_concat_prefix_skip(k3, r8);
    lemma_scan_opt_date_field_of_json(v.payment_received_date, br);
    lemma_concat_prefix_skip(f3, br);
}

impl PaymentDocument {
    /// Renders the document as the exact text stored in the document column.
    pub fn to_json(&self) -> (r: String)
        requires
            self.wf(),
        ensures
            r@ == spec_doc_json(self@),
    {
        let mut out = String::new();
        out.append("{\"mode_of_payment\":");
        out.push(digit_char(self.mode_of_payment as u8));
        out.append(",\"payment_transaction_id\":");
        push_opt_string(&mut out, &self.payment_transaction_id);
        out.append(",\"payment_receiver\":");
        push_opt_string(&mut out, &self.payment_receiver);
        out.append(",\"payment_received_date\":");
        push_opt_date(&mut out, &self.payment_received_date);
        out.append("}");
        proof {
            assert(out@ =~= spec_doc_json(self@));
        }
        out
    }

    /// Reads a payment document back from its stored text, checking the
    /// framing, the field names and the field types. The first failing
    /// check is the error.
    #[verifier::rlimit(100)]
    pub fn from_json(s: &str) -> (r: Result<PaymentDocument, DocumentError>)
        ensures
            r matches Ok(doc) ==> spec_parse_doc(s@) == Ok::<DocumentView, DocumentError>(doc@),
            r matches Err(e) ==> spec_parse_doc(s@) == Err::<DocumentView, DocumentError>(e),
    {
        let len = s.unicode_len();
        proof {
            assert(s@.skip(0) =~= s@);
        }
        if !match_lit(s, 0, "{\"mode_of_payment\":") {
            return Err(DocumentError::Malformed);
        }
        let cur0 = "{\"mode_of_payment\":".unicode_len();
        proof {
            assert(s@.skip(0).skip("{\"mode_of_payment\":"@.len() as int) =~= s@.skip(
                cur0 as int,
            ));
        }
        let (mode, cur1) = match scan_int(s, cur0) {
            Some(r) => r,
            None => {
                return Err(DocumentError::WrongFieldType);
            },
        };
        proof {
            assert(s@.skip(cur0 as int).skip(cur1 - cur0) =~= s@.skip(cur1 as int));
        }
        if !match_lit(s, cur1, ",\"payment_transaction_id\":") {
            return Err(DocumentError::Malformed);
        }
        let cur2 = cur1 + ",\"payment_transaction_id\":".unicode_len();
        proof {
            assert(s@.skip(cur1 as int).skip(",\"payment_transaction_id\":"@.len() as int)
                =~= s@.skip(cur2 as int));
        }
        let (tx, cur3) = match scan_opt_string_field(s, cur2) {
            Ok(r) => r,
            Err(e) => {
                return Err(e);
            },
        };
        proof {
            assert(s@.skip(cur2 as int).skip(cur3 - cur2) =~= s@.skip(cur3 as int));
        }
        if !match_lit(s, cur3, ",\"payment_receiver\":") {
            return Err(DocumentError::Malformed);
        }
        let cur4 = cur3 + ",\"payment_receiver\":".unicode_len();
        proof {
            assert(s@.skip(cur3 as int).skip(",\"payment_receiver\":"@.len() as int) =~= s@.skip(
                cur4 as int,
            ));
        }
        let (rc, cur5) = match scan_opt_string_field(s, cur4) {
            Ok(r) => r,
            Err(e) => {
                return Err(e);
            },
        };
        proof {
            assert(s@.skip(cur4 as int).skip(cur5 - cur4) =~= s@.skip(cur5 as int));
        }
        if !match_lit(s, cur5, ",\"payment_received_date\":") {
            return Err(DocumentError::Malformed);
        }
        let cur6 = cur5 + ",\"payment_received_date\":".unicode_len();
        proof {
            assert(s@.skip(cur5 as int).skip(",\"payment_received_date\":"@.len() as int)
                =~= s@.skip(cur6 as int));
        }
        let (date, cur7) = match scan_opt_date_field(s, cur6) {
            Ok(r) => r,
            Err(e) => {
                return Err(e);
            },
        };
        proof {
            assert(s@.skip(cur6 as int).skip(cur7 - cur6) =~= s@.skip(cur7 as int));
        }
        proof {
            reveal_strlit("}");
        }
        if !match_lit(s, cur7, "}") || cur7 + 1 != len {
            proof {
                assert(s@.skip(cur7 as int) != "}"@) by {
                    if spec_starts_with(s@.skip(cur7 as int), "}"@) {
                        assert(s@.skip(cur7 as int).len() != 1 ==> s@.skip(cur7 as int) != "}"@);
                    } else {
                        if s@.skip(cur7 as int) == "}"@ {
                            assert(s@.skip(cur7 as int).take(1) =~= "}"@);
                        }
                    }
                };
            }
            return Err(DocumentError::Malformed);
        }
        proof {
            reveal_strlit("}");
            assert(s@.skip(cur7 as int).take(1) =~= s@.skip(cur7 as int));
            assert(s@.skip(cur7 as int) == "}"@);
        }
        Ok(
            PaymentDocument {
                mode_of_payment: mode,
                payment_transaction_id: tx,
                payment_receiver: rc,
                payment_received_date: date,
            },
        )
    }
}

} // verus!
