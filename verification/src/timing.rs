//! Durations as hours, minutes, seconds and milliseconds, and their text form
//! `HH:MM:SS:mmm`.

use crate::chars::chars_of;
use vstd::prelude::*;

verus! {

pub const MS_PER_SECOND: u128 = 1_000;

pub const MS_PER_MINUTE: u128 = 60_000;

pub const MS_PER_HOUR: u128 = 3_600_000;

/// Whether `c` is one of the ASCII digits `0` to `9`.
pub open spec fn is_digit(c: char) -> bool {
    48 <= c as int <= 57
}

/// The number a digit stands for.
pub open spec fn digit_value(c: char) -> nat {
    (c as int - 48) as nat
}

/// The digit that stands for `d`, for `d` below ten.
pub open spec fn digit_char(d: nat) -> char {
    (d + 48) as char
}

/// Whether `s` is made of digits only.
pub open spec fn all_digits(s: Seq<char>) -> bool {
    forall|i: int| 0 <= i < s.len() ==> is_digit(#[trigger] s[i])
}

/// The number that a run of digits denotes, most significant digit first.
pub open spec fn decimal_value(s: Seq<char>) -> nat
    decreases s.len(),
{
    if s.len() == 0 {
        0
    } else {
        decimal_value(s.drop_last()) * 10 + digit_value(s.last())
    }
}

/// The shortest decimal numeral of `n`.
pub open spec fn decimal_digits(n: nat) -> Seq<char>
    decreases n,
{
    if n < 10 {
        seq![digit_char(n)]
    } else {
        decimal_digits(n / 10).push(digit_char(n % 10))
    }
}

/// The decimal numeral of `n`, with zeros in front until it is `width` long.
pub open spec fn zero_padded(n: nat, width: nat) -> Seq<char> {
    let d = decimal_digits(n);
    if d.len() >= width {
        d
    } else {
        Seq::new((width - d.len()) as nat, |i: int| '0') + d
    }
}

/// A numeral without the plus sign that may stand in front of it.
pub open spec fn number_digits(s: Seq<char>) -> Seq<char> {
    if s.len() > 0 && s[0] == '+' {
        s.skip(1)
    } else {
        s
    }
}

/// The number that `s` denotes: an optional plus sign, then one or more
/// digits whose value fits in 128 bits. Anything else denotes nothing.
pub open spec fn number_value(s: Seq<char>) -> Option<u128> {
    let d = number_digits(s);
    if d.len() > 0 && all_digits(d) && decimal_value(d) <= u128::MAX {
        Some(decimal_value(d) as u128)
    } else {
        None
    }
}

/// The pieces of `s` between its colons. There is always one piece more than
/// there are colons; a piece may be empty.
pub open spec fn colon_fields(s: Seq<char>) -> Seq<Seq<char>>
    decreases s.len(),
{
    if s.len() == 0 {
        seq![Seq::<char>::empty()]
    } else {
        let before = colon_fields(s.drop_last());
        if s.last() == ':' {
            before.push(Seq::<char>::empty())
        } else {
            before.drop_last().push(before.last().push(s.last()))
        }
    }
}

/// What a time string denotes: exactly four numbers between colons, with
/// minutes and seconds below 60 and milliseconds below 1000.
pub open spec fn parsed_timing(s: Seq<char>) -> Option<Timing> {
    let f = colon_fields(s);
    if f.len() != 4 {
        None
    } else {
        match (number_value(f[0]), number_value(f[1]), number_value(f[2]), number_value(f[3])) {
            (Some(hh), Some(mm), Some(ss), Some(ms)) => {
                if mm < 60 && ss < 60 && ms < 1000 {
                    Some(Timing { hh, mm, ss, ms })
                } else {
                    None
                }
            },
            _ => None,
        }
    }
}

/// The text form of a count of milliseconds.
pub open spec fn formatted_ms(ms: u128) -> Seq<char> {
    Timing::of_ms(ms).formatted()
}

/// The count of milliseconds that a time string denotes: the string must
/// read as a time, and the total must fit in 128 bits.
pub open spec fn parsed_ms(text: Seq<char>) -> Option<u128> {
    match parsed_timing(text) {
        Some(t) => if t.total_ms() <= u128::MAX {
            Some(t.total_ms() as u128)
        } else {
            None
        },
        None => None,
    }
}

/// A duration taken apart into hours, minutes, seconds and milliseconds.
/// A timing made from a count of milliseconds or read from text is in
/// range; the fields themselves allow any number.
#[derive(Clone, Copy, Debug, PartialEq, Eq, Structural)]
pub struct Timing {
    pub hh: u128,
    pub mm: u128,
    pub ss: u128,
    pub ms: u128,
}

impl Timing {
    /// Minutes and seconds below 60, milliseconds below 1000.
    pub open spec fn in_range(self) -> bool {
        self.mm < 60 && self.ss < 60 && self.ms < 1000
    }

    /// The duration in milliseconds.
    pub open spec fn total_ms(self) -> nat {
        (self.hh * 3_600_000 + self.mm * 60_000 + self.ss * 1_000 + self.ms) as nat
    }

    /// The timing of a duration given in milliseconds.
    pub open spec fn of_ms(ms: u128) -> Timing {
        Timing {
            hh: ms / 3_600_000,
            mm: (ms / 60_000) % 60,
            ss: (ms / 1_000) % 60,
            ms: ms % 1_000,
        }
    }

    /// The text form: hours, minutes and seconds padded to two digits,
    /// milliseconds to three, colons between them.
    pub open spec fn formatted(self) -> Seq<char> {
        zero_padded(self.hh as nat, 2) + seq![':'] + zero_padded(self.mm as nat, 2) + seq![':']
            + zero_padded(self.ss as nat, 2) + seq![':'] + zero_padded(self.ms as nat, 3)
    }

    /// Reads a count of milliseconds written as one decimal number.
    pub fn _from_string_ms(input: String) -> (r: Option<Timing>)
        ensures
            r == match number_value(input@) {
                Some(ms) => Some(Timing::of_ms(ms)),
                None => None,
            },
    {
        let v = chars_of(input.as_str());
        assert(v@.subrange(0, v.len() as int) =~= v@);
        match parse_number(&v, 0, v.len()) {
            Some(valid_number) => Some(Timing::from_u128_ms(valid_number)),
            None => None,
        }
    }

    /// Reads a time written as `HH:MM:SS:mmm`.
    pub fn from_string_fmtd(input: String) -> (r: Option<Timing>)
        ensures
            r == parsed_timing(input@),
    {
        let v = chars_of(input.as_str());
        let ranges = split_fields(&v);
        if ranges.len() != 4 {
            return None;
        }
        let hh = parse_number(&v, ranges[0].0, ranges[0].1);
        let mm = parse_number(&v, ranges[1].0, ranges[1].1);
        let ss = parse_number(&v, ranges[2].0, ranges[2].1);
        let ms = parse_number(&v, ranges[3].0, ranges[3].1);
        match (hh, mm, ss, ms) {
            (Some(hh), Some(mm), Some(ss), Some(ms)) => {
                if ms >= 1000 {
                    None
                } else if ss >= 60 {
                    None
                } else if mm >= 60 {
                    None
                } else {
                    Some(Timing { hh, mm, ss, ms })
                }
            },
            _ => None,
        }
    }

    /// Takes a count of milliseconds apart.
    pub fn from_u128_ms(input: u128) -> (t: Timing)
        ensures
            t == Timing::of_ms(input),
            t.in_range(),
            t.total_ms() == input,
    {
        proof {
            lemma_of_ms(input);
        }
        let secs = input / 1000;
        let time_ms = input % 1000;
        let time_ss = secs % 60;
        let time_mm = (secs / 60) % 60;
        let time_hh = secs / (60 * 60);
        Timing { hh: time_hh, mm: time_mm, ss: time_ss, ms: time_ms }
    }

    /// Writes the timing as `HH:MM:SS:mmm`. A field too large for its width
    /// is written in full.
    pub fn to_string_formatted(&self) -> (s: String)
        ensures
            s@ == self.formatted(),
    {
        let mut s = String::new();
        assert(s@ + zero_padded(self.hh as nat, 2) =~= zero_padded(self.hh as nat, 2));
        push_padded(&mut s, self.hh, 2);
        s.push(':');
        push_padded(&mut s, self.mm, 2);
        s.push(':');
        push_padded(&mut s, self.ss, 2);
        s.push(':');
        push_padded(&mut s, self.ms, 3);
        assert(s@ =~= self.formatted());
        s
    }

    /// The duration in milliseconds, where it fits in 128 bits.
    pub fn to_u128_ms(&self) -> (r: u128)
        requires
            self.total_ms() <= u128::MAX,
        ensures
            r == self.total_ms(),
    {
        self.hh * MS_PER_HOUR + self.mm * MS_PER_MINUTE + self.ss * MS_PER_SECOND + self.ms
    }

    /// The duration in milliseconds, or nothing where it does not fit in
    /// 128 bits.
    pub fn checked_to_u128_ms(&self) -> (r: Option<u128>)
        ensures
            r == if self.total_ms() <= u128::MAX {
                Some(self.total_ms() as u128)
            } else {
                None
            },
    {
        let h = self.hh.checked_mul(MS_PER_HOUR)?;
        let m = self.mm.checked_mul(MS_PER_MINUTE)?;
        let s = self.ss.checked_mul(MS_PER_SECOND)?;
        let hm = h.checked_add(m)?;
        let hms = hm.checked_add(s)?;
        hms.checked_add(self.ms)
    }
}

/// Writes a count of milliseconds as `HH:MM:SS:mmm`.
pub fn format_ms(ms: u128) -> (text: String)
    ensures
        text@ == formatted_ms(ms),
{
    Timing::from_u128_ms(ms).to_string_formatted()
}

/// Reads a time written as `HH:MM:SS:mmm` as a count of milliseconds.
/// Gives nothing where the text is no such time, or where the count does
/// not fit in 128 bits.
pub fn parse_ms(text: &str) -> (ms: Option<u128>)
    ensures
        ms == parsed_ms(text@),
{
    match Timing::from_string_fmtd(text.to_owned()) {
        Some(ok_time) => ok_time.checked_to_u128_ms(),
        None => None,
    }
}

fn digit_to_char(d: u8) -> (c: char)
    requires
        d < 10,
    ensures
        c == digit_char(d as nat),
{
    match d {
        0 => '0',
        1 => '1',
        2 => '2',
        3 => '3',
        4 => '4',
        5 => '5',
        6 => '6',
        7 => '7',
        8 => '8',
        _ => '9',
    }
}

fn char_to_digit(c: char) -> (r: Option<u8>)
    ensures
        r == if is_digit(c) {
            Some(digit_value(c) as u8)
        } else {
            None
        },
{
    match c {
        '0' => Some(0),
        '1' => Some(1),
        '2' => Some(2),
        '3' => Some(3),
        '4' => Some(4),
        '5' => Some(5),
        '6' => Some(6),
        '7' => Some(7),
        '8' => Some(8),
        '9' => Some(9),
        _ => None,
    }
}

fn push_decimal(out: &mut String, n: u128)
    ensures
        final(out)@ == old(out)@ + decimal_digits(n as nat),
    decreases n,
{
    if n >= 10 {
        push_decimal(out, n / 10);
    }
    out.push(digit_to_char((n % 10) as u8));
    assert(final(out)@ =~= old(out)@ + decimal_digits(n as nat));
}

fn push_padded(out: &mut String, n: u128, width: usize)
    requires
        1 <= width <= 3,
    ensures
        final(out)@ == old(out)@ + zero_padded(n as nat, width as nat),
{
    proof {
        lemma_digit_count(n as nat);
    }
    let ghost zeros = Seq::new(
        (width - decimal_digits(n as nat).len()) as nat,
        |i: int| '0',
    );
    if width >= 3 && n < 100 {
        out.push('0');
    }
    if width >= 2 && n < 10 {
        out.push('0');
    }
    assert(decimal_digits(n as nat).len() < width ==> out@ =~= old(out)@ + zeros);
    push_decimal(out, n);
    assert(final(out)@ =~= old(out)@ + zero_padded(n as nat, width as nat));
}

/// The number written in `v` from `lo` up to `hi`.
fn parse_number(v: &Vec<char>, lo: usize, hi: usize) -> (r: Option<u128>)
    requires
        lo <= hi <= v.len(),
    ensures
        r == number_value(v@.subrange(lo as int, hi as int)),
{
    let ghost field = v@.subrange(lo as int, hi as int);
    let mut start = lo;
    if start < hi && v[start] == '+' {
        start += 1;
    }
    let ghost digits = number_digits(field);
    assert(digits =~= v@.subrange(start as int, hi as int));
    if start == hi {
        return None;
    }
    let mut val: u128 = 0;
    let mut i = start;
    assert(digits.take(0) =~= Seq::<char>::empty());
    while i < hi
        invariant
            lo <= start <= i <= hi <= v.len(),
            start < hi,
            digits == number_digits(v@.subrange(lo as int, hi as int)),
            digits == v@.subrange(start as int, hi as int),
            all_digits(digits.take(i - start)),
            val == decimal_value(digits.take(i - start)),
        decreases hi - i,
    {
        let c = v[i];
        let digit = char_to_digit(c);
        let ghost next = digits.take(i + 1 - start);
        proof {
            assert(next.drop_last() =~= digits.take(i - start));
            assert(next.last() == c);
            assert(digits[i - start] == c);
            lemma_prefix_value_le(digits, i + 1 - start);
        }
        if digit.is_none() {
            return None;
        }
        let d: u128 = digit.unwrap() as u128;
        match val.checked_mul(10) {
            None => {
                return None;
            },
            Some(tens) => match tens.checked_add(d) {
                None => {
                    return None;
                },
                Some(sum) => {
                    val = sum;
                },
            },
        }
        assert(all_digits(next)) by {
            assert forall|k: int| 0 <= k < next.len() implies is_digit(#[trigger] next[k]) by {
                if k < i - start {
                    assert(next[k] == digits.take(i - start)[k]);
                } else {
                    assert(next[k] == c);
                }
            }
        }
        i += 1;
    }
    assert(digits.take(hi - start) =~= digits);
    Some(val)
}

/// Where the pieces between the colons of `v` begin and end.
fn split_fields(v: &Vec<char>) -> (r: Vec<(usize, usize)>)
    ensures
        r@.len() == colon_fields(v@).len(),
        forall|j: int|
            0 <= j < r@.len() ==> {
                &&& (#[trigger] r@[j]).0 <= r@[j].1 <= v.len()
                &&& colon_fields(v@)[j] == v@.subrange(r@[j].0 as int, r@[j].1 as int)
            },
{
    let mut done: Vec<(usize, usize)> = Vec::new();
    let mut start: usize = 0;
    let mut i: usize = 0;
    assert(v@.take(0) =~= Seq::<char>::empty());
    assert(v@.subrange(0, 0) =~= Seq::<char>::empty());
    while i < v.len()
        invariant
            start <= i <= v.len(),
            colon_fields(v@.take(i as int)).len() == done@.len() + 1,
            colon_fields(v@.take(i as int)).last() == v@.subrange(start as int, i as int),
            forall|j: int|
                0 <= j < done@.len() ==> {
                    &&& (#[trigger] done@[j]).0 <= done@[j].1 <= v.len()
                    &&& colon_fields(v@.take(i as int))[j] == v@.subrange(
                        done@[j].0 as int,
                        done@[j].1 as int,
                    )
                },
        decreases v.len() - i,
    {
        let ghost before = colon_fields(v@.take(i as int));
        proof {
            assert(v@.take(i + 1).drop_last() =~= v@.take(i as int));
            assert(v@.take(i + 1).last() == v@[i as int]);
        }
        if v[i] == ':' {
            done.push((start, i));
            start = i + 1;
            assert(v@.subrange(i + 1, i + 1) =~= Seq::<char>::empty());
        } else {
            assert(v@.subrange(start as int, i as int).push(v@[i as int]) =~= v@.subrange(
                start as int,
                i + 1,
            ));
        }
        i += 1;
    }
    assert(v@.take(v.len() as int) =~= v@);
    done.push((start, i));
    done
}

/// A numeral's value is at least that of each of its beginnings.
proof fn lemma_prefix_value_le(d: Seq<char>, k: int)
    requires
        0 <= k <= d.len(),
    ensures
        decimal_value(d.take(k)) <= decimal_value(d),
    decreases d.len(),
{
    if k == d.len() {
        assert(d.take(k) =~= d);
    } else {
        assert(d.drop_last().take(k) =~= d.take(k));
        lemma_prefix_value_le(d.drop_last(), k);
    }
}

/// The numeral of `n` is made of digits and denotes `n`.
pub proof fn lemma_decimal_digits(n: nat)
    ensures
        decimal_digits(n).len() >= 1,
        all_digits(decimal_digits(n)),
        decimal_value(decimal_digits(n)) == n,
    decreases n,
{
    let d = decimal_digits(n);
    if n < 10 {
        assert(d.drop_last() =~= Seq::<char>::empty());
        assert(decimal_value(d.drop_last()) == 0);
        assert(d.last() == digit_char(n));
    } else {
        lemma_decimal_digits(n / 10);
        assert(d.drop_last() =~= decimal_digits(n / 10));
        assert(d.last() == digit_char(n % 10));
        assert forall|i: int| 0 <= i < d.len() implies is_digit(#[trigger] d[i]) by {
            if i < d.len() - 1 {
                assert(d[i] == decimal_digits(n / 10)[i]);
            }
        }
    }
}

/// How long the numerals of small numbers are.
proof fn lemma_digit_count(n: nat)
    ensures
        n < 10 ==> decimal_digits(n).len() == 1,
        10 <= n < 100 ==> decimal_digits(n).len() == 2,
        100 <= n < 1000 ==> decimal_digits(n).len() == 3,
        100 <= n ==> decimal_digits(n).len() >= 3,
    decreases n,
{
    if n >= 10 {
        assert(decimal_digits(n) == decimal_digits(n / 10).push(digit_char(n % 10)));
        lemma_digit_count(n / 10);
        lemma_decimal_digits(n / 10);
    }
}

/// Zeros in front of a numeral do not change what it denotes.
proof fn lemma_leading_zeros(k: nat, d: Seq<char>)
    ensures
        decimal_value(Seq::new(k, |i: int| '0') + d) == decimal_value(d),
    decreases d.len(), k,
{
    let z = Seq::new(k, |i: int| '0');
    if d.len() == 0 {
        assert(z + d =~= z);
        if k > 0 {
            let y = Seq::new((k - 1) as nat, |i: int| '0');
            assert(z.drop_last() =~= y + d);
            lemma_leading_zeros((k - 1) as nat, d);
        }
    } else {
        assert((z + d).drop_last() =~= z + d.drop_last());
        assert((z + d).last() == d.last());
        lemma_leading_zeros(k, d.drop_last());
    }
}

/// A padded numeral is made of digits, is as long as asked, and denotes the
/// number it was made from.
pub proof fn lemma_zero_padded(n: nat, width: nat)
    ensures
        zero_padded(n, width).len() >= 1,
        zero_padded(n, width).len() >= width,
        all_digits(zero_padded(n, width)),
        decimal_value(zero_padded(n, width)) == n,
{
    lemma_decimal_digits(n);
    let d = decimal_digits(n);
    if d.len() < width {
        lemma_leading_zeros((width - d.len()) as nat, d);
    }
}

/// A text without a colon is one piece.
proof fn lemma_fields_single(b: Seq<char>)
    requires
        forall|i: int| 0 <= i < b.len() ==> b[i] != ':',
    ensures
        colon_fields(b) == seq![b],
    decreases b.len(),
{
    if b.len() == 0 {
        assert(b =~= Seq::<char>::empty());
    } else {
        lemma_fields_single(b.drop_last());
        let before = colon_fields(b.drop_last());
        assert(before.last().push(b.last()) =~= b);
        assert(before.drop_last().push(b) =~= seq![b]);
    }
}

/// A colon and a text without colons add one piece.
proof fn lemma_fields_append(a: Seq<char>, b: Seq<char>)
    requires
        forall|i: int| 0 <= i < b.len() ==> b[i] != ':',
    ensures
        colon_fields(a + seq![':'] + b) == colon_fields(a).push(b),
    decreases b.len(),
{
    let s = a + seq![':'] + b;
    if b.len() == 0 {
        assert(s.drop_last() =~= a);
        assert(b =~= Seq::<char>::empty());
    } else {
        assert(s.drop_last() =~= a + seq![':'] + b.drop_last());
        lemma_fields_append(a, b.drop_last());
        let before = colon_fields(s.drop_last());
        assert(before.last().push(b.last()) =~= b);
        assert(before.drop_last() =~= colon_fields(a));
    }
}

/// A padded numeral, read as a number, gives the number back.
proof fn lemma_padded_reads_back(n: u128, width: nat)
    ensures
        number_value(zero_padded(n as nat, width)) == Some(n),
        forall|i: int|
            0 <= i < zero_padded(n as nat, width).len() ==> zero_padded(n as nat, width)[i] != ':',
{
    lemma_zero_padded(n as nat, width);
    let p = zero_padded(n as nat, width);
    assert(is_digit(p[0]));
    assert forall|i: int| 0 <= i < p.len() implies p[i] != ':' by {
        assert(is_digit(p[i]));
    }
}

/// Reading the text form of a timing gives the timing back, whenever its
/// minutes and seconds are below 60 and its milliseconds below 1000.
pub proof fn lemma_parse_formatted(t: Timing)
    requires
        t.in_range(),
    ensures
        parsed_timing(t.formatted()) == Some(t),
{
    let f0 = zero_padded(t.hh as nat, 2);
    let f1 = zero_padded(t.mm as nat, 2);
    let f2 = zero_padded(t.ss as nat, 2);
    let f3 = zero_padded(t.ms as nat, 3);
    lemma_padded_reads_back(t.hh, 2);
    lemma_padded_reads_back(t.mm, 2);
    lemma_padded_reads_back(t.ss, 2);
    lemma_padded_reads_back(t.ms, 3);
    lemma_fields_single(f0);
    lemma_fields_append(f0, f1);
    lemma_fields_append(f0 + seq![':'] + f1, f2);
    lemma_fields_append(f0 + seq![':'] + f1 + seq![':'] + f2, f3);
    let f = colon_fields(t.formatted());
    assert(f =~= seq![f0, f1, f2, f3]);
}

/// Formatting a count of milliseconds and reading the text back gives
/// that count, for every count.
pub proof fn lemma_format_parse_round_trip(ms: u128)
    ensures
        parsed_timing(formatted_ms(ms)) == Some(Timing::of_ms(ms)),
        parsed_ms(formatted_ms(ms)) == Some(ms),
{
    lemma_of_ms(ms);
    lemma_parse_formatted(Timing::of_ms(ms));
}

/// Two counts of milliseconds with the same text form are the same count.
pub proof fn lemma_format_injective(a: u128, b: u128)
    requires
        formatted_ms(a) == formatted_ms(b),
    ensures
        a == b,
{
    lemma_format_parse_round_trip(a);
    lemma_format_parse_round_trip(b);
}

/// Below a hundred hours the text form is twelve characters long; from a
/// hundred hours on it is longer.
pub proof fn lemma_formatted_len(t: Timing)
    requires
        t.in_range(),
    ensures
        t.hh < 100 ==> t.formatted().len() == 12,
        t.hh >= 100 ==> t.formatted().len() > 12,
{
    lemma_digit_count(t.hh as nat);
    lemma_digit_count(t.mm as nat);
    lemma_digit_count(t.ss as nat);
    lemma_digit_count(t.ms as nat);
    let f0 = zero_padded(t.hh as nat, 2);
    let f1 = zero_padded(t.mm as nat, 2);
    let f2 = zero_padded(t.ss as nat, 2);
    let f3 = zero_padded(t.ms as nat, 3);
    assert(t.hh < 100 ==> f0.len() == 2);
    assert(t.hh >= 100 ==> f0.len() >= 3);
    assert(f1.len() == 2);
    assert(f2.len() == 2);
    assert(f3.len() == 3);
    assert(t.formatted().len() == f0.len() + 1 + f1.len() + 1 + f2.len() + 1 + f3.len());
}

/// Zero milliseconds are written `00:00:00:000`.
pub proof fn lemma_format_zero()
    ensures
        Timing::of_ms(0).formatted() == "00:00:00:000"@,
{
    reveal_strlit("00:00:00:000");
    let zero = Timing::of_ms(0);
    assert(zero.hh == 0 && zero.mm == 0 && zero.ss == 0 && zero.ms == 0);
    assert(decimal_digits(0) =~= seq!['0']);
    assert(zero_padded(0, 2) =~= seq!['0', '0']);
    assert(zero_padded(0, 3) =~= seq!['0', '0', '0']);
    assert(zero.formatted() =~= "00:00:00:000"@);
}

/// The timing of a count of milliseconds is in range and adds up to that
/// count; its hours and minutes are also those of the whole seconds.
pub proof fn lemma_of_ms(ms: u128)
    ensures
        Timing::of_ms(ms).in_range(),
        Timing::of_ms(ms).total_ms() == ms,
        Timing::of_ms(ms).hh == (ms / 1000) / 3600,
        Timing::of_ms(ms).mm == ((ms / 1000) / 60) % 60,
{
    let x = ms as int;
    let s = x / 1000;
    let r = x % 1000;
    let m = s / 60;
    let ss = s % 60;
    let h = m / 60;
    let mm = m % 60;
    assert(x == s * 1000 + r);
    assert(s == m * 60 + ss);
    assert(m == h * 60 + mm);
    vstd::arithmetic::div_mod::lemma_fundamental_div_mod_converse(x, 60_000, m, ss * 1000 + r);
    vstd::arithmetic::div_mod::lemma_fundamental_div_mod_converse(
        x,
        3_600_000,
        h,
        mm * 60_000 + ss * 1000 + r,
    );
    vstd::arithmetic::div_mod::lemma_fundamental_div_mod_converse(s, 3600, h, mm * 60 + ss);
}

/// Milliseconds and timings in range correspond one to one: the timing of
/// a timing's total is that timing.
pub proof fn lemma_timing_of_total(t: Timing)
    requires
        t.in_range(),
        t.total_ms() <= u128::MAX,
    ensures
        Timing::of_ms(t.total_ms() as u128) == t,
{
    let x = t.total_ms() as int;
    let h = t.hh as int;
    let m = t.mm as int;
    let s = t.ss as int;
    let r = t.ms as int;
    vstd::arithmetic::div_mod::lemma_fundamental_div_mod_converse(
        x,
        3_600_000,
        h,
        m * 60_000 + s * 1000 + r,
    );
    vstd::arithmetic::div_mod::lemma_fundamental_div_mod_converse(
        x,
        60_000,
        h * 60 + m,
        s * 1000 + r,
    );
    vstd::arithmetic::div_mod::lemma_fundamental_div_mod_converse(
        x,
        1000,
        h * 3600 + m * 60 + s,
        r,
    );
    vstd::arithmetic::div_mod::lemma_fundamental_div_mod_converse(h * 60 + m, 60, h, m);
    vstd::arithmetic::div_mod::lemma_fundamental_div_mod_converse(
        h * 3600 + m * 60 + s,
        60,
        h * 60 + m,
        s,
    );
}

} // verus!
