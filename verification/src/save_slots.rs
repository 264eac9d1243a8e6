//! Names of save slots: `yy.mm.dd.n`, the day of the save and a running
//! number, as bytes.

use vstd::prelude::*;
use vstd::slice::slice_subrange;

verus! {

/// The byte of a full stop, which parts the fields of a name.
pub const DOT: u8 = 46;

/// The byte of the digit zero.
pub const ZERO: u8 = 48;

/// The byte of a plus sign.
pub const PLUS: u8 = 43;

/// The day of a save: the year within its century, the month and the day.
#[derive(Clone, Copy, Debug, PartialEq, Eq, Structural)]
pub struct SlotDate {
    pub year: u32,
    pub month: u32,
    pub day: u32,
}

/// What a slot's name says: the day of the save and the running number.
#[derive(Clone, Copy, Debug, PartialEq, Eq, Structural)]
pub struct SlotName {
    pub date: SlotDate,
    pub sequence: u32,
}

/// The decimal digits of `n`, without leading zeros.
pub open spec fn digits_of(n: nat) -> Seq<u8>
    decreases n,
{
    if n < 10 {
        seq![(ZERO + n) as u8]
    } else {
        digits_of(n / 10).push((ZERO + n % 10) as u8)
    }
}

/// The decimal digits of `n`, with a leading zero where there would be one
/// digit only.
pub open spec fn two_digits(n: nat) -> Seq<u8> {
    if n < 10 {
        seq![ZERO].add(digits_of(n))
    } else {
        digits_of(n)
    }
}

/// The name shown for the save of number `index` on `date`.
pub open spec fn display_name(date: SlotDate, index: u64) -> Seq<u8> {
    two_digits(date.year as nat).push(DOT).add(two_digits(date.month as nat)).push(DOT).add(
        two_digits(date.day as nat),
    ).push(DOT).add(digits_of(index as nat))
}

fn push_digits(out: &mut Vec<u8>, n: u64)
    ensures
        final(out)@ == old(out)@.add(digits_of(n as nat)),
    decreases n,
{
    if n >= 10 {
        push_digits(out, n / 10);
    }
    out.push(ZERO + (n % 10) as u8);
    proof {
        if n >= 10 {
            assert(final(out)@ =~= old(out)@.add(digits_of(n as nat)));
        } else {
            assert(final(out)@ =~= old(out)@.add(digits_of(n as nat)));
        }
    }
}

fn push_two_digits(out: &mut Vec<u8>, n: u32)
    ensures
        final(out)@ == old(out)@.add(two_digits(n as nat)),
{
    if n < 10 {
        out.push(ZERO);
    }
    push_digits(out, n as u64);
    assert(final(out)@ =~= old(out)@.add(two_digits(n as nat)));
}

/// The name shown for the save of number `index` on `date`: year, month and
/// day with two digits at least, then the number, parted by full stops.
pub fn generate_slot_display_name(date: &SlotDate, index: u64) -> (name: Vec<u8>)
    ensures
        name@ == display_name(*date, index),
{
    let mut name: Vec<u8> = Vec::new();
    push_two_digits(&mut name, date.year);
    name.push(DOT);
    push_two_digits(&mut name, date.month);
    name.push(DOT);
    push_two_digits(&mut name, date.day);
    name.push(DOT);
    push_digits(&mut name, index);
    assert(name@ =~= display_name(*date, index));
    name
}

pub open spec fn is_digit(b: u8) -> bool {
    ZERO <= b <= ZERO + 9
}

pub open spec fn all_digits(s: Seq<u8>) -> bool {
    forall|i: int| 0 <= i < s.len() ==> is_digit(#[trigger] s[i])
}

/// The number that the decimal digits `s` write.
pub open spec fn value_of(s: Seq<u8>) -> nat
    decreases s.len(),
{
    if s.len() == 0 {
        0
    } else {
        value_of(s.drop_last()) * 10 + (s.last() - ZERO) as nat
    }
}

/// The number that `s` writes, as the standard library reads one: decimal
/// digits, at least one, after at most one plus sign, and no more than the
/// type holds.
pub open spec fn number_in(s: Seq<u8>) -> Option<u32> {
    let digits = if s.len() > 0 && s[0] == PLUS {
        s.drop_first()
    } else {
        s
    };
    if digits.len() > 0 && all_digits(digits) && value_of(digits) <= u32::MAX {
        Some(value_of(digits) as u32)
    } else {
        None
    }
}

/// A number written in digits is at least what its first digits write.
pub proof fn lemma_value_grows(s: Seq<u8>, n: int)
    requires
        all_digits(s),
        0 <= n <= s.len(),
    ensures
        value_of(s.take(n)) <= value_of(s),
    decreases s.len() - n,
{
    if n < s.len() {
        lemma_value_grows(s, n + 1);
        assert(s.take(n + 1).drop_last() =~= s.take(n));
        assert(is_digit(s[n]));
    } else {
        assert(s.take(n) =~= s);
    }
}

/// The place of the first full stop in `s` at or after `from`, or the
/// length of `s` if there is none.
pub open spec fn next_dot(s: Seq<u8>, from: int) -> int
    decreases s.len() - from,
{
    if from >= s.len() {
        s.len() as int
    } else if s[from] == DOT {
        from
    } else {
        next_dot(s, from + 1)
    }
}

/// What the name `s` says, if it is four numbers parted by three full
/// stops.
pub open spec fn name_in(s: Seq<u8>) -> Option<SlotName> {
    let a = next_dot(s, 0);
    let b = next_dot(s, a + 1);
    let c = next_dot(s, b + 1);
    if c < s.len() && next_dot(s, c + 1) == s.len() && number_in(s.subrange(0, a)) is Some
        && number_in(s.subrange(a + 1, b)) is Some && number_in(s.subrange(b + 1, c)) is Some
        && number_in(s.subrange(c + 1, s.len() as int)) is Some {
        Some(
            SlotName {
                date: SlotDate {
                    year: number_in(s.subrange(0, a))->0,
                    month: number_in(s.subrange(a + 1, b))->0,
                    day: number_in(s.subrange(b + 1, c))->0,
                },
                sequence: number_in(s.subrange(c + 1, s.len() as int))->0,
            },
        )
    } else {
        None
    }
}

/// `next_dot` finds the first full stop at or after `from`.
pub proof fn lemma_next_dot(s: Seq<u8>, from: int)
    requires
        0 <= from,
    ensures
        from <= next_dot(s, from) || next_dot(s, from) == s.len(),
        next_dot(s, from) <= s.len(),
        from <= s.len() ==> from <= next_dot(s, from),
        next_dot(s, from) < s.len() ==> s[next_dot(s, from)] == DOT,
        forall|i: int| from <= i < next_dot(s, from) ==> #[trigger] s[i] != DOT,
    decreases s.len() - from,
{
    if from < s.len() && s[from] != DOT {
        lemma_next_dot(s, from + 1);
    }
}

/// The digits of a number are digits, at least one, and write that number.
pub proof fn lemma_digits_write_the_number(n: nat)
    ensures
        digits_of(n).len() >= 1,
        all_digits(digits_of(n)),
        value_of(digits_of(n)) == n,
    decreases n,
{
    let d = digits_of(n);
    if n < 10 {
        assert(d.drop_last() =~= Seq::<u8>::empty());
        assert(value_of(d.drop_last()) == 0);
    } else {
        lemma_digits_write_the_number(n / 10);
        assert(d.drop_last() =~= digits_of(n / 10));
    }
}

/// So do its digits with a leading zero.
pub proof fn lemma_two_digits_write_the_number(n: nat)
    ensures
        two_digits(n).len() >= 1,
        all_digits(two_digits(n)),
        value_of(two_digits(n)) == n,
{
    lemma_digits_write_the_number(n);
    if n < 10 {
        let d = two_digits(n);
        assert(d.len() == 2 && d[0] == ZERO && d[1] == (ZERO + n) as u8);
        assert(d.drop_last().drop_last() =~= Seq::<u8>::empty());
        assert(d.drop_last().last() == ZERO);
        assert(value_of(d.drop_last().drop_last()) == 0);
        assert(value_of(d.drop_last()) == 0);
    }
}

/// A field of digits reads as the number that they write.
proof fn lemma_field_reads(s: Seq<u8>, n: nat)
    requires
        s.len() >= 1,
        all_digits(s),
        value_of(s) == n,
        n <= u32::MAX,
    ensures
        number_in(s) == Some(n as u32),
{
    assert(is_digit(s[0]));
}

/// Where no full stop lies from `from` up to `to`, the search from `from`
/// goes on at `to`.
proof fn lemma_next_dot_skips(s: Seq<u8>, from: int, to: int)
    requires
        0 <= from <= to <= s.len(),
        forall|i: int| from <= i < to ==> #[trigger] s[i] != DOT,
    ensures
        next_dot(s, from) == next_dot(s, to),
    decreases to - from,
{
    if from < to {
        lemma_next_dot_skips(s, from + 1, to);
    }
}

/// A name reads as what it was written from: the day and the running
/// number.
pub proof fn lemma_parse_reads_generated(date: SlotDate, index: u32)
    ensures
        name_in(display_name(date, index as u64)) == Some(SlotName { date, sequence: index }),
{
    let y = two_digits(date.year as nat);
    let m = two_digits(date.month as nat);
    let d = two_digits(date.day as nat);
    let q = digits_of(index as nat);
    lemma_two_digits_write_the_number(date.year as nat);
    lemma_two_digits_write_the_number(date.month as nat);
    lemma_two_digits_write_the_number(date.day as nat);
    lemma_digits_write_the_number(index as nat);
    let s = display_name(date, index as u64);
    let a = y.len() as int;
    let b = a + 1 + m.len();
    let c = b + 1 + d.len();
    assert(s.len() == c + 1 + q.len());
    assert(s.subrange(0, a) =~= y);
    assert(s.subrange(a + 1, b) =~= m);
    assert(s.subrange(b + 1, c) =~= d);
    assert(s.subrange(c + 1, s.len() as int) =~= q);
    assert(s[a] == DOT && s[b] == DOT && s[c] == DOT);
    assert forall|i: int| 0 <= i < a implies #[trigger] s[i] != DOT by {
        assert(is_digit(y[i]));
    }
    assert forall|i: int| a + 1 <= i < b implies #[trigger] s[i] != DOT by {
        assert(is_digit(m[i - a - 1]));
    }
    assert forall|i: int| b + 1 <= i < c implies #[trigger] s[i] != DOT by {
        assert(is_digit(d[i - b - 1]));
    }
    assert forall|i: int| c + 1 <= i < s.len() implies #[trigger] s[i] != DOT by {
        assert(is_digit(q[i - c - 1]));
    }
    lemma_next_dot_skips(s, 0, a);
    lemma_next_dot_skips(s, a + 1, b);
    lemma_next_dot_skips(s, b + 1, c);
    lemma_next_dot_skips(s, c + 1, s.len() as int);
    assert(next_dot(s, a) == a);
    assert(next_dot(s, b) == b);
    assert(next_dot(s, c) == c);
    assert(next_dot(s, s.len() as int) == s.len());
    lemma_field_reads(y, date.year as nat);
    lemma_field_reads(m, date.month as nat);
    lemma_field_reads(d, date.day as nat);
    lemma_field_reads(q, index as nat);
}

fn find_dot(s: &[u8], from: usize) -> (at: usize)
    requires
        from <= s.len(),
    ensures
        at == next_dot(s@, from as int),
        from <= at <= s.len(),
{
    let mut i = from;
    while i < s.len() && s[i] != DOT
        invariant
            from <= i <= s.len(),
            next_dot(s@, i as int) == next_dot(s@, from as int),
        decreases s.len() - i,
    {
        i += 1;
    }
    i
}

fn read_number(s: &[u8], from: usize, to: usize) -> (n: Option<u32>)
    requires
        from <= to <= s.len(),
    ensures
        n == number_in(s@.subrange(from as int, to as int)),
{
    let ghost field = s@.subrange(from as int, to as int);
    let mut start = from;
    if from < to && s[from] == PLUS {
        start = from + 1;
    }
    let ghost digits = s@.subrange(start as int, to as int);
    proof {
        if start == from {
            assert(digits =~= field);
            if field.len() > 0 {
                assert(field[0] == s@[from as int]);
            }
        } else {
            assert(field[0] == PLUS);
            assert(digits =~= field.drop_first());
        }
    }
    if start == to {
        return None;
    }
    let mut value: u64 = 0;
    let mut i = start;
    while i < to
        invariant
            start <= i <= to <= s.len(),
            from <= start < to,
            field == s@.subrange(from as int, to as int),
            digits == s@.subrange(start as int, to as int),
            digits == (if field.len() > 0 && field[0] == PLUS {
                field.drop_first()
            } else {
                field
            }),
            all_digits(digits.take(i - start)),
            value == value_of(digits.take(i - start)),
            value <= u32::MAX,
        decreases to - i,
    {
        let b = s[i];
        proof {
            assert(digits[i - start] == b);
            assert(digits.take(i - start + 1).drop_last() =~= digits.take(i - start));
        }
        if b < ZERO || b > ZERO + 9 {
            assert(!is_digit(digits[i - start]));
            return None;
        }
        let next: u64 = value * 10 + (b - ZERO) as u64;
        proof {
            assert forall|j: int| 0 <= j < i - start + 1 implies is_digit(
                #[trigger] digits.take(i - start + 1)[j],
            ) by {
                if j < i - start {
                    assert(digits.take(i - start)[j] == digits.take(i - start + 1)[j]);
                }
            }
        }
        if next > u32::MAX as u64 {
            proof {
                if all_digits(digits) {
                    lemma_value_grows(digits, i - start + 1);
                }
            }
            return None;
        }
        value = next;
        i += 1;
    }
    assert(digits.take(to - start) =~= digits);
    Some(value as u32)
}

/// Reads the name of a slot: four numbers parted by three full stops, as
/// `generate_slot_display_name` writes them. Any other name says nothing.
pub fn parse_slot_name(name: &[u8]) -> (parsed: Option<SlotName>)
    ensures
        parsed == name_in(name@),
{
    let a = find_dot(name, 0);
    if a >= name.len() {
        proof {
            lemma_next_dot(name@, a + 1);
            lemma_next_dot(name@, next_dot(name@, a + 1) + 1);
        }
        return None;
    }
    let b = find_dot(name, a + 1);
    if b >= name.len() {
        proof {
            lemma_next_dot(name@, b + 1);
        }
        return None;
    }
    let c = find_dot(name, b + 1);
    if c >= name.len() {
        return None;
    }
    let d = find_dot(name, c + 1);
    if d < name.len() {
        return None;
    }
    let year = match read_number(name, 0, a) {
        Some(n) => n,
        None => {
            return None;
        },
    };
    let month = match read_number(name, a + 1, b) {
        Some(n) => n,
        None => {
            return None;
        },
    };
    let day = match read_number(name, b + 1, c) {
        Some(n) => n,
        None => {
            return None;
        },
    };
    let sequence = match read_number(name, c + 1, name.len()) {
        Some(n) => n,
        None => {
            return None;
        },
    };
    Some(SlotName { date: SlotDate { year, month, day }, sequence })
}

/// The largest running number among the names in `names` that are of
/// `date`; zero if there is none.
pub open spec fn last_sequence(names: Seq<Vec<u8>>, date: SlotDate) -> u32
    decreases names.len(),
{
    if names.len() == 0 {
        0
    } else {
        let before = last_sequence(names.drop_last(), date);
        let parsed = name_in(names.last()@);
        if parsed is Some && parsed->0.date == date && parsed->0.sequence > before {
            parsed->0.sequence
        } else {
            before
        }
    }
}

/// The running number of the next save on `date`: one more than the
/// largest among the slots of that day, and one on a day without slots.
pub fn next_sequence(names: &Vec<Vec<u8>>, date: &SlotDate) -> (next: u64)
    ensures
        next == last_sequence(names@, *date) + 1,
{
    let mut last: u32 = 0;
    let mut i: usize = 0;
    while i < names.len()
        invariant
            i <= names.len(),
            last == last_sequence(names@.take(i as int), *date),
        decreases names.len() - i,
    {
        proof {
            assert(names@.take(i + 1).drop_last() =~= names@.take(i as int));
            assert(names@.take(i + 1).last() == names@[i as int]);
        }
        match parse_slot_name(names[i].as_slice()) {
            Some(parsed) => {
                if parsed.date.year == date.year && parsed.date.month == date.month
                    && parsed.date.day == date.day && parsed.sequence > last {
                    last = parsed.sequence;
                }
            },
            None => {},
        }
        i += 1;
    }
    assert(names@.take(names.len() as int) =~= names@);
    last as u64 + 1
}

/// The ending of a save file's name: `.json`.
pub open spec fn json_suffix() -> Seq<u8> {
    seq![46u8, 106u8, 115u8, 111u8, 110u8]
}

/// The beginning of the name of an automatic save: `auto_`.
pub open spec fn auto_prefix() -> Seq<u8> {
    seq![97u8, 117u8, 116u8, 111u8, 95u8]
}

/// The name of the automatic save that has no slot of its own: `autosave`.
pub open spec fn autosave_name() -> Seq<u8> {
    seq![97u8, 117u8, 116u8, 111u8, 115u8, 97u8, 118u8, 101u8]
}

pub open spec fn ends_with(s: Seq<u8>, suffix: Seq<u8>) -> bool {
    s.len() >= suffix.len() && s.subrange(s.len() - suffix.len(), s.len() as int) == suffix
}

pub open spec fn starts_with(s: Seq<u8>, prefix: Seq<u8>) -> bool {
    s.len() >= prefix.len() && s.subrange(0, prefix.len() as int) == prefix
}

/// A file's name without its `.json` endings, however many there are.
pub open spec fn without_json(s: Seq<u8>) -> Seq<u8>
    decreases s.len(),
{
    if ends_with(s, json_suffix()) {
        without_json(s.take(s.len() - 5))
    } else {
        s
    }
}

fn has_at(s: &[u8], at: usize, part: &[u8]) -> (b: bool)
    requires
        at + part.len() <= s.len(),
    ensures
        b == (s@.subrange(at as int, at + part.len()) == part@),
{
    let mut i: usize = 0;
    while i < part.len()
        invariant
            i <= part.len(),
            at + part.len() <= s.len(),
            forall|j: int| 0 <= j < i ==> s@[at + j] == part@[j],
        decreases part.len() - i,
    {
        if s[at + i] != part[i] {
            assert(s@.subrange(at as int, at + part.len())[i as int] != part@[i as int]);
            return false;
        }
        i += 1;
    }
    assert(s@.subrange(at as int, at + part.len()) =~= part@);
    true
}

/// Whether `file_name` is the name of a save file: it ends in `.json`.
pub fn is_save_file(file_name: &[u8]) -> (b: bool)
    ensures
        b == ends_with(file_name@, json_suffix()),
{
    let suffix: [u8; 5] = [46, 106, 115, 111, 110];
    assert(suffix@ =~= json_suffix());
    file_name.len() >= 5 && has_at(file_name, file_name.len() - 5, suffix.as_slice())
}

/// The name shown for the slot in the file `file_name`: the file's name
/// without its `.json` endings.
pub fn slot_display_of(file_name: &[u8]) -> (display: Vec<u8>)
    ensures
        display@ == without_json(file_name@),
{
    let mut end = file_name.len();
    assert(file_name@.take(end as int) =~= file_name@);
    while end >= 5 && is_save_file(slice_subrange(file_name, 0, end))
        invariant
            end <= file_name.len(),
            without_json(file_name@.take(end as int)) == without_json(file_name@),
        decreases end,
    {
        proof {
            let now = file_name@.take(end as int);
            assert(file_name@.subrange(0, end as int) =~= now);
            assert(now.take(now.len() - 5) =~= file_name@.take(end - 5));
        }
        end = end - 5;
    }
    proof {
        let now = file_name@.take(end as int);
        assert(file_name@.subrange(0, end as int) =~= now);
        assert(!ends_with(now, json_suffix()));
    }
    let mut display: Vec<u8> = Vec::new();
    let mut i: usize = 0;
    while i < end
        invariant
            i <= end <= file_name.len(),
            display@ == file_name@.take(i as int),
        decreases end - i,
    {
        display.push(file_name[i]);
        assert(display@ =~= file_name@.take(i + 1));
        i += 1;
    }
    display
}

/// Whether the slot shown as `display` is an automatic save: its name
/// begins with `auto_` or is `autosave`.
pub fn is_auto_slot(display: &[u8]) -> (b: bool)
    ensures
        b == (starts_with(display@, auto_prefix()) || display@ == autosave_name()),
{
    let prefix: [u8; 5] = [97, 117, 116, 111, 95];
    let whole: [u8; 8] = [97, 117, 116, 111, 115, 97, 118, 101];
    assert(prefix@ =~= auto_prefix());
    assert(whole@ =~= autosave_name());
    if display.len() >= 5 && has_at(display, 0, prefix.as_slice()) {
        return true;
    }
    if display.len() == 8 {
        let same = has_at(display, 0, whole.as_slice());
        assert(display@.subrange(0, 8) =~= display@);
        same
    } else {
        false
    }
}

} // verus!
