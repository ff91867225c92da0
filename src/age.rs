//! Ages of repositories: the compact `<n><unit>` token, its label, the
//! cutoff date it gives, and the interactive stepper that picks one.

use vstd::prelude::*;
use crate::date::{Date, date_with_year, date_months_before, date_before};
use crate::keys::Key;

verus! {

/// A minimum age, in whole months or whole years.
#[derive(Clone, Copy, Debug, PartialEq, Eq, Structural)]
pub enum Age {
    Months(u32),
    Years(u32),
}

/// Why an age token was refused.
#[derive(Clone, Copy, Debug, PartialEq, Eq, Structural)]
pub enum AgeError {
    /// Nothing but whitespace was given.
    Empty,
    /// What precedes the unit letter is not a number that fits in `u32`.
    InvalidNumber,
    /// The last character is neither `y` nor `m`.
    InvalidUnit,
}

/// The unit that the stepper counts in.
#[derive(Clone, Copy, Debug, PartialEq, Eq, Structural)]
pub enum AgeUnit {
    Months,
    Years,
}

// ---------------------------------------------------------------------------
// Decimal numbers

pub open spec fn is_digit(c: char) -> bool {
    '0' <= c <= '9'
}

pub open spec fn digit_value(c: char) -> int {
    if is_digit(c) {
        c as int - '0' as int
    } else {
        0
    }
}

/// The number that a string of decimal digits denotes.
pub open spec fn digits_value(s: Seq<char>) -> int
    decreases s.len(),
{
    if s.len() == 0 {
        0
    } else {
        digits_value(s.drop_last()) * 10 + digit_value(s.last())
    }
}

pub open spec fn all_digits(s: Seq<char>) -> bool {
    forall|i: int| 0 <= i < s.len() ==> is_digit(#[trigger] s[i])
}

/// What `u32`'s `from_str` accepts: an optional `+`, then one or more decimal
/// digits whose value fits in `u32`.
pub open spec fn magnitude_of(s: Seq<char>) -> Option<u32> {
    let d = if s.len() > 0 && s[0] == '+' {
        s.drop_first()
    } else {
        s
    };
    if d.len() > 0 && all_digits(d) && digits_value(d) <= u32::MAX {
        Some(digits_value(d) as u32)
    } else {
        None
    }
}

pub open spec fn digit_char(d: int) -> char {
    if d == 0 {
        '0'
    } else if d == 1 {
        '1'
    } else if d == 2 {
        '2'
    } else if d == 3 {
        '3'
    } else if d == 4 {
        '4'
    } else if d == 5 {
        '5'
    } else if d == 6 {
        '6'
    } else if d == 7 {
        '7'
    } else if d == 8 {
        '8'
    } else {
        '9'
    }
}

/// The decimal digits of `n`, without leading zeros.
pub open spec fn decimal(n: nat) -> Seq<char>
    decreases n,
{
    if n < 10 {
        seq![digit_char(n as int)]
    } else {
        decimal(n / 10).push(digit_char((n % 10) as int))
    }
}

proof fn lemma_digits_value_nonneg(s: Seq<char>)
    ensures
        digits_value(s) >= 0,
    decreases s.len(),
{
    if s.len() > 0 {
        lemma_digits_value_nonneg(s.drop_last());
    }
}

fn digit_text(d: u32) -> (r: &'static str)
    requires
        d < 10,
    ensures
        r@ == seq![digit_char(d as int)],
{
    if d == 0 {
        proof { reveal_strlit("0"); }
        "0"
    } else if d == 1 {
        proof { reveal_strlit("1"); }
        "1"
    } else if d == 2 {
        proof { reveal_strlit("2"); }
        "2"
    } else if d == 3 {
        proof { reveal_strlit("3"); }
        "3"
    } else if d == 4 {
        proof { reveal_strlit("4"); }
        "4"
    } else if d == 5 {
        proof { reveal_strlit("5"); }
        "5"
    } else if d == 6 {
        proof { reveal_strlit("6"); }
        "6"
    } else if d == 7 {
        proof { reveal_strlit("7"); }
        "7"
    } else if d == 8 {
        proof { reveal_strlit("8"); }
        "8"
    } else {
        proof { reveal_strlit("9"); }
        "9"
    }
}

/// Appends the decimal digits of `n` to `out`.
pub fn push_decimal(out: &mut String, n: u32)
    ensures
        final(out)@ == old(out)@ + decimal(n as nat),
    decreases n,
{
    if n >= 10 {
        push_decimal(out, n / 10);
    }
    out.append(digit_text(n % 10));
    proof {
        if n >= 10 {
            assert(decimal(n as nat) == decimal((n / 10) as nat).push(digit_char((n % 10) as int)));
        }
    }
    assert(out@ =~= old(out)@ + decimal(n as nat));
}

/// Reads a magnitude as `u32`'s `from_str` does.
pub fn parse_magnitude(s: &str) -> (r: Option<u32>)
    ensures
        r == magnitude_of(s@),
{
    let len = s.unicode_len();
    let mut start: usize = 0;
    if len > 0 && s.get_char(0) == '+' {
        start = 1;
    }
    let ghost d = if s@.len() > 0 && s@[0] == '+' {
        s@.drop_first()
    } else {
        s@
    };
    assert(d =~= s@.subrange(start as int, len as int));
    if start == len {
        return None;
    }
    let mut value: u64 = 0;
    let mut too_big = false;
    let mut i: usize = start;
    while i < len
        invariant
            start <= i <= len,
            len == s@.len(),
            d == s@.subrange(start as int, len as int),
            d == (if s@.len() > 0 && s@[0] == '+' {
                s@.drop_first()
            } else {
                s@
            }),
            all_digits(s@.subrange(start as int, i as int)),
            !too_big ==> value == digits_value(s@.subrange(start as int, i as int)),
            !too_big ==> value <= u32::MAX,
            too_big ==> digits_value(s@.subrange(start as int, i as int)) > u32::MAX,
        decreases len - i,
    {
        let c = s.get_char(i);
        if !('0' <= c && c <= '9') {
            assert(d[i - start] == c);
            assert(!is_digit(d[i - start]));
            assert(!all_digits(d));
            return None;
        }
        let ghost prev = s@.subrange(start as int, i as int);
        let ghost next = s@.subrange(start as int, i + 1);
        assert(next.drop_last() =~= prev);
        assert(next.last() == c);
        let digit: u64 = (c as u64) - ('0' as u64);
        proof {
            lemma_digits_value_nonneg(prev);
        }
        if !too_big {
            let v = value * 10 + digit;
            if v > u32::MAX as u64 {
                too_big = true;
            } else {
                value = v;
            }
        }
        i = i + 1;
    }
    assert(s@.subrange(start as int, len as int) == d);
    if too_big {
        None
    } else {
        Some(value as u32)
    }
}

/// The age that a trimmed, lower-case token denotes.
pub open spec fn age_of_token(t: Seq<char>) -> Result<Age, AgeError> {
    if t.len() == 0 {
        Err(AgeError::Empty)
    } else {
        match magnitude_of(t.drop_last()) {
            None => Err(AgeError::InvalidNumber),
            Some(n) => if t.last() == 'y' {
                Ok(Age::Years(n))
            } else if t.last() == 'm' {
                Ok(Age::Months(n))
            } else {
                Err(AgeError::InvalidUnit)
            },
        }
    }
}

/// A character with the Unicode property White_Space.
pub open spec fn is_white_space(c: char) -> bool {
    ('\u{9}' <= c <= '\u{d}') || c == ' ' || c == '\u{85}' || c == '\u{a0}' || c == '\u{1680}'
        || ('\u{2000}' <= c <= '\u{200a}') || c == '\u{2028}' || c == '\u{2029}' || c
        == '\u{202f}' || c == '\u{205f}' || c == '\u{3000}'
}

/// `s` without its leading white space.
pub open spec fn trim_start_of(s: Seq<char>) -> Seq<char>
    decreases s.len(),
{
    if s.len() > 0 && is_white_space(s[0]) {
        trim_start_of(s.drop_first())
    } else {
        s
    }
}

/// `s` without its trailing white space.
pub open spec fn trim_end_of(s: Seq<char>) -> Seq<char>
    decreases s.len(),
{
    if s.len() > 0 && is_white_space(s.last()) {
        trim_end_of(s.drop_last())
    } else {
        s
    }
}

/// What `str::trim` leaves of a string: it without leading and trailing white
/// space.
pub open spec fn trim_of(s: Seq<char>) -> Seq<char> {
    trim_end_of(trim_start_of(s))
}

/// What `str::to_lowercase` makes of a string.
pub uninterp spec fn lower_of(s: Seq<char>) -> Seq<char>;

/// Relies on `str::trim`: the string without leading and trailing characters
/// of the Unicode property White_Space.
#[verifier::external_body]
fn trim_text<'a>(s: &'a str) -> (r: &'a str)
    ensures
        r@ == trim_of(s@),
{
    s.trim()
}

/// Relies on `str::to_lowercase`: the lower-case form of each character.
#[verifier::external_body]
fn lowercase_text(s: &str) -> (r: String)
    ensures
        r@ == lower_of(s@),
{
    s.to_lowercase()
}

pub open spec fn unit_noun(a: Age) -> Seq<char> {
    match a {
        Age::Years(_) => " year"@,
        Age::Months(_) => " month"@,
    }
}

pub open spec fn magnitude(a: Age) -> u32 {
    match a {
        Age::Years(n) => n,
        Age::Months(n) => n,
    }
}

/// `3 years`, `1 month`: the magnitude, then the unit, plural unless one.
pub open spec fn age_label(a: Age) -> Seq<char> {
    decimal(magnitude(a) as nat) + unit_noun(a) + if magnitude(a) == 1 {
        Seq::<char>::empty()
    } else {
        "s"@
    }
}

/// The cutoff day for `a`, counted back from `today`.
pub open spec fn cutoff_of(a: Age, today: Date) -> Option<Date> {
    match a {
        Age::Years(y) => Some(
            match date_with_year(today, today.year - y) {
                Some(d) => d,
                None => today,
            },
        ),
        Age::Months(m) => date_months_before(today, m as int),
    }
}

proof fn lemma_digit_char(d: int)
    requires
        0 <= d < 10,
    ensures
        is_digit(digit_char(d)),
        digit_value(digit_char(d)) == d,
{
}

proof fn lemma_decimal_digits(n: nat)
    ensures
        decimal(n).len() > 0,
        all_digits(decimal(n)),
        digits_value(decimal(n)) == n,
    decreases n,
{
    if n < 10 {
        lemma_digit_char(n as int);
        assert(decimal(n).drop_last() =~= Seq::<char>::empty());
        assert(decimal(n).last() == digit_char(n as int));
        assert(digits_value(decimal(n)) == digits_value(decimal(n).drop_last()) * 10
            + digit_value(decimal(n).last()));
    } else {
        lemma_decimal_digits(n / 10);
        lemma_digit_char((n % 10) as int);
        let s = decimal(n);
        assert(n == (n / 10) * 10 + n % 10) by (nonlinear_arith);
        assert(s.last() == digit_char((n % 10) as int));
        assert(digits_value(s) == digits_value(s.drop_last()) * 10 + digit_value(s.last()));
        assert(s.drop_last() =~= decimal(n / 10));
        assert forall|i: int| 0 <= i < s.len() implies is_digit(#[trigger] s[i]) by {
            if i < s.len() - 1 {
                assert(s[i] == decimal(n / 10)[i]);
            }
        }
    }
}

/// Decimal digits read back as the number they were written from.
pub proof fn lemma_decimal_round_trip(n: u32)
    ensures
        magnitude_of(decimal(n as nat)) == Some(n),
{
    lemma_decimal_digits(n as nat);
}

/// Every valid token with a magnitude of at least one gives a cutoff strictly
/// before today, wherever the calendar step back is defined; the decimal
/// form of its magnitude, which its label begins with, reads back as the
/// magnitude, and the label's unit noun follows the token's unit letter.
pub proof fn lemma_valid_token(t: Seq<char>, today: Date)
    requires
        today.wf(),
        age_of_token(t) is Ok,
        magnitude(age_of_token(t)->Ok_0) >= 1,
        match age_of_token(t)->Ok_0 {
            Age::Years(y) => date_with_year(today, today.year - y) is Some,
            Age::Months(m) => date_months_before(today, m as int) is Some,
        },
    ensures
        ({
            let a = age_of_token(t)->Ok_0;
            &&& cutoff_of(a, today) is Some
            &&& date_before(cutoff_of(a, today)->0, today)
            &&& magnitude_of(decimal(magnitude(a) as nat)) == Some(magnitude(a))
            &&& unit_noun(a) == if t.last() == 'y' {
                " year"@
            } else {
                " month"@
            }
        }),
{
    let a = age_of_token(t)->Ok_0;
    lemma_decimal_round_trip(magnitude(a));
    match a {
        Age::Years(y) => {},
        Age::Months(m) => {
            let big_n = today.year * 12 + today.month - 1;
            let n = big_n - m;
            let q = n / 12;
            let r = n % 12;
            let y = today.year as int;
            let mo = today.month as int;
            assert(q < y || (q == y && r + 1 < mo)) by (nonlinear_arith)
                requires
                    n < big_n,
                    big_n == y * 12 + mo - 1,
                    1 <= mo <= 12,
                    q == n / 12,
                    r == n % 12,
            ;
        },
    }
}

/// Tokens that are empty, whose magnitude is not a number, or whose unit is
/// neither `y` nor `m` are refused.
pub proof fn lemma_invalid_token(t: Seq<char>)
    requires
        t.len() == 0 || magnitude_of(t.drop_last()) is None || (t.last() != 'y' && t.last()
            != 'm'),
    ensures
        age_of_token(t) is Err,
{
}

impl Age {
    /// Reads a token that is already trimmed and in lower case.
    pub fn parse_normalized(t: &str) -> (r: Result<Age, AgeError>)
        ensures
            r == age_of_token(t@),
    {
        let len = t.unicode_len();
        if len == 0 {
            return Err(AgeError::Empty);
        }
        let digits = t.substring_char(0, len - 1);
        assert(digits@ =~= t@.drop_last());
        let unit = t.get_char(len - 1);
        match parse_magnitude(digits) {
            None => Err(AgeError::InvalidNumber),
            Some(n) => {
                if unit == 'y' {
                    Ok(Age::Years(n))
                } else if unit == 'm' {
                    Ok(Age::Months(n))
                } else {
                    Err(AgeError::InvalidUnit)
                }
            },
        }
    }

    /// Reads a token such as `8y` or ` 6M `: surrounding whitespace and case
    /// do not matter.
    pub fn parse(s: &str) -> (r: Result<Age, AgeError>)
        ensures
            r == age_of_token(lower_of(trim_of(s@))),
    {
        let trimmed = trim_text(s);
        let lowered = lowercase_text(trimmed);
        Age::parse_normalized(lowered.as_str())
    }

    /// The age as words, such as `2 years`.
    pub fn display(&self) -> (r: String)
        ensures
            r@ == age_label(*self),
    {
        let mut out = String::new();
        let n = match *self {
            Age::Years(y) => y,
            Age::Months(m) => m,
        };
        push_decimal(&mut out, n);
        match *self {
            Age::Years(_) => out.append(" year"),
            Age::Months(_) => out.append(" month"),
        }
        if n != 1 {
            out.append("s");
        }
        assert(out@ =~= age_label(*self));
        out
    }

    /// The day before which a repository must have been created to count as
    /// this old, seen from `today`. Whole years keep month and day, and fall
    /// back to `today` where that day does not exist; months step back through
    /// the calendar. `None` where the months reach past the earliest date.
    pub fn cutoff_date(&self, today: Date) -> (r: Option<Date>)
        requires
            today.wf(),
        ensures
            r == cutoff_of(*self, today),
    {
        match *self {
            Age::Years(y) => Some(today.years_before(y)),
            Age::Months(m) => today.months_before(m),
        }
    }
}

// ---------------------------------------------------------------------------
// The stepper

/// The largest magnitude the stepper offers in a unit.
pub open spec fn unit_max(u: AgeUnit) -> u32 {
    match u {
        AgeUnit::Months => 11,
        AgeUnit::Years => 10,
    }
}

fn max_for(u: AgeUnit) -> (r: u32)
    ensures
        r == unit_max(u),
{
    match u {
        AgeUnit::Months => 11,
        AgeUnit::Years => 10,
    }
}

/// An interactive choice of age: a magnitude stepped up and down within the
/// unit's range, and a unit that can be switched.
#[derive(Clone, Copy, Debug, PartialEq, Eq, Structural)]
pub struct AgePicker {
    pub value: u32,
    pub unit: AgeUnit,
}

/// What the stepper does with a key.
#[derive(Clone, Copy, Debug, PartialEq, Eq, Structural)]
pub enum PickerAction {
    /// Keep showing the stepper.
    Stay,
    /// Leave without an age.
    Quit,
    /// Leave with this age.
    Confirm(Age),
}

pub open spec fn picker_age(p: AgePicker) -> Age {
    match p.unit {
        AgeUnit::Months => Age::Months(p.value),
        AgeUnit::Years => Age::Years(p.value),
    }
}

pub open spec fn other_unit(u: AgeUnit) -> AgeUnit {
    match u {
        AgeUnit::Months => AgeUnit::Years,
        AgeUnit::Years => AgeUnit::Months,
    }
}

impl AgePicker {
    /// The magnitude lies in `[1, 11]` for months and `[1, 10]` for years.
    pub open spec fn wf(self) -> bool {
        1 <= self.value <= unit_max(self.unit)
    }

    /// Two years.
    pub fn new() -> (r: AgePicker)
        ensures
            r.value == 2,
            r.unit == AgeUnit::Years,
            r.wf(),
    {
        AgePicker { value: 2, unit: AgeUnit::Years }
    }

    /// One more, unless the unit's largest magnitude is reached.
    pub fn increment(&mut self)
        requires
            old(self).wf(),
        ensures
            final(self).wf(),
            final(self).unit == old(self).unit,
            final(self).value == if old(self).value < unit_max(old(self).unit) {
                (old(self).value + 1) as u32
            } else {
                old(self).value
            },
    {
        let max = max_for(self.unit);
        if self.value < max {
            self.value = self.value + 1;
        }
    }

    /// One less, unless the magnitude is already one.
    pub fn decrement(&mut self)
        requires
            old(self).wf(),
        ensures
            final(self).wf(),
            final(self).unit == old(self).unit,
            final(self).value == if old(self).value > 1 {
                (old(self).value - 1) as u32
            } else {
                old(self).value
            },
    {
        if self.value > 1 {
            self.value = self.value - 1;
        }
    }

    /// Switches between months and years, lowering the magnitude to the new
    /// unit's largest where it is above it.
    pub fn toggle_unit(&mut self)
        requires
            old(self).wf(),
        ensures
            final(self).wf(),
            final(self).unit == other_unit(old(self).unit),
            final(self).value <= old(self).value,
            final(self).value == if old(self).value > unit_max(final(self).unit) {
                unit_max(final(self).unit)
            } else {
                old(self).value
            },
    {
        self.unit = match self.unit {
            AgeUnit::Months => AgeUnit::Years,
            AgeUnit::Years => AgeUnit::Months,
        };
        let max = max_for(self.unit);
        if self.value > max {
            self.value = max;
        }
    }

    /// The age currently shown.
    pub fn to_age(&self) -> (r: Age)
        ensures
            r == picker_age(*self),
    {
        match self.unit {
            AgeUnit::Months => Age::Months(self.value),
            AgeUnit::Years => Age::Years(self.value),
        }
    }

    /// The unit's name, plural.
    pub fn unit_str(&self) -> (r: &'static str)
        ensures
            r@ == match self.unit {
                AgeUnit::Months => "months"@,
                AgeUnit::Years => "years"@,
            },
    {
        match self.unit {
            AgeUnit::Months => "months",
            AgeUnit::Years => "years",
        }
    }

    /// Reacts to a key: `q` or Esc quits, Up or `k` steps up, Down or `j`
    /// steps down, Left, Right, `h`, `l` or Tab switch the unit, Enter confirms.
    pub fn handle_key(&mut self, key: Key) -> (r: PickerAction)
        requires
            old(self).wf(),
        ensures
            final(self).wf(),
            r == match key {
                Key::Char('q') | Key::Esc => PickerAction::Quit,
                Key::Enter => PickerAction::Confirm(picker_age(*old(self))),
                _ => PickerAction::Stay,
            },
            match key {
                Key::Up | Key::Char('k') => final(self).unit == old(self).unit
                    && final(self).value == if old(self).value < unit_max(old(self).unit) {
                    (old(self).value + 1) as u32
                } else {
                    old(self).value
                },
                Key::Down | Key::Char('j') => final(self).unit == old(self).unit
                    && final(self).value == if old(self).value > 1 {
                    (old(self).value - 1) as u32
                } else {
                    old(self).value
                },
                Key::Left | Key::Right | Key::Char('h') | Key::Char('l') | Key::Tab => {
                    &&& final(self).unit == other_unit(old(self).unit)
                    &&& final(self).value == if old(self).value > unit_max(final(self).unit) {
                        unit_max(final(self).unit)
                    } else {
                        old(self).value
                    }
                },
                _ => *final(self) == *old(self),
            },
    {
        match key {
            Key::Char('q') | Key::Esc => PickerAction::Quit,
            Key::Up | Key::Char('k') => {
                self.increment();
                PickerAction::Stay
            },
            Key::Down | Key::Char('j') => {
                self.decrement();
                PickerAction::Stay
            },
            Key::Left | Key::Right | Key::Char('h') | Key::Char('l') | Key::Tab => {
                self.toggle_unit();
                PickerAction::Stay
            },
            Key::Enter => PickerAction::Confirm(self.to_age()),
            _ => PickerAction::Stay,
        }
    }
}

} // verus!
