//! Legacy free-text ("UI string") representation of the enums.
//!
//! The mapping is lossy and non-bijective (`"Hourly"` and `"Daily"` both land
//! on `Weekly`, `"Annually"` on `Monthly`, `"Biannually"` on `Bimonthly`) and
//! is preserved bit-for-bit for compatibility with existing consumers.

use vstd::prelude::*;
use crate::types::{OccurenceRestriction, Period};

verus! {

/// Free-text representation of an enum value, as the UI sends it.
#[derive(Debug, Clone, PartialEq)]
pub struct UIEnum(pub String);

/// ASCII decimal digit.
pub open spec fn is_digit(c: char) -> bool {
    '0' <= c && c <= '9'
}

pub open spec fn digit_val(c: char) -> int {
    c as int - '0' as int
}

pub open spec fn all_digits(s: Seq<char>) -> bool {
    forall|i: int| 0 <= i < s.len() ==> is_digit(#[trigger] s[i])
}

/// Value of a digit string, most significant digit first.
pub open spec fn digits_val(s: Seq<char>) -> int
    decreases s.len(),
{
    if s.len() == 0 {
        0
    } else {
        digits_val(s.drop_last()) * 10 + digit_val(s.last())
    }
}

/// What `parse_u8` accepts: an optional leading `'+'`, then one or more
/// decimal digits whose value fits in a `u8`.
pub open spec fn parse_u8_spec(s: Seq<char>) -> Option<u8> {
    let digits = if s.len() > 0 && s[0] == '+' {
        s.subrange(1, s.len() as int)
    } else {
        s
    };
    if digits.len() > 0 && all_digits(digits) && digits_val(digits) <= 255 {
        Some(digits_val(digits) as u8)
    } else {
        None
    }
}

proof fn lemma_digits_val_nonneg(s: Seq<char>)
    requires
        all_digits(s),
    ensures
        digits_val(s) >= 0,
    decreases s.len(),
{
    if s.len() > 0 {
        assert(all_digits(s.drop_last()));
        lemma_digits_val_nonneg(s.drop_last());
    }
}

proof fn lemma_digits_val_prefix_le(s: Seq<char>, k: int)
    requires
        all_digits(s),
        0 <= k <= s.len(),
    ensures
        digits_val(s.take(k)) <= digits_val(s),
    decreases s.len() - k,
{
    if k < s.len() {
        assert(all_digits(s.drop_last()));
        assert(s.drop_last().take(k) =~= s.take(k));
        lemma_digits_val_prefix_le(s.drop_last(), k);
        lemma_digits_val_nonneg(s.drop_last());
        assert(digits_val(s) == digits_val(s.drop_last()) * 10 + digit_val(s.last()));
        assert(digits_val(s.drop_last()) * 10 >= digits_val(s.drop_last())) by (nonlinear_arith)
            requires digits_val(s.drop_last()) >= 0;
    } else {
        assert(s.take(k) =~= s);
    }
}

/// Parses a decimal `u8` exactly as the legacy coercion expects: optional
/// leading `'+'`, then decimal digits, rejecting empty input and overflow.
pub fn parse_u8(s: &str) -> (r: Option<u8>)
    ensures
        r == parse_u8_spec(s@),
{
    let n = s.unicode_len();
    if n == 0 {
        return None;
    }
    let first = s.get_char(0);
    let start: usize = if first == '+' { 1 } else { 0 };
    let ghost digits: Seq<char> = if start == 1 { s@.subrange(1, s@.len() as int) } else { s@ };
    if start == n {
        // the input was just "+"
        assert(digits.len() == 0);
        return None;
    }
    let mut acc: u32 = 0;
    let mut i: usize = start;
    while i < n
        invariant
            start <= i <= n,
            n == s@.len(),
            start == 0 || start == 1,
            start == 1 ==> s@.len() > 0 && s@[0] == '+',
            start == 0 ==> !(s@.len() > 0 && s@[0] == '+'),
            digits == (if start == 1 { s@.subrange(1, s@.len() as int) } else { s@ }),
            all_digits(digits.take(i - start)),
            acc == digits_val(digits.take(i - start)),
            acc <= 255,
        decreases n - i,
    {
        let c = s.get_char(i);
        proof {
            assert(digits[i - start] == s@[i as int]);
        }
        if !('0' <= c && c <= '9') {
            assert(!is_digit(digits[i - start]));
            assert(!all_digits(digits));
            return None;
        }
        let d: u32 = (c as u32) - 48;
        proof {
            assert('0' as int == 48);
            assert(d == digit_val(c));
        }
        acc = acc * 10 + d;
        proof {
            assert(digits.take(i - start + 1).drop_last() =~= digits.take(i - start));
            assert(digits.take(i - start + 1).last() == c);
            assert(acc == digits_val(digits.take(i - start + 1)));
        }
        if acc > 255 {
            proof {
                if all_digits(digits) {
                    lemma_digits_val_prefix_le(digits, i - start + 1);
                }
            }
            return None;
        }
        i += 1;
    }
    proof {
        assert(digits.take(n - start) =~= digits);
    }
    Some(acc as u8)
}

/// The decimal digit characters of `n`, most significant first, no sign and
/// no leading zero.
pub open spec fn dec_digits(n: nat) -> Seq<char>
    decreases n,
{
    if n < 10 {
        seq![digit_char(n)]
    } else {
        dec_digits(n / 10).push(digit_char(n % 10))
    }
}

pub open spec fn digit_char(d: nat) -> char {
    ('0' as int + d) as char
}

fn digit_str(d: u8) -> (s: &'static str)
    requires
        d < 10,
    ensures
        s@ =~= seq![digit_char(d as nat)],
{
    proof {
        reveal_strlit("0");
        reveal_strlit("1");
        reveal_strlit("2");
        reveal_strlit("3");
        reveal_strlit("4");
        reveal_strlit("5");
        reveal_strlit("6");
        reveal_strlit("7");
        reveal_strlit("8");
        reveal_strlit("9");
    }
    if d == 0 {
        "0"
    } else if d == 1 {
        "1"
    } else if d == 2 {
        "2"
    } else if d == 3 {
        "3"
    } else if d == 4 {
        "4"
    } else if d == 5 {
        "5"
    } else if d == 6 {
        "6"
    } else if d == 7 {
        "7"
    } else if d == 8 {
        "8"
    } else {
        "9"
    }
}

/// Renders `n` in decimal, the inverse of `parse_u8` on canonical digit
/// strings.
pub fn u8_to_string(n: u8) -> (s: String)
    ensures
        s@ == dec_digits(n as nat),
{
    let mut s = String::new();
    if n >= 100 {
        s.append(digit_str(n / 100));
    }
    if n >= 10 {
        s.append(digit_str((n / 10) % 10));
    }
    s.append(digit_str(n % 10));
    proof {
        if n < 10 {
            assert(s@ =~= dec_digits(n as nat));
        } else if n < 100 {
            assert(n / 10 < 10) by (nonlinear_arith)
                requires n < 100;
            assert((n / 10) % 10 == n / 10) by (nonlinear_arith)
                requires n / 10 < 10;
            assert(dec_digits(n as nat) == dec_digits(n as nat / 10).push(digit_char(n as nat % 10)));
            assert(s@ =~= dec_digits(n as nat));
        } else {
            assert(n / 100 < 10) by (nonlinear_arith)
                requires n <= 255;
            assert(n / 10 >= 10) by (nonlinear_arith)
                requires n >= 100;
            assert((n / 10) / 10 == n / 100) by (nonlinear_arith);
            assert((n / 10) % 10 == (n as nat / 10) % 10);
            assert(dec_digits(n as nat) == dec_digits(n as nat / 10).push(digit_char(n as nat % 10)));
            assert(dec_digits(n as nat / 10) == dec_digits(n as nat / 100).push(
                digit_char((n as nat / 10) % 10),
            ));
            assert(s@ =~= dec_digits(n as nat));
        }
    }
    s
}

/// Compares two string slices by their character sequences.
pub fn str_eq(a: &str, b: &str) -> (r: bool)
    ensures
        r == (a@ == b@),
{
    let owned_a = a.to_owned();
    let owned_b = b.to_owned();
    owned_a == owned_b
}

/// The legacy UI-string-to-`Period` mapping table, preserved exactly: both
/// `"Hourly"` and `"Daily"` fold onto `Weekly`, `"Annually"` onto `Monthly`,
/// `"Biannually"` onto `Bimonthly`; unrecognized numeric strings become
/// `Per24`, anything else `Daily`.
pub open spec fn period_of_ui(s: Seq<char>) -> Period {
    if s == "Hourly"@ {
        Period::Weekly
    } else if s == "Daily"@ {
        Period::Weekly
    } else if s == "Weekly"@ {
        Period::Weekly
    } else if s == "Biweekly"@ {
        Period::Biweekly
    } else if s == "Monthly"@ {
        Period::Monthly
    } else if s == "Bimonthly"@ {
        Period::Bimonthly
    } else if s == "Annually"@ {
        Period::Monthly
    } else if s == "Biannually"@ {
        Period::Bimonthly
    } else {
        match parse_u8_spec(s) {
            Some(freq) => Period::Per24(freq),
            None => Period::Daily,
        }
    }
}

impl From<UIEnum> for Period {
    fn from(ui_enum: UIEnum) -> (r: Self) {
        let s = ui_enum.0.as_str();
        if str_eq(s, "Hourly") {
            Period::Weekly
        } else if str_eq(s, "Daily") {
            Period::Weekly
        } else if str_eq(s, "Weekly") {
            Period::Weekly
        } else if str_eq(s, "Biweekly") {
            Period::Biweekly
        } else if str_eq(s, "Monthly") {
            Period::Monthly
        } else if str_eq(s, "Bimonthly") {
            Period::Bimonthly
        } else if str_eq(s, "Annually") {
            Period::Monthly
        } else if str_eq(s, "Biannually") {
            Period::Bimonthly
        } else {
            match parse_u8(s) {
                Some(freq) => Period::Per24(freq),
                None => Period::Daily,
            }
        }
    }
}

impl vstd::std_specs::convert::FromSpecImpl<UIEnum> for Period {
    open spec fn obeys_from_spec() -> bool {
        true
    }

    open spec fn from_spec(v: UIEnum) -> Period {
        period_of_ui(v.0@)
    }
}

/// The legacy UI-string-to-restriction mapping: anything unrecognized means
/// no restriction.
pub open spec fn restriction_of_ui(s: Seq<char>) -> OccurenceRestriction {
    if s == "OnlyWeekdays"@ {
        OccurenceRestriction::OnlyWeekdays
    } else if s == "OnlyWeekends"@ {
        OccurenceRestriction::OnlyWeekends
    } else {
        OccurenceRestriction::NoRestriction
    }
}

impl From<UIEnum> for OccurenceRestriction {
    fn from(ui_enum: UIEnum) -> (r: Self) {
        let s = ui_enum.0.as_str();
        if str_eq(s, "OnlyWeekdays") {
            OccurenceRestriction::OnlyWeekdays
        } else if str_eq(s, "OnlyWeekends") {
            OccurenceRestriction::OnlyWeekends
        } else {
            OccurenceRestriction::NoRestriction
        }
    }
}

impl vstd::std_specs::convert::FromSpecImpl<UIEnum> for OccurenceRestriction {
    open spec fn obeys_from_spec() -> bool {
        true
    }

    open spec fn from_spec(v: UIEnum) -> OccurenceRestriction {
        restriction_of_ui(v.0@)
    }
}

/// The wire name of a `Period` value; the parameterized variant carries its
/// hour count in parentheses.
pub open spec fn period_ui_name(p: Period) -> Seq<char> {
    match p {
        Period::Per24(n) => "Per24("@ + dec_digits(n as nat) + ")"@,
        Period::Hourly => "Hourly"@,
        Period::Daily => "Daily"@,
        Period::Weekly => "Weekly"@,
        Period::Biweekly => "Biweekly"@,
        Period::Monthly => "Monthly"@,
        Period::Bimonthly => "Bimonthly"@,
        Period::Annually => "Annually"@,
        Period::Biannually => "Biannually"@,
    }
}

impl From<Period> for UIEnum {
    fn from(period_description: Period) -> (r: Self)
        ensures
            r.0@ == period_ui_name(period_description),
    {
        match period_description {
            Period::Per24(n) => {
                let mut s = String::from_str("Per24(");
                let digits = u8_to_string(n);
                s.append(digits.as_str());
                s.append(")");
                UIEnum(s)
            },
            Period::Hourly => UIEnum(String::from_str("Hourly")),
            Period::Daily => UIEnum(String::from_str("Daily")),
            Period::Weekly => UIEnum(String::from_str("Weekly")),
            Period::Biweekly => UIEnum(String::from_str("Biweekly")),
            Period::Monthly => UIEnum(String::from_str("Monthly")),
            Period::Bimonthly => UIEnum(String::from_str("Bimonthly")),
            Period::Annually => UIEnum(String::from_str("Annually")),
            Period::Biannually => UIEnum(String::from_str("Biannually")),
        }
    }
}

impl vstd::std_specs::convert::FromSpecImpl<Period> for UIEnum {
    open spec fn obeys_from_spec() -> bool {
        false
    }

    open spec fn from_spec(v: Period) -> UIEnum {
        choose|u: UIEnum| u.0@ == period_ui_name(v)
    }
}

/// The wire name of a restriction value.
pub open spec fn restriction_ui_name(r: OccurenceRestriction) -> Seq<char> {
    match r {
        OccurenceRestriction::OnlyWeekdays => "OnlyWeekdays"@,
        OccurenceRestriction::OnlyWeekends => "OnlyWeekends"@,
        OccurenceRestriction::NoRestriction => "None"@,
    }
}

impl From<OccurenceRestriction> for UIEnum {
    fn from(restriction: OccurenceRestriction) -> (r: Self)
        ensures
            r.0@ == restriction_ui_name(restriction),
    {
        match restriction {
            OccurenceRestriction::OnlyWeekdays => UIEnum(String::from_str("OnlyWeekdays")),
            OccurenceRestriction::OnlyWeekends => UIEnum(String::from_str("OnlyWeekends")),
            OccurenceRestriction::NoRestriction => UIEnum(String::from_str("None")),
        }
    }
}

impl vstd::std_specs::convert::FromSpecImpl<OccurenceRestriction> for UIEnum {
    open spec fn obeys_from_spec() -> bool {
        false
    }

    open spec fn from_spec(v: OccurenceRestriction) -> UIEnum {
        choose|u: UIEnum| u.0@ == restriction_ui_name(v)
    }
}

} // verus!
