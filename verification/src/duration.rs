use vstd::prelude::*;

use crate::text::{chars_of, push_str, string_from, trim, trim_bounds};
use crate::tokens::is_digit;
use crate::types::{DurationHuman, TimeSpan};

verus! {

/// The value of a run of decimal digits.
pub open spec fn digits_value(d: Seq<char>) -> nat
    decreases d.len(),
{
    if d.len() == 0 {
        0
    } else {
        digits_value(d.drop_last()) * 10 + (d.last() as nat - '0' as nat) as nat
    }
}

/// What `u64::from_str` reads from `s`: an optional `+` and one or more
/// decimal digits whose value fits in a `u64`.
pub open spec fn parse_u64(s: Seq<char>) -> Option<u64> {
    let d = u64_digits(s);
    if d.len() > 0 && (forall|i: int| 0 <= i < d.len() ==> #[trigger] is_digit(d[i])) && digits_value(d) <= u64::MAX {
        Some(digits_value(d) as u64)
    } else {
        None
    }
}

/// The digits `u64::from_str` reads: `s` without a leading `+` that has more after it.
pub open spec fn u64_digits(s: Seq<char>) -> Seq<char> {
    if s.len() > 1 && s[0] == '+' {
        s.drop_first()
    } else {
        s
    }
}

/// What reading a duration gives: a time span, an invalid text, or an
/// overflow of the seconds count (minutes and hours are converted with a plain
/// multiplication, which overflows).
pub enum SpecDuration {
    Span(TimeSpan),
    Invalid,
    Overflow,
}

pub open spec fn from_secs(v: nat) -> TimeSpan {
    TimeSpan { secs: v as u64, nanos: 0 }
}

pub open spec fn from_millis(v: u64) -> TimeSpan {
    TimeSpan { secs: (v / 1000) as u64, nanos: ((v % 1000) * 1_000_000) as u32 }
}

/// How a duration text reads: the text is trimmed, then a number followed by
/// `ms`, `s`, `m` or `h`.
pub open spec fn duration_spec(text: Seq<char>) -> SpecDuration {
    let s = trim(text);
    let n = s.len() as int;
    if n >= 2 && s[n - 2] == 'm' && s[n - 1] == 's' {
        match parse_u64(s.take(n - 2)) {
            Some(v) => SpecDuration::Span(from_millis(v)),
            None => SpecDuration::Invalid,
        }
    } else if n >= 1 && s[n - 1] == 's' {
        match parse_u64(s.take(n - 1)) {
            Some(v) => SpecDuration::Span(from_secs(v as nat)),
            None => SpecDuration::Invalid,
        }
    } else if n >= 1 && s[n - 1] == 'm' {
        match parse_u64(s.take(n - 1)) {
            Some(v) => if v * 60 <= u64::MAX {
                SpecDuration::Span(from_secs((v * 60) as nat))
            } else {
                SpecDuration::Overflow
            },
            None => SpecDuration::Invalid,
        }
    } else if n >= 1 && s[n - 1] == 'h' {
        match parse_u64(s.take(n - 1)) {
            Some(v) => if v * 3600 <= u64::MAX {
                SpecDuration::Span(from_secs((v * 3600) as nat))
            } else {
                SpecDuration::Overflow
            },
            None => SpecDuration::Invalid,
        }
    } else {
        SpecDuration::Invalid
    }
}

/// Exec result of reading a duration.
pub enum DurationOutcome {
    Span(TimeSpan),
    Invalid,
    Overflow,
}

impl View for DurationOutcome {
    type V = SpecDuration;

    open spec fn view(&self) -> SpecDuration {
        match self {
            DurationOutcome::Span(t) => SpecDuration::Span(*t),
            DurationOutcome::Invalid => SpecDuration::Invalid,
            DurationOutcome::Overflow => SpecDuration::Overflow,
        }
    }
}

/// Reads `v[lo..hi]` as `u64::from_str` does.
pub fn parse_u64_exec(v: &Vec<char>, lo: usize, hi: usize) -> (res: Option<u64>)
    requires
        lo <= hi <= v@.len(),
    ensures
        res == parse_u64(v@.subrange(lo as int, hi as int)),
{
    let ghost s = v@.subrange(lo as int, hi as int);
    let mut a = lo;
    if hi - lo > 1 && v[lo] == '+' {
        a = lo + 1;
    }
    let ghost d = v@.subrange(a as int, hi as int);
    assert(d == u64_digits(s));
    if a == hi {
        return None;
    }
    let mut acc: u64 = 0;
    let mut i = a;
    while i < hi
        invariant
            a <= i <= hi <= v@.len(),
            d == v@.subrange(a as int, hi as int),
            s == v@.subrange(lo as int, hi as int),
            d == u64_digits(s),
            d.len() > 0,
            forall|j: int| a <= j < i ==> #[trigger] is_digit(v@[j]),
            acc as nat == digits_value(v@.subrange(a as int, i as int)),
        decreases hi - i,
    {
        let c = v[i];
        if !('0' <= c && c <= '9') {
            assert(d[i - a] == v@[i as int]);
            assert(!is_digit(d[i - a]));
            assert(!(forall|j: int| 0 <= j < d.len() ==> #[trigger] is_digit(d[j])));
            assert(parse_u64(s) is None);
            return None;
        }
        assert(v@.subrange(a as int, i + 1).drop_last() == v@.subrange(a as int, i as int));
        let dv = (c as u32 - '0' as u32) as u64;
        assert(v@.subrange(a as int, i + 1).last() == c);
        assert(dv as nat == (c as nat - '0' as nat) as nat);
        assert(digits_value(v@.subrange(a as int, i + 1)) == acc * 10 + dv);
        match acc.checked_mul(10) {
            Some(m) => match m.checked_add(dv) {
                Some(x) => {
                    acc = x;
                },
                None => {
                    proof {
                        assert(d.take(i + 1 - a) == v@.subrange(a as int, i + 1));
                        lemma_overflow_prefix(d, i + 1 - a);
                    }
                    return None;
                },
            },
            None => {
                proof {
                    assert(d.take(i + 1 - a) == v@.subrange(a as int, i + 1));
                    lemma_overflow_prefix(d, i + 1 - a);
                }
                return None;
            },
        }
        i += 1;
    }
    assert(v@.subrange(a as int, hi as int) == d);
    Some(acc)
}

/// The value of a digit run is at least the value of any of its prefixes.
pub proof fn lemma_digits_value_mono(d: Seq<char>, k: int)
    requires
        0 <= k <= d.len(),
        forall|i: int| 0 <= i < d.len() ==> #[trigger] is_digit(d[i]),
    ensures
        digits_value(d.take(k)) <= digits_value(d),
    decreases d.len() - k,
{
    if k < d.len() {
        lemma_digits_value_mono(d, k + 1);
        assert(d.take(k + 1).drop_last() == d.take(k));
    } else {
        assert(d.take(k) == d);
    }
}

proof fn lemma_overflow_prefix(d: Seq<char>, k: int)
    requires
        0 <= k <= d.len(),
        digits_value(d.take(k)) > u64::MAX,
    ensures
        !((forall|i: int| 0 <= i < d.len() ==> #[trigger] is_digit(d[i])) && digits_value(d) <= u64::MAX),
{
    if forall|i: int| 0 <= i < d.len() ==> #[trigger] is_digit(d[i]) {
        lemma_digits_value_mono(d, k);
    }
}

/// Reads a duration, reporting an overflow rather than failing on it.
#[verifier::rlimit(40)]
pub fn duration_outcome(text: &str) -> (res: DurationOutcome)
    ensures
        res@ == duration_spec(text@),
{
    let v = chars_of(text);
    let (lo, hi) = trim_bounds(&v, 0, v.len());
    assert(v@.subrange(0, v@.len() as int) == v@);
    let ghost s = trim(text@);
    assert(s == v@.subrange(lo as int, hi as int));
    let n = hi - lo;
    if n >= 2 && v[hi - 2] == 'm' && v[hi - 1] == 's' {
        assert(s.take(n - 2) == v@.subrange(lo as int, hi - 2));
        match parse_u64_exec(&v, lo, hi - 2) {
            Some(x) => DurationOutcome::Span(TimeSpan { secs: x / 1000, nanos: ((x % 1000) * 1_000_000) as u32 }),
            None => DurationOutcome::Invalid,
        }
    } else if n >= 1 && v[hi - 1] == 's' {
        assert(s.take(n - 1) == v@.subrange(lo as int, hi - 1));
        match parse_u64_exec(&v, lo, hi - 1) {
            Some(x) => DurationOutcome::Span(TimeSpan { secs: x, nanos: 0 }),
            None => DurationOutcome::Invalid,
        }
    } else if n >= 1 && v[hi - 1] == 'm' {
        assert(s.take(n - 1) == v@.subrange(lo as int, hi - 1));
        match parse_u64_exec(&v, lo, hi - 1) {
            Some(x) => match x.checked_mul(60) {
                Some(y) => DurationOutcome::Span(TimeSpan { secs: y, nanos: 0 }),
                None => DurationOutcome::Overflow,
            },
            None => DurationOutcome::Invalid,
        }
    } else if n >= 1 && v[hi - 1] == 'h' {
        assert(s.take(n - 1) == v@.subrange(lo as int, hi - 1));
        match parse_u64_exec(&v, lo, hi - 1) {
            Some(x) => match x.checked_mul(3600) {
                Some(y) => DurationOutcome::Span(TimeSpan { secs: y, nanos: 0 }),
                None => DurationOutcome::Overflow,
            },
            None => DurationOutcome::Invalid,
        }
    } else {
        DurationOutcome::Invalid
    }
}

/// True when reading `text` as a duration would overflow the seconds count.
pub open spec fn duration_overflows(text: Seq<char>) -> bool {
    duration_spec(text) is Overflow
}

impl DurationHuman {
    /// Reads a duration such as `500ms`, `5s`, `2m` or `1h`, after trimming
    /// whitespace. A text of another shape gives `Invalid duration: <text>`.
    pub fn from_str(s: &str) -> (res: Result<DurationHuman, String>)
        requires
            !duration_overflows(s@),
        ensures
            res matches Ok(d) ==> duration_spec(s@) == SpecDuration::Span(d.0),
            res matches Err(msg) ==> duration_spec(s@) is Invalid && msg@ == "Invalid duration: "@ + trim(s@),
            res is Ok <==> duration_spec(s@) is Span,
    {
        match duration_outcome(s) {
            DurationOutcome::Span(t) => Ok(DurationHuman(t)),
            _ => {
                let v = chars_of(s);
                let (lo, hi) = trim_bounds(&v, 0, v.len());
                assert(v@.subrange(0, v@.len() as int) == v@);
                let mut msg = crate::text::owned("Invalid duration: ");
                let t = string_from(&v, lo, hi);
                push_str(&mut msg, t.as_str());
                Err(msg)
            },
        }
    }
}

} // verus!
