//! Argument reading and latency statistics of the benchmark tools.
use vstd::prelude::*;

verus! {

/// Why an argument was refused.
#[derive(Clone, Copy, PartialEq, Eq, Debug)]
pub enum ArgError {
    /// The argument is not a decimal number that fits a `usize`.
    InvalidNumber,
}

pub open spec fn digit_value(c: char) -> int {
    (c as u32) - ('0' as u32)
}

/// The value of a sequence of decimal digits.
pub open spec fn digits_value(s: Seq<char>) -> int
    decreases s.len(),
{
    if s.len() == 0 {
        0
    } else {
        digits_value(s.drop_last()) * 10 + digit_value(s.last())
    }
}

/// The digits of a decimal numeral: all of it, or what follows a leading `+`.
pub open spec fn numeral_digits(s: Seq<char>) -> Seq<char> {
    if s.len() > 0 && s[0] == '+' {
        s.drop_first()
    } else {
        s
    }
}

/// The `usize` written by `s` in the form that `str::parse` accepts: an
/// optional `+` followed by at least one decimal digit, with no other
/// character, and a value that fits.
pub open spec fn spec_parse_usize(s: Seq<char>) -> Option<usize> {
    let d = numeral_digits(s);
    if d.len() > 0 && (forall|i: int| 0 <= i < d.len() ==> '0' <= #[trigger] d[i] <= '9')
        && digits_value(d) <= usize::MAX {
        Some(digits_value(d) as usize)
    } else {
        None
    }
}

proof fn lemma_digits_value_nonneg(s: Seq<char>)
    requires
        forall|i: int| 0 <= i < s.len() ==> '0' <= #[trigger] s[i] <= '9',
    ensures
        digits_value(s) >= 0,
    decreases s.len(),
{
    if s.len() > 0 {
        lemma_digits_value_nonneg(s.drop_last());
    }
}

/// A digit prefix never has a larger value than the whole numeral.
proof fn lemma_digits_value_prefix(s: Seq<char>, k: int)
    requires
        0 <= k <= s.len(),
        forall|i: int| 0 <= i < s.len() ==> '0' <= #[trigger] s[i] <= '9',
    ensures
        digits_value(s.subrange(0, k)) <= digits_value(s),
    decreases s.len() - k,
{
    if k < s.len() {
        lemma_digits_value_prefix(s, k + 1);
        let p = s.subrange(0, k + 1);
        assert(p.drop_last() =~= s.subrange(0, k));
        lemma_digits_value_nonneg(p.drop_last());
    } else {
        assert(s.subrange(0, k) =~= s);
    }
}

/// Reads a decimal numeral as [`spec_parse_usize`] says.
pub fn parse_usize(text: &str) -> (r: Option<usize>)
    ensures
        r == spec_parse_usize(text@),
{
    let s = crate::text::chars_of(text);
    let start: usize = if s.len() > 0 && s[0] == '+' {
        1
    } else {
        0
    };
    let ghost d = numeral_digits(s@);
    assert(d =~= s@.subrange(start as int, s@.len() as int));
    if start >= s.len() {
        return None;
    }
    let mut value: usize = 0;
    let mut i = start;
    while i < s.len()
        invariant
            start <= i <= s@.len(),
            s@ == text@,
            d == numeral_digits(text@),
            d == s@.subrange(start as int, s@.len() as int),
            forall|j: int| start <= j < i ==> '0' <= #[trigger] s@[j] <= '9',
            value == digits_value(s@.subrange(start as int, i as int)),
        decreases s.len() - i,
    {
        let c = s[i];
        if !('0' <= c && c <= '9') {
            assert(!('0' <= d[i - start] <= '9'));
            return None;
        }
        let digit = (c as u32 - '0' as u32) as usize;
        let ghost prefix = s@.subrange(start as int, i + 1);
        assert(prefix.drop_last() =~= s@.subrange(start as int, i as int));
        if value > (usize::MAX - digit) / 10 {
            proof {
                assert(digits_value(prefix) == value * 10 + digit);
                assert(value * 10 + digit > usize::MAX) by (nonlinear_arith)
                    requires
                        value > (usize::MAX - digit) / 10,
                        digit <= 9,
                ;
                if forall|j: int| 0 <= j < d.len() ==> '0' <= #[trigger] d[j] <= '9' {
                    lemma_digits_value_prefix(d, i + 1 - start);
                    assert(d.subrange(0, i + 1 - start) =~= prefix);
                }
            }
            return None;
        }
        assert(value * 10 + digit <= usize::MAX) by (nonlinear_arith)
            requires
                value <= (usize::MAX - digit) / 10,
                digit <= 9,
        ;
        value = value * 10 + digit;
        i = i + 1;
    }
    assert(s@.subrange(start as int, i as int) =~= d);
    Some(value)
}

/// The numeric argument at `index` of the command line, or `default` when
/// it is absent; at least 1 either way.
pub fn parse_arg(args: &[String], index: usize, default: usize) -> (r: Result<usize, ArgError>)
    ensures
        index >= args@.len() ==> r == Ok::<usize, ArgError>(if default >= 1 {
            default
        } else {
            1
        }),
        index < args@.len() ==> r == match spec_parse_usize(args@[index as int]@) {
            Some(v) => Ok::<usize, ArgError>(if v >= 1 {
                v
            } else {
                1
            }),
            None => Err(ArgError::InvalidNumber),
        },
{
    let value = if index < args.len() {
        match parse_usize(args[index].as_str()) {
            Some(v) => v,
            None => {
                return Err(ArgError::InvalidNumber);
            },
        }
    } else {
        default
    };
    Ok(if value >= 1 {
        value
    } else {
        1
    })
}

/// The sample at `percent` percent of the sorted `samples`: position
/// `(len - 1) * percent / 100`, at most the last.
pub fn percentile<T: Copy>(samples: &[T], percent: usize) -> (r: T)
    requires
        samples@.len() > 0,
        (samples@.len() - 1) * percent <= usize::MAX,
    ensures
        ({
            let i = (samples@.len() - 1) * percent / 100;
            r == samples@[if i < samples@.len() - 1 {
                i
            } else {
                samples@.len() - 1
            }]
        }),
{
    let last = samples.len() - 1;
    let i = last * percent / 100;
    let index = if i < last {
        i
    } else {
        last
    };
    samples[index]
}

} // verus!
