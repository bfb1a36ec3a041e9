//! The keepalive period of the privileged session: how often a no-op call
//! must run so the elevated session never expires.
//!
//! The period is read out of the session tool's self-description: the last
//! `timestamp_timeout=<minutes>` entry wins, a missing or unusable entry
//! falls back to a fixed default.

use vstd::prelude::*;
use vstd::arithmetic::div_mod::lemma_fundamental_div_mod;
use vstd::arithmetic::mul::lemma_mul_inequality;
use vstd::string::StrSliceExecFns;

verus! {

/// The fallback keepalive value, in seconds, for when the session's own
/// timeout cannot be read: 10 seconds short of 5 minutes.
pub const SUDO_TIMESTAMP_TIMEOUT_DEFAULT_S: u64 = (5 * 60) - 10;

/// A non-empty run of ASCII decimal digits.
pub open spec fn is_dec_digits(s: Seq<char>) -> bool {
    s.len() > 0 && forall|i: int| 0 <= i < s.len() ==> '0' <= #[trigger] s[i] <= '9'
}

/// The number a run of decimal digits denotes.
pub open spec fn dec_value(s: Seq<char>) -> int
    decreases s.len(),
{
    if s.len() == 0 {
        0
    } else {
        dec_value(s.drop_last()) * 10 + (s.last() as int - 48)
    }
}

/// A digit run denotes a non-negative number.
proof fn lemma_dec_value_nonneg(s: Seq<char>)
    requires
        forall|i: int| 0 <= i < s.len() ==> '0' <= #[trigger] s[i] <= '9',
    ensures
        dec_value(s) >= 0,
    decreases s.len(),
{
    if s.len() > 0 {
        lemma_dec_value_nonneg(s.drop_last());
    }
}

/// Extending a digit run to the right never shrinks its value.
proof fn lemma_dec_value_prefix_le(s: Seq<char>, k: int)
    requires
        forall|i: int| 0 <= i < s.len() ==> '0' <= #[trigger] s[i] <= '9',
        0 <= k <= s.len(),
    ensures
        dec_value(s.take(k)) <= dec_value(s),
    decreases s.len() - k,
{
    if k == s.len() {
        assert(s.take(k) =~= s);
    } else {
        assert(s.take(k + 1).drop_last() =~= s.take(k));
        assert(s.take(k + 1).last() == s[k]);
        assert forall|i: int| 0 <= i < s.take(k).len() implies '0' <= #[trigger] s.take(
            k,
        )[i] <= '9' by {}
        lemma_dec_value_nonneg(s.take(k));
        assert(dec_value(s.take(k + 1)) == dec_value(s.take(k)) * 10 + (s[k] as int - 48));
        assert(dec_value(s.take(k)) * 10 >= dec_value(s.take(k))) by (nonlinear_arith)
            requires
                dec_value(s.take(k)) >= 0,
        ;
        lemma_dec_value_prefix_le(s, k + 1);
    }
}

/// Parses a non-empty run of ASCII decimal digits; anything else, or a
/// value that does not fit, is rejected.
pub fn parse_u64_decimal(s: &str) -> (r: Option<u64>)
    ensures
        r is Some <==> is_dec_digits(s@) && dec_value(s@) <= u64::MAX,
        r matches Some(v) ==> v == dec_value(s@),
{
    let n = s.unicode_len();
    if n == 0 {
        return None;
    }
    let mut v: u64 = 0;
    let mut i: usize = 0;
    while i < n
        invariant
            n == s@.len(),
            0 < n,
            i <= n,
            forall|j: int| 0 <= j < i ==> '0' <= #[trigger] s@[j] <= '9',
            v == dec_value(s@.take(i as int)),
        decreases n - i,
    {
        let c = s.get_char(i);
        if c < '0' || c > '9' {
            return None;
        }
        let d: u64 = (c as u32 as u64) - 48;
        proof {
            assert(s@.take(i as int + 1).drop_last() =~= s@.take(i as int));
            assert(s@.take(i as int + 1).last() == s@[i as int]);
        }
        if v > (u64::MAX - d) / 10 {
            proof {
                lemma_fundamental_div_mod((u64::MAX - d) as int, 10);
                assert(v * 10 > u64::MAX - d) by (nonlinear_arith)
                    requires
                        v > ((u64::MAX - d) as int) / 10,
                        ((u64::MAX - d) as int) == 10 * (((u64::MAX - d) as int) / 10) + (((
                        u64::MAX - d) as int) % 10),
                        0 <= ((u64::MAX - d) as int) % 10 < 10,
                ;
                if is_dec_digits(s@) {
                    lemma_dec_value_prefix_le(s@, i as int + 1);
                }
            }
            return None;
        }
        proof {
            lemma_fundamental_div_mod((u64::MAX - d) as int, 10);
            assert(v * 10 <= u64::MAX - d) by (nonlinear_arith)
                requires
                    v <= ((u64::MAX - d) as int) / 10,
                    ((u64::MAX - d) as int) == 10 * (((u64::MAX - d) as int) / 10) + (((u64::MAX
                        - d) as int) % 10),
                    0 <= ((u64::MAX - d) as int) % 10 < 10,
            ;
        }
        v = v * 10 + d;
        i = i + 1;
    }
    proof {
        assert(s@.take(n as int) =~= s@);
    }
    Some(v)
}

/// What the session tool's self-description yields: the first capture group
/// of the last `timestamp_timeout=(\d+)` match in the text, if any. The
/// result depends on the text alone.
pub uninterp spec fn timeout_capture(s: Seq<char>) -> Option<Seq<char>>;

/// Relies on `regex::Regex::captures_iter` with the fixed pattern
/// `timestamp_timeout=(\d+)`: matching is deterministic in the haystack, so
/// the last match's first group is a function of the text alone.
#[verifier::external_body]
fn last_timeout_capture(out: &str) -> (r: Option<String>)
    ensures
        r matches Some(c) ==> timeout_capture(out@) == Some(c@),
        r is None ==> timeout_capture(out@) is None,
{
    let re = regex::Regex::new(r"timestamp_timeout=(?<t>\d+)").unwrap();
    re.captures_iter(out).last().and_then(|c| c.get(1)).map(|m| m.as_str().to_owned())
}

/// The minutes value the text asks for: the captured number when it parses
/// as a `u64`, the default otherwise.
pub open spec fn spec_keepalive_minutes(s: Seq<char>) -> int {
    match timeout_capture(s) {
        Some(cap) => if is_dec_digits(cap) && dec_value(cap) <= u64::MAX {
            dec_value(cap)
        } else {
            SUDO_TIMESTAMP_TIMEOUT_DEFAULT_S as int
        },
        None => SUDO_TIMESTAMP_TIMEOUT_DEFAULT_S as int,
    }
}

/// The keepalive period in seconds: five seconds inside the session's own
/// timeout of `m` minutes, with the default whenever that is not positive
/// or not representable.
pub open spec fn spec_keepalive_period_s(s: Seq<char>) -> int {
    let m = spec_keepalive_minutes(s);
    if m == 0 || m > (u64::MAX as int) / 60 {
        SUDO_TIMESTAMP_TIMEOUT_DEFAULT_S as int
    } else {
        m * 60 - 5
    }
}

/// Derives the keepalive period from the session tool's self-description:
/// the last `timestamp_timeout=<minutes>` entry in the text, converted to
/// seconds with a five-second safety margin, or the fixed default when the
/// entry is missing, unparsable, zero or out of range.
pub fn get_sudo_timeout_s(out: &str) -> (r: u64)
    ensures
        r == spec_keepalive_period_s(out@),
{
    let m: u64 = match last_timeout_capture(out) {
        Some(cap) => match parse_u64_decimal(cap.as_str()) {
            Some(v) => v,
            None => SUDO_TIMESTAMP_TIMEOUT_DEFAULT_S,
        },
        None => SUDO_TIMESTAMP_TIMEOUT_DEFAULT_S,
    };
    if m == 0 || m > u64::MAX / 60 {
        SUDO_TIMESTAMP_TIMEOUT_DEFAULT_S
    } else {
        proof {
            lemma_mul_inequality(m as int, (u64::MAX as int) / 60, 60);
            lemma_fundamental_div_mod(u64::MAX as int, 60);
        }
        m * 60 - 5
    }
}

} // verus!
