//! Small text helpers used by the status and earnings reports.

use vstd::prelude::*;
use crate::json::dec_digits;

verus! {

/// A string cut to at most `max_len` characters, with an ellipsis when
/// anything was cut.
pub open spec fn spec_truncate(s: Seq<char>, max_len: int) -> Seq<char> {
    if s.len() <= max_len {
        s
    } else {
        s.take(max_len) + "..."@
    }
}

/// Cuts a string to at most `max_len` characters, marking the cut with
/// an ellipsis.
pub fn truncate(s: &str, max_len: usize) -> (r: String)
    ensures
        r@ == spec_truncate(s@, max_len as int),
{
    let n = s.unicode_len();
    if n <= max_len {
        s.to_owned()
    } else {
        let head = s.substring_char(0, max_len);
        let mut out = head.to_owned();
        out.append("...");
        proof {
            assert(out@ =~= spec_truncate(s@, max_len as int));
        }
        out
    }
}

/// A duration in seconds formatted as days, hours, minutes and seconds,
/// keeping only the two most significant parts.
pub open spec fn spec_format_duration(seconds: u64) -> Seq<char> {
    let days = seconds / 86400;
    let hours = (seconds % 86400) / 3600;
    let minutes = (seconds % 3600) / 60;
    let secs = seconds % 60;
    if days > 0 {
        dec_digits(days as nat) + "d "@ + dec_digits(hours as nat) + "h "@ + dec_digits(
            minutes as nat,
        ) + "m"@
    } else if hours > 0 {
        dec_digits(hours as nat) + "h "@ + dec_digits(minutes as nat) + "m"@
    } else if minutes > 0 {
        dec_digits(minutes as nat) + "m "@ + dec_digits(secs as nat) + "s"@
    } else {
        dec_digits(secs as nat) + "s"@
    }
}

/// Formats a duration in seconds for people.
pub fn format_duration(seconds: u64) -> (r: String)
    ensures
        r@ == spec_format_duration(seconds),
{
    let days = seconds / 86400;
    let hours = (seconds % 86400) / 3600;
    let minutes = (seconds % 3600) / 60;
    let secs = seconds % 60;
    let mut out = String::new();
    if days > 0 {
        crate::json::write_uint(days, &mut out);
        out.append("d ");
        crate::json::write_uint(hours, &mut out);
        out.append("h ");
        crate::json::write_uint(minutes, &mut out);
        out.append("m");
    } else if hours > 0 {
        crate::json::write_uint(hours, &mut out);
        out.append("h ");
        crate::json::write_uint(minutes, &mut out);
        out.append("m");
    } else if minutes > 0 {
        crate::json::write_uint(minutes, &mut out);
        out.append("m ");
        crate::json::write_uint(secs, &mut out);
        out.append("s");
    } else {
        crate::json::write_uint(secs, &mut out);
        out.append("s");
    }
    proof {
        assert(out@ =~= spec_format_duration(seconds));
    }
    out
}

/// Whether `pat` occurs in `s` as a contiguous run of characters.
pub open spec fn spec_contains(s: Seq<char>, pat: Seq<char>) -> bool {
    exists|i: int| (0 <= i <= s.len() - pat.len()) && #[trigger] s.subrange(i, i + pat.len())
        == pat
}

/// Substring search over characters.
pub fn str_contains(s: &str, pat: &str) -> (r: bool)
    ensures
        r == spec_contains(s@, pat@),
{
    let n = s.unicode_len();
    let m = pat.unicode_len();
    if m > n {
        return false;
    }
    if m == 0 {
        proof {
            assert(s@.subrange(0int, 0int + pat@.len()) =~= pat@);
            assert((0 <= 0int <= s@.len() - pat@.len()) && s@.subrange(0int, 0int + pat@.len())
                == pat@);
        }
        return true;
    }
    let mut i: usize = 0;
    while i <= n - m
        invariant
            n == s@.len(),
            m == pat@.len(),
            1 <= m <= n,
            i <= n - m + 1,
            forall|k: int| 0 <= k < i ==> #[trigger] s@.subrange(k, k + pat@.len()) != pat@,
        decreases n - m - i + 1,
    {
        let mut all_match = true;
        let mut j: usize = 0;
        while j < m
            invariant
                n == s@.len(),
                m == pat@.len(),
                i + m <= n,
                j <= m,
                all_match ==> forall|q: int| 0 <= q < j ==> s@[i + q] == #[trigger] pat@[q],
                !all_match ==> s@.subrange(i as int, i + pat@.len()) != pat@,
            decreases m - j,
        {
            let cs = s.get_char(i + j);
            let cp = pat.get_char(j);
            if cs != cp {
                proof {
                    assert(s@.subrange(i as int, i + pat@.len())[j as int] == s@[i + j]);
                }
                all_match = false;
                j = m;
            } else {
                j = j + 1;
            }
        }
        if all_match {
            proof {
                assert(s@.subrange(i as int, i as int + pat@.len()) =~= pat@);
                assert((0 <= i as int <= s@.len() - pat@.len()) && s@.subrange(
                    i as int,
                    i as int + pat@.len(),
                ) == pat@);
            }
            return true;
        }
        i = i + 1;
    }
    proof {
        assert forall|k: int| (0 <= k <= s@.len() - pat@.len()) implies #[trigger] s@.subrange(
            k,
            k + pat@.len(),
        ) != pat@ by {}
    }
    false
}

} // verus!
