//! Width-aware truncation and short local-time rendering.
use vstd::prelude::*;
use crate::text::{chars_of, prefix_width, string_of, text_width, width_of_char};
use crate::time::{civil_of, fields_of, local_time_of, short_local_text, wall_clock_text, Timestamp};


verus! {

/// The glyph that marks a truncated string.
pub const ELLIPSIS: char = '\u{2026}';

/// The number of characters of the longest prefix of `s`, among the first
/// `n` characters, whose displayed width is at most `budget` columns.
pub open spec fn longest_fit(s: Seq<char>, budget: nat, n: int) -> int
    decreases n,
{
    if n <= 0 {
        0
    } else if prefix_width(s, n) <= budget {
        n
    } else {
        longest_fit(s, budget, n - 1)
    }
}

/// What `truncate_to_width(s, max_cols)` returns: `s` itself when it fits,
/// nothing when it does not fit in zero columns, and otherwise the longest
/// prefix that fits in `max_cols - 1` columns followed by `'…'`.
pub open spec fn truncated(s: Seq<char>, max_cols: nat) -> Seq<char> {
    if text_width(s) <= max_cols {
        s
    } else if max_cols == 0 {
        seq![]
    } else {
        s.take(longest_fit(s, (max_cols - 1) as nat, s.len() as int)).push(ELLIPSIS)
    }
}

/// Widths of prefixes never shrink as the prefix grows.
pub proof fn lemma_prefix_width_monotone(s: Seq<char>, j: int, m: int)
    requires
        0 <= j <= m <= s.len(),
    ensures
        prefix_width(s, j) <= prefix_width(s, m),
    decreases m - j,
{
    if j < m {
        lemma_prefix_width_monotone(s, j, m - 1);
    }
}

/// The width of a prefix only depends on the characters in it.
pub proof fn lemma_prefix_width_take(s: Seq<char>, n: int)
    requires
        0 <= n <= s.len(),
    ensures
        text_width(s.take(n)) == prefix_width(s, n),
{
    lemma_prefix_width_agree(s.take(n), s, n);
}

/// Two strings that agree on their first `n` characters have prefixes of
/// equal width.
pub proof fn lemma_prefix_width_agree(a: Seq<char>, b: Seq<char>, n: int)
    requires
        0 <= n <= a.len(),
        n <= b.len(),
        forall|i: int| 0 <= i < n ==> a[i] == b[i],
    ensures
        prefix_width(a, n) == prefix_width(b, n),
    decreases n,
{
    if n > 0 {
        lemma_prefix_width_agree(a, b, n - 1);
    }
}

/// `longest_fit` is the unique length whose prefix fits while every longer
/// prefix (up to `n`) does not.
pub proof fn lemma_longest_fit_unique(s: Seq<char>, budget: nat, n: int, k: int)
    requires
        0 <= k <= n <= s.len(),
        prefix_width(s, k) <= budget,
        forall|m: int| k < m <= n ==> prefix_width(s, m) > budget,
    ensures
        longest_fit(s, budget, n) == k,
    decreases n,
{
    if n > k {
        lemma_longest_fit_unique(s, budget, n - 1, k);
    }
}

/// The longest fitting prefix is a prefix, and it fits.
pub proof fn lemma_longest_fit_fits(s: Seq<char>, budget: nat, n: int)
    requires
        0 <= n <= s.len(),
    ensures
        0 <= longest_fit(s, budget, n) <= n,
        prefix_width(s, longest_fit(s, budget, n)) <= budget,
    decreases n,
{
    if n > 0 && prefix_width(s, n) > budget {
        lemma_longest_fit_fits(s, budget, n - 1);
    }
}

/// What truncation gives back fits: the whole string when it fits (even in
/// zero columns); nothing when it does not fit in zero columns; otherwise a
/// prefix narrower than the limit followed by `'…'`.
pub proof fn law_truncated_fits(s: Seq<char>, max_cols: nat)
    ensures
        text_width(s) <= max_cols ==> truncated(s, max_cols) == s,
        max_cols == 0 && text_width(s) > 0 ==> truncated(s, max_cols).len() == 0,
        max_cols > 0 && text_width(s) > max_cols ==> exists|k: int|
            0 <= k <= s.len() && truncated(s, max_cols) == s.take(k).push(ELLIPSIS) && text_width(
                s.take(k),
            ) < max_cols,
{
    if max_cols > 0 && text_width(s) > max_cols {
        let k = longest_fit(s, (max_cols - 1) as nat, s.len() as int);
        lemma_longest_fit_fits(s, (max_cols - 1) as nat, s.len() as int);
        lemma_prefix_width_take(s, k);
        assert(truncated(s, max_cols) == s.take(k).push(ELLIPSIS));
    }
}

/// Truncate `s` so that its displayed width does not exceed `max_cols`.
/// If truncated, the last visible glyphs give way to `'…'`.
/// Returns the original string when it already fits.
pub fn truncate_to_width(s: &str, max_cols: usize) -> (r: String)
    ensures
        r@ == truncated(s@, max_cols as nat),
        text_width(r@) <= max_cols,
{
    let cs = chars_of(s);
    let mut out: Vec<char> = Vec::new();
    let mut width: usize = 0;
    let mut i: usize = 0;
    while i < cs.len()
        invariant
            cs@ == s@,
            i <= cs.len(),
            out@ == cs@.take(i as int),
            width as nat == prefix_width(cs@, i as int),
            width <= max_cols,
        decreases cs.len() - i,
    {
        let ch = cs[i];
        let w: usize = match width_of_char(ch) {
            Some(w) => w,
            None => 0,
        };
        assert(prefix_width(cs@, i + 1) == prefix_width(cs@, i as int) + w);
        if w > max_cols - width {
            if max_cols == 0 {
                // Nothing that has any width fits in zero columns.
                proof {
                    lemma_prefix_width_monotone(cs@, i + 1, cs@.len() as int);
                    lemma_prefix_width_take(cs@, cs@.len() as int);
                    assert(cs@.take(cs@.len() as int) == cs@);
                }
                return String::new();
            }
            // The character at `i` overflows: give back glyphs until the
            // ellipsis fits as well.
            let budget: usize = max_cols - 1;
            let ghost over = i as int;
            let mut k: usize = i;
            while width > budget
                invariant
                    cs@ == s@,
                    budget + 1 == max_cols,
                    over == i,
                    k <= i < cs.len(),
                    out@ == cs@.take(k as int),
                    width as nat == prefix_width(cs@, k as int),
                    prefix_width(cs@, i + 1) > max_cols,
                    forall|m: int| k < m <= i ==> prefix_width(cs@, m) > budget,
                decreases k,
            {
                out.pop();
                proof {
                    assert(k > 0);
                }
                let lw: usize = match width_of_char(cs[k - 1]) {
                    Some(w) => w,
                    None => 0,
                };
                assert(prefix_width(cs@, k as int) == prefix_width(cs@, k - 1) + lw);
                width = width - lw;
                k = k - 1;
                assert(out@ == cs@.take(k as int));
            }
            proof {
                assert forall|m: int| k < m <= cs@.len() implies prefix_width(cs@, m)
                    > budget by {
                    if m > i {
                        lemma_prefix_width_monotone(cs@, i + 1, m);
                    }
                }
                lemma_longest_fit_unique(cs@, budget as nat, cs@.len() as int, k as int);
                lemma_prefix_width_monotone(cs@, i + 1, cs@.len() as int);
            }
            // The ellipsis takes the one column left.
            let ew = width_of_char(ELLIPSIS);
            proof {
                assert(ew == Some(1usize));
                lemma_prefix_width_take(cs@, k as int);
                assert(out@.push(ELLIPSIS).drop_last() == out@);
                lemma_prefix_width_take(out@.push(ELLIPSIS), out@.len() as int);
                lemma_prefix_width_agree(out@.push(ELLIPSIS), out@, out@.len() as int);
            }
            out.push(ELLIPSIS);
            return string_of(&out);
        }
        width = width + w;
        out.push(ch);
        i = i + 1;
        assert(out@ == cs@.take(i as int));
    }
    assert(cs@.take(cs.len() as int) == cs@);
    string_of(&out)
}

/// Render an instant as `YYYY-MM-DD HH:MM` in the machine's local time: the
/// clock reading of the instant shifted by the local offset from UTC, which
/// depends on the machine's time zone and is less than a day.
pub fn format_local_short(ts: &Timestamp) -> (r: String)
    ensures
        exists|w: int|
            -86400 < w - ts.unix_secs() < 86400 && r@ == #[trigger] wall_clock_text(w),
{
    proof {
        use_type_invariant(ts);
    }
    let t = local_time_of(ts);
    let r = short_local_text(&t);
    proof {
        let w = choose|w: int|
            -86400 < w - ts.unix_secs() < 86400 && fields_of(t) == #[trigger] civil_of(w);
        assert(r@ == wall_clock_text(w));
    }
    r
}

} // verus!
