//! Character-level text helpers: whitespace, substring search, line
//! splitting, lower-casing and display width.
use vstd::prelude::*;
use unicode_width::UnicodeWidthChar;

verus! {

// ---------------------------------------------------------------------------
// Trusted items
// ---------------------------------------------------------------------------

/// The Unicode `White_Space` property, which `char::is_whitespace` reports:
/// tab, line feed, vertical tab, form feed, carriage return, space, U+0085,
/// no-break space, U+1680, U+2000 to U+200A, the line and paragraph
/// separators, U+202F, U+205F and U+3000.
pub open spec fn white_space(c: char) -> bool {
    let n = c as int;
    ||| 9 <= n <= 13
    ||| n == 0x20
    ||| n == 0x85
    ||| n == 0xa0
    ||| n == 0x1680
    ||| 0x2000 <= n <= 0x200a
    ||| n == 0x2028
    ||| n == 0x2029
    ||| n == 0x202f
    ||| n == 0x205f
    ||| n == 0x3000
}

/// Every character of `s` is ASCII.
pub open spec fn is_ascii(s: Seq<char>) -> bool {
    forall|i: int| 0 <= i < s.len() ==> (#[trigger] s[i] as int) < 128
}

/// The lower-case form of an ASCII character: `A` to `Z` become `a` to
/// `z`, every other character stays.
pub open spec fn ascii_lower(c: char) -> char {
    if 'A' <= c && c <= 'Z' {
        ((c as int) + 32) as char
    } else {
        c
    }
}

/// Full Unicode lower-casing of a string that holds a character beyond
/// ASCII, as `str::to_lowercase` computes it.
pub uninterp spec fn unicode_lowercase(s: Seq<char>) -> Seq<char>;

/// `str::to_lowercase` of `s`: on ASCII text it lowers `A` to `Z` one by
/// one, as std documents; beyond ASCII it is Unicode's full lower-casing.
pub open spec fn lowercase(s: Seq<char>) -> Seq<char> {
    if is_ascii(s) {
        s.map_values(|c: char| ascii_lower(c))
    } else {
        unicode_lowercase(s)
    }
}

/// The displayed column width of a character, as
/// `unicode_width::UnicodeWidthChar::width` reports it (`None` for controls).
pub uninterp spec fn char_width(c: char) -> Option<usize>;

/// Calls `String::push`; the contract claims that the character is appended.
#[verifier::external_body]
pub(crate) fn push_char(s: &mut String, c: char)
    ensures
        final(s)@ == old(s)@.push(c),
{
    s.push(c);
}

/// Calls `String::pop`; the contract claims that the last character, if
/// any, is removed and returned.
#[verifier::external_body]
pub(crate) fn pop_char(s: &mut String) -> (r: Option<char>)
    ensures
        old(s)@.len() == 0 ==> r is None && final(s)@ == old(s)@,
        old(s)@.len() > 0 ==> r == Some(old(s)@.last()) && final(s)@ == old(s)@.drop_last(),
{
    s.pop()
}

/// Calls `char::is_whitespace`, which std documents as the Unicode
/// `White_Space` property.
#[verifier::external_body]
pub(crate) fn is_whitespace(c: char) -> (r: bool)
    ensures
        r == white_space(c),
{
    c.is_whitespace()
}

/// Calls `str::to_lowercase`: ASCII text is lowered letter by letter; the
/// result for other text is named.
#[verifier::external_body]
pub(crate) fn to_lowercase(s: &str) -> (r: String)
    ensures
        is_ascii(s@) ==> r@ == s@.map_values(|c: char| ascii_lower(c)),
        !is_ascii(s@) ==> r@ == unicode_lowercase(s@),
{
    s.to_lowercase()
}

/// Calls `UnicodeWidthChar::width` of unicode-width. Besides naming the
/// result, the contract states what the crate's `single_char_width` shows:
/// printable ASCII is one column wide, C0/C1 controls and DEL have no width,
/// and every other character is at most three columns wide. The crate also
/// documents that East Asian Ambiguous characters, such as `'…'`, are one
/// column wide.
#[verifier::external_body]
pub(crate) fn width_of_char(c: char) -> (r: Option<usize>)
    ensures
        r == char_width(c),
        (' ' <= c && c < '\u{7f}') ==> r == Some(1usize),
        (c < ' ' || ('\u{7f}' <= c && c < '\u{a0}')) ==> r is None,
        c == '\u{2026}' ==> r == Some(1usize),
        r matches Some(w) ==> w <= 3,
{
    UnicodeWidthChar::width(c)
}

// ---------------------------------------------------------------------------
// Specifications
// ---------------------------------------------------------------------------

/// Every character of `s` is white space: `str::trim` would leave nothing.
pub open spec fn is_blank(s: Seq<char>) -> bool {
    forall|i: int| 0 <= i < s.len() ==> white_space(#[trigger] s[i])
}

/// `needle` occurs in `hay` starting at position `i`.
pub open spec fn occurs_at(hay: Seq<char>, needle: Seq<char>, i: int) -> bool {
    0 <= i && i + needle.len() <= hay.len() && hay.subrange(i, i + needle.len()) == needle
}

/// `needle` is a substring of `hay` (the empty string is a substring of all).
pub open spec fn has_substring(hay: Seq<char>, needle: Seq<char>) -> bool {
    exists|i: int| occurs_at(hay, needle, i)
}

/// Width that a character contributes to a line: controls count as zero.
pub open spec fn col_width(c: char) -> nat {
    match char_width(c) {
        Some(w) => w as nat,
        None => 0,
    }
}

/// Displayed width of the first `n` characters of `s`.
pub open spec fn prefix_width(s: Seq<char>, n: int) -> nat
    decreases n,
{
    if n <= 0 || s.len() == 0 {
        0
    } else if n > s.len() {
        prefix_width(s, s.len() as int)
    } else {
        prefix_width(s, n - 1) + col_width(s[n - 1])
    }
}

/// Displayed width of a whole string.
pub open spec fn text_width(s: Seq<char>) -> nat {
    prefix_width(s, s.len() as int)
}

/// The words of `s`: its maximal runs of non-white-space characters.
pub open spec fn words(s: Seq<char>) -> Seq<Seq<char>>
    decreases s.len(),
{
    if s.len() == 0 {
        seq![]
    } else {
        let w = words(s.drop_last());
        let c = s.last();
        if white_space(c) {
            w
        } else if s.len() >= 2 && !white_space(s[s.len() - 2]) {
            w.update(w.len() - 1, w.last().push(c))
        } else {
            w.push(seq![c])
        }
    }
}

/// The pieces of `list` joined with `sep` between neighbours.
pub open spec fn join(list: Seq<Seq<char>>, sep: Seq<char>) -> Seq<char>
    decreases list.len(),
{
    if list.len() == 0 {
        seq![]
    } else if list.len() == 1 {
        list[0]
    } else {
        join(list.drop_last(), sep) + sep + list.last()
    }
}

/// `str::split_whitespace` followed by `join(" ")`.
pub open spec fn collapsed(s: Seq<char>) -> Seq<char> {
    join(words(s), seq![' '])
}

/// The pieces of `s` between occurrences of `sep` (there is always one more
/// piece than there are separators).
pub open spec fn pieces(s: Seq<char>, sep: char) -> Seq<Seq<char>>
    decreases s.len(),
{
    if s.len() == 0 {
        seq![seq![]]
    } else {
        let p = pieces(s.drop_last(), sep);
        if s.last() == sep {
            p.push(seq![])
        } else {
            p.update(p.len() - 1, p.last().push(s.last()))
        }
    }
}

/// `pieces` never comes back empty.
pub proof fn lemma_pieces_nonempty(s: Seq<char>, sep: char)
    ensures
        pieces(s, sep).len() >= 1,
    decreases s.len(),
{
    if s.len() > 0 {
        lemma_pieces_nonempty(s.drop_last(), sep);
    }
}

/// A line that was ended by a newline loses one trailing carriage return.
pub open spec fn strip_cr(line: Seq<char>) -> Seq<char> {
    if line.len() > 0 && line.last() == '\r' {
        line.drop_last()
    } else {
        line
    }
}

/// `str::lines`: split at `'\n'`; a `"\r\n"` ending loses its `'\r'`; a final
/// newline does not start an extra empty line; the empty string has no lines.
pub open spec fn text_lines(s: Seq<char>) -> Seq<Seq<char>> {
    let p = pieces(s, '\n');
    let terminated = p.drop_last().map_values(|l: Seq<char>| strip_cr(l));
    if p.last().len() == 0 {
        terminated
    } else {
        terminated.push(p.last())
    }
}

// ---------------------------------------------------------------------------
// Executable functions
// ---------------------------------------------------------------------------

/// The characters of `s` in a vector.
pub fn chars_of(s: &str) -> (r: Vec<char>)
    ensures
        r@ == s@,
{
    let mut out: Vec<char> = Vec::new();
    for c in it: s.chars()
        invariant
            out@ == it.seq().take(it.index() as int),
            it.seq() == s@,
    {
        out.push(c);
        assert(out@ == it.seq().take(it.index() as int + 1));
    }
    out
}

/// A string holding exactly the characters of `v`.
pub fn string_of(v: &Vec<char>) -> (r: String)
    ensures
        r@ == v@,
{
    let mut out = String::new();
    let mut i: usize = 0;
    while i < v.len()
        invariant
            i <= v.len(),
            out@ == v@.take(i as int),
        decreases v.len() - i,
    {
        push_char(&mut out, v[i]);
        assert(out@ == v@.take(i as int + 1));
        i = i + 1;
    }
    assert(v@.take(v.len() as int) == v@);
    out
}

/// Append every character of `t` to `s`.
pub fn push_str(s: &mut String, t: &str)
    ensures
        final(s)@ == old(s)@ + t@,
{
    let ghost start = s@;
    for c in it: t.chars()
        invariant
            s@ == start + it.seq().take(it.index() as int),
            it.seq() == t@,
    {
        push_char(s, c);
        assert(it.seq().take(it.index() as int + 1) == it.seq().take(it.index() as int).push(c));
    }
    assert(t@.take(t@.len() as int) == t@);
}

/// Two strings hold the same characters.
pub fn text_eq(a: &str, b: &str) -> (r: bool)
    ensures
        r == (a@ == b@),
{
    let va = chars_of(a);
    let vb = chars_of(b);
    chars_eq(&va, &vb)
}

/// Two character vectors hold the same characters.
pub fn chars_eq(va: &Vec<char>, vb: &Vec<char>) -> (r: bool)
    ensures
        r == (va@ == vb@),
{
    if va.len() != vb.len() {
        return false;
    }
    let mut i: usize = 0;
    while i < va.len()
        invariant
            va.len() == vb.len(),
            i <= va.len(),
            forall|j: int| 0 <= j < i ==> va@[j] == vb@[j],
        decreases va.len() - i,
    {
        if va[i] != vb[i] {
            return false;
        }
        i = i + 1;
    }
    assert(va@ == vb@);
    true
}

/// Every character of `s` is white space (`s.trim().is_empty()`).
pub fn blank(s: &str) -> (r: bool)
    ensures
        r == is_blank(s@),
{
    for c in it: s.chars()
        invariant
            it.seq() == s@,
            forall|j: int| 0 <= j < it.index() ==> white_space(#[trigger] s@[j]),
    {
        if !is_whitespace(c) {
            return false;
        }
    }
    true
}

/// Whether `needle` occurs at position `i` of `hay`.
fn occurs_here(hay: &Vec<char>, needle: &Vec<char>, i: usize) -> (r: bool)
    requires
        i + needle.len() <= hay.len(),
    ensures
        r == occurs_at(hay@, needle@, i as int),
{
    let mut j: usize = 0;
    while j < needle.len()
        invariant
            i + needle.len() <= hay.len(),
            j <= needle.len(),
            forall|k: int| 0 <= k < j ==> hay@[i + k] == needle@[k],
        decreases needle.len() - j,
    {
        if hay[i + j] != needle[j] {
            assert(hay@.subrange(i as int, i + needle.len())[j as int] != needle@[j as int]);
            return false;
        }
        j = j + 1;
    }
    assert(hay@.subrange(i as int, i + needle.len()) == needle@);
    true
}

/// Substring search over character vectors.
pub fn contains_chars(hay: &Vec<char>, needle: &Vec<char>) -> (r: bool)
    ensures
        r == has_substring(hay@, needle@),
{
    if needle.len() > hay.len() {
        assert forall|i: int| !occurs_at(hay@, needle@, i) by {}
        return false;
    }
    let last = hay.len() - needle.len();
    let mut i: usize = 0;
    while i < last
        invariant
            last + needle.len() == hay.len(),
            i <= last,
            forall|k: int| 0 <= k < i ==> !occurs_at(hay@, needle@, k),
        decreases last - i,
    {
        if occurs_here(hay, needle, i) {
            return true;
        }
        i = i + 1;
    }
    occurs_here(hay, needle, last)
}

/// `hay.contains(needle)` for string slices.
pub fn contains(hay: &str, needle: &str) -> (r: bool)
    ensures
        r == has_substring(hay@, needle@),
{
    let h = chars_of(hay);
    let n = chars_of(needle);
    contains_chars(&h, &n)
}

/// Joining after growing the last piece grows the joined text.
pub proof fn lemma_join_extend_last(w: Seq<Seq<char>>, sep: Seq<char>, c: char)
    requires
        w.len() > 0,
    ensures
        join(w.update(w.len() - 1, w.last().push(c)), sep) == join(w, sep).push(c),
{
    let w2 = w.update(w.len() - 1, w.last().push(c));
    if w.len() >= 2 {
        assert(w2.drop_last() == w.drop_last());
        assert(join(w2, sep) == join(w.drop_last(), sep) + sep + w.last().push(c));
        assert(join(w2, sep) =~= join(w, sep).push(c));
    }
}

/// Joining after adding a piece appends the separator and the piece.
pub proof fn lemma_join_push(w: Seq<Seq<char>>, sep: Seq<char>, x: Seq<char>)
    ensures
        join(w.push(x), sep) == if w.len() == 0 {
            x
        } else {
            join(w, sep) + sep + x
        },
{
    assert(w.push(x).drop_last() == w);
}

/// A character that is not white space ends a word.
pub proof fn lemma_words_after_word(s: Seq<char>)
    requires
        s.len() > 0,
        !white_space(s.last()),
    ensures
        words(s).len() > 0,
    decreases s.len(),
{
    let w = words(s.drop_last());
    if s.len() >= 2 && !white_space(s[s.len() - 2]) {
        assert(s.drop_last().last() == s[s.len() - 2]);
        lemma_words_after_word(s.drop_last());
    }
}

/// `s.split_whitespace().collect::<Vec<_>>().join(" ")`: the words of `s`
/// separated by single spaces.
pub fn collapse_whitespace(s: &str) -> (r: String)
    ensures
        r@ == collapsed(s@),
{
    let cs = chars_of(s);
    let mut out: Vec<char> = Vec::new();
    let mut prev_ws = true;
    let mut i: usize = 0;
    while i < cs.len()
        invariant
            cs@ == s@,
            i <= cs.len(),
            out@ == join(words(cs@.take(i as int)), seq![' ']),
            prev_ws == (i == 0 || white_space(cs@[i - 1])),
        decreases cs.len() - i,
    {
        let ghost pre = cs@.take(i as int);
        let ghost now = cs@.take(i + 1);
        assert(now.drop_last() == pre);
        assert(now.last() == cs@[i as int]);
        let c = cs[i];
        if is_whitespace(c) {
            assert(words(now) == words(pre));
            prev_ws = true;
        } else {
            if !prev_ws {
                assert(now[now.len() - 2] == cs@[i - 1]);
                proof {
                    assert(pre.last() == cs@[i - 1]);
                    lemma_words_after_word(pre);
                    lemma_join_extend_last(words(pre), seq![' '], c);
                }
                out.push(c);
            } else {
                proof {
                    if i >= 1 {
                        assert(now[now.len() - 2] == cs@[i - 1]);
                    }
                    lemma_join_push(words(pre), seq![' '], seq![c]);
                }
                if out.len() > 0 {
                    out.push(' ');
                    out.push(c);
                    assert(out@ == join(words(pre), seq![' ']) + seq![' '] + seq![c]);
                } else {
                    assert(words(pre).len() == 0) by {
                        if words(pre).len() > 0 {
                            lemma_words_nonempty(pre);
                            lemma_join_nonempty(words(pre), seq![' ']);
                        }
                    }
                    out.push(c);
                    assert(out@ == seq![c]);
                }
            }
            prev_ws = false;
        }
        i = i + 1;
    }
    assert(cs@.take(cs.len() as int) == cs@);
    string_of(&out)
}

/// Joined words are never empty when there is a word.
pub proof fn lemma_join_nonempty(w: Seq<Seq<char>>, sep: Seq<char>)
    requires
        w.len() > 0,
        forall|k: int| 0 <= k < w.len() ==> (#[trigger] w[k]).len() > 0,
    ensures
        join(w, sep).len() > 0,
{
    if w.len() >= 2 {
        assert(w[w.len() - 1].len() > 0);
    } else {
        assert(w[0].len() > 0);
    }
}

/// Every word of `s` holds at least one character.
pub proof fn lemma_words_nonempty(s: Seq<char>)
    ensures
        forall|k: int| 0 <= k < words(s).len() ==> (#[trigger] words(s)[k]).len() > 0,
    decreases s.len(),
{
    if s.len() > 0 {
        lemma_words_nonempty(s.drop_last());
        let w = words(s.drop_last());
        let c = s.last();
        if !white_space(c) {
            if s.len() >= 2 && !white_space(s[s.len() - 2]) {
                assert(s.drop_last().last() == s[s.len() - 2]);
                lemma_words_after_word(s.drop_last());
                let w2 = w.update(w.len() - 1, w.last().push(c));
                assert forall|k: int| 0 <= k < w2.len() implies (#[trigger] w2[k]).len() > 0 by {
                    if k == w.len() - 1 {
                        assert(w2[k] == w.last().push(c));
                    } else {
                        assert(w2[k] == w[k]);
                    }
                }
            } else {
                let w2 = w.push(seq![c]);
                assert forall|k: int| 0 <= k < w2.len() implies (#[trigger] w2[k]).len() > 0 by {
                    if k < w.len() {
                        assert(w2[k] == w[k]);
                    }
                }
            }
        }
    }
}

// ---------------------------------------------------------------------------
// Decimal numbers
// ---------------------------------------------------------------------------

/// The ASCII digit for `d < 10`.
pub open spec fn digit_char(d: nat) -> char {
    (('0' as u32) + d) as char
}

/// Decimal digits of `n`, without leading zeros (`"0"` for zero).
pub open spec fn decimal(n: nat) -> Seq<char>
    decreases n,
{
    if n < 10 {
        seq![digit_char(n)]
    } else {
        decimal(n / 10).push(digit_char(n % 10))
    }
}

/// Decimal digits of `n`, zero-padded on the left to at least `w` characters.
pub open spec fn padded(n: nat, w: nat) -> Seq<char> {
    let d = decimal(n);
    if d.len() >= w {
        d
    } else {
        Seq::new((w - d.len()) as nat, |i: int| '0') + d
    }
}

/// The digit for `d`.
pub fn digit(d: u64) -> (r: char)
    requires
        d < 10,
    ensures
        r == digit_char(d as nat),
{
    let b: u8 = 48 + (d as u8);
    b as char
}

/// Decimal digits of `n`.
pub fn decimal_chars(n: u64) -> (r: Vec<char>)
    ensures
        r@ == decimal(n as nat),
    decreases n,
{
    if n < 10 {
        let mut v = Vec::new();
        v.push(digit(n));
        v
    } else {
        let mut v = decimal_chars(n / 10);
        v.push(digit(n % 10));
        v
    }
}

/// Append the digits of `n`, zero-padded to `w` characters, to `out`.
pub fn push_padded(out: &mut Vec<char>, n: u64, w: usize)
    ensures
        final(out)@ == old(out)@ + padded(n as nat, w as nat),
{
    let d = decimal_chars(n);
    let ghost start = out@;
    if d.len() < w {
        let zeros: usize = w - d.len();
        let mut i: usize = 0;
        while i < zeros
            invariant
                i <= zeros,
                out@ == start + Seq::new(i as nat, |k: int| '0'),
            decreases zeros - i,
        {
            out.push('0');
            i = i + 1;
            assert(out@ == start + Seq::new(i as nat, |k: int| '0'));
        }
    }
    let ghost mid = out@;
    let mut j: usize = 0;
    while j < d.len()
        invariant
            j <= d.len(),
            out@ == mid + d@.take(j as int),
        decreases d.len() - j,
    {
        out.push(d[j]);
        j = j + 1;
        assert(out@ == mid + d@.take(j as int));
    }
    assert(d@.take(d.len() as int) == d@);
}

/// Rust's `Display` of a signed integer: a minus sign for negative values,
/// then the decimal digits.
pub open spec fn signed_decimal(n: int) -> Seq<char> {
    if n < 0 {
        seq!['-'] + decimal((-n) as nat)
    } else {
        decimal(n as nat)
    }
}

/// Append the decimal digits of `n` to `out`.
pub fn push_decimal(out: &mut String, n: u64)
    ensures
        final(out)@ == old(out)@ + decimal(n as nat),
{
    let d = decimal_chars(n);
    let ghost start = out@;
    let mut j: usize = 0;
    while j < d.len()
        invariant
            j <= d.len(),
            out@ == start + d@.take(j as int),
        decreases d.len() - j,
    {
        push_char(out, d[j]);
        j = j + 1;
        assert(out@ == start + d@.take(j as int));
    }
    assert(d@.take(d.len() as int) == d@);
}

/// Append Rust's `Display` of a signed integer to `out`.
pub fn push_signed(out: &mut String, n: i64)
    ensures
        final(out)@ == old(out)@ + signed_decimal(n as int),
{
    if n < 0 {
        let ghost start = out@;
        push_char(out, '-');
        let m: u64 = if n == i64::MIN {
            9223372036854775808u64
        } else {
            (-n) as u64
        };
        push_decimal(out, m);
        assert(out@ == start + (seq!['-'] + decimal((-n) as nat)));
    } else {
        push_decimal(out, n as u64);
    }
}

/// `str::lines`: the lines of `s`, without their line endings.
pub fn split_lines(s: &str) -> (r: Vec<String>)
    ensures
        r@.map_values(|l: String| l@) == text_lines(s@),
{
    let cs = chars_of(s);
    let mut done: Vec<String> = Vec::new();
    let mut cur: Vec<char> = Vec::new();
    let mut i: usize = 0;
    proof {
        assert(cs@.take(0) =~= seq![]);
    }
    while i < cs.len()
        invariant
            cs@ == s@,
            i <= cs.len(),
            pieces(cs@.take(i as int), '\n').len() >= 1,
            cur@ == pieces(cs@.take(i as int), '\n').last(),
            done@.map_values(|l: String| l@) == pieces(cs@.take(i as int), '\n').drop_last().map_values(
                |l: Seq<char>| strip_cr(l),
            ),
        decreases cs.len() - i,
    {
        let ghost before = pieces(cs@.take(i as int), '\n');
        assert(cs@.take(i + 1).drop_last() == cs@.take(i as int));
        assert(cs@.take(i + 1).last() == cs@[i as int]);
        let c = cs[i];
        if c == '\n' {
            let ghost after = before.push(seq![]);
            assert(pieces(cs@.take(i + 1), '\n') == after);
            assert(after.drop_last() == before);
            let ghost old_done = done@;
            if cur.len() > 0 && cur[cur.len() - 1] == '\r' {
                cur.pop();
            }
            assert(cur@ == strip_cr(before.last()));
            let line = string_of(&cur);
            let ghost lv = line@;
            done.push(line);
            assert(before.drop_last().push(before.last()) == before);
            assert(done@.map_values(|l: String| l@) =~= old_done.map_values(|l: String| l@).push(
                lv,
            ));
            assert(before.map_values(|l: Seq<char>| strip_cr(l)) =~= before.drop_last().map_values(
                |l: Seq<char>| strip_cr(l),
            ).push(strip_cr(before.last())));
            cur = Vec::new();
        } else {
            cur.push(c);
            let ghost after = before.update(before.len() - 1, before.last().push(c));
            assert(pieces(cs@.take(i + 1), '\n') == after);
            assert(after.drop_last() == before.drop_last());
        }
        i = i + 1;
    }
    assert(cs@.take(i as int) == cs@);
    let ghost p = pieces(s@, '\n');
    if cur.len() > 0 {
        done.push(string_of(&cur));
        assert(done@.map_values(|l: String| l@) =~= p.drop_last().map_values(
            |l: Seq<char>| strip_cr(l),
        ).push(p.last()));
    }
    done
}

// ---------------------------------------------------------------------------
// Laws of collapsed whitespace and of lines
// ---------------------------------------------------------------------------

/// No word holds white space.
pub proof fn lemma_words_have_no_white_space(s: Seq<char>)
    ensures
        forall|k: int, j: int|
            0 <= k < words(s).len() && 0 <= j < words(s)[k].len() ==> !white_space(
                #[trigger] words(s)[k][j],
            ),
    decreases s.len(),
{
    if s.len() > 0 {
        let prev = s.drop_last();
        lemma_words_have_no_white_space(prev);
        let w = words(prev);
        let c = s.last();
        if !white_space(c) {
            if s.len() >= 2 && !white_space(s[s.len() - 2]) {
                assert(prev.last() == s[s.len() - 2]);
                lemma_words_after_word(prev);
                let w2 = w.update(w.len() - 1, w.last().push(c));
                assert forall|k: int, j: int|
                    0 <= k < w2.len() && 0 <= j < w2[k].len() implies !white_space(
                    #[trigger] w2[k][j],
                ) by {
                    if k == w.len() - 1 {
                        if j < w.last().len() {
                            assert(w2[k][j] == w[k][j]);
                        }
                    } else {
                        assert(w2[k] == w[k]);
                    }
                }
            } else {
                let w2 = w.push(seq![c]);
                assert forall|k: int, j: int|
                    0 <= k < w2.len() && 0 <= j < w2[k].len() implies !white_space(
                    #[trigger] w2[k][j],
                ) by {
                    if k < w.len() {
                        assert(w2[k] == w[k]);
                    }
                }
            }
        }
    }
}

/// Adding a character never loses a word.
proof fn lemma_words_grow(s: Seq<char>)
    requires
        s.len() > 0,
    ensures
        words(s.drop_last()).len() <= words(s).len(),
{
}

/// A string with a character that is not white space has a word.
proof fn lemma_words_exist(s: Seq<char>, i: int)
    requires
        0 <= i < s.len(),
        !white_space(s[i]),
    ensures
        words(s).len() > 0,
    decreases s.len() - i,
{
    if i == s.len() - 1 {
        lemma_words_after_word(s);
    } else {
        lemma_words_exist(s.drop_last(), i);
        lemma_words_grow(s);
    }
}

/// Joined pieces begin with the first piece and end with the last, when
/// those are not empty.
proof fn lemma_join_ends(w: Seq<Seq<char>>, sep: Seq<char>)
    requires
        w.len() > 0,
        forall|k: int| 0 <= k < w.len() ==> (#[trigger] w[k]).len() > 0,
    ensures
        join(w, sep).len() > 0,
        join(w, sep)[0] == w[0][0],
        join(w, sep).last() == w.last().last(),
    decreases w.len(),
{
    if w.len() >= 2 {
        lemma_join_ends(w.drop_last(), sep);
        let j = join(w.drop_last(), sep);
        assert((j + sep + w.last())[0] == j[0]);
    }
}

/// Every character of joined pieces comes from a piece or a separator.
proof fn lemma_join_chars(w: Seq<Seq<char>>, sep: Seq<char>, i: int)
    requires
        0 <= i < join(w, sep).len(),
    ensures
        (exists|k: int, j: int| 0 <= k < w.len() && 0 <= j < w[k].len() && join(w, sep)[i]
            == #[trigger] w[k][j]) || (exists|j: int| 0 <= j < sep.len() && join(w, sep)[i]
            == sep[j]),
    decreases w.len(),
{
    if w.len() == 1 {
        assert(join(w, sep)[i] == w[0][i]);
    } else if w.len() >= 2 {
        let prev = join(w.drop_last(), sep);
        if i < prev.len() {
            lemma_join_chars(w.drop_last(), sep, i);
            assert(join(w, sep)[i] == prev[i]);
            if exists|k: int, j: int|
                0 <= k < w.drop_last().len() && 0 <= j < w.drop_last()[k].len() && prev[i]
                    == #[trigger] w.drop_last()[k][j] {
                let (k, j) = choose|k: int, j: int|
                    0 <= k < w.drop_last().len() && 0 <= j < w.drop_last()[k].len() && prev[i]
                        == #[trigger] w.drop_last()[k][j];
                assert(w[k][j] == w.drop_last()[k][j]);
            }
        } else if i < prev.len() + sep.len() {
            assert(join(w, sep)[i] == sep[i - prev.len()]);
        } else {
            let j = i - prev.len() - sep.len();
            assert(join(w, sep)[i] == w.last()[j]);
            assert(w[w.len() - 1][j] == w.last()[j]);
        }
    }
}

/// Collapsed text is empty exactly when the text is blank.
pub proof fn law_collapsed_empty_iff_blank(s: Seq<char>)
    ensures
        collapsed(s).len() == 0 <==> is_blank(s),
{
    lemma_words_nonempty(s);
    if !is_blank(s) {
        let i = choose|i: int| 0 <= i < s.len() && !white_space(s[i]);
        lemma_words_exist(s, i);
        lemma_join_nonempty(words(s), seq![' ']);
    } else {
        assert(words(s).len() == 0) by {
            lemma_words_have_no_white_space(s);
            if words(s).len() > 0 {
                lemma_words_all_from(s);
                let c = words(s)[0][0];
                assert(!white_space(c));
            }
        }
    }
}

/// Every character of a word is a character of the text.
proof fn lemma_words_all_from(s: Seq<char>)
    ensures
        forall|k: int, j: int|
            0 <= k < words(s).len() && 0 <= j < words(s)[k].len() ==> s.contains(
                #[trigger] words(s)[k][j],
            ),
    decreases s.len(),
{
    if s.len() > 0 {
        let prev = s.drop_last();
        lemma_words_all_from(prev);
        let w = words(prev);
        let c = s.last();
        assert(s[s.len() - 1] == c);
        assert forall|x: char| prev.contains(x) implies s.contains(x) by {
            let i = choose|i: int| 0 <= i < prev.len() && prev[i] == x;
            assert(s[i] == x);
        }
        if !white_space(c) {
            if s.len() >= 2 && !white_space(s[s.len() - 2]) {
                assert(prev.last() == s[s.len() - 2]);
                lemma_words_after_word(prev);
                let w2 = w.update(w.len() - 1, w.last().push(c));
                assert forall|k: int, j: int|
                    0 <= k < w2.len() && 0 <= j < w2[k].len() implies s.contains(
                    #[trigger] w2[k][j],
                ) by {
                    if k == w.len() - 1 {
                        if j < w.last().len() {
                            assert(w2[k][j] == w[k][j]);
                        }
                    } else {
                        assert(w2[k] == w[k]);
                    }
                }
            } else {
                let w2 = w.push(seq![c]);
                assert forall|k: int, j: int|
                    0 <= k < w2.len() && 0 <= j < w2[k].len() implies s.contains(
                    #[trigger] w2[k][j],
                ) by {
                    if k < w.len() {
                        assert(w2[k] == w[k]);
                    }
                }
            }
        }
    }
}

/// Collapsed text neither starts nor ends with white space, and every
/// character in it is a single space or not white space at all.
pub proof fn law_collapsed_shape(s: Seq<char>)
    ensures
        collapsed(s).len() > 0 ==> !white_space(collapsed(s)[0]) && !white_space(
            collapsed(s).last(),
        ),
        forall|i: int|
            0 <= i < collapsed(s).len() ==> collapsed(s)[i] == ' ' || !white_space(
                #[trigger] collapsed(s)[i],
            ),
{
    lemma_words_nonempty(s);
    lemma_words_have_no_white_space(s);
    let w = words(s);
    if w.len() > 0 {
        lemma_join_ends(w, seq![' ']);
        assert(!white_space(w[0][0]));
        assert(!white_space(w[w.len() - 1][w.last().len() - 1]));
    }
    assert forall|i: int| 0 <= i < collapsed(s).len() implies collapsed(s)[i] == ' '
        || !white_space(#[trigger] collapsed(s)[i]) by {
        lemma_join_chars(w, seq![' '], i);
    }
}

/// A word written after white space (or at the start) is one more word.
proof fn lemma_words_append_word(t: Seq<char>, u: Seq<char>)
    requires
        t.len() == 0 || white_space(t.last()),
        u.len() > 0,
        forall|j: int| 0 <= j < u.len() ==> !white_space(#[trigger] u[j]),
    ensures
        words(t + u) == words(t).push(u),
    decreases u.len(),
{
    let tu = t + u;
    assert(tu.last() == u.last());
    if u.len() == 1 {
        assert(tu.drop_last() == t);
        if t.len() > 0 {
            assert(tu[tu.len() - 2] == t.last());
        }
        assert(u == seq![u[0]]);
    } else {
        let u1 = u.drop_last();
        lemma_words_append_word(t, u1);
        assert(tu.drop_last() == t + u1);
        assert(tu[tu.len() - 2] == u1.last());
        let w = words(t + u1);
        assert(w.last() == u1);
        assert(u1.push(u.last()) =~= u);
        assert(w.update(w.len() - 1, w.last().push(u.last())) =~= words(t).push(u));
    }
}

/// Splitting words that were joined by single spaces gives them back.
proof fn lemma_words_of_join(w: Seq<Seq<char>>)
    requires
        forall|k: int| 0 <= k < w.len() ==> (#[trigger] w[k]).len() > 0,
        forall|k: int, j: int| 0 <= k < w.len() && 0 <= j < w[k].len() ==> !white_space(
            #[trigger] w[k][j],
        ),
    ensures
        words(join(w, seq![' '])) == w,
    decreases w.len(),
{
    if w.len() == 0 {
    } else if w.len() == 1 {
        assert(seq![] + w[0] == w[0]);
        lemma_words_append_word(seq![], w[0]);
        assert(seq![].push(w[0]) =~= w);
    } else {
        let w1 = w.drop_last();
        lemma_words_of_join(w1);
        let j = join(w1, seq![' ']);
        let t = j + seq![' '];
        assert(t.drop_last() == j);
        assert(white_space(t.last()));
        assert(words(t) == words(j));
        assert forall|k: int| 0 <= k < w.last().len() implies !white_space(
            #[trigger] w.last()[k],
        ) by {
            assert(w.last()[k] == w[w.len() - 1][k]);
        }
        lemma_words_append_word(t, w.last());
        assert(w1.push(w.last()) =~= w);
    }
}

/// In text joined by single spaces every space is followed by a character
/// that is not white space.
proof fn lemma_join_spaces_single(w: Seq<Seq<char>>)
    requires
        forall|k: int| 0 <= k < w.len() ==> (#[trigger] w[k]).len() > 0,
        forall|k: int, j: int| 0 <= k < w.len() && 0 <= j < w[k].len() ==> !white_space(
            #[trigger] w[k][j],
        ),
    ensures
        forall|i: int|
            0 <= i < join(w, seq![' ']).len() && #[trigger] join(w, seq![' '])[i] == ' ' ==> i
                + 1 < join(w, seq![' ']).len() && !white_space(join(w, seq![' '])[i + 1]),
    decreases w.len(),
{
    if w.len() == 1 {
        assert forall|i: int| 0 <= i < join(w, seq![' ']).len() implies join(w, seq![' '])[i]
            != ' ' by {
            assert(join(w, seq![' '])[i] == w[0][i]);
        }
    } else if w.len() >= 2 {
        let w1 = w.drop_last();
        lemma_join_spaces_single(w1);
        lemma_join_ends(w1, seq![' ']);
        let j = join(w1, seq![' ']);
        let l = w.last();
        let all = join(w, seq![' ']);
        assert(all == j + seq![' '] + l);
        assert(l.len() > 0 && l == w[w.len() - 1]);
        assert(!white_space(j.last())) by {
            assert(j.last() == w1.last().last());
            assert(w1.last() == w[w.len() - 2]);
        }
        assert forall|i: int| 0 <= i < all.len() && #[trigger] all[i] == ' ' implies i + 1
            < all.len() && !white_space(all[i + 1]) by {
            if i < j.len() - 1 {
                assert(all[i] == j[i] && all[i + 1] == j[i + 1]);
            } else if i == j.len() - 1 {
                assert(all[i] == j.last());
            } else if i == j.len() {
                assert(all[i + 1] == l[0]);
            } else {
                assert(all[i] == l[i - j.len() - 1]);
            }
        }
    }
}

/// Collapsing white space keeps the words, leaves no two spaces side by
/// side, and changes nothing the second time.
pub proof fn law_collapse_keeps_words(s: Seq<char>)
    ensures
        words(collapsed(s)) == words(s),
        collapsed(collapsed(s)) == collapsed(s),
        forall|i: int|
            0 <= i < collapsed(s).len() - 1 ==> !(#[trigger] collapsed(s)[i] == ' ' && collapsed(
                s,
            )[i + 1] == ' '),
{
    lemma_words_nonempty(s);
    lemma_words_have_no_white_space(s);
    lemma_words_of_join(words(s));
    lemma_join_spaces_single(words(s));
}

/// A final line ending is optional: adding `'\n'` to a string that does not
/// end with a line ending (or a carriage return) leaves its lines unchanged.
pub proof fn law_final_newline_optional(s: Seq<char>)
    requires
        s.len() > 0,
        s.last() != '\n',
        s.last() != '\r',
    ensures
        text_lines(s.push('\n')) == text_lines(s),
{
    let t = s.push('\n');
    assert(t.drop_last() == s);
    let p = pieces(s, '\n');
    lemma_pieces_nonempty(s, '\n');
    assert(pieces(t, '\n') == p.push(seq![]));
    assert(p.push(seq![]).drop_last() == p);
    lemma_last_piece_nonempty(s);
    assert(p.last().last() == s.last());
    assert(strip_cr(p.last()) == p.last());
    assert(p.map_values(|l: Seq<char>| strip_cr(l)) =~= p.drop_last().map_values(
        |l: Seq<char>| strip_cr(l),
    ).push(p.last()));
}

/// When a string does not end with a newline, its last piece ends with its
/// last character.
proof fn lemma_last_piece_nonempty(s: Seq<char>)
    requires
        s.len() > 0,
        s.last() != '\n',
    ensures
        pieces(s, '\n').last().len() > 0,
        pieces(s, '\n').last().last() == s.last(),
{
    lemma_pieces_nonempty(s.drop_last(), '\n');
}

} // verus!
