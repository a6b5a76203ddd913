//! Character-sequence helpers shared by the parsers: conversions between
//! strings and character vectors, decimal number parsing as `str::parse`
//! performs it, trimming and searching.
use vstd::prelude::*;

verus! {

/// Whether `c` is an ASCII decimal digit.
pub open spec fn is_digit(c: char) -> bool {
    '0' <= c && c <= '9'
}

pub open spec fn digit_value(c: char) -> int {
    (c as int) - ('0' as int)
}

pub open spec fn all_digits(s: Seq<char>) -> bool {
    forall|i: int| 0 <= i < s.len() ==> is_digit(#[trigger] s[i])
}

/// The number written by the decimal digits `s`, most significant first.
pub open spec fn digits_value(s: Seq<char>) -> int
    decreases s.len(),
{
    if s.len() == 0 {
        0
    } else {
        digits_value(s.drop_last()) * 10 + digit_value(s.last())
    }
}

/// The digits that `str::parse` reads for an unsigned integer: an optional
/// leading `+` is dropped.
pub open spec fn unsigned_digits(s: Seq<char>) -> Seq<char> {
    if s.len() > 0 && s[0] == '+' {
        s.drop_first()
    } else {
        s
    }
}

/// What `str::parse` gives for an unsigned integer type whose largest value
/// is `max`: the value, or `None` for an empty, non-decimal or too large input.
pub open spec fn parse_unsigned(s: Seq<char>, max: int) -> Option<int> {
    let d = unsigned_digits(s);
    if d.len() == 0 || !all_digits(d) || digits_value(d) > max {
        None
    } else {
        Some(digits_value(d))
    }
}

/// What `str::parse::<char>` gives: the only character of a one-character string.
pub open spec fn parse_char(s: Seq<char>) -> Option<char> {
    if s.len() == 1 {
        Some(s[0])
    } else {
        None
    }
}

pub proof fn lemma_digits_value_nonneg(s: Seq<char>)
    requires
        all_digits(s),
    ensures
        digits_value(s) >= 0,
    decreases s.len(),
{
    if s.len() > 0 {
        lemma_digits_value_nonneg(s.drop_last());
    }
}

pub proof fn lemma_digits_value_grows(s: Seq<char>, i: int, j: int)
    requires
        all_digits(s),
        0 <= i <= j <= s.len(),
    ensures
        digits_value(s.take(i)) <= digits_value(s.take(j)),
    decreases j - i,
{
    if i < j {
        lemma_digits_value_grows(s, i, j - 1);
        assert(s.take(j).drop_last() =~= s.take(j - 1));
        lemma_digits_value_nonneg(s.take(j - 1));
        assert(is_digit(s[j - 1]));
    }
}

/// The characters of `s`.
pub fn str_to_chars(s: &str) -> (r: Vec<char>)
    ensures
        r@ == s@,
{
    let mut r: Vec<char> = Vec::new();
    for c in it: s.chars()
        invariant
            r@ == it.seq().take(it.index() as int),
            it.seq() == s@,
    {
        r.push(c);
    }
    r
}

/// The string made of the characters `v`.
#[verifier::external_body]
pub fn chars_to_string(v: &[char]) -> (r: String)
    ensures
        r@ == v@,
{
    v.iter().collect::<String>()
}

/// Whether two character sequences are equal.
pub fn chars_eq(a: &[char], b: &[char]) -> (r: bool)
    ensures
        r == (a@ == b@),
{
    if a.len() != b.len() {
        return false;
    }
    let mut i: usize = 0;
    while i < a.len()
        invariant
            a.len() == b.len(),
            i <= a.len(),
            forall|k: int| 0 <= k < i ==> a@[k] == b@[k],
        decreases a.len() - i,
    {
        if a[i] != b[i] {
            return false;
        }
        i += 1;
    }
    assert(a@ =~= b@);
    true
}

/// Parses an unsigned decimal number no larger than `max`, as `str::parse`
/// does for an unsigned type with that maximum.
pub fn parse_unsigned_chars(s: &[char], max: usize) -> (r: Option<usize>)
    ensures
        r matches Some(v) ==> parse_unsigned(s@, max as int) == Some(v as int),
        r is None ==> parse_unsigned(s@, max as int) is None,
{
    let start: usize = if s.len() > 0 && s[0] == '+' { 1 } else { 0 };
    let ghost d = unsigned_digits(s@);
    assert(d =~= s@.skip(start as int));
    if start == s.len() {
        return None;
    }
    let mut v: usize = 0;
    let mut i: usize = start;
    while i < s.len()
        invariant
            start <= i <= s.len(),
            start < s.len(),
            d == s@.skip(start as int),
            d == unsigned_digits(s@),
            all_digits(d.take(i - start)),
            v as int == digits_value(d.take(i - start)),
            v <= max,
        decreases s.len() - i,
    {
        let c = s[i];
        if !('0' <= c && c <= '9') {
            assert(!is_digit(d[i - start]));
            assert(!all_digits(d));
            return None;
        }
        let dv = (c as u32 - '0' as u32) as usize;
        assert(d.take(i - start + 1).drop_last() =~= d.take(i - start));
        assert(d.take(i - start + 1).last() == c);
        assert(all_digits(d.take(i - start + 1)));
        let wide: u128 = (v as u128) * 10 + (dv as u128);
        if wide > max as u128 {
            proof {
                // every further digit only makes the number larger
                let rest = d;
                if all_digits(rest) {
                    lemma_digits_value_grows(rest, i - start + 1, rest.len() as int);
                    assert(rest.take(rest.len() as int) =~= rest);
                    assert(digits_value(rest) >= wide);
                }
            }
            return None;
        }
        v = wide as usize;
        i += 1;
    }
    assert(d.take(s.len() - start) =~= d);
    Some(v)
}

} // verus!

verus! {

/// The pieces of `s` between the separators `sep`, as `str::split` yields them:
/// always at least one piece, empty pieces kept.
pub open spec fn split(s: Seq<char>, sep: char) -> Seq<Seq<char>>
    decreases s.len(),
{
    if s.len() == 0 {
        seq![Seq::<char>::empty()]
    } else {
        let rest = split(s.drop_last(), sep);
        if s.last() == sep {
            rest.push(Seq::<char>::empty())
        } else {
            rest.update(rest.len() - 1, rest.last().push(s.last()))
        }
    }
}

pub proof fn lemma_split_nonempty(s: Seq<char>, sep: char)
    ensures
        split(s, sep).len() >= 1,
    decreases s.len(),
{
    if s.len() > 0 {
        lemma_split_nonempty(s.drop_last(), sep);
    }
}

/// The character view of each string in a vector of character vectors.
pub open spec fn chars_of(v: Seq<Vec<char>>) -> Seq<Seq<char>> {
    v.map_values(|x: Vec<char>| x@)
}

/// Splits `s` at every `sep`, as `str::split` does.
pub fn split_chars(s: &[char], sep: char) -> (r: Vec<Vec<char>>)
    ensures
        chars_of(r@) == split(s@, sep),
{
    let mut parts: Vec<Vec<char>> = Vec::new();
    parts.push(Vec::new());
    let mut i: usize = 0;
    assert(s@.take(0) =~= Seq::<char>::empty());
    assert(chars_of(parts@) =~= split(s@.take(0), sep));
    while i < s.len()
        invariant
            i <= s.len(),
            parts@.len() >= 1,
            chars_of(parts@) == split(s@.take(i as int), sep),
        decreases s.len() - i,
    {
        let c = s[i];
        assert(s@.take(i + 1).drop_last() =~= s@.take(i as int));
        assert(s@.take(i + 1).last() == c);
        let ghost prev = chars_of(parts@);
        if c == sep {
            parts.push(Vec::new());
            assert(chars_of(parts@) =~= prev.push(Seq::<char>::empty()));
        } else {
            let last = parts.len() - 1;
            let mut piece = parts.remove(last);
            piece.push(c);
            parts.push(piece);
            assert(chars_of(parts@) =~= prev.update(prev.len() - 1, prev.last().push(c)));
        }
        i += 1;
    }
    assert(s@.take(s.len() as int) =~= s@);
    parts
}

/// Whether `c` has the Unicode White_Space property, as `char::is_whitespace` tests.
pub open spec fn is_whitespace(c: char) -> bool {
    ||| c == ' '
    ||| ('\t' <= c && c <= '\r')
    ||| c == '\u{85}'
    ||| c == '\u{a0}'
    ||| c == '\u{1680}'
    ||| ('\u{2000}' <= c && c <= '\u{200a}')
    ||| c == '\u{2028}'
    ||| c == '\u{2029}'
    ||| c == '\u{202f}'
    ||| c == '\u{205f}'
    ||| c == '\u{3000}'
}

pub fn char_is_whitespace(c: char) -> (r: bool)
    ensures
        r == is_whitespace(c),
{
    c == ' ' || ('\t' <= c && c <= '\r') || c == '\u{85}' || c == '\u{a0}' || c == '\u{1680}'
        || ('\u{2000}' <= c && c <= '\u{200a}') || c == '\u{2028}' || c == '\u{2029}'
        || c == '\u{202f}' || c == '\u{205f}' || c == '\u{3000}'
}

/// Number of leading characters of `s` satisfying whitespace.
pub open spec fn leading_ws(s: Seq<char>) -> nat
    decreases s.len(),
{
    if s.len() > 0 && is_whitespace(s[0]) {
        1 + leading_ws(s.drop_first())
    } else {
        0
    }
}

/// Number of trailing whitespace characters of `s`.
pub open spec fn trailing_ws(s: Seq<char>) -> nat
    decreases s.len(),
{
    if s.len() > 0 && is_whitespace(s.last()) {
        1 + trailing_ws(s.drop_last())
    } else {
        0
    }
}

/// `s` without leading and trailing whitespace, as `str::trim` gives it.
pub open spec fn trim(s: Seq<char>) -> Seq<char> {
    let t = s.skip(leading_ws(s) as int);
    t.take(t.len() - trailing_ws(t))
}

/// `s` without trailing whitespace, as `str::trim_end` gives it.
pub open spec fn trim_end(s: Seq<char>) -> Seq<char> {
    s.take(s.len() - trailing_ws(s))
}

pub proof fn lemma_leading_ws_bound(s: Seq<char>)
    ensures
        leading_ws(s) <= s.len(),
    decreases s.len(),
{
    if s.len() > 0 && is_whitespace(s[0]) {
        lemma_leading_ws_bound(s.drop_first());
    }
}

pub proof fn lemma_trailing_ws_bound(s: Seq<char>)
    ensures
        trailing_ws(s) <= s.len(),
    decreases s.len(),
{
    if s.len() > 0 && is_whitespace(s.last()) {
        lemma_trailing_ws_bound(s.drop_last());
    }
}

/// Counts the leading whitespace of `s` from position `i` on.
fn count_leading_ws(s: &[char], i: usize) -> (n: usize)
    requires
        i <= s.len(),
    ensures
        n == leading_ws(s@.skip(i as int)),
        i + n <= s.len(),
    decreases s.len() - i,
{
    proof { lemma_leading_ws_bound(s@.skip(i as int)); }
    if i < s.len() && char_is_whitespace(s[i]) {
        assert(s@.skip(i as int).drop_first() =~= s@.skip(i + 1));
        1 + count_leading_ws(s, i + 1)
    } else {
        0
    }
}

/// Counts the trailing whitespace of the first `end` characters of `s`.
fn count_trailing_ws(s: &[char], end: usize) -> (n: usize)
    requires
        end <= s.len(),
    ensures
        n == trailing_ws(s@.take(end as int)),
        n <= end,
    decreases end,
{
    proof { lemma_trailing_ws_bound(s@.take(end as int)); }
    if end > 0 && char_is_whitespace(s[end - 1]) {
        assert(s@.take(end as int).drop_last() =~= s@.take(end - 1));
        1 + count_trailing_ws(s, end - 1)
    } else {
        0
    }
}

/// The characters `s[from..to]`.
pub fn sub_chars(s: &[char], from: usize, to: usize) -> (r: Vec<char>)
    requires
        from <= to <= s.len(),
    ensures
        r@ == s@.subrange(from as int, to as int),
{
    let mut r: Vec<char> = Vec::new();
    let mut i = from;
    while i < to
        invariant
            from <= i <= to <= s.len(),
            r@ == s@.subrange(from as int, i as int),
        decreases to - i,
    {
        r.push(s[i]);
        i += 1;
        assert(r@ =~= s@.subrange(from as int, i as int));
    }
    r
}

/// `s` without leading and trailing whitespace.
pub fn trim_chars(s: &[char]) -> (r: Vec<char>)
    ensures
        r@ == trim(s@),
{
    let lead = count_leading_ws(s, 0);
    assert(s@.skip(0) =~= s@);
    let ghost t = s@.skip(lead as int);
    let t_vec = sub_chars(s, lead, s.len());
    assert(t_vec@ =~= t);
    let trail = count_trailing_ws(&t_vec, t_vec.len());
    assert(t_vec@.take(t_vec.len() as int) =~= t_vec@);
    sub_chars(&t_vec, 0, t_vec.len() - trail)
}

/// `s` without trailing whitespace.
pub fn trim_end_chars(s: &[char]) -> (r: Vec<char>)
    ensures
        r@ == trim_end(s@),
{
    let trail = count_trailing_ws(s, s.len());
    assert(s@.take(s.len() as int) =~= s@);
    sub_chars(s, 0, s.len() - trail)
}

/// Number of leading copies of `c` in `s`.
pub open spec fn leading_count(s: Seq<char>, c: char) -> nat
    decreases s.len(),
{
    if s.len() > 0 && s[0] == c {
        1 + leading_count(s.drop_first(), c)
    } else {
        0
    }
}

/// Number of trailing copies of `c` in `s`.
pub open spec fn trailing_count(s: Seq<char>, c: char) -> nat
    decreases s.len(),
{
    if s.len() > 0 && s.last() == c {
        1 + trailing_count(s.drop_last(), c)
    } else {
        0
    }
}

/// `s` with every leading `c` removed, as `str::trim_start_matches` does for a
/// one-character pattern.
pub open spec fn trim_start_matches(s: Seq<char>, c: char) -> Seq<char> {
    s.skip(leading_count(s, c) as int)
}

/// `s` with every trailing `c` removed, as `str::trim_end_matches` does for a
/// one-character pattern.
pub open spec fn trim_end_matches(s: Seq<char>, c: char) -> Seq<char> {
    s.take(s.len() - trailing_count(s, c))
}

pub proof fn lemma_leading_count_bound(s: Seq<char>, c: char)
    ensures
        leading_count(s, c) <= s.len(),
    decreases s.len(),
{
    if s.len() > 0 && s[0] == c {
        lemma_leading_count_bound(s.drop_first(), c);
    }
}

pub proof fn lemma_trailing_count_bound(s: Seq<char>, c: char)
    ensures
        trailing_count(s, c) <= s.len(),
    decreases s.len(),
{
    if s.len() > 0 && s.last() == c {
        lemma_trailing_count_bound(s.drop_last(), c);
    }
}

fn count_leading(s: &[char], i: usize, c: char) -> (n: usize)
    requires
        i <= s.len(),
    ensures
        n == leading_count(s@.skip(i as int), c),
        i + n <= s.len(),
    decreases s.len() - i,
{
    proof { lemma_leading_count_bound(s@.skip(i as int), c); }
    if i < s.len() && s[i] == c {
        assert(s@.skip(i as int).drop_first() =~= s@.skip(i + 1));
        1 + count_leading(s, i + 1, c)
    } else {
        0
    }
}

fn count_trailing(s: &[char], end: usize, c: char) -> (n: usize)
    requires
        end <= s.len(),
    ensures
        n == trailing_count(s@.take(end as int), c),
        n <= end,
    decreases end,
{
    proof { lemma_trailing_count_bound(s@.take(end as int), c); }
    if end > 0 && s[end - 1] == c {
        assert(s@.take(end as int).drop_last() =~= s@.take(end - 1));
        1 + count_trailing(s, end - 1, c)
    } else {
        0
    }
}

pub fn trim_start_matches_chars(s: &[char], c: char) -> (r: Vec<char>)
    ensures
        r@ == trim_start_matches(s@, c),
{
    let n = count_leading(s, 0, c);
    assert(s@.skip(0) =~= s@);
    sub_chars(s, n, s.len())
}

pub fn trim_end_matches_chars(s: &[char], c: char) -> (r: Vec<char>)
    ensures
        r@ == trim_end_matches(s@, c),
{
    let n = count_trailing(s, s.len(), c);
    assert(s@.take(s.len() as int) =~= s@);
    sub_chars(s, 0, s.len() - n)
}

/// Position of the last `c` in `s`, as `str::rfind` finds it (counted in characters).
pub open spec fn rfind(s: Seq<char>, c: char) -> Option<int>
    decreases s.len(),
{
    if s.len() == 0 {
        None
    } else if s.last() == c {
        Some(s.len() - 1)
    } else {
        rfind(s.drop_last(), c)
    }
}

pub proof fn lemma_rfind_props(s: Seq<char>, c: char)
    ensures
        rfind(s, c) matches Some(i) ==> 0 <= i < s.len() && s[i] == c
            && (forall|k: int| i < k < s.len() ==> s[k] != c),
        rfind(s, c) is None ==> (forall|k: int| 0 <= k < s.len() ==> s[k] != c),
    decreases s.len(),
{
    if s.len() > 0 && s.last() != c {
        lemma_rfind_props(s.drop_last(), c);
        assert forall|k: int| 0 <= k < s.len() - 1 implies s.drop_last()[k] == s[k] by {}
    }
}

pub fn rfind_chars(s: &[char], c: char) -> (r: Option<usize>)
    ensures
        r matches Some(i) ==> rfind(s@, c) == Some(i as int) && i < s@.len(),
        r is None ==> rfind(s@, c) is None,
{
    let mut i = s.len();
    assert(s@.take(s.len() as int) =~= s@);
    while i > 0
        invariant
            i <= s.len(),
            rfind(s@, c) == rfind(s@.take(i as int), c),
        decreases i,
    {
        assert(s@.take(i as int).drop_last() =~= s@.take(i - 1));
        if s[i - 1] == c {
            return Some(i - 1);
        }
        i -= 1;
    }
    None
}

/// Position of the first `c` in `s`, counted in characters.
pub open spec fn find(s: Seq<char>, c: char) -> Option<int>
    decreases s.len(),
{
    if s.len() == 0 {
        None
    } else if s[0] == c {
        Some(0)
    } else {
        match find(s.drop_first(), c) {
            Some(i) => Some(i + 1),
            None => None,
        }
    }
}

} // verus!

verus! {

/// The pieces of `s` between any of the separators in `seps`, as `str::split`
/// with a set of characters yields them.
pub open spec fn split_any(s: Seq<char>, seps: Seq<char>) -> Seq<Seq<char>>
    decreases s.len(),
{
    if s.len() == 0 {
        seq![Seq::<char>::empty()]
    } else {
        let rest = split_any(s.drop_last(), seps);
        if seps.contains(s.last()) {
            rest.push(Seq::<char>::empty())
        } else {
            rest.update(rest.len() - 1, rest.last().push(s.last()))
        }
    }
}

pub proof fn lemma_split_any_nonempty(s: Seq<char>, seps: Seq<char>)
    ensures
        split_any(s, seps).len() >= 1,
    decreases s.len(),
{
    if s.len() > 0 {
        lemma_split_any_nonempty(s.drop_last(), seps);
    }
}

fn contains_char(v: &[char], c: char) -> (r: bool)
    ensures
        r == v@.contains(c),
{
    let mut i: usize = 0;
    while i < v.len()
        invariant
            i <= v.len(),
            forall|k: int| 0 <= k < i ==> v@[k] != c,
        decreases v.len() - i,
    {
        if v[i] == c {
            assert(v@[i as int] == c);
            return true;
        }
        i += 1;
    }
    false
}

/// Splits `s` at every character that occurs in `seps`.
pub fn split_any_chars(s: &[char], seps: &[char]) -> (r: Vec<Vec<char>>)
    ensures
        chars_of(r@) == split_any(s@, seps@),
{
    let mut parts: Vec<Vec<char>> = Vec::new();
    parts.push(Vec::new());
    let mut i: usize = 0;
    assert(s@.take(0) =~= Seq::<char>::empty());
    assert(chars_of(parts@) =~= split_any(s@.take(0), seps@));
    while i < s.len()
        invariant
            i <= s.len(),
            parts@.len() >= 1,
            chars_of(parts@) == split_any(s@.take(i as int), seps@),
        decreases s.len() - i,
    {
        let c = s[i];
        assert(s@.take(i + 1).drop_last() =~= s@.take(i as int));
        assert(s@.take(i + 1).last() == c);
        let ghost prev = chars_of(parts@);
        if contains_char(seps, c) {
            parts.push(Vec::new());
            assert(chars_of(parts@) =~= prev.push(Seq::<char>::empty()));
        } else {
            let last = parts.len() - 1;
            let mut piece = parts.remove(last);
            piece.push(c);
            parts.push(piece);
            assert(chars_of(parts@) =~= prev.update(prev.len() - 1, prev.last().push(c)));
        }
        i += 1;
    }
    assert(s@.take(s.len() as int) =~= s@);
    parts
}

/// A line as `str::lines` yields it when a newline ended it: one trailing
/// carriage return is dropped.
pub open spec fn strip_cr(l: Seq<char>) -> Seq<char> {
    if l.len() > 0 && l.last() == '\r' {
        l.drop_last()
    } else {
        l
    }
}

/// The lines of `s` as `str::lines` yields them: split at `\n`, a `\r` before
/// the `\n` dropped, and no empty last line after a final newline.
pub open spec fn lines(s: Seq<char>) -> Seq<Seq<char>> {
    let p = split(s, '\n');
    let ended = p.drop_last().map_values(|l: Seq<char>| strip_cr(l));
    if p.last().len() == 0 {
        ended
    } else {
        ended.push(p.last())
    }
}

/// The lines of `s`, as `str::lines` yields them.
pub fn lines_chars(s: &[char]) -> (r: Vec<Vec<char>>)
    ensures
        chars_of(r@) == lines(s@),
{
    let parts = split_chars(s, '\n');
    proof { lemma_split_nonempty(s@, '\n'); }
    let ghost p = split(s@, '\n');
    let n = parts.len();
    let mut r: Vec<Vec<char>> = Vec::new();
    let mut i: usize = 0;
    while i + 1 < n
        invariant
            n == parts@.len(),
            n >= 1,
            chars_of(parts@) == p,
            i + 1 <= n,
            chars_of(r@) == p.take(i as int).map_values(|l: Seq<char>| strip_cr(l)),
        decreases n - i,
    {
        let part = &parts[i];
        assert(part@ == p[i as int]);
        let k = part.len();
        let line = if k > 0 && part[k - 1] == '\r' {
            sub_chars(part, 0, k - 1)
        } else {
            sub_chars(part, 0, k)
        };
        assert(line@ == strip_cr(p[i as int]));
        let ghost prev = chars_of(r@);
        r.push(line);
        assert(chars_of(r@) =~= prev.push(strip_cr(p[i as int])));
        assert(p.take(i + 1).map_values(|l: Seq<char>| strip_cr(l)) =~= p.take(
            i as int,
        ).map_values(|l: Seq<char>| strip_cr(l)).push(strip_cr(p[i as int])));
        i += 1;
    }
    assert(p.take(i as int) =~= p.drop_last());
    let last = &parts[n - 1];
    assert(last@ == p.last());
    if last.len() > 0 {
        let ghost prev = chars_of(r@);
        let copy = sub_chars(last, 0, last.len());
        assert(copy@ =~= p.last());
        r.push(copy);
        assert(chars_of(r@) =~= prev.push(p.last()));
    }
    r
}

/// Whether the characters `s` spell the text `w`.
pub fn is_word(s: &[char], w: &str) -> (r: bool)
    ensures
        r == (s@ == w@),
{
    let wc = str_to_chars(w);
    chars_eq(s, &wc)
}


/// The lines `ls`, each ended by a newline.
pub open spec fn joined_lines(ls: Seq<Seq<char>>) -> Seq<char>
    decreases ls.len(),
{
    if ls.len() == 0 {
        Seq::empty()
    } else {
        joined_lines(ls.drop_last()) + ls.last() + seq!['\n']
    }
}

/// Whether `l` can stand as a line: no newline in it, no carriage return
/// at its end.
pub open spec fn plain_line(l: Seq<char>) -> bool {
    &&& !l.contains('\n')
    &&& !(l.len() > 0 && l.last() == '\r')
}

proof fn lemma_split_append_plain(s: Seq<char>, x: Seq<char>, sep: char)
    requires
        !x.contains(sep),
    ensures
        split(s + x, sep).len() == split(s, sep).len(),
        split(s + x, sep) == split(s, sep).update(
            split(s, sep).len() - 1,
            split(s, sep).last() + x,
        ),
    decreases x.len(),
{
    lemma_split_nonempty(s, sep);
    if x.len() == 0 {
        assert(s + x =~= s);
        assert(split(s, sep).last() + x =~= split(s, sep).last());
        assert(split(s, sep).update(split(s, sep).len() - 1, split(s, sep).last())
            =~= split(s, sep));
    } else {
        let y = x.drop_last();
        assert(!y.contains(sep)) by {
            if y.contains(sep) {
                let k = choose|k: int| 0 <= k < y.len() && y[k] == sep;
                assert(x[k] == sep);
            }
        }
        assert(x.last() != sep) by {
            assert(x[x.len() - 1] == x.last());
        }
        lemma_split_append_plain(s, y, sep);
        assert((s + x).drop_last() =~= s + y);
        assert((s + x).last() == x.last());
        let r = split(s + y, sep);
        assert(r.last() == split(s, sep).last() + y);
        assert(r.last().push(x.last()) =~= split(s, sep).last() + x);
        assert(split(s + x, sep) =~= split(s, sep).update(
            split(s, sep).len() - 1,
            split(s, sep).last() + x,
        ));
    }
}

/// Splitting the newline-ended lines `ls` at newlines gives the lines and an
/// empty piece after the last newline.
pub proof fn lemma_split_joined(ls: Seq<Seq<char>>)
    requires
        forall|i: int| 0 <= i < ls.len() ==> !(#[trigger] ls[i]).contains('\n'),
    ensures
        split(joined_lines(ls), '\n') == ls.push(Seq::<char>::empty()),
    decreases ls.len(),
{
    if ls.len() == 0 {
        assert(split(joined_lines(ls), '\n') =~= ls.push(Seq::<char>::empty()));
    } else {
        let init = ls.drop_last();
        assert forall|i: int| 0 <= i < init.len() implies !(#[trigger] init[i]).contains('\n') by {
            assert(init[i] == ls[i]);
        }
        lemma_split_joined(init);
        let a = joined_lines(init);
        let l = ls.last();
        assert(!l.contains('\n')) by {
            assert(ls[ls.len() - 1] == l);
        }
        lemma_split_append_plain(a, l, '\n');
        let t = a + l + seq!['\n'];
        assert(t.drop_last() =~= a + l);
        assert(t.last() == '\n');
        assert(joined_lines(ls) == t);
        assert(split(a, '\n').update(split(a, '\n').len() - 1, split(a, '\n').last() + l)
            =~= init.push(l));
        assert(init.push(l) =~= ls);
    }
}

/// What the newline-ended lines `ls` are read back as: the same lines, where
/// each is a plain line.
pub proof fn lemma_lines_of_joined(ls: Seq<Seq<char>>)
    requires
        forall|i: int| 0 <= i < ls.len() ==> plain_line(#[trigger] ls[i]),
    ensures
        lines(joined_lines(ls)) == ls,
{
    assert forall|i: int| 0 <= i < ls.len() implies !(#[trigger] ls[i]).contains('\n') by {
        assert(plain_line(ls[i]));
    }
    lemma_split_joined(ls);
    let p = split(joined_lines(ls), '\n');
    assert(p.drop_last() =~= ls);
    assert(p.last().len() == 0);
    assert(ls.map_values(|l: Seq<char>| strip_cr(l)) =~= ls) by {
        assert forall|i: int| 0 <= i < ls.len() implies strip_cr(ls[i]) == ls[i] by {
            assert(plain_line(ls[i]));
        }
    }
}

} // verus!
