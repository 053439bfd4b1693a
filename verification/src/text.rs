//! Character-level text operations with exact specifications.
//!
//! Strings are viewed as `Seq<char>`. The executable functions work on
//! `Vec<char>`, which gives constant-time indexing, and each is proved equal
//! to a specification function over sequences.

use vstd::prelude::*;

verus! {

/// Whether `c` has the Unicode property `White_Space`: the controls from
/// tab to carriage return, the space, the next-line control, the no-break
/// space, the Ogham space mark, the spaces of fixed width from U+2000 to
/// U+200A, the line and the paragraph separator, the narrow no-break space,
/// the medium mathematical space and the ideographic space.
pub open spec fn is_whitespace(c: char) -> bool {
    ||| '\u{9}' <= c <= '\u{d}'
    ||| c == ' '
    ||| c == '\u{85}'
    ||| c == '\u{a0}'
    ||| c == '\u{1680}'
    ||| '\u{2000}' <= c <= '\u{200a}'
    ||| c == '\u{2028}'
    ||| c == '\u{2029}'
    ||| c == '\u{202f}'
    ||| c == '\u{205f}'
    ||| c == '\u{3000}'
}

/// Calls `char::is_whitespace`. Trusted: the result is whether `c` has the
/// Unicode property `White_Space`, as the list above gives it.
#[verifier::external_body]
pub(crate) fn char_is_whitespace(c: char) -> (b: bool)
    ensures
        b == is_whitespace(c),
{
    c.is_whitespace()
}

/// `pat` occurs in `s` starting at index `i`.
pub open spec fn occurs_at(s: Seq<char>, pat: Seq<char>, i: int) -> bool {
    &&& 0 <= i
    &&& i + pat.len() <= s.len()
    &&& s.subrange(i, i + pat.len()) == pat
}

/// `s` begins with `pat`.
pub open spec fn starts_with(s: Seq<char>, pat: Seq<char>) -> bool {
    occurs_at(s, pat, 0)
}

/// `pat` occurs somewhere in `s`.
pub open spec fn contains(s: Seq<char>, pat: Seq<char>) -> bool {
    exists|i: int| occurs_at(s, pat, i)
}

/// `s` without its leading whitespace.
pub open spec fn trim_start(s: Seq<char>) -> Seq<char>
    decreases s.len(),
{
    if s.len() > 0 && is_whitespace(s[0]) {
        trim_start(s.skip(1))
    } else {
        s
    }
}

/// `s` without its trailing whitespace.
pub open spec fn trim_end(s: Seq<char>) -> Seq<char>
    decreases s.len(),
{
    if s.len() > 0 && is_whitespace(s.last()) {
        trim_end(s.drop_last())
    } else {
        s
    }
}

/// `s` without leading and trailing whitespace.
pub open spec fn trim(s: Seq<char>) -> Seq<char> {
    trim_end(trim_start(s))
}

/// The pieces of `s` between occurrences of `sep`, in order. There is always
/// at least one piece; `n` separators give `n + 1` pieces, some possibly empty.
pub open spec fn split(s: Seq<char>, sep: char) -> Seq<Seq<char>>
    decreases s.len(),
{
    if s.len() == 0 {
        seq![Seq::<char>::empty()]
    } else {
        let before = split(s.drop_last(), sep);
        if s.last() == sep {
            before.push(Seq::<char>::empty())
        } else {
            before.update(before.len() - 1, before.last().push(s.last()))
        }
    }
}

/// `c` is one of the ASCII digits `0` to `9`.
pub open spec fn is_digit(c: char) -> bool {
    '0' <= c && c <= '9'
}

/// Every character of `s` is an ASCII digit.
pub open spec fn all_digits(s: Seq<char>) -> bool {
    forall|i: int| 0 <= i < s.len() ==> is_digit(#[trigger] s[i])
}

/// The number that the digit `c` stands for.
pub open spec fn digit_value(c: char) -> nat {
    (c as nat - '0' as nat) as nat
}

/// The number that the decimal digits `digits` write.
pub open spec fn decimal_value(digits: Seq<char>) -> nat
    decreases digits.len(),
{
    if digits.len() == 0 {
        0
    } else {
        decimal_value(digits.drop_last()) * 10 + digit_value(digits.last())
    }
}

/// The number that `text` writes: one or more decimal digits, with or
/// without a `+` before them. `None` if `text` is not of this form.
pub open spec fn written_number(text: Seq<char>) -> Option<nat> {
    let digits = if text.len() > 0 && text[0] == '+' {
        text.skip(1)
    } else {
        text
    };
    if digits.len() > 0 && all_digits(digits) {
        Some(decimal_value(digits))
    } else {
        None
    }
}

/// The text of an optional string.
pub open spec fn text_of(s: Option<String>) -> Option<Seq<char>> {
    match s {
        Some(t) => Some(t@),
        None => None,
    }
}

/// The texts of a sequence of strings.
pub open spec fn texts(strings: Seq<String>) -> Seq<Seq<char>> {
    Seq::new(strings.len(), |i: int| strings[i]@)
}

/// The texts of `pieces`, one after the other with `sep` between each two.
pub open spec fn joined(pieces: Seq<Seq<char>>, sep: Seq<char>) -> Seq<char>
    decreases pieces.len(),
{
    if pieces.len() == 0 {
        Seq::empty()
    } else if pieces.len() == 1 {
        pieces[0]
    } else {
        joined(pieces.drop_last(), sep) + sep + pieces.last()
    }
}

/// The views of a vector of character vectors.
pub open spec fn views(pieces: Seq<Vec<char>>) -> Seq<Seq<char>> {
    Seq::new(pieces.len(), |i: int| pieces[i]@)
}

/// A split always has at least one piece.
pub proof fn lemma_split_nonempty(s: Seq<char>, sep: char)
    ensures
        split(s, sep).len() >= 1,
    decreases s.len(),
{
    if s.len() > 0 {
        lemma_split_nonempty(s.drop_last(), sep);
    }
}

/// The characters of a string, in order.
pub fn chars_of(s: &str) -> (v: Vec<char>)
    ensures
        v@ == s@,
{
    let mut v: Vec<char> = Vec::new();
    for c in it: s.chars()
        invariant
            v@ == it.seq().take(it.index() as int),
            it.seq() == s@,
    {
        v.push(c);
    }
    v
}

/// The characters of `s` from index `from` up to, not including, `to`.
pub fn copy_range(s: &Vec<char>, from: usize, to: usize) -> (v: Vec<char>)
    requires
        from <= to <= s.len(),
    ensures
        v@ == s@.subrange(from as int, to as int),
{
    let mut v: Vec<char> = Vec::new();
    let mut i: usize = from;
    while i < to
        invariant
            from <= i <= to <= s.len(),
            v@ == s@.subrange(from as int, i as int),
        decreases to - i,
    {
        v.push(s[i]);
        i += 1;
    }
    v
}

/// Whether two character vectors hold the same text.
pub fn same_chars(a: &Vec<char>, b: &Vec<char>) -> (r: bool)
    ensures
        r == (a@ == b@),
{
    if a.len() != b.len() {
        return false;
    }
    let mut i: usize = 0;
    while i < a.len()
        invariant
            a.len() == b.len(),
            i <= a.len(),
            forall|j: int| 0 <= j < i ==> a[j] == b[j],
        decreases a.len() - i,
    {
        if a[i] != b[i] {
            return false;
        }
        i += 1;
    }
    assert(a@ =~= b@);
    true
}

/// Whether `pat` occurs in `s` at index `i`.
pub fn has_at(s: &Vec<char>, pat: &Vec<char>, i: usize) -> (r: bool)
    ensures
        r == occurs_at(s@, pat@, i as int),
{
    if pat.len() > s.len() || i > s.len() - pat.len() {
        return false;
    }
    let mut k: usize = 0;
    while k < pat.len()
        invariant
            i + pat.len() <= s.len(),
            k <= pat.len(),
            forall|j: int| 0 <= j < k ==> s[i + j] == pat[j],
        decreases pat.len() - k,
    {
        if s[i + k] != pat[k] {
            assert(s@.subrange(i as int, i + pat.len())[k as int] != pat@[k as int]);
            return false;
        }
        k += 1;
    }
    assert(s@.subrange(i as int, i + pat.len()) =~= pat@);
    true
}

/// Whether `s` begins with `pat`.
pub fn has_prefix(s: &Vec<char>, pat: &Vec<char>) -> (r: bool)
    ensures
        r == starts_with(s@, pat@),
{
    has_at(s, pat, 0)
}

/// Whether `pat` occurs somewhere in `s`.
pub fn has_substring(s: &Vec<char>, pat: &Vec<char>) -> (r: bool)
    ensures
        r == contains(s@, pat@),
{
    let mut i: usize = 0;
    while i < s.len()
        invariant
            i <= s.len(),
            forall|j: int| 0 <= j < i ==> !occurs_at(s@, pat@, j),
        decreases s.len() - i,
    {
        if has_at(s, pat, i) {
            return true;
        }
        i += 1;
    }
    has_at(s, pat, i)
}

/// The bounds of `s` without leading and trailing whitespace.
pub fn trim_bounds(s: &Vec<char>) -> (r: (usize, usize))
    ensures
        r.0 <= r.1 <= s.len(),
        s@.subrange(r.0 as int, r.1 as int) == trim(s@),
{
    let mut i: usize = 0;
    assert(s@.skip(0) =~= s@);
    while i < s.len() && char_is_whitespace(s[i])
        invariant
            i <= s.len(),
            trim_start(s@) == trim_start(s@.skip(i as int)),
        decreases s.len() - i,
    {
        assert(s@.skip(i as int).skip(1) =~= s@.skip(i + 1));
        i += 1;
    }
    assert(trim_start(s@) == s@.skip(i as int));
    let mut j: usize = s.len();
    assert(s@.skip(i as int) =~= s@.subrange(i as int, j as int));
    while j > i && char_is_whitespace(s[j - 1])
        invariant
            i <= j <= s.len(),
            trim(s@) == trim_end(s@.subrange(i as int, j as int)),
        decreases j - i,
    {
        assert(s@.subrange(i as int, j as int).drop_last() =~= s@.subrange(i as int, j - 1));
        j -= 1;
    }
    (i, j)
}

/// The pieces of `s` between occurrences of `sep`.
pub fn split_chars(s: &Vec<char>, sep: char) -> (pieces: Vec<Vec<char>>)
    ensures
        views(pieces@) == split(s@, sep),
{
    let mut pieces: Vec<Vec<char>> = Vec::new();
    let mut current: Vec<char> = Vec::new();
    let mut i: usize = 0;
    assert(s@.take(0) =~= Seq::<char>::empty());
    assert(views(pieces@).push(current@) =~= split(s@.take(0), sep));
    while i < s.len()
        invariant
            i <= s.len(),
            views(pieces@).push(current@) == split(s@.take(i as int), sep),
        decreases s.len() - i,
    {
        let ghost before = views(pieces@).push(current@);
        assert(s@.take(i + 1).drop_last() =~= s@.take(i as int));
        assert(s@.take(i + 1).last() == s@[i as int]);
        if s[i] == sep {
            pieces.push(current);
            current = Vec::new();
            assert(views(pieces@).push(current@) =~= before.push(Seq::<char>::empty()));
        } else {
            current.push(s[i]);
            assert(views(pieces@).push(current@) =~= before.update(
                before.len() - 1,
                before.last().push(s@[i as int]),
            ));
        }
        i += 1;
    }
    assert(s@.take(i as int) =~= s@);
    pieces.push(current);
    assert(views(pieces@) =~= split(s@, sep));
    pieces
}

/// Whether every character of `s` from index `from` on is an ASCII digit.
pub fn digits_from(s: &Vec<char>, from: usize) -> (r: bool)
    requires
        from <= s.len(),
    ensures
        r == all_digits(s@.skip(from as int)),
{
    let mut i: usize = from;
    while i < s.len()
        invariant
            from <= i <= s.len(),
            forall|j: int| from <= j < i ==> is_digit(#[trigger] s[j]),
        decreases s.len() - i,
    {
        if !(s[i] >= '0' && s[i] <= '9') {
            assert(s@.skip(from as int)[i - from] == s[i as int]);
            return false;
        }
        i += 1;
    }
    assert forall|j: int| 0 <= j < s@.skip(from as int).len() implies is_digit(
        #[trigger] s@.skip(from as int)[j],
    ) by {
        assert(s@.skip(from as int)[j] == s[from + j]);
    }
    true
}

/// The texts of `pieces`, one after the other with `sep` between each two.
pub fn join(pieces: &Vec<String>, sep: &str) -> (r: String)
    ensures
        r@ == joined(texts(pieces@), sep@),
{
    let ghost all = texts(pieces@);
    let mut out = String::new();
    let mut i: usize = 0;
    assert(all.take(0) =~= Seq::<Seq<char>>::empty());
    while i < pieces.len()
        invariant
            i <= pieces.len(),
            all == texts(pieces@),
            out@ == joined(all.take(i as int), sep@),
        decreases pieces.len() - i,
    {
        proof {
            assert(all.take(i + 1).drop_last() =~= all.take(i as int));
            assert(all.take(i + 1).last() == pieces[i as int]@);
            if i == 0 {
                assert(all.take(1)[0] == pieces[0]@);
                assert(Seq::<char>::empty() + pieces[0]@ =~= pieces[0]@);
            }
        }
        if i > 0 {
            out.append(sep);
        }
        out.append(pieces[i].as_str());
        i += 1;
    }
    assert(all.take(i as int) =~= all);
    out
}

/// `text` without the whitespace around it.
pub fn trimmed(text: &str) -> (r: String)
    ensures
        r@ == trim(text@),
{
    let chars = chars_of(text);
    let (start, end) = trim_bounds(&chars);
    String::from_str(text.substring_char(start, end))
}

/// More digits write no smaller a number.
pub proof fn lemma_decimal_value_grows(digits: Seq<char>, n: int)
    requires
        0 <= n <= digits.len(),
    ensures
        decimal_value(digits.take(n)) <= decimal_value(digits),
    decreases digits.len() - n,
{
    if n < digits.len() {
        lemma_decimal_value_grows(digits, n + 1);
        assert(digits.take(n + 1).drop_last() =~= digits.take(n));
    } else {
        assert(digits.take(n) =~= digits);
    }
}

/// The number that `text` writes, if it writes one that a `usize` holds.
pub fn parse_usize(text: &str) -> (r: Option<usize>)
    ensures
        match written_number(text@) {
            Some(value) => if value <= usize::MAX {
                r == Some(value as usize)
            } else {
                r is None
            },
            None => r is None,
        },
{
    let chars = chars_of(text);
    let from: usize = if chars.len() > 0 && chars[0] == '+' {
        1
    } else {
        0
    };
    assert(chars@.skip(0) =~= chars@);
    if from == chars.len() || !digits_from(&chars, from) {
        return None;
    }
    let ghost digits = chars@.skip(from as int);
    let mut value: usize = 0;
    let mut i: usize = from;
    assert(digits.take(0) =~= Seq::<char>::empty());
    while i < chars.len()
        invariant
            from <= i <= chars.len(),
            chars@ == text@,
            from == if chars.len() > 0 && chars[0] == '+' {
                1usize
            } else {
                0usize
            },
            from < chars.len(),
            digits == chars@.skip(from as int),
            all_digits(digits),
            value == decimal_value(digits.take(i - from)),
        decreases chars.len() - i,
    {
        let ghost next = digits.take(i - from + 1);
        proof {
            assert(next.drop_last() =~= digits.take(i - from));
            assert(next.last() == chars[i as int]);
            assert(is_digit(digits[i - from]));
            lemma_decimal_value_grows(digits, i - from + 1);
            assert(decimal_value(next) == value * 10 + digit_value(chars[i as int]));
            assert(chars@.skip(0) =~= chars@);
            assert(written_number(text@) == Some(decimal_value(digits)));
        }
        let digit = (chars[i] as u32 - '0' as u32) as usize;
        assert(digit == digit_value(chars[i as int]));
        value = match value.checked_mul(10) {
            Some(tens) => match tens.checked_add(digit) {
                Some(sum) => sum,
                None => {
                    return None;
                },
            },
            None => {
                return None;
            },
        };
        i += 1;
    }
    assert(digits.take(i - from) =~= digits);
    assert(chars@.skip(0) =~= chars@);
    Some(value)
}

/// Whether two strings hold the same text.
pub fn same_text(a: &str, b: &str) -> (r: bool)
    ensures
        r == (a@ == b@),
{
    same_chars(&chars_of(a), &chars_of(b))
}

/// Whether `pat` occurs somewhere in `text`.
pub fn text_contains(text: &str, pat: &str) -> (r: bool)
    ensures
        r == contains(text@, pat@),
{
    has_substring(&chars_of(text), &chars_of(pat))
}

/// `seen` followed by those of `more` that are neither in `seen` nor
/// earlier in `more`, in order.
pub open spec fn extended(seen: Seq<Seq<char>>, more: Seq<Seq<char>>) -> Seq<Seq<char>>
    decreases more.len(),
{
    if more.len() == 0 {
        seen
    } else {
        let earlier = extended(seen, more.drop_last());
        if earlier.contains(more.last()) {
            earlier
        } else {
            earlier.push(more.last())
        }
    }
}

/// Extending by two sequences, one after the other, is extending by both
/// at once.
pub proof fn lemma_extended_twice(seen: Seq<Seq<char>>, a: Seq<Seq<char>>, b: Seq<Seq<char>>)
    ensures
        extended(extended(seen, a), b) == extended(seen, a + b),
    decreases b.len(),
{
    if b.len() == 0 {
        assert(a + b =~= a);
    } else {
        lemma_extended_twice(seen, a, b.drop_last());
        assert((a + b).drop_last() =~= a + b.drop_last());
        assert((a + b).last() == b.last());
    }
}

/// Extending adds no path twice.
pub proof fn lemma_extended_distinct(seen: Seq<Seq<char>>, more: Seq<Seq<char>>)
    requires
        seen.no_duplicates(),
    ensures
        extended(seen, more).no_duplicates(),
    decreases more.len(),
{
    if more.len() > 0 {
        lemma_extended_distinct(seen, more.drop_last());
    }
}

/// What extending leaves is what was there and what was added.
pub proof fn lemma_extended_holds(seen: Seq<Seq<char>>, more: Seq<Seq<char>>, path: Seq<char>)
    ensures
        extended(seen, more).contains(path) <==> seen.contains(path) || more.contains(path),
    decreases more.len(),
{
    if more.len() > 0 {
        let earlier = extended(seen, more.drop_last());
        lemma_extended_holds(seen, more.drop_last(), path);
        if more.contains(path) {
            let i = choose|i: int| 0 <= i < more.len() && more[i] == path;
            if i < more.len() - 1 {
                assert(more.drop_last()[i] == path);
            }
        }
        if more.drop_last().contains(path) {
            let i = choose|i: int| 0 <= i < more.drop_last().len() && more.drop_last()[i] == path;
            assert(more[i] == path);
        }
        if !earlier.contains(more.last()) {
            assert(earlier.push(more.last()).last() == more.last());
            if earlier.contains(path) {
                let i = choose|i: int| 0 <= i < earlier.len() && earlier[i] == path;
                assert(earlier.push(more.last())[i] == path);
            }
        }
        assert(more[more.len() - 1] == more.last());
    }
}

/// `texts` without every text that occurred earlier in `texts`.
pub open spec fn each_once(texts: Seq<Seq<char>>) -> Seq<Seq<char>> {
    extended(Seq::empty(), texts)
}

} // verus!
