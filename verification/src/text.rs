//! Text helpers shared by the interactive exercises: whitespace, trimming,
//! comparing and reading an unsigned decimal number.

use vstd::prelude::*;

verus! {

/// Whether `c` is white space: the code points that Unicode gives the
/// `White_Space` property.
pub open spec fn spec_is_whitespace(c: char) -> bool {
    let n = c as u32;
    ||| 0x09 <= n <= 0x0D
    ||| n == 0x20
    ||| n == 0x85
    ||| n == 0xA0
    ||| n == 0x1680
    ||| 0x2000 <= n <= 0x200A
    ||| n == 0x2028
    ||| n == 0x2029
    ||| n == 0x202F
    ||| n == 0x205F
    ||| n == 0x3000
}

/// Tells whether `c` is white space.
#[verifier::when_used_as_spec(spec_is_whitespace)]
pub fn is_whitespace(c: char) -> (b: bool)
    ensures
        b == spec_is_whitespace(c),
{
    let n: u32 = c as u32;
    (0x09 <= n && n <= 0x0D) || n == 0x20 || n == 0x85 || n == 0xA0 || n == 0x1680 || (0x2000 <= n
        && n <= 0x200A) || n == 0x2028 || n == 0x2029 || n == 0x202F || n == 0x205F || n == 0x3000
}

/// The characters of `s`, in order.
pub fn chars_of(s: &str) -> (chars: Vec<char>)
    ensures
        chars@ == s@,
{
    let mut chars: Vec<char> = Vec::new();
    for c in it: s.chars()
        invariant
            it.seq() == s@,
            chars@ == s@.take(it.index()),
    {
        chars.push(c);
    }
    chars
}

/// `s` without the white space it starts with.
pub open spec fn skip_leading(s: Seq<char>) -> Seq<char>
    decreases s.len(),
{
    if s.len() > 0 && spec_is_whitespace(s.first()) {
        skip_leading(s.drop_first())
    } else {
        s
    }
}

/// `s` without the white space it ends with.
pub open spec fn skip_trailing(s: Seq<char>) -> Seq<char>
    decreases s.len(),
{
    if s.len() > 0 && spec_is_whitespace(s.last()) {
        skip_trailing(s.drop_last())
    } else {
        s
    }
}

/// `s` with leading and trailing white space removed.
pub open spec fn trimmed(s: Seq<char>) -> Seq<char> {
    skip_trailing(skip_leading(s))
}

/// Whether `s` holds white space only.
pub open spec fn all_whitespace(s: Seq<char>) -> bool {
    forall|i: int| 0 <= i < s.len() ==> spec_is_whitespace(#[trigger] s[i])
}

/// White space in front of a text is skipped, however much there is.
pub proof fn lemma_skip_leading_padding(padding: Seq<char>, rest: Seq<char>)
    requires
        all_whitespace(padding),
    ensures
        skip_leading(padding + rest) == skip_leading(rest),
    decreases padding.len(),
{
    if padding.len() == 0 {
        assert(padding + rest == rest);
    } else {
        assert((padding + rest).first() == padding[0]);
        assert((padding + rest).drop_first() == padding.drop_first() + rest);
        lemma_skip_leading_padding(padding.drop_first(), rest);
    }
}

/// White space behind a text is skipped, however much there is.
pub proof fn lemma_skip_trailing_padding(rest: Seq<char>, padding: Seq<char>)
    requires
        all_whitespace(padding),
    ensures
        skip_trailing(rest + padding) == skip_trailing(rest),
    decreases padding.len(),
{
    if padding.len() == 0 {
        assert(rest + padding == rest);
    } else {
        assert((rest + padding).last() == padding.last());
        assert((rest + padding).drop_last() == rest + padding.drop_last());
        lemma_skip_trailing_padding(rest, padding.drop_last());
    }
}

/// Trimming takes away the white space around a text and leaves the text: a
/// `core` that neither starts nor ends with white space comes back as it is,
/// whatever white space stands `before` and `after` it.
pub proof fn lemma_trimmed_surrounded(before: Seq<char>, core: Seq<char>, after: Seq<char>)
    requires
        all_whitespace(before),
        all_whitespace(after),
        core.len() > 0 ==> !spec_is_whitespace(core.first()) && !spec_is_whitespace(core.last()),
    ensures
        trimmed(before + core + after) == core,
{
    assert(before + core + after == before + (core + after));
    lemma_skip_leading_padding(before, core + after);
    if core.len() == 0 {
        assert(core + after == after + core);
        lemma_skip_leading_padding(after, core);
    } else {
        assert((core + after).first() == core.first());
        lemma_skip_trailing_padding(core, after);
    }
}

/// What trimming leaves is a stretch of the text that neither starts nor ends
/// with white space, and what it takes away on either side is white space
/// only.
pub proof fn lemma_trimmed_shape(s: Seq<char>)
    ensures
        exists|from: int, to: int|
            0 <= from <= to <= s.len() && trimmed(s) == #[trigger] s.subrange(from, to)
                && all_whitespace(s.take(from)) && all_whitespace(s.skip(to)),
        trimmed(s).len() > 0 ==> !spec_is_whitespace(trimmed(s).first()) && !spec_is_whitespace(
            trimmed(s).last(),
        ),
{
    lemma_skip_leading_shape(s);
    let body = skip_leading(s);
    let from = s.len() - body.len();
    lemma_skip_trailing_shape(body);
    let kept = skip_trailing(body).len() as int;
    let to = from + kept;
    assert(trimmed(s) == s.subrange(from, to));
    assert forall|i: int| 0 <= i < s.skip(to).len() implies spec_is_whitespace(
        #[trigger] s.skip(to)[i],
    ) by {
        assert(s.skip(to)[i] == body.skip(kept)[i]);
    }
    if trimmed(s).len() > 0 {
        assert(trimmed(s).first() == body.first());
    }
}

/// Skipping leading white space drops a run of white space from the front,
/// up to the first character that is none.
proof fn lemma_skip_leading_shape(s: Seq<char>)
    ensures
        skip_leading(s).len() <= s.len(),
        skip_leading(s) == s.skip(s.len() - skip_leading(s).len()),
        all_whitespace(s.take(s.len() - skip_leading(s).len())),
        skip_leading(s).len() > 0 ==> !spec_is_whitespace(skip_leading(s).first()),
    decreases s.len(),
{
    if s.len() > 0 && spec_is_whitespace(s.first()) {
        let rest = s.drop_first();
        lemma_skip_leading_shape(rest);
        let dropped = rest.len() - skip_leading(rest).len();
        assert(rest.skip(dropped) == s.skip(dropped + 1));
        assert forall|i: int| 0 <= i < dropped + 1 implies spec_is_whitespace(
            #[trigger] s.take(dropped + 1)[i],
        ) by {
            if i > 0 {
                assert(s.take(dropped + 1)[i] == rest.take(dropped)[i - 1]);
            }
        }
    } else {
        assert(s.skip(0) == s);
    }
}

/// Skipping trailing white space drops a run of white space from the back,
/// down to the last character that is none.
proof fn lemma_skip_trailing_shape(s: Seq<char>)
    ensures
        skip_trailing(s).len() <= s.len(),
        skip_trailing(s) == s.take(skip_trailing(s).len() as int),
        all_whitespace(s.skip(skip_trailing(s).len() as int)),
        skip_trailing(s).len() > 0 ==> !spec_is_whitespace(skip_trailing(s).last()),
        skip_trailing(s).len() > 0 ==> skip_trailing(s).first() == s.first(),
    decreases s.len(),
{
    if s.len() > 0 && spec_is_whitespace(s.last()) {
        let rest = s.drop_last();
        lemma_skip_trailing_shape(rest);
        let kept = skip_trailing(rest).len() as int;
        assert(rest.take(kept) == s.take(kept));
        assert forall|i: int| 0 <= i < s.skip(kept).len() implies spec_is_whitespace(
            #[trigger] s.skip(kept)[i],
        ) by {
            if i < rest.skip(kept).len() {
                assert(s.skip(kept)[i] == rest.skip(kept)[i]);
            }
        }
    } else {
        assert(s.take(s.len() as int) == s);
    }
}

/// Returns the part of `s` between its leading and its trailing white space.
pub fn trim(s: &str) -> (r: &str)
    ensures
        r@ == trimmed(s@),
{
    let chars = chars_of(s);
    let n: usize = chars.len();
    let mut start: usize = 0;
    assert(chars@.subrange(0, n as int) == chars@);
    while start < n && is_whitespace(chars[start])
        invariant
            start <= n,
            n == chars@.len(),
            skip_leading(chars@) == skip_leading(chars@.subrange(start as int, n as int)),
        decreases n - start,
    {
        assert(chars@.subrange(start as int, n as int).drop_first() == chars@.subrange(
            start + 1,
            n as int,
        ));
        start += 1;
    }
    let ghost body = chars@.subrange(start as int, n as int);
    assert(skip_leading(chars@) == body);
    let mut end: usize = n;
    while end > start && is_whitespace(chars[end - 1])
        invariant
            start <= end <= n,
            n == chars@.len(),
            body == chars@.subrange(start as int, n as int),
            skip_trailing(body) == skip_trailing(chars@.subrange(start as int, end as int)),
        decreases end - start,
    {
        assert(chars@.subrange(start as int, end as int).drop_last() == chars@.subrange(
            start as int,
            end - 1,
        ));
        end -= 1;
    }
    s.substring_char(start, end)
}

/// Tells whether `a` and `b` hold the same characters.
pub fn same_text(a: &str, b: &str) -> (same: bool)
    ensures
        same == (a@ == b@),
{
    let x = chars_of(a);
    let y = chars_of(b);
    if x.len() != y.len() {
        return false;
    }
    let mut i: usize = 0;
    while i < x.len()
        invariant
            i <= x.len(),
            x.len() == y.len(),
            x@ == a@,
            y@ == b@,
            forall|j: int| 0 <= j < i ==> x@[j] == y@[j],
        decreases x.len() - i,
    {
        if x[i] != y[i] {
            return false;
        }
        i += 1;
    }
    assert(x@ =~= y@);
    true
}

/// Whether `c` is one of the ten ASCII digits.
pub open spec fn spec_is_digit(c: char) -> bool {
    0x30 <= c as u32 <= 0x39
}

/// Tells whether `c` is one of the ten ASCII digits.
#[verifier::when_used_as_spec(spec_is_digit)]
pub fn is_digit(c: char) -> (b: bool)
    ensures
        b == spec_is_digit(c),
{
    let n: u32 = c as u32;
    0x30 <= n && n <= 0x39
}

/// The number that the digit `c` stands for.
pub open spec fn digit_value(c: char) -> nat
    recommends
        spec_is_digit(c),
{
    (c as u32 - 0x30) as nat
}

/// Whether every character of `s` is an ASCII digit.
pub open spec fn all_digits(s: Seq<char>) -> bool {
    forall|i: int| 0 <= i < s.len() ==> spec_is_digit(#[trigger] s[i])
}

/// The number that `digits` writes in base ten, most significant digit first.
pub open spec fn decimal_value(digits: Seq<char>) -> nat
    recommends
        all_digits(digits),
    decreases digits.len(),
{
    if digits.len() == 0 {
        0
    } else {
        10 * decimal_value(digits.drop_last()) + digit_value(digits.last())
    }
}

/// `s` without the one plus sign that may stand in front of a number.
pub open spec fn without_plus(s: Seq<char>) -> Seq<char> {
    if s.len() > 0 && s.first() == '+' {
        s.drop_first()
    } else {
        s
    }
}

/// What `s` reads as an unsigned 32-bit number: an optional plus sign, then
/// one or more ASCII digits and nothing else, whose value fits in 32 bits.
/// Any other text reads as no number.
pub open spec fn parsed_u32(s: Seq<char>) -> Option<u32> {
    let digits = without_plus(s);
    if digits.len() > 0 && all_digits(digits) && decimal_value(digits) <= u32::MAX {
        Some(decimal_value(digits) as u32)
    } else {
        None
    }
}

/// A number is at least as large as the number that its first `k` digits write.
pub proof fn lemma_decimal_prefix(digits: Seq<char>, k: int)
    requires
        0 <= k <= digits.len(),
    ensures
        decimal_value(digits.take(k)) <= decimal_value(digits),
    decreases digits.len(),
{
    if k == digits.len() {
        assert(digits.take(k) == digits);
    } else {
        assert(digits.drop_last().take(k) == digits.take(k));
        lemma_decimal_prefix(digits.drop_last(), k);
    }
}

/// Reads `s` as an unsigned 32-bit decimal number.
pub fn parse_u32(s: &str) -> (number: Option<u32>)
    ensures
        number == parsed_u32(s@),
{
    let chars = chars_of(s);
    let n: usize = chars.len();
    let first: usize = if n > 0 && chars[0] == '+' {
        1
    } else {
        0
    };
    let ghost digits = without_plus(s@);
    assert(digits == chars@.subrange(first as int, n as int));
    if first == n {
        return None;
    }
    let mut value: u32 = 0;
    let mut i: usize = first;
    while i < n
        invariant
            first <= i <= n,
            n == chars@.len(),
            digits == without_plus(s@),
            digits == chars@.subrange(first as int, n as int),
            all_digits(digits.take(i - first)),
            value == decimal_value(digits.take(i - first)),
        decreases n - i,
    {
        let c = chars[i];
        let ghost seen = digits.take(i - first);
        let ghost more = digits.take(i + 1 - first);
        assert(more.drop_last() == seen);
        assert(more.last() == c);
        if !is_digit(c) {
            assert(!spec_is_digit(digits[i - first]));
            return None;
        }
        let next: u64 = value as u64 * 10 + (c as u32 - 0x30) as u64;
        if next > u32::MAX as u64 {
            proof {
                lemma_decimal_prefix(digits, i + 1 - first);
            }
            return None;
        }
        value = next as u32;
        i += 1;
    }
    assert(digits.take(n - first) == digits);
    Some(value)
}

} // verus!
