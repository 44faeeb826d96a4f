//! Small verified building blocks for working with text.
//!
//! Everything here is stated over `Seq<char>`, the view of `str` and `String`.

use vstd::prelude::*;

verus! {

/// Appends one character to the end of a string.
///
/// Trusted: `String::push` adds exactly the given character after the
/// existing contents.
#[verifier::external_body]
pub(crate) fn push_char(s: &mut String, c: char)
    ensures
        final(s)@ == old(s)@.push(c),
{
    s.push(c);
}

/// The characters of a string slice, in order.
pub fn chars_of(s: &str) -> (v: Vec<char>)
    ensures
        v@ == s@,
{
    let mut v: Vec<char> = Vec::new();
    for c in it: s.chars()
        invariant
            it.seq() == s@,
            v@ == it.seq().take(it.index()),
    {
        v.push(c);
    }
    v
}

/// Builds a string from a run of characters `chars[from..to]`.
pub fn string_of(chars: &Vec<char>, from: usize, to: usize) -> (s: String)
    requires
        from <= to <= chars.len(),
    ensures
        s@ == chars@.subrange(from as int, to as int),
{
    let mut s = String::new();
    let mut i: usize = from;
    while i < to
        invariant
            from <= i <= to <= chars.len(),
            s@ == chars@.subrange(from as int, i as int),
        decreases to - i,
    {
        push_char(&mut s, chars[i]);
        i += 1;
    }
    s
}

/// Whether two string slices hold the same text.
pub fn same_text(a: &str, b: &str) -> (r: bool)
    ensures
        r == (a@ == b@),
{
    let x = chars_of(a);
    let y = chars_of(b);
    if x.len() != y.len() {
        return false;
    }
    let mut i: usize = 0;
    while i < x.len()
        invariant
            i <= x.len(),
            x.len() == y.len(),
            x@ == a@,
            y@ == b@,
            forall|j: int| 0 <= j < i ==> x@[j] == y@[j],
        decreases x.len() - i,
    {
        if x[i] != y[i] {
            assert(a@[i as int] != b@[i as int]);
            return false;
        }
        i += 1;
    }
    assert(x@ =~= y@);
    true
}

/// Whether `s` begins with `prefix`.
pub open spec fn spec_starts_with(s: Seq<char>, prefix: Seq<char>) -> bool {
    prefix.len() <= s.len() && s.take(prefix.len() as int) == prefix
}

/// Whether `s` begins with `prefix`.
pub fn starts_with(s: &str, prefix: &str) -> (r: bool)
    ensures
        r == spec_starts_with(s@, prefix@),
{
    let x = chars_of(s);
    let p = chars_of(prefix);
    if p.len() > x.len() {
        return false;
    }
    let mut i: usize = 0;
    while i < p.len()
        invariant
            i <= p.len() <= x.len(),
            x@ == s@,
            p@ == prefix@,
            forall|j: int| 0 <= j < i ==> x@[j] == p@[j],
        decreases p.len() - i,
    {
        if x[i] != p[i] {
            assert(s@.take(prefix@.len() as int)[i as int] == x@[i as int]);
            assert(prefix@[i as int] == p@[i as int]);
            return false;
        }
        i += 1;
    }
    assert(x@.take(p.len() as int) =~= p@);
    true
}

/// The character that writes the digit `d`.
pub open spec fn spec_digit(d: nat) -> char {
    ((48 + d) as u8) as char
}

/// The usual base-ten writing of a number, without sign or leading zeros.
pub open spec fn spec_decimal(n: nat) -> Seq<char>
    decreases n,
{
    if n < 10 {
        seq![spec_digit(n)]
    } else {
        spec_decimal(n / 10).push(spec_digit(n % 10))
    }
}

fn digit_char(d: u8) -> (c: char)
    requires
        d < 10,
    ensures
        c == spec_digit(d as nat),
{
    (48u8 + d) as char
}

/// Appends the base-ten writing of `n` to `s`.
pub fn push_decimal(s: &mut String, n: u64)
    ensures
        final(s)@ == old(s)@ + spec_decimal(n as nat),
    decreases n,
{
    if n >= 10 {
        push_decimal(s, n / 10);
    }
    push_char(s, digit_char((n % 10) as u8));
    assert(s@ =~= old(s)@ + spec_decimal(n as nat));
}

/// The base-ten writing of `n`.
pub fn decimal(n: u64) -> (s: String)
    ensures
        s@ == spec_decimal(n as nat),
{
    let mut s = String::new();
    push_decimal(&mut s, n);
    assert(s@ =~= spec_decimal(n as nat));
    s
}

/// Appends a whole string slice to `s`.
pub fn push_text(s: &mut String, t: &str)
    ensures
        final(s)@ == old(s)@ + t@,
{
    s.append(t);
}

/// Whether `c` is one of the ten ASCII digits.
pub open spec fn is_digit(c: char) -> bool {
    '0' <= c <= '9'
}

/// The value of a run of ASCII digits read in base ten.
pub open spec fn digits_value(s: Seq<char>) -> nat
    decreases s.len(),
{
    if s.len() == 0 {
        0
    } else {
        (digits_value(s.drop_last()) * 10 + (s.last() as nat - '0' as nat)) as nat
    }
}

/// Whether every character of `s` is an ASCII digit.
pub open spec fn all_digits(s: Seq<char>) -> bool {
    forall|i: int| 0 <= i < s.len() ==> is_digit(#[trigger] s[i])
}

/// What reading a run of digits gives: the run is not empty, holds digits
/// only, and its value fits in 64 bits.
pub open spec fn spec_parse_digits(body: Seq<char>) -> Option<u64> {
    if body.len() > 0 && all_digits(body) && digits_value(body) <= u64::MAX {
        Some(digits_value(body) as u64)
    } else {
        None
    }
}

/// What reading `s` as an unsigned 64-bit number gives: the text is one
/// optional `+` followed by at least one ASCII digit, and the value fits.
pub open spec fn spec_parse_u64(s: Seq<char>) -> Option<u64> {
    if s.len() > 0 && s[0] == '+' {
        spec_parse_digits(s.skip(1))
    } else {
        spec_parse_digits(s)
    }
}

/// Digit values only grow as more digits are appended.
pub proof fn lemma_digits_value_monotone(s: Seq<char>, k: int)
    requires
        0 <= k <= s.len(),
        all_digits(s),
    ensures
        digits_value(s.take(k)) <= digits_value(s),
    decreases s.len() - k,
{
    if k == s.len() {
        assert(s.take(k) =~= s);
    } else {
        lemma_digits_value_monotone(s, k + 1);
        let t = s.take(k + 1);
        assert(t.drop_last() =~= s.take(k));
        assert(is_digit(s[k]));
        assert(t.last() == s[k]);
    }
}

/// Reads the characters `chars[start..]` as a run of digits.
pub fn parse_digits_from(chars: &Vec<char>, start: usize) -> (r: Option<u64>)
    requires
        start <= chars.len(),
    ensures
        r == spec_parse_digits(chars@.skip(start as int)),
{
    let ghost body = chars@.skip(start as int);
    if start == chars.len() {
        return None;
    }
    let mut value: u64 = 0;
    let mut i: usize = start;
    while i < chars.len()
        invariant
            start <= i <= chars.len(),
            body == chars@.skip(start as int),
            all_digits(body.take(i - start)),
            value == digits_value(body.take(i - start)),
        decreases chars.len() - i,
    {
        let c = chars[i];
        assert(body[i - start] == c);
        if !(c >= '0' && c <= '9') {
            assert(!is_digit(body[i - start]));
            return None;
        }
        let d: u64 = (c as u32 - '0' as u32) as u64;
        let ghost next = body.take(i - start + 1);
        proof {
            assert(next.drop_last() =~= body.take(i - start));
            assert(next.last() == c);
            assert forall|j: int| 0 <= j < next.len() implies is_digit(#[trigger] next[j]) by {
                if j < i - start {
                    assert(body.take(i - start)[j] == next[j]);
                }
            }
        }
        if value > (u64::MAX - d) / 10 {
            proof {
                if all_digits(body) {
                    lemma_digits_value_monotone(body, i - start + 1);
                }
            }
            return None;
        }
        value = value * 10 + d;
        i += 1;
    }
    assert(body.take(i - start) =~= body);
    Some(value)
}

/// Reads the characters `chars[from..]` as an unsigned 64-bit number.
pub fn parse_u64_from(chars: &Vec<char>, from: usize) -> (r: Option<u64>)
    requires
        from <= chars.len(),
    ensures
        r == spec_parse_u64(chars@.skip(from as int)),
{
    if from < chars.len() && chars[from] == '+' {
        assert(chars@.skip(from as int).skip(1) =~= chars@.skip(from + 1));
        parse_digits_from(chars, from + 1)
    } else {
        parse_digits_from(chars, from)
    }
}

/// Reads a whole string slice as an unsigned 64-bit number.
pub fn parse_u64(s: &str) -> (r: Option<u64>)
    ensures
        r == spec_parse_u64(s@),
{
    let chars = chars_of(s);
    assert(chars@.skip(0) =~= s@);
    parse_u64_from(&chars, 0)
}

/// The texts held by a sequence of strings.
pub open spec fn texts(v: Seq<String>) -> Seq<Seq<char>> {
    Seq::new(v.len(), |i: int| v[i]@)
}

/// The pieces of `s` between occurrences of `sep`. There is always at least
/// one piece; a separator at either end, or two in a row, gives an empty piece.
pub open spec fn spec_split(s: Seq<char>, sep: char) -> Seq<Seq<char>>
    decreases s.len(),
{
    if s.len() == 0 {
        seq![Seq::<char>::empty()]
    } else {
        let before = spec_split(s.drop_last(), sep);
        if s.last() == sep {
            before.push(Seq::<char>::empty())
        } else {
            before.drop_last().push(before.last().push(s.last()))
        }
    }
}

/// Splitting always yields at least one piece.
pub proof fn lemma_split_nonempty(s: Seq<char>, sep: char)
    ensures
        spec_split(s, sep).len() >= 1,
    decreases s.len(),
{
    if s.len() > 0 {
        lemma_split_nonempty(s.drop_last(), sep);
    }
}

/// Cuts `s` at every occurrence of `sep`.
pub fn split(s: &str, sep: char) -> (parts: Vec<String>)
    ensures
        texts(parts@) == spec_split(s@, sep),
        parts.len() >= 1,
{
    let chars = chars_of(s);
    let mut parts: Vec<String> = Vec::new();
    let mut start: usize = 0;
    let mut i: usize = 0;
    assert(chars@.take(0) =~= Seq::<char>::empty());
    assert(texts(parts@).push(chars@.subrange(0, 0)) =~= seq![Seq::<char>::empty()]);
    while i < chars.len()
        invariant
            start <= i <= chars.len(),
            spec_split(chars@.take(i as int), sep) == texts(parts@).push(
                chars@.subrange(start as int, i as int),
            ),
        decreases chars.len() - i,
    {
        let ghost prefix = chars@.take(i as int);
        let ghost next = chars@.take(i + 1);
        let ghost done = texts(parts@);
        proof {
            assert(next.drop_last() =~= prefix);
            assert(next.last() == chars@[i as int]);
        }
        if chars[i] == sep {
            let piece = string_of(&chars, start, i);
            parts.push(piece);
            start = i + 1;
            proof {
                assert(texts(parts@) =~= done.push(piece@));
                assert(chars@.subrange(start as int, i + 1) =~= Seq::<char>::empty());
            }
        } else {
            proof {
                let cur = chars@.subrange(start as int, i as int);
                assert(done.push(cur).drop_last() =~= done);
                assert(cur.push(chars@[i as int]) =~= chars@.subrange(start as int, i + 1));
            }
        }
        i += 1;
    }
    let piece = string_of(&chars, start, chars.len());
    let ghost done = texts(parts@);
    parts.push(piece);
    proof {
        assert(chars@.take(chars.len() as int) =~= chars@);
        assert(texts(parts@) =~= done.push(piece@));
    }
    parts
}

/// Cuts `s` at the first occurrence of `sep`, if there is one.
pub fn split_once(s: &str, sep: char) -> (r: Option<(String, String)>)
    ensures
        match r {
            Some((a, b)) => s@ == a@ + seq![sep] + b@ && !a@.contains(sep),
            None => !s@.contains(sep),
        },
{
    let chars = chars_of(s);
    let mut i: usize = 0;
    while i < chars.len()
        invariant
            i <= chars.len(),
            chars@ == s@,
            forall|j: int| 0 <= j < i ==> chars@[j] != sep,
        decreases chars.len() - i,
    {
        if chars[i] == sep {
            let a = string_of(&chars, 0, i);
            let b = string_of(&chars, i + 1, chars.len());
            assert(s@ =~= a@ + seq![sep] + b@);
            return Some((a, b));
        }
        i += 1;
    }
    None
}

/// The pieces written one after another with `sep` between neighbours.
pub open spec fn spec_join(parts: Seq<Seq<char>>, sep: Seq<char>) -> Seq<char>
    decreases parts.len(),
{
    if parts.len() == 0 {
        Seq::<char>::empty()
    } else if parts.len() == 1 {
        parts[0]
    } else {
        spec_join(parts.drop_last(), sep) + sep + parts.last()
    }
}

/// Writes the pieces one after another with `sep` between neighbours.
pub fn join(parts: &Vec<String>, sep: &str) -> (s: String)
    ensures
        s@ == spec_join(texts(parts@), sep@),
{
    let mut s = String::new();
    let mut i: usize = 0;
    assert(texts(parts@).take(0) =~= Seq::<Seq<char>>::empty());
    while i < parts.len()
        invariant
            i <= parts.len(),
            s@ == spec_join(texts(parts@).take(i as int), sep@),
        decreases parts.len() - i,
    {
        let ghost next = texts(parts@).take(i + 1);
        proof {
            assert(next.drop_last() =~= texts(parts@).take(i as int));
            assert(next.last() == parts@[i as int]@);
        }
        if i > 0 {
            s.append(sep);
        }
        s.append(parts[i].as_str());
        proof {
            if i == 0 {
                assert(s@ =~= next[0]);
            }
        }
        i += 1;
    }
    assert(texts(parts@).take(parts.len() as int) =~= texts(parts@));
    s
}

/// A text without the separator is one piece.
pub proof fn lemma_split_whole(t: Seq<char>, sep: char)
    requires
        !t.contains(sep),
    ensures
        spec_split(t, sep) == seq![t],
    decreases t.len(),
{
    if t.len() == 0 {
        assert(t =~= Seq::<char>::empty());
        assert(seq![Seq::<char>::empty()] =~= seq![t]);
    } else {
        let rest = t.drop_last();
        assert forall|i: int| 0 <= i < rest.len() implies rest[i] != sep by {
            assert(t[i] == rest[i]);
            assert(t.contains(t[i]));
        }
        assert(!rest.contains(sep));
        lemma_split_whole(rest, sep);
        assert(t[t.len() - 1] == t.last());
        assert(t.contains(t.last()));
        assert(rest.push(t.last()) =~= t);
        assert(seq![rest].drop_last().push(seq![rest].last().push(t.last())) =~= seq![t]);
    }
}

/// A piece without the separator, put behind a text and a separator, is the
/// last piece of the whole, behind the pieces of the text.
pub proof fn lemma_split_append(a: Seq<char>, b: Seq<char>, sep: char)
    requires
        !b.contains(sep),
    ensures
        spec_split(a + seq![sep] + b, sep) == spec_split(a, sep).push(b),
    decreases b.len(),
{
    let s = a + seq![sep] + b;
    if b.len() == 0 {
        assert(s.drop_last() =~= a);
        assert(s.last() == sep);
        assert(b =~= Seq::<char>::empty());
    } else {
        let rest = b.drop_last();
        assert forall|i: int| 0 <= i < rest.len() implies rest[i] != sep by {
            assert(b[i] == rest[i]);
            assert(b.contains(b[i]));
        }
        assert(!rest.contains(sep));
        lemma_split_append(a, rest, sep);
        assert(s.drop_last() =~= a + seq![sep] + rest);
        assert(s.last() == b.last());
        assert(b.contains(b.last()));
        let before = spec_split(a, sep).push(rest);
        assert(before.drop_last() =~= spec_split(a, sep));
        assert(rest.push(b.last()) =~= b);
    }
}

} // verus!
