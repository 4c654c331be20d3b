//! Character-level primitives: conversion between strings and character
//! vectors, Unicode white space, trimming, decimal numerals and escaping.

use vstd::prelude::*;
use vstd::std_specs::iter::IteratorSpec;

verus! {

broadcast use vstd::string::group_string_axioms;

/// `String::push` appends exactly one character to the end of the string.
pub assume_specification[ String::push ](s: &mut String, ch: char)
    ensures
        final(s)@ == old(s)@.push(ch),
;

/// The characters of `s`, in order.
pub fn to_chars(s: &str) -> (v: Vec<char>)
    ensures
        v@ == s@,
{
    let mut v: Vec<char> = Vec::new();
    for c in it: s.chars()
        invariant
            it.seq() == s@,
            v@ == s@.take(it.index() as int),
    {
        assert(s@.take(it.index() as int).push(c) =~= s@.take(it.index() + 1));
        v.push(c);
    }
    assert(s@.take(s@.len() as int) =~= s@);
    v
}

/// The string made of the characters of `v` from position `from` up to, not
/// including, position `to`.
pub fn from_chars_range(v: &Vec<char>, from: usize, to: usize) -> (s: String)
    requires
        from <= to <= v.len(),
    ensures
        s@ == v@.subrange(from as int, to as int),
{
    let mut s = String::new();
    let mut i: usize = from;
    while i < to
        invariant
            from <= i <= to <= v.len(),
            s@ == v@.subrange(from as int, i as int),
        decreases to - i,
    {
        s.push(v[i]);
        assert(v@.subrange(from as int, i as int).push(v@[i as int]) =~= v@.subrange(
            from as int,
            i + 1,
        ));
        i += 1;
    }
    s
}

/// Whether `c` has the Unicode property White_Space.
pub open spec fn is_space(c: char) -> bool {
    let n = c as u32;
    ||| 0x09 <= n <= 0x0D
    ||| n == 0x20
    ||| n == 0x85
    ||| n == 0xA0
    ||| n == 0x1680
    ||| 0x2000 <= n <= 0x200A
    ||| n == 0x2028
    ||| n == 0x2029
    ||| n == 0x202F
    ||| n == 0x205F
    ||| n == 0x3000
}

/// Whether `c` is one of the ten ASCII digits.
pub open spec fn is_digit(c: char) -> bool {
    0x30 <= c as u32 <= 0x39
}

/// Whether `c` is white space.
pub fn is_white_space(c: char) -> (b: bool)
    ensures
        b == is_space(c),
{
    let n: u32 = c as u32;
    (0x09 <= n && n <= 0x0D) || n == 0x20 || n == 0x85 || n == 0xA0 || n == 0x1680 || (0x2000 <= n
        && n <= 0x200A) || n == 0x2028 || n == 0x2029 || n == 0x202F || n == 0x205F || n == 0x3000
}

/// Whether `c` is an ASCII digit.
pub fn is_ascii_digit(c: char) -> (b: bool)
    ensures
        b == is_digit(c),
{
    let n: u32 = c as u32;
    0x30 <= n && n <= 0x39
}

/// `s` without its longest prefix of white space.
pub open spec fn without_leading_space(s: Seq<char>) -> Seq<char>
    decreases s.len(),
{
    if s.len() > 0 && is_space(s[0]) {
        without_leading_space(s.drop_first())
    } else {
        s
    }
}

/// `s` without its longest suffix of white space.
pub open spec fn without_trailing_space(s: Seq<char>) -> Seq<char>
    decreases s.len(),
{
    if s.len() > 0 && is_space(s.last()) {
        without_trailing_space(s.drop_last())
    } else {
        s
    }
}

/// `s` without its longest prefix of ASCII digits.
pub open spec fn without_leading_digits(s: Seq<char>) -> Seq<char>
    decreases s.len(),
{
    if s.len() > 0 && is_digit(s[0]) {
        without_leading_digits(s.drop_first())
    } else {
        s
    }
}

/// `s` with white space removed from both ends.
pub open spec fn trimmed(s: Seq<char>) -> Seq<char> {
    without_trailing_space(without_leading_space(s))
}

/// Whether the first character of `s` is an ASCII digit.
pub open spec fn starts_with_digit(s: Seq<char>) -> bool {
    s.len() > 0 && is_digit(s[0])
}

/// A paragraph without its own number: leading white space, then a run of
/// digits, then the white space after them are removed.
pub open spec fn sanitised(s: Seq<char>) -> Seq<char> {
    without_leading_space(without_leading_digits(without_leading_space(s)))
}

/// The position after the white space that starts at `from`.
fn space_end(v: &Vec<char>, from: usize) -> (i: usize)
    requires
        from <= v.len(),
    ensures
        from <= i <= v.len(),
        without_leading_space(v@.skip(from as int)) == v@.skip(i as int),
{
    let mut i: usize = from;
    while i < v.len() && is_white_space(v[i])
        invariant
            from <= i <= v.len(),
            without_leading_space(v@.skip(from as int)) == without_leading_space(
                v@.skip(i as int),
            ),
        decreases v.len() - i,
    {
        assert(v@.skip(i as int).drop_first() =~= v@.skip(i + 1));
        i += 1;
    }
    i
}

/// The position after the digits that start at `from`.
fn digits_end(v: &Vec<char>, from: usize) -> (i: usize)
    requires
        from <= v.len(),
    ensures
        from <= i <= v.len(),
        without_leading_digits(v@.skip(from as int)) == v@.skip(i as int),
{
    let mut i: usize = from;
    while i < v.len() && is_ascii_digit(v[i])
        invariant
            from <= i <= v.len(),
            without_leading_digits(v@.skip(from as int)) == without_leading_digits(
                v@.skip(i as int),
            ),
        decreases v.len() - i,
    {
        assert(v@.skip(i as int).drop_first() =~= v@.skip(i + 1));
        i += 1;
    }
    i
}

/// The position at which the white space that ends `v` begins, not before `from`.
fn space_start(v: &Vec<char>, from: usize) -> (j: usize)
    requires
        from <= v.len(),
    ensures
        from <= j <= v.len(),
        without_trailing_space(v@.skip(from as int)) == v@.subrange(from as int, j as int),
{
    let mut j: usize = v.len();
    assert(v@.skip(from as int) =~= v@.subrange(from as int, j as int));
    while j > from && is_white_space(v[j - 1])
        invariant
            from <= j <= v.len(),
            without_trailing_space(v@.skip(from as int)) == without_trailing_space(
                v@.subrange(from as int, j as int),
            ),
        decreases j,
    {
        assert(v@.subrange(from as int, j as int).drop_last() =~= v@.subrange(
            from as int,
            j - 1,
        ));
        j -= 1;
    }
    j
}

/// Removes white space from both ends of `input`.
pub fn trim(input: &str) -> (out: String)
    ensures
        out@ == trimmed(input@),
{
    let v = to_chars(input);
    let i = space_end(&v, 0);
    let j = space_start(&v, i);
    assert(v@.skip(0) =~= v@);
    from_chars_range(&v, i, j)
}

/// Whether `text` begins with an ASCII digit.
pub fn section_number_check(text: &str) -> (b: bool)
    ensures
        b == starts_with_digit(text@),
{
    let mut it = text.chars();
    match it.next() {
        Some(c) => is_ascii_digit(c),
        None => false,
    }
}

/// Removes the number that a paragraph carries in front, with the white
/// space around it.
pub fn sanitise_paragraph(input: &str) -> (out: String)
    ensures
        out@ == sanitised(input@),
{
    let v = to_chars(input);
    let i = space_end(&v, 0);
    let j = digits_end(&v, i);
    let k = space_end(&v, j);
    assert(v@.skip(0) =~= v@);
    assert(v@.skip(k as int) =~= v@.subrange(k as int, v.len() as int));
    from_chars_range(&v, k, v.len())
}

/// What stands for `c` in escaped text.
pub open spec fn escape_char(c: char) -> Seq<char> {
    if c == '&' {
        seq!['&', 'a', 'm', 'p', ';']
    } else if c == '<' {
        seq!['&', 'l', 't', ';']
    } else if c == '>' {
        seq!['&', 'g', 't', ';']
    } else if c == '"' {
        seq!['&', 'q', 'u', 'o', 't', ';']
    } else if c == '\'' {
        seq!['&', '#', '3', '9', ';']
    } else {
        seq![c]
    }
}

/// `s` with each of its characters escaped.
pub open spec fn escaped(s: Seq<char>) -> Seq<char>
    decreases s.len(),
{
    if s.len() == 0 {
        Seq::empty()
    } else {
        escaped(s.drop_last()) + escape_char(s.last())
    }
}

/// Whether `c` can open or close a tag or an attribute value.
pub open spec fn is_markup(c: char) -> bool {
    c == '<' || c == '>' || c == '"' || c == '\''
}

/// Appends what stands for `c` in escaped text.
fn push_escaped(out: &mut String, c: char)
    ensures
        final(out)@ == old(out)@ + escape_char(c),
{
    proof {
        reveal_strlit("&amp;");
        reveal_strlit("&lt;");
        reveal_strlit("&gt;");
        reveal_strlit("&quot;");
        reveal_strlit("&#39;");
    }
    let ghost before = out@;
    if c == '&' {
        out.append("&amp;");
        assert(out@ =~= before + escape_char(c));
    } else if c == '<' {
        out.append("&lt;");
        assert(out@ =~= before + escape_char(c));
    } else if c == '>' {
        out.append("&gt;");
        assert(out@ =~= before + escape_char(c));
    } else if c == '"' {
        out.append("&quot;");
        assert(out@ =~= before + escape_char(c));
    } else if c == '\'' {
        out.append("&#39;");
        assert(out@ =~= before + escape_char(c));
    } else {
        out.push(c);
        assert(out@ =~= before + escape_char(c));
    }
}

/// Escapes `input` for use as text or as an attribute value in markup.
pub fn html_escape(input: &str) -> (out: String)
    ensures
        out@ == escaped(input@),
{
    let mut out = String::new();
    for c in it: input.chars()
        invariant
            it.seq() == input@,
            out@ == escaped(input@.take(it.index() as int)),
    {
        assert(input@.take(it.index() + 1).drop_last() =~= input@.take(it.index() as int));
        push_escaped(&mut out, c);
    }
    assert(input@.take(input@.len() as int) =~= input@);
    out
}

/// Escaped text holds no character that opens or closes a tag or an
/// attribute value.
pub proof fn escaped_is_markup_free(s: Seq<char>)
    ensures
        forall|i: int| 0 <= i < escaped(s).len() ==> !is_markup(#[trigger] escaped(s)[i]),
    decreases s.len(),
{
    if s.len() > 0 {
        escaped_is_markup_free(s.drop_last());
        let head = escaped(s.drop_last());
        let tail = escape_char(s.last());
        assert forall|i: int| 0 <= i < escaped(s).len() implies !is_markup(
            #[trigger] escaped(s)[i],
        ) by {
            if i < head.len() {
                assert(escaped(s)[i] == head[i]);
            } else {
                assert(escaped(s)[i] == tail[i - head.len()]);
            }
        }
    }
}

/// Escaped text begins with what stands for the first character, and goes
/// on with the rest escaped.
proof fn escaped_front(s: Seq<char>)
    requires
        s.len() > 0,
    ensures
        escaped(s) == escape_char(s[0]) + escaped(s.drop_first()),
    decreases s.len(),
{
    if s.len() == 1 {
        assert(s.drop_last() =~= Seq::<char>::empty());
        assert(s.drop_first() =~= Seq::<char>::empty());
        assert(escaped(s) =~= escape_char(s[0]) + escaped(s.drop_first()));
    } else {
        escaped_front(s.drop_last());
        assert(s.drop_last().drop_first() =~= s.drop_first().drop_last());
        assert(s.drop_first().last() == s.last());
        assert(escaped(s) =~= escape_char(s[0]) + escaped(s.drop_first()));
    }
}

/// Two texts that are escaped to the same text are the same text: nothing
/// is lost in escaping.
pub proof fn escaped_is_injective(a: Seq<char>, b: Seq<char>)
    requires
        escaped(a) == escaped(b),
    ensures
        a == b,
    decreases a.len(),
{
    if a.len() == 0 {
        if b.len() > 0 {
            escaped_front(b);
            assert(escape_char(b[0]).len() > 0);
        }
        assert(a =~= b);
    } else if b.len() == 0 {
        escaped_front(a);
        assert(escape_char(a[0]).len() > 0);
    } else {
        escaped_front(a);
        escaped_front(b);
        let ea = escape_char(a[0]);
        let eb = escape_char(b[0]);
        let ta = escaped(a.drop_first());
        let tb = escaped(b.drop_first());
        assert((ea + ta)[0] == ea[0]);
        assert((eb + tb)[0] == eb[0]);
        if ea.len() > 1 {
            assert((ea + ta)[1] == ea[1]);
        }
        if eb.len() > 1 {
            assert((eb + tb)[1] == eb[1]);
        }
        assert(a[0] == b[0]);
        assert(ta =~= (ea + ta).skip(ea.len() as int));
        assert(tb =~= (eb + tb).skip(eb.len() as int));
        escaped_is_injective(a.drop_first(), b.drop_first());
        assert(a =~= seq![a[0]] + a.drop_first());
        assert(b =~= seq![b[0]] + b.drop_first());
    }
}

/// The character of the decimal digit `d`.
pub open spec fn digit_char(d: nat) -> char {
    if d == 0 {
        '0'
    } else if d == 1 {
        '1'
    } else if d == 2 {
        '2'
    } else if d == 3 {
        '3'
    } else if d == 4 {
        '4'
    } else if d == 5 {
        '5'
    } else if d == 6 {
        '6'
    } else if d == 7 {
        '7'
    } else if d == 8 {
        '8'
    } else {
        '9'
    }
}

/// The decimal numeral of `n`, without leading zeros.
pub open spec fn decimal(n: nat) -> Seq<char>
    decreases n,
{
    if n < 10 {
        seq![digit_char(n)]
    } else {
        decimal(n / 10).push(digit_char(n % 10))
    }
}

/// The character of the decimal digit `d`.
fn digit(d: u128) -> (c: char)
    requires
        d < 10,
    ensures
        c == digit_char(d as nat),
{
    if d == 0 {
        '0'
    } else if d == 1 {
        '1'
    } else if d == 2 {
        '2'
    } else if d == 3 {
        '3'
    } else if d == 4 {
        '4'
    } else if d == 5 {
        '5'
    } else if d == 6 {
        '6'
    } else if d == 7 {
        '7'
    } else if d == 8 {
        '8'
    } else {
        '9'
    }
}

/// Appends the decimal numeral of `n` to `out`.
pub fn push_decimal(out: &mut String, n: u128)
    ensures
        final(out)@ == old(out)@ + decimal(n as nat),
    decreases n,
{
    let ghost before = out@;
    if n >= 10 {
        push_decimal(out, n / 10);
    }
    out.push(digit(n % 10));
    assert(out@ =~= before + decimal(n as nat));
}

} // verus!
