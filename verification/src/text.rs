//! Text building: decimal numbers, trimming, splitting and joining.
use vstd::prelude::*;
use vstd::string::*;

verus! {

/// `String::push` appends its character to the end of the string.
pub assume_specification[ String::push ](s: &mut String, c: char)
    ensures
        final(s)@ == old(s)@.push(c),
;

/// The character of a decimal digit.
pub open spec fn digit_char(d: int) -> char {
    (48 + d) as char
}

/// The decimal digits of `n`, without leading zeros.
pub open spec fn nat_text(n: nat) -> Seq<char>
    decreases n,
{
    if n < 10 {
        seq![digit_char(n as int)]
    } else {
        nat_text(n / 10).push(digit_char((n % 10) as int))
    }
}

/// The decimal text of `n`, with a leading minus sign for a negative number.
pub open spec fn int_text(n: int) -> Seq<char> {
    if n < 0 {
        seq!['-'] + nat_text((-n) as nat)
    } else {
        nat_text(n as nat)
    }
}

/// The decimal text of an unsigned number.
pub fn u64_text(n: u64) -> (text: String)
    ensures
        text@ == int_text(n as int),
    decreases n,
{
    let mut text = if n < 10 {
        String::new()
    } else {
        u64_text(n / 10)
    };
    let digit: u8 = (n % 10) as u8;
    text.push((48u8 + digit) as char);
    text
}

/// The decimal text of a signed number.
pub fn i64_text(n: i64) -> (text: String)
    ensures
        text@ == int_text(n as int),
{
    if n < 0 {
        let magnitude: u64 = (-(n as i128)) as u64;
        proof {
            reveal_strlit("-");
            assert("-"@ =~= seq!['-']);
        }
        String::from_str("-").concat(u64_text(magnitude).as_str())
    } else {
        u64_text(n as u64)
    }
}

/// The characters that Unicode calls white space.
pub open spec fn is_white_space(c: char) -> bool {
    let v = c as int;
    ||| 9 <= v <= 13
    ||| v == 0x20
    ||| v == 0x85
    ||| v == 0xa0
    ||| v == 0x1680
    ||| 0x2000 <= v <= 0x200a
    ||| v == 0x2028
    ||| v == 0x2029
    ||| v == 0x202f
    ||| v == 0x205f
    ||| v == 0x3000
}

/// `s` without the white space at its two ends.
pub open spec fn trimmed(s: Seq<char>) -> Seq<char>
    decreases s.len(),
{
    if s.len() == 0 {
        s
    } else if is_white_space(s.first()) {
        trimmed(s.drop_first())
    } else if is_white_space(s.last()) {
        trimmed(s.drop_last())
    } else {
        s
    }
}

/// What stands in `s` before the first `c`; all of `s` if there is none.
pub open spec fn before_first(s: Seq<char>, c: char) -> Seq<char>
    decreases s.len(),
{
    if s.len() == 0 || s.first() == c {
        Seq::empty()
    } else {
        seq![s.first()] + before_first(s.drop_first(), c)
    }
}

/// The parts in order, with `sep` between two of them.
pub open spec fn joined(parts: Seq<Seq<char>>, sep: Seq<char>) -> Seq<char>
    decreases parts.len(),
{
    if parts.len() == 0 {
        Seq::empty()
    } else if parts.len() == 1 {
        parts[0]
    } else {
        joined(parts.drop_last(), sep) + sep + parts.last()
    }
}

/// Whether Unicode calls `c` white space.
pub fn white_space(c: char) -> (r: bool)
    ensures
        r == is_white_space(c),
{
    let v: u32 = c as u32;
    (9 <= v && v <= 13) || v == 0x20 || v == 0x85 || v == 0xa0 || v == 0x1680 || (0x2000 <= v && v
        <= 0x200a) || v == 0x2028 || v == 0x2029 || v == 0x202f || v == 0x205f || v == 0x3000
}

/// The text without the white space at its two ends.
pub fn trim(s: &str) -> (r: &str)
    ensures
        r@ == trimmed(s@),
{
    let len: usize = s.unicode_len();
    let mut from: usize = 0;
    let mut to: usize = len;
    assert(s@.subrange(0, len as int) =~= s@);
    while from < to && white_space(s.get_char(from))
        invariant
            from <= to == len == s@.len(),
            trimmed(s@.subrange(from as int, to as int)) == trimmed(s@),
        decreases to - from,
    {
        assert(s@.subrange(from as int, to as int).drop_first() =~= s@.subrange(
            from + 1,
            to as int,
        ));
        from = from + 1;
    }
    while from < to && white_space(s.get_char(to - 1))
        invariant
            from <= to <= len == s@.len(),
            from < to ==> !is_white_space(s@[from as int]),
            trimmed(s@.subrange(from as int, to as int)) == trimmed(s@),
        decreases to - from,
    {
        assert(s@.subrange(from as int, to as int).drop_last() =~= s@.subrange(
            from as int,
            to - 1,
        ));
        to = to - 1;
    }
    s.substring_char(from, to)
}

/// What stands in the text before the first `c`; all of it if there is none.
pub fn first_part(s: &str, c: char) -> (r: &str)
    ensures
        r@ == before_first(s@, c),
{
    let len: usize = s.unicode_len();
    let mut to: usize = 0;
    assert(s@.subrange(0, len as int) =~= s@);
    assert(s@.subrange(0, 0) + before_first(s@, c) =~= before_first(s@, c));
    while to < len && s.get_char(to) != c
        invariant
            to <= len == s@.len(),
            s@.subrange(0, to as int) + before_first(s@.subrange(to as int, len as int), c)
                == before_first(s@, c),
        decreases len - to,
    {
        let ghost rest = s@.subrange(to as int, len as int);
        assert(rest.drop_first() =~= s@.subrange(to + 1, len as int));
        assert(s@.subrange(0, to as int) + (seq![rest.first()] + before_first(
            rest.drop_first(),
            c,
        )) =~= s@.subrange(0, to + 1) + before_first(rest.drop_first(), c));
        to = to + 1;
    }
    assert(s@.subrange(0, to as int) + Seq::<char>::empty() =~= s@.subrange(0, to as int));
    s.substring_char(0, to)
}

/// Different numbers are written differently.
pub proof fn lemma_numbers_differ(a: nat, b: nat)
    requires
        nat_text(a) == nat_text(b),
    ensures
        a == b,
    decreases a,
{
    assert(nat_text(a).len() > 0 && nat_text(b).len() > 0);
    assert(nat_text(a).last() as int == 48 + a % 10);
    assert(nat_text(b).last() as int == 48 + b % 10);
    if a >= 10 {
        assert(nat_text(a).drop_last() =~= nat_text(a / 10));
        assert(nat_text(a / 10).len() > 0);
        if b >= 10 {
            assert(nat_text(b).drop_last() =~= nat_text(b / 10));
            lemma_numbers_differ(a / 10, b / 10);
            assert(a == 10 * (a / 10) + a % 10 && b == 10 * (b / 10) + b % 10);
        }
    } else if b >= 10 {
        assert(nat_text(b / 10).len() > 0);
    }
}

/// Numbers are written digit by digit: a digit is its own character, a further digit goes behind the
/// digits before it, and a negative number is its opposite behind a minus sign.
pub proof fn law_numbers_are_written_digit_by_digit(n: nat, d: nat)
    requires
        d < 10,
    ensures
        nat_text(d) == seq![(48 + d) as char],
        n > 0 ==> nat_text(10 * n + d) == nat_text(n).push((48 + d) as char),
        int_text(n as int) == nat_text(n),
        n > 0 ==> int_text(-n) == seq!['-'] + nat_text(n),
{
    if n > 0 {
        let m = 10 * n + d;
        assert(m / 10 == n && m % 10 == d);
        assert(nat_text(m) == nat_text(m / 10).push(digit_char((m % 10) as int)));
    }
}

/// Trimming takes white space from the two ends and nothing else: white space put at either end makes
/// no difference, and a text that neither starts nor ends with white space is left as it is.
pub proof fn law_trimming_takes_only_white_space(s: Seq<char>, c: char)
    ensures
        is_white_space(c) ==> trimmed(seq![c] + s) == trimmed(s),
        is_white_space(c) ==> trimmed(s.push(c)) == trimmed(s),
        s.len() > 0 && !is_white_space(s.first()) && !is_white_space(s.last()) ==> trimmed(s) == s,
        trimmed(Seq::empty()) == Seq::<char>::empty(),
    decreases s.len(),
{
    assert((seq![c] + s).drop_first() =~= s);
    assert(s.push(c).drop_last() =~= s);
    if s.len() == 0 {
        assert(s.push(c).drop_first() =~= s);
        assert(s =~= Seq::empty());
    } else if is_white_space(s.first()) {
        law_trimming_takes_only_white_space(s.drop_first(), c);
        assert(s.push(c).drop_first() =~= s.drop_first().push(c));
    }
}

/// What stands before the first `c` is the longest part at the front without a `c`.
pub proof fn law_first_part_ends_before_the_separator(s: Seq<char>, c: char)
    ensures
        before_first(s, c).len() <= s.len(),
        before_first(s, c) == s.take(before_first(s, c).len() as int),
        !before_first(s, c).contains(c),
        before_first(s, c).len() < s.len() ==> s[before_first(s, c).len() as int] == c,
    decreases s.len(),
{
    if s.len() == 0 || s.first() == c {
        assert(before_first(s, c) =~= s.take(0));
    } else {
        let rest = s.drop_first();
        law_first_part_ends_before_the_separator(rest, c);
        let part = before_first(rest, c);
        let all = before_first(s, c);
        assert(all =~= s.take(all.len() as int)) by {
            assert forall|i: int| 0 <= i < all.len() implies all[i] == s[i] by {
                if i > 0 {
                    assert(part[i - 1] == rest.take(part.len() as int)[i - 1]);
                }
            }
        }
        assert forall|i: int| 0 <= i < all.len() implies all[i] != c by {
            if i > 0 {
                assert(part.contains(part[i - 1]));
            }
        }
    }
}

/// Parts are put one behind the other, with the separator before every part but the first.
pub proof fn law_parts_are_joined_in_order(parts: Seq<Seq<char>>, part: Seq<char>, sep: Seq<char>)
    ensures
        joined(Seq::empty(), sep) == Seq::<char>::empty(),
        joined(seq![part], sep) == part,
        parts.len() > 0 ==> joined(parts.push(part), sep) == joined(parts, sep) + sep + part,
{
    assert(parts.push(part).drop_last() =~= parts);
}

} // verus!
