//! Identifiers of agents and of registrations, held as 128-bit numbers.
use vstd::arithmetic::div_mod::lemma_div_denominator;
use vstd::arithmetic::power::{lemma_pow0, lemma_pow_positive, pow};
use vstd::prelude::*;

verus! {

/// The character of a hexadecimal digit.
pub open spec fn hex_char(d: int) -> char {
    if d < 10 {
        (48 + d) as char
    } else {
        (87 + d) as char
    }
}

/// The hexadecimal digit of `id` with `k` digits behind it.
pub open spec fn hex_digit(id: int, k: int) -> int {
    id / pow(16, k as nat) % 16
}

/// Where the hyphens of a written identifier stand.
pub open spec fn is_hyphen_place(i: int) -> bool {
    i == 8 || i == 13 || i == 18 || i == 23
}

/// How many hexadecimal digits stand before place `i` of a written identifier.
pub open spec fn digits_before(i: int) -> int {
    if i <= 8 {
        i
    } else if i <= 13 {
        i - 1
    } else if i <= 18 {
        i - 2
    } else if i <= 23 {
        i - 3
    } else {
        i - 4
    }
}

/// The written form of an identifier: its 32 hexadecimal digits, in groups of eight, four, four,
/// four and twelve with hyphens between them.
pub open spec fn uuid_text(id: u128) -> Seq<char> {
    Seq::new(
        36,
        |i: int|
            if is_hyphen_place(i) {
                '-'
            } else {
                hex_char(hex_digit(id as int, 31 - digits_before(i)))
            },
    )
}

/// Whether `id` has the version and variant bits of a random identifier.
pub open spec fn is_random_id(id: u128) -> bool {
    &&& hex_digit(id as int, 19) == 4
    &&& 8 <= hex_digit(id as int, 15) <= 11
}

/// `Display` of `uuid::Uuid`: the hyphenated lower-case form.
#[verifier::external_body]
pub(crate) fn id_text(id: u128) -> (text: String)
    ensures
        text@ == uuid_text(id),
{
    uuid::Uuid::from_u128(id).to_string()
}

/// `uuid::Uuid::new_v4`: a random identifier. Which one comes back is open, but for the version
/// and variant bits.
#[verifier::external_body]
pub(crate) fn fresh_id() -> (id: u128)
    ensures
        is_random_id(id),
{
    uuid::Uuid::new_v4().as_u128()
}

proof fn lemma_hex_chars_differ(a: int, b: int)
    requires
        0 <= a < 16,
        0 <= b < 16,
        hex_char(a) == hex_char(b),
    ensures
        a == b,
{
}

/// Numbers below a power of sixteen with the same hexadecimal digits are the same.
proof fn lemma_digits_determine(a: int, b: int, n: nat)
    requires
        0 <= a < pow(16, n),
        0 <= b < pow(16, n),
        forall|k: int| 0 <= k < n ==> #[trigger] hex_digit(a, k) == hex_digit(b, k),
    ensures
        a == b,
    decreases n,
{
    if n == 0 {
        lemma_pow0(16);
    } else {
        let m = (n - 1) as nat;
        assert(pow(16, n) == 16 * pow(16, m)) by {
            reveal(pow);
        }
        assert(0 <= a / 16 < pow(16, m) && 0 <= b / 16 < pow(16, m));
        assert forall|k: int| 0 <= k < m implies #[trigger] hex_digit(a / 16, k) == hex_digit(
            b / 16,
            k,
        ) by {
            lemma_digit_of_quotient(a, k);
            lemma_digit_of_quotient(b, k);
            assert(hex_digit(a, k + 1) == hex_digit(b, k + 1));
        }
        lemma_digits_determine(a / 16, b / 16, m);
        assert(hex_digit(a, 0) == hex_digit(b, 0));
        lemma_pow0(16);
    }
}

proof fn lemma_digit_of_quotient(a: int, k: int)
    requires
        0 <= a,
        0 <= k,
    ensures
        hex_digit(a / 16, k) == hex_digit(a, k + 1),
{
    lemma_pow_positive(16, k as nat);
    assert(pow(16, (k + 1) as nat) == 16 * pow(16, k as nat)) by {
        reveal(pow);
    }
    lemma_div_denominator(a, 16, pow(16, k as nat));
}

/// Different identifiers are written differently, so a written identifier tells agents apart.
pub proof fn law_written_ids_tell_agents_apart(a: u128, b: u128)
    requires
        uuid_text(a) == uuid_text(b),
    ensures
        a == b,
{
    assert forall|k: int| 0 <= k < 32 implies #[trigger] hex_digit(a as int, k) == hex_digit(
        b as int,
        k,
    ) by {
        let n = 31 - k;
        let i = if n < 8 {
            n
        } else if n < 12 {
            n + 1
        } else if n < 16 {
            n + 2
        } else if n < 20 {
            n + 3
        } else {
            n + 4
        };
        assert(!is_hyphen_place(i) && digits_before(i) == n);
        assert(uuid_text(a)[i] == hex_char(hex_digit(a as int, k)));
        assert(uuid_text(b)[i] == hex_char(hex_digit(b as int, k)));
        lemma_hex_chars_differ(hex_digit(a as int, k), hex_digit(b as int, k));
    }
    assert(pow(16, 32) == 0x1_0000_0000_0000_0000_0000_0000_0000_0000) by {
        reveal_with_fuel(pow, 33);
    }
    lemma_digits_determine(a as int, b as int, 32);
}

} // verus!
