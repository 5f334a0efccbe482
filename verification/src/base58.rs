//! Base58: bytes as a number in base fifty-eight, written with letters and
//! digits that cannot be mistaken for each other.

use vstd::prelude::*;

verus! {

/// `bs58::decode::Error`: why a text is no Base58.
#[verifier::external_type_specification]
#[verifier::external_body]
pub struct ExBase58Error(bs58::decode::Error);

/// The character of a number below fifty-eight: the digits without `0`, the
/// capitals without `I` and `O`, and the small letters without `l`.
pub open spec fn base58_digit(d: int) -> char {
    if d < 9 {
        (49 + d) as char
    } else if d < 17 {
        (65 + (d - 9)) as char
    } else if d < 22 {
        (74 + (d - 17)) as char
    } else if d < 33 {
        (80 + (d - 22)) as char
    } else if d < 44 {
        (97 + (d - 33)) as char
    } else {
        (109 + (d - 44)) as char
    }
}

/// Whether a character is one of the alphabet.
pub open spec fn is_base58(c: char) -> bool {
    ||| '1' <= c <= '9'
    ||| 'A' <= c <= 'Z' && c != 'I' && c != 'O'
    ||| 'a' <= c <= 'z' && c != 'l'
}

/// Whether all characters of a text are of the alphabet.
pub open spec fn all_base58(text: Seq<char>) -> bool {
    forall|i: int| 0 <= i < text.len() ==> is_base58(#[trigger] text[i])
}

/// The number that some bytes spell, the highest byte first.
pub open spec fn bytes_number(bytes: Seq<u8>) -> nat
    decreases bytes.len(),
{
    if bytes.len() == 0 {
        0
    } else {
        256 * bytes_number(bytes.drop_last()) + bytes.last() as nat
    }
}

/// A number in base fifty-eight, the highest digit first.
pub open spec fn base58_digits(n: nat) -> Seq<char>
    decreases n,
{
    if n == 0 {
        Seq::empty()
    } else {
        base58_digits(n / 58).push(base58_digit((n % 58) as int))
    }
}

/// How many zeros some bytes start with.
pub open spec fn leading_zeros(bytes: Seq<u8>) -> nat
    decreases bytes.len(),
{
    if bytes.len() > 0 && bytes[0] == 0 {
        1 + leading_zeros(bytes.skip(1))
    } else {
        0
    }
}

/// Bytes in Base58: a `1` for each zero that they start with, and the number
/// that they spell.
pub open spec fn base58_text(bytes: Seq<u8>) -> Seq<char> {
    Seq::new(leading_zeros(bytes), |i: int| '1') + base58_digits(bytes_number(bytes))
}

/// The bytes that a text spells in Base58.
pub open spec fn base58_bytes(text: Seq<char>) -> Option<Seq<u8>> {
    if exists|bytes: Seq<u8>| #[trigger] base58_text(bytes) == text {
        Some(choose|bytes: Seq<u8>| #[trigger] base58_text(bytes) == text)
    } else {
        None
    }
}

/// `bs58::encode` with the default alphabet.
#[verifier::external_body]
pub(crate) fn base58_encode(bytes: &[u8]) -> (r: String)
    ensures
        r@ == base58_text(bytes@),
{
    bs58::encode(bytes).into_string()
}

/// `bs58::decode` with the default alphabet: the bytes that the text is written
/// for; an error exactly for a character that is not of the alphabet.
#[verifier::external_body]
pub(crate) fn base58_decode(text: &str) -> (r: Result<Vec<u8>, bs58::decode::Error>)
    ensures
        match r {
            Ok(b) => base58_text(b@) == text@,
            Err(_) => !all_base58(text@),
        },
{
    bs58::decode(text).into_vec()
}

proof fn digits_are_base58(n: nat)
    ensures
        all_base58(base58_digits(n)),
        n > 0 ==> base58_digits(n).len() > 0 && base58_digits(n)[0] != '1',
    decreases n,
{
    if n > 0 {
        digits_are_base58(n / 58);
        let d = (n % 58) as int;
        assert(is_base58(base58_digit(d)));
        if n / 58 == 0 {
            assert(base58_digits(n / 58).len() == 0);
            assert(d > 0);
            assert(base58_digit(d) != '1');
        }
    }
}

proof fn digits_differ(a: nat, b: nat)
    requires
        base58_digits(a) == base58_digits(b),
    ensures
        a == b,
    decreases a,
{
    digits_are_base58(a);
    digits_are_base58(b);
    if a > 0 && b > 0 {
        let x = base58_digits(a / 58);
        let y = base58_digits(b / 58);
        let c = (a % 58) as int;
        let d = (b % 58) as int;
        assert(x.push(base58_digit(c)).last() == y.push(base58_digit(d)).last());
        assert(c == d);
        assert(x.push(base58_digit(c)).drop_last() =~= x);
        assert(y.push(base58_digit(d)).drop_last() =~= y);
        digits_differ(a / 58, b / 58);
    }
}

proof fn zero_in_front_counts_nothing(bytes: Seq<u8>)
    requires
        bytes.len() > 0,
        bytes[0] == 0,
    ensures
        bytes_number(bytes) == bytes_number(bytes.skip(1)),
    decreases bytes.len(),
{
    let init = bytes.drop_last();
    if bytes.len() == 1 {
        assert(bytes_number(init) == 0);
    } else {
        zero_in_front_counts_nothing(init);
        assert(bytes.skip(1).drop_last() =~= init.skip(1));
    }
}

proof fn zeros_count_nothing(bytes: Seq<u8>)
    ensures
        leading_zeros(bytes) <= bytes.len(),
        bytes_number(bytes) == bytes_number(bytes.skip(leading_zeros(bytes) as int)),
        leading_zeros(bytes) < bytes.len() ==> bytes[leading_zeros(bytes) as int] != 0,
        forall|i: int| 0 <= i < leading_zeros(bytes) ==> #[trigger] bytes[i] == 0,
    decreases bytes.len(),
{
    if bytes.len() > 0 && bytes[0] == 0 {
        let rest = bytes.skip(1);
        zeros_count_nothing(rest);
        zero_in_front_counts_nothing(bytes);
        assert(rest.skip(leading_zeros(rest) as int) =~= bytes.skip(leading_zeros(bytes) as int));
        assert forall|i: int| 0 <= i < leading_zeros(bytes) implies #[trigger] bytes[i] == 0 by {
            if i > 0 {
                assert(rest[i - 1] == bytes[i]);
            }
        }
    } else {
        assert(bytes.skip(0) =~= bytes);
    }
}

proof fn number_is_positive(bytes: Seq<u8>)
    requires
        bytes.len() > 0,
        bytes[0] != 0,
    ensures
        bytes_number(bytes) > 0,
    decreases bytes.len(),
{
    if bytes.len() > 1 {
        number_is_positive(bytes.drop_last());
    }
}

proof fn numbers_differ(a: Seq<u8>, b: Seq<u8>)
    requires
        bytes_number(a) == bytes_number(b),
        a.len() > 0 ==> a[0] != 0,
        b.len() > 0 ==> b[0] != 0,
    ensures
        a == b,
    decreases a.len(),
{
    if a.len() > 0 {
        number_is_positive(a);
    }
    if b.len() > 0 {
        number_is_positive(b);
    }
    if a.len() > 0 && b.len() > 0 {
        assert(a.last() == b.last());
        numbers_differ(a.drop_last(), b.drop_last());
        assert(a =~= a.drop_last().push(a.last()));
        assert(b =~= b.drop_last().push(b.last()));
    } else {
        assert(a =~= b);
    }
}

/// Different bytes are written differently.
pub proof fn base58_texts_differ(a: Seq<u8>, b: Seq<u8>)
    requires
        base58_text(a) == base58_text(b),
    ensures
        a == b,
{
    let text = base58_text(a);
    let y = leading_zeros(a);
    let z = leading_zeros(b);
    digits_are_base58(bytes_number(a));
    digits_are_base58(bytes_number(b));
    if y < z {
        assert(base58_text(b)[y as int] == '1');
        assert(base58_text(a).len() > y);
        assert(base58_text(a)[y as int] == base58_digits(bytes_number(a))[0]);
    }
    if z < y {
        assert(base58_text(a)[z as int] == '1');
        assert(base58_text(b).len() > z);
        assert(base58_text(b)[z as int] == base58_digits(bytes_number(b))[0]);
    }
    assert(base58_text(a).skip(y as int) =~= base58_digits(bytes_number(a)));
    assert(base58_text(b).skip(z as int) =~= base58_digits(bytes_number(b)));
    digits_differ(bytes_number(a), bytes_number(b));
    zeros_count_nothing(a);
    zeros_count_nothing(b);
    let c = a.skip(y as int);
    let d = b.skip(z as int);
    numbers_differ(c, d);
    assert(a.len() == b.len());
    assert forall|i: int| 0 <= i < a.len() implies a[i] == b[i] by {
        if i >= y {
            assert(c[i - y] == d[i - z]);
        }
    }
    assert(a =~= b);
}

/// A text in Base58 holds characters of the alphabet only, and is empty for no
/// bytes only.
pub proof fn base58_text_form(bytes: Seq<u8>)
    ensures
        all_base58(base58_text(bytes)),
        bytes.len() > 0 ==> base58_text(bytes).len() > 0,
{
    digits_are_base58(bytes_number(bytes));
    if bytes.len() > 0 && bytes[0] != 0 {
        number_is_positive(bytes);
    }
    let text = base58_text(bytes);
    let z = leading_zeros(bytes);
    assert forall|i: int| 0 <= i < text.len() implies is_base58(#[trigger] text[i]) by {
        if i >= z {
            assert(text[i] == base58_digits(bytes_number(bytes))[i - z]);
        }
    }
}

/// Reading a text in Base58 gives the bytes that it was written for.
pub proof fn base58_reads_back(bytes: Seq<u8>)
    ensures
        base58_bytes(base58_text(bytes)) == Some(bytes),
{
    let text = base58_text(bytes);
    let back = choose|b: Seq<u8>| #[trigger] base58_text(b) == text;
    base58_texts_differ(back, bytes);
}

/// A text with a character that is not of the alphabet spells nothing.
pub proof fn base58_needs_its_alphabet(text: Seq<char>)
    requires
        !all_base58(text),
    ensures
        base58_bytes(text) is None,
{
    assert forall|b: Seq<u8>| #[trigger] base58_text(b) != text by {
        base58_text_form(b);
    }
}

} // verus!
