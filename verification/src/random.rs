//! Chance, taken from `rand`.

use rand::distributions::Alphanumeric;
use rand::{Rng, RngCore};
use vstd::prelude::*;

verus! {

/// `rand::thread_rng` and `fill_bytes`: as many bytes as asked for. Which bytes
/// they are is left to chance.
#[verifier::external_body]
pub(crate) fn random_bytes(n: usize) -> (r: Vec<u8>)
    ensures
        r@.len() == n,
{
    let mut bytes = vec![0u8; n];
    rand::thread_rng().fill_bytes(&mut bytes);
    bytes
}

/// `rand::thread_rng` and `gen_range`: a number below `n`. Which one it is is
/// left to chance.
#[verifier::external_body]
pub(crate) fn random_below(n: usize) -> (r: usize)
    requires
        n > 0,
    ensures
        r < n,
{
    rand::thread_rng().gen_range(0..n)
}

/// Whether a character is an ASCII letter or digit.
pub open spec fn is_alphanumeric(c: char) -> bool {
    'a' <= c <= 'z' || 'A' <= c <= 'Z' || '0' <= c <= '9'
}

/// Whether a text is made of `n` ASCII letters and digits.
pub open spec fn is_token(s: Seq<char>, n: nat) -> bool {
    s.len() == n && forall|i: int| 0 <= i < n ==> is_alphanumeric(#[trigger] s[i])
}

/// `rand::distributions::Alphanumeric`: `n` letters and digits. Which ones they
/// are is left to chance.
#[verifier::external_body]
pub(crate) fn random_token(n: usize) -> (r: String)
    ensures
        is_token(r@, n as nat),
{
    rand::thread_rng().sample_iter(&Alphanumeric).take(n).map(char::from).collect::<String>()
}

/// The letter or digit of a number below sixty-two.
pub open spec fn token_char(d: int) -> char {
    if d < 10 {
        (48 + d) as char
    } else if d < 36 {
        (97 + (d - 10)) as char
    } else {
        (65 + (d - 36)) as char
    }
}

/// A number written with `n` letters and digits, its lowest places.
pub open spec fn counted_token(k: nat, n: nat) -> Seq<char>
    decreases n,
{
    if n == 0 {
        Seq::empty()
    } else {
        counted_token(k / 62, (n - 1) as nat).push(token_char((k % 62) as int))
    }
}

/// How many numbers can be written with `n` letters and digits.
pub open spec fn token_count(n: nat) -> nat
    decreases n,
{
    if n == 0 {
        1
    } else {
        62 * token_count((n - 1) as nat)
    }
}

/// A written number is made of letters and digits.
pub proof fn counted_token_is_token(k: nat, n: nat)
    ensures
        is_token(counted_token(k, n), n),
    decreases n,
{
    if n > 0 {
        counted_token_is_token(k / 62, (n - 1) as nat);
        assert(is_alphanumeric(token_char((k % 62) as int)));
    }
}

/// Different numbers are written differently, while there is room for them.
pub proof fn counted_tokens_differ(j: nat, k: nat, n: nat)
    requires
        j < token_count(n),
        k < token_count(n),
        counted_token(j, n) == counted_token(k, n),
    ensures
        j == k,
    decreases n,
{
    if n > 0 {
        let m = (n - 1) as nat;
        let a = counted_token(j / 62, m);
        let b = counted_token(k / 62, m);
        let c = (j % 62) as int;
        let d = (k % 62) as int;
        assert(a.push(token_char(c)).last() == b.push(token_char(d)).last());
        assert(c == d);
        assert(a.push(token_char(c)).drop_last() =~= a);
        assert(b.push(token_char(d)).drop_last() =~= b);
        counted_tokens_differ(j / 62, k / 62, m);
    }
}

fn write_token_char(d: u128) -> (r: char)
    requires
        d < 62,
    ensures
        r == token_char(d as int),
{
    let code: u8 = if d < 10 {
        (48 + d) as u8
    } else if d < 36 {
        (97 + (d - 10)) as u8
    } else {
        (65 + (d - 36)) as u8
    };
    code as char
}

/// Writes a number with `n` letters and digits.
pub fn write_token(k: u128, n: usize) -> (r: String)
    ensures
        r@ == counted_token(k as nat, n as nat),
    decreases n,
{
    if n == 0 {
        return String::new();
    }
    let mut s = write_token(k / 62, n - 1);
    s.push(write_token_char(k % 62));
    s
}

} // verus!
