//! Random passwords for the container users.
use vstd::prelude::*;

use rand::seq::SliceRandom;

use crate::text::push_char;

verus! {

/// The bytes that passwords are drawn from: upper-case letters, lower-case
/// letters and digits: the alphanumeric characters that the help text
/// of the password prompt promises.
pub open spec fn charset_spec() -> Seq<u8> {
    Seq::new(26, |i: int| (65 + i) as u8) + Seq::new(26, |i: int| (97 + i) as u8) + Seq::new(
        10,
        |i: int| (48 + i) as u8,
    )
}

/// An ASCII letter or digit.
pub open spec fn is_password_char(c: char) -> bool {
    ('A' <= c && c <= 'Z') || ('a' <= c && c <= 'z') || ('0' <= c && c <= '9')
}

/// A password as `generate` makes them: `n` characters of the alphabet.
pub open spec fn is_generated(s: Seq<char>, n: nat) -> bool {
    s.len() == n && forall|i: int| 0 <= i < s.len() ==> is_password_char(#[trigger] s[i])
}

fn push_range(v: &mut Vec<u8>, first: u8, count: u8)
    requires
        first as int + count as int <= 256,
    ensures
        final(v)@ == old(v)@ + Seq::new(count as nat, |i: int| (first + i) as u8),
{
    let ghost start = v@;
    let mut k: u8 = 0;
    while k < count
        invariant
            k <= count,
            first as int + count as int <= 256,
            v@ == start + Seq::new(k as nat, |i: int| (first + i) as u8),
        decreases count - k,
    {
        v.push(first + k);
        k += 1;
        assert(v@ =~= start + Seq::new(k as nat, |i: int| (first + i) as u8));
    }
}

/// The password alphabet.
pub fn charset() -> (r: Vec<u8>)
    ensures
        r@ == charset_spec(),
{
    let mut v: Vec<u8> = Vec::new();
    push_range(&mut v, 65, 26);
    push_range(&mut v, 97, 26);
    push_range(&mut v, 48, 10);
    assert(v@ =~= charset_spec());
    v
}

/// `SliceRandom::choose` with the thread's generator: one element of the
/// non-empty slice, chosen at random.
#[verifier::external_body]
fn choose_byte(set: &[u8]) -> (b: u8)
    requires
        set@.len() > 0,
    ensures
        set@.contains(b),
{
    *set.choose(&mut rand::thread_rng()).unwrap()
}

/// The password spelled by the drawn bytes: one character per byte, in
/// order.
pub fn password_from_draws(draws: &[u8]) -> (r: String)
    ensures
        r@ == draws@.map_values(|b: u8| b as char),
{
    let mut s = String::new();
    let mut k: usize = 0;
    while k < draws.len()
        invariant
            k <= draws@.len(),
            s@ == draws@.take(k as int).map_values(|b: u8| b as char),
        decreases draws.len() - k,
    {
        push_char(&mut s, draws[k] as char);
        assert(draws@.take(k + 1) == draws@.take(k as int).push(draws@[k as int]));
        assert(s@ =~= draws@.take(k + 1).map_values(|b: u8| b as char));
        k += 1;
    }
    assert(draws@.take(draws@.len() as int) == draws@);
    s
}

/// A random password of `length` ASCII letters and digits: `length` bytes
/// drawn from the alphabet, spelled out by `password_from_draws`.
pub fn generate(length: usize) -> (r: String)
    ensures
        is_generated(r@, length as nat),
{
    let set = charset();
    assert(set@.len() > 0);
    let mut draws: Vec<u8> = Vec::new();
    let mut k: usize = 0;
    while k < length
        invariant
            k <= length,
            set@ == charset_spec(),
            draws@.len() == k,
            forall|i: int| 0 <= i < k ==> charset_spec().contains(#[trigger] draws@[i]),
        decreases length - k,
    {
        let b = choose_byte(set.as_slice());
        draws.push(b);
        k += 1;
    }
    let r = password_from_draws(draws.as_slice());
    assert forall|i: int| 0 <= i < r@.len() implies is_password_char(#[trigger] r@[i]) by {
        assert(charset_spec().contains(draws@[i]));
        let j = choose|j: int| 0 <= j < charset_spec().len() && charset_spec()[j] == draws@[i];
        let b = draws@[i];
        assert(r@[i] == (b as char));
        if j < 26 {
            assert(65 <= b <= 90);
        } else if j < 52 {
            assert(97 <= b <= 122);
        } else {
            assert(48 <= b <= 57);
        }
    }
    r
}

/// A random password of twelve characters of the alphabet.
pub fn generate_12() -> (r: String)
    ensures
        is_generated(r@, 12),
{
    generate(12)
}

} // verus!
