use vstd::prelude::*;
use vstd::arithmetic::power::pow;
use vstd::arithmetic::div_mod::lemma_div_denominator;
use vstd::arithmetic::power::{lemma_pow0, lemma_pow_positive, lemma_pow1};
use vstd::arithmetic::power::lemma_pow_adds;

verus! {

/// Number of seconds in one time step.
pub const STEP_SECONDS: u64 = 30;

/// Number of characters in a Steam Guard code.
pub const CODE_LENGTH: usize = 5;

/// Number of symbols in the code alphabet.
pub const ALPHABET_SIZE: u32 = 26;

/// The code alphabet `23456789BCDFGHJKMNPQRTVWXY`, in the order Steam's client uses.
/// Any change here silently breaks interoperability.
pub open spec fn alphabet() -> Seq<char> {
    seq![
        '2', '3', '4', '5', '6', '7', '8', '9', 'B', 'C', 'D', 'F', 'G',
        'H', 'J', 'K', 'M', 'N', 'P', 'Q', 'R', 'T', 'V', 'W', 'X', 'Y',
    ]
}

/// The time counter for a Unix timestamp: the number of whole steps since the epoch.
pub open spec fn time_counter(timestamp: u64) -> u64 {
    timestamp / STEP_SECONDS
}

/// The 8-byte big-endian encoding of a counter.
pub open spec fn counter_message(counter: u64) -> Seq<u8> {
    Seq::new(8, |i: int| ((counter as int / pow(256, (7 - i) as nat)) % 256) as u8)
}

/// Dynamic truncation of a 20-byte digest: the low nibble of the last byte picks an offset,
/// the four bytes from there are read big-endian, and the top bit is cleared.
pub open spec fn truncate_spec(digest: Seq<u8>) -> u32 {
    let o = (digest[19] % 16) as int;
    ((digest[o] % 128) as int * 0x1000000 + digest[o + 1] as int * 0x10000
        + digest[o + 2] as int * 0x100 + digest[o + 3] as int) as u32
}

/// The index into the alphabet of the `i`-th code character for the truncated value `v`.
pub open spec fn symbol_index(v: u32, i: nat) -> int {
    (v as int / pow(26, i)) % 26
}

/// The Steam Guard code for a truncated value: base-26 digits, least significant first,
/// each mapped through the alphabet.
pub open spec fn encode_spec(v: u32) -> Seq<char> {
    Seq::new(CODE_LENGTH as nat, |i: int| alphabet()[symbol_index(v, i as nat)])
}

/// Computes the time counter of a Unix timestamp.
pub fn counter_for(timestamp: u64) -> (r: u64)
    ensures
        r == time_counter(timestamp),
{
    timestamp / STEP_SECONDS
}

/// Encodes a counter as 8 big-endian bytes.
pub fn counter_bytes(counter: u64) -> (r: Vec<u8>)
    ensures
        r@ == counter_message(counter),
{
    proof {
        reveal_with_fuel(pow, 8);
    }
    let r: Vec<u8> = vec![
        (counter / 0x100000000000000 % 256) as u8,
        (counter / 0x1000000000000 % 256) as u8,
        (counter / 0x10000000000 % 256) as u8,
        (counter / 0x100000000 % 256) as u8,
        (counter / 0x1000000 % 256) as u8,
        (counter / 0x10000 % 256) as u8,
        (counter / 0x100 % 256) as u8,
        (counter % 256) as u8,
    ];
    assert(r@ =~= counter_message(counter));
    r
}

/// Dynamic truncation of a 20-byte digest into a 31-bit value.
pub fn truncate_digest(digest: &[u8]) -> (r: u32)
    requires
        digest@.len() == 20,
    ensures
        r == truncate_spec(digest@),
        r < 0x80000000,
{
    let o: usize = (digest[19] % 16) as usize;
    let b0: u32 = (digest[o] % 128) as u32;
    let b1: u32 = digest[o + 1] as u32;
    let b2: u32 = digest[o + 2] as u32;
    let b3: u32 = digest[o + 3] as u32;
    b0 * 0x1000000 + b1 * 0x10000 + b2 * 0x100 + b3
}

/// The alphabet as a table.
fn alphabet_table() -> (r: [char; 26])
    ensures
        r@ == alphabet(),
{
    let r: [char; 26] = [
        '2', '3', '4', '5', '6', '7', '8', '9', 'B', 'C', 'D', 'F', 'G',
        'H', 'J', 'K', 'M', 'N', 'P', 'Q', 'R', 'T', 'V', 'W', 'X', 'Y',
    ];
    assert(r@ =~= alphabet());
    r
}

/// Maps a truncated value to the characters of its Steam Guard code.
pub fn encode_code(value: u32) -> (r: Vec<char>)
    ensures
        r@ == encode_spec(value),
{
    let table = alphabet_table();
    let mut rest: u32 = value;
    let mut r: Vec<char> = Vec::new();
    let mut i: usize = 0;
    proof {
        lemma_pow0(26);
    }
    while i < CODE_LENGTH
        invariant
            i <= CODE_LENGTH,
            table@ == alphabet(),
            rest as int == value as int / pow(26, i as nat),
            r@.len() == i,
            forall|j: int| 0 <= j < i ==> r@[j] == alphabet()[symbol_index(value, j as nat)],
        decreases CODE_LENGTH - i,
    {
        let k: usize = (rest % ALPHABET_SIZE) as usize;
        r.push(table[k]);
        proof {
            lemma_pow_positive(26, i as nat);
            lemma_div_denominator(value as int, pow(26, i as nat), 26);
            lemma_pow1(26);
            lemma_pow_adds(26, i as nat, 1);
        }
        rest = rest / ALPHABET_SIZE;
        i = i + 1;
    }
    assert(r@ =~= encode_spec(value));
    r
}

} // verus!
