use vstd::prelude::*;
use vstd::arithmetic::power::{lemma_pow0, lemma_pow_positive};
use crate::base32::{
    all_digits, decode_spec, digit_value, digit_values, fold_case, lemma_strip_padding,
    same_ignoring_case, strip_padding,
};
use crate::code::{alphabet, counter_message, encode_spec, symbol_index, time_counter};
use crate::generator::{generate_spec, GenerationError};

verus! {

/// Two timestamps in the same 30-second window give the same result for any secret.
pub proof fn lemma_same_window_same_code(secret: Seq<char>, t1: u64, t2: u64)
    requires
        t1 / 30 == t2 / 30,
    ensures
        generate_spec(secret, Some(t1)) == generate_spec(secret, Some(t2)),
{
    assert(time_counter(t1) == time_counter(t2));
}

/// For a timestamp `t` at the start of a window, `t + 29` gives the same result, while
/// `t + 30` lies in the next window, whose counter message differs.
pub proof fn lemma_window_boundary(secret: Seq<char>, t: u64)
    requires
        t % 30 == 0,
        t <= u64::MAX - 30,
    ensures
        generate_spec(secret, Some(t)) == generate_spec(secret, Some((t + 29) as u64)),
        time_counter((t + 30) as u64) == time_counter(t) + 1,
        counter_message(time_counter((t + 30) as u64)) != counter_message(time_counter(t)),
{
    lemma_same_window_same_code(secret, t, (t + 29) as u64);
    let c = time_counter(t);
    let d = time_counter((t + 30) as u64);
    assert(d == c + 1);
    lemma_pow0(256);
    assert(counter_message(d)[7] != counter_message(c)[7]);
}

/// Every code is 5 characters long, each from the alphabet.
pub proof fn lemma_code_in_alphabet(v: u32)
    ensures
        encode_spec(v).len() == 5,
        forall|i: int| 0 <= i < 5 ==> alphabet().contains(#[trigger] encode_spec(v)[i]),
{
    assert forall|i: int| 0 <= i < 5 implies alphabet().contains(#[trigger] encode_spec(v)[i]) by {
        lemma_pow_positive(26, i as nat);
        let k = symbol_index(v, i as nat);
        assert(0 <= k < 26);
        assert(alphabet()[k] == encode_spec(v)[i]);
    }
}

/// Every generated code is 5 characters long, each from the alphabet.
pub proof fn lemma_generated_code_in_alphabet(secret: Seq<char>, now: Option<u64>)
    ensures
        generate_spec(secret, now) matches Ok(code) ==> code.len() == 5 && forall|i: int|
            0 <= i < 5 ==> alphabet().contains(#[trigger] code[i]),
{
    if let Ok(code) = generate_spec(secret, now) {
        let v = choose|v: u32| encode_spec(v) == code;
        lemma_code_in_alphabet(v);
    }
}

/// A secret holding a character that is neither a Base32 character nor padding is rejected.
pub proof fn lemma_invalid_character_rejected(secret: Seq<char>, i: int, now: Option<u64>)
    requires
        0 <= i < secret.len(),
        digit_value(secret[i]) is None,
        secret[i] != '=',
    ensures
        generate_spec(secret, now) == Err::<Seq<char>, GenerationError>(
            GenerationError::InvalidSecret,
        ),
{
    lemma_strip_padding(secret);
    let body = strip_padding(secret);
    assert(i < body.len());
    assert(body[i] == secret[i]);
    assert(!all_digits(body));
}

/// The empty secret is rejected.
pub proof fn lemma_empty_secret_rejected(now: Option<u64>)
    ensures
        generate_spec(Seq::empty(), now) == Err::<Seq<char>, GenerationError>(
            GenerationError::InvalidSecret,
        ),
{
    assert(strip_padding(Seq::<char>::empty()) == Seq::<char>::empty());
}

proof fn lemma_fold_case_digit(a: char, b: char)
    requires
        fold_case(a) == fold_case(b),
    ensures
        digit_value(a) == digit_value(b),
        a == '=' <==> b == '=',
{
}

/// Secrets that differ only in the case of their letters give the same result.
pub proof fn lemma_case_insensitive(a: Seq<char>, b: Seq<char>, now: Option<u64>)
    requires
        same_ignoring_case(a, b),
    ensures
        decode_spec(a) == decode_spec(b),
        generate_spec(a, now) == generate_spec(b, now),
{
    assert forall|i: int| 0 <= i < a.len() implies (digit_value(#[trigger] a[i]) == digit_value(
        b[i],
    ) && (a[i] == '=' <==> b[i] == '=')) by {
        lemma_fold_case_digit(a[i], b[i]);
    }
    lemma_strip_padding(a);
    lemma_strip_padding(b);
    let la = strip_padding(a).len();
    let lb = strip_padding(b).len();
    if la < lb {
        assert(b[lb - 1] != '=');
        assert(a[lb - 1] == '=');
    }
    if lb < la {
        assert(a[la - 1] != '=');
        assert(b[la - 1] == '=');
    }
    assert(la == lb);
    let ba = strip_padding(a);
    let bb = strip_padding(b);
    assert forall|i: int| 0 <= i < ba.len() implies digit_value(#[trigger] ba[i]) == digit_value(
        bb[i],
    ) by {
        assert(ba[i] == a[i]);
        assert(bb[i] == b[i]);
    }
    if all_digits(ba) {
        assert forall|i: int| 0 <= i < bb.len() implies (#[trigger] digit_value(bb[i])) is Some by {
            assert(digit_value(ba[i]) == digit_value(bb[i]));
        }
        assert(digit_values(ba) =~= digit_values(bb));
    } else {
        let i = choose|i: int| 0 <= i < ba.len() && !((#[trigger] digit_value(ba[i])) is Some);
        assert(digit_value(ba[i]) == digit_value(bb[i]));
        assert(!all_digits(bb));
    }
}

} // verus!
