use vstd::prelude::*;

verus! {

broadcast use vstd::string::is_ascii_spec_bytes, vstd::utf8::is_ascii_chars_nat_bound;

/// The value of one Base32 character (RFC 4648 alphabet `A`-`Z`, `2`-`7`), accepting lower
/// case letters as well; `None` for any other character.
pub open spec fn digit_value(c: char) -> Option<u8> {
    if 'A' <= c && c <= 'Z' {
        Some((c as int - 65) as u8)
    } else if 'a' <= c && c <= 'z' {
        Some((c as int - 97) as u8)
    } else if '2' <= c && c <= '7' {
        Some((c as int - 50 + 26) as u8)
    } else {
        None
    }
}

/// The text with every trailing padding character `=` removed.
pub open spec fn strip_padding(s: Seq<char>) -> Seq<char>
    decreases s.len(),
{
    if s.len() > 0 && s.last() == '=' {
        strip_padding(s.drop_last())
    } else {
        s
    }
}

/// A character's code with lower case ASCII letters mapped to upper case.
pub open spec fn fold_case(c: char) -> int {
    if 'a' <= c && c <= 'z' {
        c as int - 32
    } else {
        c as int
    }
}

/// Whether two texts are the same but for the case of ASCII letters.
pub open spec fn same_ignoring_case(a: Seq<char>, b: Seq<char>) -> bool {
    a.len() == b.len() && forall|i: int| 0 <= i < a.len() ==> fold_case(a[i]) == fold_case(b[i])
}

/// Whether every character is a Base32 character.
pub open spec fn all_digits(s: Seq<char>) -> bool {
    forall|i: int| 0 <= i < s.len() ==> (#[trigger] digit_value(s[i])) is Some
}

/// The 5-bit values of a text made of Base32 characters.
pub open spec fn digit_values(s: Seq<char>) -> Seq<u8> {
    Seq::new(s.len(), |i: int| digit_value(s[i])->0)
}

/// The value at position `i`, where positions past the end read as zero bits.
pub open spec fn value_at(v: Seq<u8>, i: int) -> int {
    if 0 <= i < v.len() {
        v[i] as int
    } else {
        0
    }
}

/// Byte `r` (0 to 4) of group `g`: every 8 values of 5 bits make 5 bytes, most significant
/// bits first.
pub open spec fn group_byte(v: Seq<u8>, g: int, r: int) -> u8 {
    let a0 = value_at(v, 8 * g);
    let a1 = value_at(v, 8 * g + 1);
    let a2 = value_at(v, 8 * g + 2);
    let a3 = value_at(v, 8 * g + 3);
    let a4 = value_at(v, 8 * g + 4);
    let a5 = value_at(v, 8 * g + 5);
    let a6 = value_at(v, 8 * g + 6);
    let a7 = value_at(v, 8 * g + 7);
    (if r == 0 {
        a0 * 8 + a1 / 4
    } else if r == 1 {
        (a1 % 4) * 64 + a2 * 2 + a3 / 16
    } else if r == 2 {
        (a3 % 16) * 16 + a4 / 2
    } else if r == 3 {
        (a4 % 2) * 128 + a5 * 4 + a6 / 8
    } else {
        (a6 % 8) * 32 + a7
    }) as u8
}

/// The bytes that a sequence of 5-bit values encodes: every whole byte of the bit string;
/// trailing bits that do not fill a byte are dropped.
pub open spec fn decode_values(v: Seq<u8>) -> Seq<u8> {
    Seq::new(v.len() * 5 / 8, |k: int| group_byte(v, k / 5, k % 5))
}

/// The bytes that a Base32 text decodes to, after its padding is removed; `None` when a
/// character is not a Base32 character.
pub open spec fn decode_spec(s: Seq<char>) -> Option<Seq<u8>> {
    let body = strip_padding(s);
    if all_digits(body) {
        Some(decode_values(digit_values(body)))
    } else {
        None
    }
}

/// Removing the padding keeps a prefix that does not end in `=`, and drops only `=`.
pub proof fn lemma_strip_padding(s: Seq<char>)
    ensures
        strip_padding(s).len() <= s.len(),
        strip_padding(s).len() == 0 || s[strip_padding(s).len() - 1] != '=',
        strip_padding(s) == s.take(strip_padding(s).len() as int),
        forall|i: int| strip_padding(s).len() <= i < s.len() ==> s[i] == '=',
    decreases s.len(),
{
    if s.len() > 0 && s.last() == '=' {
        let t = s.drop_last();
        lemma_strip_padding(t);
        assert(strip_padding(s) =~= s.take(strip_padding(s).len() as int));
        assert forall|i: int| strip_padding(s).len() <= i < s.len() implies s[i] == '=' by {
            if i < t.len() {
                assert(s[i] == t[i]);
            }
        }
    } else {
        assert(s =~= s.take(s.len() as int));
    }
}

proof fn lemma_ascii_byte(c: char, b: u8)
    requires
        (c as nat) < 128,
        b == c as u8,
    ensures
        b as char == c,
{
}

/// The value of one Base32 character given as an ASCII byte.
pub fn digit_of_byte(b: u8) -> (r: Option<u8>)
    ensures
        r == digit_value(b as char),
        r matches Some(d) ==> d < 32,
{
    if 65 <= b && b <= 90 {
        Some(b - 65)
    } else if 97 <= b && b <= 122 {
        Some(b - 97)
    } else if 50 <= b && b <= 55 {
        Some(b - 50 + 26)
    } else {
        None
    }
}

/// Reads position `base + j`, or zero past the end.
fn value_or_zero(v: &Vec<u8>, base: usize, j: usize) -> (r: u32)
    requires
        base < v@.len(),
        forall|i: int| 0 <= i < v@.len() ==> v@[i] < 32,
    ensures
        r == value_at(v@, base + j),
        r < 32,
{
    if j < v.len() - base {
        v[base + j] as u32
    } else {
        0
    }
}

/// Computes byte `r` of group `g`.
fn group_byte_of(v: &Vec<u8>, g: usize, r: usize) -> (b: u8)
    requires
        8 * g < v@.len(),
        r < 5,
        forall|i: int| 0 <= i < v@.len() ==> v@[i] < 32,
    ensures
        b == group_byte(v@, g as int, r as int),
{
    let n: usize = v.len();
    assert(8 * g < n);
    let base: usize = 8 * g;
    let a0 = value_or_zero(v, base, 0);
    let a1 = value_or_zero(v, base, 1);
    let a2 = value_or_zero(v, base, 2);
    let a3 = value_or_zero(v, base, 3);
    let a4 = value_or_zero(v, base, 4);
    let a5 = value_or_zero(v, base, 5);
    let a6 = value_or_zero(v, base, 6);
    let a7 = value_or_zero(v, base, 7);
    let x: u32 = if r == 0 {
        a0 * 8 + a1 / 4
    } else if r == 1 {
        (a1 % 4) * 64 + a2 * 2 + a3 / 16
    } else if r == 2 {
        (a3 % 16) * 16 + a4 / 2
    } else if r == 3 {
        (a4 % 2) * 128 + a5 * 4 + a6 / 8
    } else {
        (a6 % 8) * 32 + a7
    };
    x as u8
}

/// Number of whole bytes in `n` values of 5 bits.
fn decoded_length(n: usize) -> (r: usize)
    ensures
        r == n * 5 / 8,
{
    let r: usize = n / 8 * 5 + (n % 8) * 5 / 8;
    assert(r == n * 5 / 8) by (nonlinear_arith)
        requires
            r == n / 8 * 5 + (n % 8) * 5 / 8,
    ;
    r
}

/// Packs 5-bit values into bytes, most significant bits first, dropping trailing bits that
/// do not fill a byte.
pub fn decode_values_exec(v: &Vec<u8>) -> (r: Vec<u8>)
    requires
        forall|i: int| 0 <= i < v@.len() ==> v@[i] < 32,
    ensures
        r@ == decode_values(v@),
{
    let total = decoded_length(v.len());
    let mut r: Vec<u8> = Vec::new();
    let mut k: usize = 0;
    while k < total
        invariant
            total == v@.len() * 5 / 8,
            k <= total,
            forall|i: int| 0 <= i < v@.len() ==> v@[i] < 32,
            r@ =~= decode_values(v@).take(k as int),
        decreases total - k,
    {
        let g: usize = k / 5;
        assert(8 * g < v@.len()) by (nonlinear_arith)
            requires
                g == k / 5,
                k < v@.len() * 5 / 8,
        ;
        let b = group_byte_of(v, g, k % 5);
        r.push(b);
        k = k + 1;
    }
    r
}

/// Decodes a Base32 text (either case, trailing `=` padding ignored) into bytes; `None` when
/// a character is not a Base32 character.
pub fn decode(s: &str) -> (r: Option<Vec<u8>>)
    ensures
        match r {
            Some(bytes) => decode_spec(s@) == Some(bytes@),
            None => decode_spec(s@) is None,
        },
{
    proof {
        lemma_strip_padding(s@);
    }
    let ghost body_len = strip_padding(s@).len();
    if !s.is_ascii() {
        proof {
            let i = choose|i: int| 0 <= i < s@.len() && !('\0' <= #[trigger] s@[i] <= '\u{7f}');
            assert(i < body_len);
            assert(digit_value(strip_padding(s@)[i]) is None);
        }
        return None;
    }
    let bytes = s.as_bytes();
    assert(bytes@.len() == s@.len());
    assert forall|j: int| 0 <= j < s@.len() implies #[trigger] bytes@[j] as char == s@[j] by {
        lemma_ascii_byte(s@[j], bytes@[j]);
    }
    assert(s@.take(s@.len() as int) =~= s@);
    let mut end: usize = bytes.len();
    while end > 0 && bytes[end - 1] == 61
        invariant
            end <= s@.len(),
            bytes@.len() == s@.len(),
            forall|j: int| 0 <= j < s@.len() ==> #[trigger] bytes@[j] as char == s@[j],
            strip_padding(s@) == strip_padding(s@.take(end as int)),
        decreases end,
    {
        assert(bytes@[end - 1] as char == s@[end - 1]);
        assert(s@.take(end as int).drop_last() =~= s@.take(end - 1));
        end = end - 1;
    }
    let ghost body = s@.take(end as int);
    assert(strip_padding(body) == body);
    let mut values: Vec<u8> = Vec::new();
    let mut i: usize = 0;
    while i < end
        invariant
            i <= end <= s@.len(),
            bytes@.len() == s@.len(),
            forall|j: int| 0 <= j < s@.len() ==> #[trigger] bytes@[j] as char == s@[j],
            body == s@.take(end as int),
            strip_padding(s@) == body,
            values@.len() == i,
            forall|j: int| 0 <= j < i ==> digit_value(body[j]) == Some(#[trigger] values@[j]),
            forall|j: int| 0 <= j < i ==> values@[j] < 32,
        decreases end - i,
    {
        assert(bytes@[i as int] as char == body[i as int]);
        match digit_of_byte(bytes[i]) {
            Some(d) => values.push(d),
            None => {
                return None;
            },
        }
        i = i + 1;
    }
    assert forall|j: int| 0 <= j < body.len() implies (#[trigger] digit_value(body[j])) is Some by {
        assert(digit_value(body[j]) == Some(values@[j]));
    }
    assert(all_digits(body));
    assert(values@ =~= digit_values(body));
    Some(decode_values_exec(&values))
}

} // verus!
