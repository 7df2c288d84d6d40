use steamguard_totp::base32::decode;
use steamguard_totp::code::{counter_bytes, counter_for, encode_code, truncate_digest};
use steamguard_totp::generator::{code_from_digest, generate, generate_at, GenerationError};

// RFC 4226 / RFC 6238 test secret "12345678901234567890", Base32 encoded.
const RFC_SECRET: &str = "GEZDGNBVGY3TQOJQGEZDGNBVGY3TQOJQ";
const ALPHABET: &str = "23456789BCDFGHJKMNPQRTVWXY";

fn hex(s: &str) -> Vec<u8> {
    (0..s.len() / 2).map(|i| u8::from_str_radix(&s[2 * i..2 * i + 2], 16).unwrap()).collect()
}

#[test]
fn known_vector_rfc_counter_one() {
    // Counter 1 truncates to 0x41397eea = 1094287082 (RFC 4226, appendix D).
    assert_eq!(generate_at(RFC_SECRET, 59).unwrap(), "PV9M4");
    assert_eq!(generate_at(RFC_SECRET, 30).unwrap(), "PV9M4");
}

#[test]
fn known_vector_rfc_counter_zero() {
    assert_eq!(generate_at(RFC_SECRET, 0).unwrap(), "GG5F5");
}

#[test]
fn known_vectors_rfc6238_times() {
    assert_eq!(generate_at(RFC_SECRET, 1111111109).unwrap(), "PY4YB");
    assert_eq!(generate_at(RFC_SECRET, 1234567890).unwrap(), "VHHQY");
    assert_eq!(generate_at(RFC_SECRET, 2000000000).unwrap(), "9N776");
}

#[test]
fn known_vector_steam_style_secret() {
    // The secret "V59i4SUqNiuYDrssYyMz62RSI9k=" (Base64) re-encoded in Base32.
    assert_eq!(generate_at("K6PWFYJFFI3CXGAOXMWGGIZT5NSFEI6Z", 1634603498).unwrap(), "V2N2V");
}

#[test]
fn same_window_gives_same_code() {
    let a = generate_at(RFC_SECRET, 1234567890).unwrap();
    let b = generate_at(RFC_SECRET, 1234567890).unwrap();
    assert_eq!(a, b);
    let start = 1234567890 / 30 * 30;
    assert_eq!(generate_at(RFC_SECRET, start).unwrap(), generate_at(RFC_SECRET, start + 29).unwrap());
}

#[test]
fn window_boundary_changes_counter_and_code() {
    let t = 1234567890 / 30 * 30;
    assert_eq!(counter_for(t + 30), counter_for(t) + 1);
    assert_ne!(counter_bytes(counter_for(t)), counter_bytes(counter_for(t + 30)));
    assert_ne!(generate_at(RFC_SECRET, t).unwrap(), generate_at(RFC_SECRET, t + 30).unwrap());
}

#[test]
fn codes_use_the_alphabet_only() {
    for t in [0u64, 29, 30, 59, 1111111109, 1234567890, 2000000000, u64::MAX] {
        let code = generate_at(RFC_SECRET, t).unwrap();
        assert_eq!(code.chars().count(), 5);
        assert!(code.chars().all(|c| ALPHABET.contains(c)));
    }
}

#[test]
fn empty_secret_is_invalid() {
    assert_eq!(generate_at("", 59), Err(GenerationError::InvalidSecret));
}

#[test]
fn malformed_secret_is_invalid() {
    assert_eq!(generate_at("not-valid-base32!", 59), Err(GenerationError::InvalidSecret));
    assert_eq!(generate_at("GEZDGNB1", 59), Err(GenerationError::InvalidSecret));
    assert_eq!(generate_at("GEZD GNBV", 59), Err(GenerationError::InvalidSecret));
    assert_eq!(generate_at("GEZDGNBVé", 59), Err(GenerationError::InvalidSecret));
}

#[test]
fn secret_too_short_for_a_byte_is_invalid() {
    assert_eq!(generate_at("A", 59), Err(GenerationError::InvalidSecret));
    assert_eq!(generate_at("========", 59), Err(GenerationError::InvalidSecret));
}

#[test]
fn missing_clock_is_clock_error() {
    assert_eq!(generate(RFC_SECRET, None), Err(GenerationError::ClockError));
}

#[test]
fn bad_secret_is_reported_before_missing_clock() {
    assert_eq!(generate("", None), Err(GenerationError::InvalidSecret));
}

#[test]
fn generate_with_time_matches_generate_at() {
    assert_eq!(generate(RFC_SECRET, Some(59)).unwrap(), "PV9M4");
}

#[test]
fn lowercase_secret_gives_same_code() {
    let lower = RFC_SECRET.to_lowercase();
    assert_eq!(generate_at(&lower, 59).unwrap(), "PV9M4");
    assert_eq!(generate_at("gezdGNBVgy3tqojqGEZDGNBVGY3TQOJQ", 59).unwrap(), "PV9M4");
}

#[test]
fn padding_is_ignored() {
    assert_eq!(generate_at("GEZDGNBVGY3TQOJQGEZDGNBVGY3TQOJQ====", 59).unwrap(), "PV9M4");
    assert_eq!(decode("MY======").unwrap(), b"f".to_vec());
}

#[test]
fn padding_inside_the_text_is_invalid() {
    assert_eq!(decode("MY=A"), None);
}

#[test]
fn decode_rfc4648_vectors() {
    assert_eq!(decode("").unwrap(), Vec::<u8>::new());
    assert_eq!(decode("MZXQ").unwrap(), b"fo".to_vec());
    assert_eq!(decode("MZXW6===").unwrap(), b"foo".to_vec());
    assert_eq!(decode("MZXW6YQ=").unwrap(), b"foob".to_vec());
    assert_eq!(decode("MZXW6YTB").unwrap(), b"fooba".to_vec());
    assert_eq!(decode("MZXW6YTBOI======").unwrap(), b"foobar".to_vec());
    assert_eq!(decode("mzxw6ytboi").unwrap(), b"foobar".to_vec());
    assert_eq!(decode(RFC_SECRET).unwrap(), b"12345678901234567890".to_vec());
}

#[test]
fn counter_is_big_endian() {
    assert_eq!(counter_for(59), 1);
    assert_eq!(counter_for(1234567890), 41152263);
    assert_eq!(counter_bytes(0x0102030405060708), vec![1, 2, 3, 4, 5, 6, 7, 8]);
    assert_eq!(counter_bytes(1), vec![0, 0, 0, 0, 0, 0, 0, 1]);
}

#[test]
fn truncation_matches_rfc4226() {
    assert_eq!(truncate_digest(&hex("cc93cf18508d94934c64b65d8ba7667fb7cde4b0")), 1284755224);
    assert_eq!(truncate_digest(&hex("75a48a19d4cbe100644e8ac1397eea747a2d33ab")), 1094287082);
}

#[test]
fn truncation_clears_top_bit() {
    let mut d = vec![0xffu8; 20];
    d[19] = 0xf0;
    assert_eq!(truncate_digest(&d), 0x7fffffff);
}

#[test]
fn encoding_is_base26_least_significant_first() {
    assert_eq!(encode_code(0).into_iter().collect::<String>(), "22222");
    assert_eq!(encode_code(1).into_iter().collect::<String>(), "32222");
    assert_eq!(encode_code(26).into_iter().collect::<String>(), "23222");
    assert_eq!(encode_code(25).into_iter().collect::<String>(), "Y2222");
    assert_eq!(encode_code(1094287082).into_iter().collect::<String>(), "PV9M4");
    assert_eq!(encode_code(0x7fffffff).into_iter().collect::<String>(), "WXPBQ");
}

#[test]
fn code_from_rfc_digest() {
    assert_eq!(code_from_digest(&hex("75a48a19d4cbe100644e8ac1397eea747a2d33ab")), "PV9M4");
    assert_eq!(code_from_digest(&hex("cc93cf18508d94934c64b65d8ba7667fb7cde4b0")), "GG5F5");
}
