use buscador_duplicados::render::bytes_a_formato_humano;
use buscador_duplicados::render::digest_to_hex;
use buscador_duplicados::render::human_size_u64;
use buscador_duplicados::render::u64_to_decimal;

#[test]
fn format_plain_bytes() {
    assert_eq!(bytes_a_formato_humano(999), "999 bytes");
    assert_eq!(bytes_a_formato_humano(0), "0 bytes");
    assert_eq!(bytes_a_formato_humano(1), "1 bytes");
}

#[test]
fn format_kilobytes() {
    assert_eq!(bytes_a_formato_humano(1500), "1.50 KB");
    assert_eq!(bytes_a_formato_humano(1000), "1.00 KB");
    assert_eq!(bytes_a_formato_humano(999999), "1000.00 KB");
}

#[test]
fn format_megabytes() {
    assert_eq!(bytes_a_formato_humano(2_500_000), "2.50 MB");
    assert_eq!(bytes_a_formato_humano(1_000_000), "1.00 MB");
}

#[test]
fn format_gigabytes() {
    assert_eq!(bytes_a_formato_humano(3_100_000_000), "3.10 GB");
    assert_eq!(bytes_a_formato_humano(1_000_000_000), "1.00 GB");
}

#[test]
fn format_negative_bytes() {
    assert_eq!(bytes_a_formato_humano(-5), "-5 bytes");
}

#[test]
fn format_unsigned_matches_signed() {
    assert_eq!(human_size_u64(2_500_000), "2.50 MB");
    assert_eq!(human_size_u64(999), "999 bytes");
}

#[test]
fn decimal_rendering() {
    assert_eq!(u64_to_decimal(0), "0");
    assert_eq!(u64_to_decimal(7), "7");
    assert_eq!(u64_to_decimal(1234567890123456789), "1234567890123456789");
}

#[test]
fn hex_rendering_is_padded_and_lowercase() {
    assert_eq!(digest_to_hex(0), "00000000000000000000000000000000");
    assert_eq!(digest_to_hex(0xdeadbeef), "000000000000000000000000deadbeef");
    assert_eq!(
        digest_to_hex(0xd41d8cd98f00b204e9800998ecf8427e),
        "d41d8cd98f00b204e9800998ecf8427e"
    );
}
