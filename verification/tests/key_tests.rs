use mandelcloud::decimal::decimal_string;
use mandelcloud::key::{canonical_string, derive_key};
use mandelcloud::types::{ComputePointRequest, ErrorType, S3Config, SerComplex, SerFloat};

fn request(x: &str, y: &str, x_prec: u64, y_prec: u64, iterations: u32) -> ComputePointRequest {
    ComputePointRequest {
        c: SerComplex {
            real: SerFloat { value: x.to_string(), prec: x_prec },
            imag: SerFloat { value: y.to_string(), prec: y_prec },
        },
        iterations,
    }
}

fn config(prefix: &str) -> S3Config {
    S3Config::new("bucket".to_string(), prefix.to_string())
}

#[test]
fn decimal_string_of_small_and_large_numbers() {
    assert_eq!(decimal_string(0), "0");
    assert_eq!(decimal_string(7), "7");
    assert_eq!(decimal_string(10), "10");
    assert_eq!(decimal_string(1000), "1000");
    assert_eq!(decimal_string(4294967295), "4294967295");
    assert_eq!(decimal_string(u64::MAX), "18446744073709551615");
}

#[test]
fn canonical_text_lists_fields_in_order() {
    let r = request("-0.75", "0.1", 64, 128, 1000);
    assert_eq!(canonical_string(&r), "x=-0.75,y=0.1,x_prec=64,y_prec=128,iterations=1000");
}

#[test]
fn canonical_text_of_zero_budget() {
    let r = request("0", "0", 1, 1, 0);
    assert_eq!(canonical_string(&r), "x=0,y=0,x_prec=1,y_prec=1,iterations=0");
}

#[test]
fn key_is_prefix_and_128_hex_digits() {
    let key = derive_key(&config("points/"), &request("0", "0", 53, 53, 10));
    assert_eq!(key.len(), 7 + 128);
    assert!(key.starts_with("points/"));
    assert!(key[7..].chars().all(|ch| ch.is_ascii_digit() || ('a'..='f').contains(&ch)));
}

#[test]
fn key_is_the_sha3_512_digest_in_hex() {
    let key = derive_key(&config(""), &request("-0.75", "0.1", 64, 128, 1000));
    assert_eq!(
        key,
        "a5a66bf2c0cef5ccb30f4fb36b4ad6dcabbbd560204394ccc5e7856af0dd512c3a8969442df43ae0454ac03f33cbe3dacd924a519ccf4c15f454e5c3a5642177"
    );
    let key = derive_key(&config("p/"), &request("0", "0", 53, 53, 10));
    assert_eq!(
        key,
        "p/3fae968609137855a9c8662680518e90cbb0c47aaa167b6b0d50a979a10cf027b01a48aa787164a9df021880f0fbb997d7c956d9ccd0121b7b83ffa67f487b90"
    );
}

#[test]
fn key_is_the_same_for_the_same_request() {
    let a = derive_key(&config("p/"), &request("0.25", "-0.5", 100, 200, 50));
    let b = derive_key(&config("p/"), &request("0.25", "-0.5", 100, 200, 50));
    assert_eq!(a, b);
}

#[test]
fn key_differs_when_one_field_differs() {
    let base = request("0.25", "-0.5", 100, 200, 50);
    let others = vec![
        request("0.26", "-0.5", 100, 200, 50),
        request("0.25", "-0.6", 100, 200, 50),
        request("0.25", "-0.5", 101, 200, 50),
        request("0.25", "-0.5", 100, 201, 50),
        request("0.25", "-0.5", 100, 200, 51),
        request("-0.5", "0.25", 100, 200, 50),
        request("0.25", "-0.5", 200, 100, 50),
    ];
    let key = derive_key(&config("p/"), &base);
    for other in others.iter() {
        assert_ne!(canonical_string(&base), canonical_string(other));
        assert_ne!(key, derive_key(&config("p/"), other));
    }
}

#[test]
fn key_goes_by_the_text_of_the_coordinates() {
    let a = derive_key(&config(""), &request("1.0", "0", 53, 53, 10));
    let b = derive_key(&config(""), &request("1.00", "0", 53, 53, 10));
    assert_ne!(a, b);
}

#[test]
fn float_and_complex_text() {
    let re = SerFloat { value: "1.5".to_string(), prec: 53 };
    let im = SerFloat { value: "-2".to_string(), prec: 64 };
    assert_eq!(re.text(), "1.5#53");
    let c = SerComplex { real: re, imag: im };
    assert_eq!(c.text(), "(1.5#53, -2#64)");
}

#[test]
fn error_type_names() {
    assert_eq!(ErrorType::Sender.name(), "Sender");
    assert_eq!(ErrorType::Receiver.name(), "Receiver");
}
