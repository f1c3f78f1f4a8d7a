use mandelcloud::decimal::decimal_string;
use mandelcloud::http::{
    bad_request, http_error, not_found, point_request, route, HttpError, ParameterError, Route,
    BAD_REQUEST, NOT_FOUND,
};
use mandelcloud::render::{gradient_pixels, RenderingEngine};
use mandelcloud::text::{parse_u32, parse_u64, same_text};
use mandelcloud::types::{
    ComputePointRequest, Error, ErrorResponse, ErrorType, SerComplex, SerFloat,
};

fn sender_error(status_code: i64, code: &str, message: &str, request_id: &str) -> HttpError {
    HttpError {
        status_code,
        response: ErrorResponse {
            error: Error {
                error_type: ErrorType::Sender,
                code: Some(code.to_string()),
                message: Some(message.to_string()),
            },
            request_id: request_id.to_string(),
        },
    }
}

#[test]
fn same_text_compares_whole_texts() {
    assert!(same_text("", ""));
    assert!(same_text("/point", "/point"));
    assert!(!same_text("/point", "/points"));
    assert!(!same_text("/point", "/poinT"));
    assert!(same_text("é", "é"));
    assert!(!same_text("é", "e"));
}

#[test]
fn parse_u64_reads_decimal_numbers() {
    assert_eq!(parse_u64("0"), Some(0));
    assert_eq!(parse_u64("53"), Some(53));
    assert_eq!(parse_u64("+53"), Some(53));
    assert_eq!(parse_u64("007"), Some(7));
    assert_eq!(parse_u64("18446744073709551615"), Some(u64::MAX));
    assert_eq!(parse_u64("18446744073709551616"), None);
    assert_eq!(parse_u64("99999999999999999999999"), None);
    assert_eq!(parse_u64(""), None);
    assert_eq!(parse_u64("+"), None);
    assert_eq!(parse_u64("-1"), None);
    assert_eq!(parse_u64("1 "), None);
    assert_eq!(parse_u64(" 1"), None);
    assert_eq!(parse_u64("1_0"), None);
    assert_eq!(parse_u64("12a"), None);
    assert_eq!(parse_u64("++1"), None);
    assert_eq!(parse_u64("１"), None);
    assert_eq!(parse_u64("\u{130}"), None);
}

#[test]
fn parse_u32_reads_decimal_numbers() {
    assert_eq!(parse_u32("0"), Some(0));
    assert_eq!(parse_u32("1000"), Some(1000));
    assert_eq!(parse_u32("4294967295"), Some(u32::MAX));
    assert_eq!(parse_u32("4294967296"), None);
    assert_eq!(parse_u32("x"), None);
}

#[test]
fn parse_agrees_with_the_standard_library() {
    for text in ["0", "+0", "12", "0012", "4294967295", "4294967296", "", "+", "-", "-0", "1e3", "٣"] {
        assert_eq!(parse_u32(text), text.parse::<u32>().ok());
        assert_eq!(parse_u64(text), text.parse::<u64>().ok());
    }
}

#[test]
fn point_request_takes_the_parameters() {
    let r = point_request(Some("-0.75"), Some("0.1"), Some("1000"), Some("64"), Some("128"));
    assert_eq!(
        r,
        Ok(ComputePointRequest {
            c: SerComplex {
                real: SerFloat { value: "-0.75".to_string(), prec: 64 },
                imag: SerFloat { value: "0.1".to_string(), prec: 128 },
            },
            iterations: 1000,
        })
    );
}

#[test]
fn point_request_names_the_first_missing_parameter() {
    let s = Some("1");
    assert_eq!(point_request(None, None, None, None, None), Err(ParameterError::MissingX));
    assert_eq!(point_request(s, None, None, None, None), Err(ParameterError::MissingY));
    assert_eq!(
        point_request(s, s, None, None, None),
        Err(ParameterError::MissingIterations)
    );
    assert_eq!(point_request(s, s, s, None, None), Err(ParameterError::MissingXPrec));
    assert_eq!(point_request(s, s, s, s, None), Err(ParameterError::MissingYPrec));
    assert_eq!(
        point_request(s, s, Some("many"), None, s),
        Err(ParameterError::MissingXPrec)
    );
}

#[test]
fn point_request_names_the_first_invalid_number() {
    let s = Some("1");
    let bad = Some("1.5");
    assert_eq!(
        point_request(s, s, bad, bad, bad),
        Err(ParameterError::InvalidIterations)
    );
    assert_eq!(point_request(s, s, s, bad, bad), Err(ParameterError::InvalidXPrec));
    assert_eq!(point_request(s, s, s, s, bad), Err(ParameterError::InvalidYPrec));
    assert_eq!(
        point_request(s, s, Some("4294967296"), s, s),
        Err(ParameterError::InvalidIterations)
    );
}

#[test]
fn point_request_does_not_read_the_coordinates() {
    let r = point_request(Some("not a number"), Some(""), Some("1"), Some("2"), Some("3")).unwrap();
    assert_eq!(r.c.real.value, "not a number");
    assert_eq!(r.c.imag.value, "");
}

#[test]
fn parameter_error_messages() {
    assert_eq!(ParameterError::MissingX.message(), "Missing x parameter");
    assert_eq!(ParameterError::MissingY.message(), "Missing y parameter");
    assert_eq!(
        ParameterError::MissingIterations.message(),
        "Missing iterations parameter"
    );
    assert_eq!(ParameterError::MissingXPrec.message(), "Missing x_prec parameter");
    assert_eq!(ParameterError::MissingYPrec.message(), "Missing y_prec parameter");
    assert_eq!(
        ParameterError::InvalidIterations.message(),
        "Invalid iterations parameter"
    );
    assert_eq!(ParameterError::InvalidXPrec.message(), "Invalid x_prec parameter");
    assert_eq!(ParameterError::InvalidYPrec.message(), "Invalid y_prec parameter");
}

#[test]
fn error_replies() {
    assert_eq!((BAD_REQUEST, NOT_FOUND), (400, 404));
    assert_eq!(
        http_error(418, "Teapot", "short and stout", "id-1"),
        sender_error(418, "Teapot", "short and stout", "id-1")
    );
    assert_eq!(
        bad_request("Missing x parameter", "id-2"),
        sender_error(400, "BadRequest", "Missing x parameter", "id-2")
    );
    assert_eq!(not_found("id-3"), sender_error(404, "NotFound", "Not found", "id-3"));
}

#[test]
fn routes() {
    assert_eq!(route(Some("/point"), "id"), Ok(Route::Point));
    assert_eq!(route(Some("/health"), "id"), Ok(Route::Health));
    assert_eq!(route(Some("/"), "id"), Err(not_found("id")));
    assert_eq!(route(Some("/point/"), "id"), Err(not_found("id")));
    assert_eq!(route(None, "id"), Err(bad_request("No path found in request", "id")));
}

#[test]
fn error_type_from_name() {
    assert_eq!(ErrorType::from_name("Sender"), Some(ErrorType::Sender));
    assert_eq!(ErrorType::from_name("Receiver"), Some(ErrorType::Receiver));
    assert_eq!(ErrorType::from_name("sender"), None);
    assert_eq!(ErrorType::from_name(""), None);
}

#[test]
fn rendering_engine_from_value() {
    assert_eq!(RenderingEngine::from_value("local"), Some(RenderingEngine::Local));
    assert_eq!(RenderingEngine::from_value("remote"), Some(RenderingEngine::Remote));
    assert_eq!(RenderingEngine::from_value("Local"), None);
    assert_eq!(RenderingEngine::from_value(""), None);
}

#[test]
fn reading_the_decimal_text_gives_the_number_back() {
    for n in [0u64, 1, 9, 10, 99, 100, 12345, 4294967295, 4294967296, u64::MAX] {
        assert_eq!(parse_u64(decimal_string(n).as_str()), Some(n));
    }
    assert_eq!(parse_u32(decimal_string(4294967295).as_str()), Some(u32::MAX));
    assert_eq!(parse_u32(decimal_string(4294967296).as_str()), None);
}

#[test]
fn gradient_of_a_small_picture() {
    assert_eq!(
        gradient_pixels(2, 2),
        Some(vec![0, 0, 0, 255, 127, 0, 0, 255, 0, 0, 127, 255, 127, 0, 127, 255])
    );
    assert_eq!(
        gradient_pixels(3, 1),
        Some(vec![0, 0, 0, 255, 85, 0, 0, 255, 170, 0, 0, 255])
    );
}

#[test]
fn gradient_of_an_empty_picture() {
    assert_eq!(gradient_pixels(0, 0), Some(vec![]));
    assert_eq!(gradient_pixels(0, 7), Some(vec![]));
    assert_eq!(gradient_pixels(7, 0), Some(vec![]));
}

#[test]
fn gradient_matches_the_pixel_formula() {
    let (width, height) = (17u32, 5u32);
    let pixels = gradient_pixels(width, height).unwrap();
    assert_eq!(pixels.len(), (width * height * 4) as usize);
    for y in 0..height {
        for x in 0..width {
            let i = (y * width + x) as usize * 4;
            assert_eq!(pixels[i], (x * 255 / width) as u8);
            assert_eq!(pixels[i + 1], 0);
            assert_eq!(pixels[i + 2], (y * 255 / height) as u8);
            assert_eq!(pixels[i + 3], 255);
        }
    }
}

#[test]
fn gradient_of_too_large_a_picture_is_refused() {
    assert_eq!(gradient_pixels(65536, 16384), None);
    assert_eq!(gradient_pixels(u32::MAX, u32::MAX), None);
}
