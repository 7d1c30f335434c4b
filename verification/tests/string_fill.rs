use pinblock::error::CipherError;
use pinblock::strutil::fill_left_with_char;

#[test]
fn test_fill_left() {
    let output = fill_left_with_char("hola".to_string(), '5', 10).unwrap();

    assert_eq!(output, "555555hola".to_string())
}

#[test]
fn test_fill_left_equal() {
    let output = fill_left_with_char("hola".to_string(), '5', 4).unwrap();

    assert_eq!(output, "hola".to_string())
}

#[test]
fn test_fill_left_smaller() {
    let output = fill_left_with_char("hola".to_string(), '5', 2);

    assert!(output.is_err())
}

#[test]
fn test_fill_left_reports_processing_error() {
    let output = fill_left_with_char("hola".to_string(), '5', 2);

    assert!(matches!(output, Err(CipherError::ErrorProcessingString(_))))
}

#[test]
fn test_fill_left_keeps_input_as_suffix() {
    let output = fill_left_with_char("abc".to_string(), 'F', 7).unwrap();

    assert_eq!(output.len(), 7);
    assert!(output.ends_with("abc"));
    assert_eq!(output, "FFFFabc".to_string())
}

#[test]
fn test_fill_left_empty_input() {
    let output = fill_left_with_char(String::new(), '0', 5).unwrap();

    assert_eq!(output, "00000".to_string())
}
