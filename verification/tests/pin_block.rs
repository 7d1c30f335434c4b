use pinblock::block::{build_pin_block_1, build_pin_block_2, calculate_pin_block, PinBlockFiller};
use pinblock::error::CipherError;

#[test]
fn test_pin_block_1() {
    let output = build_pin_block_1("2511".to_string(), PinBlockFiller::F).unwrap();

    assert_eq!(output.as_str(), "042511FFFFFFFFFF")
}

#[test]
fn test_pin_block_2() {
    let output = build_pin_block_2("1234567891234567894".to_string()).unwrap();

    assert_eq!(output.as_str(), "0000789123456789")
}

#[test]
fn test_pin_block() {
    let pan = "4564325134571357".to_string();
    let pin = "2511".to_string();

    let output = calculate_pin_block(pin, pan, PinBlockFiller::F).unwrap();

    assert_eq!(output.as_str(), "042552DAECBA8ECA")
}

#[test]
fn test_pin_block_1_zero_filler() {
    let output = build_pin_block_1("2511".to_string(), PinBlockFiller::Zero).unwrap();

    assert_eq!(output.as_str(), "0425110000000000")
}

#[test]
fn test_pin_block_1_longest_pin() {
    // A 12-digit PIN: the length takes two characters, one filler is left.
    let output = build_pin_block_1("123456789012".to_string(), PinBlockFiller::F).unwrap();

    assert_eq!(output.as_str(), "012123456789012F");
    assert_eq!(output.len(), 16)
}

#[test]
fn test_pin_block_1_is_16_chars() {
    let output = build_pin_block_1("1234".to_string(), PinBlockFiller::Zero).unwrap();

    assert_eq!(output.len(), 16)
}

#[test]
fn test_pin_block_2_shortest_pan() {
    let output = build_pin_block_2("4564325134571357".to_string()).unwrap();

    assert_eq!(output.as_str(), "0000432513457135");
    assert_eq!(output.len(), 16)
}

#[test]
fn test_pin_block_rejects_non_digit_pin() {
    let result = calculate_pin_block(
        "12a4".to_string(),
        "4564325134571357".to_string(),
        PinBlockFiller::F,
    );

    assert!(matches!(result, Err(CipherError::InvalidPin(_))))
}

#[test]
fn test_pin_block_rejects_short_pin() {
    let result = calculate_pin_block(
        "251".to_string(),
        "4564325134571357".to_string(),
        PinBlockFiller::F,
    );

    assert!(matches!(result, Err(CipherError::InvalidPin(_))))
}

#[test]
fn test_pin_block_rejects_long_pin() {
    let result = calculate_pin_block(
        "1234567890123".to_string(),
        "4564325134571357".to_string(),
        PinBlockFiller::F,
    );

    assert!(matches!(result, Err(CipherError::InvalidPin(_))))
}

#[test]
fn test_pin_block_rejects_non_digit_pan() {
    let result = calculate_pin_block(
        "2511".to_string(),
        "456432513457135x".to_string(),
        PinBlockFiller::F,
    );

    assert!(matches!(result, Err(CipherError::IncorrectPan(_))))
}

#[test]
fn test_pin_block_rejects_pan_of_15_digits() {
    let result = calculate_pin_block(
        "2511".to_string(),
        "456432513457135".to_string(),
        PinBlockFiller::F,
    );

    assert!(matches!(result, Err(CipherError::IncorrectPan(_))))
}

#[test]
fn test_pin_block_rejects_pan_of_20_digits() {
    let result = calculate_pin_block(
        "2511".to_string(),
        "45643251345713574564".to_string(),
        PinBlockFiller::F,
    );

    assert!(matches!(result, Err(CipherError::IncorrectPan(_))))
}

#[test]
fn test_pin_block_deterministic() {
    let first = calculate_pin_block(
        "2511".to_string(),
        "4564325134571357".to_string(),
        PinBlockFiller::F,
    )
    .unwrap();
    let second = calculate_pin_block(
        "2511".to_string(),
        "4564325134571357".to_string(),
        PinBlockFiller::F,
    )
    .unwrap();

    assert_eq!(first, second)
}

#[test]
fn test_pin_block_filler_changes_result() {
    let with_f = calculate_pin_block(
        "2511".to_string(),
        "4564325134571357".to_string(),
        PinBlockFiller::F,
    )
    .unwrap();
    let with_zero = calculate_pin_block(
        "2511".to_string(),
        "4564325134571357".to_string(),
        PinBlockFiller::Zero,
    )
    .unwrap();

    assert_ne!(with_f, with_zero)
}

#[test]
fn test_pin_block_longest_pan() {
    // A 19-digit PAN with a 4-digit PIN, both fillers: block 2 drops the
    // check digit and keeps the 12 digits before it.
    let output = calculate_pin_block(
        "2511".to_string(),
        "1234567891234567894".to_string(),
        PinBlockFiller::Zero,
    )
    .unwrap();

    // Block 1 is 0425110000000000, block 2 is 0000789123456789.
    assert_eq!(output.as_str(), "0425699123456789")
}
