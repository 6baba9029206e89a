use calclib::validator::validate;

#[test]
fn test_validate_with_valid_chars() {
    let valid_chars = vec![
        '0', '1', '2', '3', '4', '5', '6', '7', '8', '9', '+', '-', '*', '/', '(', ')', '.', '^',
        '%', '!', '=', '\u{d7}', '\u{f7}', '\u{2212}',
    ];

    for ch in valid_chars {
        assert!(validate(&ch), "Character '{}' should be valid", ch);
    }
}

#[test]
fn test_validate_with_invalid_chars() {
    // Invalid insert action
    let invalid_chars = vec![
        'a', 'b', 'c', ' ', '@', '#', '$', '&', '_', '[', ']', '{', '}', ';', ':', '"', '\'', '<',
        '>', ',', '?', '\\', '|', '~', '`', 'a', 'b', 'c', 'd', 'e', 'f', 'g', 'h', 'i', 'j', 'k',
        'l', 'm', 'n', 'o', 'p', 'q', 'r', 's', 't', 'u', 'v', 'w', 'x', 'y', 'z', 'A', 'B', 'C',
        'D', 'E', 'F', 'G', 'H', 'I', 'J', 'K', 'L', 'M', 'N', 'O', 'P', 'Q', 'R', 'S', 'T', 'U',
        'V', 'W', 'X', 'Y', 'Z', ' ',
    ];

    for ch in invalid_chars {
        assert!(!validate(&ch), "Character '{}' should be invalid", ch);
    }
}

#[test]
fn test_validate_rejects_whitespace_and_control() {
    for ch in ['\n', '\t', '\r', ' ', '\u{a0}'] {
        assert!(!validate(&ch), "Character '{:?}' should be invalid", ch);
    }
}
