use ping0::ids::{generate_code, generate_file_id, generate_token, is_valid_code, CODE_LENGTH};

#[test]
fn codes_have_eight_url_safe_characters() {
    for _ in 0..200 {
        let code = generate_code();
        assert_eq!(code.chars().count(), 8);
        assert!(code.chars().all(|c| c.is_ascii_alphanumeric() || c == '_' || c == '-'));
        assert!(is_valid_code(&code));
    }
    assert_eq!(CODE_LENGTH, 8);
}

#[test]
fn codes_differ() {
    let a = generate_code();
    let b = generate_code();
    let c = generate_code();
    assert!(a != b || b != c);
}

#[test]
fn code_shape_is_checked() {
    assert!(is_valid_code("abcdEFG1"));
    assert!(is_valid_code("a_b-c_d-"));
    assert!(!is_valid_code("abcdefg"));
    assert!(!is_valid_code("abcdefghi"));
    assert!(!is_valid_code("abcd/fgh"));
    assert!(!is_valid_code("abcd fgh"));
    assert!(!is_valid_code("abcdéfgh"));
    assert!(!is_valid_code(""));
}

#[test]
fn file_ids_are_hyphenated() {
    for _ in 0..50 {
        let id = generate_file_id();
        let chars: Vec<char> = id.chars().collect();
        assert_eq!(chars.len(), 36);
        for (i, c) in chars.iter().enumerate() {
            if i == 8 || i == 13 || i == 18 || i == 23 {
                assert_eq!(*c, '-');
            } else {
                assert!(c.is_ascii_digit() || ('a'..='f').contains(c), "{:?} in {}", c, id);
            }
        }
    }
    assert_ne!(generate_file_id(), generate_file_id());
}

#[test]
fn tokens_have_the_length_asked_for() {
    for len in [0usize, 1, 16, 48, 100] {
        let t = generate_token(len);
        assert_eq!(t.chars().count(), len);
        assert!(t.chars().all(|c| c.is_ascii_alphanumeric()));
    }
    assert_ne!(generate_token(48), generate_token(48));
}
