use candadolib::generators::{
    alphabet_char, draw_candidate, fold_roll, fortify, gen_key, gen_passphrase, gen_password,
    gen_token, hex_digit, is_strong, push_hex, roll_word, string_of,
};
use candadolib::{key, passphrase, password, token};

fn words() -> Vec<String> {
    (0..7776).map(|i| format!("w{}", i)).collect()
}

fn meets_rule(text: &str) -> bool {
    let digits = text.chars().filter(|c| c.is_ascii_digit()).count();
    text.chars().any(|c| c.is_ascii_lowercase())
        && text.chars().any(|c| c.is_ascii_uppercase())
        && digits * 5 >= text.chars().count()
}

#[test]
fn test_gen_password() {
    let result = password(4);
    assert_eq!(result.len(), 4);
}

#[test]
fn test_gen_token() {
    let result = token(4);
    assert_eq!(result.len(), 8);
}

#[test]
fn test_gen_key() {
    let result = key(4);
    assert_eq!(result.len(), 4);
}

#[test]
fn test_gen_passhrase() {
    let result = passphrase(4, &words());
    assert_eq!(result.split(" ").collect::<Vec<&str>>().len(), 4);
}

#[test]
fn a_password_meets_the_composition_rule() {
    for length in [3u32, 4, 5, 6, 10, 16, 31, 64] {
        for _ in 0..20 {
            let secret = gen_password(length);
            assert_eq!(secret.chars().count(), length as usize);
            assert!(secret.chars().all(|c| ('!'..='~').contains(&c)));
            assert!(meets_rule(&secret), "{}", secret);
        }
    }
}

#[test]
fn a_password_too_short_for_the_rule_is_still_drawn() {
    assert_eq!(gen_password(0), "");
    for length in [1u32, 2] {
        let secret = gen_password(length);
        assert_eq!(secret.len(), length as usize);
        assert!(secret.chars().all(|c| ('!'..='~').contains(&c)));
    }
}

#[test]
fn the_rule_is_told_exactly() {
    let strong = |text: &str| is_strong(&text.chars().collect());
    assert!(strong("aA1"));
    assert!(strong("aB3de"));
    assert!(!strong("aB3def"));
    assert!(strong("aB3de4"));
    assert!(!strong("ab1"));
    assert!(!strong("AB1"));
    assert!(!strong("aAb"));
    assert!(!strong(""));
    assert!(!strong("a1"));
    assert!(strong("a1B2c3d4e5"));
    assert!(!strong("aBcdefghi1"));
    assert!(strong("aBcdefgh12"));
}

#[test]
fn a_candidate_is_built_to_the_rule() {
    for length in [3usize, 4, 5, 6, 11, 40] {
        let mut candidate: Vec<char> = vec!['~'; length];
        fortify(&mut candidate);
        assert_eq!(candidate.len(), length);
        assert!(candidate[0].is_ascii_lowercase());
        assert!(candidate[1].is_ascii_uppercase());
        let digits = (length + 4) / 5;
        assert!(candidate[2..2 + digits].iter().all(|c| c.is_ascii_digit()));
        assert!(candidate[2 + digits..].iter().all(|c| *c == '~'));
        assert!(is_strong(&candidate));
    }
}

#[test]
fn a_candidate_comes_from_the_alphabet() {
    let candidate = draw_candidate(500);
    assert_eq!(candidate.len(), 500);
    assert!(candidate.iter().all(|c| ('!'..='~').contains(c)));
    assert!(candidate.iter().any(|c| *c != candidate[0]));
    assert_eq!(string_of(&candidate), candidate.iter().collect::<String>());
}

#[test]
fn the_alphabet_is_in_its_order() {
    let expected =
        "abcdefghijklmnopqrstuvwxyzABCDEFGHIJKLMNOPQRSTUVWXYZ0123456789!\"#$%&'()*+,-./:;<=>?@[\\]^_`{|}~";
    let alphabet: String = (0..94).map(alphabet_char).collect();
    assert_eq!(alphabet, expected);
}

#[test]
fn a_token_is_lower_case_hexadecimal() {
    let secret = gen_token(32);
    assert_eq!(secret.len(), 64);
    assert!(secret.chars().all(|c| c.is_ascii_digit() || ('a'..='f').contains(&c)));
    assert_eq!(gen_token(0), "");
    assert_ne!(gen_token(16), gen_token(16));
}

#[test]
fn bytes_are_written_in_hexadecimal() {
    let digits: String = (0..16).map(hex_digit).collect();
    assert_eq!(digits, "0123456789abcdef");
    let mut text = String::from("x");
    push_hex(&mut text, 0);
    push_hex(&mut text, 0x0f);
    push_hex(&mut text, 0xa0);
    push_hex(&mut text, 255);
    assert_eq!(text, "x000fa0ff");
}

#[test]
fn a_key_is_letters_and_digits() {
    let secret = gen_key(64);
    assert_eq!(secret.len(), 64);
    assert!(secret.chars().all(|c| c.is_ascii_alphanumeric()));
    assert_eq!(gen_key(0), "");
    assert_ne!(gen_key(16), gen_key(16));
}

#[test]
fn rolls_fold_to_a_position() {
    assert_eq!(fold_roll(0, 1), 0);
    assert_eq!(fold_roll(0, 6), 5);
    assert_eq!(fold_roll(5, 6), 35);
    assert_eq!(fold_roll(35, 1), 210);
    assert_eq!(fold_roll(1295, 6), 7775);
    // the rolls 2, 4, 1, 6, 3
    let at = fold_roll(fold_roll(fold_roll(fold_roll(fold_roll(0, 2), 4), 1), 6), 3);
    assert_eq!(at, 1 * 1296 + 3 * 216 + 0 * 36 + 5 * 6 + 2);
    for _ in 0..1000 {
        assert!(roll_word() < 7776);
    }
}

#[test]
fn a_passphrase_is_words_of_the_list() {
    let list = words();
    let secret = gen_passphrase(6, &list);
    let chosen: Vec<&str> = secret.split(' ').collect();
    assert_eq!(chosen.len(), 6);
    assert!(chosen.iter().all(|w| list.iter().any(|l| l == w)));
    assert_eq!(gen_passphrase(0, &list), "");
    let one = gen_passphrase(1, &list);
    assert!(!one.contains(' '));
    assert!(list.contains(&one));
    assert_ne!(gen_passphrase(8, &list), gen_passphrase(8, &list));
}
