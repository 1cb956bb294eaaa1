use rand::distributions::Alphanumeric;
use rand::Rng;
use vstd::prelude::*;
use vstd::string::StringExecFns;

verus! {

/// Number of symbols that a password is drawn from: the printable ASCII
/// characters but the space.
pub const ALPHABET_LEN: u32 = 94;

/// Number of words that five rolls of a die choose among.
pub const WORD_COUNT: usize = 7776;

/// Number of candidates that are drawn and tested before a password is
/// built to the rule instead.
pub const ROUNDS: u32 = 1000000;

pub open spec fn is_lower(c: char) -> bool {
    'a' <= c <= 'z'
}

pub open spec fn is_upper(c: char) -> bool {
    'A' <= c <= 'Z'
}

pub open spec fn is_digit(c: char) -> bool {
    '0' <= c <= '9'
}

pub open spec fn is_alphanumeric(c: char) -> bool {
    is_lower(c) || is_upper(c) || is_digit(c)
}

pub open spec fn is_hex_digit(c: char) -> bool {
    is_digit(c) || 'a' <= c <= 'f'
}

/// The symbols of a password: `!` to `~`.
pub open spec fn in_alphabet(c: char) -> bool {
    '!' <= c <= '~'
}

/// All of `s` satisfies `in_alphabet`.
pub open spec fn all_in_alphabet(s: Seq<char>) -> bool {
    forall|i: int| 0 <= i < s.len() ==> in_alphabet(#[trigger] s[i])
}

/// The symbol at a position of the alphabet: the small letters, the
/// capitals, the digits, then the punctuation in ASCII order.
pub open spec fn alphabet_at(i: int) -> char {
    if i < 26 {
        (97 + i) as u8 as char
    } else if i < 52 {
        (65 + i - 26) as u8 as char
    } else if i < 62 {
        (48 + i - 52) as u8 as char
    } else if i < 77 {
        (33 + i - 62) as u8 as char
    } else if i < 84 {
        (58 + i - 77) as u8 as char
    } else if i < 90 {
        (91 + i - 84) as u8 as char
    } else {
        (123 + i - 90) as u8 as char
    }
}

/// How many digits `s` holds.
pub open spec fn digit_count(s: Seq<char>) -> nat
    decreases s.len(),
{
    if s.len() == 0 {
        0
    } else {
        digit_count(s.drop_last()) + if is_digit(s.last()) {
            1nat
        } else {
            0nat
        }
    }
}

/// The composition rule of a password: a small letter, a capital, and
/// digits for at least a fifth of its length.
pub open spec fn meets_rule(s: Seq<char>) -> bool {
    &&& exists|i: int| 0 <= i < s.len() && is_lower(#[trigger] s[i])
    &&& exists|i: int| 0 <= i < s.len() && is_upper(#[trigger] s[i])
    &&& 5 * digit_count(s) >= s.len()
}

/// The words at `picks`, with a space between each two.
pub open spec fn phrase(words: Seq<String>, picks: Seq<int>) -> Seq<char>
    decreases picks.len(),
{
    if picks.len() == 0 {
        Seq::<char>::empty()
    } else if picks.len() == 1 {
        words[picks[0]]@
    } else {
        phrase(words, picks.drop_last()) + seq![' '] + words[picks.last()]@
    }
}

/// A stretch of digits bounds the digit count from below.
pub proof fn lemma_digit_count_stretch(s: Seq<char>, from: int, to: int)
    requires
        0 <= from <= to <= s.len(),
        forall|k: int| from <= k < to ==> is_digit(#[trigger] s[k]),
    ensures
        digit_count(s) >= to - from,
    decreases s.len(),
{
    if from < to {
        let t = s.drop_last();
        if to == s.len() {
            assert(is_digit(s[to - 1]));
            assert forall|k: int| from <= k < to - 1 implies is_digit(#[trigger] t[k]) by {
                assert(t[k] == s[k]);
            }
            lemma_digit_count_stretch(t, from, to - 1);
        } else {
            assert forall|k: int| from <= k < to implies is_digit(#[trigger] t[k]) by {
                assert(t[k] == s[k]);
            }
            lemma_digit_count_stretch(t, from, to);
        }
    }
}

/// Calls `rand::thread_rng().gen_range` on an inclusive range.
///
/// Trusted: the number lies in the range. It is random.
#[verifier::external_body]
pub(crate) fn random_in(low: u32, high: u32) -> (n: u32)
    requires
        low <= high,
    ensures
        low <= n <= high,
{
    rand::thread_rng().gen_range(low..=high)
}

/// Calls `rand::thread_rng().sample` with `rand::distributions::Alphanumeric`.
///
/// Trusted: the byte is an ASCII letter or digit. It is random.
#[verifier::external_body]
pub(crate) fn random_alphanumeric() -> (b: u8)
    ensures
        is_alphanumeric(b as char),
{
    rand::thread_rng().sample(Alphanumeric)
}

/// Calls `String::push`.
///
/// Trusted: the character is appended.
#[verifier::external_body]
pub(crate) fn push_char(text: &mut String, c: char)
    ensures
        final(text)@ == old(text)@.push(c),
{
    text.push(c)
}

/// The symbol at a position of the alphabet.
pub fn alphabet_char(i: u32) -> (c: char)
    requires
        i < ALPHABET_LEN,
    ensures
        c == alphabet_at(i as int),
        in_alphabet(c),
{
    let code: u32 = if i < 26 {
        97 + i
    } else if i < 52 {
        65 + i - 26
    } else if i < 62 {
        48 + i - 52
    } else if i < 77 {
        33 + i - 62
    } else if i < 84 {
        58 + i - 77
    } else if i < 90 {
        91 + i - 84
    } else {
        123 + i - 90
    };
    code as u8 as char
}

/// The lower-case hexadecimal digit of a value under 16.
pub open spec fn hex_digit_of(value: int) -> char {
    if value < 10 {
        (48 + value) as u8 as char
    } else {
        (87 + value) as u8 as char
    }
}

/// The digit of a value under 16, in lower-case hexadecimal.
pub fn hex_digit(value: u8) -> (c: char)
    requires
        value < 16,
    ensures
        c == hex_digit_of(value as int),
        is_hex_digit(c),
{
    if value < 10 {
        (48 + value) as char
    } else {
        (87 + value) as char
    }
}

/// Appends the two hexadecimal digits of a byte.
pub fn push_hex(text: &mut String, byte: u8)
    ensures
        final(text)@ == old(text)@.push(hex_digit_of(byte as int / 16)).push(
            hex_digit_of(byte as int % 16),
        ),
        is_hex_digit(hex_digit_of(byte as int / 16)),
        is_hex_digit(hex_digit_of(byte as int % 16)),
{
    push_char(text, hex_digit(byte / 16));
    push_char(text, hex_digit(byte % 16));
}

/// Tells whether a candidate meets the composition rule.
pub fn is_strong(candidate: &Vec<char>) -> (strong: bool)
    ensures
        strong == meets_rule(candidate@),
{
    let mut lower: bool = false;
    let mut upper: bool = false;
    let mut digits: usize = 0;
    let mut i: usize = 0;
    while i < candidate.len()
        invariant
            i <= candidate@.len(),
            lower == exists|j: int| 0 <= j < i && is_lower(#[trigger] candidate@[j]),
            upper == exists|j: int| 0 <= j < i && is_upper(#[trigger] candidate@[j]),
            digits == digit_count(candidate@.subrange(0, i as int)),
            digits <= i,
        decreases candidate@.len() - i,
    {
        let c = candidate[i];
        proof {
            assert(candidate@.subrange(0, i + 1).drop_last() == candidate@.subrange(0, i as int));
        }
        if 'a' <= c && c <= 'z' {
            lower = true;
        }
        if 'A' <= c && c <= 'Z' {
            upper = true;
        }
        if '0' <= c && c <= '9' {
            digits += 1;
        }
        i += 1;
    }
    proof {
        assert(candidate@.subrange(0, i as int) == candidate@);
    }
    lower && upper && (digits as u128) * 5 >= (candidate.len() as u128)
}

/// Draws a candidate of the given length from the alphabet.
pub fn draw_candidate(length: u32) -> (candidate: Vec<char>)
    ensures
        candidate@.len() == length,
        all_in_alphabet(candidate@),
{
    let mut candidate: Vec<char> = Vec::new();
    let mut i: u32 = 0;
    while i < length
        invariant
            i <= length,
            candidate@.len() == i,
            all_in_alphabet(candidate@),
        decreases length - i,
    {
        candidate.push(alphabet_char(random_in(0, ALPHABET_LEN - 1)));
        i += 1;
    }
    candidate
}

/// Builds a candidate to the rule: a small letter first, a capital second,
/// then as many digits as a fifth of its length asks for, each drawn at
/// random. The rest stays as it was.
pub fn fortify(candidate: &mut Vec<char>)
    requires
        old(candidate)@.len() >= 3,
        all_in_alphabet(old(candidate)@),
    ensures
        final(candidate)@.len() == old(candidate)@.len(),
        all_in_alphabet(final(candidate)@),
        meets_rule(final(candidate)@),
{
    let len = candidate.len();
    let digits = len / 5 + if len % 5 == 0 {
        0
    } else {
        1
    };
    candidate.set(0, alphabet_char(random_in(0, 25)));
    candidate.set(1, alphabet_char(random_in(26, 51)));
    let mut i: usize = 2;
    while i < 2 + digits
        invariant
            2 <= i <= 2 + digits,
            2 + digits <= len,
            candidate@.len() == len,
            all_in_alphabet(candidate@),
            is_lower(candidate@[0]),
            is_upper(candidate@[1]),
            forall|k: int| 2 <= k < i ==> is_digit(#[trigger] candidate@[k]),
        decreases 2 + digits - i,
    {
        candidate.set(i, alphabet_char(random_in(52, 61)));
        i += 1;
    }
    proof {
        lemma_digit_count_stretch(candidate@, 2, 2 + digits as int);
    }
}

/// The string of the given characters.
pub fn string_of(chars: &Vec<char>) -> (text: String)
    ensures
        text@ == chars@,
{
    let mut text = String::new();
    let mut i: usize = 0;
    while i < chars.len()
        invariant
            i <= chars@.len(),
            text@ == chars@.subrange(0, i as int),
        decreases chars@.len() - i,
    {
        push_char(&mut text, chars[i]);
        proof {
            assert(chars@.subrange(0, i + 1) == chars@.subrange(0, i as int).push(chars@[i as int]));
        }
        i += 1;
    }
    proof {
        assert(chars@.subrange(0, i as int) == chars@);
    }
    text
}

/// Generates a password of the given length from the printable ASCII
/// characters.
///
/// From three characters on it meets the composition rule; a shorter one
/// cannot. Candidates are drawn until one meets the rule; should none of a
/// million do, the last is built to the rule.
pub fn gen_password(length: u32) -> (password: String)
    ensures
        password@.len() == length,
        all_in_alphabet(password@),
        length >= 3 ==> meets_rule(password@),
{
    let mut candidate = draw_candidate(length);
    let mut strong = is_strong(&candidate);
    let mut rounds: u32 = ROUNDS;
    while rounds > 0 && !strong && length >= 3
        invariant
            candidate@.len() == length,
            all_in_alphabet(candidate@),
            strong == meets_rule(candidate@),
        decreases rounds,
    {
        candidate = draw_candidate(length);
        strong = is_strong(&candidate);
        rounds -= 1;
    }
    if !strong && length >= 3 {
        fortify(&mut candidate);
    }
    string_of(&candidate)
}

/// Generates a token: the given number of random bytes, in hexadecimal.
pub fn gen_token(length: u32) -> (token: String)
    ensures
        token@.len() == 2 * length,
        forall|i: int| 0 <= i < token@.len() ==> is_hex_digit(#[trigger] token@[i]),
{
    let mut token = String::new();
    let mut i: u32 = 0;
    while i < length
        invariant
            i <= length,
            token@.len() == 2 * i,
            forall|k: int| 0 <= k < token@.len() ==> is_hex_digit(#[trigger] token@[k]),
        decreases length - i,
    {
        let byte = random_in(0, 255) as u8;
        push_hex(&mut token, byte);
        i += 1;
    }
    token
}

/// Generates a key of the given length from the ASCII letters and digits.
pub fn gen_key(length: u32) -> (key: String)
    ensures
        key@.len() == length,
        forall|i: int| 0 <= i < key@.len() ==> is_alphanumeric(#[trigger] key@[i]),
{
    let mut key = String::new();
    let mut i: u32 = 0;
    while i < length
        invariant
            i <= length,
            key@.len() == i,
            forall|k: int| 0 <= k < key@.len() ==> is_alphanumeric(#[trigger] key@[k]),
        decreases length - i,
    {
        push_char(&mut key, random_alphanumeric() as char);
        i += 1;
    }
    key
}

/// Takes one more roll of a die into the number that the rolls so far
/// have made.
pub fn fold_roll(so_far: u32, roll: u32) -> (folded: u32)
    requires
        so_far < 1296,
        1 <= roll <= 6,
    ensures
        folded == so_far * 6 + roll - 1,
        folded < 6 * (so_far + 1),
{
    so_far * 6 + roll - 1
}

/// Rolls a die five times for the position of a word: the rolls, each
/// from 1 to 6, are folded into one number, the first roll weighing most.
pub fn roll_word() -> (at: usize)
    ensures
        at < WORD_COUNT,
        exists|rolls: Seq<int>|
            {
                &&& rolls.len() == 5
                &&& forall|k: int| 0 <= k < rolls.len() ==> 1 <= #[trigger] rolls[k] <= 6
                &&& at == #[trigger] rolls_folded(rolls)
            },
{
    let first = random_in(1, 6);
    let a = fold_roll(0, first);
    let second = random_in(1, 6);
    let b = fold_roll(a, second);
    let third = random_in(1, 6);
    let c = fold_roll(b, third);
    let fourth = random_in(1, 6);
    let d = fold_roll(c, fourth);
    let fifth = random_in(1, 6);
    let e = fold_roll(d, fifth);
    proof {
        let none = Seq::<int>::empty();
        let one = none.push(first as int);
        let two = one.push(second as int);
        let three = two.push(third as int);
        let four = three.push(fourth as int);
        let five = four.push(fifth as int);
        assert(one.drop_last() == none);
        assert(two.drop_last() == one);
        assert(three.drop_last() == two);
        assert(four.drop_last() == three);
        assert(five.drop_last() == four);
        assert(rolls_folded(none) == 0);
        assert(rolls_folded(one) == a);
        assert(rolls_folded(two) == b);
        assert(rolls_folded(three) == c);
        assert(rolls_folded(four) == d);
        assert(rolls_folded(five) == e);
    }
    e as usize
}

/// The number that rolls of a die fold into: each roll, less one, is a
/// digit to the base 6, the first roll the highest.
pub open spec fn rolls_folded(rolls: Seq<int>) -> int
    decreases rolls.len(),
{
    if rolls.len() == 0 {
        0
    } else {
        rolls_folded(rolls.drop_last()) * 6 + rolls.last() - 1
    }
}

/// Generates a passphrase: the given number of words, each chosen from
/// the list by five rolls of a die, with a space between each two.
pub fn gen_passphrase(length: u32, words: &Vec<String>) -> (passphrase: String)
    requires
        words@.len() >= WORD_COUNT,
    ensures
        exists|picks: Seq<int>|
            {
                &&& picks.len() == length
                &&& forall|k: int| 0 <= k < picks.len() ==> 0 <= #[trigger] picks[k] < WORD_COUNT
                &&& passphrase@ == #[trigger] phrase(words@, picks)
            },
{
    let mut passphrase = String::new();
    let ghost mut picks: Seq<int> = Seq::empty();
    let mut i: u32 = 0;
    while i < length
        invariant
            i <= length,
            words@.len() >= WORD_COUNT,
            picks.len() == i,
            forall|k: int| 0 <= k < picks.len() ==> 0 <= #[trigger] picks[k] < WORD_COUNT,
            passphrase@ == phrase(words@, picks),
        decreases length - i,
    {
        let at = roll_word();
        if i > 0 {
            proof {
                reveal_strlit(" ");
                assert(" "@ == seq![' ']);
            }
            passphrase.append(" ");
        }
        passphrase.append(words[at].as_str());
        proof {
            let longer = picks.push(at as int);
            assert(longer.drop_last() == picks);
            assert(longer.last() == at);
            picks = longer;
        }
        i += 1;
    }
    passphrase
}

} // verus!
