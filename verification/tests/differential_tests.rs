use flashfall::normalize::normalize_string;
use flashfall::parser::{expand_parens, parse_deck, process_side};
use rand::Rng;
use rand_chacha::rand_core::SeedableRng;
use rand_chacha::ChaCha8Rng;
use regex::Regex;
use std::collections::HashSet;
use unidecode::unidecode;

/// The canonical form spelled with the functions of `std` on the
/// transliterated text.
fn normalize_by_std(s: &str) -> String {
    unidecode(s)
        .to_lowercase()
        .chars()
        .filter(|c| c.is_alphanumeric() || c.is_whitespace())
        .collect::<String>()
        .split_whitespace()
        .collect::<Vec<_>>()
        .join(" ")
}

/// The variants of a text, found round by round with a set.
fn variants_by_rounds(text: &str) -> HashSet<String> {
    let re = Regex::new(r"\((.*?)\)").unwrap();
    let mut results: HashSet<String> = HashSet::new();
    results.insert(text.to_string());
    loop {
        let mut next: HashSet<String> = HashSet::new();
        let mut changed = false;
        for s in results {
            if let Some(cap) = re.captures(&s) {
                changed = true;
                let whole = cap.get(0).unwrap().as_str();
                let inner = cap.get(1).unwrap().as_str();
                next.insert(s.replacen(whole, inner, 1));
                next.insert(s.replacen(whole, "", 1));
            } else {
                next.insert(s);
            }
        }
        results = next;
        if !changed {
            break;
        }
    }
    results
        .into_iter()
        .map(|s| s.split_whitespace().collect::<Vec<_>>().join(" "))
        .filter(|s| !s.is_empty())
        .collect()
}

/// The alternates of a side, as a set.
fn side_by_rounds(text: &str) -> HashSet<String> {
    text.split('/').map(|s| s.trim()).flat_map(|part| variants_by_rounds(part)).collect()
}

/// The entries of a deck text, each side as its set of alternates.
fn deck_by_lines(text: &str) -> Vec<(HashSet<String>, HashSet<String>)> {
    text.lines()
        .filter(|line| !line.trim().is_empty() && !line.starts_with('#'))
        .filter_map(|line| {
            let parts: Vec<&str> = line.split('\t').collect();
            if parts.len() >= 2 {
                Some((side_by_rounds(parts[0].trim()), side_by_rounds(parts[1].trim())))
            } else {
                None
            }
        })
        .collect()
}

fn alternates(side: &str) -> HashSet<String> {
    if side.is_empty() {
        HashSet::new()
    } else {
        side.split(" / ").map(|s| s.to_string()).collect()
    }
}

const ALPHABET: [char; 34] = [
    'a', 'b', 'Z', 'q', '0', '7', ' ', ' ', '\t', '\n', '\r', '(', '(', ')', ')', '/', '#', '-',
    '!', '?', ',', '.', '\'', 'é', 'È', 'ü', 'ß', 'ŵ', 'Æ', '北', '\u{a0}', '\u{2003}', '\u{3000}',
    'Σ',
];

fn random_text(rng: &mut ChaCha8Rng, max_len: usize) -> String {
    let len = rng.random_range(0..=max_len);
    (0..len).map(|_| ALPHABET[rng.random_range(0..ALPHABET.len())]).collect()
}

#[test]
fn normalize_agrees_with_std_on_transliterated_text() {
    let mut rng = ChaCha8Rng::seed_from_u64(2024);
    for _ in 0..3000 {
        let s = random_text(&mut rng, 24);
        assert_eq!(normalize_string(&s), normalize_by_std(&s), "input {:?}", s);
    }
}

#[test]
fn normalize_agrees_with_std_on_every_single_character() {
    let mut n: u32 = 0;
    while n <= 0x10ffff {
        if let Some(c) = char::from_u32(n) {
            let s = format!("a{}b", c);
            assert_eq!(normalize_string(&s), normalize_by_std(&s), "U+{:04X}", n);
        }
        n += 1;
    }
}

#[test]
fn expand_parens_finds_the_variants_that_rounds_with_a_set_find() {
    let mut rng = ChaCha8Rng::seed_from_u64(7);
    for _ in 0..3000 {
        let s = random_text(&mut rng, 14);
        let found = expand_parens(&s);
        let as_set: HashSet<String> = found.iter().cloned().collect();
        assert_eq!(as_set, variants_by_rounds(&s), "input {:?}", s);
    }
}

#[test]
fn process_side_lists_each_alternate_once() {
    let mut rng = ChaCha8Rng::seed_from_u64(8);
    for _ in 0..2000 {
        let s = random_text(&mut rng, 14).replace('\n', " ");
        let side = process_side(&s);
        let expected = side_by_rounds(&s);
        // Alternates that hold a " / " of their own cannot be told apart in
        // the joined form.
        if expected.iter().any(|a| a.contains(" / ")) {
            continue;
        }
        let listed: Vec<String> =
            if side.is_empty() { Vec::new() } else { side.split(" / ").map(|s| s.to_string()).collect() };
        let as_set: HashSet<String> = listed.iter().cloned().collect();
        assert_eq!(as_set.len(), listed.len(), "input {:?}", s);
        assert_eq!(as_set, expected, "input {:?}", s);
    }
}

#[test]
fn parse_deck_agrees_with_a_reading_line_by_line() {
    let mut rng = ChaCha8Rng::seed_from_u64(9);
    for _ in 0..1500 {
        let mut text = String::new();
        let lines = rng.random_range(0..5);
        for _ in 0..lines {
            text.push_str(&random_text(&mut rng, 8));
            if rng.random_range(0..4) > 0 {
                text.push('\t');
                text.push_str(&random_text(&mut rng, 8));
            }
            match rng.random_range(0..4) {
                0 => text.push_str("\r\n"),
                1 => text.push('\r'),
                _ => text.push('\n'),
            }
        }
        let expected = deck_by_lines(&text);
        if expected.iter().any(|(f, b)| f.iter().chain(b.iter()).any(|a| a.contains(" / "))) {
            continue;
        }
        let parsed: Vec<(HashSet<String>, HashSet<String>)> =
            parse_deck(&text).iter().map(|(f, b)| (alternates(f), alternates(b))).collect();
        assert_eq!(parsed, expected, "input {:?}", text);
    }
}
