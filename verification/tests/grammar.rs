use dta::aggregators::Increment;
use dta::data::parsing::parse_fixed_offset;
use regex::Regex;

struct Dice(u64);

impl Dice {
    fn roll(&mut self, sides: usize) -> usize {
        self.0 = self.0.wrapping_mul(6364136223846793005).wrapping_add(1442695040888963407);
        ((self.0 >> 33) as usize) % sides
    }
}

fn texts(seeds: &[&str], alphabet: &[char], dice: &mut Dice) -> Vec<String> {
    let mut all: Vec<String> = seeds.iter().map(|s| s.to_string()).collect();
    for seed in seeds {
        for _ in 0..400 {
            let mut chars: Vec<char> = seed.chars().collect();
            for _ in 0..1 + dice.roll(3) {
                let c = alphabet[dice.roll(alphabet.len())];
                match dice.roll(3) {
                    0 if !chars.is_empty() => {
                        let at = dice.roll(chars.len());
                        chars[at] = c;
                    }
                    1 if !chars.is_empty() => {
                        let at = dice.roll(chars.len());
                        chars.remove(at);
                    }
                    _ => {
                        let at = dice.roll(chars.len() + 1);
                        chars.insert(at, c);
                    }
                }
            }
            all.push(chars.into_iter().collect());
        }
    }
    for _ in 0..2_000 {
        let len = dice.roll(24);
        all.push((0..len).map(|_| alphabet[dice.roll(alphabet.len())]).collect());
    }
    all
}

fn parts_by_pattern(s: &str) -> Option<[i64; 6]> {
    let date = Regex::new(r"^([0-9]{4})\-([0-9]{2})\-([0-9]{2})$").unwrap();
    let clock = Regex::new(r"^([0-9]{2}):([0-9]{2}):([0-9]{2})$").unwrap();
    let full =
        Regex::new(r"^([0-9]{4})\-([0-9]{2})\-([0-9]{2}) ([0-9]{2}):([0-9]{2}):([0-9]{2})$").unwrap();
    let number = |c: &regex::Captures, i: usize| c.get(i).unwrap().as_str().parse::<i64>().unwrap();
    if let Some(c) = full.captures(s) {
        Some([number(&c, 1), number(&c, 2), number(&c, 3), number(&c, 4), number(&c, 5), number(&c, 6)])
    } else if let Some(c) = clock.captures(s) {
        Some([0, 0, 0, number(&c, 1), number(&c, 2), number(&c, 3)])
    } else if let Some(c) = date.captures(s) {
        Some([number(&c, 1), number(&c, 2), number(&c, 3), 0, 0, 0])
    } else {
        None
    }
}

#[test]
fn increments_are_what_the_three_patterns_match() {
    let mut dice = Dice(7);
    let alphabet: Vec<char> = "0123456789-: \n\tTaé٣".chars().collect();
    let seeds = ["2021-01-01", "01:02:03", "2021-01-01 01:02:03", "0000-00-00", "00:00:00", "9999-99-99 99:99:99"];
    let mut accepted = 0;
    for text in texts(&seeds, &alphabet, &mut dice) {
        let expected = parts_by_pattern(&text).filter(|p| p.iter().any(|n| *n != 0));
        let got = Increment::try_from(text.clone())
            .ok()
            .map(|i| [i.years(), i.months(), i.days(), i.hours(), i.minutes(), i.seconds()]);
        assert_eq!(got, expected, "{:?}", text);
        if got.is_some() {
            accepted += 1;
        }
    }
    assert!(accepted > 50);
}

fn offset_by_pattern(s: &str) -> Option<i32> {
    let colon = Regex::new(r"(\+|\-)([0-1][0-9]):([0-9]{2})").unwrap();
    let compact = Regex::new(r"(\+|\-)([0-1][0-9])([0-9]{2})").unwrap();
    match (colon.captures(s), compact.captures(s)) {
        (Some(c), None) | (None, Some(c)) => {
            let hours: i32 = c.get(2).unwrap().as_str().parse().unwrap();
            let minutes: i32 = c.get(3).unwrap().as_str().parse().unwrap();
            let size = 3_600 * hours + 60 * minutes;
            Some(if c.get(1).unwrap().as_str() == "+" { size } else { -size })
        }
        _ => None,
    }
}

#[test]
fn offsets_are_what_the_two_patterns_match() {
    let mut dice = Dice(11);
    let alphabet: Vec<char> = "0123456789+-: Zé".chars().collect();
    let seeds = ["+05:30", "-0800", "UTC+01:00", "+19:59", "-1999", "+01:00 -0200", "+0100+0200", "x-00:00x"];
    let mut accepted = 0;
    for text in texts(&seeds, &alphabet, &mut dice) {
        let got = parse_fixed_offset(Some(&text)).ok();
        assert_eq!(got, offset_by_pattern(&text), "{:?}", text);
        if got.is_some() {
            accepted += 1;
        }
    }
    assert!(accepted > 50);
}
