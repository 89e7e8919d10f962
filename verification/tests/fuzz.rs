use dta::aggregators::split::SplitAggregator;
use dta::aggregators::Aggregator;
use dta::aggregators::Increment;
use dta::input::csv::CsvParser;
use dta::input::json::JsonParser;
use dta::input::Parser;
use dta::timestamp::{Timestamp, FIRST_SECOND, LAST_SECOND};
use dta::Data;

struct Dice(u64);

impl Dice {
    fn roll(&mut self, sides: u64) -> u64 {
        self.0 = self.0.wrapping_mul(6364136223846793005).wrapping_add(1442695040888963407);
        (self.0 >> 33) % sides
    }

    fn text(&mut self, alphabet: &[char], longest: u64) -> String {
        let len = self.roll(longest + 1);
        (0..len).map(|_| alphabet[self.roll(alphabet.len() as u64) as usize]).collect()
    }
}

#[test]
fn documents_and_paths_of_any_shape_are_answered() {
    let mut dice = Dice(3);
    let json: Vec<char> = "{}[]\":,.\\ \n01-eE+truefalsn#*?@|!=<>%()aé".chars().collect();
    let path: Vec<char> = ".#*?@|\\()[]{}!=<>%\"01a:,é ".chars().collect();
    let modifiers = ["@this", "@reverse", "@ugly", "@pretty", "@valid", "@flatten", "@join", "@tostring"];
    for _ in 0..20_000 {
        let doc = dice.text(&json, 40);
        let field = format!("{}{}", modifiers[dice.roll(modifiers.len() as u64) as usize], dice.text(&path, 6));
        let _ = JsonParser::new(&field).parse_data(doc.into_bytes(), None, None, None, None);
    }
    let t = "%Y".to_string();
    for _ in 0..20_000 {
        let doc = dice.text(&json, 40);
        let field = dice.text(&path, 12);
        let _ = JsonParser::new(&field).parse_data(doc.clone().into_bytes(), None, None, None, None);
        let _ = JsonParser::new(&field).parse_data(doc.into_bytes(), None, None, None, Some(&t));
    }
    for field in ["a", "a.b", "a.#", "a.#.b", "a.#(b==1)", "@reverse", "a|@pretty", "..0", "{a,b}", "[a,b]", "a\\.b"] {
        for doc in ["{\"a\":[{\"b\":1},{\"b\":\"2021\"}]}", "{\"a\":{\"b\":\"0\"}}", "[1,2]", "{\"a\"", "\"", "{\"a\":\"\\u00e9\\"] {
            let _ = JsonParser::new(field).parse_data(doc.as_bytes().to_vec(), None, None, None, Some(&t));
        }
    }
}

#[test]
fn rows_of_any_shape_are_answered() {
    let mut dice = Dice(5);
    let alphabet: Vec<char> = "\",\n\r 01:-TZaé\\'".chars().collect();
    let t = "%Y".to_string();
    for _ in 0..20_000 {
        let row = dice.text(&alphabet, 30);
        let column = dice.roll(4) as u8;
        let _ = CsvParser::new(column).parse_data(row.clone().into_bytes(), None, None, None, None);
        let _ = CsvParser::new(column).parse_data(row.into_bytes(), None, None, None, Some(&t));
    }
}

#[test]
fn texts_and_patterns_of_any_shape_are_answered() {
    let mut dice = Dice(9);
    let alphabet: Vec<char> = "%YmdHMSzZ:.fsjaAbBeTDFRrcxXyCgGuUwVhIklpPnt+-#_03 69é/".chars().collect();
    let sample = Timestamp { secs: 1_622_541_600, nanos: 123_456_789, offset: -12_600 };
    for _ in 0..20_000 {
        let text = dice.text(&alphabet, 24);
        let pattern = dice.text(&alphabet, 10);
        let tz = dice.text(&alphabet, 8);
        let _ = Data::new(&text, Some(&pattern), Some(&tz), Vec::new());
        let _ = Data::new(&text, None, None, Vec::new());
        let mut split = SplitAggregator::new(String::new(), pattern).unwrap();
        let _ = split.update(&Data { timestamp: sample, raw: Vec::new() });
    }
}

#[test]
fn timestamps_of_any_kind_are_answered() {
    let mut dice = Dice(13);
    let spans = ["00:00:01", "00:00:07", "01:00:00", "0000-00-01", "0001-00-00", "0292-00-00", "0293-00-00", "9999-99-99 99:99:99"];
    let patterns = ["%Y-%m-%d %H:%M:%S%.f %z", "%s", "%+", "%c", "%G-W%V-%u", "%C%y %j %e %I %p"];
    let edges = [FIRST_SECOND, FIRST_SECOND + 86_399, -9_223_372_037, -62_135_596_800, -1, 0, 59, 9_223_372_036, LAST_SECOND - 86_399, LAST_SECOND];
    for _ in 0..20_000 {
        let secs = match dice.roll(3) {
            0 => edges[dice.roll(edges.len() as u64) as usize] + dice.roll(121) as i64 - 60,
            1 => (dice.roll(16_544_868_105_600) as i64) + FIRST_SECOND,
            _ => dice.roll(20_000_000_000) as i64 - 10_000_000_000,
        };
        let nanos = match dice.roll(3) {
            0 => 0,
            1 => dice.roll(1_000_000_000) as u32,
            _ => dice.roll(2_100_000_000) as u32,
        };
        let offset = dice.roll(172_803) as i32 - 86_401;
        let at = Timestamp { secs, nanos, offset };
        let inc = Increment::try_from(spans[dice.roll(spans.len() as u64) as usize].to_string()).unwrap();
        if let Ok(r) = inc.rounded(at) {
            assert!(at.is_valid());
            assert_eq!(r.offset, at.offset);
            if at.nanos < 1_000_000_000 {
                assert_eq!(r.nanos, 0);
            }
        }
        let pattern = patterns[dice.roll(patterns.len() as u64) as usize];
        let mut split = SplitAggregator::new(String::new(), pattern.to_string()).unwrap();
        let _ = split.update(&Data { timestamp: at, raw: Vec::new() });
    }
}
