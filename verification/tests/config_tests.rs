use route_server::config;
use route_server::config::{find_shape_at, parse_rule_at, scan_rules, RuleEntry, RulePlaces};

fn entry(pattern: &str, verb: &str, argument: &str) -> RuleEntry {
    RuleEntry {
        pattern: String::from(pattern),
        verb: String::from(verb),
        argument: String::from(argument),
    }
}

fn rule_at(text: &str, at: usize) -> Option<(RuleEntry, usize)> {
    let chars: Vec<char> = text.chars().collect();
    parse_rule_at(&chars, at)
}

#[test]
fn one_rule_line_gives_one_entry() {
    assert_eq!(
        scan_rules("\"/\" : open \"index.html\""),
        vec![entry("/", "open", "index.html")]
    );
}

#[test]
fn rule_lines_are_read_in_order() {
    let config = "\"/a\" : open \"a.txt\"\n\"/b\" : close \"b.txt\"\n\"/c\" : open \"c.txt\"\n";
    assert_eq!(
        scan_rules(config),
        vec![
            entry("/a", "open", "a.txt"),
            entry("/b", "close", "b.txt"),
            entry("/c", "open", "c.txt"),
        ]
    );
}

#[test]
fn white_space_around_the_parts_is_passed_over() {
    assert_eq!(
        scan_rules("   \t\"/a\"   :\t open\t \"a.txt\"\n"),
        vec![entry("/a", "open", "a.txt")]
    );
    assert_eq!(scan_rules("\"/a\" : open\"a.txt\""), vec![entry("/a", "open", "a.txt")]);
}

#[test]
fn blank_lines_and_other_lines_are_passed_over() {
    let config = "\n# routes\n\n\"/a\" : open \"a.txt\"\nnot a rule\n\n\"/b\" : open \"b.txt\"\n";
    assert_eq!(
        scan_rules(config),
        vec![entry("/a", "open", "a.txt"), entry("/b", "open", "b.txt")]
    );
}

#[test]
fn lines_that_miss_a_part_are_no_rule_lines() {
    assert_eq!(scan_rules("\"/a\":open \"a.txt\""), vec![]);
    assert_eq!(scan_rules("\"/a\" open \"a.txt\""), vec![]);
    assert_eq!(scan_rules("/a : open \"a.txt\""), vec![]);
    assert_eq!(scan_rules("\"/a\" : open a.txt"), vec![]);
    assert_eq!(scan_rules("\"/a\" :  \"a.txt\""), vec![]);
    assert_eq!(scan_rules("\"\" : open \"a.txt\""), vec![]);
    assert_eq!(scan_rules("\"/a\" : open \"\""), vec![]);
    assert_eq!(scan_rules("\"/a\" : open \"a.txt\" "), vec![]);
    assert_eq!(scan_rules("x \"/a\" : open \"a.txt\""), vec![]);
}

#[test]
fn rule_may_stand_on_several_lines() {
    assert_eq!(
        scan_rules("\n\n\"/a\nb\"\n:\nopen\n\"c\nd\"\n"),
        vec![entry("/a\nb", "open", "c\nd")]
    );
}

#[test]
fn rule_must_begin_a_line_and_end_one() {
    assert_eq!(scan_rules("\"/a\" : open \"a\"\"/b\" : open \"b\""), vec![]);
    assert_eq!(
        scan_rules("\"/a\" : open \"a\"\n\"/b\" : open \"b\""),
        vec![entry("/a", "open", "a"), entry("/b", "open", "b")]
    );
    assert_eq!(scan_rules("\"/a\" : open \"a\"\r\n"), vec![]);
    assert_eq!(scan_rules("\"/a\" : open \"a\"\n\r"), vec![entry("/a", "open", "a")]);
}

#[test]
fn rule_is_read_with_the_place_where_it_ends() {
    let text = "  \"/a\" : open \"f.txt\"\nrest";
    assert_eq!(rule_at(text, 0), Some((entry("/a", "open", "f.txt"), 21)));
    assert_eq!(rule_at(text, 1), Some((entry("/a", "open", "f.txt"), 21)));
    assert_eq!(rule_at(text, 2), Some((entry("/a", "open", "f.txt"), 21)));
    assert_eq!(rule_at(text, 3), None);
    assert_eq!(rule_at(text, 21), None);
    assert_eq!(rule_at(text, 26), None);
    assert_eq!(rule_at(text, 27), None);
    assert_eq!(rule_at("", 0), None);
    assert_eq!(rule_at("\"a\" : b \"c\"", 0), Some((entry("a", "b", "c"), 11)));
}

#[test]
fn places_are_counted_in_characters() {
    let text = "\"/\u{e9}\" : \u{e9}t\u{e9} \"\u{4e16}\u{754c}\"";
    assert_eq!(
        rule_at(text, 0),
        Some((entry("/\u{e9}", "\u{e9}t\u{e9}", "\u{4e16}\u{754c}"), 15))
    );
    assert_eq!(text.chars().count(), 15);
    assert_eq!(scan_rules(text), vec![entry("/\u{e9}", "\u{e9}t\u{e9}", "\u{4e16}\u{754c}")]);
}

fn shape_at(text: &str, at: usize) -> Option<RulePlaces> {
    let chars: Vec<char> = text.chars().collect();
    find_shape_at(&chars, at)
}

#[test]
fn shape_of_a_rule_is_found_with_its_places() {
    assert_eq!(
        shape_at("\"/a\" : open \"f.txt\"", 0),
        Some(RulePlaces { pattern: (1, 3), verb: (7, 11), argument: (13, 18), end: 19 })
    );
    assert_eq!(
        shape_at("x\n \t\"p\"\n:\u{a0}v\"a\"\nrest", 2),
        Some(RulePlaces { pattern: (5, 6), verb: (10, 11), argument: (12, 13), end: 14 })
    );
    assert_eq!(
        shape_at("\"p\" : v\"a\"", 0),
        Some(RulePlaces { pattern: (1, 2), verb: (6, 7), argument: (8, 9), end: 10 })
    );
}

#[test]
fn shape_takes_any_verb_without_white_space_and_quotation_marks() {
    assert_eq!(
        shape_at("\"p\" : a-b!? \"a\"", 0),
        Some(RulePlaces { pattern: (1, 2), verb: (6, 11), argument: (13, 14), end: 15 })
    );
    assert_eq!(rule_at("\"p\" : a-b!? \"a\"", 0), None);
    assert_eq!(rule_at("\"p\" : a_b12 \"a\"", 0), Some((entry("p", "a_b12", "a"), 15)));
}

#[test]
fn what_misses_a_part_has_no_shape() {
    for text in [
        "",
        " ",
        "p\" : v \"a\"",
        "\"\" : v \"a\"",
        "\"p : v a",
        "\"p\": v \"a\"",
        "\"p\" :v \"a\"",
        "\"p\" ; v \"a\"",
        "\"p\" :  \"a\"",
        "\"p\" : v a\"",
        "\"p\" : v \"\"",
        "\"p\" : v \"a",
        "\"p\" : v \"a\" ",
        "\"p\" : v \"a\"x",
        "\"p\" : v w \"a\"",
    ] {
        assert_eq!(shape_at(text, 0), None, "text {:?}", text);
    }
    assert_eq!(shape_at("\"p\" : v \"a\"", 1), None);
    assert_eq!(shape_at("\"p\" : v \"a\"", 11), None);
    assert_eq!(shape_at("\"p\" : v \"a\"", 12), None);
}

fn rule_line() -> regex::Regex {
    regex::Regex::new(r#"(?im)^\s*"(?P<route>[^"]+)"\s+:\s+(?P<type>\w+)\s*"(?P<arg>[^"]+)"$"#)
        .expect("the expression is well formed")
}

fn same(line: &regex::Regex, text: &str) {
    let by_hand: Vec<(String, String, String)> = config::scan_rules(text)
        .into_iter()
        .map(|e| (e.pattern, e.verb, e.argument))
        .collect();
    let by_engine: Vec<(String, String, String)> = line
        .captures_iter(text)
        .map(|c| (c["route"].to_string(), c["type"].to_string(), c["arg"].to_string()))
        .collect();
    assert_eq!(by_hand, by_engine, "text {:?}", text);
}

fn agree_on_pieces(part: usize) {
    let line = rule_line();
    let leads = ["", " ", "\t", "\n", "\n\n  ", "x", "x\n", "\u{a0}", "\u{2003}\u{3000}", "\r\n", "\u{85}", "#\n \n"];
    let patterns = ["\"/a\"", "\"\"", "\"/a\nb\"", "\"a b\"", "/a", "\"/\u{e9}\"", "\"(\"", "\"/a", "'/a'", "\"\u{3000}\""];
    let seps = [" : ", ":", " :", ": ", "  :\t", "\n:\n", " \u{a0}:\u{2028}", " ; ", " :: ", "\u{85}:\u{85}", " :\r\n"];
    let verbs = ["open", "OPEN", "o", "", "op en", "\u{f6}ffnen", "open_1", "a-b", "x\u{301}", "\u{b2}", "٣", "a\u{200d}b", "\u{203f}", "open!", "\u{ff3f}"];
    let gaps = ["", " ", "\t\t", "\n", "\u{a0}", "-"];
    let arguments = ["\"f.txt\"", "\"\"", "\"a\nb\"", "\"f", "f\"", "\" \"", "\"\u{4e16}\""];
    let tails = ["", "\n", " ", " \n", "\r\n", "\n\"/z\" : open \"z\"", "x", "\n\n", "\u{2028}", "\"", "\n\"/z\" : open \"z\"\n"];
    let mut count = 0;
    for lead in leads {
        for pattern in patterns {
            for sep in seps {
                for (v, verb) in verbs.iter().enumerate() {
                    for (g, gap) in gaps.iter().enumerate() {
                        if (v + g) % 3 != 0 {
                            continue;
                        }
                        for (a, argument) in arguments.iter().enumerate() {
                            for (t, tail) in tails.iter().enumerate() {
                                if (a + t + v) % 4 != 0 {
                                    continue;
                                }
                                count += 1;
                                if count % 40 != part {
                                    continue;
                                }
                                let text = format!("{}{}{}{}{}{}{}", lead, pattern, sep, verb, gap, argument, tail);
                                same(&line, &text);
                            }
                        }
                    }
                }
            }
        }
    }
    assert!(count > 10000);
}

#[test]
fn scan_agrees_with_the_rule_expression_on_pieces_a() {
    agree_on_pieces(0);
}

#[test]
fn scan_agrees_with_the_rule_expression_on_pieces_b() {
    agree_on_pieces(1);
}

#[test]
fn scan_agrees_with_the_rule_expression_on_pieces_c() {
    agree_on_pieces(17);
}

#[test]
fn scan_agrees_with_the_rule_expression_on_pieces_d() {
    agree_on_pieces(29);
}

#[test]
fn scan_agrees_with_the_rule_expression_on_files() {
    let lines = [
        "\"/\" : open \"index.html\"",
        "  \"^/a$\" :\topen\t\"a.txt\"",
        "\"/b\" : close \"b\"",
        "",
        "   ",
        "# comment",
        "\"/c\" : open \"c\" ",
        "\"/d\" open \"d\"",
        "\"/e\" : open \"e\"\r",
        "\"/f",
        "g\" : open \"g\"",
        "\"/h\" :",
        "open \"h\"",
        "\"",
        ":",
        "\"/i\" : \u{e9}t\u{e9} \"i\"",
        "\"/j\"\u{2003}:\u{2003}open\u{2003}\"j\"",
        "x \"/k\" : open \"k\"",
        "\"/l\" : open \"l\" \"/m\" : open \"m\"",
        "\"/n\" : open \"n\"\"/o\" : open \"o\"",
    ];
    let line = rule_line();
    let ends = ["\n", "\n\n", "\r\n", ""];
    let mut seed: u64 = 12345;
    let mut next = move || {
        seed = seed.wrapping_mul(6364136223846793005).wrapping_add(1442695040888963407);
        (seed >> 33) as usize
    };
    for _ in 0..1500 {
        let mut text = String::new();
        let n = next() % 6;
        for _ in 0..n {
            text.push_str(lines[next() % lines.len()]);
            text.push_str(ends[next() % ends.len()]);
        }
        same(&line, &text);
    }
}

#[test]
fn scan_agrees_with_the_rule_expression_on_short_texts() {
    let line = rule_line();
    let letters = ['"', ':', ' ', '\n', 'a', '\u{a0}', '-'];
    let mut counter = [0usize; 9];
    let mut text = String::new();
    let mut turns = 0u64;
    loop {
        turns += 1;
        if turns % 211 == 0 {
            text.clear();
            text.push_str("\"a\" : a\"");
            text.extend(counter.iter().map(|&i| letters[i]));
            same(&line, &text);
            text.clear();
            text.extend(counter.iter().map(|&i| letters[i]));
            text.push_str("\"a\" : a \"a\"");
            same(&line, &text);
        }
        let mut place = 0;
        while place < counter.len() && counter[place] + 1 == letters.len() {
            counter[place] = 0;
            place += 1;
        }
        if place == counter.len() || turns > 400000 {
            break;
        }
        counter[place] += 1;
    }
}

#[test]
fn white_space_is_what_the_engine_calls_so() {
    let space = regex::Regex::new(r"^\s$").expect("the expression is well formed");
    let mut spaces = 0;
    let mut text = String::new();
    let mut one = String::new();
    for code in 0..=0x10ffffu32 {
        let c = match char::from_u32(code) {
            Some(c) => c,
            None => continue,
        };
        one.clear();
        one.push(c);
        text.clear();
        text.push_str("\"a\"");
        text.push(c);
        text.push_str(": b \"c\"");
        let passed_over = config::scan_rules(&text).len() == 1;
        assert_eq!(passed_over, space.is_match(&one), "character {:?}", c);
        if passed_over {
            spaces += 1;
        }
    }
    assert_eq!(spaces, 25);
}

#[test]
fn verb_is_a_word_as_the_engine_sees_it() {
    let word = regex::Regex::new(r"(?i)^\w$").expect("the expression is well formed");
    let mut words = 0;
    for code in (0..0x3000u32).step_by(7).chain((0x3000..=0x10ffffu32).step_by(4099)) {
        let c = match char::from_u32(code) {
            Some(c) => c,
            None => continue,
        };
        let text = format!("\"a\" : {} \"c\"", c);
        let found = config::scan_rules(&text);
        assert_eq!(found.len() == 1, word.is_match(&c.to_string()), "character {:?}", c);
        if found.len() == 1 {
            assert_eq!(found[0].verb, c.to_string());
            words += 1;
        }
    }
    assert!(words > 100);
}
