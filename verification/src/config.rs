//! The configuration text. A rule is written as
//!
//! ```text
//! "<pattern>" : <verb> "<argument>"
//! ```
//!
//! and a text is searched for rules from its first line to its last. In the
//! notation of regular expressions a rule is a match of
//! `(?im)^\s*"([^"]+)"\s+:\s+(\w+)\s*"([^"]+)"$`: it begins at the start of
//! a line and ends at the end of one, white space is what Unicode calls so,
//! line feeds included, and the verb is a word as the pattern engine sees it.

use crate::pattern::{is_match, pattern_matches};
use crate::text::{chars_of, text_between};
use vstd::prelude::*;

verus! {

/// One rule as it was written.
#[derive(Debug, Clone, PartialEq, Eq)]
pub struct RuleEntry {
    pub pattern: String,
    pub verb: String,
    pub argument: String,
}

/// A [`RuleEntry`] with its texts as sequences of characters.
pub struct RuleEntryView {
    pub pattern: Seq<char>,
    pub verb: Seq<char>,
    pub argument: Seq<char>,
}

impl View for RuleEntry {
    type V = RuleEntryView;

    open spec fn view(&self) -> RuleEntryView {
        RuleEntryView { pattern: self.pattern@, verb: self.verb@, argument: self.argument@ }
    }
}

impl DeepView for RuleEntry {
    type V = RuleEntryView;

    open spec fn deep_view(&self) -> RuleEntryView {
        self@
    }
}

/// The characters with the Unicode property `White_Space`.
pub open spec fn is_space(c: char) -> bool {
    ||| '\t' <= c <= '\r'
    ||| c == ' '
    ||| c == '\u{85}'
    ||| c == '\u{a0}'
    ||| c == '\u{1680}'
    ||| '\u{2000}' <= c <= '\u{200a}'
    ||| '\u{2028}' <= c <= '\u{2029}'
    ||| c == '\u{202f}'
    ||| c == '\u{205f}'
    ||| c == '\u{3000}'
}

/// The first place at or after `at` that holds no white space; the end of
/// the text where only white space follows.
pub open spec fn after_spaces(text: Seq<char>, at: int) -> int
    decreases text.len() - at,
{
    if 0 <= at < text.len() && is_space(text[at]) {
        after_spaces(text, at + 1)
    } else {
        at
    }
}

/// The first place at or after `at` that holds a quotation mark; the end of
/// the text where none follows.
pub open spec fn next_quote(text: Seq<char>, at: int) -> int
    decreases text.len() - at,
{
    if 0 <= at < text.len() && text[at] != '"' {
        next_quote(text, at + 1)
    } else {
        at
    }
}

/// The first place at or after `at` that holds white space or a quotation
/// mark; the end of the text where neither follows.
pub open spec fn word_end(text: Seq<char>, at: int) -> int
    decreases text.len() - at,
{
    if 0 <= at < text.len() && !is_space(text[at]) && text[at] != '"' {
        word_end(text, at + 1)
    } else {
        at
    }
}

/// The pattern that a verb has to match as a whole.
pub const WORD: &'static str = "(?i)^\\w+$";

/// Whether `text` is a word: one or more characters that the pattern engine
/// counts as word characters.
pub open spec fn is_word(text: Seq<char>) -> bool {
    pattern_matches(WORD@, text)
}

/// Where the parts of a rule stand in a text. Each part goes from its first
/// place up to, and not including, its second.
#[derive(Debug, Clone, Copy, PartialEq, Eq)]
pub struct RulePlaces {
    pub pattern: (usize, usize),
    pub verb: (usize, usize),
    pub argument: (usize, usize),
    /// The place behind the last character of the rule.
    pub end: usize,
}

/// [`RulePlaces`] with its places as integers.
pub struct RulePlacesView {
    pub pattern: (int, int),
    pub verb: (int, int),
    pub argument: (int, int),
    pub end: int,
}

impl View for RulePlaces {
    type V = RulePlacesView;

    open spec fn view(&self) -> RulePlacesView {
        RulePlacesView {
            pattern: (self.pattern.0 as int, self.pattern.1 as int),
            verb: (self.verb.0 as int, self.verb.1 as int),
            argument: (self.argument.0 as int, self.argument.1 as int),
            end: self.end as int,
        }
    }
}

impl RulePlaces {
    /// The places lie within `text`, one part behind the other, behind `at`.
    pub open spec fn rests_in(self, text: Seq<char>, at: int) -> bool {
        &&& at < self.pattern.0 < self.pattern.1
        &&& self.pattern.1 < self.verb.0 < self.verb.1
        &&& self.verb.1 < self.argument.0 < self.argument.1
        &&& self.argument.1 < self.end <= text.len()
    }
}

impl RulePlacesView {
    /// The rule that stands at these places of `text`.
    pub open spec fn entry(self, text: Seq<char>) -> RuleEntryView {
        RuleEntryView {
            pattern: text.subrange(self.pattern.0, self.pattern.1),
            verb: text.subrange(self.verb.0, self.verb.1),
            argument: text.subrange(self.argument.0, self.argument.1),
        }
    }
}

/// The places of what has the shape of a rule and begins at `at`: white
/// space or none, a pattern in quotation marks, white space, a colon, white
/// space, a verb, white space or none, an argument in quotation marks, and
/// the end of the line. Pattern, verb and argument are not empty; pattern
/// and argument hold any character but a quotation mark, the verb any but
/// white space and a quotation mark.
pub open spec fn shape_at(text: Seq<char>, at: int) -> Option<RulePlacesView> {
    let pattern_quote = after_spaces(text, at);
    let pattern_end = next_quote(text, pattern_quote + 1);
    let colon = after_spaces(text, pattern_end + 1);
    let verb = after_spaces(text, colon + 1);
    let verb_end = word_end(text, verb);
    let argument_quote = after_spaces(text, verb_end);
    let argument_end = next_quote(text, argument_quote + 1);
    if {
        &&& 0 <= at
        &&& pattern_quote < text.len() && text[pattern_quote] == '"'
        &&& pattern_quote + 1 < pattern_end < text.len()
        &&& pattern_end + 1 < colon < text.len() && text[colon] == ':'
        &&& colon + 1 < verb
        &&& verb < verb_end
        &&& argument_quote < text.len() && text[argument_quote] == '"'
        &&& argument_quote + 1 < argument_end < text.len()
        &&& (argument_end + 1 == text.len() || text[argument_end + 1] == '\n')
    } {
        Some(
            RulePlacesView {
                pattern: (pattern_quote + 1, pattern_end),
                verb: (verb, verb_end),
                argument: (argument_quote + 1, argument_end),
                end: argument_end + 1,
            },
        )
    } else {
        None
    }
}

/// The rule that begins at `at`, with the place behind its last character:
/// what has the shape of a rule and a word for its verb. `None` where what
/// begins at `at` is no rule.
pub open spec fn rule_at(text: Seq<char>, at: int) -> Option<(RuleEntryView, int)> {
    match shape_at(text, at) {
        Some(places) => if is_word(places.entry(text).verb) {
            Some((places.entry(text), places.end))
        } else {
            None
        },
        None => None,
    }
}

/// Place `at` is the start of a line.
pub open spec fn is_line_start(text: Seq<char>, at: int) -> bool {
    at == 0 || (0 < at <= text.len() && text[at - 1] == '\n')
}

/// The rules that are found from place `at` on: the text is gone through
/// place by place; where a rule begins at the start of a line it is taken,
/// and the search goes on behind it.
pub open spec fn rules_from(text: Seq<char>, at: int) -> Seq<RuleEntryView>
    decreases text.len() - at,
    via rules_from_comes_to_an_end
{
    if at < 0 || at >= text.len() {
        Seq::empty()
    } else if is_line_start(text, at) && rule_at(text, at) is Some {
        let (entry, end) = rule_at(text, at).unwrap();
        seq![entry] + rules_from(text, end)
    } else {
        rules_from(text, at + 1)
    }
}

#[via_fn]
proof fn rules_from_comes_to_an_end(text: Seq<char>, at: int) {
    if rule_at(text, at) is Some {
        lemma_rule_ends_later(text, at);
    }
}

/// The rules of a configuration text, in the order in which they stand.
pub open spec fn rules_in(text: Seq<char>) -> Seq<RuleEntryView> {
    rules_from(text, 0)
}

fn is_space_char(c: char) -> (yes: bool)
    ensures
        yes == is_space(c),
{
    let in_ascii = ('\t' <= c && c <= '\r') || c == ' ';
    let in_latin = c == '\u{85}' || c == '\u{a0}';
    let in_punctuation = ('\u{2000}' <= c && c <= '\u{200a}') || ('\u{2028}' <= c && c
        <= '\u{2029}') || c == '\u{202f}' || c == '\u{205f}';
    in_ascii || in_latin || in_punctuation || c == '\u{1680}' || c == '\u{3000}'
}

fn skip_spaces(chars: &Vec<char>, at: usize) -> (end: usize)
    ensures
        end == after_spaces(chars@, at as int),
        at <= end,
        at <= chars.len() ==> end <= chars.len(),
{
    let mut i: usize = at;
    while i < chars.len() && is_space_char(chars[i])
        invariant
            at <= i,
            at <= chars.len() ==> i <= chars.len(),
            after_spaces(chars@, i as int) == after_spaces(chars@, at as int),
        decreases chars.len() - i,
    {
        i += 1;
    }
    i
}

fn find_quote(chars: &Vec<char>, at: usize) -> (end: usize)
    ensures
        end == next_quote(chars@, at as int),
        at <= end,
        at <= chars.len() ==> end <= chars.len(),
{
    let mut i: usize = at;
    while i < chars.len() && chars[i] != '"'
        invariant
            at <= i,
            at <= chars.len() ==> i <= chars.len(),
            next_quote(chars@, i as int) == next_quote(chars@, at as int),
        decreases chars.len() - i,
    {
        i += 1;
    }
    i
}

fn find_word_end(chars: &Vec<char>, at: usize) -> (end: usize)
    ensures
        end == word_end(chars@, at as int),
        at <= end,
        at <= chars.len() ==> end <= chars.len(),
{
    let mut i: usize = at;
    while i < chars.len() && !is_space_char(chars[i]) && chars[i] != '"'
        invariant
            at <= i,
            at <= chars.len() ==> i <= chars.len(),
            word_end(chars@, i as int) == word_end(chars@, at as int),
        decreases chars.len() - i,
    {
        i += 1;
    }
    i
}

/// Finds the places of what has the shape of a rule and begins at place
/// `at` of a text; `None` where what begins there has no such shape.
pub fn find_shape_at(chars: &Vec<char>, at: usize) -> (found: Option<RulePlaces>)
    ensures
        match found {
            Some(places) => shape_at(chars@, at as int) == Some(places@) && places.rests_in(
                chars@,
                at as int,
            ),
            None => shape_at(chars@, at as int) is None,
        },
{
    let len = chars.len();
    let pattern_quote = skip_spaces(chars, at);
    if pattern_quote >= len || chars[pattern_quote] != '"' {
        return None;
    }
    let pattern_end = find_quote(chars, pattern_quote + 1);
    if pattern_end >= len || pattern_end == pattern_quote + 1 {
        return None;
    }
    let colon = skip_spaces(chars, pattern_end + 1);
    if colon >= len || colon == pattern_end + 1 || chars[colon] != ':' {
        return None;
    }
    let verb = skip_spaces(chars, colon + 1);
    if verb == colon + 1 {
        return None;
    }
    let verb_end = find_word_end(chars, verb);
    if verb_end == verb {
        return None;
    }
    let argument_quote = skip_spaces(chars, verb_end);
    if argument_quote >= len || chars[argument_quote] != '"' {
        return None;
    }
    let argument_end = find_quote(chars, argument_quote + 1);
    if argument_end >= len || argument_end == argument_quote + 1 {
        return None;
    }
    if argument_end + 1 != len && chars[argument_end + 1] != '\n' {
        return None;
    }
    Some(
        RulePlaces {
            pattern: (pattern_quote + 1, pattern_end),
            verb: (verb, verb_end),
            argument: (argument_quote + 1, argument_end),
            end: argument_end + 1,
        },
    )
}

/// Reads the rule that begins at place `at` of a text, and says where it
/// ends; `None` where what begins there is no rule.
pub fn parse_rule_at(chars: &Vec<char>, at: usize) -> (found: Option<(RuleEntry, usize)>)
    ensures
        match found {
            Some((entry, end)) => rule_at(chars@, at as int) == Some((entry@, end as int)) && at
                < end <= chars.len(),
            None => rule_at(chars@, at as int) is None,
        },
{
    let places = match find_shape_at(chars, at) {
        Some(places) => places,
        None => {
            return None;
        },
    };
    let verb = text_between(chars, places.verb.0, places.verb.1);
    if !is_match(WORD, verb.as_str()) {
        return None;
    }
    let entry = RuleEntry {
        pattern: text_between(chars, places.pattern.0, places.pattern.1),
        verb,
        argument: text_between(chars, places.argument.0, places.argument.1),
    };
    Some((entry, places.end))
}

/// Reads the rules out of a configuration text. What is no rule is passed
/// over.
pub fn scan_rules(text: &str) -> (entries: Vec<RuleEntry>)
    ensures
        entries.deep_view() == rules_in(text@),
{
    let chars = chars_of(text);
    let mut entries: Vec<RuleEntry> = Vec::new();
    let mut at: usize = 0;
    assert(entries.deep_view() + rules_from(chars@, 0) =~= rules_from(chars@, 0));
    while at < chars.len()
        invariant
            at <= chars.len(),
            entries.deep_view() + rules_from(chars@, at as int) == rules_from(chars@, 0),
        decreases chars.len() - at,
    {
        let ghost before = entries.deep_view();
        let found = if at == 0 || chars[at - 1] == '\n' {
            parse_rule_at(&chars, at)
        } else {
            None
        };
        match found {
            Some((entry, end)) => {
                entries.push(entry);
                assert(entries.deep_view() =~= before.push(entry@));
                assert(before.push(entry@) + rules_from(chars@, end as int) =~= before + (
                seq![entry@] + rules_from(chars@, end as int)));
                at = end;
            },
            None => {
                at += 1;
            },
        }
    }
    assert(entries.deep_view() + rules_from(chars@, at as int) =~= entries.deep_view());
    entries
}

/// None of the three searches goes backwards, and none leaves the text.
pub proof fn lemma_searches_go_forward(text: Seq<char>, at: int)
    requires
        0 <= at <= text.len(),
    ensures
        at <= after_spaces(text, at) <= text.len(),
        at <= next_quote(text, at) <= text.len(),
        at <= word_end(text, at) <= text.len(),
    decreases text.len() - at,
{
    if at < text.len() {
        lemma_searches_go_forward(text, at + 1);
    }
}

/// A rule ends behind the place where it begins, and within the text.
pub proof fn lemma_rule_ends_later(text: Seq<char>, at: int)
    requires
        rule_at(text, at) is Some,
    ensures
        ({
            let (entry, end) = rule_at(text, at).unwrap();
            at < end <= text.len()
        }),
{
    let pattern_quote = after_spaces(text, at);
    let pattern_end = next_quote(text, pattern_quote + 1);
    let colon = after_spaces(text, pattern_end + 1);
    let verb = after_spaces(text, colon + 1);
    let verb_end = word_end(text, verb);
    let argument_quote = after_spaces(text, verb_end);
    lemma_searches_go_forward(text, at);
    lemma_searches_go_forward(text, pattern_quote + 1);
    lemma_searches_go_forward(text, pattern_end + 1);
    lemma_searches_go_forward(text, colon + 1);
    lemma_searches_go_forward(text, verb);
    lemma_searches_go_forward(text, verb_end);
    lemma_searches_go_forward(text, argument_quote + 1);
}

/// No rule begins at the start of any line of `text`.
pub open spec fn holds_no_rule(text: Seq<char>) -> bool {
    forall|at: int|
        0 <= at < text.len() && is_line_start(text, at) ==> #[trigger] rule_at(text, at) is None
}

/// Where no rule begins at the start of a line, the search finds none.
pub proof fn lemma_no_rule_found(text: Seq<char>, at: int)
    requires
        holds_no_rule(text),
    ensures
        rules_from(text, at) == Seq::<RuleEntryView>::empty(),
    decreases text.len() - at,
{
    if 0 <= at < text.len() {
        if is_line_start(text, at) {
            assert(rule_at(text, at) is None);
        }
        lemma_no_rule_found(text, at + 1);
    }
}

} // verus!
