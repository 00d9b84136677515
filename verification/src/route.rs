//! The route table: the rules of a configuration text, tried in the order in
//! which they were written. A rule answers for a path where its pattern
//! matches the whole of the path, not a part of it.

use crate::config::{
    holds_no_rule, lemma_no_rule_found, rules_in, scan_rules, RuleEntry, RuleEntryView,
};
use crate::pattern::{is_anchored_match, matches_whole, pattern_is_valid, regex_compiles};
use vstd::prelude::*;
use vstd::string::{StrSliceExecFns, StringExecFns};

verus! {

/// What to do with a request whose path a rule covers.
#[derive(Debug, Clone, PartialEq, Eq)]
pub enum RouteAction {
    /// Answer with the contents of the named file.
    Open(String),
    /// The rule names a verb that has no meaning; a request that reaches it
    /// cannot be answered.
    Unhandled,
}

/// A [`RouteAction`] with its text as a sequence of characters.
pub enum RouteActionView {
    Open(Seq<char>),
    Unhandled,
}

impl View for RouteAction {
    type V = RouteActionView;

    open spec fn view(&self) -> RouteActionView {
        match self {
            RouteAction::Open(file) => RouteActionView::Open(file@),
            RouteAction::Unhandled => RouteActionView::Unhandled,
        }
    }
}

impl DeepView for RouteAction {
    type V = RouteActionView;

    open spec fn deep_view(&self) -> RouteActionView {
        self@
    }
}

/// One rule: a pattern for whole request paths, and what to do on a match.
#[derive(Debug, Clone, PartialEq, Eq)]
pub struct Route {
    pub pattern: String,
    pub action: RouteAction,
}

/// A [`Route`] with its texts as sequences of characters.
pub struct RouteView {
    pub pattern: Seq<char>,
    pub action: RouteActionView,
}

impl View for Route {
    type V = RouteView;

    open spec fn view(&self) -> RouteView {
        RouteView { pattern: self.pattern@, action: self.action@ }
    }
}

impl DeepView for Route {
    type V = RouteView;

    open spec fn deep_view(&self) -> RouteView {
        self@
    }
}

/// Whether `verb` spells `open`, in any mix of upper and lower case.
pub open spec fn is_open_verb(verb: Seq<char>) -> bool {
    &&& verb.len() == 4
    &&& (verb[0] == 'o' || verb[0] == 'O')
    &&& (verb[1] == 'p' || verb[1] == 'P')
    &&& (verb[2] == 'e' || verb[2] == 'E')
    &&& (verb[3] == 'n' || verb[3] == 'N')
}

/// The action that a rule asks for: `open` serves the file named by the
/// argument, every other verb is kept but has no meaning.
pub open spec fn action_of(verb: Seq<char>, argument: Seq<char>) -> RouteActionView {
    if is_open_verb(verb) {
        RouteActionView::Open(argument)
    } else {
        RouteActionView::Unhandled
    }
}

/// The rule that an entry stands for.
pub open spec fn route_of(entry: RuleEntryView) -> RouteView {
    RouteView { pattern: entry.pattern, action: action_of(entry.verb, entry.argument) }
}

impl RuleEntry {
    /// Whether the verb of this entry is `open`, whatever its case.
    pub fn has_open_verb(&self) -> (open: bool)
        ensures
            open == is_open_verb(self.verb@),
    {
        let verb = self.verb.as_str();
        if verb.unicode_len() != 4 {
            return false;
        }
        let c0 = verb.get_char(0);
        let c1 = verb.get_char(1);
        let c2 = verb.get_char(2);
        let c3 = verb.get_char(3);
        (c0 == 'o' || c0 == 'O') && (c1 == 'p' || c1 == 'P') && (c2 == 'e' || c2 == 'E') && (c3
            == 'n' || c3 == 'N')
    }

    /// The rule that the entry stands for.
    pub fn to_route(&self) -> (route: Route)
        ensures
            route@ == route_of(self@),
    {
        let action = if self.has_open_verb() {
            RouteAction::Open(self.argument.clone())
        } else {
            RouteAction::Unhandled
        };
        Route { pattern: self.pattern.clone(), action }
    }
}

/// Why a configuration text gives no route table.
#[derive(Debug, Clone, PartialEq, Eq)]
pub enum ConfigError {
    /// A rule carries a pattern that is no regular expression; the
    /// payload is that pattern.
    MalformedPattern(String),
}

/// A [`ConfigError`] with its text as a sequence of characters.
pub enum ConfigErrorView {
    MalformedPattern(Seq<char>),
}

impl View for ConfigError {
    type V = ConfigErrorView;

    open spec fn view(&self) -> ConfigErrorView {
        match self {
            ConfigError::MalformedPattern(pattern) => ConfigErrorView::MalformedPattern(pattern@),
        }
    }
}

impl ConfigErrorView {
    /// The error in words.
    pub open spec fn message(self) -> Seq<char> {
        match self {
            ConfigErrorView::MalformedPattern(pattern) => "Failed to build regex for route '"@
                + pattern + "', cannot start!"@,
        }
    }
}

impl ConfigError {
    /// The error in words, naming the pattern at fault.
    pub fn message(&self) -> (text: String)
        ensures
            text@ == self@.message(),
    {
        match self {
            ConfigError::MalformedPattern(pattern) => {
                String::from_str("Failed to build regex for route '").concat(
                    pattern.as_str(),
                ).concat("', cannot start!")
            },
        }
    }
}

/// What an entry gives, once it is known whether its pattern is a regular
/// expression: the rule it stands for, or the pattern as the fault.
pub open spec fn checked_route(entry: RuleEntryView, valid: bool) -> Result<
    RouteView,
    ConfigErrorView,
> {
    if valid {
        Ok(route_of(entry))
    } else {
        Err(ConfigErrorView::MalformedPattern(entry.pattern))
    }
}

impl RuleEntry {
    /// The rule that the entry stands for, where `pattern_compiles` says
    /// that its pattern is a regular expression; else the error that names
    /// the pattern.
    pub fn to_checked_route(&self, pattern_compiles: bool) -> (made: Result<Route, ConfigError>)
        ensures
            match made {
                Ok(route) => checked_route(self@, pattern_compiles) == Ok::<
                    RouteView,
                    ConfigErrorView,
                >(route@),
                Err(error) => checked_route(self@, pattern_compiles) == Err::<
                    RouteView,
                    ConfigErrorView,
                >(error@),
            },
    {
        if pattern_compiles {
            Ok(self.to_route())
        } else {
            Err(ConfigError::MalformedPattern(self.pattern.clone()))
        }
    }
}

/// Entry `k` is the first of `entries` whose pattern is no regular expression.
pub open spec fn is_first_malformed(entries: Seq<RuleEntryView>, k: int) -> bool {
    &&& 0 <= k < entries.len()
    &&& !pattern_is_valid(entries[k].pattern)
    &&& forall|j: int| 0 <= j < k ==> pattern_is_valid(#[trigger] entries[j].pattern)
}

/// Every pattern of `entries` is a regular expression.
pub open spec fn all_well_formed(entries: Seq<RuleEntryView>) -> bool {
    forall|j: int| 0 <= j < entries.len() ==> pattern_is_valid(#[trigger] entries[j].pattern)
}

/// The table that a list of entries gives: one rule for each entry, in the
/// same order, unless a pattern is malformed; then the first such pattern is
/// reported and there is no table.
pub open spec fn table_of(entries: Seq<RuleEntryView>) -> Result<Seq<RouteView>, ConfigErrorView> {
    if all_well_formed(entries) {
        Ok(entries.map_values(|entry: RuleEntryView| route_of(entry)))
    } else {
        let k = choose|k: int| is_first_malformed(entries, k);
        Err(ConfigErrorView::MalformedPattern(entries[k].pattern))
    }
}

/// Rule `k` is the first of `routes` whose pattern matches the whole of
/// `path`.
pub open spec fn is_first_match(routes: Seq<RouteView>, path: Seq<char>, k: int) -> bool {
    &&& 0 <= k < routes.len()
    &&& matches_whole(routes[k].pattern, path)
    &&& forall|j: int| 0 <= j < k ==> !matches_whole(#[trigger] routes[j].pattern, path)
}

/// No rule of `routes` has a pattern that matches the whole of `path`.
pub open spec fn no_match(routes: Seq<RouteView>, path: Seq<char>) -> bool {
    forall|j: int| 0 <= j < routes.len() ==> !matches_whole(#[trigger] routes[j].pattern, path)
}

/// The rule that answers for `path`: the first one, in the order of the
/// table, whose pattern matches the whole of it.
pub open spec fn lookup(routes: Seq<RouteView>, path: Seq<char>) -> Option<RouteView> {
    if no_match(routes, path) {
        None
    } else {
        Some(routes[choose|k: int| is_first_match(routes, path, k)])
    }
}

/// The rules of a server, in the order in which they were declared. A table
/// is made once and never changes; every pattern in it is a regular
/// expression.
#[derive(Debug)]
pub struct RouteTable {
    routes: Vec<Route>,
}

impl View for RouteTable {
    type V = Seq<RouteView>;

    closed spec fn view(&self) -> Seq<RouteView> {
        self.routes.deep_view()
    }
}

impl RouteTable {
    #[verifier::type_invariant]
    spec fn patterns_compile(&self) -> bool {
        forall|j: int|
            0 <= j < self.routes.len() ==> pattern_is_valid(#[trigger] self.routes[j].pattern@)
    }

    /// Makes the table for a list of rule entries, or reports the first
    /// pattern among them that is no regular expression.
    pub fn from_entries(entries: Vec<RuleEntry>) -> (made: Result<RouteTable, ConfigError>)
        ensures
            match made {
                Ok(table) => table_of(entries.deep_view()) == Ok::<Seq<RouteView>, ConfigErrorView>(
                    table@,
                ),
                Err(error) => table_of(entries.deep_view()) == Err::<
                    Seq<RouteView>,
                    ConfigErrorView,
                >(error@),
            },
    {
        let ghost given = entries.deep_view();
        let mut routes: Vec<Route> = Vec::new();
        let mut i: usize = 0;
        while i < entries.len()
            invariant
                i <= entries.len(),
                given == entries.deep_view(),
                routes.len() == i,
                forall|j: int| 0 <= j < i ==> pattern_is_valid(#[trigger] given[j].pattern),
                forall|j: int| 0 <= j < i ==> (#[trigger] routes[j])@ == route_of(given[j]),
            decreases entries.len() - i,
        {
            let entry = &entries[i];
            assert(entry@ == given[i as int]);
            let valid = regex_compiles(entry.pattern.as_str());
            match entry.to_checked_route(valid) {
                Ok(route) => routes.push(route),
                Err(error) => {
                    proof {
                        assert(is_first_malformed(given, i as int));
                        let k = choose|k: int| is_first_malformed(given, k);
                        assert(k == i);
                    }
                    return Err(error);
                },
            }
            i += 1;
        }
        proof {
            assert(all_well_formed(given));
            assert(routes.deep_view() =~= given.map_values(|entry: RuleEntryView| route_of(entry)));
        }
        Ok(RouteTable { routes })
    }

    /// Makes the table for a configuration text: one rule for each rule
    /// written in it, in the order in which they stand. The first rule whose
    /// pattern is no regular expression makes the whole text fail.
    pub fn build(config_text: &str) -> (made: Result<RouteTable, ConfigError>)
        ensures
            match made {
                Ok(table) => table_of(rules_in(config_text@)) == Ok::<
                    Seq<RouteView>,
                    ConfigErrorView,
                >(table@),
                Err(error) => table_of(rules_in(config_text@)) == Err::<
                    Seq<RouteView>,
                    ConfigErrorView,
                >(error@),
            },
    {
        RouteTable::from_entries(scan_rules(config_text))
    }

    /// Asks the engine, for each rule in order, whether its pattern matches
    /// the whole of `path`.
    pub fn answers(&self, path: &str) -> (answers: Vec<bool>)
        ensures
            answers.len() == self@.len(),
            forall|i: int|
                0 <= i < answers.len() ==> answers[i] == matches_whole(
                    (#[trigger] self@[i]).pattern,
                    path@,
                ),
    {
        proof {
            use_type_invariant(self);
        }
        let mut answers: Vec<bool> = Vec::new();
        let mut i: usize = 0;
        while i < self.routes.len()
            invariant
                i <= self.routes.len(),
                answers.len() == i,
                forall|j: int|
                    0 <= j < self.routes.len() ==> pattern_is_valid(
                        #[trigger] self.routes[j].pattern@,
                    ),
                forall|j: int|
                    0 <= j < i ==> answers[j] == matches_whole(
                        (#[trigger] self@[j]).pattern,
                        path@,
                    ),
            decreases self.routes.len() - i,
        {
            assert(self@[i as int] == self.routes[i as int]@);
            answers.push(is_anchored_match(self.routes[i].pattern.as_str(), path));
            i += 1;
        }
        answers
    }

    /// The number of rules.
    pub fn len(&self) -> (n: usize)
        ensures
            n == self@.len(),
    {
        self.routes.len()
    }

    /// The rule at position `i`, counted from 0 in the order of declaration.
    pub fn get(&self, i: usize) -> (route: Option<&Route>)
        ensures
            match route {
                Some(r) => i < self@.len() && r@ == self@[i as int] && pattern_is_valid(r@.pattern),
                None => i >= self@.len(),
            },
    {
        proof {
            use_type_invariant(self);
        }
        if i < self.routes.len() {
            Some(&self.routes[i])
        } else {
            None
        }
    }
}

/// Answer `k` is the first of `answers` that is `true`.
pub open spec fn is_first_yes(answers: Seq<bool>, k: int) -> bool {
    &&& 0 <= k < answers.len()
    &&& answers[k]
    &&& forall|j: int| 0 <= j < k ==> !answers[j]
}

/// Goes through a list of answers in order and finds the first that is
/// `true`; `None` where every answer is `false`.
pub fn first_yes(answers: &Vec<bool>) -> (found: Option<usize>)
    ensures
        match found {
            Some(k) => is_first_yes(answers@, k as int),
            None => forall|j: int| 0 <= j < answers.len() ==> !answers[j],
        },
{
    let mut i: usize = 0;
    while i < answers.len()
        invariant
            i <= answers.len(),
            forall|j: int| 0 <= j < i ==> !answers[j],
        decreases answers.len() - i,
    {
        if answers[i] {
            return Some(i);
        }
        i += 1;
    }
    None
}

/// Finds the rule that answers for a request path: the first rule of the
/// table whose pattern matches the whole of it, or none. The engine is
/// asked about every rule; the first `true` among its answers decides.
pub fn match_route<'a>(route_to_match: &str, routes: &'a RouteTable) -> (found: Option<&'a Route>)
    ensures
        match found {
            Some(route) => lookup(routes@, route_to_match@) == Some(route@),
            None => lookup(routes@, route_to_match@) is None,
        },
{
    let answers = routes.answers(route_to_match);
    match first_yes(&answers) {
        Some(k) => {
            proof {
                assert(is_first_match(routes@, route_to_match@, k as int));
                let chosen = choose|k: int| is_first_match(routes@, route_to_match@, k);
                assert(chosen == k);
            }
            Some(&routes.routes[k])
        },
        None => None,
    }
}

/// Where some rule matches a path, one rule is the first to do so, and it
/// stands no later than any rule that matches.
pub proof fn lemma_first_match_exists(routes: Seq<RouteView>, path: Seq<char>, i: int)
    requires
        0 <= i < routes.len(),
        matches_whole(routes[i].pattern, path),
    ensures
        exists|k: int| 0 <= k <= i && is_first_match(routes, path, k),
    decreases i,
{
    if exists|j: int| 0 <= j < i && matches_whole(#[trigger] routes[j].pattern, path) {
        let j = choose|j: int| 0 <= j < i && matches_whole(#[trigger] routes[j].pattern, path);
        lemma_first_match_exists(routes, path, j);
        let k = choose|k: int| 0 <= k <= j && is_first_match(routes, path, k);
        assert(0 <= k <= i && is_first_match(routes, path, k));
    } else {
        assert(is_first_match(routes, path, i));
    }
}

/// Matching goes by the order of declaration: of two rules that both match
/// a path, the later one never answers. The answer comes from the first rule
/// of the table that matches, which is the earlier of the two unless a rule
/// before it matches as well.
pub proof fn law_first_declared_wins(
    routes: Seq<RouteView>,
    path: Seq<char>,
    earlier: int,
    later: int,
)
    requires
        0 <= earlier < later < routes.len(),
        matches_whole(routes[earlier].pattern, path),
        matches_whole(routes[later].pattern, path),
    ensures
        !is_first_match(routes, path, later),
        exists|k: int|
            0 <= k <= earlier && is_first_match(routes, path, k) && lookup(routes, path) == Some(
                routes[k],
            ),
        no_match(routes.take(earlier), path) ==> lookup(routes, path) == Some(routes[earlier]),
{
    lemma_first_match_exists(routes, path, earlier);
    let k = choose|k: int| 0 <= k <= earlier && is_first_match(routes, path, k);
    let chosen = choose|k: int| is_first_match(routes, path, k);
    assert(chosen == k);
    if no_match(routes.take(earlier), path) {
        if k < earlier {
            assert(routes.take(earlier)[k] == routes[k]);
        }
    }
}

/// A configuration text in which no rule is written gives the empty table,
/// and the empty table has no rule that answers for any path.
pub proof fn law_no_rules_no_match(config_text: Seq<char>, path: Seq<char>)
    requires
        holds_no_rule(config_text),
    ensures
        rules_in(config_text) == Seq::<RuleEntryView>::empty(),
        table_of(rules_in(config_text)) == Ok::<Seq<RouteView>, ConfigErrorView>(Seq::empty()),
        lookup(Seq::empty(), path) is None,
{
    lemma_no_rule_found(config_text, 0);
    let rules = rules_in(config_text);
    assert(rules.map_values(|entry: RuleEntryView| route_of(entry)) =~= Seq::<RouteView>::empty());
}

} // verus!
