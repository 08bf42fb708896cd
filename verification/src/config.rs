//! Path Configuration — the core routing mechanism.
//!
//! This mirrors the path configuration pattern from Hotwire Native (turbo-ios /
//! turbo-android). A JSON file (served by the Rails app or bundled locally) maps
//! URL path patterns to presentation rules that the native shell uses to decide
//! HOW to display each page. Rules are evaluated in order and the LAST match wins.

use vstd::prelude::*;
use crate::text::{copy_opt, opt_chars, strings_of};

verus! {

#[verifier::external_type_specification]
#[verifier::external_body]
pub struct ExRegex(regex_lite::Regex);

/// `regex_lite::Regex::new(pattern)` succeeds.
pub uninterp spec fn pattern_compiles(pattern: Seq<char>) -> bool;

/// The regex compiled from `pattern` matches somewhere in `haystack`.
pub uninterp spec fn pattern_matches(pattern: Seq<char>, haystack: Seq<char>) -> bool;

/// How the shell presents a destination.
#[derive(Debug, Clone, Copy, PartialEq, Eq, Structural)]
pub enum Presentation {
    /// Navigate in the current window (default)
    Default,
    /// Open in a modal/sheet window
    Modal,
    /// Open in a new separate window
    NewWindow,
    /// Replace the current page (no back navigation)
    Replace,
    /// Route to a fully native screen
    Native,
    /// Do nothing (handled by bridge component); written `none` in the
    /// configuration file
    Nothing,
}

/// The presentation a rule gets when it does not name one.
pub fn default_presentation() -> (p: Presentation)
    ensures
        p == Presentation::Default,
{
    Presentation::Default
}

/// App-wide settings carried by the path configuration.
#[derive(Debug, Clone, Copy)]
pub struct PathSettings {
    pub screenshots_enabled: bool,
    pub pull_to_refresh_enabled: bool,
}

impl Default for PathSettings {
    fn default() -> (s: Self)
        ensures
            !s.screenshots_enabled,
            !s.pull_to_refresh_enabled,
    {
        PathSettings { screenshots_enabled: false, pull_to_refresh_enabled: false }
    }
}

/// What a rule says about the pages it matches.
///
/// A rule's window size and bridge context stay with the configuration the app
/// loaded; the rule's index (see [`PathConfigurationStore::matching_rule`]) finds them.
#[derive(Debug)]
pub struct PathProperties {
    pub presentation: Presentation,
    pub title: Option<String>,
    pub pull_to_refresh_enabled: Option<bool>,
}

/// The properties of a rule, as values.
pub struct PropertiesView {
    pub presentation: Presentation,
    pub title: Option<Seq<char>>,
    pub pull_to_refresh_enabled: Option<bool>,
}

impl View for PathProperties {
    type V = PropertiesView;

    open spec fn view(&self) -> PropertiesView {
        PropertiesView {
            presentation: self.presentation,
            title: opt_chars(self.title),
            pull_to_refresh_enabled: self.pull_to_refresh_enabled,
        }
    }
}

/// The properties of a path no rule matches: default presentation, nothing else.
pub open spec fn default_properties() -> PropertiesView {
    PropertiesView { presentation: Presentation::Default, title: None, pull_to_refresh_enabled: None }
}

impl PathProperties {
    /// Properties with the default presentation and nothing else set.
    pub fn new() -> (p: Self)
        ensures
            p@ == default_properties(),
    {
        PathProperties { presentation: Presentation::Default, title: None, pull_to_refresh_enabled: None }
    }

    /// A copy of these properties.
    pub fn duplicate(&self) -> (p: Self)
        ensures
            p@ == self@,
    {
        PathProperties {
            presentation: self.presentation,
            title: copy_opt(&self.title),
            pull_to_refresh_enabled: self.pull_to_refresh_enabled,
        }
    }
}

/// One rule: the patterns it applies to and what it says about those pages.
#[derive(Debug)]
pub struct PathRule {
    pub patterns: Vec<String>,
    pub properties: PathProperties,
}

/// A rule as values: its patterns and its properties.
pub struct RuleView {
    pub patterns: Seq<Seq<char>>,
    pub properties: PropertiesView,
}

impl View for PathRule {
    type V = RuleView;

    open spec fn view(&self) -> RuleView {
        RuleView { patterns: strings_of(self.patterns@), properties: self.properties@ }
    }
}

/// The whole path configuration.
#[derive(Debug)]
pub struct PathConfiguration {
    pub settings: PathSettings,
    pub rules: Vec<PathRule>,
}

impl View for PathConfiguration {
    type V = Seq<RuleView>;

    /// The rules, in order.
    open spec fn view(&self) -> Seq<RuleView> {
        self.rules@.map_values(|r: PathRule| r@)
    }
}

/// The predicate "this pattern compiles".
pub open spec fn compiles() -> spec_fn(Seq<char>) -> bool {
    |p: Seq<char>| pattern_compiles(p)
}

/// The predicate "this pattern does not compile".
pub open spec fn fails_to_compile() -> spec_fn(Seq<char>) -> bool {
    |p: Seq<char>| !pattern_compiles(p)
}

/// A rule as the store keeps it: only the patterns that compile, in order.
pub open spec fn compiled_rule(rule: RuleView) -> RuleView {
    RuleView { patterns: rule.patterns.filter(compiles()), properties: rule.properties }
}

/// The rules as the store keeps them.
pub open spec fn compiled_rules(rules: Seq<RuleView>) -> Seq<RuleView> {
    rules.map_values(|r: RuleView| compiled_rule(r))
}

/// The patterns of `rules` that do not compile, rule by rule and in order.
pub open spec fn rejected_patterns(rules: Seq<RuleView>) -> Seq<Seq<char>>
    decreases rules.len(),
{
    if rules.len() == 0 {
        Seq::empty()
    } else {
        rejected_patterns(rules.drop_last()) + rules.last().patterns.filter(fails_to_compile())
    }
}

/// Some pattern of the rule matches `path`.
pub open spec fn rule_matches(rule: RuleView, path: Seq<char>) -> bool {
    exists|j: int| 0 <= j < rule.patterns.len() && pattern_matches(#[trigger] rule.patterns[j], path)
}

/// The index of the last rule that matches `path`, if any.
pub open spec fn winning_rule(rules: Seq<RuleView>, path: Seq<char>) -> Option<int>
    decreases rules.len(),
{
    if rules.len() == 0 {
        None
    } else if rule_matches(rules.last(), path) {
        Some(rules.len() - 1)
    } else {
        winning_rule(rules.drop_last(), path)
    }
}

/// The properties that apply to `path`: the last matching rule's, or the defaults.
pub open spec fn properties_for(rules: Seq<RuleView>, path: Seq<char>) -> PropertiesView {
    match winning_rule(rules, path) {
        Some(i) => rules[i].properties,
        None => default_properties(),
    }
}

/// A pattern compiled once, with the text it was compiled from.
///
/// Only [`compile_pattern`] builds one, from the text it stores.
#[derive(Debug)]
struct CompiledPattern {
    source: String,
    regex: regex_lite::Regex,
}

/// Compiles a pattern. Calls `regex_lite::Regex::new`; the contract names
/// whether it succeeds by the pattern alone.
#[verifier::external_body]
fn compile_pattern(pattern: &str) -> (r: Option<CompiledPattern>)
    ensures
        r is Some <==> pattern_compiles(pattern@),
        r matches Some(c) ==> c.source@ == pattern@,
{
    regex_lite::Regex::new(pattern).ok().map(|regex| CompiledPattern { source: pattern.to_string(), regex })
}

/// Whether a compiled pattern matches. Calls `regex_lite::Regex::is_match`; the
/// contract names the answer by the pattern's text and the haystack.
#[verifier::external_body]
fn pattern_is_match(pattern: &CompiledPattern, haystack: &str) -> (b: bool)
    ensures
        b == pattern_matches(pattern.source@, haystack@),
{
    pattern.regex.is_match(haystack)
}

/// A rule with its patterns already compiled.
#[derive(Debug)]
struct CompiledRule {
    patterns: Vec<CompiledPattern>,
    properties: PathProperties,
}

impl View for CompiledRule {
    type V = RuleView;

    closed spec fn view(&self) -> RuleView {
        RuleView {
            patterns: self.patterns@.map_values(|p: CompiledPattern| p.source@),
            properties: self.properties@,
        }
    }
}

/// The active path configuration, with every pattern compiled once so that
/// matching a path does not recompile any regex.
#[derive(Debug)]
pub struct PathConfigurationStore {
    compiled: Vec<CompiledRule>,
}

impl View for PathConfigurationStore {
    type V = Seq<RuleView>;

    /// The compiled rules, in order.
    closed spec fn view(&self) -> Seq<RuleView> {
        self.compiled@.map_values(|r: CompiledRule| r@)
    }
}

/// Compile one rule's patterns, collecting the ones that do not compile.
fn compile_rule(rule: &PathRule, rejected: &mut Vec<String>) -> (c: CompiledRule)
    ensures
        c@ == compiled_rule(rule@),
        strings_of(final(rejected)@) == strings_of(old(rejected)@) + rule@.patterns.filter(
            fails_to_compile(),
        ),
{
    let ghost pats = rule@.patterns;
    let ghost start = strings_of(rejected@);
    let mut patterns: Vec<CompiledPattern> = Vec::new();
    let mut i: usize = 0;
    assert(pats.take(0) =~= Seq::<Seq<char>>::empty());
    assert(Seq::<Seq<char>>::empty().filter(compiles()) =~= Seq::<Seq<char>>::empty()) by {
        reveal(Seq::filter);
    }
    assert(Seq::<Seq<char>>::empty().filter(fails_to_compile()) =~= Seq::<Seq<char>>::empty()) by {
        reveal(Seq::filter);
    }
    while i < rule.patterns.len()
        invariant
            i <= rule.patterns.len(),
            pats == rule@.patterns,
            pats == strings_of(rule.patterns@),
            patterns@.map_values(|p: CompiledPattern| p.source@) == pats.take(i as int).filter(
                compiles(),
            ),
            strings_of(rejected@) == start + pats.take(i as int).filter(fails_to_compile()),
        decreases rule.patterns.len() - i,
    {
        let ghost before_ok = patterns@.map_values(|p: CompiledPattern| p.source@);
        let ghost before_bad = strings_of(rejected@);
        assert(pats.take(i + 1) =~= pats.take(i as int).push(pats[i as int]));
        proof {
            pats.take(i as int).lemma_filter_push(pats[i as int], compiles());
            pats.take(i as int).lemma_filter_push(pats[i as int], fails_to_compile());
        }
        assert(pats[i as int] == rule.patterns@[i as int]@);
        match compile_pattern(rule.patterns[i].as_str()) {
            Some(c) => {
                patterns.push(c);
                assert(patterns@.map_values(|p: CompiledPattern| p.source@) =~= before_ok.push(
                    pats[i as int],
                ));
                assert(strings_of(rejected@) =~= before_bad);
            },
            None => {
                rejected.push(rule.patterns[i].clone());
                assert(strings_of(rejected@) =~= before_bad.push(pats[i as int]));
                assert(start + pats.take(i as int).filter(fails_to_compile()).push(pats[i as int])
                    =~= (start + pats.take(i as int).filter(fails_to_compile())).push(
                    pats[i as int],
                ));
            },
        }
        i = i + 1;
    }
    assert(pats.take(rule.patterns.len() as int) =~= pats);
    CompiledRule { patterns, properties: rule.properties.duplicate() }
}

impl PathConfigurationStore {
    /// A store with no rules: every path gets the default presentation.
    pub fn new() -> (s: Self)
        ensures
            s@ == Seq::<RuleView>::empty(),
    {
        let s = PathConfigurationStore { compiled: Vec::new() };
        assert(s@ =~= Seq::<RuleView>::empty());
        s
    }

    /// Replace the active configuration, compiling every pattern once.
    ///
    /// A pattern that does not compile is left out of its rule, and the rest of
    /// the rule still applies. The patterns left out are returned, in order, so
    /// the caller can report them: a typo in the configuration should not look
    /// like a routing bug.
    pub fn set(&mut self, config: PathConfiguration) -> (rejected: Vec<String>)
        ensures
            final(self)@ == compiled_rules(config@),
            strings_of(rejected@) == rejected_patterns(config@),
    {
        let ghost rules = config@;
        let mut compiled: Vec<CompiledRule> = Vec::new();
        let mut rejected: Vec<String> = Vec::new();
        let mut i: usize = 0;
        assert(rules.take(0) =~= Seq::<RuleView>::empty());
        assert(compiled@.map_values(|r: CompiledRule| r@) =~= compiled_rules(rules.take(0)));
        assert(strings_of(rejected@) =~= rejected_patterns(rules.take(0)));
        while i < config.rules.len()
            invariant
                i <= config.rules.len(),
                rules == config@,
                compiled@.map_values(|r: CompiledRule| r@) == compiled_rules(rules.take(i as int)),
                strings_of(rejected@) == rejected_patterns(rules.take(i as int)),
            decreases config.rules.len() - i,
        {
            let ghost before = compiled@.map_values(|r: CompiledRule| r@);
            assert(rules[i as int] == config.rules@[i as int]@);
            let c = compile_rule(&config.rules[i], &mut rejected);
            let ghost cv = c@;
            compiled.push(c);
            assert(rules.take(i + 1).drop_last() =~= rules.take(i as int));
            assert(rules.take(i + 1).last() == rules[i as int]);
            assert(compiled_rules(rules.take(i + 1)) =~= compiled_rules(rules.take(i as int)).push(
                compiled_rule(rules[i as int]),
            ));
            assert(compiled@.map_values(|r: CompiledRule| r@) =~= before.push(cv));
            i = i + 1;
        }
        assert(rules.take(config.rules.len() as int) =~= rules);
        self.compiled = compiled;
        rejected
    }

    /// Whether compiled rule `i` matches `path`.
    fn rule_is_match(&self, i: usize, path: &str) -> (b: bool)
        requires
            i < self@.len(),
        ensures
            b == rule_matches(self@[i as int], path@),
    {
        assert(self@[i as int] == self.compiled@[i as int]@);
        let rule = &self.compiled[i];
        let ghost pats = self@[i as int].patterns;
        assert(pats == rule.patterns@.map_values(|p: CompiledPattern| p.source@));
        let mut j: usize = 0;
        while j < rule.patterns.len()
            invariant
                j <= rule.patterns.len(),
                pats == rule.patterns@.map_values(|p: CompiledPattern| p.source@),
                i < self@.len(),
                pats == self@[i as int].patterns,
                forall|k: int| 0 <= k < j ==> !pattern_matches(#[trigger] pats[k], path@),
            decreases rule.patterns.len() - j,
        {
            assert(pats[j as int] == rule.patterns@[j as int].source@);
            if pattern_is_match(&rule.patterns[j], path) {
                return true;
            }
            j = j + 1;
        }
        false
    }

    /// The index of the rule that decides `path`: the last one with a matching
    /// pattern, or `None` when no rule matches.
    pub fn matching_rule(&self, path: &str) -> (r: Option<usize>)
        ensures
            match r {
                Some(i) => winning_rule(self@, path@) == Some(i as int),
                None => winning_rule(self@, path@) is None,
            },
    {
        let mut found: Option<usize> = None;
        let mut i: usize = 0;
        let ghost rules = self@;
        assert(rules.take(0) =~= Seq::<RuleView>::empty());
        while i < self.compiled.len()
            invariant
                i <= self.compiled.len(),
                rules == self@,
                rules.len() == self.compiled@.len(),
                match found {
                    Some(k) => winning_rule(rules.take(i as int), path@) == Some(k as int),
                    None => winning_rule(rules.take(i as int), path@) is None,
                },
            decreases self.compiled.len() - i,
        {
            assert(rules.take(i + 1).drop_last() =~= rules.take(i as int));
            assert(rules.take(i + 1).last() == rules[i as int]);
            if self.rule_is_match(i, path) {
                found = Some(i);
            }
            i = i + 1;
        }
        assert(rules.take(self.compiled.len() as int) =~= rules);
        found
    }

    /// Find the matching rule for a given URL path.
    /// Rules are evaluated in order; the LAST match wins (same as Hotwire Native).
    pub fn properties_for_path(&self, path: &str) -> (p: PathProperties)
        ensures
            p@ == properties_for(self@, path@),
    {
        match self.matching_rule(path) {
            Some(i) => {
                proof {
                    law_last_match_wins(self@, path@);
                }
                assert(self@[i as int] == self.compiled@[i as int]@);
                self.compiled[i].properties.duplicate()
            },
            None => PathProperties::new(),
        }
    }
}

/// The last match wins: the deciding rule matches the path, no later rule
/// does, and some rule decides whenever any rule matches.
pub proof fn law_last_match_wins(rules: Seq<RuleView>, path: Seq<char>)
    ensures
        winning_rule(rules, path) matches Some(i) ==> 0 <= i < rules.len() && rule_matches(
            rules[i],
            path,
        ) && forall|j: int| i < j < rules.len() ==> !rule_matches(#[trigger] rules[j], path),
        winning_rule(rules, path) is None <==> forall|j: int|
            0 <= j < rules.len() ==> !rule_matches(#[trigger] rules[j], path),
    decreases rules.len(),
{
    if rules.len() > 0 {
        law_last_match_wins(rules.drop_last(), path);
        if !rule_matches(rules.last(), path) {
            assert forall|j: int| 0 <= j < rules.len() - 1 implies rules[j] == rules.drop_last()[j] by {}
        }
    }
}

/// A pattern that does not compile never disables the rest of its rule: a
/// compiled rule matches a path exactly when one of the patterns it was written with
/// compiles and matches it.
pub proof fn law_invalid_patterns_do_not_disable_a_rule(rule: RuleView, path: Seq<char>)
    ensures
        rule_matches(compiled_rule(rule), path) <==> exists|j: int|
            0 <= j < rule.patterns.len() && pattern_compiles(#[trigger] rule.patterns[j])
                && pattern_matches(rule.patterns[j], path),
{
    let kept = rule.patterns.filter(compiles());
    if rule_matches(compiled_rule(rule), path) {
        let j = choose|j: int| 0 <= j < kept.len() && pattern_matches(#[trigger] kept[j], path);
        rule.patterns.lemma_filter_pred(compiles(), j);
        assert(pattern_compiles(kept[j]));
        assert(kept.contains(kept[j]));
        rule.patterns.lemma_filter_contains_rev(compiles(), kept[j]);
        let k = choose|k: int| 0 <= k < rule.patterns.len() && rule.patterns[k] == kept[j];
        assert(pattern_compiles(rule.patterns[k]) && pattern_matches(rule.patterns[k], path));
    }
    if exists|j: int|
        0 <= j < rule.patterns.len() && pattern_compiles(#[trigger] rule.patterns[j])
            && pattern_matches(rule.patterns[j], path) {
        let j = choose|j: int|
            0 <= j < rule.patterns.len() && pattern_compiles(#[trigger] rule.patterns[j])
                && pattern_matches(rule.patterns[j], path);
        assert(compiles()(rule.patterns[j]));
        rule.patterns.lemma_filter_contains(compiles(), j);
        assert(kept.contains(rule.patterns[j]));
        let k = choose|k: int| 0 <= k < kept.len() && kept[k] == rule.patterns[j];
        assert(pattern_matches(kept[k], path));
        assert(compiled_rule(rule).patterns[k] == kept[k]);
        assert(rule_matches(compiled_rule(rule), path));
    }
}

/// With no rules, every path gets the default properties.
pub proof fn law_no_rules_means_defaults(path: Seq<char>)
    ensures
        properties_for(Seq::<RuleView>::empty(), path) == default_properties(),
{
}

} // verus!
