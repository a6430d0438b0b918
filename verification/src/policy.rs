//! The policy: which rule decides a call, and what it decides.

use crate::json::{null_value, value_clone, value_member, value_same, value_text, Json};
use crate::table::Table;
use crate::text::{begins_with, has_part, same_text};
use serde_json::Value;
use std::time::Duration;
use vstd::prelude::*;

verus! {

/// What is done with a call.
#[derive(Debug, Clone, Copy, PartialEq, Eq, Structural)]
pub enum Action {
    Allow,
    Deny,
    RequireApproval,
}

/// Conditions on one argument of a call. Those that are given must all hold.
#[derive(Debug)]
pub struct ArgMatch {
    pub equals: Option<Value>,
    pub regex: Option<String>,
    pub starts_with: Option<String>,
    pub not_starts_with: Option<String>,
    pub contains: Option<String>,
}

/// One rule: the calls that it speaks of, and what is done with them.
#[derive(Debug)]
pub struct Rule {
    pub id: String,
    pub description: Option<String>,
    pub tool: String,
    pub tool_regex: bool,
    pub args: Table<ArgMatch>,
    pub action: Action,
    /// Timeout for require_approval verdicts (seconds). Default 120.
    pub approval_timeout_s: Option<u64>,
}

/// Rules in the order in which they are tried, and what is done with a call
/// that none of them speaks of.
#[derive(Debug)]
pub struct Policy {
    pub version: u32,
    pub default: Action,
    pub rules: Vec<Rule>,
}

/// The action that is taken on a call, and the rule that says so, if any.
#[derive(Debug)]
pub struct Verdict<'a> {
    pub rule: Option<&'a Rule>,
    pub action: Action,
}

/// What the conditions on one argument say.
pub struct Conditions {
    pub equals: Option<Json>,
    pub regex: Option<Seq<char>>,
    pub starts_with: Option<Seq<char>>,
    pub not_starts_with: Option<Seq<char>>,
    pub contains: Option<Seq<char>>,
}

/// What a rule says.
pub struct RuleTerms {
    pub id: Seq<char>,
    pub description: Option<Seq<char>>,
    pub tool: Seq<char>,
    pub tool_regex: bool,
    pub args: Map<Seq<char>, Conditions>,
    pub action: Action,
    pub approval_timeout_s: Option<u64>,
}

/// What a policy says.
pub struct Terms {
    pub version: u32,
    pub default: Action,
    pub rules: Seq<RuleTerms>,
}

/// The text of an optional string.
pub open spec fn text_of(s: Option<String>) -> Option<Seq<char>> {
    match s {
        Some(s) => Some(s@),
        None => None,
    }
}

impl View for ArgMatch {
    type V = Conditions;

    open spec fn view(&self) -> Conditions {
        Conditions {
            equals: match self.equals {
                Some(v) => Some(crate::json::json_of(v)),
                None => None,
            },
            regex: text_of(self.regex),
            starts_with: text_of(self.starts_with),
            not_starts_with: text_of(self.not_starts_with),
            contains: text_of(self.contains),
        }
    }
}

impl View for Rule {
    type V = RuleTerms;

    open spec fn view(&self) -> RuleTerms {
        RuleTerms {
            id: self.id@,
            description: text_of(self.description),
            tool: self.tool@,
            tool_regex: self.tool_regex,
            args: self.args@.map_values(|m: ArgMatch| m@),
            action: self.action,
            approval_timeout_s: self.approval_timeout_s,
        }
    }
}

impl View for Policy {
    type V = Terms;

    open spec fn view(&self) -> Terms {
        Terms {
            version: self.version,
            default: self.default,
            rules: self.rules@.map_values(|r: Rule| r@),
        }
    }
}

fn clone_text(s: &Option<String>) -> (r: Option<String>)
    ensures
        text_of(r) == text_of(*s),
{
    match s {
        Some(s) => Some(s.clone()),
        None => None,
    }
}

impl Clone for ArgMatch {
    fn clone(&self) -> (r: Self)
        ensures
            r@ == self@,
    {
        ArgMatch {
            equals: match &self.equals {
                Some(v) => Some(value_clone(v)),
                None => None,
            },
            regex: clone_text(&self.regex),
            starts_with: clone_text(&self.starts_with),
            not_starts_with: clone_text(&self.not_starts_with),
            contains: clone_text(&self.contains),
        }
    }
}

impl Clone for Rule {
    fn clone(&self) -> (r: Self)
        ensures
            r@ == self@,
    {
        let r = Rule {
            id: self.id.clone(),
            description: clone_text(&self.description),
            tool: self.tool.clone(),
            tool_regex: self.tool_regex,
            args: self.args.clone(),
            action: self.action,
            approval_timeout_s: self.approval_timeout_s,
        };
        proof {
            assert forall|k: Seq<char>| self.args@.dom().contains(k) implies (
            #[trigger] r.args@[k])@ == self.args@[k]@ by {
                assert(cloned(self.args@[k], r.args@[k]));
            }
            assert(r@.args =~= self@.args);
        }
        r
    }
}

impl Clone for Policy {
    fn clone(&self) -> (r: Self)
        ensures
            r@ == self@,
    {
        let mut rules: Vec<Rule> = Vec::new();
        let mut i: usize = 0;
        while i < self.rules.len()
            invariant
                i <= self.rules@.len(),
                rules@.len() == i,
                forall|j: int| 0 <= j < i ==> (#[trigger] rules@[j])@ == self.rules@[j]@,
            decreases self.rules@.len() - i,
        {
            rules.push(self.rules[i].clone());
            i += 1;
        }
        let r = Policy { version: self.version, default: self.default, rules };
        assert(r@.rules =~= self@.rules);
        r
    }
}

/// The regular expression `pattern` compiles.
pub uninterp spec fn regex_compiles(pattern: Seq<char>) -> bool;

/// The regular expression `pattern`, which compiles, matches somewhere in
/// `haystack`.
pub uninterp spec fn regex_matches(pattern: Seq<char>, haystack: Seq<char>) -> bool;

/// Whether the regular expression `pattern` matches anywhere in `haystack`;
/// nothing where the pattern does not compile.
pub open spec fn regex_search(pattern: Seq<char>, haystack: Seq<char>) -> Option<bool> {
    if regex_compiles(pattern) {
        Some(regex_matches(pattern, haystack))
    } else {
        None
    }
}

/// `regex::Regex::new` and, where the pattern compiles, `Regex::is_match`.
/// Which patterns compile is named by `regex_compiles` and rests on the pattern
/// alone; what such a pattern matches is named by `regex_matches`.
#[verifier::external_body]
fn search(pattern: &str, haystack: &str) -> (r: Option<bool>)
    ensures
        match r {
            Some(found) => regex_compiles(pattern@) && found == regex_matches(
                pattern@,
                haystack@,
            ),
            None => !regex_compiles(pattern@),
        },
{
    match regex::Regex::new(pattern) {
        Ok(re) => Some(re.is_match(haystack)),
        Err(_) => None,
    }
}

impl Conditions {
    /// The conditions hold of `v`, given what the search for `regex` found.
    pub open spec fn holds_given(self, v: Json, found: Option<bool>) -> bool {
        &&& self.equals matches Some(expected) ==> v.same(expected)
        &&& self.regex is Some ==> v is Text && found == Some(true)
        &&& self.starts_with matches Some(prefix) ==> v is Text && prefix.is_prefix_of(v->Text_0)
        &&& self.not_starts_with matches Some(prefix) ==> !(v is Text && prefix.is_prefix_of(
            v->Text_0,
        ))
        &&& self.contains matches Some(needle) ==> v is Text && crate::text::occurs_in(
            needle,
            v->Text_0,
        )
    }

    /// The conditions hold of `v`. A pattern that does not compile matches
    /// nothing.
    pub open spec fn holds(self, v: Json) -> bool {
        self.holds_given(
            v,
            match (self.regex, v) {
                (Some(pattern), Json::Text(s)) => regex_search(pattern, s),
                _ => None,
            },
        )
    }
}

impl ArgMatch {
    /// Whether the conditions hold of `v`, given what the search for `regex` in
    /// it found: nothing where the pattern does not compile.
    pub fn matches_given(&self, v: &Value, found: Option<bool>) -> (r: bool)
        ensures
            r == self@.holds_given(crate::json::json_of(*v), found),
    {
        let text = value_text(v);
        if let Some(expected) = &self.equals {
            if !value_same(v, expected) {
                return false;
            }
        }
        if self.regex.is_some() {
            if text.is_none() {
                return false;
            }
            match found {
                Some(true) => {},
                _ => return false,
            }
        }
        if let Some(prefix) = &self.starts_with {
            match text {
                Some(s) => {
                    if !begins_with(s, prefix.as_str()) {
                        return false;
                    }
                },
                None => return false,
            }
        }
        if let Some(prefix) = &self.not_starts_with {
            if let Some(s) = text {
                if begins_with(s, prefix.as_str()) {
                    return false;
                }
            }
        }
        if let Some(needle) = &self.contains {
            match text {
                Some(s) => {
                    if !has_part(s, needle.as_str()) {
                        return false;
                    }
                },
                None => return false,
            }
        }
        true
    }

    /// Whether the conditions hold of `v`.
    pub fn matches(&self, v: &Value) -> (r: bool)
        ensures
            r == self@.holds(crate::json::json_of(*v)),
    {
        let found = match (&self.regex, value_text(v)) {
            (Some(pattern), Some(s)) => search(pattern.as_str(), s),
            _ => None,
        };
        self.matches_given(v, found)
    }
}

impl Default for ArgMatch {
    fn default() -> (r: Self)
        ensures
            r@ == (Conditions {
                equals: None,
                regex: None,
                starts_with: None,
                not_starts_with: None,
                contains: None,
            }),
    {
        ArgMatch {
            equals: None,
            regex: None,
            starts_with: None,
            not_starts_with: None,
            contains: None,
        }
    }
}

/// The tool pattern fits, given what a search for it in the tool's name found.
pub open spec fn tool_fits_given(
    pat: Seq<char>,
    is_regex: bool,
    tool: Seq<char>,
    found: Option<bool>,
) -> bool {
    if is_regex {
        found == Some(true)
    } else {
        pat == tool
    }
}

/// The tool pattern fits: it is the tool's name or, as a regular expression,
/// matches in it. A pattern that does not compile fits nothing.
pub open spec fn tool_fits(pat: Seq<char>, is_regex: bool, tool: Seq<char>) -> bool {
    tool_fits_given(pat, is_regex, tool, regex_search(pat, tool))
}

/// Whether a tool pattern fits, given what a search for it in the tool's name
/// found: nothing where the pattern does not compile.
pub fn tool_matches_given(pat: &str, is_regex: bool, tool: &str, found: Option<bool>) -> (r: bool)
    ensures
        r == tool_fits_given(pat@, is_regex, tool@, found),
{
    if is_regex {
        match found {
            Some(b) => b,
            None => false,
        }
    } else {
        same_text(pat, tool)
    }
}

/// Whether a tool pattern fits.
pub fn tool_matches(pat: &str, is_regex: bool, tool: &str) -> (r: bool)
    ensures
        r == tool_fits(pat@, is_regex, tool@),
{
    let found = if is_regex {
        search(pat, tool)
    } else {
        None
    };
    tool_matches_given(pat, is_regex, tool, found)
}

/// The argument `field` of a call. One that is missing counts as null.
pub open spec fn argument(arguments: Json, field: Seq<char>) -> Json {
    match arguments.member(field) {
        Some(v) => v,
        None => Json::Null,
    }
}

impl RuleTerms {
    /// The conditions of the rule hold of every argument that it names.
    pub open spec fn arguments_fit(self, arguments: Json) -> bool {
        forall|field: Seq<char>|
            #![trigger self.args[field]]
            self.args.dom().contains(field) ==> self.args[field].holds(argument(arguments, field))
    }

    /// The rule speaks of the call: its tool pattern fits, and its conditions
    /// hold of every argument that it names.
    pub open spec fn covers(self, tool_name: Seq<char>, arguments: Json) -> bool {
        &&& tool_fits(self.tool, self.tool_regex, tool_name)
        &&& self.arguments_fit(arguments)
    }
}

impl Rule {
    /// Whether the conditions of the rule hold of every argument that it names.
    fn arguments_match(&self, arguments: &Value) -> (r: bool)
        ensures
            r == self@.arguments_fit(crate::json::json_of(*arguments)),
    {
        let null = null_value();
        let n = self.args.len();
        let ghost keys = self.args.keys();
        let mut i: usize = 0;
        while i < n
            invariant
                i <= n,
                n == keys.len(),
                keys == self.args.keys(),
                crate::json::json_of(null) == Json::Null,
                forall|k: Seq<char>|
                    self.args@.dom().contains(k) <==> #[trigger] self.args.keys().contains(k),
                forall|j: int|
                    0 <= j < i ==> self@.args[#[trigger] keys[j]].holds(
                        argument(crate::json::json_of(*arguments), keys[j]),
                    ),
            decreases n - i,
        {
            let (field, matcher) = self.args.entry(i);
            let slot = match value_member(arguments, field.as_str()) {
                Some(v) => v,
                None => &null,
            };
            assert(keys.contains(keys[i as int]));
            assert(self@.args[keys[i as int]] == matcher@);
            if !matcher.matches(slot) {
                return false;
            }
            i += 1;
        }
        assert forall|field: Seq<char>|
            #![trigger self@.args[field]]
            self@.args.dom().contains(field) implies self@.args[field].holds(
            argument(crate::json::json_of(*arguments), field),
        ) by {
            assert(keys.contains(field));
            let j = keys.index_of(field);
            assert(keys[j] == field);
        }
        true
    }
}

/// The version of a policy that names none.
pub fn default_version() -> (r: u32)
    ensures
        r == 1,
{
    1
}

/// What a policy that does not say otherwise does with a call that no rule
/// speaks of.
pub fn default_default_action() -> (r: Action)
    ensures
        r == Action::Allow,
{
    Action::Allow
}

impl Policy {
    /// The policy without rules, which allows every call.
    pub fn open_default() -> (r: Self)
        ensures
            r@ == (Terms { version: 1, default: Action::Allow, rules: Seq::empty() }),
    {
        let r = Policy { version: 1, default: Action::Allow, rules: Vec::new() };
        assert(r@.rules =~= Seq::empty());
        r
    }

    /// Evaluates a call against the policy: the first rule that speaks of it
    /// decides, and where none does, the default.
    pub fn evaluate<'a>(&'a self, tool_name: &str, arguments: &Value) -> (r: Verdict<'a>)
        ensures
            r.action == self@.action_on(tool_name@, crate::json::json_of(*arguments)),
            match self@.deciding_rule(tool_name@, crate::json::json_of(*arguments)) {
                Some(i) => self@.decided_by(i, tool_name@, crate::json::json_of(*arguments))
                    && r.rule == Some(&self.rules@[i]),
                None => r.rule is None && forall|j: int|
                    0 <= j < self@.rules.len() ==> !(#[trigger] self@.rules[j]).covers(
                        tool_name@,
                        crate::json::json_of(*arguments),
                    ),
            },
    {
        let ghost called = crate::json::json_of(*arguments);
        let mut i: usize = 0;
        while i < self.rules.len()
            invariant
                i <= self.rules@.len(),
                called == crate::json::json_of(*arguments),
                forall|j: int|
                    0 <= j < i ==> !(#[trigger] self@.rules[j]).covers(tool_name@, called),
            decreases self.rules@.len() - i,
        {
            let rule = &self.rules[i];
            if tool_matches(rule.tool.as_str(), rule.tool_regex, tool_name)
                && rule.arguments_match(arguments) {
                proof {
                    assert(self@.decided_by(i as int, tool_name@, called));
                    law_first_rule_decides(self@, i as int, tool_name@, called);
                }
                return Verdict { rule: Some(rule), action: rule.action };
            }
            i += 1;
        }
        Verdict { rule: None, action: self.default }
    }
}

impl Terms {
    /// Rule `i` is the first that speaks of the call.
    pub open spec fn decided_by(self, i: int, tool_name: Seq<char>, arguments: Json) -> bool {
        &&& 0 <= i < self.rules.len()
        &&& self.rules[i].covers(tool_name, arguments)
        &&& forall|j: int| 0 <= j < i ==> !(#[trigger] self.rules[j]).covers(tool_name, arguments)
    }

    /// The first rule that speaks of the call, if any does.
    pub open spec fn deciding_rule(self, tool_name: Seq<char>, arguments: Json) -> Option<int> {
        if exists|i: int| self.decided_by(i, tool_name, arguments) {
            Some(choose|i: int| self.decided_by(i, tool_name, arguments))
        } else {
            None
        }
    }

    /// What is done with the call: what the first rule that speaks of it says,
    /// and the default where none does.
    pub open spec fn action_on(self, tool_name: Seq<char>, arguments: Json) -> Action {
        match self.deciding_rule(tool_name, arguments) {
            Some(i) => self.rules[i].action,
            None => self.default,
        }
    }
}

impl<'a> Verdict<'a> {
    /// The id of the rule that decided, `<default>` where none did.
    pub fn rule_id(&self) -> (r: &str)
        ensures
            r@ == match self.rule {
                Some(rule) => rule.id@,
                None => "<default>"@,
            },
    {
        match self.rule {
            Some(rule) => rule.id.as_str(),
            None => "<default>",
        }
    }

    /// How many seconds an approval is waited for: what the rule says, 120
    /// where no rule says it.
    pub open spec fn timeout_s(self) -> u64 {
        match self.rule {
            Some(rule) => match rule.approval_timeout_s {
                Some(s) => s,
                None => 120,
            },
            None => 120,
        }
    }

    /// How many seconds an approval is waited for.
    pub fn approval_timeout_s(&self) -> (r: u64)
        ensures
            r == self.timeout_s(),
    {
        match self.rule {
            Some(rule) => match rule.approval_timeout_s {
                Some(s) => s,
                None => 120,
            },
            None => 120,
        }
    }

    /// How long an approval is waited for.
    pub fn approval_timeout(&self) -> (r: Duration)
        ensures
            crate::clock::nanos_of(r) == self.timeout_s() * 1_000_000_000,
    {
        Duration::from_secs(self.approval_timeout_s())
    }
}

/// The open policy allows every call: one without rules whose default is to
/// allow.
pub proof fn law_open_policy_allows(policy: Terms, tool_name: Seq<char>, arguments: Json)
    requires
        policy.default == Action::Allow,
        policy.rules.len() == 0,
    ensures
        policy.deciding_rule(tool_name, arguments) is None,
        policy.action_on(tool_name, arguments) == Action::Allow,
{
}

/// The first rule that speaks of a call decides it, alone.
pub proof fn law_first_rule_decides(policy: Terms, i: int, tool_name: Seq<char>, arguments: Json)
    requires
        policy.decided_by(i, tool_name, arguments),
    ensures
        policy.deciding_rule(tool_name, arguments) == Some(i),
        policy.action_on(tool_name, arguments) == policy.rules[i].action,
{
    let j = choose|j: int| policy.decided_by(j, tool_name, arguments);
    assert(policy.decided_by(j, tool_name, arguments));
    assert(policy.rules[i].covers(tool_name, arguments));
    assert(policy.rules[j].covers(tool_name, arguments));
}

/// A call that some rule speaks of is decided by a rule, not after that one.
pub proof fn law_covered_calls_are_decided(
    policy: Terms,
    i: int,
    tool_name: Seq<char>,
    arguments: Json,
)
    requires
        0 <= i < policy.rules.len(),
        policy.rules[i].covers(tool_name, arguments),
    ensures
        policy.deciding_rule(tool_name, arguments) matches Some(j) && 0 <= j <= i,
    decreases i,
{
    if policy.decided_by(i, tool_name, arguments) {
        law_first_rule_decides(policy, i, tool_name, arguments);
    } else {
        let j = choose|j: int|
            0 <= j < i && (#[trigger] policy.rules[j]).covers(tool_name, arguments);
        law_covered_calls_are_decided(policy, j, tool_name, arguments);
    }
}

/// A rule that decides a call still does when other rules are put behind those
/// of the policy.
pub proof fn law_later_rules_do_not_matter(
    policy: Terms,
    extended: Terms,
    tool_name: Seq<char>,
    arguments: Json,
)
    requires
        policy.rules.is_prefix_of(extended.rules),
        policy.deciding_rule(tool_name, arguments) is Some,
    ensures
        extended.deciding_rule(tool_name, arguments) == policy.deciding_rule(tool_name, arguments),
        extended.action_on(tool_name, arguments) == policy.action_on(tool_name, arguments),
{
    let i = policy.deciding_rule(tool_name, arguments)->0;
    assert forall|j: int| 0 <= j <= i implies #[trigger] extended.rules[j] == policy.rules[j] by {
    }
    assert(extended.decided_by(i, tool_name, arguments));
    law_first_rule_decides(extended, i, tool_name, arguments);
}

/// Conditions that ask for nothing hold of every argument.
pub proof fn law_no_conditions_always_hold(m: Conditions, v: Json)
    requires
        m.equals is None,
        m.regex is None,
        m.starts_with is None,
        m.not_starts_with is None,
        m.contains is None,
    ensures
        m.holds(v),
{
}

/// A pattern that does not compile matches no argument and fits no tool.
pub proof fn law_bad_pattern_matches_nothing(
    m: Conditions,
    v: Json,
    pattern: Seq<char>,
    tool: Seq<char>,
)
    requires
        m.regex matches Some(p) && p == pattern,
        !regex_compiles(pattern),
    ensures
        !m.holds(v),
        !tool_fits(pattern, true, tool),
{
}

/// What an argument must begin with it cannot be forbidden to begin with.
pub proof fn law_prefix_conditions_exclude_each_other(m: Conditions, v: Json)
    requires
        m.starts_with matches Some(wanted) && m.not_starts_with matches Some(banned)
            && banned.is_prefix_of(wanted),
    ensures
        !m.holds(v),
{
    if v is Text && m.starts_with->0.is_prefix_of(v->Text_0) {
        let s = v->Text_0;
        let wanted = m.starts_with->0;
        let banned = m.not_starts_with->0;
        assert(banned =~= s.subrange(0, banned.len() as int));
    }
}

/// Conditions on the text of an argument never hold of one that is missing or
/// no string; the ban on a prefix always does.
pub proof fn law_text_conditions_need_text(m: Conditions, v: Json)
    requires
        !(v is Text),
    ensures
        m.regex is Some || m.starts_with is Some || m.contains is Some ==> !m.holds(v),
        m.regex is None && m.starts_with is None && m.contains is None && m.equals is None
            ==> m.holds(v),
{
}

/// Conditions hold of a value if and only if each of the five, asked for alone,
/// holds of it.
pub proof fn law_conditions_hold_one_by_one(m: Conditions, v: Json, found: Option<bool>)
    ensures
        ({
            let free = Conditions {
                equals: None,
                regex: None,
                starts_with: None,
                not_starts_with: None,
                contains: None,
            };
            let equals = Conditions { equals: m.equals, ..free };
            let regex = Conditions { regex: m.regex, ..free };
            let starts_with = Conditions { starts_with: m.starts_with, ..free };
            let not_starts_with = Conditions { not_starts_with: m.not_starts_with, ..free };
            let contains = Conditions { contains: m.contains, ..free };
            &&& m.holds(v) <==> equals.holds(v) && regex.holds(v) && starts_with.holds(v)
                && not_starts_with.holds(v) && contains.holds(v)
            &&& m.holds_given(v, found) <==> equals.holds_given(v, found) && regex.holds_given(
                v,
                found,
            ) && starts_with.holds_given(v, found) && not_starts_with.holds_given(v, found)
                && contains.holds_given(v, found)
        }),
{
}

/// What each condition asks for, alone: that the value is the expected one, that
/// it is a string in which the pattern, which compiles, matches, that it is a
/// string of the prefix and something behind it, that it is none, that it is a
/// string of the needle and something before and behind it.
pub proof fn law_what_each_condition_asks(
    expected: Json,
    pattern: Seq<char>,
    prefix: Seq<char>,
    needle: Seq<char>,
    v: Json,
    found: Option<bool>,
)
    ensures
        ({
            let free = Conditions {
                equals: None,
                regex: None,
                starts_with: None,
                not_starts_with: None,
                contains: None,
            };
            let equals = Conditions { equals: Some(expected), ..free };
            let regex = Conditions { regex: Some(pattern), ..free };
            let starts_with = Conditions { starts_with: Some(prefix), ..free };
            let not_starts_with = Conditions { not_starts_with: Some(prefix), ..free };
            let contains = Conditions { contains: Some(needle), ..free };
            &&& free.holds(v) && free.holds_given(v, found)
            &&& equals.holds(v) == v.same(expected)
            &&& equals.holds_given(v, found) == v.same(expected)
            &&& regex.holds(v) <==> v is Text && regex_compiles(pattern) && regex_matches(
                pattern,
                v->Text_0,
            )
            &&& regex.holds_given(v, found) <==> v is Text && found == Some(true)
            &&& starts_with.holds(v) <==> v is Text && exists|rest: Seq<char>|
                v->Text_0 == #[trigger] (prefix + rest)
            &&& starts_with.holds_given(v, found) == starts_with.holds(v)
            &&& not_starts_with.holds(v) == !starts_with.holds(v)
            &&& not_starts_with.holds_given(v, found) == !starts_with.holds(v)
            &&& contains.holds(v) <==> v is Text && exists|before: Seq<char>, after: Seq<char>|
                v->Text_0 == #[trigger] (before + needle + after)
            &&& contains.holds_given(v, found) == contains.holds(v)
        }),
{
    if let Json::Text(s) = v {
        crate::text::law_what_occurs_stands_between(needle, s);
        if prefix.is_prefix_of(s) {
            assert(s =~= prefix + s.subrange(prefix.len() as int, s.len() as int));
        }
        if exists|rest: Seq<char>| s == #[trigger] (prefix + rest) {
            let rest = choose|rest: Seq<char>| s == #[trigger] (prefix + rest);
            assert(prefix =~= s.subrange(0, prefix.len() as int));
        }
    }
}

/// A condition that is not met is not made up for by any other.
pub proof fn law_one_unmet_condition_is_enough(m: Conditions, s: Seq<char>)
    ensures
        m.contains matches Some(needle) && !crate::text::occurs_in(needle, s) ==> !m.holds(
            Json::Text(s),
        ),
        m.starts_with matches Some(prefix) && !prefix.is_prefix_of(s) ==> !m.holds(Json::Text(s)),
        m.not_starts_with matches Some(prefix) && prefix.is_prefix_of(s) ==> !m.holds(
            Json::Text(s),
        ),
        m.regex matches Some(pattern) && !(regex_compiles(pattern) && regex_matches(pattern, s))
            ==> !m.holds(Json::Text(s)),
        m.equals matches Some(expected) && !Json::Text(s).same(expected) ==> !m.holds(
            Json::Text(s),
        ),
{
}

/// A plain tool pattern fits the tool of that name and no other; a regular
/// expression fits the tools that it matches in, where it compiles.
pub proof fn law_which_tools_fit(pat: Seq<char>, tool: Seq<char>, found: Option<bool>)
    ensures
        tool_fits(pat, false, tool) <==> pat == tool,
        tool_fits_given(pat, false, tool, found) <==> pat == tool,
        tool_fits(pat, true, tool) <==> regex_compiles(pat) && regex_matches(pat, tool),
        tool_fits_given(pat, true, tool, found) <==> found == Some(true),
{
}

/// A rule speaks of a call if and only if its tool pattern fits and, whether or
/// not that is a regular expression, its conditions hold of every argument that
/// it names. An argument that the call does not give counts as null.
pub proof fn law_which_calls_a_rule_covers(rule: RuleTerms, tool_name: Seq<char>, arguments: Json)
    ensures
        rule.covers(tool_name, arguments) <==> (if rule.tool_regex {
            regex_compiles(rule.tool) && regex_matches(rule.tool, tool_name)
        } else {
            rule.tool == tool_name
        }) && forall|field: Seq<char>| #[trigger]
            rule.args.contains_key(field) ==> rule.args[field].holds(
                if arguments matches Json::Object(m) && m.contains_key(field) {
                    arguments->Object_0[field]
                } else {
                    Json::Null
                },
            ),
{
    let given = |field: Seq<char>|
        if arguments matches Json::Object(m) && m.contains_key(field) {
            arguments->Object_0[field]
        } else {
            Json::Null
        };
    assert forall|field: Seq<char>| #[trigger] argument(arguments, field) == given(field) by {}
    if rule.arguments_fit(arguments) {
        assert forall|field: Seq<char>| #[trigger] rule.args.contains_key(field) implies (
        rule.args[field]).holds(given(field)) by {
            assert(rule.args[field].holds(argument(arguments, field)));
        }
    } else {
        let field = choose|field: Seq<char>|
            #![trigger rule.args[field]]
            rule.args.dom().contains(field) && !rule.args[field].holds(argument(arguments, field));
        assert(rule.args.contains_key(field));
        assert(!rule.args[field].holds(given(field)));
    }
}

/// A rule that names an argument whose conditions do not hold, whatever its tool
/// pattern is, does not speak of the call, and so does not decide it.
pub proof fn law_an_unmet_argument_rules_a_rule_out(
    policy: Terms,
    i: int,
    tool_name: Seq<char>,
    arguments: Json,
    field: Seq<char>,
)
    requires
        0 <= i < policy.rules.len(),
        policy.rules[i].args.contains_key(field),
        !policy.rules[i].args[field].holds(
            if arguments matches Json::Object(m) && m.contains_key(field) {
                arguments->Object_0[field]
            } else {
                Json::Null
            },
        ),
    ensures
        !policy.rules[i].covers(tool_name, arguments),
        policy.deciding_rule(tool_name, arguments) != Some(i),
{
    law_which_calls_a_rule_covers(policy.rules[i], tool_name, arguments);
    law_who_decides(policy, tool_name, arguments);
}

/// The rule that decides a call is the first that speaks of it, and there is none
/// only where no rule does. What is done is what that rule says, and the default
/// where there is none.
pub proof fn law_who_decides(policy: Terms, tool_name: Seq<char>, arguments: Json)
    ensures
        match policy.deciding_rule(tool_name, arguments) {
            Some(i) => {
                &&& 0 <= i < policy.rules.len()
                &&& policy.rules[i].covers(tool_name, arguments)
                &&& forall|j: int|
                    0 <= j < i ==> !(#[trigger] policy.rules[j]).covers(tool_name, arguments)
                &&& policy.action_on(tool_name, arguments) == policy.rules[i].action
            },
            None => {
                &&& forall|j: int|
                    0 <= j < policy.rules.len() ==> !(#[trigger] policy.rules[j]).covers(
                        tool_name,
                        arguments,
                    )
                &&& policy.action_on(tool_name, arguments) == policy.default
            },
        },
{
    if policy.deciding_rule(tool_name, arguments) is None {
        assert forall|j: int| 0 <= j < policy.rules.len() implies !(
        #[trigger] policy.rules[j]).covers(tool_name, arguments) by {
            if policy.rules[j].covers(tool_name, arguments) {
                law_covered_calls_are_decided(policy, j, tool_name, arguments);
            }
        }
    } else {
        let i = policy.deciding_rule(tool_name, arguments)->0;
        assert(policy.decided_by(i, tool_name, arguments));
    }
}

/// A rule in front of others decides the calls that it speaks of, and leaves the
/// rest to them.
pub proof fn law_rules_are_tried_in_order(
    policy: Terms,
    rule: RuleTerms,
    tool_name: Seq<char>,
    arguments: Json,
)
    ensures
        ({
            let more = Terms { rules: seq![rule] + policy.rules, ..policy };
            &&& rule.covers(tool_name, arguments) ==> more.deciding_rule(tool_name, arguments)
                == Some(0int) && more.action_on(tool_name, arguments) == rule.action
            &&& !rule.covers(tool_name, arguments) ==> more.action_on(tool_name, arguments)
                == policy.action_on(tool_name, arguments)
        }),
{
    let more = Terms { rules: seq![rule] + policy.rules, ..policy };
    assert(more.rules[0] == rule);
    if rule.covers(tool_name, arguments) {
        law_first_rule_decides(more, 0, tool_name, arguments);
    } else {
        assert(policy.rules.insert(0, rule) =~= more.rules);
        law_rules_that_do_not_cover_do_not_matter(policy, 0, rule, tool_name, arguments);
    }
}

/// A rule that does not speak of a call may stand in the policy, at any place, or
/// not: what is done with the call is the same, and so is the rule that says so.
pub proof fn law_rules_that_do_not_cover_do_not_matter(
    policy: Terms,
    at: int,
    rule: RuleTerms,
    tool_name: Seq<char>,
    arguments: Json,
)
    requires
        0 <= at <= policy.rules.len(),
        !rule.covers(tool_name, arguments),
    ensures
        ({
            let more = Terms { rules: policy.rules.insert(at, rule), ..policy };
            &&& more.action_on(tool_name, arguments) == policy.action_on(tool_name, arguments)
            &&& more.deciding_rule(tool_name, arguments) == match policy.deciding_rule(
                tool_name,
                arguments,
            ) {
                Some(i) => Some(
                    if i < at {
                        i
                    } else {
                        i + 1
                    },
                ),
                None => None,
            }
        }),
{
    let more = Terms { rules: policy.rules.insert(at, rule), ..policy };
    assert forall|j: int| 0 <= j < more.rules.len() implies #[trigger] more.rules[j] == (if j < at {
        policy.rules[j]
    } else if j == at {
        rule
    } else {
        policy.rules[j - 1]
    }) by {}
    law_who_decides(policy, tool_name, arguments);
    match policy.deciding_rule(tool_name, arguments) {
        Some(i) => {
            let k = if i < at {
                i
            } else {
                i + 1
            };
            assert(more.rules[k] == policy.rules[i]);
            assert forall|j: int| 0 <= j < k implies !(#[trigger] more.rules[j]).covers(
                tool_name,
                arguments,
            ) by {
                if j < at {
                    assert(more.rules[j] == policy.rules[j]);
                } else if j > at {
                    assert(more.rules[j] == policy.rules[j - 1]);
                }
            }
            assert(more.decided_by(k, tool_name, arguments));
            law_first_rule_decides(more, k, tool_name, arguments);
        },
        None => {
            law_who_decides(more, tool_name, arguments);
            if let Some(k) = more.deciding_rule(tool_name, arguments) {
                if k < at {
                    assert(more.rules[k] == policy.rules[k]);
                } else if k > at {
                    assert(more.rules[k] == policy.rules[k - 1]);
                }
            }
        },
    }
}

/// Approval is waited for as long as the deciding rule says, and for 120 seconds
/// where it says nothing or no rule decides.
pub proof fn law_how_long_approval_is_waited_for(verdict: Verdict, s: u64)
    ensures
        verdict.rule is None ==> verdict.timeout_s() == 120,
        verdict.rule matches Some(rule) && rule.approval_timeout_s is None ==> verdict.timeout_s()
            == 120,
        verdict.rule matches Some(rule) && rule.approval_timeout_s == Some(s)
            ==> verdict.timeout_s() == s,
{
}

/// Conditions, rules and policies say what their fields hold.
pub proof fn law_policies_say_what_they_hold(m: ArgMatch, r: Rule, p: Policy, s: String)
    ensures
        text_of(None) is None,
        text_of(Some(s)) == Some(s@),
        m.equals is None ==> m@.equals is None,
        m.equals matches Some(v) ==> m@.equals == Some(crate::json::json_of(v)),
        m@.regex == text_of(m.regex),
        m@.starts_with == text_of(m.starts_with),
        m@.not_starts_with == text_of(m.not_starts_with),
        m@.contains == text_of(m.contains),
        r@.id == r.id@,
        r@.description == text_of(r.description),
        r@.tool == r.tool@,
        r@.tool_regex == r.tool_regex,
        r@.args.dom() == r.args@.dom(),
        forall|k: Seq<char>| r.args@.contains_key(k) ==> #[trigger] r@.args[k] == r.args@[k]@,
        r@.action == r.action,
        r@.approval_timeout_s == r.approval_timeout_s,
        p@.version == p.version,
        p@.default == p.default,
        p@.rules.len() == p.rules@.len(),
        forall|i: int| 0 <= i < p.rules@.len() ==> #[trigger] p@.rules[i] == p.rules@[i]@,
{
    assert(r@.args.dom() =~= r.args@.dom());
}

} // verus!
