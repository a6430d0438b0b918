use deos_mcpd::policy::{
    default_default_action, default_version, tool_matches, tool_matches_given, Action, ArgMatch,
    Policy, Rule,
};
use deos_mcpd::table::Table;
use serde_json::Value;
use std::time::Duration;

fn json(text: &str) -> Value {
    serde_json::from_str(text).unwrap()
}

fn rule(id: &str, tool: &str, tool_regex: bool, action: Action) -> Rule {
    Rule {
        id: id.to_string(),
        description: None,
        tool: tool.to_string(),
        tool_regex,
        args: Table::new(),
        action,
        approval_timeout_s: None,
    }
}

fn policy(default: Action, rules: Vec<Rule>) -> Policy {
    Policy {
        version: 1,
        default,
        rules,
    }
}

#[test]
fn defaults() {
    assert_eq!(default_version(), 1);
    assert_eq!(default_default_action(), Action::Allow);
}

#[test]
fn no_conditions_match_everything() {
    let m = ArgMatch::default();
    for text in ["null", "1", "\"x\"", "[]", "{}"] {
        assert!(m.matches(&json(text)));
    }
}

#[test]
fn equals() {
    let m = ArgMatch {
        equals: Some(json("{\"a\":[1,0.0],\"b\":\"x\"}")),
        ..ArgMatch::default()
    };
    assert!(m.matches(&json("{\"b\":\"x\",\"a\":[1,0.0]}")));
    assert!(m.matches(&json("{\"b\":\"x\",\"a\":[1,-0.0]}")));
    assert!(!m.matches(&json("{\"b\":\"x\",\"a\":[1,0]}")));
    assert!(!m.matches(&json("{\"b\":\"x\",\"a\":[1]}")));
    assert!(!m.matches(&json("{\"b\":\"x\"}")));
    assert!(!m.matches(&json("{\"b\":\"y\",\"a\":[1,0.0]}")));
    assert!(!m.matches(&Value::Null));
}

#[test]
fn equals_null_matches_null() {
    let m = ArgMatch {
        equals: Some(Value::Null),
        ..ArgMatch::default()
    };
    assert!(m.matches(&Value::Null));
    assert!(!m.matches(&json("false")));
}

#[test]
fn regex() {
    let m = ArgMatch {
        regex: Some("^/tmp/[a-z]+$".to_string()),
        ..ArgMatch::default()
    };
    assert!(m.matches(&json("\"/tmp/abc\"")));
    assert!(!m.matches(&json("\"/tmp/ABC\"")));
    assert!(!m.matches(&json("7")));
}

#[test]
fn regex_matches_anywhere() {
    let m = ArgMatch {
        regex: Some("b.d".to_string()),
        ..ArgMatch::default()
    };
    assert!(m.matches(&json("\"abcde\"")));
}

#[test]
fn bad_regex_matches_nothing() {
    let m = ArgMatch {
        regex: Some("foo(bar".to_string()),
        ..ArgMatch::default()
    };
    assert!(!m.matches(&json("\"foo(bar\"")));
    assert!(!tool_matches("foo(bar", true, "foo(bar"));
}

#[test]
fn starts_with() {
    let m = ArgMatch {
        starts_with: Some("/etc".to_string()),
        ..ArgMatch::default()
    };
    assert!(m.matches(&json("\"/etc/passwd\"")));
    assert!(m.matches(&json("\"/etc\"")));
    assert!(!m.matches(&json("\"/et\"")));
    assert!(!m.matches(&json("\"x/etc\"")));
    assert!(!m.matches(&json("{}")));
}

#[test]
fn not_starts_with() {
    let m = ArgMatch {
        not_starts_with: Some("/tmp".to_string()),
        ..ArgMatch::default()
    };
    assert!(!m.matches(&json("\"/tmp/x\"")));
    assert!(m.matches(&json("\"/home\"")));
    assert!(m.matches(&json("7")));
    assert!(m.matches(&Value::Null));
}

#[test]
fn contains() {
    let m = ArgMatch {
        contains: Some("..".to_string()),
        ..ArgMatch::default()
    };
    assert!(m.matches(&json("\"/a/../b\"")));
    assert!(m.matches(&json("\"..\"")));
    assert!(!m.matches(&json("\"/a/./b\"")));
    assert!(!m.matches(&json("[\"..\"]")));
}

#[test]
fn conditions_must_all_hold() {
    let m = ArgMatch {
        equals: None,
        regex: Some("[0-9]".to_string()),
        starts_with: Some("a".to_string()),
        not_starts_with: Some("ab".to_string()),
        contains: Some("z".to_string()),
    };
    assert!(m.matches(&json("\"a1z\"")));
    assert!(!m.matches(&json("\"az\"")));
    assert!(!m.matches(&json("\"1z\"")));
    assert!(!m.matches(&json("\"ab1z\"")));
    assert!(!m.matches(&json("\"a1\"")));
}

#[test]
fn prefix_conditions_exclude_each_other() {
    let m = ArgMatch {
        starts_with: Some("/tmp/x".to_string()),
        not_starts_with: Some("/tmp".to_string()),
        ..ArgMatch::default()
    };
    assert!(!m.matches(&json("\"/tmp/xyz\"")));
    assert!(!m.matches(&json("\"/home\"")));
}

#[test]
fn matches_given_a_search() {
    let m = ArgMatch {
        regex: Some("x".to_string()),
        ..ArgMatch::default()
    };
    assert!(m.matches_given(&json("\"y\""), Some(true)));
    assert!(!m.matches_given(&json("\"y\""), Some(false)));
    assert!(!m.matches_given(&json("\"y\""), None));
    assert!(!m.matches_given(&json("1"), Some(true)));
    assert!(ArgMatch::default().matches_given(&json("1"), None));
}

#[test]
fn tool_patterns() {
    assert!(tool_matches("read_file", false, "read_file"));
    assert!(!tool_matches("read_file", false, "read_files"));
    assert!(!tool_matches("read_.*", false, "read_file"));
    assert!(tool_matches("read_.*", true, "read_file"));
    assert!(!tool_matches("^write", true, "read_file"));
    assert!(tool_matches_given("a", true, "b", Some(true)));
    assert!(!tool_matches_given("a", true, "a", Some(false)));
    assert!(!tool_matches_given("a", true, "a", None));
    assert!(tool_matches_given("a", false, "a", None));
}

#[test]
fn the_open_policy_allows() {
    let p = Policy::open_default();
    assert_eq!(p.version, 1);
    assert!(p.rules.is_empty());
    let v = p.evaluate("anything", &json("{\"a\":1}"));
    assert_eq!(v.action, Action::Allow);
    assert!(v.rule.is_none());
    assert_eq!(v.rule_id(), "<default>");
    assert_eq!(v.approval_timeout(), Duration::from_secs(120));
    assert_eq!(v.approval_timeout_s(), 120);
}

#[test]
fn the_first_matching_rule_decides() {
    let p = policy(
        Action::RequireApproval,
        vec![
            rule("a", "write_file", false, Action::Deny),
            rule("b", "^read", true, Action::Allow),
            rule("c", ".*", true, Action::Deny),
        ],
    );
    let v = p.evaluate("read_file", &Value::Null);
    assert_eq!((v.rule_id(), v.action), ("b", Action::Allow));
    let v = p.evaluate("write_file", &Value::Null);
    assert_eq!((v.rule_id(), v.action), ("a", Action::Deny));
    let v = p.evaluate("other", &Value::Null);
    assert_eq!((v.rule_id(), v.action), ("c", Action::Deny));
}

#[test]
fn the_default_decides_the_rest() {
    let p = policy(
        Action::RequireApproval,
        vec![rule("a", "write_file", false, Action::Deny)],
    );
    let v = p.evaluate("read_file", &Value::Null);
    assert_eq!((v.rule_id(), v.action), ("<default>", Action::RequireApproval));
}

#[test]
fn arguments_decide_too() {
    let mut guarded = rule("a", "read_file", false, Action::Deny);
    guarded.args.insert(
        "path".to_string(),
        ArgMatch {
            not_starts_with: Some("/tmp".to_string()),
            ..ArgMatch::default()
        },
    );
    guarded.args.insert(
        "mode".to_string(),
        ArgMatch {
            equals: Some(json("\"r\"")),
            ..ArgMatch::default()
        },
    );
    let p = policy(Action::Allow, vec![guarded]);
    let on = |text: &str| p.evaluate("read_file", &json(text)).action;
    assert_eq!(on("{\"path\":\"/etc\",\"mode\":\"r\"}"), Action::Deny);
    assert_eq!(on("{\"path\":\"/tmp/x\",\"mode\":\"r\"}"), Action::Allow);
    assert_eq!(on("{\"path\":\"/etc\",\"mode\":\"w\"}"), Action::Allow);
    assert_eq!(on("{\"path\":\"/etc\"}"), Action::Allow);
    assert_eq!(on("{\"mode\":\"r\"}"), Action::Deny);
    assert_eq!(on("[]"), Action::Allow);
}

#[test]
fn a_missing_argument_counts_as_null() {
    let mut r = rule("a", "t", false, Action::Deny);
    r.args.insert(
        "x".to_string(),
        ArgMatch {
            equals: Some(Value::Null),
            ..ArgMatch::default()
        },
    );
    let p = policy(Action::Allow, vec![r]);
    assert_eq!(p.evaluate("t", &json("{}")).action, Action::Deny);
    assert_eq!(p.evaluate("t", &json("{\"x\":null}")).action, Action::Deny);
    assert_eq!(p.evaluate("t", &json("{\"x\":0}")).action, Action::Allow);
}

#[test]
fn conditions_on_a_field_replace_earlier_ones() {
    let mut r = rule("a", "t", false, Action::Deny);
    for wanted in ["1", "2"] {
        r.args.insert(
            "x".to_string(),
            ArgMatch {
                equals: Some(json(wanted)),
                ..ArgMatch::default()
            },
        );
    }
    let p = policy(Action::Allow, vec![r]);
    assert_eq!(p.evaluate("t", &json("{\"x\":1}")).action, Action::Allow);
    assert_eq!(p.evaluate("t", &json("{\"x\":2}")).action, Action::Deny);
}

#[test]
fn later_rules_do_not_matter() {
    let short = policy(Action::Deny, vec![rule("a", "t", false, Action::Allow)]);
    let long = policy(
        Action::Deny,
        vec![
            rule("a", "t", false, Action::Allow),
            rule("b", "t", false, Action::Deny),
        ],
    );
    assert_eq!(
        short.evaluate("t", &Value::Null).action,
        long.evaluate("t", &Value::Null).action
    );
}

#[test]
fn a_rule_sets_its_timeout() {
    let mut r = rule("a", "t", false, Action::RequireApproval);
    r.approval_timeout_s = Some(5);
    let p = policy(
        Action::Deny,
        vec![r, rule("b", "u", false, Action::RequireApproval)],
    );
    assert_eq!(
        p.evaluate("t", &Value::Null).approval_timeout(),
        Duration::from_secs(5)
    );
    assert_eq!(
        p.evaluate("u", &Value::Null).approval_timeout(),
        Duration::from_secs(120)
    );
}

#[test]
fn equality_is_symmetric() {
    let texts = ["null", "0", "0.0", "-0.0", "\"0\"", "[0.0]", "[-0.0]", "{\"a\":0}", "{}"];
    for a in texts {
        for b in texts {
            let wants_a = ArgMatch {
                equals: Some(json(a)),
                ..ArgMatch::default()
            };
            let wants_b = ArgMatch {
                equals: Some(json(b)),
                ..ArgMatch::default()
            };
            assert_eq!(wants_a.matches(&json(b)), wants_b.matches(&json(a)));
            assert!(wants_a.matches(&json(a)));
        }
    }
}

#[test]
fn a_cloned_policy_decides_alike() {
    let mut first = rule("home", "write_file", false, Action::Deny);
    first.description = Some("keep out".to_string());
    first.approval_timeout_s = Some(5);
    first.args.insert(
        "path".to_string(),
        ArgMatch {
            equals: Some(json("\"/home/x\"")),
            regex: Some("^/home".to_string()),
            starts_with: Some("/".to_string()),
            not_starts_with: Some("/tmp".to_string()),
            contains: Some("x".to_string()),
        },
    );
    let p = policy(
        Action::Allow,
        vec![first, rule("all", ".*", true, Action::RequireApproval)],
    );
    let q = p.clone();
    assert_eq!(q.version, 1);
    assert_eq!(q.default, Action::Allow);
    assert_eq!(q.rules.len(), 2);
    assert_eq!(q.rules[0].description, Some("keep out".to_string()));
    for (text, id) in [("{\"path\":\"/home/x\"}", "home"), ("{\"path\":\"/\"}", "all")] {
        let v = q.evaluate("write_file", &json(text));
        assert_eq!(v.rule_id(), id);
        assert_eq!(v.rule_id(), p.evaluate("write_file", &json(text)).rule_id());
    }
    assert_eq!(
        q.evaluate("write_file", &json("{\"path\":\"/home/x\"}")).approval_timeout(),
        Duration::from_secs(5)
    );
}
