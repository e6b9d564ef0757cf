use mercenary_board::posting::{checked_rules, expiry_for_epoch, parse_i64_str, post_contract};

fn form(pairs: &[(&str, &str)]) -> Vec<(String, String)> {
    pairs.iter().map(|(k, v)| (k.to_string(), v.to_string())).collect()
}

#[test]
fn parsing_numbers_as_i64() {
    assert_eq!(parse_i64_str("123"), Some(123));
    assert_eq!(parse_i64_str("-5"), Some(-5));
    assert_eq!(parse_i64_str("+7"), Some(7));
    assert_eq!(parse_i64_str("007"), Some(7));
    assert_eq!(parse_i64_str(""), None);
    assert_eq!(parse_i64_str("+"), None);
    assert_eq!(parse_i64_str("-"), None);
    assert_eq!(parse_i64_str("12a"), None);
    assert_eq!(parse_i64_str(" 12"), None);
    assert_eq!(parse_i64_str("9223372036854775807"), Some(i64::MAX));
    assert_eq!(parse_i64_str("9223372036854775808"), None);
    assert_eq!(parse_i64_str("-9223372036854775808"), Some(i64::MIN));
    assert_eq!(parse_i64_str("-9223372036854775809"), None);
    assert_eq!(parse_i64_str("99999999999999999999999"), None);
}

#[test]
fn expiry_is_two_hours_after_the_match() {
    assert_eq!(expiry_for_epoch(1_000), 8_200);
    assert_eq!(expiry_for_epoch(0), 0);
    assert_eq!(expiry_for_epoch(-30), 0);
    assert_eq!(expiry_for_epoch(i64::MAX - 1), i64::MAX);
}

#[test]
fn optional_rules_from_checkboxes() {
    let f = form(&[
        ("rule_initiative_die", "on"),
        ("bv2", "5000"),
        ("rule_floating_crits", "on"),
        ("rule_front-loaded_deployment", "on"),
    ]);
    assert_eq!(
        checked_rules(&f),
        vec![
            "FLOATING CRITS".to_string(),
            "FRONT-LOADED DEPLOYMENT".to_string(),
            "INITIATIVE DIE".to_string()
        ]
    );
    assert!(checked_rules(&form(&[("ruleset", "x")])).is_empty());
}

#[test]
fn optional_rule_names_drop_every_prefix() {
    let f = form(&[("rule_a_rule_b", "on"), ("rule_a b", "on")]);
    assert_eq!(checked_rules(&f), vec!["A B".to_string(), "A B".to_string()]);
}

#[test]
fn posting_a_contract() {
    let f = form(&[
        ("host_force", "Atlas [Assault]"),
        ("bv2", "5000"),
        ("mission_type", "Skirmish"),
        ("era", "ilClan"),
        ("intel_level", "Partial Intercept"),
        ("match_time", "2026-01-01T17:00"),
        ("match_epoch", "1767286800"),
        ("force_comp", "Combined Arms"),
        ("ruleset", "Total Warfare"),
        ("rule_sprinting", "on"),
    ]);
    let c = post_contract(42, "Wolf", &f);
    assert_eq!(c.id, 42);
    assert_eq!(c.host, "Wolf");
    assert_eq!(c.host_force, "Atlas [Assault]");
    assert_eq!(c.host_assets, "");
    assert_eq!(c.map, "");
    assert_eq!(c.challenger, None);
    assert_eq!(c.challenger_force, None);
    assert_eq!(c.challenger_assets, None);
    assert_eq!(c.status, "Open");
    assert_eq!(c.expires_at, 1767286800 + 7200);
    assert_eq!(c.optional_rules, vec!["SPRINTING".to_string()]);
    assert!(c.comments.is_empty());
}

#[test]
fn posting_without_match_time_never_expires() {
    let c = post_contract(1, "Wolf", &form(&[("match_epoch", "soon")]));
    assert_eq!(c.expires_at, 0);
    let c = post_contract(2, "Wolf", &form(&[]));
    assert_eq!(c.expires_at, 0);
}
