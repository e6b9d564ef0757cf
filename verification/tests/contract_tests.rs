use mercenary_board::contract::{Comment, Contract};
use mercenary_board::expiry::{expired_contracts, has_expired};
use mercenary_board::pages::user_or_unknown;
use mercenary_board::clock::{current_unix_timestamp, unix_timestamp_from};

fn open_contract() -> Contract {
    Contract {
        id: 7,
        host: "Wolf".to_string(),
        host_force: "Atlas [Assault]".to_string(),
        host_assets: "Desert mats".to_string(),
        challenger: None,
        challenger_force: None,
        challenger_assets: None,
        mission_type: "Skirmish".to_string(),
        bv2: "5000".to_string(),
        era: "ilClan".to_string(),
        map: String::new(),
        intel_level: "Full Sweep (Revealed)".to_string(),
        match_time: "2026-01-01T17:00".to_string(),
        expires_at: 0,
        force_comp: "BattleMech Only".to_string(),
        ruleset: "Total Warfare".to_string(),
        optional_rules: Vec::new(),
        status: "Open".to_string(),
        comments: Vec::new(),
    }
}

#[test]
fn accepting_locks_the_contract() {
    let mut c = open_contract();
    c.accept("Kerensky", "Locust [Light]".to_string(), "Dice".to_string());
    assert_eq!(c.status, "Accepted");
    assert_eq!(c.challenger.as_deref(), Some("Kerensky"));
    assert_eq!(c.challenger_force.as_deref(), Some("Locust [Light]"));
    assert_eq!(c.challenger_assets.as_deref(), Some("Dice"));
    assert!(c.is_challenger("Kerensky"));
}

#[test]
fn withdrawing_undoes_accepting() {
    let before_accept = open_contract();
    let mut c = before_accept.clone();
    c.accept("Kerensky", "Locust".to_string(), "Dice".to_string());
    assert!(c.withdraw("Kerensky"));
    assert_eq!(c, before_accept);
}

#[test]
fn only_the_challenger_withdraws() {
    let mut c = open_contract();
    c.accept("Kerensky", "Locust".to_string(), "Dice".to_string());
    let before = c.clone();
    assert!(!c.withdraw("Wolf"));
    assert_eq!(c, before);
    let mut o = open_contract();
    assert!(!o.withdraw("Wolf"));
    assert_eq!(o, open_contract());
}

#[test]
fn transfer_hands_over_command() {
    let mut c = open_contract();
    c.accept("Kerensky", "Locust".to_string(), "Dice".to_string());
    assert!(c.transfer("Wolf"));
    assert_eq!(c.host, "Kerensky");
    assert_eq!(c.host_force, "Locust");
    assert_eq!(c.host_assets, "Dice");
    assert_eq!(c.challenger, None);
    assert_eq!(c.challenger_force, None);
    assert_eq!(c.challenger_assets, None);
    assert_eq!(c.status, "Open");
    assert_eq!(c.id, 7);
}

#[test]
fn only_the_host_with_a_challenger_transfers() {
    let mut c = open_contract();
    assert!(!c.transfer("Wolf"));
    assert_eq!(c, open_contract());
    c.accept("Kerensky", "Locust".to_string(), "Dice".to_string());
    let before = c.clone();
    assert!(!c.transfer("Kerensky"));
    assert_eq!(c, before);
}

#[test]
fn transfer_without_challenger_force_leaves_host_force_empty() {
    let mut c = open_contract();
    c.status = "Accepted".to_string();
    c.challenger = Some("Kerensky".to_string());
    assert!(c.transfer("Wolf"));
    assert_eq!(c.host, "Kerensky");
    assert_eq!(c.host_force, "");
    assert_eq!(c.host_assets, "");
}

#[test]
fn comments_are_appended() {
    let mut c = open_contract();
    c.add_comment("Wolf", "First".to_string());
    c.add_comment("Kerensky", "Second".to_string());
    assert_eq!(
        c.comments,
        vec![
            Comment { author: "Wolf".to_string(), text: "First".to_string() },
            Comment { author: "Kerensky".to_string(), text: "Second".to_string() },
        ]
    );
}

#[test]
fn only_the_host_deletes() {
    let c = open_contract();
    assert!(c.can_be_deleted_by("Wolf"));
    assert!(!c.can_be_deleted_by("Kerensky"));
    assert!(!c.can_be_deleted_by(""));
}

#[test]
fn expiry_sweep() {
    assert!(!has_expired(0, 1_000));
    assert!(has_expired(500, 500));
    assert!(!has_expired(501, 500));
    assert_eq!(expired_contracts(&[0, 100, 900, 50, -3], 500), vec![1, 3]);
    assert!(expired_contracts(&[], 500).is_empty());
}

#[test]
fn acting_user_defaults_to_unknown() {
    assert_eq!(user_or_unknown(Some("Wolf".to_string())), "Wolf");
    assert_eq!(user_or_unknown(None), "Unknown");
}

#[test]
fn timestamps_from_the_clock() {
    assert_eq!(unix_timestamp_from(Some(1_700_000_000)), 1_700_000_000);
    assert_eq!(unix_timestamp_from(None), 0);
    assert_eq!(unix_timestamp_from(Some(u64::MAX)), -1);
    assert!(current_unix_timestamp() > 1_600_000_000);
}
