use mercenary_board::contract::{Comment, Contract};
use mercenary_board::pages::{login_page, login_redirect, ruleset_options_html};
use mercenary_board::force::roster_readable;
use mercenary_board::render::{card_renderable, render_board, render_contract};

fn contract(id: u64, host: &str) -> Contract {
    Contract {
        id,
        host: host.to_string(),
        host_force: "Atlas [Assault],Locust [Light]".to_string(),
        host_assets: String::new(),
        challenger: None,
        challenger_force: None,
        challenger_assets: None,
        mission_type: "Skirmish".to_string(),
        bv2: String::new(),
        era: "ilClan".to_string(),
        map: String::new(),
        intel_level: "Full Sweep (Revealed)".to_string(),
        match_time: "2026-01-01T17:00".to_string(),
        expires_at: 0,
        force_comp: "BattleMech Only".to_string(),
        ruleset: "Total Warfare".to_string(),
        optional_rules: Vec::new(),
        status: "Open".to_string(),
        comments: Vec::new(),
    }
}

#[test]
fn card_of_open_contract_seen_by_host() {
    let html = render_contract(&contract(12, "Wolf"), "Wolf");
    assert!(html.starts_with("<div class=\"card\" id=\"contract-12\">"));
    assert!(html.contains("<strong>Contract #12 - Host: Wolf</strong>"));
    assert!(html.contains("Skirmish | Open BV | BattleMech Only | ilClan"));
    assert!(html.contains("<strong>Optional Rules:</strong> None"));
    assert!(html.contains("Atlas [Assault]<br>• Locust [Light]"));
    assert!(html.contains("<strong style=\"margin-top: 5px; display: inline-block;\">Host Assets:</strong> None"));
    assert!(html.contains("[ Awaiting Challenger Signatures... ]"));
    assert!(html.contains("SCRUB MISSION (CANCEL CONTRACT)"));
    assert!(html.contains("<em>No encrypted comms.</em>"));
    assert!(!html.contains("ACCEPT CONTRACT"));
}

#[test]
fn card_of_open_contract_seen_by_another() {
    let html = render_contract(&contract(12, "Wolf"), "Kerensky");
    assert!(html.contains(":: ACCEPT CONTRACT ::"));
    assert!(html.contains("hx-post=\"/contract/12/accept\""));
    assert!(html.contains("onclick=\"addUnit('challenger', '12')\""));
    assert!(!html.contains("SCRUB MISSION"));
}

#[test]
fn card_of_locked_contract() {
    let mut c = contract(3, "Wolf");
    c.intel_level = "Partial Intercept".to_string();
    c.bv2 = "6000".to_string();
    c.optional_rules = vec!["SPRINTING".to_string(), "CAREFUL STAND".to_string()];
    c.accept("Kerensky", "Locust [Light],Wasp [Light]".to_string(), "  ".to_string());
    c.add_comment("Kerensky", "Ready".to_string());
    let host_view = render_contract(&c, "Wolf");
    assert!(host_view.contains("TRANSFER COMMAND TO CHALLENGER"));
    assert!(!host_view.contains("WITHDRAW"));
    assert!(host_view.contains("<strong>Challenger:</strong> Kerensky<br>"));
    assert!(host_view.contains("<strong>Force:</strong> <br>• 2x Light<br>"));
    assert!(host_view.contains("display: inline-block;\">Assets:</strong> None"));
    assert!(host_view.contains("1x Assault, 1x Light"));
    assert!(host_view.contains("6000 BV"));
    assert!(host_view.contains("SPRINTING, CAREFUL STAND"));
    assert!(host_view.contains("<strong>Kerensky:</strong> Ready</div>"));
    let challenger_view = render_contract(&c, "Kerensky");
    assert!(challenger_view.contains("WITHDRAW"));
    assert!(!challenger_view.contains("TRANSFER COMMAND"));
    let other_view = render_contract(&c, "Natasha");
    assert!(!other_view.contains("WITHDRAW"));
    assert!(!other_view.contains("TRANSFER COMMAND"));
    assert!(other_view.contains("[ MATCH LOCKED - AWAITING DEPLOYMENT ]"));
}

#[test]
fn comments_shown_in_order() {
    let mut c = contract(5, "Wolf");
    c.comments.push(Comment { author: "A".to_string(), text: "one".to_string() });
    c.comments.push(Comment { author: "B".to_string(), text: "two".to_string() });
    let html = render_contract(&c, "Wolf");
    let a = html.find("<strong>A:</strong> one").unwrap();
    let b = html.find("<strong>B:</strong> two").unwrap();
    assert!(a < b);
    assert!(!html.contains("No encrypted comms"));
}

#[test]
fn board_shows_newest_first() {
    let cs = vec![contract(1, "Wolf"), contract(2, "Wolf"), contract(3, "Wolf")];
    let page = render_board(&cs, "Wolf");
    assert!(page.contains("Logged in as: <strong style=\"color: #58a6ff;\">Wolf</strong>"));
    assert!(page.contains("body { background-color: #0d1117;"));
    let p1 = page.find("id=\"contract-1\"").unwrap();
    let p2 = page.find("id=\"contract-2\"").unwrap();
    let p3 = page.find("id=\"contract-3\"").unwrap();
    assert!(p3 < p2 && p2 < p1);
    assert!(page.trim_end().ends_with("</html>"));
}

#[test]
fn empty_board() {
    let page = render_board(&[], "Wolf");
    assert!(page.contains(":: OPEN BOUNTIES ::"));
    assert!(!page.contains("class=\"card\" id=\"contract-"));
}

#[test]
fn ruleset_options() {
    assert!(ruleset_options_html("Total Warfare").contains("rule_floating_crits"));
    assert!(ruleset_options_html("Core Rules (2026)").contains("rule_battlefield_support_assets"));
    assert!(!ruleset_options_html("Core Rules (2026)").contains("rule_floating_crits"));
    assert_eq!(ruleset_options_html("Introductory"), "\n    ");
}

#[test]
fn login_pages() {
    assert!(login_page().contains(":: COMSTAR UPLINK ::"));
    assert_eq!(login_redirect(), "<script>window.location.href = \"/\";</script>");
}

#[test]
fn rosters_that_cannot_be_summarised() {
    assert!(roster_readable("Atlas [Assault],Locust"));
    assert!(roster_readable("Atlas [Assault] ]x["));
    assert!(!roster_readable("Atlas ]Assault["));
    let mut c = contract(9, "Wolf");
    c.host_force = "Atlas ]Assault[".to_string();
    assert!(card_renderable(&c));
    c.intel_level = "Partial Intercept".to_string();
    assert!(!card_renderable(&c));
    c.intel_level = "Total Blackout (Blind)".to_string();
    assert!(card_renderable(&c));
    let mut d = contract(10, "Wolf");
    d.intel_level = "Partial Intercept".to_string();
    d.challenger_force = Some("X ]y[".to_string());
    assert!(card_renderable(&d));
    d.status = "Accepted".to_string();
    assert!(!card_renderable(&d));
}
