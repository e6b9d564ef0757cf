use mercenary_board::force::format_force;

#[test]
fn empty_roster_shows_none() {
    assert_eq!(format_force("", "Full Sweep (Revealed)"), "None");
    assert_eq!(format_force("", "Total Blackout (Blind)"), "None");
}

#[test]
fn blackout_hides_the_roster() {
    assert_eq!(
        format_force("Atlas AS7-D [Assault]", "Total Blackout (Blind)"),
        "<span style='color: #ff7b72;'>[ CLASSIFIED ]</span>"
    );
    assert_eq!(
        format_force("Locust,Atlas", "Total Blackout (Blind)"),
        format_force("Commando", "Total Blackout (Blind)")
    );
}

#[test]
fn blackout_wins_over_intercept() {
    assert_eq!(
        format_force("Atlas [Assault]", "Blackout and Intercept"),
        "<span style='color: #ff7b72;'>[ CLASSIFIED ]</span>"
    );
}

#[test]
fn intercept_counts_classes_in_ascending_order() {
    let r = format_force(
        "Atlas AS7-D [Assault],Locust LCT-1V [Light],King Crab [Assault]",
        "Partial Intercept",
    );
    assert_eq!(r, "1x Light, 2x Assault");
}

#[test]
fn intercept_orders_lines_as_text() {
    let mut units: Vec<String> = Vec::new();
    for _ in 0..10 {
        units.push("A [Zeta]".to_string());
    }
    units.push("B [Alpha]".to_string());
    units.push("C [Alpha]".to_string());
    let roster = units.join(",");
    assert_eq!(format_force(&roster, "Partial Intercept"), "10x Zeta, 2x Alpha");
}

#[test]
fn intercept_without_classes_is_unknown() {
    assert_eq!(
        format_force("Atlas,Locust", "Partial Intercept"),
        "<span style='color: #e3b341;'>[ ENCRYPTED / UNKNOWN ]</span>"
    );
    assert_eq!(
        format_force("Atlas [Assault", "Partial Intercept"),
        "<span style='color: #e3b341;'>[ ENCRYPTED / UNKNOWN ]</span>"
    );
}

#[test]
fn intercept_takes_first_brackets_of_each_unit() {
    assert_eq!(format_force("X [Heavy] [Light]]", "Intercept"), "1x Heavy");
    assert_eq!(format_force("Y []", "Intercept"), "1x ");
}

#[test]
fn full_sweep_breaks_lines_between_units() {
    assert_eq!(
        format_force("Atlas,Locust,Commando", "Full Sweep (Revealed)"),
        "Atlas<br>• Locust<br>• Commando"
    );
    assert_eq!(format_force("Atlas", "Full Sweep (Revealed)"), "Atlas");
    assert_eq!(format_force(",", "Full Sweep (Revealed)"), "<br>• ");
}
