//! The small pages and answers of the board: login, the optional rules of
//! a ruleset, and who the current user is.

use vstd::prelude::*;
use crate::templates::{
    CORE_RULES_OPTIONS, LOGIN_PAGE, LOGIN_REDIRECT, NO_RULE_OPTIONS, TOTAL_WARFARE_OPTIONS,
};
use crate::text::{contains_str, has_substring};

verus! {

/// The name under which a visitor without a callsign acts.
pub const UNKNOWN_USER: &'static str = "Unknown";

/// The optional rules offered with a ruleset: Total Warfare's when its name
/// mentions Total Warfare, else the Core Rules' when it mentions those,
/// else none.
pub open spec fn ruleset_options(ruleset: Seq<char>) -> Seq<char> {
    if has_substring(ruleset, "Total Warfare"@) {
        TOTAL_WARFARE_OPTIONS@
    } else if has_substring(ruleset, "Core Rules (2026)"@) {
        CORE_RULES_OPTIONS@
    } else {
        NO_RULE_OPTIONS@
    }
}

/// The optional-rule checkboxes offered with a ruleset.
pub fn ruleset_options_html(ruleset: &str) -> (r: String)
    ensures
        r@ == ruleset_options(ruleset@),
{
    if contains_str(ruleset, "Total Warfare") {
        String::from_str(TOTAL_WARFARE_OPTIONS)
    } else if contains_str(ruleset, "Core Rules (2026)") {
        String::from_str(CORE_RULES_OPTIONS)
    } else {
        String::from_str(NO_RULE_OPTIONS)
    }
}

/// The page shown to a visitor without a callsign.
pub fn login_page() -> (r: String)
    ensures
        r@ == LOGIN_PAGE@,
{
    String::from_str(LOGIN_PAGE)
}

/// The answer to a login, which sends the browser back to the board.
pub fn login_redirect() -> (r: String)
    ensures
        r@ == LOGIN_REDIRECT@,
{
    String::from_str(LOGIN_REDIRECT)
}

/// The callsign under which a request acts.
pub open spec fn acting_user(callsign: Option<Seq<char>>) -> Seq<char> {
    match callsign {
        Some(s) => s,
        None => UNKNOWN_USER@,
    }
}

/// The callsign of the request, or `"Unknown"` without one.
pub fn user_or_unknown(callsign: Option<String>) -> (r: String)
    ensures
        r@ == acting_user(crate::contract::opt_view(callsign)),
{
    match callsign {
        Some(s) => s,
        None => String::from_str(UNKNOWN_USER),
    }
}

} // verus!
