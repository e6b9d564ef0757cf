//! The HTML of a contract card and of the board page.

use vstd::prelude::*;
use crate::contract::{Contract, ContractView, CommentView, or_empty, STATUS_OPEN};
use crate::force::{force_display, force_display_defined, format_force, roster_readable};
use crate::templates::{AWAITING_CHALLENGER, ACCEPT_FORM_0, ACCEPT_FORM_1, ACCEPT_FORM_2, ACCEPT_FORM_3, ACCEPT_FORM_4, ACCEPT_FORM_5, ACCEPT_FORM_6, TRANSFER_BUTTON_0, TRANSFER_BUTTON_1, TRANSFER_BUTTON_2, WITHDRAW_BUTTON_0, WITHDRAW_BUTTON_1, WITHDRAW_BUTTON_2, CHALLENGER_INFO_0, CHALLENGER_INFO_1, CHALLENGER_INFO_2, CHALLENGER_INFO_3, LOCKED_PANEL_0, LOCKED_PANEL_1, LOCKED_PANEL_2, COMMENT_LINE_0, COMMENT_LINE_1, COMMENT_LINE_2, COMMS_SECTION_0, COMMS_SECTION_1, COMMS_SECTION_2, COMMS_SECTION_3, CANCEL_BUTTON_0, CANCEL_BUTTON_1, CANCEL_BUTTON_2, CARD_0, CARD_1, CARD_2, CARD_3, CARD_4, CARD_5, CARD_6, CARD_7, CARD_8, CARD_9, CARD_10, CARD_11, CARD_12, CARD_13, CARD_14, CARD_15, CARD_16, BOARD_HEADER_0, BOARD_HEADER_1, BOARD_HEADER_2, BOARD_FOOTER};
use crate::text::{
    contains_str, decimal, decimal_string, join, join_strings, same_text, trim, trim_str,
};
use crate::units::UNIT_DATALIST_HTML;

verus! {

/// Shown for a battle value that is left open.
pub const OPEN_BV: &'static str = "Open";

/// Shown for an empty list or text.
pub const NONE_TEXT: &'static str = "None";

/// Shown for a challenger without a name.
pub const UNKNOWN_CHALLENGER: &'static str = "Unknown";

/// Shown on a comms channel without messages.
pub const NO_COMMS: &'static str = "<em>No encrypted comms.</em>";

/// What stands between two optional rules.
pub const RULE_SEPARATOR: &'static str = ", ";

/// `s`, or `word` when `s` is empty.
pub open spec fn or_word(s: Seq<char>, word: Seq<char>) -> Seq<char> {
    if s.len() == 0 {
        word
    } else {
        s
    }
}

/// The contract id as shown.
pub open spec fn id_text(c: ContractView) -> Seq<char> {
    decimal(c.id as nat)
}

/// The form by which another user accepts a contract.
pub open spec fn accept_form(id: Seq<char>) -> Seq<char> {
    ACCEPT_FORM_0@ + id + ACCEPT_FORM_1@ + id + ACCEPT_FORM_2@ + id + ACCEPT_FORM_3@ + id
        + ACCEPT_FORM_4@ + id + ACCEPT_FORM_5@ + id + ACCEPT_FORM_6@
}

/// The buttons of a locked contract: the host may hand over command, the
/// challenger may withdraw, anyone else sees none.
pub open spec fn action_buttons(c: ContractView, user: Seq<char>) -> Seq<char> {
    let id = id_text(c);
    if user == c.host {
        TRANSFER_BUTTON_0@ + id + TRANSFER_BUTTON_1@ + id + TRANSFER_BUTTON_2@
    } else if c.challenger == Some(user) {
        WITHDRAW_BUTTON_0@ + id + WITHDRAW_BUTTON_1@ + id + WITHDRAW_BUTTON_2@
    } else {
        Seq::empty()
    }
}

/// The name of the challenger as shown.
pub open spec fn challenger_name(c: ContractView) -> Seq<char> {
    match c.challenger {
        Some(s) => s,
        None => UNKNOWN_CHALLENGER@,
    }
}

/// The challenger panel of a locked contract.
pub open spec fn challenger_info(c: ContractView) -> Seq<char> {
    CHALLENGER_INFO_0@ + challenger_name(c) + CHALLENGER_INFO_1@ + force_display(
        or_empty(c.challenger_force),
        c.intel_level,
    ) + CHALLENGER_INFO_2@ + or_word(trim(or_empty(c.challenger_assets)), NONE_TEXT@)
        + CHALLENGER_INFO_3@
}

/// The action area: on an open contract the host waits and anyone else
/// may accept; on a locked one, buttons and the challenger panel.
pub open spec fn action_html(c: ContractView, user: Seq<char>) -> Seq<char> {
    if c.status == STATUS_OPEN@ {
        if user == c.host {
            AWAITING_CHALLENGER@
        } else {
            accept_form(id_text(c))
        }
    } else {
        LOCKED_PANEL_0@ + action_buttons(c, user) + LOCKED_PANEL_1@ + challenger_info(c)
            + LOCKED_PANEL_2@
    }
}

/// The comments, one line each, in order.
pub open spec fn comment_lines(cs: Seq<CommentView>) -> Seq<char>
    decreases cs.len(),
{
    if cs.len() == 0 {
        Seq::empty()
    } else {
        comment_lines(cs.drop_last()) + COMMENT_LINE_0@ + cs.last().author + COMMENT_LINE_1@
            + cs.last().text + COMMENT_LINE_2@
    }
}

/// The comms channel of a contract.
pub open spec fn comms_section(c: ContractView) -> Seq<char> {
    let id = id_text(c);
    let lines = comment_lines(c.comments);
    COMMS_SECTION_0@ + (if lines.len() == 0 {
        NO_COMMS@
    } else {
        lines
    }) + COMMS_SECTION_1@ + id + COMMS_SECTION_2@ + id + COMMS_SECTION_3@
}

/// The optional rules as shown.
pub open spec fn optional_rules_text(c: ContractView) -> Seq<char> {
    if c.optional_rules.len() == 0 {
        NONE_TEXT@
    } else {
        join(c.optional_rules, RULE_SEPARATOR@)
    }
}

/// The scrub button, shown to the host only.
pub open spec fn cancel_button(c: ContractView, user: Seq<char>) -> Seq<char> {
    let id = id_text(c);
    if user == c.host {
        CANCEL_BUTTON_0@ + id + CANCEL_BUTTON_1@ + id + CANCEL_BUTTON_2@
    } else {
        Seq::empty()
    }
}

/// The card of a contract as `user` sees it.
#[verifier::opaque]
pub open spec fn contract_card(c: ContractView, user: Seq<char>) -> Seq<char> {
    let id = id_text(c);
    CARD_0@ + id + CARD_1@ + id + CARD_2@ + c.host + CARD_3@ + c.match_time + CARD_4@
        + c.mission_type + CARD_5@ + or_word(c.bv2, OPEN_BV@) + CARD_6@ + c.force_comp + CARD_7@
        + c.era + CARD_8@ + c.intel_level + CARD_9@ + c.ruleset + CARD_10@ + optional_rules_text(c)
        + CARD_11@ + force_display(c.host_force, c.intel_level) + CARD_12@ + or_word(
        c.host_assets,
        NONE_TEXT@,
    ) + CARD_13@ + action_html(c, user) + CARD_14@ + comms_section(c) + CARD_15@
        + cancel_button(c, user) + CARD_16@
}

/// The rosters of the contract can be shown: the host's always, the
/// challenger's once the contract is locked.
pub open spec fn card_defined(c: ContractView) -> bool {
    &&& force_display_defined(c.host_force, c.intel_level)
    &&& c.status != STATUS_OPEN@ ==> force_display_defined(
        or_empty(c.challenger_force),
        c.intel_level,
    )
}

/// Whether the card of a contract can be shown.
pub fn card_renderable(c: &Contract) -> (r: bool)
    ensures
        r == card_defined(c@),
{
    let host_ok = !(!c.host_force.as_str().is_empty() && !contains_str(
        c.intel_level.as_str(),
        "Blackout",
    ) && contains_str(c.intel_level.as_str(), "Intercept")) || roster_readable(
        c.host_force.as_str(),
    );
    if !host_ok {
        return false;
    }
    if same_text(c.status.as_str(), STATUS_OPEN) {
        return true;
    }
    let ch = opt_str(&c.challenger_force);
    !(!ch.is_empty() && !contains_str(c.intel_level.as_str(), "Blackout") && contains_str(
        c.intel_level.as_str(),
        "Intercept",
    )) || roster_readable(ch)
}

fn or_word_string(s: &str, word: &str) -> (r: String)
    ensures
        r@ == or_word(s@, word@),
{
    if s.is_empty() {
        String::from_str(word)
    } else {
        String::from_str(s)
    }
}

fn opt_str(o: &Option<String>) -> (r: &str)
    ensures
        r@ == or_empty(crate::contract::opt_view(*o)),
{
    match o {
        Some(s) => {
            assert(crate::contract::opt_view(*o) == Some(s@));
            s.as_str()
        },
        None => {
            proof { reveal_strlit(""); }
            ""
        },
    }
}

fn render_action_buttons(c: &Contract, user: &str, id: &str) -> (r: String)
    requires
        id@ == id_text(c@),
    ensures
        r@ == action_buttons(c@, user@),
{
    if same_text(user, c.host.as_str()) {
        let mut out = String::from_str(TRANSFER_BUTTON_0);
        out.append(id);
        out.append(TRANSFER_BUTTON_1);
        out.append(id);
        out.append(TRANSFER_BUTTON_2);
        out
    } else if c.is_challenger(user) {
        let mut out = String::from_str(WITHDRAW_BUTTON_0);
        out.append(id);
        out.append(WITHDRAW_BUTTON_1);
        out.append(id);
        out.append(WITHDRAW_BUTTON_2);
        out
    } else {
        String::new()
    }
}

fn render_challenger_info(c: &Contract) -> (r: String)
    requires
        force_display_defined(or_empty(c@.challenger_force), c@.intel_level),
    ensures
        r@ == challenger_info(c@),
{
    let name: &str = match &c.challenger {
        Some(s) => s.as_str(),
        None => UNKNOWN_CHALLENGER,
    };
    let force = format_force(opt_str(&c.challenger_force), c.intel_level.as_str());
    let trimmed = trim_str(opt_str(&c.challenger_assets));
    let assets = or_word_string(trimmed.as_str(), NONE_TEXT);
    let mut out = String::from_str(CHALLENGER_INFO_0);
    out.append(name);
    out.append(CHALLENGER_INFO_1);
    out.append(force.as_str());
    out.append(CHALLENGER_INFO_2);
    out.append(assets.as_str());
    out.append(CHALLENGER_INFO_3);
    out
}

fn render_action_html(c: &Contract, user: &str, id: &str) -> (r: String)
    requires
        id@ == id_text(c@),
        card_defined(c@),
    ensures
        r@ == action_html(c@, user@),
{
    if same_text(c.status.as_str(), STATUS_OPEN) {
        if same_text(user, c.host.as_str()) {
            String::from_str(AWAITING_CHALLENGER)
        } else {
            let mut out = String::from_str(ACCEPT_FORM_0);
            out.append(id);
            out.append(ACCEPT_FORM_1);
            out.append(id);
            out.append(ACCEPT_FORM_2);
            out.append(id);
            out.append(ACCEPT_FORM_3);
            out.append(id);
            out.append(ACCEPT_FORM_4);
            out.append(id);
            out.append(ACCEPT_FORM_5);
            out.append(id);
            out.append(ACCEPT_FORM_6);
            out
        }
    } else {
        let buttons = render_action_buttons(c, user, id);
        let info = render_challenger_info(c);
        let mut out = String::from_str(LOCKED_PANEL_0);
        out.append(buttons.as_str());
        out.append(LOCKED_PANEL_1);
        out.append(info.as_str());
        out.append(LOCKED_PANEL_2);
        out
    }
}

fn render_comment_lines(c: &Contract) -> (r: String)
    ensures
        r@ == comment_lines(c@.comments),
{
    let ghost cs = c@.comments;
    let mut out = String::new();
    let mut i: usize = 0;
    while i < c.comments.len()
        invariant
            cs == c@.comments,
            cs.len() == c.comments.len(),
            i <= c.comments.len(),
            out@ == comment_lines(cs.subrange(0, i as int)),
        decreases c.comments.len() - i,
    {
        assert(cs.subrange(0, i + 1).drop_last() =~= cs.subrange(0, i as int));
        assert(cs.subrange(0, i + 1).last() == c.comments[i as int]@);
        out.append(COMMENT_LINE_0);
        out.append(c.comments[i].author.as_str());
        out.append(COMMENT_LINE_1);
        out.append(c.comments[i].text.as_str());
        out.append(COMMENT_LINE_2);
        i = i + 1;
    }
    assert(cs.subrange(0, i as int) =~= cs);
    out
}

fn render_comms_section(c: &Contract, id: &str) -> (r: String)
    requires
        id@ == id_text(c@),
    ensures
        r@ == comms_section(c@),
{
    let lines = render_comment_lines(c);
    let shown: &str = if lines.as_str().is_empty() {
        NO_COMMS
    } else {
        lines.as_str()
    };
    let mut out = String::from_str(COMMS_SECTION_0);
    out.append(shown);
    out.append(COMMS_SECTION_1);
    out.append(id);
    out.append(COMMS_SECTION_2);
    out.append(id);
    out.append(COMMS_SECTION_3);
    out
}

fn render_cancel_button(c: &Contract, user: &str, id: &str) -> (r: String)
    requires
        id@ == id_text(c@),
    ensures
        r@ == cancel_button(c@, user@),
{
    if same_text(user, c.host.as_str()) {
        let mut out = String::from_str(CANCEL_BUTTON_0);
        out.append(id);
        out.append(CANCEL_BUTTON_1);
        out.append(id);
        out.append(CANCEL_BUTTON_2);
        out
    } else {
        String::new()
    }
}

fn render_optional_rules(c: &Contract) -> (r: String)
    ensures
        r@ == optional_rules_text(c@),
{
    if c.optional_rules.len() == 0 {
        String::from_str(NONE_TEXT)
    } else {
        join_strings(&c.optional_rules, RULE_SEPARATOR)
    }
}

/// The card of a contract as `current_user` sees it.
pub fn render_contract(c: &Contract, current_user: &str) -> (r: String)
    requires
        card_defined(c@),
    ensures
        r@ == contract_card(c@, current_user@),
{
    let id_string = decimal_string(c.id);
    let id = id_string.as_str();
    let host_force = format_force(c.host_force.as_str(), c.intel_level.as_str());
    let bv2 = or_word_string(c.bv2.as_str(), OPEN_BV);
    let host_assets = or_word_string(c.host_assets.as_str(), NONE_TEXT);
    let action = render_action_html(c, current_user, id);
    let comms = render_comms_section(c, id);
    let rules = render_optional_rules(c);
    let cancel = render_cancel_button(c, current_user, id);
    let mut out = String::from_str(CARD_0);
    out.append(id);
    out.append(CARD_1);
    out.append(id);
    out.append(CARD_2);
    out.append(c.host.as_str());
    out.append(CARD_3);
    out.append(c.match_time.as_str());
    out.append(CARD_4);
    out.append(c.mission_type.as_str());
    out.append(CARD_5);
    out.append(bv2.as_str());
    out.append(CARD_6);
    out.append(c.force_comp.as_str());
    out.append(CARD_7);
    out.append(c.era.as_str());
    out.append(CARD_8);
    out.append(c.intel_level.as_str());
    out.append(CARD_9);
    out.append(c.ruleset.as_str());
    out.append(CARD_10);
    out.append(rules.as_str());
    out.append(CARD_11);
    out.append(host_force.as_str());
    out.append(CARD_12);
    out.append(host_assets.as_str());
    out.append(CARD_13);
    out.append(action.as_str());
    out.append(CARD_14);
    out.append(comms.as_str());
    out.append(CARD_15);
    out.append(cancel.as_str());
    out.append(CARD_16);
    proof {
        reveal(contract_card);
    }
    out
}

/// The views of a sequence of contracts.
pub open spec fn contract_views(cs: Seq<Contract>) -> Seq<ContractView> {
    cs.map_values(|c: Contract| c@)
}

/// The cards of the contracts, newest (last) first.
pub open spec fn board_rows(cs: Seq<ContractView>, user: Seq<char>) -> Seq<char>
    decreases cs.len(),
{
    if cs.len() == 0 {
        Seq::empty()
    } else {
        board_rows(cs.drop_first(), user) + contract_card(cs[0], user)
    }
}

/// The board page with a given unit catalogue.
pub open spec fn board_page_with(
    cs: Seq<ContractView>,
    user: Seq<char>,
    units: Seq<char>,
) -> Seq<char> {
    BOARD_HEADER_0@ + user + BOARD_HEADER_1@ + units + BOARD_HEADER_2@ + board_rows(cs, user)
        + BOARD_FOOTER@
}

/// The board page.
pub open spec fn board_page(cs: Seq<ContractView>, user: Seq<char>) -> Seq<char> {
    board_page_with(cs, user, UNIT_DATALIST_HTML@)
}

/// The board page as `current_user` sees it: the post form, then every
/// contract card, the newest first.
pub fn render_board(contracts: &[Contract], current_user: &str) -> (r: String)
    requires
        forall|i: int| 0 <= i < contracts@.len() ==> card_defined(#[trigger] contracts@[i]@),
    ensures
        r@ == board_page(contract_views(contracts@), current_user@),
{
    let ghost cs = contract_views(contracts@);
    let mut rows = String::new();
    let mut k: usize = contracts.len();
    assert(cs.subrange(k as int, cs.len() as int) =~= Seq::<ContractView>::empty());
    while k > 0
        invariant
            cs == contract_views(contracts@),
            cs.len() == contracts@.len(),
            k <= contracts@.len(),
            forall|i: int| 0 <= i < contracts@.len() ==> card_defined(#[trigger] contracts@[i]@),
            rows@ == board_rows(cs.subrange(k as int, cs.len() as int), current_user@),
        decreases k,
    {
        k = k - 1;
        let card = render_contract(&contracts[k], current_user);
        assert(cs.subrange(k as int, cs.len() as int).drop_first() =~= cs.subrange(
            k + 1,
            cs.len() as int,
        ));
        assert(cs.subrange(k as int, cs.len() as int)[0] == contracts@[k as int]@);
        rows.append(card.as_str());
    }
    assert(cs.subrange(0, cs.len() as int) =~= cs);
    let mut out = String::from_str(BOARD_HEADER_0);
    out.append(current_user);
    out.append(BOARD_HEADER_1);
    out.append(UNIT_DATALIST_HTML);
    out.append(BOARD_HEADER_2);
    out.append(rows.as_str());
    out.append(BOARD_FOOTER);
    out
}

} // verus!
