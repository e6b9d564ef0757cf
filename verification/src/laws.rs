//! Properties of the board that span its operations.

use vstd::prelude::*;
use crate::contract::{
    accepted, commented, is_challenger, may_transfer, or_empty, transferred, withdrawn,
    CommentView, ContractView, STATUS_ACCEPTED, STATUS_OPEN,
};
use crate::expiry::{expired_positions, is_expired};
use crate::force::{force_display, CLASSIFIED_FORCE};
use crate::posting::{expiry_for, EXPIRY_GRACE_SECONDS};
use crate::render::{
    action_html, board_page, board_rows, cancel_button, comms_section, contract_card, id_text,
    optional_rules_text, or_word, NONE_TEXT, OPEN_BV,
};
use crate::templates::{
    BOARD_FOOTER, BOARD_HEADER_0, BOARD_HEADER_1, BOARD_HEADER_2, CARD_0, CARD_1, CARD_10,
    CARD_11, CARD_12, CARD_13, CARD_14, CARD_15, CARD_16, CARD_2, CARD_3, CARD_4, CARD_5, CARD_6,
    CARD_7, CARD_8, CARD_9,
};
use crate::units::UNIT_DATALIST_HTML;
use crate::contract::may_delete;
use crate::posting::{
    all_digits, digit_value, digits_value, form_text, is_digit, numeral_digits, parse_i64, posted,
};
use crate::text::{decimal, digit_char, occurs_at};
use crate::text::{has_substring, replace_char};

verus! {

/// Withdrawing undoes accepting: when a challenger accepts an open contract
/// and then withdraws, the contract is as it was.
pub proof fn lemma_withdraw_undoes_accept(
    c: ContractView,
    user: Seq<char>,
    force: Seq<char>,
    assets: Seq<char>,
)
    requires
        c.status == STATUS_OPEN@,
        c.challenger is None,
        c.challenger_force is None,
        c.challenger_assets is None,
    ensures
        withdrawn(accepted(c, user, force, assets), user) == c,
{
}

/// Accepting makes the user the active challenger and locks the contract.
pub proof fn lemma_accept_locks(c: ContractView, user: Seq<char>, force: Seq<char>, assets: Seq<char>)
    ensures
        is_challenger(accepted(c, user, force, assets), user),
        accepted(c, user, force, assets).status == STATUS_ACCEPTED@,
        accepted(c, user, force, assets).host == c.host,
{
}

/// Only the active challenger can withdraw; anyone else leaves the contract
/// unchanged.
pub proof fn lemma_only_challenger_withdraws(c: ContractView, user: Seq<char>)
    requires
        !is_challenger(c, user),
    ensures
        withdrawn(c, user) == c,
{
}

/// Only the host of a contract with a challenger can hand over command;
/// anyone else leaves the contract unchanged.
pub proof fn lemma_only_host_transfers(c: ContractView, user: Seq<char>)
    requires
        !may_transfer(c, user),
    ensures
        transferred(c, user) == c,
{
}

/// Handing over command after an accept swaps the roles: the challenger
/// hosts with their force and assets, nobody challenges, the contract is
/// open again, and its id and comments stay.
pub proof fn lemma_transfer_hands_over(
    c: ContractView,
    user: Seq<char>,
    force: Seq<char>,
    assets: Seq<char>,
)
    ensures
        ({
            let t = transferred(accepted(c, user, force, assets), c.host);
            &&& t.host == user
            &&& t.host_force == force
            &&& t.host_assets == assets
            &&& t.challenger is None
            &&& t.challenger_force is None
            &&& t.challenger_assets is None
            &&& t.status == STATUS_OPEN@
            &&& t.id == c.id
            &&& t.comments == c.comments
        }),
{
}

/// A comment is appended: the earlier comments stay, in order, and nothing
/// else of the contract changes.
pub proof fn lemma_comment_appends(c: ContractView, user: Seq<char>, text: Seq<char>)
    ensures
        commented(c, user, text).comments.len() == c.comments.len() + 1,
        commented(c, user, text).comments.subrange(0, c.comments.len() as int) == c.comments,
        commented(c, user, text).comments.last() == (CommentView { author: user, text }),
        (ContractView { comments: c.comments, ..commented(c, user, text) }) == c,
{
    assert(commented(c, user, text).comments.subrange(0, c.comments.len() as int) =~= c.comments);
}

/// A contract posted without a positive match time never expires; one
/// posted with a match time expires exactly two hours after it (when that
/// time fits in an `i64`).
pub proof fn lemma_expiry_after_match(epoch: i64, now: i64)
    ensures
        epoch <= 0 ==> !is_expired(expiry_for(epoch), now),
        epoch > 0 && epoch <= i64::MAX - EXPIRY_GRACE_SECONDS ==> (is_expired(
            expiry_for(epoch),
            now,
        ) <==> now >= epoch + EXPIRY_GRACE_SECONDS),
{
}

/// A contract without a known expiry (zero) is never swept, whatever the
/// time.
pub proof fn lemma_undated_never_expires(now: i64)
    ensures
        !is_expired(0, now),
{
}

/// No operation on a contract changes its id, its match details or (but
/// for a comment) its comms channel.
pub proof fn lemma_operations_keep_identity(
    c: ContractView,
    user: Seq<char>,
    force: Seq<char>,
    assets: Seq<char>,
    text: Seq<char>,
)
    ensures
        accepted(c, user, force, assets).id == c.id,
        withdrawn(c, user).id == c.id,
        transferred(c, user).id == c.id,
        commented(c, user, text).id == c.id,
        accepted(c, user, force, assets).match_time == c.match_time,
        withdrawn(c, user).match_time == c.match_time,
        transferred(c, user).match_time == c.match_time,
        commented(c, user, text).match_time == c.match_time,
        accepted(c, user, force, assets).comments == c.comments,
        withdrawn(c, user).comments == c.comments,
        transferred(c, user).comments == c.comments,
{
}

/// The sweep removes exactly the expired contracts.
pub proof fn lemma_sweep_exact(expiries: Seq<i64>, now: i64)
    requires
        expiries.len() <= usize::MAX,
    ensures
        forall|i: int|
            0 <= i < expiries.len() ==> (expired_positions(expiries, now).contains(i as usize)
                <==> is_expired(#[trigger] expiries[i], now)),
        forall|k: int|
            0 <= k < expired_positions(expiries, now).len() ==> (#[trigger] expired_positions(
                expiries,
                now,
            )[k]) < expiries.len(),
    decreases expiries.len(),
{
    if expiries.len() > 0 {
        let init = expiries.drop_last();
        lemma_sweep_exact(init, now);
        let p = expired_positions(expiries, now);
        let q = expired_positions(init, now);
        assert forall|i: int| 0 <= i < expiries.len() implies (p.contains(i as usize)
            <==> is_expired(#[trigger] expiries[i], now)) by {
            if i < init.len() {
                assert(init[i] == expiries[i]);
                if q.contains(i as usize) {
                    let k = choose|k: int| 0 <= k < q.len() && q[k] == i as usize;
                    assert(p[k] == i as usize);
                }
                if p.contains(i as usize) {
                    let k = choose|k: int| 0 <= k < p.len() && p[k] == i as usize;
                    if k < q.len() {
                        assert(q[k] == i as usize);
                    }
                }
            } else {
                if is_expired(expiries[i], now) {
                    assert(p[q.len() as int] == i as usize);
                }
                if p.contains(i as usize) {
                    let k = choose|k: int| 0 <= k < p.len() && p[k] == i as usize;
                    if k < q.len() {
                        assert(q[k] < init.len());
                    }
                }
            }
        }
    }
}

/// Under a total blackout, what is shown of a roster does not depend on the
/// roster: every non-empty roster shows the same classified mark.
pub proof fn lemma_blackout_hides(f1: Seq<char>, f2: Seq<char>, intel: Seq<char>)
    requires
        f1.len() > 0,
        f2.len() > 0,
        has_substring(intel, "Blackout"@),
    ensures
        force_display(f1, intel) == force_display(f2, intel),
        force_display(f1, intel) == CLASSIFIED_FORCE@,
{
}

proof fn lemma_replace_absent(s: Seq<char>, c: char, rep: Seq<char>)
    requires
        !s.contains(c),
    ensures
        replace_char(s, c, rep) == s,
    decreases s.len(),
{
    if s.len() > 0 {
        assert(!s.drop_last().contains(c)) by {
            if s.drop_last().contains(c) {
                let i = choose|i: int| 0 <= i < s.drop_last().len() && s.drop_last()[i] == c;
                assert(s[i] == c);
            }
        }
        lemma_replace_absent(s.drop_last(), c, rep);
        assert(s[s.len() - 1] != c);
        assert(s.drop_last().push(s.last()) =~= s);
    }
}

/// At full intel a roster of a single unit is shown as it is.
pub proof fn lemma_single_unit_shown_plain(force: Seq<char>, intel: Seq<char>)
    requires
        force.len() > 0,
        !force.contains(','),
        !has_substring(intel, "Blackout"@),
        !has_substring(intel, "Intercept"@),
    ensures
        force_display(force, intel) == force,
{
    lemma_replace_absent(force, ',', crate::force::UNIT_BREAK@);
}

/// The board shows the newest contract first: a contract added last heads
/// the list of cards.
pub proof fn lemma_newest_first(cs: Seq<ContractView>, c: ContractView, user: Seq<char>)
    ensures
        board_rows(cs.push(c), user) == contract_card(c, user) + board_rows(cs, user),
    decreases cs.len(),
{
    if cs.len() == 0 {
        assert(cs.push(c).drop_first() =~= Seq::<ContractView>::empty());
        assert(cs.push(c)[0] == c);
        assert(board_rows(cs, user) == Seq::<char>::empty());
        assert(board_rows(cs.push(c).drop_first(), user) == Seq::<char>::empty());
        assert(Seq::<char>::empty() + contract_card(c, user) =~= contract_card(c, user));
        assert(board_rows(cs.push(c), user) == contract_card(c, user));
        assert(contract_card(c, user) + Seq::<char>::empty() =~= contract_card(c, user));
    } else {
        lemma_newest_first(cs.drop_first(), c, user);
        assert(cs.push(c).drop_first() =~= cs.drop_first().push(c));
        assert(cs.push(c)[0] == cs[0]);
        let a = contract_card(c, user);
        let b = board_rows(cs.drop_first(), user);
        let d = contract_card(cs[0], user);
        assert(board_rows(cs.push(c), user) == (a + b) + d);
        assert(board_rows(cs, user) == b + d);
        assert((a + b) + d =~= a + (b + d));
    }
}


proof fn lemma_occurs_between(x: Seq<char>, y: Seq<char>, z: Seq<char>)
    ensures
        has_substring(x + y + z, y),
{
    assert((x + y + z).subrange(x.len() as int, x.len() + y.len() as int) =~= y);
    assert(occurs_at(x + y + z, y, x.len() as int));
}

proof fn lemma_substring_extend(a: Seq<char>, b: Seq<char>, y: Seq<char>)
    requires
        has_substring(a, y),
    ensures
        has_substring(a + b, y),
{
    let i = choose|i: int| occurs_at(a, y, i);
    assert((a + b).subrange(i, i + y.len()) =~= a.subrange(i, i + y.len()));
    assert(occurs_at(a + b, y, i));
}

proof fn lemma_labelled_value(pre: Seq<char>, piece: Seq<char>, w: Seq<char>, next: Seq<char>, label: Seq<char>)
    requires
        piece.len() >= label.len(),
        piece.subrange(piece.len() - label.len(), piece.len() as int) == label,
        next.len() > 0,
        next[0] == '\n',
    ensures
        has_substring(pre + piece + w + next, label + w + seq!['\n']),
{
    let p = piece.subrange(0, piece.len() - label.len());
    assert(piece =~= p + label);
    assert(pre + piece + w + next =~= (pre + p) + (label + w + seq!['\n']) + next.skip(1));
    lemma_occurs_between(pre + p, label + w + seq!['\n'], next.skip(1));
}

proof fn lemma_host_assets_pieces()
    ensures
        CARD_12@.len() >= "Host Assets:</strong> "@.len(),
        CARD_12@.subrange(
            CARD_12@.len() - "Host Assets:</strong> "@.len(),
            CARD_12@.len() as int,
        ) == "Host Assets:</strong> "@,
        CARD_13@.len() > 0,
        CARD_13@[0] == '\n',
        "\n"@ == seq!['\n'],
        NONE_TEXT@ == "None"@,
{
    reveal_strlit(r##"<br>
                    <strong style="margin-top: 5px; display: inline-block;">Host Assets:</strong> "##);
    reveal_strlit(r##"
                </div>
            </div>
            
            "##);
    reveal_strlit("Host Assets:</strong> ");
    reveal_strlit("\n");
    assert(CARD_12@.subrange(
        CARD_12@.len() - "Host Assets:</strong> "@.len(),
        CARD_12@.len() as int,
    ) =~= "Host Assets:</strong> "@);
}

/// The card shows the host's assets right after its "Host Assets:" label,
/// up to the end of that line; it shows "None" there only when the host
/// gave no assets.
pub proof fn lemma_card_shows_host_assets(c: ContractView, user: Seq<char>)
    ensures
        c.host_assets.len() > 0 ==> has_substring(
            contract_card(c, user),
            "Host Assets:</strong> "@ + c.host_assets + "\n"@,
        ),
        c.host_assets.len() == 0 ==> has_substring(
            contract_card(c, user),
            "Host Assets:</strong> "@ + "None"@ + "\n"@,
        ),
{
    reveal(contract_card);
    lemma_host_assets_pieces();
    let label = "Host Assets:</strong> "@;
    let id = id_text(c);
    let w = or_word(c.host_assets, NONE_TEXT@);
    let xpre = CARD_0@ + id + CARD_1@ + id + CARD_2@ + c.host + CARD_3@ + c.match_time + CARD_4@
        + c.mission_type + CARD_5@ + or_word(c.bv2, OPEN_BV@) + CARD_6@ + c.force_comp + CARD_7@
        + c.era + CARD_8@ + c.intel_level + CARD_9@ + c.ruleset + CARD_10@ + optional_rules_text(c)
        + CARD_11@ + force_display(c.host_force, c.intel_level);
    let s0 = xpre + CARD_12@ + w + CARD_13@;
    lemma_labelled_value(xpre, CARD_12@, w, CARD_13@, label);
    let s1 = s0 + action_html(c, user);
    lemma_substring_extend(s0, action_html(c, user), label + w + seq!['\n']);
    let s2 = s1 + CARD_14@;
    lemma_substring_extend(s1, CARD_14@, label + w + seq!['\n']);
    let s3 = s2 + comms_section(c);
    lemma_substring_extend(s2, comms_section(c), label + w + seq!['\n']);
    let s4 = s3 + CARD_15@;
    lemma_substring_extend(s3, CARD_15@, label + w + seq!['\n']);
    let s5 = s4 + cancel_button(c, user);
    lemma_substring_extend(s4, cancel_button(c, user), label + w + seq!['\n']);
    lemma_substring_extend(s5, CARD_16@, label + w + seq!['\n']);
    assert(contract_card(c, user) == s5 + CARD_16@);
}

/// The card shows the contract's target BV before " BV", as in
/// "5000 BV"; it shows "Open BV" there only when no target was given.
pub proof fn lemma_card_shows_bv(c: ContractView, user: Seq<char>)
    ensures
        c.bv2.len() > 0 ==> has_substring(contract_card(c, user), " | "@ + c.bv2 + " BV | "@),
        c.bv2.len() == 0 ==> has_substring(contract_card(c, user), " | "@ + "Open"@ + " BV | "@),
{
    reveal(contract_card);
    reveal_strlit(" | ");
    reveal_strlit(" BV | ");
    reveal_strlit("Open");
    assert(CARD_5@ == " | "@);
    assert(CARD_6@ == " BV | "@);
    assert(OPEN_BV@ == "Open"@);
    let id = id_text(c);
    let w = or_word(c.bv2, OPEN_BV@);
    let pre = CARD_0@ + id + CARD_1@ + id + CARD_2@ + c.host + CARD_3@ + c.match_time + CARD_4@
        + c.mission_type;
    let mid = CARD_5@ + w + CARD_6@;
    let s0 = pre + CARD_5@ + w + CARD_6@;
    assert(s0 =~= pre + mid + Seq::<char>::empty());
    lemma_occurs_between(pre, mid, Seq::<char>::empty());
    lemma_substring_extend(s0, c.force_comp, mid);
    let s1 = s0 + c.force_comp;
    lemma_substring_extend(s1, CARD_7@, mid);
    let s2 = s1 + CARD_7@;
    lemma_substring_extend(s2, c.era, mid);
    let s3 = s2 + c.era;
    lemma_substring_extend(s3, CARD_8@, mid);
    let s4 = s3 + CARD_8@;
    lemma_substring_extend(s4, c.intel_level, mid);
    let s5 = s4 + c.intel_level;
    lemma_substring_extend(s5, CARD_9@, mid);
    let s6 = s5 + CARD_9@;
    lemma_substring_extend(s6, c.ruleset, mid);
    let s7 = s6 + c.ruleset;
    lemma_substring_extend(s7, CARD_10@, mid);
    let s8 = s7 + CARD_10@;
    lemma_substring_extend(s8, optional_rules_text(c), mid);
    let s9 = s8 + optional_rules_text(c);
    lemma_substring_extend(s9, CARD_11@, mid);
    let s10 = s9 + CARD_11@;
    lemma_substring_extend(s10, force_display(c.host_force, c.intel_level), mid);
    let s11 = s10 + force_display(c.host_force, c.intel_level);
    lemma_substring_extend(s11, CARD_12@, mid);
    let s12 = s11 + CARD_12@;
    lemma_substring_extend(s12, or_word(c.host_assets, NONE_TEXT@), mid);
    let s13 = s12 + or_word(c.host_assets, NONE_TEXT@);
    lemma_substring_extend(s13, CARD_13@, mid);
    let s14 = s13 + CARD_13@;
    lemma_substring_extend(s14, action_html(c, user), mid);
    let s15 = s14 + action_html(c, user);
    lemma_substring_extend(s15, CARD_14@, mid);
    let s16 = s15 + CARD_14@;
    lemma_substring_extend(s16, comms_section(c), mid);
    let s17 = s16 + comms_section(c);
    lemma_substring_extend(s17, CARD_15@, mid);
    let s18 = s17 + CARD_15@;
    lemma_substring_extend(s18, cancel_button(c, user), mid);
    let s19 = s18 + cancel_button(c, user);
    lemma_substring_extend(s19, CARD_16@, mid);
    let s20 = s19 + CARD_16@;
    assert(contract_card(c, user) == s20);
}

proof fn lemma_labelled_between(
    pre: Seq<char>,
    piece: Seq<char>,
    w: Seq<char>,
    next: Seq<char>,
    label: Seq<char>,
    after: Seq<char>,
)
    requires
        piece.len() >= label.len(),
        piece.subrange(piece.len() - label.len(), piece.len() as int) == label,
        next.len() >= after.len(),
        next.subrange(0, after.len() as int) == after,
    ensures
        has_substring(pre + piece + w + next, label + w + after),
{
    let p = piece.subrange(0, piece.len() - label.len());
    assert(piece =~= p + label);
    let q = next.skip(after.len() as int);
    assert(next =~= after + q);
    assert(pre + piece + w + next =~= (pre + p) + (label + w + after) + q);
    lemma_occurs_between(pre + p, label + w + after, q);
}

proof fn lemma_card_field_id(c: ContractView, user: Seq<char>)
    ensures
        has_substring(contract_card(c, user), "Contract #"@ + id_text(c) + " - Host: "@),
{
    reveal(contract_card);
    reveal_strlit(r##"">
            <div style="display: flex; justify-content: space-between; border-bottom: 1px solid #39d353; margin-bottom: 10px; padding-bottom: 5px;">
                <strong>Contract #"##);
    reveal_strlit(r##" - Host: "##);
    reveal_strlit("Contract #");
    reveal_strlit(" - Host: ");
    let label = "Contract #"@;
    let after = " - Host: "@;
    assert(CARD_1@.subrange(CARD_1@.len() - label.len(), CARD_1@.len() as int) =~= label);
    assert(CARD_2@.subrange(0, after.len() as int) =~= after);
    let id = id_text(c);
    let pat = label + id + after;
    let pre = CARD_0@ + id;
    lemma_labelled_between(pre, CARD_1@, id, CARD_2@, label, after);
    let s0 = pre + CARD_1@ + id + CARD_2@;
    lemma_substring_extend(s0, c.host, pat);
    let s1 = s0 + c.host;
    lemma_substring_extend(s1, CARD_3@, pat);
    let s2 = s1 + CARD_3@;
    lemma_substring_extend(s2, c.match_time, pat);
    let s3 = s2 + c.match_time;
    lemma_substring_extend(s3, CARD_4@, pat);
    let s4 = s3 + CARD_4@;
    lemma_substring_extend(s4, c.mission_type, pat);
    let s5 = s4 + c.mission_type;
    lemma_substring_extend(s5, CARD_5@, pat);
    let s6 = s5 + CARD_5@;
    lemma_substring_extend(s6, or_word(c.bv2, OPEN_BV@), pat);
    let s7 = s6 + or_word(c.bv2, OPEN_BV@);
    lemma_substring_extend(s7, CARD_6@, pat);
    let s8 = s7 + CARD_6@;
    lemma_substring_extend(s8, c.force_comp, pat);
    let s9 = s8 + c.force_comp;
    lemma_substring_extend(s9, CARD_7@, pat);
    let s10 = s9 + CARD_7@;
    lemma_substring_extend(s10, c.era, pat);
    let s11 = s10 + c.era;
    lemma_substring_extend(s11, CARD_8@, pat);
    let s12 = s11 + CARD_8@;
    lemma_substring_extend(s12, c.intel_level, pat);
    let s13 = s12 + c.intel_level;
    lemma_substring_extend(s13, CARD_9@, pat);
    let s14 = s13 + CARD_9@;
    lemma_substring_extend(s14, c.ruleset, pat);
    let s15 = s14 + c.ruleset;
    lemma_substring_extend(s15, CARD_10@, pat);
    let s16 = s15 + CARD_10@;
    lemma_substring_extend(s16, optional_rules_text(c), pat);
    let s17 = s16 + optional_rules_text(c);
    lemma_substring_extend(s17, CARD_11@, pat);
    let s18 = s17 + CARD_11@;
    lemma_substring_extend(s18, force_display(c.host_force, c.intel_level), pat);
    let s19 = s18 + force_display(c.host_force, c.intel_level);
    lemma_substring_extend(s19, CARD_12@, pat);
    let s20 = s19 + CARD_12@;
    lemma_substring_extend(s20, or_word(c.host_assets, NONE_TEXT@), pat);
    let s21 = s20 + or_word(c.host_assets, NONE_TEXT@);
    lemma_substring_extend(s21, CARD_13@, pat);
    let s22 = s21 + CARD_13@;
    lemma_substring_extend(s22, action_html(c, user), pat);
    let s23 = s22 + action_html(c, user);
    lemma_substring_extend(s23, CARD_14@, pat);
    let s24 = s23 + CARD_14@;
    lemma_substring_extend(s24, comms_section(c), pat);
    let s25 = s24 + comms_section(c);
    lemma_substring_extend(s25, CARD_15@, pat);
    let s26 = s25 + CARD_15@;
    lemma_substring_extend(s26, cancel_button(c, user), pat);
    let s27 = s26 + cancel_button(c, user);
    lemma_substring_extend(s27, CARD_16@, pat);
    let s28 = s27 + CARD_16@;
    assert(contract_card(c, user) == s28);
}

proof fn lemma_card_field_host(c: ContractView, user: Seq<char>)
    ensures
        has_substring(contract_card(c, user), " - Host: "@ + c.host + "</strong>"@),
{
    reveal(contract_card);
    reveal_strlit(r##" - Host: "##);
    reveal_strlit(r##"</strong>
                <span style="color: #e3b341;" class="countdown" data-time=""##);
    reveal_strlit(" - Host: ");
    reveal_strlit("</strong>");
    let label = " - Host: "@;
    let after = "</strong>"@;
    assert(CARD_2@.subrange(CARD_2@.len() - label.len(), CARD_2@.len() as int) =~= label);
    assert(CARD_3@.subrange(0, after.len() as int) =~= after);
    let id = id_text(c);
    let pat = label + c.host + after;
    let pre = CARD_0@ + id + CARD_1@ + id;
    lemma_labelled_between(pre, CARD_2@, c.host, CARD_3@, label, after);
    let s0 = pre + CARD_2@ + c.host + CARD_3@;
    lemma_substring_extend(s0, c.match_time, pat);
    let s1 = s0 + c.match_time;
    lemma_substring_extend(s1, CARD_4@, pat);
    let s2 = s1 + CARD_4@;
    lemma_substring_extend(s2, c.mission_type, pat);
    let s3 = s2 + c.mission_type;
    lemma_substring_extend(s3, CARD_5@, pat);
    let s4 = s3 + CARD_5@;
    lemma_substring_extend(s4, or_word(c.bv2, OPEN_BV@), pat);
    let s5 = s4 + or_word(c.bv2, OPEN_BV@);
    lemma_substring_extend(s5, CARD_6@, pat);
    let s6 = s5 + CARD_6@;
    lemma_substring_extend(s6, c.force_comp, pat);
    let s7 = s6 + c.force_comp;
    lemma_substring_extend(s7, CARD_7@, pat);
    let s8 = s7 + CARD_7@;
    lemma_substring_extend(s8, c.era, pat);
    let s9 = s8 + c.era;
    lemma_substring_extend(s9, CARD_8@, pat);
    let s10 = s9 + CARD_8@;
    lemma_substring_extend(s10, c.intel_level, pat);
    let s11 = s10 + c.intel_level;
    lemma_substring_extend(s11, CARD_9@, pat);
    let s12 = s11 + CARD_9@;
    lemma_substring_extend(s12, c.ruleset, pat);
    let s13 = s12 + c.ruleset;
    lemma_substring_extend(s13, CARD_10@, pat);
    let s14 = s13 + CARD_10@;
    lemma_substring_extend(s14, optional_rules_text(c), pat);
    let s15 = s14 + optional_rules_text(c);
    lemma_substring_extend(s15, CARD_11@, pat);
    let s16 = s15 + CARD_11@;
    lemma_substring_extend(s16, force_display(c.host_force, c.intel_level), pat);
    let s17 = s16 + force_display(c.host_force, c.intel_level);
    lemma_substring_extend(s17, CARD_12@, pat);
    let s18 = s17 + CARD_12@;
    lemma_substring_extend(s18, or_word(c.host_assets, NONE_TEXT@), pat);
    let s19 = s18 + or_word(c.host_assets, NONE_TEXT@);
    lemma_substring_extend(s19, CARD_13@, pat);
    let s20 = s19 + CARD_13@;
    lemma_substring_extend(s20, action_html(c, user), pat);
    let s21 = s20 + action_html(c, user);
    lemma_substring_extend(s21, CARD_14@, pat);
    let s22 = s21 + CARD_14@;
    lemma_substring_extend(s22, comms_section(c), pat);
    let s23 = s22 + comms_section(c);
    lemma_substring_extend(s23, CARD_15@, pat);
    let s24 = s23 + CARD_15@;
    lemma_substring_extend(s24, cancel_button(c, user), pat);
    let s25 = s24 + cancel_button(c, user);
    lemma_substring_extend(s25, CARD_16@, pat);
    let s26 = s25 + CARD_16@;
    assert(contract_card(c, user) == s26);
}

proof fn lemma_card_field_match_time(c: ContractView, user: Seq<char>)
    ensures
        has_substring(contract_card(c, user), "data-time=\""@ + c.match_time + "\">"@),
{
    reveal(contract_card);
    reveal_strlit(r##"</strong>
                <span style="color: #e3b341;" class="countdown" data-time=""##);
    reveal_strlit(r##"">CALCULATING JUMP...</span>
            </div>
            
            <div style="display: grid; grid-template-columns: 1fr 1fr; gap: 10px;">
                <div>
                    <strong>Parameters:</strong> "##);
    reveal_strlit("data-time=\"");
    reveal_strlit("\">");
    let label = "data-time=\""@;
    let after = "\">"@;
    assert(CARD_3@.subrange(CARD_3@.len() - label.len(), CARD_3@.len() as int) =~= label);
    assert(CARD_4@.subrange(0, after.len() as int) =~= after);
    let id = id_text(c);
    let pat = label + c.match_time + after;
    let pre = CARD_0@ + id + CARD_1@ + id + CARD_2@ + c.host;
    lemma_labelled_between(pre, CARD_3@, c.match_time, CARD_4@, label, after);
    let s0 = pre + CARD_3@ + c.match_time + CARD_4@;
    lemma_substring_extend(s0, c.mission_type, pat);
    let s1 = s0 + c.mission_type;
    lemma_substring_extend(s1, CARD_5@, pat);
    let s2 = s1 + CARD_5@;
    lemma_substring_extend(s2, or_word(c.bv2, OPEN_BV@), pat);
    let s3 = s2 + or_word(c.bv2, OPEN_BV@);
    lemma_substring_extend(s3, CARD_6@, pat);
    let s4 = s3 + CARD_6@;
    lemma_substring_extend(s4, c.force_comp, pat);
    let s5 = s4 + c.force_comp;
    lemma_substring_extend(s5, CARD_7@, pat);
    let s6 = s5 + CARD_7@;
    lemma_substring_extend(s6, c.era, pat);
    let s7 = s6 + c.era;
    lemma_substring_extend(s7, CARD_8@, pat);
    let s8 = s7 + CARD_8@;
    lemma_substring_extend(s8, c.intel_level, pat);
    let s9 = s8 + c.intel_level;
    lemma_substring_extend(s9, CARD_9@, pat);
    let s10 = s9 + CARD_9@;
    lemma_substring_extend(s10, c.ruleset, pat);
    let s11 = s10 + c.ruleset;
    lemma_substring_extend(s11, CARD_10@, pat);
    let s12 = s11 + CARD_10@;
    lemma_substring_extend(s12, optional_rules_text(c), pat);
    let s13 = s12 + optional_rules_text(c);
    lemma_substring_extend(s13, CARD_11@, pat);
    let s14 = s13 + CARD_11@;
    lemma_substring_extend(s14, force_display(c.host_force, c.intel_level), pat);
    let s15 = s14 + force_display(c.host_force, c.intel_level);
    lemma_substring_extend(s15, CARD_12@, pat);
    let s16 = s15 + CARD_12@;
    lemma_substring_extend(s16, or_word(c.host_assets, NONE_TEXT@), pat);
    let s17 = s16 + or_word(c.host_assets, NONE_TEXT@);
    lemma_substring_extend(s17, CARD_13@, pat);
    let s18 = s17 + CARD_13@;
    lemma_substring_extend(s18, action_html(c, user), pat);
    let s19 = s18 + action_html(c, user);
    lemma_substring_extend(s19, CARD_14@, pat);
    let s20 = s19 + CARD_14@;
    lemma_substring_extend(s20, comms_section(c), pat);
    let s21 = s20 + comms_section(c);
    lemma_substring_extend(s21, CARD_15@, pat);
    let s22 = s21 + CARD_15@;
    lemma_substring_extend(s22, cancel_button(c, user), pat);
    let s23 = s22 + cancel_button(c, user);
    lemma_substring_extend(s23, CARD_16@, pat);
    let s24 = s23 + CARD_16@;
    assert(contract_card(c, user) == s24);
}

proof fn lemma_card_field_mission_type(c: ContractView, user: Seq<char>)
    ensures
        has_substring(contract_card(c, user), "Parameters:</strong> "@ + c.mission_type + " | "@),
{
    reveal(contract_card);
    reveal_strlit(r##"">CALCULATING JUMP...</span>
            </div>
            
            <div style="display: grid; grid-template-columns: 1fr 1fr; gap: 10px;">
                <div>
                    <strong>Parameters:</strong> "##);
    reveal_strlit(r##" | "##);
    reveal_strlit("Parameters:</strong> ");
    reveal_strlit(" | ");
    let label = "Parameters:</strong> "@;
    let after = " | "@;
    assert(CARD_4@.subrange(CARD_4@.len() - label.len(), CARD_4@.len() as int) =~= label);
    assert(CARD_5@.subrange(0, after.len() as int) =~= after);
    let id = id_text(c);
    let pat = label + c.mission_type + after;
    let pre = CARD_0@ + id + CARD_1@ + id + CARD_2@ + c.host + CARD_3@ + c.match_time;
    lemma_labelled_between(pre, CARD_4@, c.mission_type, CARD_5@, label, after);
    let s0 = pre + CARD_4@ + c.mission_type + CARD_5@;
    lemma_substring_extend(s0, or_word(c.bv2, OPEN_BV@), pat);
    let s1 = s0 + or_word(c.bv2, OPEN_BV@);
    lemma_substring_extend(s1, CARD_6@, pat);
    let s2 = s1 + CARD_6@;
    lemma_substring_extend(s2, c.force_comp, pat);
    let s3 = s2 + c.force_comp;
    lemma_substring_extend(s3, CARD_7@, pat);
    let s4 = s3 + CARD_7@;
    lemma_substring_extend(s4, c.era, pat);
    let s5 = s4 + c.era;
    lemma_substring_extend(s5, CARD_8@, pat);
    let s6 = s5 + CARD_8@;
    lemma_substring_extend(s6, c.intel_level, pat);
    let s7 = s6 + c.intel_level;
    lemma_substring_extend(s7, CARD_9@, pat);
    let s8 = s7 + CARD_9@;
    lemma_substring_extend(s8, c.ruleset, pat);
    let s9 = s8 + c.ruleset;
    lemma_substring_extend(s9, CARD_10@, pat);
    let s10 = s9 + CARD_10@;
    lemma_substring_extend(s10, optional_rules_text(c), pat);
    let s11 = s10 + optional_rules_text(c);
    lemma_substring_extend(s11, CARD_11@, pat);
    let s12 = s11 + CARD_11@;
    lemma_substring_extend(s12, force_display(c.host_force, c.intel_level), pat);
    let s13 = s12 + force_display(c.host_force, c.intel_level);
    lemma_substring_extend(s13, CARD_12@, pat);
    let s14 = s13 + CARD_12@;
    lemma_substring_extend(s14, or_word(c.host_assets, NONE_TEXT@), pat);
    let s15 = s14 + or_word(c.host_assets, NONE_TEXT@);
    lemma_substring_extend(s15, CARD_13@, pat);
    let s16 = s15 + CARD_13@;
    lemma_substring_extend(s16, action_html(c, user), pat);
    let s17 = s16 + action_html(c, user);
    lemma_substring_extend(s17, CARD_14@, pat);
    let s18 = s17 + CARD_14@;
    lemma_substring_extend(s18, comms_section(c), pat);
    let s19 = s18 + comms_section(c);
    lemma_substring_extend(s19, CARD_15@, pat);
    let s20 = s19 + CARD_15@;
    lemma_substring_extend(s20, cancel_button(c, user), pat);
    let s21 = s20 + cancel_button(c, user);
    lemma_substring_extend(s21, CARD_16@, pat);
    let s22 = s21 + CARD_16@;
    assert(contract_card(c, user) == s22);
}

proof fn lemma_card_field_intel_level(c: ContractView, user: Seq<char>)
    ensures
        has_substring(contract_card(c, user), "Intel Level:</strong> "@ + c.intel_level + "<br>"@),
{
    reveal(contract_card);
    reveal_strlit(r##"<br>
                    <strong>Intel Level:</strong> "##);
    reveal_strlit(r##"<br>
                    <strong>Ruleset:</strong> "##);
    reveal_strlit("Intel Level:</strong> ");
    reveal_strlit("<br>");
    let label = "Intel Level:</strong> "@;
    let after = "<br>"@;
    assert(CARD_8@.subrange(CARD_8@.len() - label.len(), CARD_8@.len() as int) =~= label);
    assert(CARD_9@.subrange(0, after.len() as int) =~= after);
    let id = id_text(c);
    let pat = label + c.intel_level + after;
    let pre = CARD_0@ + id + CARD_1@ + id + CARD_2@ + c.host + CARD_3@ + c.match_time + CARD_4@ + c.mission_type + CARD_5@ + or_word(c.bv2, OPEN_BV@) + CARD_6@ + c.force_comp + CARD_7@ + c.era;
    lemma_labelled_between(pre, CARD_8@, c.intel_level, CARD_9@, label, after);
    let s0 = pre + CARD_8@ + c.intel_level + CARD_9@;
    lemma_substring_extend(s0, c.ruleset, pat);
    let s1 = s0 + c.ruleset;
    lemma_substring_extend(s1, CARD_10@, pat);
    let s2 = s1 + CARD_10@;
    lemma_substring_extend(s2, optional_rules_text(c), pat);
    let s3 = s2 + optional_rules_text(c);
    lemma_substring_extend(s3, CARD_11@, pat);
    let s4 = s3 + CARD_11@;
    lemma_substring_extend(s4, force_display(c.host_force, c.intel_level), pat);
    let s5 = s4 + force_display(c.host_force, c.intel_level);
    lemma_substring_extend(s5, CARD_12@, pat);
    let s6 = s5 + CARD_12@;
    lemma_substring_extend(s6, or_word(c.host_assets, NONE_TEXT@), pat);
    let s7 = s6 + or_word(c.host_assets, NONE_TEXT@);
    lemma_substring_extend(s7, CARD_13@, pat);
    let s8 = s7 + CARD_13@;
    lemma_substring_extend(s8, action_html(c, user), pat);
    let s9 = s8 + action_html(c, user);
    lemma_substring_extend(s9, CARD_14@, pat);
    let s10 = s9 + CARD_14@;
    lemma_substring_extend(s10, comms_section(c), pat);
    let s11 = s10 + comms_section(c);
    lemma_substring_extend(s11, CARD_15@, pat);
    let s12 = s11 + CARD_15@;
    lemma_substring_extend(s12, cancel_button(c, user), pat);
    let s13 = s12 + cancel_button(c, user);
    lemma_substring_extend(s13, CARD_16@, pat);
    let s14 = s13 + CARD_16@;
    assert(contract_card(c, user) == s14);
}

proof fn lemma_card_field_ruleset(c: ContractView, user: Seq<char>)
    ensures
        has_substring(contract_card(c, user), "Ruleset:</strong> "@ + c.ruleset + "<br>"@),
{
    reveal(contract_card);
    reveal_strlit(r##"<br>
                    <strong>Ruleset:</strong> "##);
    reveal_strlit(r##"<br>
                    <strong>Optional Rules:</strong> "##);
    reveal_strlit("Ruleset:</strong> ");
    reveal_strlit("<br>");
    let label = "Ruleset:</strong> "@;
    let after = "<br>"@;
    assert(CARD_9@.subrange(CARD_9@.len() - label.len(), CARD_9@.len() as int) =~= label);
    assert(CARD_10@.subrange(0, after.len() as int) =~= after);
    let id = id_text(c);
    let pat = label + c.ruleset + after;
    let pre = CARD_0@ + id + CARD_1@ + id + CARD_2@ + c.host + CARD_3@ + c.match_time + CARD_4@ + c.mission_type + CARD_5@ + or_word(c.bv2, OPEN_BV@) + CARD_6@ + c.force_comp + CARD_7@ + c.era + CARD_8@ + c.intel_level;
    lemma_labelled_between(pre, CARD_9@, c.ruleset, CARD_10@, label, after);
    let s0 = pre + CARD_9@ + c.ruleset + CARD_10@;
    lemma_substring_extend(s0, optional_rules_text(c), pat);
    let s1 = s0 + optional_rules_text(c);
    lemma_substring_extend(s1, CARD_11@, pat);
    let s2 = s1 + CARD_11@;
    lemma_substring_extend(s2, force_display(c.host_force, c.intel_level), pat);
    let s3 = s2 + force_display(c.host_force, c.intel_level);
    lemma_substring_extend(s3, CARD_12@, pat);
    let s4 = s3 + CARD_12@;
    lemma_substring_extend(s4, or_word(c.host_assets, NONE_TEXT@), pat);
    let s5 = s4 + or_word(c.host_assets, NONE_TEXT@);
    lemma_substring_extend(s5, CARD_13@, pat);
    let s6 = s5 + CARD_13@;
    lemma_substring_extend(s6, action_html(c, user), pat);
    let s7 = s6 + action_html(c, user);
    lemma_substring_extend(s7, CARD_14@, pat);
    let s8 = s7 + CARD_14@;
    lemma_substring_extend(s8, comms_section(c), pat);
    let s9 = s8 + comms_section(c);
    lemma_substring_extend(s9, CARD_15@, pat);
    let s10 = s9 + CARD_15@;
    lemma_substring_extend(s10, cancel_button(c, user), pat);
    let s11 = s10 + cancel_button(c, user);
    lemma_substring_extend(s11, CARD_16@, pat);
    let s12 = s11 + CARD_16@;
    assert(contract_card(c, user) == s12);
}

/// The card shows, each after its label, the contract's number, its host,
/// its match time, its mission type, its intel level and its ruleset.
pub proof fn lemma_card_shows_terms(c: ContractView, user: Seq<char>)
    ensures
        has_substring(contract_card(c, user), "Contract #"@ + id_text(c) + " - Host: "@),
        has_substring(contract_card(c, user), " - Host: "@ + c.host + "</strong>"@),
        has_substring(contract_card(c, user), "data-time=\""@ + c.match_time + "\">"@),
        has_substring(contract_card(c, user), "Parameters:</strong> "@ + c.mission_type + " | "@),
        has_substring(contract_card(c, user), "Intel Level:</strong> "@ + c.intel_level + "<br>"@),
        has_substring(contract_card(c, user), "Ruleset:</strong> "@ + c.ruleset + "<br>"@),
{
    lemma_card_field_id(c, user);
    lemma_card_field_host(c, user);
    lemma_card_field_match_time(c, user);
    lemma_card_field_mission_type(c, user);
    lemma_card_field_intel_level(c, user);
    lemma_card_field_ruleset(c, user);
}

/// The top of the board page, above the cards: the post form.
pub open spec fn board_top(user: Seq<char>) -> Seq<char> {
    BOARD_HEADER_0@ + user + BOARD_HEADER_1@ + UNIT_DATALIST_HTML@ + BOARD_HEADER_2@
}

/// The board page holds each card once, newest first, between the post
/// form and the footer: an empty board is the top and the footer, and a
/// contract added last puts its card, once, right under the top, leaving
/// the rest of the page as it was.
pub proof fn lemma_board_adds_one_card(cs: Seq<ContractView>, c: ContractView, user: Seq<char>)
    ensures
        board_page(Seq::empty(), user) == board_top(user) + BOARD_FOOTER@,
        board_page(cs.push(c), user) == board_top(user) + contract_card(c, user) + board_page(
            cs,
            user,
        ).skip(board_top(user).len() as int),
{
    let top = board_top(user);
    assert(board_rows(Seq::<ContractView>::empty(), user) == Seq::<char>::empty());
    assert(board_page(Seq::empty(), user) =~= top + BOARD_FOOTER@);
    lemma_newest_first(cs, c, user);
    let rows = board_rows(cs, user);
    assert(board_page(cs, user) =~= top + (rows + BOARD_FOOTER@));
    assert(board_page(cs, user).skip(top.len() as int) =~= rows + BOARD_FOOTER@);
    assert(board_page(cs.push(c), user) =~= top + contract_card(c, user) + (rows
        + BOARD_FOOTER@));
}

/// The form field named `key` first appears at position `i`.
pub open spec fn first_field(form: Seq<(Seq<char>, Seq<char>)>, key: Seq<char>, i: int) -> bool {
    &&& 0 <= i < form.len()
    &&& form[i].0 == key
    &&& forall|j: int| 0 <= j < i ==> form[j].0 != key
}

/// No form field is named `key`.
pub open spec fn no_field(form: Seq<(Seq<char>, Seq<char>)>, key: Seq<char>) -> bool {
    forall|j: int| 0 <= j < form.len() ==> form[j].0 != key
}

proof fn lemma_form_text_fields(form: Seq<(Seq<char>, Seq<char>)>, key: Seq<char>, i: int)
    ensures
        first_field(form, key, i) ==> form_text(form, key) == form[i].1,
        no_field(form, key) ==> form_text(form, key) == Seq::<char>::empty(),
    decreases form.len(),
{
    if form.len() > 0 {
        lemma_form_text_fields(form.drop_first(), key, i - 1);
        if first_field(form, key, i) && i > 0 {
            assert(first_field(form.drop_first(), key, i - 1));
        }
        if no_field(form, key) {
            assert(no_field(form.drop_first(), key));
        }
    }
}

/// Each text field of a posted contract is the value of the form field of
/// the same name (the first, if several), or empty when the form has none;
/// the poster hosts an open contract with no challenger and no comments.
pub proof fn lemma_posted_fields_come_from_form(
    id: u64,
    user: Seq<char>,
    form: Seq<(Seq<char>, Seq<char>)>,
    key: Seq<char>,
    i: int,
)
    ensures
        ({
            let c = posted(id, user, form);
            &&& c.id == id
            &&& c.host == user
            &&& c.status == STATUS_OPEN@
            &&& c.challenger is None
            &&& c.challenger_force is None
            &&& c.challenger_assets is None
            &&& c.comments.len() == 0
        }),
        first_field(form, "host_force"@, i) ==> posted(id, user, form).host_force == form[i].1,
        first_field(form, "host_assets"@, i) ==> posted(id, user, form).host_assets == form[i].1,
        first_field(form, "mission_type"@, i) ==> posted(id, user, form).mission_type == form[i].1,
        first_field(form, "bv2"@, i) ==> posted(id, user, form).bv2 == form[i].1,
        first_field(form, "era"@, i) ==> posted(id, user, form).era == form[i].1,
        first_field(form, "map"@, i) ==> posted(id, user, form).map == form[i].1,
        first_field(form, "intel_level"@, i) ==> posted(id, user, form).intel_level == form[i].1,
        first_field(form, "match_time"@, i) ==> posted(id, user, form).match_time == form[i].1,
        first_field(form, "force_comp"@, i) ==> posted(id, user, form).force_comp == form[i].1,
        first_field(form, "ruleset"@, i) ==> posted(id, user, form).ruleset == form[i].1,
        no_field(form, "host_force"@) ==> posted(id, user, form).host_force.len() == 0,
        no_field(form, "host_assets"@) ==> posted(id, user, form).host_assets.len() == 0,
        no_field(form, "mission_type"@) ==> posted(id, user, form).mission_type.len() == 0,
        no_field(form, "bv2"@) ==> posted(id, user, form).bv2.len() == 0,
        no_field(form, "era"@) ==> posted(id, user, form).era.len() == 0,
        no_field(form, "map"@) ==> posted(id, user, form).map.len() == 0,
        no_field(form, "intel_level"@) ==> posted(id, user, form).intel_level.len() == 0,
        no_field(form, "match_time"@) ==> posted(id, user, form).match_time.len() == 0,
        no_field(form, "force_comp"@) ==> posted(id, user, form).force_comp.len() == 0,
        no_field(form, "ruleset"@) ==> posted(id, user, form).ruleset.len() == 0,
{
    lemma_form_text_fields(form, "host_force"@, i);
    lemma_form_text_fields(form, "host_assets"@, i);
    lemma_form_text_fields(form, "mission_type"@, i);
    lemma_form_text_fields(form, "bv2"@, i);
    lemma_form_text_fields(form, "era"@, i);
    lemma_form_text_fields(form, "map"@, i);
    lemma_form_text_fields(form, "intel_level"@, i);
    lemma_form_text_fields(form, "match_time"@, i);
    lemma_form_text_fields(form, "force_comp"@, i);
    lemma_form_text_fields(form, "ruleset"@, i);
}

/// Only the host may scrub a contract: a user may delete it exactly when
/// they host it, so a challenger who is not the host may not, and
/// accepting a contract gives nobody the right to scrub it.
pub proof fn lemma_only_host_deletes(
    c: ContractView,
    user: Seq<char>,
    other: Seq<char>,
    force: Seq<char>,
    assets: Seq<char>,
)
    ensures
        may_delete(c, user) <==> user == c.host,
        c.challenger == Some(user) && user != c.host ==> !may_delete(c, user),
        may_delete(accepted(c, other, force, assets), user) == may_delete(c, user),
{
}

/// Each operation changes only what it is about. Handing over command
/// changes only the host, the host's force and assets, the challenger
/// fields and the status; withdrawing changes only the challenger fields
/// and the status; accepting changes only the challenger fields and the
/// status; a comment changes only the comments.
pub proof fn lemma_operations_frame(
    c: ContractView,
    user: Seq<char>,
    force: Seq<char>,
    assets: Seq<char>,
    text: Seq<char>,
)
    ensures
        ({
            let t = transferred(c, user);
            &&& t.id == c.id
            &&& t.mission_type == c.mission_type
            &&& t.bv2 == c.bv2
            &&& t.era == c.era
            &&& t.map == c.map
            &&& t.intel_level == c.intel_level
            &&& t.match_time == c.match_time
            &&& t.expires_at == c.expires_at
            &&& t.force_comp == c.force_comp
            &&& t.ruleset == c.ruleset
            &&& t.optional_rules == c.optional_rules
            &&& t.comments == c.comments
        }),
        ({
            let w = withdrawn(c, user);
            &&& (ContractView {
                status: c.status,
                challenger: c.challenger,
                challenger_force: c.challenger_force,
                challenger_assets: c.challenger_assets,
                ..w
            }) == c
        }),
        ({
            let a = accepted(c, user, force, assets);
            &&& (ContractView {
                status: c.status,
                challenger: c.challenger,
                challenger_force: c.challenger_force,
                challenger_assets: c.challenger_assets,
                ..a
            }) == c
        }),
{
}


proof fn lemma_decimal_reads_back(n: nat)
    ensures
        all_digits(decimal(n)),
        digits_value(decimal(n)) == n,
        decimal(n).len() > 0,
        is_digit(decimal(n)[0]),
    decreases n,
{
    let d = n % 10;
    assert(is_digit(digit_char(d)) && digit_value(digit_char(d)) == d) by {
        assert(('0' as u32) == 48 && ('1' as u32) == 49 && ('2' as u32) == 50 && ('3' as u32) == 51
            && ('4' as u32) == 52 && ('5' as u32) == 53 && ('6' as u32) == 54 && ('7' as u32)
            == 55 && ('8' as u32) == 56 && ('9' as u32) == 57);
    }
    if n >= 10 {
        lemma_decimal_reads_back(n / 10);
        let init = decimal(n / 10);
        assert(decimal(n).drop_last() =~= init);
        assert forall|i: int| 0 <= i < decimal(n).len() implies is_digit(#[trigger] decimal(n)[i]) by {
            if i < init.len() {
                assert(decimal(n)[i] == init[i]);
            }
        }
        assert(decimal(n)[0] == init[0]);
        assert(decimal(n).last() == digit_char(d));
        assert(digits_value(decimal(n)) == digits_value(init) * 10 + digit_value(digit_char(d)));
        assert((n / 10) * 10 + n % 10 == n) by (nonlinear_arith);
    } else {
        assert(decimal(n).drop_last() =~= Seq::<char>::empty());
        assert(decimal(n).last() == digit_char(d));
        assert(digits_value(decimal(n)) == digits_value(Seq::<char>::empty()) * 10 + digit_value(digit_char(d)));
    }
}

/// Reading back a decimal numeral gives its value: the numeral of `n`,
/// alone or after a `+`, reads as `n`, and after a `-` as `-n`, for every
/// `n` that fits in an `i64`.
pub proof fn lemma_parse_reads_decimal(n: nat)
    requires
        n <= i64::MAX,
    ensures
        parse_i64(decimal(n)) == Some(n as i64),
        parse_i64(seq!['+'] + decimal(n)) == Some(n as i64),
        parse_i64(seq!['-'] + decimal(n)) == Some((-(n as int)) as i64),
{
    lemma_decimal_reads_back(n);
    let d = decimal(n);
    assert(d[0] != '-' && d[0] != '+');
    assert(numeral_digits(d) == d);
    assert((seq!['+'] + d).skip(1) =~= d);
    assert((seq!['-'] + d).skip(1) =~= d);
    assert(numeral_digits(seq!['+'] + d) == d);
    assert(numeral_digits(seq!['-'] + d) == d);
}

} // verus!
