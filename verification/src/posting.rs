//! Posting a contract from the fields of the post form.

use vstd::prelude::*;
use crate::contract::{Contract, ContractView, STATUS_OPEN};
use crate::force::count_in;
use crate::text::{
    chars_of, lemma_lex_irreflexive, lemma_lex_total, lemma_lex_transitive, lex_less, lex_lt,
    replace_all, replace_all_str, replace_char, replace_char_str, same_text, starts_with,
    starts_with_str, views,
};

verus! {

/// `c` is an ASCII decimal digit.
pub open spec fn is_digit(c: char) -> bool {
    48 <= (c as u32) <= 57
}

/// The value of an ASCII decimal digit.
pub open spec fn digit_value(c: char) -> int {
    (c as u32) - 48
}

/// The value of a sequence of decimal digits.
pub open spec fn digits_value(d: Seq<char>) -> int
    decreases d.len(),
{
    if d.len() == 0 {
        0
    } else {
        digits_value(d.drop_last()) * 10 + digit_value(d.last())
    }
}

/// Every character of `d` is a decimal digit.
pub open spec fn all_digits(d: Seq<char>) -> bool {
    forall|i: int| 0 <= i < d.len() ==> is_digit(#[trigger] d[i])
}

/// A sign, if `s` begins with one.
pub open spec fn has_sign(s: Seq<char>) -> bool {
    s.len() > 0 && (s[0] == '-' || s[0] == '+')
}

/// The digits of a numeral: what follows its sign, if it has one.
pub open spec fn numeral_digits(s: Seq<char>) -> Seq<char> {
    if has_sign(s) {
        s.skip(1)
    } else {
        s
    }
}

/// The value of a numeral, negated after a `-`.
pub open spec fn numeral_value(s: Seq<char>) -> int {
    if s.len() > 0 && s[0] == '-' {
        -digits_value(numeral_digits(s))
    } else {
        digits_value(numeral_digits(s))
    }
}

/// What `str::parse::<i64>` makes of `s`: an optional `+` or `-`, then one
/// or more decimal digits, whose value fits in an `i64`.
pub open spec fn parse_i64(s: Seq<char>) -> Option<i64> {
    if numeral_digits(s).len() > 0 && all_digits(numeral_digits(s)) && i64::MIN <= numeral_value(s)
        <= i64::MAX {
        Some(numeral_value(s) as i64)
    } else {
        None
    }
}

proof fn lemma_digits_value_prefix(d: Seq<char>, k: int)
    requires
        0 <= k <= d.len(),
        all_digits(d),
    ensures
        0 <= digits_value(d.subrange(0, k)) <= digits_value(d),
    decreases d.len() - k,
{
    if k < d.len() {
        lemma_digits_value_prefix(d, k + 1);
        assert(d.subrange(0, k + 1).drop_last() =~= d.subrange(0, k));
        assert(is_digit(d[k]));
        lemma_digits_value_nonneg(d.subrange(0, k));
    } else {
        assert(d.subrange(0, k) =~= d);
        lemma_digits_value_nonneg(d);
    }
}

proof fn lemma_digits_value_nonneg(d: Seq<char>)
    requires
        all_digits(d),
    ensures
        digits_value(d) >= 0,
    decreases d.len(),
{
    if d.len() > 0 {
        assert(is_digit(d[d.len() - 1]));
        lemma_digits_value_nonneg(d.drop_last());
    }
}

/// `s` read as a decimal `i64`, as `str::parse::<i64>` reads it.
pub fn parse_i64_str(s: &str) -> (r: Option<i64>)
    ensures
        r == parse_i64(s@),
{
    let v = chars_of(s);
    let n = v.len();
    if n == 0 {
        return None;
    }
    let neg = v[0] == '-';
    let start: usize = if v[0] == '-' || v[0] == '+' {
        1
    } else {
        0
    };
    let ghost body = numeral_digits(s@);
    assert(body =~= s@.subrange(start as int, n as int));
    if start == n {
        return None;
    }
    let limit: i128 = 9223372036854775808;
    let mut acc: i128 = 0;
    let mut i: usize = start;
    while i < n
        invariant
            v@ == s@,
            n == v.len(),
            start <= i <= n,
            body == s@.subrange(start as int, n as int),
            body == numeral_digits(s@),
            neg == (s@.len() > 0 && s@[0] == '-'),
            all_digits(v@.subrange(start as int, i as int)),
            acc == digits_value(v@.subrange(start as int, i as int)),
            0 <= acc <= limit,
            limit == 9223372036854775808,
        decreases n - i,
    {
        let c = v[i];
        let code = c as u32;
        if code < 48 || code > 57 {
            assert(!is_digit(body[i - start]));
            assert(!all_digits(body));
            assert(parse_i64(s@) is None);
            return None;
        }
        assert(v@.subrange(start as int, i + 1).drop_last() =~= v@.subrange(
            start as int,
            i as int,
        ));
        acc = acc * 10 + ((code - 48) as i128);
        if acc > limit {
            proof {
                if all_digits(body) {
                    assert(body.subrange(0, i + 1 - start) =~= v@.subrange(start as int, i + 1));
                    lemma_digits_value_prefix(body, i + 1 - start);
                    assert(digits_value(body) > limit);
                }
                assert(parse_i64(s@) is None);
            }
            return None;
        }
        i = i + 1;
    }
    assert(v@.subrange(start as int, n as int) == body);
    if neg {
        let value: i128 = 0 - acc;
        Some(value as i64)
    } else if acc > 9223372036854775807 {
        None
    } else {
        Some(acc as i64)
    }
}

/// Seconds after the match time at which a contract expires.
pub const EXPIRY_GRACE_SECONDS: i64 = 7200;

/// When a contract with a match at `epoch` expires: two hours later,
/// saturating; never (zero) when no positive match time is known.
pub open spec fn expiry_for(epoch: i64) -> i64 {
    if epoch > 0 {
        if epoch + EXPIRY_GRACE_SECONDS > i64::MAX {
            i64::MAX
        } else {
            (epoch + EXPIRY_GRACE_SECONDS) as i64
        }
    } else {
        0
    }
}

/// When a contract with a match at `epoch` expires.
pub fn expiry_for_epoch(epoch: i64) -> (r: i64)
    ensures
        r == expiry_for(epoch),
{
    if epoch > 0 {
        if epoch > i64::MAX - EXPIRY_GRACE_SECONDS {
            i64::MAX
        } else {
            epoch + EXPIRY_GRACE_SECONDS
        }
    } else {
        0
    }
}

/// The fields of a form as plain values.
pub open spec fn form_views(form: Seq<(String, String)>) -> Seq<(Seq<char>, Seq<char>)> {
    form.map_values(|p: (String, String)| (p.0@, p.1@))
}

/// The value of the first field named `key`.
pub open spec fn form_lookup(form: Seq<(Seq<char>, Seq<char>)>, key: Seq<char>) -> Option<
    Seq<char>,
>
    decreases form.len(),
{
    if form.len() == 0 {
        None
    } else if form[0].0 == key {
        Some(form[0].1)
    } else {
        form_lookup(form.drop_first(), key)
    }
}

/// The value of the field named `key`, or the empty text.
pub open spec fn form_text(form: Seq<(Seq<char>, Seq<char>)>, key: Seq<char>) -> Seq<char> {
    match form_lookup(form, key) {
        Some(v) => v,
        None => Seq::empty(),
    }
}

/// The value of the field named `key`, if the form has one.
pub fn form_get(form: &Vec<(String, String)>, key: &str) -> (r: Option<String>)
    ensures
        match r {
            Some(v) => form_lookup(form_views(form@), key@) == Some(v@),
            None => form_lookup(form_views(form@), key@) is None,
        },
{
    let ghost f = form_views(form@);
    let mut i: usize = 0;
    assert(f.skip(0) =~= f);
    while i < form.len()
        invariant
            f == form_views(form@),
            f.len() == form.len(),
            i <= form.len(),
            form_lookup(f, key@) == form_lookup(f.skip(i as int), key@),
        decreases form.len() - i,
    {
        assert(f.skip(i as int)[0] == (form@[i as int].0@, form@[i as int].1@));
        assert(f.skip(i as int).drop_first() =~= f.skip(i + 1));
        if same_text(form[i].0.as_str(), key) {
            return Some(form[i].1.clone());
        }
        i = i + 1;
    }
    None
}

/// The value of the field named `key`, or the empty text.
pub fn form_text_of(form: &Vec<(String, String)>, key: &str) -> (r: String)
    ensures
        r@ == form_text(form_views(form@), key@),
{
    match form_get(form, key) {
        Some(v) => v,
        None => String::new(),
    }
}

/// When a posted contract expires: from the `match_epoch` field read as an
/// `i64` (zero when missing or unreadable).
pub open spec fn posted_expiry(form: Seq<(Seq<char>, Seq<char>)>) -> i64 {
    let epoch = match form_lookup(form, "match_epoch"@) {
        Some(v) => match parse_i64(v) {
            Some(e) => e,
            None => 0,
        },
        None => 0,
    };
    expiry_for(epoch)
}

/// When a contract posted with this form expires.
pub fn posted_expiry_of(form: &Vec<(String, String)>) -> (r: i64)
    ensures
        r == posted_expiry(form_views(form@)),
{
    let epoch = match form_get(form, "match_epoch") {
        Some(v) => match parse_i64_str(v.as_str()) {
            Some(e) => e,
            None => 0,
        },
        None => 0,
    };
    expiry_for_epoch(epoch)
}


/// What `str::to_uppercase` returns for `s`: Unicode's full uppercase
/// mapping of each character, a function of the text alone.
pub uninterp spec fn uppercase(s: Seq<char>) -> Seq<char>;

/// Calls `str::to_uppercase`. Its result is named `uppercase` of the input;
/// nothing more of the Unicode mapping is stated.
#[verifier::external_body]
fn to_uppercase(s: &str) -> (r: String)
    ensures
        r@ == uppercase(s@),
{
    s.to_uppercase()
}

/// The prefix of the form fields that name optional rules.
pub const RULE_PREFIX: &'static str = "rule_";

/// The optional rule that a form field names, if it names one: the field
/// name without `rule_`, underscores turned into spaces, in capitals.
pub open spec fn rule_name(key: Seq<char>) -> Option<Seq<char>> {
    if starts_with(key, RULE_PREFIX@) {
        Some(uppercase(replace_char(replace_all(key, RULE_PREFIX@, Seq::empty()), '_', " "@)))
    } else {
        None
    }
}

/// The optional rules that the fields of a form name, in form order.
pub open spec fn rule_names(form: Seq<(Seq<char>, Seq<char>)>) -> Seq<Seq<char>>
    decreases form.len(),
{
    if form.len() == 0 {
        Seq::empty()
    } else {
        let init = rule_names(form.drop_last());
        match rule_name(form.last().0) {
            Some(n) => init.push(n),
            None => init,
        }
    }
}

/// Each element is equal to or comes before the next ones.
pub open spec fn ascending(s: Seq<Seq<char>>) -> bool {
    forall|i: int, j: int|
        0 <= i < j < s.len() ==> #[trigger] s[i] == #[trigger] s[j] || lex_lt(s[i], s[j])
}

/// `l` holds the elements of `items`, as often as `items` does, in
/// ascending order.
pub open spec fn is_listing(l: Seq<Seq<char>>, items: Seq<Seq<char>>) -> bool {
    &&& ascending(l)
    &&& forall|x: Seq<char>| count_in(l, x) == count_in(items, x)
}

/// The optional rules of a contract posted with this form, in ascending
/// order (unique, see `lemma_listing_unique`).
pub open spec fn checked_rules_of(form: Seq<(Seq<char>, Seq<char>)>) -> Seq<Seq<char>> {
    choose|l: Seq<Seq<char>>| is_listing(l, rule_names(form))
}

proof fn lemma_count_insert(s: Seq<Seq<char>>, p: int, e: Seq<char>, x: Seq<char>)
    requires
        0 <= p <= s.len(),
    ensures
        count_in(s.insert(p, e), x) == count_in(s, x) + if e == x {
            1nat
        } else {
            0nat
        },
    decreases s.len(),
{
    if p == s.len() {
        assert(s.insert(p, e).drop_last() =~= s);
    } else {
        lemma_count_insert(s.drop_last(), p, e, x);
        assert(s.insert(p, e).drop_last() =~= s.drop_last().insert(p, e));
    }
}

proof fn lemma_count_front(s: Seq<Seq<char>>, x: Seq<char>)
    requires
        s.len() > 0,
    ensures
        count_in(s, x) == count_in(s.drop_first(), x) + if s[0] == x {
            1nat
        } else {
            0nat
        },
    decreases s.len(),
{
    if s.len() > 1 {
        lemma_count_front(s.drop_last(), x);
        assert(s.drop_last().drop_first() =~= s.drop_first().drop_last());
    } else {
        assert(s.drop_last() =~= Seq::<Seq<char>>::empty());
        assert(s.drop_first() =~= Seq::<Seq<char>>::empty());
    }
}

proof fn lemma_count_member(s: Seq<Seq<char>>, x: Seq<char>)
    requires
        count_in(s, x) > 0,
    ensures
        s.contains(x),
    decreases s.len(),
{
    if s.last() != x {
        lemma_count_member(s.drop_last(), x);
        let i = choose|i: int| 0 <= i < s.drop_last().len() && s.drop_last()[i] == x;
        assert(s[i] == x);
    } else {
        assert(s[s.len() - 1] == x);
    }
}

proof fn lemma_count_of_member(s: Seq<Seq<char>>, i: int)
    requires
        0 <= i < s.len(),
    ensures
        count_in(s, s[i]) > 0,
    decreases s.len(),
{
    if i < s.len() - 1 {
        lemma_count_of_member(s.drop_last(), i);
    }
}

/// Two ascending listings with the same elements, as often each, are
/// equal: the sorted order of a collection is unique.
pub proof fn lemma_listing_unique(a: Seq<Seq<char>>, b: Seq<Seq<char>>)
    requires
        ascending(a),
        ascending(b),
        forall|x: Seq<char>| count_in(a, x) == count_in(b, x),
    ensures
        a == b,
    decreases a.len(),
{
    if a.len() == 0 {
        if b.len() > 0 {
            lemma_count_of_member(b, 0);
            assert(count_in(a, b[0]) > 0);
        }
        assert(a =~= b);
    } else {
        lemma_count_of_member(a, 0);
        assert(count_in(b, a[0]) > 0);
        lemma_count_member(b, a[0]);
        let j = choose|j: int| 0 <= j < b.len() && b[j] == a[0];
        lemma_count_of_member(b, 0);
        assert(count_in(a, b[0]) > 0);
        lemma_count_member(a, b[0]);
        let i = choose|i: int| 0 <= i < a.len() && a[i] == b[0];
        if a[0] != b[0] {
            assert(i > 0 && j > 0);
            assert(lex_lt(a[0], a[i]));
            assert(lex_lt(b[0], b[j]));
            lemma_lex_transitive(a[0], b[0], a[0]);
            lemma_lex_irreflexive(a[0]);
        }
        assert forall|x: Seq<char>| count_in(a.drop_first(), x) == count_in(b.drop_first(), x) by {
            lemma_count_front(a, x);
            lemma_count_front(b, x);
        }
        assert forall|p: int, q: int|
            0 <= p < q < a.drop_first().len() implies #[trigger] a.drop_first()[p]
            == #[trigger] a.drop_first()[q] || lex_lt(a.drop_first()[p], a.drop_first()[q]) by {
            assert(a[p + 1] == a.drop_first()[p] && a[q + 1] == a.drop_first()[q]);
        }
        assert forall|p: int, q: int|
            0 <= p < q < b.drop_first().len() implies #[trigger] b.drop_first()[p]
            == #[trigger] b.drop_first()[q] || lex_lt(b.drop_first()[p], b.drop_first()[q]) by {
            assert(b[p + 1] == b.drop_first()[p] && b[q + 1] == b.drop_first()[q]);
        }
        lemma_listing_unique(a.drop_first(), b.drop_first());
        assert(a =~= seq![a[0]] + a.drop_first());
        assert(b =~= seq![b[0]] + b.drop_first());
    }
}

/// The optional rule that a form field names, if it names one.
fn rule_name_of(key: &str) -> (r: Option<String>)
    ensures
        match r {
            Some(n) => rule_name(key@) == Some(n@),
            None => rule_name(key@) is None,
        },
{
    proof {
        reveal_strlit("");
        reveal_strlit("rule_");
    }
    if starts_with_str(key, RULE_PREFIX) {
        let stripped = replace_all_str(key, RULE_PREFIX, "");
        assert(""@ =~= Seq::<char>::empty());
        let spaced = replace_char_str(stripped.as_str(), '_', " ");
        Some(to_uppercase(spaced.as_str()))
    } else {
        None
    }
}

/// The optional rules that the fields of a form name, in ascending order.
pub fn checked_rules(form: &Vec<(String, String)>) -> (r: Vec<String>)
    ensures
        views(r@) == checked_rules_of(form_views(form@)),
{
    proof {
        reveal_strlit("rule_");
    }
    let ghost f = form_views(form@);
    let mut out: Vec<String> = Vec::new();
    let mut i: usize = 0;
    while i < form.len()
        invariant
            f == form_views(form@),
            f.len() == form.len(),
            i <= form.len(),
            is_listing(views(out@), rule_names(f.subrange(0, i as int))),
        decreases form.len() - i,
    {
        let ghost pre = f.subrange(0, i as int);
        assert(f.subrange(0, i + 1).drop_last() =~= pre);
        assert(f.subrange(0, i + 1).last().0 == form@[i as int].0@);
        let ghost old_out = views(out@);
        match rule_name_of(form[i].0.as_str()) {
            Some(e) => {
                let ghost name = e@;
                let mut p: usize = 0;
                while p < out.len() && !lex_less(e.as_str(), out[p].as_str())
                    invariant
                        p <= out.len(),
                        old_out == views(out@),
                        e@ == name,
                        forall|t: int|
                            0 <= t < p ==> #[trigger] old_out[t] == name || lex_lt(old_out[t], name),
                    decreases out.len() - p,
                {
                    proof {
                        lemma_lex_total(name, old_out[p as int]);
                    }
                    p = p + 1;
                }
                proof {
                    assert forall|t: int| p <= t < old_out.len() implies lex_lt(
                        name,
                        #[trigger] old_out[t],
                    ) by {
                        assert(lex_lt(name, old_out[p as int]));
                        if t > p && old_out[p as int] != old_out[t] {
                            lemma_lex_transitive(name, old_out[p as int], old_out[t]);
                        }
                    }
                }
                out.insert(p, e);
                let ghost new_out = views(out@);
                assert(new_out =~= old_out.insert(p as int, name));
                assert forall|a: int, b: int|
                    0 <= a < b < new_out.len() implies #[trigger] new_out[a] == #[trigger] new_out[b]
                    || lex_lt(new_out[a], new_out[b]) by {
                    if b < p {
                        assert(new_out[a] == old_out[a] && new_out[b] == old_out[b]);
                    } else if b == p {
                        assert(new_out[a] == old_out[a]);
                    } else if a < p {
                        assert(new_out[a] == old_out[a] && new_out[b] == old_out[b - 1]);
                        if old_out[a] != name {
                            lemma_lex_transitive(old_out[a], name, old_out[b - 1]);
                        }
                    } else if a == p {
                        assert(new_out[b] == old_out[b - 1]);
                    } else {
                        assert(new_out[a] == old_out[a - 1] && new_out[b] == old_out[b - 1]);
                    }
                }
                assert(rule_names(f.subrange(0, i + 1)) == rule_names(pre).push(name));
                assert(rule_names(pre).push(name).drop_last() =~= rule_names(pre));
                assert forall|x: Seq<char>|
                    count_in(new_out, x) == count_in(rule_names(f.subrange(0, i + 1)), x) by {
                    lemma_count_insert(old_out, p as int, name, x);
                }
            },
            None => {
                assert(rule_names(f.subrange(0, i + 1)) == rule_names(pre));
            },
        }
        i = i + 1;
    }
    proof {
        assert(f.subrange(0, i as int) =~= f);
        lemma_listing_unique(views(out@), checked_rules_of(f));
    }
    out
}

/// The contract that `user` posts with a form, under a new id.
pub open spec fn posted(id: u64, user: Seq<char>, form: Seq<(Seq<char>, Seq<char>)>) -> ContractView {
    ContractView {
        id,
        host: user,
        host_force: form_text(form, "host_force"@),
        host_assets: form_text(form, "host_assets"@),
        challenger: None,
        challenger_force: None,
        challenger_assets: None,
        mission_type: form_text(form, "mission_type"@),
        bv2: form_text(form, "bv2"@),
        era: form_text(form, "era"@),
        map: form_text(form, "map"@),
        intel_level: form_text(form, "intel_level"@),
        match_time: form_text(form, "match_time"@),
        expires_at: posted_expiry(form),
        force_comp: form_text(form, "force_comp"@),
        ruleset: form_text(form, "ruleset"@),
        optional_rules: checked_rules_of(form),
        status: STATUS_OPEN@,
        comments: Seq::empty(),
    }
}

/// The contract that `current_user` posts with a form, under id `id`: open,
/// without challenger or comments.
pub fn post_contract(id: u64, current_user: &str, form: &Vec<(String, String)>) -> (c: Contract)
    ensures
        c@ == posted(id, current_user@, form_views(form@)),
{
    let c = Contract {
        id,
        host: String::from_str(current_user),
        host_force: form_text_of(form, "host_force"),
        host_assets: form_text_of(form, "host_assets"),
        challenger: None,
        challenger_force: None,
        challenger_assets: None,
        mission_type: form_text_of(form, "mission_type"),
        bv2: form_text_of(form, "bv2"),
        era: form_text_of(form, "era"),
        map: form_text_of(form, "map"),
        intel_level: form_text_of(form, "intel_level"),
        match_time: form_text_of(form, "match_time"),
        expires_at: posted_expiry_of(form),
        force_comp: form_text_of(form, "force_comp"),
        ruleset: form_text_of(form, "ruleset"),
        optional_rules: checked_rules(form),
        status: String::from_str(STATUS_OPEN),
        comments: Vec::new(),
    };
    assert(crate::contract::comment_views(c.comments@) =~= Seq::<crate::contract::CommentView>::empty());
    c
}

} // verus!
