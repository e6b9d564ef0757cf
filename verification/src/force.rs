//! How a force roster is shown, depending on the intel level of a contract.
//!
//! A roster is a comma-separated list of units, each of which may name its
//! class in square brackets, as in `Atlas AS7-D [Assault]`.

use vstd::prelude::*;
use crate::text::{
    chars_of, contains_str, decimal, decimal_string, first_index, first_position, has_substring,
    join, join_strings, lemma_ascending_unique, lemma_first_index_char, lemma_lex_total,
    lemma_lex_transitive, lex_less, lex_lt, replace_char, replace_char_str, split_on, split_ranges,
    strictly_ascending, views,
};

verus! {

/// Shown for an empty roster.
pub const NO_FORCE: &'static str = "None";

/// Shown in place of a roster under a total blackout.
pub const CLASSIFIED_FORCE: &'static str = "<span style='color: #ff7b72;'>[ CLASSIFIED ]</span>";

/// Shown under an intercept when no unit names its class.
pub const UNKNOWN_FORCE: &'static str = "<span style='color: #e3b341;'>[ ENCRYPTED / UNKNOWN ]</span>";

/// What stands between two units of a fully revealed roster.
pub const UNIT_BREAK: &'static str = "<br>• ";

/// What stands between two lines of an intercept summary.
pub const SUMMARY_SEPARATOR: &'static str = ", ";

/// What stands between the count and the class in an intercept summary line.
pub const COUNT_MARK: &'static str = "x ";

/// The first `]` of a unit does not come before its first `[`.
pub open spec fn brackets_ordered(unit: Seq<char>) -> bool {
    match (first_index(unit, '['), first_index(unit, ']')) {
        (Some(a), Some(b)) => a < b,
        _ => true,
    }
}

/// The class that a unit names: what stands between its first `[` and its
/// first `]`, when it has both.
pub open spec fn unit_class(unit: Seq<char>) -> Option<Seq<char>> {
    match (first_index(unit, '['), first_index(unit, ']')) {
        (Some(a), Some(b)) => Some(unit.subrange(a + 1, b)),
        _ => None,
    }
}

/// The classes that the units name, in order of the units.
pub open spec fn classes_of(units: Seq<Seq<char>>) -> Seq<Seq<char>>
    decreases units.len(),
{
    if units.len() == 0 {
        Seq::empty()
    } else {
        let init = classes_of(units.drop_last());
        match unit_class(units.last()) {
            Some(c) => init.push(c),
            None => init,
        }
    }
}

/// The units of a roster.
pub open spec fn roster_units(force: Seq<char>) -> Seq<Seq<char>> {
    split_on(force, ',')
}

/// The classes that the units of a roster name, in order.
pub open spec fn roster_classes(force: Seq<char>) -> Seq<Seq<char>> {
    classes_of(roster_units(force))
}

/// How often `x` occurs in `s`.
pub open spec fn count_in(s: Seq<Seq<char>>, x: Seq<char>) -> nat
    decreases s.len(),
{
    if s.len() == 0 {
        0
    } else {
        count_in(s.drop_last(), x) + if s.last() == x {
            1nat
        } else {
            0nat
        }
    }
}

/// One line of an intercept summary: how many units of a class there are.
pub open spec fn summary_line(class: Seq<char>, n: nat) -> Seq<char> {
    decimal(n) + COUNT_MARK@ + class
}

/// `lines` holds one line per class that the roster names, with the number
/// of units of that class, in ascending order.
pub open spec fn is_intercept_summary(force: Seq<char>, lines: Seq<Seq<char>>) -> bool {
    &&& strictly_ascending(lines)
    &&& forall|x: Seq<char>|
        lines.contains(x) <==> exists|c: Seq<char>|
            #![trigger roster_classes(force).contains(c)]
            roster_classes(force).contains(c) && x == summary_line(
                c,
                count_in(roster_classes(force), c),
            )
}

/// The intercept summary of a roster (unique, see `lemma_ascending_unique`).
pub open spec fn intercept_summary(force: Seq<char>) -> Seq<Seq<char>> {
    choose|lines: Seq<Seq<char>>| is_intercept_summary(force, lines)
}

/// A roster can be summarised: no unit closes its class before opening it,
/// and no class is named more than `u32::MAX` times.
pub open spec fn intercept_readable(force: Seq<char>) -> bool {
    &&& forall|k: int|
        0 <= k < roster_units(force).len() ==> brackets_ordered(#[trigger] roster_units(force)[k])
    &&& forall|c: Seq<char>| count_in(roster_classes(force), c) <= u32::MAX
}

/// The intercept summary as shown.
pub open spec fn intercept_text(force: Seq<char>) -> Seq<char> {
    if intercept_summary(force).len() == 0 {
        UNKNOWN_FORCE@
    } else {
        join(intercept_summary(force), SUMMARY_SEPARATOR@)
    }
}

/// How a roster is shown at an intel level.
pub open spec fn force_display(force: Seq<char>, intel: Seq<char>) -> Seq<char> {
    if force.len() == 0 {
        NO_FORCE@
    } else if has_substring(intel, "Blackout"@) {
        CLASSIFIED_FORCE@
    } else if has_substring(intel, "Intercept"@) {
        intercept_text(force)
    } else {
        replace_char(force, ',', UNIT_BREAK@)
    }
}

/// The roster can be shown at the intel level: an intercept summary is
/// only asked of a readable roster.
pub open spec fn force_display_defined(force: Seq<char>, intel: Seq<char>) -> bool {
    (force.len() > 0 && !has_substring(intel, "Blackout"@) && has_substring(intel, "Intercept"@))
        ==> intercept_readable(force)
}


proof fn lemma_count_bound(s: Seq<Seq<char>>, x: Seq<char>)
    ensures
        count_in(s, x) <= s.len(),
    decreases s.len(),
{
    if s.len() > 0 {
        lemma_count_bound(s.drop_last(), x);
    }
}

proof fn lemma_count_absent(s: Seq<Seq<char>>, x: Seq<char>)
    requires
        !s.contains(x),
    ensures
        count_in(s, x) == 0,
    decreases s.len(),
{
    if s.len() > 0 {
        assert(!s.drop_last().contains(x)) by {
            if s.drop_last().contains(x) {
                let i = choose|i: int| 0 <= i < s.drop_last().len() && s.drop_last()[i] == x;
                assert(s[i] == x);
            }
        }
        lemma_count_absent(s.drop_last(), x);
        assert(s[s.len() - 1] != x);
    }
}

proof fn lemma_decimal_digits(n: nat)
    ensures
        forall|i: int| 0 <= i < decimal(n).len() ==> decimal(n)[i] != 'x',
        decimal(n).len() >= 1,
    decreases n,
{
    if n >= 10 {
        lemma_decimal_digits(n / 10);
    }
}

/// Different classes give different summary lines.
proof fn lemma_summary_line_injective(c1: Seq<char>, n1: nat, c2: Seq<char>, n2: nat)
    requires
        summary_line(c1, n1) == summary_line(c2, n2),
    ensures
        c1 == c2,
{
    reveal_strlit("x ");
    let d1 = decimal(n1);
    let d2 = decimal(n2);
    let e = summary_line(c1, n1);
    lemma_decimal_digits(n1);
    lemma_decimal_digits(n2);
    assert(e[d1.len() as int] == 'x');
    assert(summary_line(c2, n2)[d2.len() as int] == 'x');
    if d1.len() < d2.len() {
        assert(summary_line(c2, n2)[d1.len() as int] == d2[d1.len() as int]);
    }
    if d2.len() < d1.len() {
        assert(e[d2.len() as int] == d1[d2.len() as int]);
    }
    assert(d1.len() == d2.len());
    assert(c1 =~= e.subrange(d1.len() as int + 2, e.len() as int));
    assert(c2 =~= summary_line(c2, n2).subrange(d2.len() as int + 2, e.len() as int));
}

/// The classes that the units of a roster name, in order.
fn roster_class_list(force: &str) -> (cls: Vec<String>)
    requires
        forall|k: int|
            0 <= k < roster_units(force@).len() ==> brackets_ordered(
                #[trigger] roster_units(force@)[k],
            ),
    ensures
        views(cls@) == roster_classes(force@),
{
    let fs = chars_of(force);
    let ranges = split_ranges(&fs, ',');
    let ghost units = roster_units(force@);
    let mut cls: Vec<String> = Vec::new();
    let mut k: usize = 0;
    while k < ranges.len()
        invariant
            fs@ == force@,
            units == roster_units(force@),
            ranges.len() == units.len(),
            forall|t: int|
                0 <= t < ranges.len() ==> {
                    &&& (#[trigger] ranges[t]).0 <= ranges[t].1 <= fs.len()
                    &&& fs@.subrange(ranges[t].0 as int, ranges[t].1 as int) == units[t]
                },
            forall|t: int| 0 <= t < units.len() ==> brackets_ordered(#[trigger] units[t]),
            k <= ranges.len(),
            views(cls@) == classes_of(units.subrange(0, k as int)),
        decreases ranges.len() - k,
    {
        let lo = ranges[k].0;
        let hi = ranges[k].1;
        let ghost unit = units[k as int];
        assert(fs@.subrange(lo as int, hi as int) == unit);
        assert(brackets_ordered(unit));
        assert(units.subrange(0, k + 1).drop_last() =~= units.subrange(0, k as int));
        assert(units.subrange(0, k + 1).last() == unit);
        let open = first_position(&fs, lo, hi, '[');
        let close = first_position(&fs, lo, hi, ']');
        match (open, close) {
            (Some(a), Some(b)) => {
                assert(first_index(unit, '[') == Some(a - lo));
                assert(first_index(unit, ']') == Some(b - lo));
                let class = String::from_str(force.substring_char(a + 1, b));
                assert(class@ =~= unit.subrange(a - lo + 1, b - lo));
                let ghost before = views(cls@);
                cls.push(class);
                assert(views(cls@) =~= before.push(class@));
            },
            _ => {},
        }
        k = k + 1;
    }
    assert(units.subrange(0, k as int) =~= units);
    cls
}

/// The distinct classes, each with how often it occurs.
fn tally(cls: &Vec<String>) -> (res: (Vec<String>, Vec<usize>))
    ensures
        res.0.len() == res.1.len(),
        views(res.0@).no_duplicates(),
        forall|x: Seq<char>| views(res.0@).contains(x) <==> views(cls@).contains(x),
        forall|i: int|
            0 <= i < res.0.len() ==> res.1[i] as nat == count_in(views(cls@), #[trigger] res.0[i]@),
{
    let ghost all = views(cls@);
    let mut keys: Vec<String> = Vec::new();
    let mut counts: Vec<usize> = Vec::new();
    let mut k: usize = 0;
    while k < cls.len()
        invariant
            all == views(cls@),
            all.len() == cls.len(),
            k <= cls.len(),
            keys.len() == counts.len(),
            views(keys@).no_duplicates(),
            forall|x: Seq<char>|
                views(keys@).contains(x) <==> all.subrange(0, k as int).contains(x),
            forall|i: int|
                0 <= i < keys.len() ==> counts[i] as nat == count_in(
                    all.subrange(0, k as int),
                    #[trigger] keys[i]@,
                ),
        decreases cls.len() - k,
    {
        let ghost pre = all.subrange(0, k as int);
        let ghost c = cls[k as int]@;
        let ghost post = all.subrange(0, k + 1);
        assert(post.drop_last() =~= pre);
        assert(post =~= pre.push(c));
        let mut j: usize = 0;
        while j < keys.len() && !(keys[j] == cls[k])
            invariant
                k < cls.len(),
                j <= keys.len(),
                forall|t: int| 0 <= t < j ==> keys[t]@ != cls[k as int]@,
            decreases keys.len() - j,
        {
            j = j + 1;
        }
        if j < keys.len() {
            proof {
                lemma_count_bound(pre, c);
            }
            let v = counts[j] + 1;
            let ghost old_keys = views(keys@);
            counts.set(j, v);
            assert forall|i: int| 0 <= i < keys.len() implies counts[i] as nat == count_in(
                post,
                #[trigger] keys[i]@,
            ) by {
                if i != j {
                    assert(old_keys[i] != old_keys[j as int]);
                }
            }
            assert forall|x: Seq<char>| views(keys@).contains(x) <==> post.contains(x) by {
                if post.contains(x) && !pre.contains(x) {
                    assert(x == c);
                    assert(views(keys@)[j as int] == x);
                }
                if pre.contains(x) {
                    let i = choose|i: int| 0 <= i < pre.len() && pre[i] == x;
                    assert(post[i] == x);
                }
            }
        } else {
            proof {
                if pre.contains(c) {
                    assert(views(keys@).contains(c));
                    let i = choose|i: int| 0 <= i < views(keys@).len() && views(keys@)[i] == c;
                    assert(views(keys@)[i] == keys@[i]@);
                    assert(keys[i]@ == c);
                }
                lemma_count_absent(pre, c);
            }
            let ghost old_keys = views(keys@);
            keys.push(cls[k].clone());
            counts.push(1);
            assert(views(keys@) =~= old_keys.push(c));
            assert forall|i: int| 0 <= i < keys.len() implies counts[i] as nat == count_in(
                post,
                #[trigger] keys[i]@,
            ) by {
                if i < old_keys.len() {
                    assert(old_keys[i] != c);
                }
            }
            assert forall|x: Seq<char>| views(keys@).contains(x) <==> post.contains(x) by {
                if post.contains(x) {
                    if x == c {
                        assert(views(keys@)[old_keys.len() as int] == x);
                    } else {
                        let i = choose|i: int| 0 <= i < post.len() && post[i] == x;
                        assert(i < pre.len());
                        assert(pre[i] == x);
                        assert(pre.contains(x));
                        assert(old_keys.contains(x));
                        let t = choose|t: int| 0 <= t < old_keys.len() && old_keys[t] == x;
                        assert(views(keys@)[t] == x);
                    }
                }
                if views(keys@).contains(x) {
                    if x == c {
                        assert(post[k as int] == x);
                    } else {
                        let i = choose|i: int|
                            0 <= i < views(keys@).len() && views(keys@)[i] == x;
                        assert(i < old_keys.len());
                        assert(old_keys[i] == x);
                        assert(old_keys.contains(x));
                        assert(pre.contains(x));
                        let t = choose|t: int| 0 <= t < pre.len() && pre[t] == x;
                        assert(post[t] == x);
                    }
                }
            }
        }
        k = k + 1;
    }
    assert(all.subrange(0, k as int) =~= all);
    (keys, counts)
}


/// One summary line per class, in ascending order.
fn ascending_summary(keys: &Vec<String>, counts: &Vec<usize>) -> (lines: Vec<String>)
    requires
        keys.len() == counts.len(),
        views(keys@).no_duplicates(),
    ensures
        strictly_ascending(views(lines@)),
        forall|x: Seq<char>|
            views(lines@).contains(x) <==> exists|i: int|
                0 <= i < keys.len() && x == summary_line(keys[i]@, counts[i] as nat),
{
    let mut sorted: Vec<String> = Vec::new();
    let mut m: usize = 0;
    while m < keys.len()
        invariant
            keys.len() == counts.len(),
            views(keys@).no_duplicates(),
            m <= keys.len(),
            strictly_ascending(views(sorted@)),
            forall|x: Seq<char>|
                views(sorted@).contains(x) <==> exists|i: int|
                    0 <= i < m && x == summary_line(keys[i]@, counts[i] as nat),
        decreases keys.len() - m,
    {
        let mut e = decimal_string(counts[m] as u64);
        e.append(COUNT_MARK);
        e.append(keys[m].as_str());
        let ghost line = summary_line(keys[m as int]@, counts[m as int] as nat);
        assert(e@ == line);
        let ghost old_sorted = views(sorted@);
        proof {
            assert forall|t: int| 0 <= t < old_sorted.len() implies old_sorted[t] != line by {
                assert(old_sorted.contains(old_sorted[t]));
                let i = choose|i: int|
                    0 <= i < m && old_sorted[t] == summary_line(keys[i]@, counts[i] as nat);
                if old_sorted[t] == line {
                    lemma_summary_line_injective(
                        keys[i]@,
                        counts[i] as nat,
                        keys[m as int]@,
                        counts[m as int] as nat,
                    );
                    assert(views(keys@)[i] == views(keys@)[m as int]);
                }
            }
        }
        let mut p: usize = 0;
        while p < sorted.len() && !lex_less(e.as_str(), sorted[p].as_str())
            invariant
                p <= sorted.len(),
                old_sorted == views(sorted@),
                e@ == line,
                forall|t: int| 0 <= t < old_sorted.len() ==> old_sorted[t] != line,
                forall|t: int| 0 <= t < p ==> lex_lt(#[trigger] old_sorted[t], line),
            decreases sorted.len() - p,
        {
            proof {
                lemma_lex_total(line, old_sorted[p as int]);
            }
            p = p + 1;
        }
        proof {
            if p < old_sorted.len() {
                assert(lex_lt(line, old_sorted[p as int]));
            }
            assert forall|t: int| p <= t < old_sorted.len() implies lex_lt(
                line,
                #[trigger] old_sorted[t],
            ) by {
                if t > p {
                    lemma_lex_transitive(line, old_sorted[p as int], old_sorted[t]);
                }
            }
        }
        sorted.insert(p, e);
        let ghost new_sorted = views(sorted@);
        assert(new_sorted =~= old_sorted.insert(p as int, line));
        assert forall|i: int, j: int|
            0 <= i < j < new_sorted.len() implies lex_lt(
            #[trigger] new_sorted[i],
            #[trigger] new_sorted[j],
        ) by {
            if j < p {
                assert(new_sorted[i] == old_sorted[i] && new_sorted[j] == old_sorted[j]);
            } else if j == p {
                assert(new_sorted[i] == old_sorted[i]);
            } else if i < p {
                assert(new_sorted[i] == old_sorted[i] && new_sorted[j] == old_sorted[j - 1]);
                lemma_lex_transitive(old_sorted[i], line, old_sorted[j - 1]);
            } else if i == p {
                assert(new_sorted[j] == old_sorted[j - 1]);
            } else {
                assert(new_sorted[i] == old_sorted[i - 1] && new_sorted[j] == old_sorted[j - 1]);
            }
        }
        assert forall|x: Seq<char>|
            new_sorted.contains(x) <==> exists|i: int|
                0 <= i < m + 1 && x == summary_line(keys[i]@, counts[i] as nat) by {
            if new_sorted.contains(x) {
                let q = choose|q: int| 0 <= q < new_sorted.len() && new_sorted[q] == x;
                if q < p {
                    assert(old_sorted[q] == x);
                    assert(old_sorted.contains(x));
                } else if q > p {
                    assert(old_sorted[q - 1] == x);
                    assert(old_sorted.contains(x));
                }
            }
            if exists|i: int| 0 <= i < m + 1 && x == summary_line(keys[i]@, counts[i] as nat) {
                let i = choose|i: int|
                    0 <= i < m + 1 && x == summary_line(keys[i]@, counts[i] as nat);
                if i == m {
                    assert(new_sorted[p as int] == x);
                } else {
                    assert(old_sorted.contains(x));
                    let q = choose|q: int| 0 <= q < old_sorted.len() && old_sorted[q] == x;
                    if q < p {
                        assert(new_sorted[q] == x);
                    } else {
                        assert(new_sorted[q + 1] == x);
                    }
                }
            }
        }
        m = m + 1;
    }
    sorted
}

/// The intercept summary of a roster as shown.
fn intercept_text_string(force: &str) -> (r: String)
    requires
        intercept_readable(force@),
    ensures
        r@ == intercept_text(force@),
{
    let cls = roster_class_list(force);
    let (keys, counts) = tally(&cls);
    let lines = ascending_summary(&keys, &counts);
    proof {
        let classes = roster_classes(force@);
        let ls = views(lines@);
        assert forall|x: Seq<char>|
            ls.contains(x) <==> exists|c: Seq<char>|
                #![trigger classes.contains(c)]
                classes.contains(c) && x == summary_line(c, count_in(classes, c)) by {
            if ls.contains(x) {
                let i = choose|i: int|
                    0 <= i < keys.len() && x == summary_line(keys[i]@, counts[i] as nat);
                assert(views(keys@)[i] == keys[i]@);
                assert(views(keys@).contains(keys[i]@));
                assert(classes.contains(keys[i]@));
            }
            if exists|c: Seq<char>|
                #![trigger classes.contains(c)]
                classes.contains(c) && x == summary_line(c, count_in(classes, c)) {
                let c = choose|c: Seq<char>|
                    #![trigger classes.contains(c)]
                    classes.contains(c) && x == summary_line(c, count_in(classes, c));
                assert(views(keys@).contains(c));
                let i = choose|i: int| 0 <= i < views(keys@).len() && views(keys@)[i] == c;
                assert(keys[i]@ == c);
                assert(x == summary_line(keys[i]@, counts[i] as nat));
            }
        }
        assert(is_intercept_summary(force@, ls));
        lemma_ascending_unique(ls, intercept_summary(force@));
    }
    if lines.len() == 0 {
        String::from_str(UNKNOWN_FORCE)
    } else {
        join_strings(&lines, SUMMARY_SEPARATOR)
    }
}

/// Whether an intercept summary can be made of a roster: no unit closes
/// its class before opening it, and no class is named more than
/// `u32::MAX` times.
pub fn roster_readable(force: &str) -> (r: bool)
    ensures
        r == intercept_readable(force@),
{
    let fs = chars_of(force);
    let ranges = split_ranges(&fs, ',');
    let ghost units = roster_units(force@);
    let mut k: usize = 0;
    while k < ranges.len()
        invariant
            fs@ == force@,
            units == roster_units(force@),
            ranges.len() == units.len(),
            forall|t: int|
                0 <= t < ranges.len() ==> {
                    &&& (#[trigger] ranges[t]).0 <= ranges[t].1 <= fs.len()
                    &&& fs@.subrange(ranges[t].0 as int, ranges[t].1 as int) == units[t]
                },
            k <= ranges.len(),
            forall|t: int| 0 <= t < k ==> brackets_ordered(#[trigger] units[t]),
        decreases ranges.len() - k,
    {
        let lo = ranges[k].0;
        let hi = ranges[k].1;
        let ghost unit = units[k as int];
        assert(fs@.subrange(lo as int, hi as int) == unit);
        let open = first_position(&fs, lo, hi, '[');
        let close = first_position(&fs, lo, hi, ']');
        match (open, close) {
            (Some(a), Some(b)) => {
                assert(first_index(unit, '[') == Some(a - lo));
                assert(first_index(unit, ']') == Some(b - lo));
                if b < a {
                    assert(!brackets_ordered(unit));
                    return false;
                }
                proof {
                    lemma_first_index_char(unit, '[');
                    lemma_first_index_char(unit, ']');
                }
                assert(a != b);
            },
            (Some(a), None) => {
                assert(first_index(unit, ']') is None);
            },
            (None, _) => {
                assert(first_index(unit, '[') is None);
            },
        }
        assert(brackets_ordered(unit));
        k = k + 1;
    }
    let cls = roster_class_list(force);
    let (keys, counts) = tally(&cls);
    let mut i: usize = 0;
    while i < counts.len()
        invariant
            keys.len() == counts.len(),
            views(cls@) == roster_classes(force@),
            forall|t: int|
                0 <= t < keys.len() ==> counts[t] as nat == count_in(
                    views(cls@),
                    #[trigger] keys[t]@,
                ),
            i <= counts.len(),
            forall|t: int| 0 <= t < i ==> counts[t] <= u32::MAX,
        decreases counts.len() - i,
    {
        if counts[i] > 4294967295 {
            assert(count_in(roster_classes(force@), keys[i as int]@) > u32::MAX);
            return false;
        }
        i = i + 1;
    }
    proof {
        assert forall|c: Seq<char>| count_in(roster_classes(force@), c) <= u32::MAX by {
            if views(keys@).contains(c) {
                let t = choose|t: int| 0 <= t < views(keys@).len() && views(keys@)[t] == c;
                assert(keys[t]@ == c);
            } else {
                assert(!roster_classes(force@).contains(c));
                lemma_count_absent(roster_classes(force@), c);
            }
        }
    }
    true
}

/// How a force roster is shown at an intel level: `"None"` for an empty
/// roster; a classified mark under a blackout; under an intercept, one line
/// `"{count}x {class}"` per class that the units name, in ascending order
/// (or an encrypted mark when no unit names a class); otherwise the roster
/// with a line break before each further unit.
pub fn format_force(force_string: &str, intel_level: &str) -> (r: String)
    requires
        force_display_defined(force_string@, intel_level@),
    ensures
        r@ == force_display(force_string@, intel_level@),
{
    if force_string.is_empty() {
        return String::from_str(NO_FORCE);
    }
    if contains_str(intel_level, "Blackout") {
        return String::from_str(CLASSIFIED_FORCE);
    }
    if contains_str(intel_level, "Intercept") {
        return intercept_text_string(force_string);
    }
    replace_char_str(force_string, ',', UNIT_BREAK)
}

} // verus!
