//! The text displayed for a remaining time.

use crate::decimal::{decimal, lemma_decimal_injective, to_decimal};
use crate::unit::{largest_unit, Unit, DAY, HOUR, MINUTE, SECOND, WEEK};
use vstd::arithmetic::div_mod::{lemma_fundamental_div_mod, lemma_fundamental_div_mod_converse};
use vstd::arithmetic::mul::lemma_mul_is_commutative;
use vstd::prelude::*;

verus! {

/// The number displayed for `secs` seconds: the whole units of the largest
/// unit that fits, the remainder dropped; zero where none fits.
pub open spec fn eta_count(secs: nat) -> nat {
    match largest_unit(secs) {
        None => 0,
        Some(unit) => secs / unit.span(),
    }
}

/// The text displayed for a remaining time of `secs` seconds: the count in
/// decimal notation, a blank and the word of the largest unit that fits.
/// Less than a second is `any time now`.
pub open spec fn eta_text(secs: nat) -> Seq<char> {
    match largest_unit(secs) {
        None => "any time now"@,
        Some(unit) => decimal(eta_count(secs)) + " "@ + unit.name(),
    }
}

/// The count by ranges of the remaining time.
proof fn lemma_count_by_range(secs: nat)
    ensures
        secs < 60 ==> eta_count(secs) == secs,
        60 <= secs < 3600 ==> eta_count(secs) == secs / 60,
        3600 <= secs < 86400 ==> eta_count(secs) == secs / 3600,
        86400 <= secs < 604800 ==> eta_count(secs) == secs / 86400,
        604800 <= secs ==> eta_count(secs) == secs / 604800,
{
    assert(secs / (SECOND as nat) == secs / 1);
    assert(secs / (MINUTE as nat) == secs / 60);
    assert(secs / (HOUR as nat) == secs / 3600);
    assert(secs / (DAY as nat) == secs / 86400);
    assert(secs / (WEEK as nat) == secs / 604800);
}

/// The text by ranges of the remaining time: each range has one form, and
/// the ranges cover every remaining time.
pub proof fn lemma_text_by_range(secs: nat)
    ensures
        secs < 1 ==> eta_text(secs) == "any time now"@,
        1 <= secs < 60 ==> eta_text(secs) == decimal(secs) + " secs"@,
        60 <= secs < 3600 ==> eta_text(secs) == decimal(secs / 60) + " mins"@,
        3600 <= secs < 86400 ==> eta_text(secs) == decimal(secs / 3600) + " hours"@,
        86400 <= secs < 604800 ==> eta_text(secs) == decimal(secs / 86400) + " days"@,
        604800 <= secs ==> eta_text(secs) == decimal(secs / 604800) + " weeks"@,
{
    reveal_strlit(" ");
    reveal_strlit("secs");
    reveal_strlit("mins");
    reveal_strlit("hours");
    reveal_strlit("days");
    reveal_strlit("weeks");
    reveal_strlit(" secs");
    reveal_strlit(" mins");
    reveal_strlit(" hours");
    reveal_strlit(" days");
    reveal_strlit(" weeks");
    lemma_count_by_range(secs);
    let digits = decimal(eta_count(secs));
    match largest_unit(secs) {
        None => {},
        Some(Unit::Second) => {
            assert(digits + " "@ + "secs"@ =~= digits + " secs"@);
        },
        Some(Unit::Minute) => {
            assert(digits + " "@ + "mins"@ =~= digits + " mins"@);
        },
        Some(Unit::Hour) => {
            assert(digits + " "@ + "hours"@ =~= digits + " hours"@);
        },
        Some(Unit::Day) => {
            assert(digits + " "@ + "days"@ =~= digits + " days"@);
        },
        Some(Unit::Week) => {
            assert(digits + " "@ + "weeks"@ =~= digits + " weeks"@);
        },
    }
}

/// The count is at least one wherever a unit fits, and stays below the
/// number of units that make up the next larger unit.
pub proof fn lemma_count_bounds(secs: nat)
    ensures
        match largest_unit(secs) {
            None => eta_count(secs) == 0,
            Some(Unit::Second) => 1 <= eta_count(secs) < 60,
            Some(Unit::Minute) => 1 <= eta_count(secs) < 60,
            Some(Unit::Hour) => 1 <= eta_count(secs) < 24,
            Some(Unit::Day) => 1 <= eta_count(secs) < 7,
            Some(Unit::Week) => 1 <= eta_count(secs),
        },
{
    lemma_count_by_range(secs);
}

/// The character before the final `s` of a unit's word.
spec fn penultimate(unit: Unit) -> char {
    match unit {
        Unit::Second => 'c',
        Unit::Minute => 'n',
        Unit::Hour => 'r',
        Unit::Day => 'y',
        Unit::Week => 'k',
    }
}

/// How the text ends, and that it begins with the digits of the count.
proof fn lemma_text_shape(secs: nat)
    ensures
        eta_text(secs).len() >= 2,
        match largest_unit(secs) {
            None => eta_text(secs).last() == 'w',
            Some(unit) => {
                let text = eta_text(secs);
                let digits = decimal(eta_count(secs));
                &&& text.last() == 's'
                &&& text[text.len() - 2] == penultimate(unit)
                &&& text.len() == digits.len() + 1 + unit.name().len()
                &&& forall|i: int| 0 <= i < digits.len() ==> text[i] == digits[i]
            },
        },
{
    reveal_strlit("any time now");
    reveal_strlit(" ");
    reveal_strlit("secs");
    reveal_strlit("mins");
    reveal_strlit("hours");
    reveal_strlit("days");
    reveal_strlit("weeks");
}

/// Two remaining times are displayed alike exactly when the same unit is
/// the largest that fits into each and both hold the same number of whole
/// units of it.
pub proof fn lemma_same_text(a: nat, b: nat)
    ensures
        eta_text(a) == eta_text(b) <==> largest_unit(a) == largest_unit(b) && eta_count(a)
            == eta_count(b),
{
    lemma_text_shape(a);
    lemma_text_shape(b);
    if eta_text(a) == eta_text(b) {
        if largest_unit(a) is Some && largest_unit(b) is Some {
            assert(largest_unit(a) == largest_unit(b));
            assert(decimal(eta_count(a)) =~= decimal(eta_count(b)));
            lemma_decimal_injective(eta_count(a), eta_count(b));
        }
    }
}

/// A remaining time of exactly one unit is displayed as one of that unit,
/// not as many of the next smaller one.
pub proof fn lemma_whole_unit_reads_one(unit: Unit)
    ensures
        largest_unit(unit.span()) == Some(unit),
        eta_text(unit.span()) == seq!['1', ' '] + unit.name(),
{
    reveal_strlit(" ");
    assert(decimal(1) + " "@ =~= seq!['1', ' ']);
}

/// Within the reach of one unit, adding fewer seconds than are missing to
/// the next whole unit leaves the text as it is.
pub proof fn lemma_text_steady_within_unit(secs: nat, more: nat, unit: Unit)
    requires
        largest_unit(secs) == Some(unit),
        largest_unit(secs + more) == Some(unit),
        more < unit.span(),
        secs % unit.span() + more < unit.span(),
    ensures
        eta_text(secs) == eta_text(secs + more),
{
    let span = unit.span() as int;
    let whole = secs as int / span;
    let rest = secs as int % span;
    lemma_fundamental_div_mod(secs as int, span);
    lemma_mul_is_commutative(span, whole);
    lemma_fundamental_div_mod_converse(secs as int + more as int, span, whole, rest + more as int);
}

/// Formats a remaining time of `eta_secs` seconds as an approximate duration.
pub fn format_eta(eta_secs: u64) -> (text: String)
    ensures
        text@ == eta_text(eta_secs as nat),
{
    match Unit::largest_in(eta_secs) {
        None => "any time now".to_owned(),
        Some(unit) => {
            let mut text = to_decimal(eta_secs / unit.secs());
            text.append(" ");
            text.append(unit.label());
            text
        },
    }
}

} // verus!
