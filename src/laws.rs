use vstd::prelude::*;

use crate::campaign::{donated_to, refunded_from, Concert};

verus! {

/// Two donations by one donor add up: after giving `a1` and then `a2`, the donor's entry has
/// grown by `a1 + a2`, and so has the total.
pub proof fn donations_accumulate(
    c0: Concert,
    c1: Concert,
    c2: Concert,
    donor: Seq<char>,
    a1: u128,
    a2: u128,
)
    requires
        donated_to(c0, c1, donor, a1 as nat),
        donated_to(c1, c2, donor, a2 as nat),
    ensures
        c2.donors.donation_of(donor) == c0.donors.donation_of(donor) + a1 + a2,
        c2.donors.donated() == c0.donors.donated() + a1 + a2,
        c2.same_terms(c0),
{
}

/// A refund to a donor that has given nothing hands back nothing and leaves the total as it
/// was.
pub proof fn refund_without_donation(c0: Concert, c1: Concert, donor: Seq<char>, now: u64)
    requires
        c0.donors.donation_of(donor) == 0,
        refunded_from(c0, c1, donor),
    ensures
        c0.refund_result(donor, now).is_none(),
        c1.donors.donated() == c0.donors.donated(),
{
}

/// A refund to a donor that has given `a` hands back `a` and lowers the total by exactly `a`;
/// a second refund to it then hands back nothing.
pub proof fn refund_returns_donation(
    c0: Concert,
    c1: Concert,
    donor: Seq<char>,
    now: u64,
    later: u64,
)
    requires
        c0.spec_is_campaign_active(now),
        c0.donors.donation_of(donor) > 0,
        refunded_from(c0, c1, donor),
    ensures
        c0.refund_result(donor, now) == Some(c0.donors.donation_of(donor) as u128),
        c1.donors.donated() == c0.donors.donated() - c0.donors.donation_of(donor),
        c1.refund_result(donor, later).is_none(),
{
}

/// A donation never takes a funded campaign back below its goal.
pub proof fn funding_is_monotonic(c0: Concert, c1: Concert, donor: Seq<char>, amount: u128)
    requires
        donated_to(c0, c1, donor, amount as nat),
        c0.spec_is_funded(),
    ensures
        c1.spec_is_funded(),
{
}

} // verus!
