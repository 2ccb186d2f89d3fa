use vstd::prelude::*;

use crate::ledger::DonationLedger;

verus! {

/// `new` is `old` with `amount` more given by `donor`, and nothing else changed.
pub open spec fn donated_to(old: Concert, new: Concert, donor: Seq<char>, amount: nat) -> bool {
    &&& new.same_terms(old)
    &&& new.donors.wf()
    &&& new.donors.donated() == old.donors.donated() + amount
    &&& forall|d: Seq<char>|
        #[trigger] new.donors.donation_of(d) == old.donors.donation_of(d) + if d == donor {
            amount
        } else {
            0
        }
}

/// `new` is `old` with the donation of `donor` taken off, and nothing else changed.
pub open spec fn refunded_from(old: Concert, new: Concert, donor: Seq<char>) -> bool {
    &&& new.same_terms(old)
    &&& new.donors.wf()
    &&& new.donors.donated() == old.donors.donated() - old.donors.donation_of(donor)
    &&& forall|d: Seq<char>|
        #[trigger] new.donors.donation_of(d) == if d == donor {
            0
        } else {
            old.donors.donation_of(d)
        }
}

/// One artist's fundraising campaign for a concert.
pub struct Concert {
    pub name: String,
    /// Last moment at which donations and refunds are taken.
    pub campaign_end: u64,
    pub start_date: u64,
    pub end_date: u64,
    pub artist: String,
    pub donors: DonationLedger,
    pub goal: u128,
}

impl Concert {
    pub open spec fn wf(&self) -> bool {
        self.donors.wf()
    }

    /// Everything but the donations is the same in both.
    pub open spec fn same_terms(&self, other: Concert) -> bool {
        &&& self.name == other.name
        &&& self.campaign_end == other.campaign_end
        &&& self.start_date == other.start_date
        &&& self.end_date == other.end_date
        &&& self.artist == other.artist
        &&& self.goal == other.goal
    }

    pub open spec fn spec_is_funded(&self) -> bool {
        self.donors.donated() >= self.goal
    }

    pub open spec fn spec_is_active(&self, now: u64) -> bool {
        self.start_date <= now <= self.end_date
    }

    pub open spec fn spec_is_campaign_active(&self, now: u64) -> bool {
        now <= self.campaign_end
    }

    /// What a refund to `donor` at time `now` hands back: its whole donation while the campaign
    /// takes refunds and it has given something, else nothing.
    pub open spec fn refund_result(&self, donor: Seq<char>, now: u64) -> Option<u128> {
        if self.spec_is_campaign_active(now) && self.donors.donation_of(donor) > 0 {
            Some(self.donors.donation_of(donor) as u128)
        } else {
            None
        }
    }

    /// A campaign with no donations yet.
    pub fn new(
        name: String,
        campaign_end: u64,
        start_date: u64,
        end_date: u64,
        artist: &String,
        goal: u128,
    ) -> (r: Concert)
        ensures
            r.wf(),
            r.name == name,
            r.campaign_end == campaign_end,
            r.start_date == start_date,
            r.end_date == end_date,
            r.artist == *artist,
            r.goal == goal,
            r.donors.entries().len() == 0,
            r.donors.donated() == 0,
            forall|d: Seq<char>| r.donors.donation_of(d) == 0,
    {
        Concert {
            name,
            campaign_end,
            start_date,
            end_date,
            artist: artist.clone(),
            donors: DonationLedger::new(),
            goal,
        }
    }

    pub fn total_donations(&self) -> (r: u128)
        requires
            self.wf(),
        ensures
            r == self.donors.donated(),
    {
        self.donors.total()
    }

    pub fn is_funded(&self) -> (r: bool)
        requires
            self.wf(),
        ensures
            r == self.spec_is_funded(),
    {
        self.total_donations() >= self.goal
    }

    /// Whether the concert itself is under way at `now`.
    pub fn is_active(&self, now: u64) -> (r: bool)
        ensures
            r == self.spec_is_active(now),
    {
        self.start_date <= now && now <= self.end_date
    }

    /// Whether donations and refunds are taken at `now`.
    pub fn is_campaign_active(&self, now: u64) -> (r: bool)
        ensures
            r == self.spec_is_campaign_active(now),
    {
        self.campaign_end >= now
    }

    /// Records `amount` from `donor` at time `now`. Refused, with nothing changed, once the
    /// campaign has closed or where the total would overflow.
    pub fn add_donation(&mut self, donor: String, amount: u128, now: u64) -> (r: bool)
        requires
            old(self).wf(),
        ensures
            r == (old(self).spec_is_campaign_active(now) && old(self).donors.donated() + amount
                <= u128::MAX),
            r ==> donated_to(*old(self), *final(self), donor@, amount as nat),
            !r ==> *final(self) == *old(self),
            final(self).wf(),
    {
        if !self.is_campaign_active(now) {
            return false;
        }
        self.donors.add(donor, amount)
    }

    /// Takes the donation of `donor` back at time `now` and returns it. `None`, with nothing
    /// changed, once the campaign has closed or where `donor` has given nothing.
    pub fn refund_donation(&mut self, donor: String, now: u64) -> (r: Option<u128>)
        requires
            old(self).wf(),
        ensures
            r == old(self).refund_result(donor@, now),
            old(self).spec_is_campaign_active(now) ==> refunded_from(
                *old(self),
                *final(self),
                donor@,
            ),
            r.is_none() ==> *final(self) == *old(self),
            final(self).wf(),
    {
        if !self.is_campaign_active(now) {
            return None;
        }
        self.donors.remove(&donor)
    }
}

} // verus!
