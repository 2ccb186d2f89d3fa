use vstd::prelude::*;

use crate::campaign::{donated_to, refunded_from, Concert};

verus! {

/// The campaign of artist `id` in `s`, if there is one.
pub open spec fn lookup(s: Seq<Concert>, id: Seq<char>) -> Option<Concert>
    decreases s.len(),
{
    if s.len() == 0 {
        None
    } else if s.last().artist@ == id {
        Some(s.last())
    } else {
        lookup(s.drop_last(), id)
    }
}

pub open spec fn unique_artists(s: Seq<Concert>) -> bool {
    forall|i: int, j: int| 0 <= i < j < s.len() ==> s[i].artist@ != s[j].artist@
}

/// With one campaign per artist, each artist's campaign is found, and no other.
pub proof fn lemma_lookup(s: Seq<Concert>)
    requires
        unique_artists(s),
    ensures
        forall|i: int| 0 <= i < s.len() ==> lookup(s, #[trigger] s[i].artist@) == Some(s[i]),
        forall|id: Seq<char>|
            (forall|i: int| 0 <= i < s.len() ==> s[i].artist@ != id) ==> lookup(s, id).is_none(),
    decreases s.len(),
{
    if s.len() > 0 {
        let p = s.drop_last();
        assert(unique_artists(p));
        lemma_lookup(p);
        assert forall|i: int| 0 <= i < s.len() implies lookup(s, #[trigger] s[i].artist@) == Some(
            s[i],
        ) by {
            if i < s.len() - 1 {
                assert(p[i] == s[i]);
            }
        }
        assert forall|id: Seq<char>|
            (forall|i: int| 0 <= i < s.len() ==> s[i].artist@ != id) implies lookup(
            s,
            id,
        ).is_none() by {
            assert(s.last() == s[s.len() - 1]);
            assert forall|k: int| 0 <= k < p.len() implies p[k].artist@ != id by {
                assert(p[k] == s[k]);
            }
            assert(lookup(p, id).is_none());
        }
    }
}

/// Replacing the campaign at `i` by one of the same artist changes what that artist finds
/// and nothing else.
pub proof fn lemma_lookup_update(s: Seq<Concert>, i: int, c: Concert)
    requires
        unique_artists(s),
        0 <= i < s.len(),
        c.artist@ == s[i].artist@,
    ensures
        unique_artists(s.update(i, c)),
        forall|id: Seq<char>|
            #[trigger] lookup(s.update(i, c), id) == if id == c.artist@ {
                Some(c)
            } else {
                lookup(s, id)
            },
{
    let t = s.update(i, c);
    assert forall|a: int, b: int| 0 <= a < b < t.len() implies t[a].artist@ != t[b].artist@ by {
        assert(t[a].artist@ == s[a].artist@);
        assert(t[b].artist@ == s[b].artist@);
    }
    lemma_lookup(s);
    lemma_lookup(t);
    assert forall|id: Seq<char>|
        #[trigger] lookup(t, id) == if id == c.artist@ {
            Some(c)
        } else {
            lookup(s, id)
        } by {
        if id == c.artist@ {
            assert(t[i] == c);
        } else if exists|k: int| 0 <= k < s.len() && s[k].artist@ == id {
            let k = choose|k: int| 0 <= k < s.len() && s[k].artist@ == id;
            assert(t[k] == s[k]);
        } else {
            assert forall|k: int| 0 <= k < t.len() implies t[k].artist@ != id by {
                if k != i {
                    assert(t[k] == s[k]);
                }
            }
        }
    }
}

/// All campaigns, one per artist.
pub struct ConcertCampaign {
    concerts: Vec<Concert>,
}

impl ConcertCampaign {
    pub closed spec fn concerts(&self) -> Seq<Concert> {
        self.concerts@
    }

    pub open spec fn wf(&self) -> bool {
        &&& unique_artists(self.concerts())
        &&& forall|i: int| 0 <= i < self.concerts().len() ==> (#[trigger] self.concerts()[i]).wf()
    }

    /// The campaign of artist `id`, if there is one.
    pub open spec fn concert(&self, id: Seq<char>) -> Option<Concert> {
        lookup(self.concerts(), id)
    }

    /// Position of the campaign of `id`, if there is one.
    fn find(&self, id: &String) -> (r: Option<usize>)
        ensures
            match r {
                Some(i) => i < self.concerts().len() && self.concerts()[i as int].artist@ == id@,
                None => forall|i: int|
                    0 <= i < self.concerts().len() ==> self.concerts()[i].artist@ != id@,
            },
    {
        let mut i: usize = 0;
        while i < self.concerts.len()
            invariant
                i <= self.concerts@.len(),
                forall|k: int| 0 <= k < i ==> self.concerts@[k].artist@ != id@,
            decreases self.concerts@.len() - i,
        {
            if self.concerts[i].artist == *id {
                return Some(i);
            }
            i = i + 1;
        }
        None
    }

    /// Number of artists with a campaign.
    pub fn len(&self) -> (r: usize)
        ensures
            r == self.concerts().len(),
    {
        self.concerts.len()
    }

    /// The campaign of artist `id`, if there is one.
    pub fn get_concert(&self, id: &String) -> (r: Option<&Concert>)
        requires
            self.wf(),
        ensures
            match r {
                Some(c) => self.concert(id@) == Some(*c),
                None => self.concert(id@).is_none(),
            },
    {
        proof {
            lemma_lookup(self.concerts@);
        }
        match self.find(id) {
            Some(i) => Some(&self.concerts[i]),
            None => None,
        }
    }

    /// Opens a campaign for artist `artist`, in place of any that it had, and returns it.
    pub fn new_concert_campaign(
        &mut self,
        artist: String,
        name: String,
        campaign_end: u64,
        start_date: u64,
        end_date: u64,
        goal: u128,
    ) -> (r: Concert)
        requires
            old(self).wf(),
        ensures
            final(self).wf(),
            r.wf(),
            r.name@ == name@,
            r.artist@ == artist@,
            r.campaign_end == campaign_end,
            r.start_date == start_date,
            r.end_date == end_date,
            r.goal == goal,
            r.donors.donated() == 0,
            forall|d: Seq<char>| r.donors.donation_of(d) == 0,
            final(self).concert(artist@) matches Some(c) && c.same_terms(r) && c.wf()
                && c.donors.donated() == 0 && forall|d: Seq<char>| c.donors.donation_of(d) == 0,
            forall|id: Seq<char>|
                id != artist@ ==> #[trigger] final(self).concert(id) == old(self).concert(id),
            final(self).concerts().len() == old(self).concerts().len() + if old(self).concert(
                artist@,
            ).is_some() {
                0int
            } else {
                1
            },
    {
        proof {
            lemma_lookup(self.concerts@);
        }
        let stored = Concert::new(name.clone(), campaign_end, start_date, end_date, &artist, goal);
        let concert = Concert::new(name, campaign_end, start_date, end_date, &artist, goal);
        match self.find(&artist) {
            Some(i) => {
                proof {
                    lemma_lookup_update(self.concerts@, i as int, stored);
                }
                self.concerts.set(i, stored);
            },
            None => {
                let ghost before = self.concerts@;
                self.concerts.push(stored);
                proof {
                    assert(self.concerts@.drop_last() =~= before);
                    assert forall|a: int, b: int|
                        0 <= a < b < self.concerts@.len() implies self.concerts@[a].artist@
                        != self.concerts@[b].artist@ by {
                        if b < before.len() {
                            assert(self.concerts@[a] == before[a]);
                            assert(self.concerts@[b] == before[b]);
                        } else {
                            assert(self.concerts@[a] == before[a]);
                        }
                    }
                    lemma_lookup(self.concerts@);
                    assert(self.concerts@[self.concerts@.len() - 1] == stored);
                }
            },
        }
        concert
    }

    /// Records `donation` from `donor` to the campaign of artist `concert_id` at time `now`.
    /// Refused, with nothing changed, where that artist has no campaign, where it has closed,
    /// or where its total would overflow.
    pub fn concert_add_donation(
        &mut self,
        concert_id: String,
        donor: String,
        donation: u128,
        now: u64,
    ) -> (r: bool)
        requires
            old(self).wf(),
        ensures
            final(self).wf(),
            r == (old(self).concert(concert_id@) matches Some(c) && c.spec_is_campaign_active(now)
                && c.donors.donated() + donation <= u128::MAX),
            r ==> (final(self).concert(concert_id@) matches Some(n) && donated_to(
                old(self).concert(concert_id@).unwrap(),
                n,
                donor@,
                donation as nat,
            )),
            forall|id: Seq<char>|
                id != concert_id@ ==> #[trigger] final(self).concert(id) == old(self).concert(id),
            !r ==> final(self).concerts() == old(self).concerts(),
            final(self).concerts().len() == old(self).concerts().len(),
    {
        proof {
            lemma_lookup(self.concerts@);
        }
        match self.find(&concert_id) {
            Some(i) => {
                let ghost before = self.concerts@;
                assert(before[i as int].wf());
                let accepted = self.concerts[i].add_donation(donor, donation, now);
                proof {
                    lemma_lookup_update(before, i as int, self.concerts@[i as int]);
                    assert(self.concerts@ =~= before.update(i as int, self.concerts@[i as int]));
                    if !accepted {
                        assert(self.concerts@ =~= before);
                    }
                    assert forall|k: int| 0 <= k < self.concerts@.len() implies (
                    #[trigger] self.concerts@[k]).wf() by {
                        if k != i {
                            assert(self.concerts@[k] == before[k]);
                        }
                    }
                }
                accepted
            },
            None => false,
        }
    }

    /// Takes the donation of `donor` to the campaign of artist `concert_id` back at time `now`
    /// and returns it. `None`, with nothing changed, where that artist has no campaign, where it
    /// has closed, or where `donor` has given nothing to it.
    pub fn concert_refund_donation(&mut self, concert_id: String, donor: String, now: u64) -> (r:
        Option<u128>)
        requires
            old(self).wf(),
        ensures
            final(self).wf(),
            r == match old(self).concert(concert_id@) {
                Some(c) => if c.spec_is_campaign_active(now) && c.donors.donation_of(donor@) > 0 {
                    Some(c.donors.donation_of(donor@) as u128)
                } else {
                    None
                },
                None => None,
            },
            r.is_some() ==> (final(self).concert(concert_id@) matches Some(n) && refunded_from(
                old(self).concert(concert_id@).unwrap(),
                n,
                donor@,
            )),
            forall|id: Seq<char>|
                id != concert_id@ ==> #[trigger] final(self).concert(id) == old(self).concert(id),
            r.is_none() ==> final(self).concerts() == old(self).concerts(),
            final(self).concerts().len() == old(self).concerts().len(),
    {
        proof {
            lemma_lookup(self.concerts@);
        }
        match self.find(&concert_id) {
            Some(i) => {
                let ghost before = self.concerts@;
                assert(before[i as int].wf());
                let refunded = self.concerts[i].refund_donation(donor, now);
                proof {
                    lemma_lookup_update(before, i as int, self.concerts@[i as int]);
                    assert(self.concerts@ =~= before.update(i as int, self.concerts@[i as int]));
                    if refunded.is_none() {
                        assert(self.concerts@ =~= before);
                    }
                    assert forall|k: int| 0 <= k < self.concerts@.len() implies (
                    #[trigger] self.concerts@[k]).wf() by {
                        if k != i {
                            assert(self.concerts@[k] == before[k]);
                        }
                    }
                }
                refunded
            },
            None => None,
        }
    }
}

impl Default for ConcertCampaign {
    fn default() -> (r: ConcertCampaign)
        ensures
            r.wf(),
            r.concerts().len() == 0,
            forall|id: Seq<char>| r.concert(id).is_none(),
    {
        ConcertCampaign { concerts: Vec::new() }
    }
}

} // verus!
