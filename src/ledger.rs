use vstd::prelude::*;

verus! {

/// Sum of the amounts of `s`.
pub open spec fn sum_of(s: Seq<(String, u128)>) -> nat
    decreases s.len(),
{
    if s.len() == 0 {
        0
    } else {
        sum_of(s.drop_last()) + s.last().1 as nat
    }
}

/// What donor `d` has given: the amounts of `s` recorded under `d`.
pub open spec fn amount_in(s: Seq<(String, u128)>, d: Seq<char>) -> nat
    decreases s.len(),
{
    if s.len() == 0 {
        0
    } else {
        amount_in(s.drop_last(), d) + if s.last().0@ == d {
            s.last().1 as nat
        } else {
            0
        }
    }
}

/// Replacing the amount at `i` moves the sum by the difference.
pub proof fn lemma_sum_update(s: Seq<(String, u128)>, i: int, v: u128)
    requires
        0 <= i < s.len(),
    ensures
        sum_of(s.update(i, (s[i].0, v))) == sum_of(s) - s[i].1 + v,
        forall|d: Seq<char>|
            #[trigger] amount_in(s.update(i, (s[i].0, v)), d) == amount_in(s, d) + if s[i].0@ == d {
                v - s[i].1
            } else {
                0
            },
    decreases s.len(),
{
    let t = s.update(i, (s[i].0, v));
    if i < s.len() - 1 {
        assert(t.drop_last() =~= s.drop_last().update(i, (s[i].0, v)));
        lemma_sum_update(s.drop_last(), i, v);
    } else {
        assert(t.drop_last() =~= s.drop_last());
    }
    assert forall|d: Seq<char>|
        #[trigger] amount_in(t, d) == amount_in(s, d) + if s[i].0@ == d {
            v - s[i].1
        } else {
            0
        } by {
        if i < s.len() - 1 {
            assert(amount_in(t.drop_last(), d) == amount_in(s.drop_last(), d) + if s[i].0@ == d {
                v - s[i].1
            } else {
                0
            });
        }
    }
}

/// Removing the entry at `i` takes its amount off the sum.
pub proof fn lemma_sum_remove(s: Seq<(String, u128)>, i: int)
    requires
        0 <= i < s.len(),
    ensures
        sum_of(s.remove(i)) == sum_of(s) - s[i].1,
        forall|d: Seq<char>|
            #[trigger] amount_in(s.remove(i), d) == amount_in(s, d) - if s[i].0@ == d {
                s[i].1 as int
            } else {
                0
            },
    decreases s.len(),
{
    let t = s.remove(i);
    if i < s.len() - 1 {
        assert(t.drop_last() =~= s.drop_last().remove(i));
        assert(t.last() == s.last());
        lemma_sum_remove(s.drop_last(), i);
    } else {
        assert(t =~= s.drop_last());
    }
    assert forall|d: Seq<char>|
        #[trigger] amount_in(t, d) == amount_in(s, d) - if s[i].0@ == d {
            s[i].1 as int
        } else {
            0
        } by {
        if i < s.len() - 1 {
            assert(amount_in(t.drop_last(), d) == amount_in(s.drop_last(), d) - if s[i].0@ == d {
                s[i].1 as int
            } else {
                0
            });
        }
    }
}

/// No donor has given more than the sum.
pub proof fn lemma_amount_le_sum(s: Seq<(String, u128)>, d: Seq<char>)
    ensures
        amount_in(s, d) <= sum_of(s),
    decreases s.len(),
{
    if s.len() > 0 {
        lemma_amount_le_sum(s.drop_last(), d);
    }
}

/// Appending an entry adds its amount to the sum.
pub proof fn lemma_sum_push(s: Seq<(String, u128)>, e: (String, u128))
    ensures
        sum_of(s.push(e)) == sum_of(s) + e.1,
        forall|d: Seq<char>|
            #[trigger] amount_in(s.push(e), d) == amount_in(s, d) + if e.0@ == d {
                e.1 as nat
            } else {
                0
            },
{
    assert(s.push(e).drop_last() =~= s);
}

/// With unique donors, what a donor gave is the amount of its entry, or zero without one.
pub proof fn lemma_amount_unique(s: Seq<(String, u128)>, d: Seq<char>)
    requires
        forall|i: int, j: int| 0 <= i < j < s.len() ==> s[i].0@ != s[j].0@,
    ensures
        forall|i: int| 0 <= i < s.len() && s[i].0@ == d ==> amount_in(s, d) == s[i].1,
        (forall|i: int| 0 <= i < s.len() ==> s[i].0@ != d) ==> amount_in(s, d) == 0,
    decreases s.len(),
{
    if s.len() > 0 {
        lemma_amount_unique(s.drop_last(), d);
        let p = s.drop_last();
        assert forall|i: int| 0 <= i < s.len() && s[i].0@ == d implies amount_in(s, d) == s[i].1 by {
            if i < s.len() - 1 {
                assert(p[i] == s[i]);
                assert(s.last().0@ != d);
            } else {
                assert forall|k: int| 0 <= k < p.len() implies p[k].0@ != d by {
                    assert(p[k] == s[k]);
                }
            }
        }
        if forall|i: int| 0 <= i < s.len() ==> s[i].0@ != d {
            assert forall|k: int| 0 <= k < p.len() implies p[k].0@ != d by {
                assert(p[k] == s[k]);
            }
            assert(s.last() == s[s.len() - 1]);
        }
    }
}

/// The donations made to one campaign, by donor.
pub struct DonationLedger {
    entries: Vec<(String, u128)>,
    total: u128,
}

impl DonationLedger {
    /// Donors are unique, every recorded amount is positive and the total fits in a `u128`.
    pub closed spec fn wf(&self) -> bool {
        &&& forall|i: int, j: int|
            0 <= i < j < self.entries@.len() ==> self.entries@[i].0@ != self.entries@[j].0@
        &&& forall|i: int| 0 <= i < self.entries@.len() ==> self.entries@[i].1 > 0
        &&& sum_of(self.entries@) == self.total
    }

    pub closed spec fn entries(&self) -> Seq<(String, u128)> {
        self.entries@
    }

    /// What donor `d` has given so far (zero for one that has given nothing).
    pub open spec fn donation_of(&self, d: Seq<char>) -> nat {
        amount_in(self.entries(), d)
    }

    /// The sum of all donations.
    pub open spec fn donated(&self) -> nat {
        sum_of(self.entries())
    }

    pub fn new() -> (r: DonationLedger)
        ensures
            r.wf(),
            r.entries().len() == 0,
            forall|d: Seq<char>| r.donation_of(d) == 0,
            r.donated() == 0,
    {
        DonationLedger { entries: Vec::new(), total: 0 }
    }

    /// Position of the entry of `donor`, if it has one.
    fn find(&self, donor: &String) -> (r: Option<usize>)
        requires
            self.wf(),
        ensures
            match r {
                Some(i) => i < self.entries().len() && self.entries()[i as int].0@ == donor@,
                None => forall|i: int|
                    0 <= i < self.entries().len() ==> self.entries()[i].0@ != donor@,
            },
    {
        let mut i: usize = 0;
        while i < self.entries.len()
            invariant
                i <= self.entries@.len(),
                forall|k: int| 0 <= k < i ==> self.entries@[k].0@ != donor@,
            decreases self.entries@.len() - i,
        {
            if self.entries[i].0 == *donor {
                return Some(i);
            }
            i = i + 1;
        }
        None
    }

    /// Number of donors with a donation on record.
    pub fn len(&self) -> (r: usize)
        requires
            self.wf(),
        ensures
            r == self.entries().len(),
    {
        self.entries.len()
    }

    /// The sum of all donations.
    pub fn total(&self) -> (r: u128)
        requires
            self.wf(),
        ensures
            r == self.donated(),
    {
        self.total
    }

    /// What `donor` has given so far; zero for one with no donation on record.
    pub fn get(&self, donor: &String) -> (r: u128)
        requires
            self.wf(),
        ensures
            r == self.donation_of(donor@),
    {
        proof {
            lemma_amount_unique(self.entries@, donor@);
        }
        match self.find(donor) {
            Some(i) => self.entries[i].1,
            None => 0,
        }
    }

    /// Adds `amount` to what `donor` has given. Refused, with nothing changed, where the
    /// total would no longer fit in a `u128`.
    pub fn add(&mut self, donor: String, amount: u128) -> (r: bool)
        requires
            old(self).wf(),
        ensures
            final(self).wf(),
            r == (old(self).donated() + amount <= u128::MAX),
            r ==> final(self).donated() == old(self).donated() + amount,
            r ==> forall|d: Seq<char>|
                #[trigger] final(self).donation_of(d) == old(self).donation_of(d) + if d == donor@ {
                    amount as nat
                } else {
                    0
                },
            !r ==> *final(self) == *old(self),
    {
        proof {
            lemma_amount_unique(self.entries@, donor@);
        }
        if amount > u128::MAX - self.total {
            return false;
        }
        if amount == 0 {
            return true;
        }
        match self.find(&donor) {
            Some(i) => {
                let cur = self.entries[i].1;
                proof {
                    lemma_amount_le_sum(self.entries@, donor@);
                }
                let new_amount = cur + amount;
                proof {
                    lemma_sum_update(self.entries@, i as int, new_amount);
                    assert(self.entries@[i as int].0@ == donor@);
                }
                let key = self.entries[i].0.clone();
                self.entries.set(i, (key, new_amount));
                self.total = self.total + amount;
            },
            None => {
                proof {
                    lemma_sum_push(self.entries@, (donor, amount));
                }
                self.entries.push((donor, amount));
                self.total = self.total + amount;
            },
        }
        true
    }

    /// Takes the donation of `donor` off the ledger and returns it; `None` where it has none.
    pub fn remove(&mut self, donor: &String) -> (r: Option<u128>)
        requires
            old(self).wf(),
        ensures
            final(self).wf(),
            old(self).donation_of(donor@) == 0 ==> r.is_none() && *final(self) == *old(self),
            old(self).donation_of(donor@) > 0 ==> r == Some(old(self).donation_of(donor@) as u128),
            final(self).donated() == old(self).donated() - old(self).donation_of(donor@),
            forall|d: Seq<char>|
                #[trigger] final(self).donation_of(d) == if d == donor@ {
                    0
                } else {
                    old(self).donation_of(d)
                },
    {
        proof {
            lemma_amount_unique(self.entries@, donor@);
        }
        match self.find(donor) {
            Some(i) => {
                let amount = self.entries[i].1;
                proof {
                    lemma_sum_remove(self.entries@, i as int);
                }
                let ghost before = self.entries@;
                self.entries.remove(i);
                proof {
                    assert forall|a: int, b: int|
                        0 <= a < b < self.entries@.len() implies self.entries@[a].0@
                        != self.entries@[b].0@ by {
                        let a2 = if a < i { a } else { a + 1 };
                        let b2 = if b < i { b } else { b + 1 };
                        assert(self.entries@[a] == before[a2]);
                        assert(self.entries@[b] == before[b2]);
                    }
                    assert forall|a: int| 0 <= a < self.entries@.len() implies self.entries@[a].1
                        > 0 by {
                        let a2 = if a < i { a } else { a + 1 };
                        assert(self.entries@[a] == before[a2]);
                    }
                    lemma_amount_unique(self.entries@, donor@);
                    assert forall|k: int| 0 <= k < self.entries@.len() implies self.entries@[k].0@
                        != donor@ by {
                        let k2 = if k < i { k } else { k + 1 };
                        assert(self.entries@[k] == before[k2]);
                    }
                }
                self.total = self.total - amount;
                Some(amount)
            },
            None => None,
        }
    }
}

} // verus!
