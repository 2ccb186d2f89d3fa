use vstd::prelude::*;

verus! {

/// Whether `v` holds a string whose characters are `x`.
pub open spec fn holds(v: Seq<String>, x: Seq<char>) -> bool {
    exists|j: int| 0 <= j < v.len() && (#[trigger] v[j])@ == x
}

/// No two strings of `v` have the same characters.
pub open spec fn distinct(v: Seq<String>) -> bool {
    forall|i: int, j: int| 0 <= i < j < v.len() ==> v[i]@ != v[j]@
}

/// Who follows an account, and whom it follows.
pub struct Relationships {
    pub followers: Vec<String>,
    pub following: Vec<String>,
}

/// Who follows whom, as a set of (follower, followed) pairs.
pub struct Followers {
    records: Vec<(String, String)>,
}

impl Followers {
    /// No pair is recorded twice.
    pub closed spec fn wf(&self) -> bool {
        forall|i: int, j: int|
            0 <= i < j < self.records@.len() ==> !(self.records@[i].0@ == self.records@[j].0@
                && self.records@[i].1@ == self.records@[j].1@)
    }

    /// Whether account `x` follows account `y`.
    pub closed spec fn follows(&self, x: Seq<char>, y: Seq<char>) -> bool {
        exists|k: int|
            0 <= k < self.records@.len() && (#[trigger] self.records@[k]).0@ == x
                && self.records@[k].1@ == y
    }

    /// Makes `account_id` a follower of `follow_account_id`.
    pub fn follow(&mut self, account_id: String, follow_account_id: String)
        requires
            old(self).wf(),
        ensures
            final(self).wf(),
            forall|x: Seq<char>, y: Seq<char>|
                #[trigger] final(self).follows(x, y) == (old(self).follows(x, y) || (x
                    == account_id@ && y == follow_account_id@)),
    {
        let mut i: usize = 0;
        while i < self.records.len()
            invariant
                self.wf(),
                i <= self.records@.len(),
                forall|k: int|
                    0 <= k < i ==> !(self.records@[k].0@ == account_id@ && self.records@[k].1@
                        == follow_account_id@),
            decreases self.records@.len() - i,
        {
            if self.records[i].0 == account_id && self.records[i].1 == follow_account_id {
                return;
            }
            i = i + 1;
        }
        let ghost before = self.records@;
        self.records.push((account_id, follow_account_id));
        proof {
            let n = before.len() as int;
            assert(self.records@[n] == (account_id, follow_account_id));
            assert forall|a: int, b: int|
                0 <= a < b < self.records@.len() implies !(self.records@[a].0@
                == self.records@[b].0@ && self.records@[a].1@ == self.records@[b].1@) by {
                assert(self.records@[a] == before[a]);
                if b < n {
                    assert(self.records@[b] == before[b]);
                }
            }
            assert forall|x: Seq<char>, y: Seq<char>|
                #[trigger] self.follows(x, y) == (exists|k: int|
                    0 <= k < before.len() && (#[trigger] before[k]).0@ == x && before[k].1@ == y)
                    || (x == account_id@ && y == follow_account_id@) by {
                if self.follows(x, y) {
                    let k = choose|k: int|
                        0 <= k < self.records@.len() && (#[trigger] self.records@[k]).0@ == x
                            && self.records@[k].1@ == y;
                    if k < n {
                        assert(self.records@[k] == before[k]);
                    }
                }
                if exists|k: int|
                    0 <= k < before.len() && (#[trigger] before[k]).0@ == x && before[k].1@ == y {
                    let k = choose|k: int|
                        0 <= k < before.len() && (#[trigger] before[k]).0@ == x && before[k].1@
                            == y;
                    assert(self.records@[k] == before[k]);
                }
            }
        }
    }

    /// Who follows `account_id`, and whom it follows, each account once.
    pub fn get_relationships(&self, account_id: &String) -> (r: Relationships)
        requires
            self.wf(),
        ensures
            distinct(r.followers@),
            distinct(r.following@),
            forall|x: Seq<char>| #[trigger] holds(r.followers@, x) == self.follows(x, account_id@),
            forall|y: Seq<char>| #[trigger] holds(r.following@, y) == self.follows(account_id@, y),
    {
        let mut followers: Vec<String> = Vec::new();
        let mut following: Vec<String> = Vec::new();
        let mut i: usize = 0;
        while i < self.records.len()
            invariant
                self.wf(),
                i <= self.records@.len(),
                distinct(followers@),
                distinct(following@),
                forall|j: int|
                    0 <= j < followers@.len() ==> exists|k: int|
                        0 <= k < i && (#[trigger] self.records@[k]).0@ == (#[trigger] followers@[j])@
                            && self.records@[k].1@ == account_id@,
                forall|k: int|
                    0 <= k < i && (#[trigger] self.records@[k]).1@ == account_id@ ==> holds(
                        followers@,
                        self.records@[k].0@,
                    ),
                forall|j: int|
                    0 <= j < following@.len() ==> exists|k: int|
                        0 <= k < i && (#[trigger] self.records@[k]).1@ == (#[trigger] following@[j])@
                            && self.records@[k].0@ == account_id@,
                forall|k: int|
                    0 <= k < i && (#[trigger] self.records@[k]).0@ == account_id@ ==> holds(
                        following@,
                        self.records@[k].1@,
                    ),
            decreases self.records@.len() - i,
        {
            let ghost fo = followers@;
            let ghost fg = following@;
            if self.records[i].1 == *account_id {
                let x = self.records[i].0.clone();
                proof {
                    assert forall|j: int| 0 <= j < fo.len() implies fo[j]@ != x@ by {
                        let k = choose|k: int|
                            0 <= k < i && (#[trigger] self.records@[k]).0@ == fo[j]@
                                && self.records@[k].1@ == account_id@;
                    }
                }
                followers.push(x);
                proof {
                    assert(followers@[fo.len() as int] == x);
                    assert forall|j: int|
                        0 <= j < followers@.len() implies exists|k: int|
                        0 <= k < i + 1 && (#[trigger] self.records@[k]).0@ == (
                        #[trigger] followers@[j])@ && self.records@[k].1@ == account_id@ by {
                        if j < fo.len() {
                            assert(followers@[j] == fo[j]);
                        } else {
                            assert(self.records@[i as int].0@ == followers@[j]@);
                        }
                    }
                    assert forall|k: int|
                        0 <= k < i + 1 && (#[trigger] self.records@[k]).1@
                            == account_id@ implies holds(followers@, self.records@[k].0@) by {
                        if k < i {
                            let j = choose|j: int| 0 <= j < fo.len() && (#[trigger] fo[j])@ == self.records@[k].0@;
                            assert(followers@[j] == fo[j]);
                        } else {
                            assert(followers@[fo.len() as int]@ == self.records@[k].0@);
                        }
                    }
                }
            }
            let ghost fo2 = followers@;
            if self.records[i].0 == *account_id {
                let y = self.records[i].1.clone();
                proof {
                    assert forall|j: int| 0 <= j < fg.len() implies fg[j]@ != y@ by {
                        let k = choose|k: int|
                            0 <= k < i && (#[trigger] self.records@[k]).1@ == fg[j]@
                                && self.records@[k].0@ == account_id@;
                    }
                }
                following.push(y);
                proof {
                    assert(following@[fg.len() as int] == y);
                    assert forall|j: int|
                        0 <= j < following@.len() implies exists|k: int|
                        0 <= k < i + 1 && (#[trigger] self.records@[k]).1@ == (
                        #[trigger] following@[j])@ && self.records@[k].0@ == account_id@ by {
                        if j < fg.len() {
                            assert(following@[j] == fg[j]);
                        } else {
                            assert(self.records@[i as int].1@ == following@[j]@);
                        }
                    }
                    assert forall|k: int|
                        0 <= k < i + 1 && (#[trigger] self.records@[k]).0@
                            == account_id@ implies holds(following@, self.records@[k].1@) by {
                        if k < i {
                            let j = choose|j: int| 0 <= j < fg.len() && (#[trigger] fg[j])@ == self.records@[k].1@;
                            assert(following@[j] == fg[j]);
                        } else {
                            assert(following@[fg.len() as int]@ == self.records@[k].1@);
                        }
                    }
                }
            }
            i = i + 1;
        }
        proof {
            assert forall|x: Seq<char>| #[trigger] holds(followers@, x) == self.follows(x, account_id@) by {
                if holds(followers@, x) {
                    let j = choose|j: int| 0 <= j < followers@.len() && (#[trigger] followers@[j])@ == x;
                }
                if self.follows(x, account_id@) {
                    let k = choose|k: int|
                        0 <= k < self.records@.len() && (#[trigger] self.records@[k]).0@ == x
                            && self.records@[k].1@ == account_id@;
                }
            }
            assert forall|y: Seq<char>| #[trigger] holds(following@, y) == self.follows(account_id@, y) by {
                if holds(following@, y) {
                    let j = choose|j: int| 0 <= j < following@.len() && (#[trigger] following@[j])@ == y;
                }
                if self.follows(account_id@, y) {
                    let k = choose|k: int|
                        0 <= k < self.records@.len() && (#[trigger] self.records@[k]).0@ == account_id@
                            && self.records@[k].1@ == y;
                }
            }
        }
        Relationships { followers, following }
    }

    /// The accounts that follow `account_id`, each once.
    pub fn get_followers(&self, account_id: &String) -> (r: Vec<String>)
        requires
            self.wf(),
        ensures
            distinct(r@),
            forall|x: Seq<char>| #[trigger] holds(r@, x) == self.follows(x, account_id@),
    {
        self.get_relationships(account_id).followers
    }

    /// The accounts that `account_id` follows, each once.
    pub fn get_following(&self, account_id: &String) -> (r: Vec<String>)
        requires
            self.wf(),
        ensures
            distinct(r@),
            forall|y: Seq<char>| #[trigger] holds(r@, y) == self.follows(account_id@, y),
    {
        self.get_relationships(account_id).following
    }
}

impl Default for Relationships {
    fn default() -> (r: Relationships)
        ensures
            r.followers@.len() == 0,
            r.following@.len() == 0,
    {
        Relationships { followers: Vec::new(), following: Vec::new() }
    }
}

impl Default for Followers {
    fn default() -> (r: Followers)
        ensures
            r.wf(),
            forall|x: Seq<char>, y: Seq<char>| !r.follows(x, y),
    {
        Followers { records: Vec::new() }
    }
}

} // verus!
