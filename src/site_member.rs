//! Site membership: which users belong to which sites, with the history of
//! past memberships kept.

use vstd::prelude::*;

use crate::error::Error;

verus! {

/// A user's membership of a site; `date_left` is set once they leave.
#[derive(Clone, Copy, Debug, PartialEq, Eq, Structural)]
pub struct SiteMember {
    pub site_id: i64,
    pub user_id: i64,
    pub date_joined: i64,
    pub date_left: Option<i64>,
}

/// Which membership an operation is about.
#[derive(Clone, Copy, Debug, PartialEq, Eq, Structural)]
pub struct SiteMembership {
    pub site_id: i64,
    pub user_id: i64,
}

/// Entry `m` is the current membership for `key`.
pub open spec fn is_current(m: SiteMember, key: SiteMembership) -> bool {
    m.site_id == key.site_id && m.user_id == key.user_id && m.date_left is None
}

/// All memberships, current and past.
pub struct SiteMemberService {
    members: Vec<SiteMember>,
}

impl View for SiteMemberService {
    type V = Seq<SiteMember>;

    closed spec fn view(&self) -> Seq<SiteMember> {
        self.members@
    }
}

impl SiteMemberService {
    /// No user has two current memberships of one site.
    pub open spec fn wf(&self) -> bool {
        forall|i: int, j: int|
            0 <= i < self@.len() && 0 <= j < self@.len() && i != j && (#[trigger] self@[i]).date_left
                is None && (#[trigger] self@[j]).date_left is None ==> !(self@[i].site_id
                == self@[j].site_id && self@[i].user_id == self@[j].user_id)
    }

    /// `key` has a current membership.
    pub open spec fn has_current(&self, key: SiteMembership) -> bool {
        exists|i: int| 0 <= i < self@.len() && is_current(#[trigger] self@[i], key)
    }

    /// No memberships at all.
    pub fn new() -> (r: SiteMemberService)
        ensures
            r.wf(),
            r@.len() == 0,
    {
        SiteMemberService { members: Vec::new() }
    }

    fn find(&self, key: SiteMembership) -> (r: Option<usize>)
        ensures
            match r {
                Some(i) => i < self@.len() && is_current(self@[i as int], key),
                None => !self.has_current(key),
            },
    {
        let mut i: usize = 0;
        while i < self.members.len()
            invariant
                i <= self@.len(),
                forall|k: int| 0 <= k < i ==> !is_current(#[trigger] self@[k], key),
            decreases self@.len() - i,
        {
            let m = self.members[i];
            if m.site_id == key.site_id && m.user_id == key.user_id && m.date_left.is_none() {
                return Some(i);
            }
            i = i + 1;
        }
        None
    }

    /// The current membership for `key`, if there is one.
    pub fn get_optional(&self, key: SiteMembership) -> (r: Option<SiteMember>)
        ensures
            match r {
                Some(m) => is_current(m, key) && self@.contains(m),
                None => !self.has_current(key),
            },
    {
        match self.find(key) {
            Some(i) => {
                assert(self@[i as int] == self.members[i as int]);
                Some(self.members[i])
            },
            None => None,
        }
    }

    /// The current membership for `key`, which must exist.
    pub fn get(&self, key: SiteMembership) -> (r: Result<SiteMember, Error>)
        ensures
            match r {
                Ok(m) => is_current(m, key) && self@.contains(m),
                Err(e) => !self.has_current(key) && e == Error::NotFound,
            },
    {
        match self.get_optional(key) {
            Some(m) => Ok(m),
            None => Err(Error::NotFound),
        }
    }

    /// Makes the user a member of the site at `now`, unless they already are
    /// (then nothing changes and nothing is returned).
    pub fn add(&mut self, key: SiteMembership, now: i64) -> (r: Option<SiteMember>)
        requires
            old(self).wf(),
        ensures
            final(self).wf(),
            match r {
                Some(m) => {
                    &&& !old(self).has_current(key)
                    &&& m == (SiteMember {
                        site_id: key.site_id,
                        user_id: key.user_id,
                        date_joined: now,
                        date_left: None,
                    })
                    &&& final(self)@ == old(self)@.push(m)
                },
                None => old(self).has_current(key) && final(self)@ == old(self)@,
            },
    {
        if self.find(key).is_some() {
            return None;
        }
        let m = SiteMember { site_id: key.site_id, user_id: key.user_id, date_joined: now, date_left: None };
        self.members.push(m);
        proof {
            let n = self@;
            let o = old(self)@;
            assert forall|i: int, j: int|
                0 <= i < n.len() && 0 <= j < n.len() && i != j && (#[trigger] n[i]).date_left is None
                    && (#[trigger] n[j]).date_left is None implies !(n[i].site_id == n[j].site_id
                    && n[i].user_id == n[j].user_id) by {
                if i == o.len() {
                    assert(!is_current(o[j], key));
                } else if j == o.len() {
                    assert(!is_current(o[i], key));
                } else {
                    assert(n[i] == o[i] && n[j] == o[j]);
                }
            }
        }
        Some(m)
    }

    /// Ends the user's current membership of the site at `now` and returns
    /// it as it now stands; `NotFound` when they are not a member.
    pub fn remove(&mut self, key: SiteMembership, now: i64) -> (r: Result<SiteMember, Error>)
        requires
            old(self).wf(),
        ensures
            final(self).wf(),
            match r {
                Ok(m) => exists|i: int|
                    0 <= i < old(self)@.len() && is_current(#[trigger] old(self)@[i], key) && m == (
                    SiteMember { date_left: Some(now), ..old(self)@[i] }) && final(self)@ == old(
                    self,
                )@.update(i, m),
                Err(e) => !old(self).has_current(key) && e == Error::NotFound && final(self)@ == old(
                    self,
                )@,
            },
    {
        match self.find(key) {
            Some(i) => {
                let mut m = self.members[i];
                m.date_left = Some(now);
                self.members.set(i, m);
                proof {
                    let n = self@;
                    let o = old(self)@;
                    assert(is_current(o[i as int], key));
                    assert forall|a: int, b: int|
                        0 <= a < n.len() && 0 <= b < n.len() && a != b && (#[trigger] n[a]).date_left
                            is None && (#[trigger] n[b]).date_left is None implies !(n[a].site_id
                            == n[b].site_id && n[a].user_id == n[b].user_id) by {
                        assert(n[a] == o[a] && n[b] == o[b]);
                    }
                }
                Ok(m)
            },
            None => Err(Error::NotFound),
        }
    }
}

} // verus!
