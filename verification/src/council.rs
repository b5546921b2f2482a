//! The multi-signature admin council that governs sensitive actions.

use vstd::prelude::*;

use crate::account::AccountId;

verus! {

/// A multi-signature admin council requiring threshold approvals.
#[derive(Clone, Debug, PartialEq, Eq)]
pub struct AdminCouncil {
    /// Council member addresses.
    pub members: Vec<AccountId>,
    /// Minimum number of members required to authorize a sensitive action.
    pub threshold: u32,
}

/// What a council is: its members in order and its threshold.
pub struct CouncilView {
    pub members: Seq<AccountId>,
    pub threshold: u32,
}

impl View for AdminCouncil {
    type V = CouncilView;

    open spec fn view(&self) -> CouncilView {
        CouncilView { members: self.members@, threshold: self.threshold }
    }
}

/// A council is acceptable when its threshold is positive and no larger than
/// its number of members.
pub open spec fn council_config_valid(c: CouncilView) -> bool {
    c.threshold != 0 && c.members.len() >= c.threshold
}

/// `approvers` approve an action of council `c`: they are distinct
/// members of the council, and there are at least as many of them as the
/// threshold.
pub open spec fn approved_by(c: CouncilView, approvers: Seq<AccountId>) -> bool {
    &&& approvers.no_duplicates()
    &&& forall|i: int| 0 <= i < approvers.len() ==> c.members.contains(#[trigger] approvers[i])
    &&& approvers.len() >= c.threshold
}

/// Whether `a` is a member of `council`.
fn is_member(council: &AdminCouncil, a: &AccountId) -> (r: bool)
    ensures
        r == council@.members.contains(*a),
{
    let mut i: usize = 0;
    while i < council.members.len()
        invariant
            0 <= i <= council.members@.len(),
            forall|j: int| 0 <= j < i ==> council.members@[j] != *a,
        decreases council.members@.len() - i,
    {
        if council.members[i].same_as(a) {
            return true;
        }
        i = i + 1;
    }
    false
}

/// Whether `approvers` approve an action of `council`: any `threshold`
/// distinct members suffice, whichever they are.
pub fn council_approves(council: &AdminCouncil, approvers: &Vec<AccountId>) -> (r: bool)
    ensures
        r == approved_by(council@, approvers@),
{
    let n = approvers.len();
    let mut i: usize = 0;
    while i < n
        invariant
            n == approvers@.len(),
            0 <= i <= n,
            forall|p: int| 0 <= p < i ==> council@.members.contains(#[trigger] approvers@[p]),
            forall|p: int, q: int|
                0 <= p < i && 0 <= q < n && p != q ==> approvers@[p] != approvers@[q],
        decreases n - i,
    {
        if !is_member(council, &approvers[i]) {
            return false;
        }
        let mut j: usize = 0;
        while j < n
            invariant
                n == approvers@.len(),
                0 <= i < n,
                0 <= j <= n,
                forall|q: int| 0 <= q < j && q != i ==> approvers@[i as int] != approvers@[q],
            decreases n - j,
        {
            if j != i && approvers[i].same_as(&approvers[j]) {
                return false;
            }
            j = j + 1;
        }
        i = i + 1;
    }
    (n as u64) >= (council.threshold as u64)
}

} // verus!
