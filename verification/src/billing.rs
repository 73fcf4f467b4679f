//! Billing groups: a parent account and the meters it tops up together.
use vstd::prelude::*;

use crate::address::Address;

verus! {

/// The meters that one parent account pays for.
#[derive(Debug, PartialEq, Eq)]
pub struct BillingGroup {
    pub parent_account: Address,
    pub child_meters: Vec<u64>,
    pub created_at: u64,
}

/// A billing group with its member list as a sequence.
pub struct BillingGroupView {
    pub parent_account: Address,
    pub child_meters: Seq<u64>,
    pub created_at: u64,
}

impl View for BillingGroup {
    type V = BillingGroupView;

    open spec fn view(&self) -> BillingGroupView {
        BillingGroupView {
            parent_account: self.parent_account,
            child_meters: self.child_meters@,
            created_at: self.created_at,
        }
    }
}

/// Whether no meter id occurs twice in `ids`.
pub open spec fn distinct_ids(ids: Seq<u64>) -> bool {
    forall|i: int, j: int| 0 <= i < j < ids.len() ==> ids[i] != ids[j]
}

/// `ids` without any occurrence of `id`, the others in their order.
pub open spec fn without_id(ids: Seq<u64>, id: u64) -> Seq<u64>
    decreases ids.len(),
{
    if ids.len() == 0 {
        Seq::empty()
    } else {
        let rest = without_id(ids.drop_last(), id);
        if ids.last() == id {
            rest
        } else {
            rest.push(ids.last())
        }
    }
}

/// `ids` with `id` appended, unless it is there already.
pub open spec fn with_id(ids: Seq<u64>, id: u64) -> Seq<u64> {
    if ids.contains(id) {
        ids
    } else {
        ids.push(id)
    }
}

/// Copies a list of meter ids.
pub fn copy_ids(ids: &Vec<u64>) -> (r: Vec<u64>)
    ensures
        r@ == ids@,
{
    let mut r: Vec<u64> = Vec::new();
    let mut i: usize = 0;
    while i < ids.len()
        invariant
            i <= ids.len(),
            r@ == ids@.take(i as int),
        decreases ids.len() - i,
    {
        r.push(ids[i]);
        i = i + 1;
        assert(r@ =~= ids@.take(i as int));
    }
    assert(ids@.take(ids.len() as int) =~= ids@);
    r
}

/// Whether `id` occurs in `ids`.
pub fn contains_id(ids: &Vec<u64>, id: u64) -> (r: bool)
    ensures
        r == ids@.contains(id),
{
    let mut i: usize = 0;
    while i < ids.len()
        invariant
            i <= ids.len(),
            forall|j: int| 0 <= j < i ==> ids@[j] != id,
        decreases ids.len() - i,
    {
        if ids[i] == id {
            assert(ids@[i as int] == id);
            return true;
        }
        i = i + 1;
    }
    false
}

impl Clone for BillingGroup {
    fn clone(&self) -> (r: Self)
        ensures
            r@ == self@,
    {
        BillingGroup {
            parent_account: self.parent_account.clone(),
            child_meters: copy_ids(&self.child_meters),
            created_at: self.created_at,
        }
    }
}

impl BillingGroup {
    /// An empty group of `parent_account`, created at `now`.
    pub fn new(parent_account: Address, now: u64) -> (g: BillingGroup)
        ensures
            g@ == (BillingGroupView {
                parent_account,
                child_meters: Seq::empty(),
                created_at: now,
            }),
    {
        BillingGroup { parent_account, child_meters: Vec::new(), created_at: now }
    }

    /// Adds `meter_id` unless it is a member already; returns whether it
    /// was added.
    pub fn add_meter(&mut self, meter_id: u64) -> (added: bool)
        ensures
            added == !old(self)@.child_meters.contains(meter_id),
            final(self)@ == (BillingGroupView {
                child_meters: with_id(old(self)@.child_meters, meter_id),
                ..old(self)@
            }),
    {
        if contains_id(&self.child_meters, meter_id) {
            false
        } else {
            self.child_meters.push(meter_id);
            true
        }
    }

    /// Removes every occurrence of `meter_id`, keeping the order of the rest.
    pub fn remove_meter(&mut self, meter_id: u64)
        ensures
            final(self)@ == (BillingGroupView {
                child_meters: without_id(old(self)@.child_meters, meter_id),
                ..old(self)@
            }),
    {
        let mut kept: Vec<u64> = Vec::new();
        let mut i: usize = 0;
        while i < self.child_meters.len()
            invariant
                i <= self.child_meters.len(),
                kept@ == without_id(self.child_meters@.take(i as int), meter_id),
            decreases self.child_meters.len() - i,
        {
            let id = self.child_meters[i];
            assert(self.child_meters@.take(i + 1).drop_last() =~= self.child_meters@.take(
                i as int,
            ));
            if id != meter_id {
                kept.push(id);
            }
            i = i + 1;
        }
        assert(self.child_meters@.take(self.child_meters.len() as int) =~= self.child_meters@);
        self.child_meters = kept;
    }
}

/// Removing an id from a list without repeats leaves a list without repeats
/// that holds exactly the other ids.
pub proof fn lemma_without_id(ids: Seq<u64>, id: u64)
    requires
        distinct_ids(ids),
    ensures
        distinct_ids(without_id(ids, id)),
        forall|x: u64| #[trigger]
            without_id(ids, id).contains(x) <==> (ids.contains(x) && x != id),
    decreases ids.len(),
{
    if ids.len() == 0 {
        assert forall|x: u64| !#[trigger] without_id(ids, id).contains(x) by {}
        assert forall|x: u64| !#[trigger] ids.contains(x) by {}
    } else {
        let init = ids.drop_last();
        let last = ids.last();
        assert(distinct_ids(init)) by {
            assert forall|i: int, j: int| 0 <= i < j < init.len() implies init[i] != init[j] by {
                assert(init[i] == ids[i] && init[j] == ids[j]);
            }
        }
        lemma_without_id(init, id);
        let f = without_id(init, id);
        assert forall|x: u64| ids.contains(x) <==> (init.contains(x) || x == last) by {
            if ids.contains(x) {
                let k = choose|k: int| 0 <= k < ids.len() && ids[k] == x;
                if k < ids.len() - 1 {
                    assert(init[k] == x);
                }
            }
            if init.contains(x) {
                let k = choose|k: int| 0 <= k < init.len() && init[k] == x;
                assert(ids[k] == x);
            }
            if x == last {
                assert(ids[ids.len() - 1] == x);
            }
        }
        if last == id {
            assert(without_id(ids, id) == f);
            assert forall|x: u64| #[trigger]
                without_id(ids, id).contains(x) <==> (ids.contains(x) && x != id) by {
                assert(ids.contains(x) <==> (init.contains(x) || x == last));
                assert(f.contains(x) <==> (init.contains(x) && x != id));
            }
        } else {
            assert(without_id(ids, id) == f.push(last));
            assert(!init.contains(last)) by {
                if init.contains(last) {
                    let k = choose|k: int| 0 <= k < init.len() && init[k] == last;
                    assert(ids[k] == ids[ids.len() - 1]);
                }
            }
            assert forall|x: u64| f.push(last).contains(x) <==> (f.contains(x) || x == last) by {
                if f.push(last).contains(x) {
                    let k = choose|k: int| 0 <= k < f.len() + 1 && f.push(last)[k] == x;
                    if k < f.len() {
                        assert(f[k] == x);
                    }
                }
                if f.contains(x) {
                    let k = choose|k: int| 0 <= k < f.len() && f[k] == x;
                    assert(f.push(last)[k] == x);
                }
                if x == last {
                    assert(f.push(last)[f.len() as int] == x);
                }
            }
            assert(distinct_ids(f.push(last))) by {
                assert forall|i: int, j: int| 0 <= i < j < f.len() + 1 implies f.push(last)[i]
                    != f.push(last)[j] by {
                    if j == f.len() {
                        assert(f.contains(f[i]));
                    }
                }
            }
            assert forall|x: u64| #[trigger]
                without_id(ids, id).contains(x) <==> (ids.contains(x) && x != id) by {
                assert(ids.contains(x) <==> (init.contains(x) || x == last));
                assert(f.contains(x) <==> (init.contains(x) && x != id));
                assert(f.push(last).contains(x) <==> (f.contains(x) || x == last));
            }
        }
    }
}

} // verus!
