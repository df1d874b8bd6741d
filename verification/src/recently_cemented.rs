//! The statuses of the most recently cemented elections, oldest first, kept in a deque
//! of bounded length.

use vstd::prelude::*;
use bounded_vec_deque::BoundedVecDeque;
use crate::election::ElectionStatus;

verus! {

#[verifier::external_type_specification]
#[verifier::external_body]
#[verifier::reject_recursive_types(T)]
pub struct ExBoundedVecDeque<T>(BoundedVecDeque<T>);

/// The statuses a bounded deque holds, front (oldest) first.
pub uninterp spec fn cemented_statuses(d: BoundedVecDeque<ElectionStatus>) -> Seq<ElectionStatus>;

/// The most statuses a bounded deque holds.
pub uninterp spec fn cemented_max_len(d: BoundedVecDeque<ElectionStatus>) -> usize;

/// `BoundedVecDeque::with_capacity(0, max_len)`: an empty deque that holds at most
/// `max_len` statuses (no room is reserved up front).
#[verifier::external_body]
fn deque_new(max_len: usize) -> (r: BoundedVecDeque<ElectionStatus>)
    ensures
        cemented_statuses(r) == Seq::<ElectionStatus>::empty(),
        cemented_max_len(r) == max_len,
{
    BoundedVecDeque::with_capacity(0, max_len)
}

/// `BoundedVecDeque::push_back`: with a limit of zero the status is handed back and
/// nothing changes; on a full deque the front status is removed and returned before the
/// status goes to the back; otherwise it goes to the back and nothing is returned.
#[verifier::external_body]
fn deque_push_back(d: &mut BoundedVecDeque<ElectionStatus>, status: ElectionStatus) -> (r: Option<ElectionStatus>)
    ensures
        cemented_max_len(*final(d)) == cemented_max_len(*old(d)),
        cemented_max_len(*old(d)) == 0 ==> r == Some(status)
            && cemented_statuses(*final(d)) == cemented_statuses(*old(d)),
        cemented_max_len(*old(d)) > 0 && cemented_statuses(*old(d)).len() >= cemented_max_len(*old(d)) ==>
            r == Some(cemented_statuses(*old(d))[0])
            && cemented_statuses(*final(d)) == cemented_statuses(*old(d)).skip(1).push(status),
        cemented_max_len(*old(d)) > 0 && cemented_statuses(*old(d)).len() < cemented_max_len(*old(d)) ==>
            r is None && cemented_statuses(*final(d)) == cemented_statuses(*old(d)).push(status),
{
    d.push_back(status)
}

/// The deque's length (`VecDeque::len` through `Deref`).
#[verifier::external_body]
fn deque_len(d: &BoundedVecDeque<ElectionStatus>) -> (r: usize)
    ensures
        r == cemented_statuses(*d).len(),
{
    d.len()
}

/// The statuses, front first, copied out of `BoundedVecDeque::iter`.
#[verifier::external_body]
fn deque_to_vec(d: &BoundedVecDeque<ElectionStatus>) -> (r: Vec<ElectionStatus>)
    ensures
        r@ == cemented_statuses(*d),
{
    d.iter().copied().collect()
}

/// The statuses of the most recently cemented elections.
pub struct RecentlyCemented {
    statuses: BoundedVecDeque<ElectionStatus>,
}

impl RecentlyCemented {
    /// The statuses kept, oldest first.
    pub closed spec fn statuses(&self) -> Seq<ElectionStatus> { cemented_statuses(self.statuses) }

    /// The most statuses kept.
    pub closed spec fn max_len(&self) -> usize { cemented_max_len(self.statuses) }

    /// Keeps at most `confirmation_history_size` statuses.
    pub fn new(confirmation_history_size: usize) -> (r: Self)
        ensures
            r.statuses().len() == 0,
            r.max_len() == confirmation_history_size,
    {
        RecentlyCemented { statuses: deque_new(confirmation_history_size) }
    }

    /// Records the status of a cemented election; when the history is full the oldest
    /// status leaves. With a history size of zero nothing is kept.
    pub fn insert(&mut self, status: ElectionStatus)
        ensures
            final(self).max_len() == old(self).max_len(),
            final(self).statuses() == (if old(self).max_len() == 0 {
                old(self).statuses()
            } else if old(self).statuses().len() >= old(self).max_len() {
                old(self).statuses().skip(1).push(status)
            } else {
                old(self).statuses().push(status)
            }),
    {
        let _ = deque_push_back(&mut self.statuses, status);
    }

    /// How many statuses are kept.
    pub fn count(&self) -> (r: usize)
        ensures
            r == self.statuses().len(),
    {
        deque_len(&self.statuses)
    }

    /// The statuses kept, oldest first.
    pub fn list(&self) -> (r: Vec<ElectionStatus>)
        ensures
            r@ == self.statuses(),
    {
        deque_to_vec(&self.statuses)
    }
}

/// The history never grows beyond its size: inserting into a history within its size
/// keeps it within its size, and the newest status is last (unless nothing is kept).
pub proof fn lemma_history_bounded(old_statuses: Seq<ElectionStatus>, max_len: usize, status: ElectionStatus)
    requires
        old_statuses.len() <= max_len,
    ensures
        ({
            let new_statuses = if max_len == 0 {
                old_statuses
            } else if old_statuses.len() >= max_len {
                old_statuses.skip(1).push(status)
            } else {
                old_statuses.push(status)
            };
            &&& new_statuses.len() <= max_len
            &&& max_len > 0 ==> new_statuses.last() == status
        }),
{
}

} // verus!
