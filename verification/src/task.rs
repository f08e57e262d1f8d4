//! Waiting for whichever of several tasks is ready first.
use std::collections::HashMap;
use std::future::Future;
use std::hash::Hash;

use vstd::prelude::*;
use vstd::std_specs::hash::obeys_key_model;

use crate::walk;

verus! {

broadcast use vstd::std_specs::hash::group_hash_axioms;

/// Several tasks kept in a vector.
pub struct SelectVec<'a, Fut> {
    pub inner: &'a mut Vec<Fut>,
}

/// Starts waiting for one of the tasks in `v`.
pub fn select_vec<'a, F>(v: &'a mut Vec<F>) -> (sel: SelectVec<'a, F>)
    where
        F: Future + Unpin,
    ensures
        *sel.inner == *old(v),
        *final(v) == *final(sel.inner),
{
    SelectVec { inner: v }
}

/// `i` is the place of one of the `tasks`.
pub open spec fn is_place<Fut>(tasks: Seq<Fut>, i: int) -> bool {
    0 <= i < tasks.len()
}

/// A scan over the tasks `before` went as far as `place`: `after`, the tasks as the scan left
/// them, agrees with `before` behind it.
pub open spec fn scanned_to<Fut>(before: Seq<Fut>, after: Seq<Fut>, place: int) -> bool {
    &&& after.len() == before.len()
    &&& is_place(before, place)
    &&& forall|i: int| place < i < before.len() ==> #[trigger] after[i] == before[i]
}

/// What the task at `i` answered in a scan that ended with the answer of the one at `place`:
/// those in front of it were still pending.
pub open spec fn answer_at<T>(i: int, place: int, ready: Option<T>) -> Option<T> {
    if i < place {
        None
    } else {
        ready
    }
}

impl<'a, Fut> SelectVec<'a, Fut> {
    /// Polls the tasks in turn until one is ready, and takes that one out: the last task moves to
    /// its place. The tasks behind it are not polled, and no task is polled twice: `poll` need only
    /// work on the tasks as they are before. If no task is ready, the answer is `None`; so it is if
    /// there is no task at all.
    pub fn poll_with<T, P: Fn(&mut Fut) -> Option<T>>(&mut self, poll: P) -> (ready: Option<T>)
        requires
            forall|task: &mut Fut|
                old(self).inner@.contains(*task) ==> call_requires(poll, (task,)),
        ensures
            *final(final(self).inner) == *final(old(self).inner),
            match ready {
                Some(_) => exists|after: Seq<Fut>, place: int| {
                    &&& #[trigger] scanned_to(old(self).inner@, after, place)
                    &&& forall|i: int| #[trigger]
                        is_place(old(self).inner@, i) && i <= place ==> exists|task: &mut Fut| {
                            &&& *task == old(self).inner@[i]
                            &&& *final(task) == after[i]
                            &&& #[trigger] call_ensures(poll, (task,), answer_at(i, place, ready))
                        }
                    &&& final(self).inner@ == after.update(place, after.last()).drop_last()
                },
                None => {
                    &&& final(self).inner@.len() == old(self).inner@.len()
                    &&& forall|i: int| #[trigger]
                        is_place(old(self).inner@, i) ==> exists|task: &mut Fut| {
                            &&& *task == old(self).inner@[i]
                            &&& *final(task) == final(self).inner@[i]
                            &&& #[trigger] call_ensures(poll, (task,), None::<T>)
                        }
                },
            },
    {
        let ghost before = self.inner@;
        let len = self.inner.len();
        let mut i: usize = 0;
        while i < len
            invariant
                forall|task: &mut Fut| before.contains(*task) ==> call_requires(poll, (task,)),
                *final(self.inner) == *final(old(self).inner),
                before == old(self).inner@,
                i <= len,
                len == before.len(),
                self.inner@.len() == before.len(),
                forall|j: int| #[trigger]
                    is_place(before, j) && j < i ==> exists|task: &mut Fut| {
                        &&& *task == before[j]
                        &&& *final(task) == self.inner@[j]
                        &&& #[trigger] call_ensures(poll, (task,), None::<T>)
                    },
                forall|j: int| i <= j < len ==> #[trigger] self.inner@[j] == before[j],
            decreases len - i,
        {
            assert(before.contains(self.inner@[i as int]));
            let outcome = poll(&mut self.inner[i]);
            let ghost after = self.inner@;
            if let Some(res) = outcome {
                self.inner.swap_remove(i);
                assert(scanned_to(before, after, i as int));
                return Some(res);
            }
            i += 1;
        }
        None
    }
}

/// Several tasks kept in a map.
pub struct SelectReady<'a, K, Fut> {
    pub inner: &'a mut HashMap<K, Fut>,
}

/// Starts waiting for one of the tasks in `v`.
pub fn select_ready<'a, F, K>(v: &'a mut HashMap<K, F>) -> (sel: SelectReady<'a, K, F>)
    where
        K: Eq + Hash,
        F: Future + Unpin,
    ensures
        *sel.inner == *old(v),
        *final(v) == *final(sel.inner),
{
    SelectReady { inner: v }
}

impl<'a, K: Clone + Eq + Hash, Fut> SelectReady<'a, K, Fut> {
    /// Polls the tasks, in the order in which the map is walked, until one is ready, and takes
    /// that one out of the map. The tasks behind it are not polled, and no task is polled twice:
    /// `poll` need only work on the tasks as they are before. If no task is ready, the answer is
    /// `None`; so it is if there is no task at all.
    pub fn poll_with<T, P: Fn(&mut Fut) -> Option<T>>(&mut self, poll: P) -> (ready: Option<(T, K)>)
        requires
            obeys_key_model::<K>(),
            walk::clones_faithfully::<K>(),
            forall|task: &mut Fut|
                old(self).inner@.contains_value(*task) ==> call_requires(poll, (task,)),
        ensures
            *final(final(self).inner) == *final(old(self).inner),
            match ready {
                Some((res, key)) => {
                    &&& old(self).inner@.contains_key(key)
                    &&& final(self).inner@.dom() == old(self).inner@.dom().remove(key)
                    &&& exists|task: &mut Fut, answer: Option<T>| {
                        &&& *task == old(self).inner@[key]
                        &&& answer == Some(res)
                        &&& #[trigger] call_ensures(poll, (task,), answer)
                    }
                    &&& exists|order: Seq<K>, place: int| {
                        &&& walk::lists_keys(old(self).inner@, order)
                        &&& #[trigger] is_place(order, place)
                        &&& key == order[place]
                        &&& forall|i: int| #[trigger]
                            is_place(order, i) && i < place ==> exists|task: &mut Fut| {
                                &&& *task == old(self).inner@[order[i]]
                                &&& *final(task) == final(self).inner@[order[i]]
                                &&& #[trigger] call_ensures(poll, (task,), None::<T>)
                            }
                        &&& forall|i: int| #[trigger]
                            is_place(order, i) && place < i ==> final(self).inner@[order[i]]
                                == old(self).inner@[order[i]]
                    }
                },
                None => {
                    &&& final(self).inner@.dom() == old(self).inner@.dom()
                    &&& forall|key: K| #[trigger]
                        old(self).inner@.contains_key(key) ==> exists|task: &mut Fut| {
                            &&& *task == old(self).inner@[key]
                            &&& *final(task) == final(self).inner@[key]
                            &&& #[trigger] call_ensures(poll, (task,), None::<T>)
                        }
                },
            },
    {
        let ghost before = self.inner@;
        let order = walk::walk_keys(&*self.inner);
        let mut i: usize = 0;
        while i < order.len()
            invariant
                obeys_key_model::<K>(),
                walk::clones_faithfully::<K>(),
                forall|task: &mut Fut|
                    before.contains_value(*task) ==> call_requires(poll, (task,)),
                *final(self.inner) == *final(old(self).inner),
                before == old(self).inner@,
                walk::lists_keys(before, order@),
                i <= order.len(),
                self.inner@.dom() == before.dom(),
                forall|j: int| #[trigger]
                    is_place(order@, j) && j < i ==> exists|task: &mut Fut| {
                        &&& *task == before[order@[j]]
                        &&& *final(task) == self.inner@[order@[j]]
                        &&& #[trigger] call_ensures(poll, (task,), None::<T>)
                    },
                forall|j: int| #[trigger]
                    is_place(order@, j) && i <= j ==> self.inner@[order@[j]] == before[order@[j]],
            decreases order.len() - i,
        {
            let key = order[i].clone();
            assert(cloned(order@[i as int], key));
            assert(order@.to_set().contains(key));
            assert(is_place(order@, i as int));
            assert(forall|j: int| #[trigger]
                is_place(order@, j) && j != i ==> order@[j] != key && before.contains_key(order@[j]))
                by {
                assert(forall|j: int| 0 <= j < order@.len() ==> order@.to_set().contains(#[trigger] order@[j]));
            }
            assert(before.dom().contains(key) && before.contains_value(before[key]));
            if let Some(mut fut) = self.inner.remove(&key) {
                let outcome = poll(&mut fut);
                if let Some(res) = outcome {
                    return Some((res, key));
                }
                self.inner.insert(key, fut);
                assert(self.inner@.dom() =~= before.dom());
            }
            i += 1;
        }
        assert forall|key: K| #[trigger] before.contains_key(key) implies exists|j: int|
            #[trigger] is_place(order@, j) && order@[j] == key by {
            assert(order@.to_set().contains(key));
            let j = choose|j: int| 0 <= j < order@.len() && order@[j] == key;
            assert(is_place(order@, j));
        }
        None
    }
}

/// A scan stops at the first task that is ready: it goes to a place in the list, the tasks in front
/// of that place were pending, the one at it gave the answer, and those behind it are as before.
pub proof fn law_scan_stops_at_first_ready<Fut, T>(
    before: Seq<Fut>,
    after: Seq<Fut>,
    place: int,
    i: int,
    ready: Option<T>,
)
    ensures
        is_place(before, i) <==> 0 <= i < before.len(),
        scanned_to(before, after, place) ==> {
            &&& after.len() == before.len()
            &&& 0 <= place < before.len()
            &&& place < i < before.len() ==> after[i] == before[i]
        },
        i < place ==> answer_at(i, place, ready) is None,
        i == place ==> answer_at(i, place, ready) == ready,
{
}

} // verus!
