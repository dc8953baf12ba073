//! The notification centre: newest first, at most 100 entries when pushed.
use vstd::prelude::*;

use crate::model::Notification;
use crate::text;

verus! {

pub const MAX_NOTIFICATIONS: usize = 100;

pub open spec fn min(a: int, b: int) -> int {
    if a < b {
        a
    } else {
        b
    }
}

/// Adds a notification at the front and keeps the newest 100.
pub fn push_notification(list: &mut Vec<Notification>, n: Notification)
    ensures
        final(list)@ == seq![n].add(old(list)@).take(min(100, (old(list)@.len() + 1) as int)),
{
    list.insert(0, n);
    if list.len() > MAX_NOTIFICATIONS {
        list.truncate(MAX_NOTIFICATIONS);
    }
    assert(list@ =~= seq![n].add(old(list)@).take(min(100, (old(list)@.len() + 1) as int)));
}

pub open spec fn first_with_id(list: Seq<Notification>, id: Seq<char>) -> int
    decreases list.len(),
{
    if list.len() == 0 {
        -1
    } else if list[0].id@ == id {
        0
    } else {
        let r = first_with_id(list.drop_first(), id);
        if r < 0 {
            -1
        } else {
            r + 1
        }
    }
}

proof fn lemma_first_with_id(list: Seq<Notification>, id: Seq<char>)
    ensures
        -1 <= first_with_id(list, id) < list.len(),
        first_with_id(list, id) >= 0 ==> list[first_with_id(list, id)].id@ == id,
        forall|k: int| 0 <= k < list.len() && k < first_with_id(list, id) ==> list[k].id@ != id,
        first_with_id(list, id) < 0 ==> forall|k: int| 0 <= k < list.len() ==> list[k].id@ != id,
    decreases list.len(),
{
    if list.len() > 0 && list[0].id@ != id {
        lemma_first_with_id(list.drop_first(), id);
        assert forall|k: int| 0 < k < list.len() implies list[k] == list.drop_first()[k - 1] by {}
    }
}

fn find_id(list: &Vec<Notification>, id: &str) -> (res: Option<usize>)
    ensures
        match res {
            Some(i) => i == first_with_id(list@, id@) && i < list@.len(),
            None => first_with_id(list@, id@) < 0,
        },
{
    proof {
        lemma_first_with_id(list@, id@);
    }
    let mut i: usize = 0;
    while i < list.len()
        invariant
            i <= list.len(),
            forall|k: int| 0 <= k < i ==> list@[k].id@ != id@,
            -1 <= first_with_id(list@, id@) < list@.len(),
            first_with_id(list@, id@) >= 0 ==> list@[first_with_id(list@, id@)].id@ == id@,
            forall|k: int|
                0 <= k < list@.len() && k < first_with_id(list@, id@) ==> list@[k].id@ != id@,
            first_with_id(list@, id@) < 0 ==> forall|k: int|
                0 <= k < list@.len() ==> list@[k].id@ != id@,
        decreases list.len() - i,
    {
        if text::str_eq(list[i].id.as_str(), id) {
            assert(list@[i as int].id@ == id@);
            return Some(i);
        }
        i += 1;
    }
    None
}

/// Replaces the notification with the same id, or adds it at the front.
pub fn upsert_notification(list: &mut Vec<Notification>, n: Notification)
    ensures
        ({
            let i = first_with_id(old(list)@, n.id@);
            if i >= 0 {
                final(list)@ == old(list)@.update(i, n)
            } else {
                final(list)@ == seq![n].add(old(list)@)
            }
        }),
{
    let found = find_id(list, n.id.as_str());
    match found {
        Some(i) => {
            list.set(i, n);
        },
        None => {
            list.insert(0, n);
            assert(list@ =~= seq![n].add(old(list)@));
        },
    }
}

/// Marks the first notification with this id as read.
pub fn mark_read(list: &mut Vec<Notification>, id: &str)
    ensures
        ({
            let i = first_with_id(old(list)@, id@);
            if i >= 0 {
                final(list)@ == old(list)@.update(i, Notification { read: true, ..old(list)@[i] })
            } else {
                final(list)@ == old(list)@
            }
        }),
{
    match find_id(list, id) {
        Some(i) => {
            let mut n = list.remove(i);
            n.read = true;
            list.insert(i, n);
            assert(list@ =~= old(list)@.update(
                i as int,
                Notification { read: true, ..old(list)@[i as int] },
            ));
        },
        None => {},
    }
}

/// Marks every notification as read.
pub fn mark_all_read(list: &mut Vec<Notification>)
    ensures
        final(list)@.len() == old(list)@.len(),
        forall|k: int|
            0 <= k < old(list)@.len() ==> #[trigger] final(list)@[k] == (Notification {
                read: true,
                ..old(list)@[k]
            }),
{
    let mut i: usize = 0;
    while i < list.len()
        invariant
            i <= list.len(),
            list@.len() == old(list)@.len(),
            forall|k: int|
                0 <= k < i ==> #[trigger] list@[k] == (Notification { read: true, ..old(list)@[k] }),
            forall|k: int| i <= k < list@.len() ==> #[trigger] list@[k] == old(list)@[k],
        decreases list.len() - i,
    {
        let mut n = list.remove(i);
        n.read = true;
        list.insert(i, n);
        i += 1;
    }
}

/// Removes every notification with this id, keeping the others in order.
pub fn delete_notification(list: &mut Vec<Notification>, id: &str)
    ensures
        final(list)@ == old(list)@.filter(|n: Notification| n.id@ != id@),
{
    let ghost keep = |n: Notification| n.id@ != id@;
    let mut rest: Vec<Notification> = Vec::new();
    std::mem::swap(list, &mut rest);
    let ghost orig = rest@;
    assert(orig.len() == rest.len());
    let mut i: usize = 0;
    proof {
        reveal(Seq::filter);
        assert(orig.take(0) =~= Seq::<Notification>::empty());
    }
    while rest.len() > 0
        invariant
            i + rest@.len() == orig.len(),
            orig.len() <= usize::MAX,
            rest@ == orig.skip(i as int),
            keep == |n: Notification| n.id@ != id@,
            list@ == orig.take(i as int).filter(keep),
        decreases rest.len(),
    {
        let n = rest.remove(0);
        proof {
            assert(n == orig[i as int]);
            assert(orig.take(i + 1) =~= orig.take(i as int).push(orig[i as int]));
            assert(rest@ =~= orig.skip(i + 1));
            text::lemma_filter_push(orig.take(i as int), keep, orig[i as int]);
        }
        if !text::str_eq(n.id.as_str(), id) {
            list.push(n);
        }
        i += 1;
    }
    assert(orig.take(orig.len() as int) =~= orig);
}

/// Clears the centre: everything, or only the notifications already read.
pub fn clear_notifications(list: &mut Vec<Notification>, read_only: bool)
    ensures
        read_only ==> final(list)@ == old(list)@.filter(|n: Notification| !n.read),
        !read_only ==> final(list)@.len() == 0,
{
    if !read_only {
        list.clear();
        return;
    }
    let ghost keep = |n: Notification| !n.read;
    let mut rest: Vec<Notification> = Vec::new();
    std::mem::swap(list, &mut rest);
    let ghost orig = rest@;
    assert(orig.len() == rest.len());
    let mut i: usize = 0;
    proof {
        reveal(Seq::filter);
        assert(orig.take(0) =~= Seq::<Notification>::empty());
    }
    while rest.len() > 0
        invariant
            i + rest@.len() == orig.len(),
            orig.len() <= usize::MAX,
            rest@ == orig.skip(i as int),
            keep == |n: Notification| !n.read,
            list@ == orig.take(i as int).filter(keep),
        decreases rest.len(),
    {
        let n = rest.remove(0);
        proof {
            assert(n == orig[i as int]);
            assert(orig.take(i + 1) =~= orig.take(i as int).push(orig[i as int]));
            assert(rest@ =~= orig.skip(i + 1));
            text::lemma_filter_push(orig.take(i as int), keep, orig[i as int]);
        }
        if !n.read {
            list.push(n);
        }
        i += 1;
    }
    assert(orig.take(orig.len() as int) =~= orig);
}

} // verus!
