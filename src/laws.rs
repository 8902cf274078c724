//! Properties of the record service that relate several operations, stated
//! over the functional specification that the operations' contracts meet.
use crate::model::{ErrorView, TaskStatus, TodoView};
use crate::service::{
    msg_empty_title, spec_add, spec_delete, spec_get, spec_update, spec_update_status,
    PayloadView, StoreView,
};
use crate::text::trimmed;
use vstd::prelude::*;

verus! {

/// Creation succeeds exactly for titles that are not empty once trimmed;
/// any other title is refused as invalid input and the store is unchanged.
pub proof fn law_add_validates_title(s: StoreView, p: PayloadView, caller: Seq<char>, now: u64)
    ensures
        spec_add(s, p, caller, now).1 is Ok <==> trimmed(p.title).len() > 0,
        trimmed(p.title).len() == 0 ==> spec_add(s, p, caller, now) == (
        s,
        Err::<TodoView, ErrorView>(ErrorView::InvalidInput(msg_empty_title())),
        ),
{
}

/// The record that creation returns is what a lookup of its identifier
/// returns afterwards.
pub proof fn law_add_then_get(s: StoreView, p: PayloadView, caller: Seq<char>, now: u64)
    requires
        trimmed(p.title).len() > 0,
    ensures
        ({
            let (s2, r) = spec_add(s, p, caller, now);
            r matches Ok(t) && spec_get(s2, t.id) == Ok::<TodoView, ErrorView>(t)
        }),
{
}

/// Successive creations hand out strictly increasing identifiers, each
/// above every identifier in the store, and a deletion in between never
/// lets an identifier come back.
pub proof fn law_ids_increase(
    s: StoreView,
    first: PayloadView,
    c1: Seq<char>,
    n1: u64,
    del_id: u64,
    del_caller: Seq<char>,
    second: PayloadView,
    c2: Seq<char>,
    n2: u64,
)
    requires
        s.inv(),
        s.last_id + 2 <= u64::MAX,
        trimmed(first.title).len() > 0,
        trimmed(second.title).len() > 0,
    ensures
        ({
            let (s1, r1) = spec_add(s, first, c1, n1);
            let (s2, _) = spec_delete(s1, del_id, del_caller);
            let (s3, r2) = spec_add(s2, second, c2, n2);
            r1 matches Ok(t1) && r2 matches Ok(t2) && t1.id < t2.id && s2.last_id == s1.last_id
                && (forall|k: u64| #[trigger] s.records.contains_key(k) ==> k < t1.id) && (forall|
                k: u64,
            | #[trigger] s2.records.contains_key(k) ==> k < t2.id)
        }),
{
    let (s1, r1) = spec_add(s, first, c1, n1);
    let (s2, _) = spec_delete(s1, del_id, del_caller);
    assert forall|k: u64| #[trigger] s2.records.contains_key(k) implies k < s1.last_id + 1 by {
        if k != s1.last_id {
            assert(s.records.contains_key(k));
        }
    }
}

/// An edit by the owner changes exactly the title, description, priority,
/// due date and update time, and keeps the identifier, creation time, owner
/// and status.
pub proof fn law_owner_update(s: StoreView, id: u64, p: PayloadView, caller: Seq<char>, now: u64)
    requires
        s.records.contains_key(id),
        s.records[id].owner == caller,
    ensures
        ({
            let (s2, r) = spec_update(s, id, p, caller, now);
            let old_t = s.records[id];
            r matches Ok(t) && t.title == p.title && t.description == p.description && t.priority
                == p.priority && t.due_date == p.due_date && t.updated_at == Some(now) && t.id
                == old_t.id && t.created_at == old_t.created_at && t.owner == old_t.owner
                && t.status == old_t.status && s2.records == s.records.insert(id, t) && s2.last_id
                == s.last_id
        }),
{
}

/// Edits, status changes and deletions by anyone but the owner of an
/// existing record fail with `NotFound`. Edits and status changes leave the
/// store unchanged; a refused deletion still removes the record.
pub proof fn law_non_owner_refused(
    s: StoreView,
    id: u64,
    p: PayloadView,
    status: TaskStatus,
    caller: Seq<char>,
    now: u64,
)
    requires
        s.records.contains_key(id),
        s.records[id].owner != caller,
    ensures
        spec_update(s, id, p, caller, now).1 matches Err(ErrorView::NotFound(_)),
        spec_update(s, id, p, caller, now).0 == s,
        spec_update_status(s, id, status, caller, now).1 matches Err(ErrorView::NotFound(_)),
        spec_update_status(s, id, status, caller, now).0 == s,
        spec_delete(s, id, caller).1 matches Err(ErrorView::NotFound(_)),
        !spec_delete(s, id, caller).0.records.contains_key(id),
{
}

} // verus!
