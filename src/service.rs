//! The record service: creation, lookup, editing, status change and deletion
//! of task records, with input validation and an ownership check.
use crate::codec::{
    decode, decode_record, encode, encode_record, lemma_decode_encode, lemma_encode_decode,
    record_fits, texts_fit, MAX_TEXT_BYTES,
};
use crate::model::{outcome, ErrorView, Error, Priority, TaskStatus, Todo, TodoPayload, TodoView};
use crate::storage::{
    counter_value, stored_bytes, IdCounter, RecordMap, Regions, COUNTER_REGION, RECORD_REGION,
};
use crate::text::{decimal, id_message, trim, trimmed};
use vstd::prelude::*;

verus! {

/// Value of a payload: the text fields as character sequences.
pub struct PayloadView {
    pub title: Seq<char>,
    pub description: Seq<char>,
    pub priority: Priority,
    pub due_date: Option<u64>,
}

impl View for TodoPayload {
    type V = PayloadView;

    open spec fn view(&self) -> PayloadView {
        PayloadView {
            title: self.title@,
            description: self.description@,
            priority: self.priority,
            due_date: self.due_date,
        }
    }
}

/// Value of a store: the last identifier handed out and the live records.
pub struct StoreView {
    pub last_id: u64,
    pub records: Map<u64, TodoView>,
}

impl StoreView {
    /// Every record sits under its own identifier, which was handed out
    /// already, and its texts fit in an encoding of bounded size.
    pub open spec fn inv(self) -> bool {
        forall|k: u64|
            #[trigger] self.records.contains_key(k) ==> self.records[k].id == k && k
                <= self.last_id && record_fits(self.records[k])
    }
}

pub open spec fn msg_get_missing(id: u64) -> Seq<char> {
    "Todo with id="@ + decimal(id as nat) + " not found"@
}

pub open spec fn msg_update_missing(id: u64) -> Seq<char> {
    "Couldn't update todo with id="@ + decimal(id as nat) + ". Todo not found"@
}

pub open spec fn msg_update_denied(id: u64) -> Seq<char> {
    "Not authorized to update todo with id="@ + decimal(id as nat) + ""@
}

pub open spec fn msg_delete_missing(id: u64) -> Seq<char> {
    "Couldn't delete todo with id="@ + decimal(id as nat) + ". Todo not found."@
}

pub open spec fn msg_delete_denied(id: u64) -> Seq<char> {
    "Not authorized to delete todo with id="@ + decimal(id as nat) + ""@
}

pub open spec fn msg_status_missing(id: u64) -> Seq<char> {
    "Couldn't update todo status with id="@ + decimal(id as nat) + ". Todo not found"@
}

pub open spec fn msg_empty_title() -> Seq<char> {
    "Title cannot be empty"@
}

/// Lookup of record `id`.
pub open spec fn spec_get(s: StoreView, id: u64) -> Result<TodoView, ErrorView> {
    if s.records.contains_key(id) {
        Ok(s.records[id])
    } else {
        Err(ErrorView::NotFound(msg_get_missing(id)))
    }
}

/// Creation of a record by `caller` at time `now`.
pub open spec fn spec_add(s: StoreView, p: PayloadView, caller: Seq<char>, now: u64) -> (
    StoreView,
    Result<TodoView, ErrorView>,
) {
    if trimmed(p.title).len() == 0 {
        (s, Err(ErrorView::InvalidInput(msg_empty_title())))
    } else {
        let id = (s.last_id + 1) as u64;
        let t = TodoView {
            id,
            title: p.title,
            description: p.description,
            status: TaskStatus::Pending,
            priority: p.priority,
            due_date: p.due_date,
            created_at: now,
            updated_at: None,
            owner: caller,
        };
        (StoreView { last_id: id, records: s.records.insert(id, t) }, Ok(t))
    }
}

/// Edit of record `id` by `caller` at time `now`.
pub open spec fn spec_update(
    s: StoreView,
    id: u64,
    p: PayloadView,
    caller: Seq<char>,
    now: u64,
) -> (StoreView, Result<TodoView, ErrorView>) {
    if !s.records.contains_key(id) {
        (s, Err(ErrorView::NotFound(msg_update_missing(id))))
    } else if s.records[id].owner != caller {
        (s, Err(ErrorView::NotFound(msg_update_denied(id))))
    } else {
        let t = TodoView {
            title: p.title,
            description: p.description,
            priority: p.priority,
            due_date: p.due_date,
            updated_at: Some(now),
            ..s.records[id]
        };
        (StoreView { last_id: s.last_id, records: s.records.insert(id, t) }, Ok(t))
    }
}

/// Deletion of record `id` by `caller`. The record leaves the store before
/// the ownership check, so a refused deletion still removes it.
pub open spec fn spec_delete(s: StoreView, id: u64, caller: Seq<char>) -> (
    StoreView,
    Result<TodoView, ErrorView>,
) {
    if !s.records.contains_key(id) {
        (s, Err(ErrorView::NotFound(msg_delete_missing(id))))
    } else {
        let after = StoreView { last_id: s.last_id, records: s.records.remove(id) };
        if s.records[id].owner != caller {
            (after, Err(ErrorView::NotFound(msg_delete_denied(id))))
        } else {
            (after, Ok(s.records[id]))
        }
    }
}

/// Status change of record `id` by `caller` at time `now`.
pub open spec fn spec_update_status(
    s: StoreView,
    id: u64,
    status: TaskStatus,
    caller: Seq<char>,
    now: u64,
) -> (StoreView, Result<TodoView, ErrorView>) {
    if !s.records.contains_key(id) {
        (s, Err(ErrorView::NotFound(msg_status_missing(id))))
    } else if s.records[id].owner != caller {
        (s, Err(ErrorView::NotFound(msg_update_denied(id))))
    } else {
        let t = TodoView { status, updated_at: Some(now), ..s.records[id] };
        (StoreView { last_id: s.last_id, records: s.records.insert(id, t) }, Ok(t))
    }
}

/// A persisted entry is sound when its bytes encode a record that sits
/// under key `key`, was handed out by a counter at `last`, and has texts that
/// fit.
pub open spec fn entry_sound(key: u64, bytes: Seq<u8>, last: u64) -> bool {
    decode_record(bytes) matches Some(t) && t.id == key && key <= last && record_fits(t)
}

/// The record that the persisted entry `key` holds, when the entry is sound.
pub fn check_entry(key: u64, bytes: &[u8], last: u64) -> (r: Option<Todo>)
    ensures
        r is Some <==> entry_sound(key, bytes@, last),
        r matches Some(t) ==> decode_record(bytes@) == Some(t@) && encode_record(t@) == bytes@,
{
    let t = match decode(bytes) {
        Some(t) => t,
        None => return None,
    };
    if t.id != key || key > last {
        return None;
    }
    let title_len = t.title.as_str().as_bytes().len();
    let description_len = t.description.as_str().as_bytes().len();
    let owner_len = t.owner.as_str().as_bytes().len();
    if title_len > MAX_TEXT_BYTES || description_len > MAX_TEXT_BYTES || owner_len > MAX_TEXT_BYTES
        || title_len + description_len + owner_len > MAX_TEXT_BYTES {
        return None;
    }
    proof {
        lemma_encode_decode(bytes@);
    }
    Some(t)
}

/// The persisted state: the identifier counter and the record map, with the
/// records that the map's bytes encode.
pub struct Store {
    counter: IdCounter,
    records: RecordMap,
    model: Ghost<Map<u64, TodoView>>,
}

impl View for Store {
    type V = StoreView;

    closed spec fn view(&self) -> StoreView {
        StoreView { last_id: counter_value(self.counter), records: self.model@ }
    }
}

impl Store {
    /// The map holds exactly the encodings of the modelled records.
    pub closed spec fn wf(&self) -> bool {
        &&& self@.inv()
        &&& forall|k: u64| #[trigger]
            stored_bytes(self.records).contains_key(k) <==> self.model@.contains_key(k)
        &&& forall|k: u64| #[trigger]
            self.model@.contains_key(k) ==> stored_bytes(self.records)[k] == encode_record(
                self.model@[k],
            )
    }

    /// A well-formed store satisfies its view's invariant.
    pub proof fn lemma_wf_inv(&self)
        requires
            self.wf(),
        ensures
            self@.inv(),
    {
    }

    /// Lays out a new, empty store over the platform's stable memory; `None`
    /// when the memory cannot grow to hold the counter. One store is assumed
    /// per process: every store is laid over the same regions of the one
    /// stable memory.
    pub fn new() -> (r: Option<Store>)
        ensures
            r matches Some(s) ==> s.wf() && s@.last_id == 0 && s@.records == Map::<
                u64,
                TodoView,
            >::empty(),
    {
        let regions = Regions::open();
        let counter = match IdCounter::create(&regions, COUNTER_REGION) {
            Some(c) => c,
            None => return None,
        };
        let records = RecordMap::create(&regions, RECORD_REGION);
        let s = Store { counter, records, model: Ghost(Map::empty()) };
        assert(s@.records =~= Map::<u64, TodoView>::empty());
        Some(s)
    }

    /// Loads the store persisted in the platform's stable memory, or lays
    /// out an empty one where none is. `None` when the counter cannot be
    /// loaded, or when a persisted entry is not sound (see `from_parts`).
    /// One store is assumed per process: every store is laid over the same
    /// regions of the one stable memory.
    pub fn restore() -> (r: Option<Store>)
        ensures
            r matches Some(s) ==> s.wf(),
    {
        let regions = Regions::open();
        let counter = match IdCounter::load(&regions, COUNTER_REGION) {
            Some(c) => c,
            None => return None,
        };
        let records = RecordMap::load(&regions, RECORD_REGION);
        Store::from_parts(counter, records)
    }

    /// A store over a loaded counter and record map: `Some` exactly when
    /// every persisted entry is sound, that is, the encoding of a record that
    /// sits under its own identifier, at most the counter, with texts that
    /// fit. Bytes that are not such an encoding give `None`.
    pub fn from_parts(counter: IdCounter, records: RecordMap) -> (r: Option<Store>)
        ensures
            r is Some <==> (forall|k: u64| #[trigger]
                stored_bytes(records).contains_key(k) ==> entry_sound(
                    k,
                    stored_bytes(records)[k],
                    counter_value(counter),
                )),
            r matches Some(s) ==> s.wf() && s@.last_id == counter_value(counter),
    {
        let last = counter.get();
        let entries = records.entries();
        let ghost mut model = Map::<u64, TodoView>::empty();
        let mut i: usize = 0;
        while i < entries.len()
            invariant
                i <= entries@.len(),
                last == counter_value(counter),
                forall|j: int|
                    0 <= j < entries@.len() ==> stored_bytes(records).contains_key(
                        #[trigger] entries@[j].0,
                    ) && stored_bytes(records)[entries@[j].0] == entries@[j].1@,
                forall|k: u64| #[trigger]
                    stored_bytes(records).contains_key(k) ==> exists|j: int|
                        0 <= j < entries@.len() && entries@[j].0 == k,
                forall|j: int| 0 <= j < i ==> model.contains_key(#[trigger] entries@[j].0),
                forall|k: u64| #[trigger]
                    model.contains_key(k) ==> stored_bytes(records).contains_key(k)
                        && stored_bytes(records)[k] == encode_record(model[k]) && model[k].id
                        == k && k <= last && record_fits(model[k]) && entry_sound(
                        k,
                        stored_bytes(records)[k],
                        last,
                    ),
            decreases entries@.len() - i,
        {
            let key = entries[i].0;
            let t = match check_entry(key, entries[i].1.as_slice(), last) {
                Some(t) => t,
                None => {
                    assert(stored_bytes(records).contains_key(key));
                    assert(!entry_sound(key, stored_bytes(records)[key], last));
                    return None;
                },
            };
            proof {
                model = model.insert(key, t@);
            }
            i = i + 1;
        }
        let s = Store { counter, records, model: Ghost(model) };
        assert forall|k: u64| #[trigger]
            stored_bytes(s.records).contains_key(k) implies s.model@.contains_key(k) by {
            let j = choose|j: int| 0 <= j < entries@.len() && entries@[j].0 == k;
            assert(model.contains_key(entries@[j].0));
        }
        Some(s)
    }

    /// The last identifier handed out.
    pub fn last_id(&self) -> (r: u64)
        ensures
            r == self@.last_id,
    {
        self.counter.get()
    }

    /// Reads record `id` back from the map; `None` when there is none.
    pub fn _get_todo(&self, id: u64) -> (r: Option<Todo>)
        requires
            self.wf(),
        ensures
            r is Some <==> self@.records.contains_key(id),
            r matches Some(t) ==> t@ == self@.records[id],
    {
        match self.records.get(id) {
            Some(bytes) => {
                proof {
                    lemma_decode_encode(self.model@[id]);
                }
                decode(bytes.as_slice())
            },
            None => None,
        }
    }

    /// Writes record `t` to the map under its identifier, replacing any record
    /// there.
    pub fn do_insert(&mut self, t: &Todo)
        requires
            old(self).wf(),
            record_fits(t@),
            t.id <= old(self)@.last_id,
        ensures
            final(self).wf(),
            final(self)@ == (StoreView {
                last_id: old(self)@.last_id,
                records: old(self)@.records.insert(t.id, t@),
            }),
    {
        let bytes = encode(t);
        self.records.insert(t.id, bytes.as_slice());
        self.model = Ghost(self.model@.insert(t.id, t@));
    }

    /// Returns record `id`, or `NotFound` when there is none. Anyone may read.
    pub fn get_todo(&self, id: u64) -> (r: Result<Todo, Error>)
        requires
            self.wf(),
        ensures
            outcome(r) == spec_get(self@, id),
    {
        match self._get_todo(id) {
            Some(t) => Ok(t),
            None => Err(Error::NotFound { msg: id_message("Todo with id=", id, " not found") }),
        }
    }

    /// Creates a record owned by `caller`, stamped `now`, under the next
    /// identifier. A title that is empty once trimmed is refused, whatever the
    /// other inputs; otherwise the texts must fit and an identifier must be
    /// left.
    pub fn add_todo(&mut self, payload: TodoPayload, caller: String, now: u64) -> (r: Result<
        Todo,
        Error,
    >)
        requires
            old(self).wf(),
            trimmed(payload.title@).len() > 0 ==> old(self)@.last_id < u64::MAX && texts_fit(
                payload.title@,
                payload.description@,
                caller@,
            ),
        ensures
            final(self).wf(),
            (final(self)@, outcome(r)) == spec_add(old(self)@, payload@, caller@, now),
    {
        if trim(payload.title.as_str()).is_empty() {
            return Err(Error::InvalidInput { msg: "Title cannot be empty".to_owned() });
        }
        let id = self.counter.get() + 1;
        self.counter.set(id);
        let todo = Todo {
            id,
            title: payload.title,
            description: payload.description,
            status: TaskStatus::Pending,
            priority: payload.priority,
            due_date: payload.due_date,
            created_at: now,
            updated_at: None,
            owner: caller,
        };
        self.do_insert(&todo);
        Ok(todo)
    }

    /// Replaces the title, description, priority and due date of record `id`
    /// and stamps it `now`; only the record's owner may do so. The new texts
    /// must fit only where the edit goes through.
    pub fn update_todo(&mut self, id: u64, payload: TodoPayload, caller: String, now: u64) -> (r:
        Result<Todo, Error>)
        requires
            old(self).wf(),
            old(self)@.records.contains_key(id) && old(self)@.records[id].owner == caller@
                ==> texts_fit(payload.title@, payload.description@, caller@),
        ensures
            final(self).wf(),
            (final(self)@, outcome(r)) == spec_update(old(self)@, id, payload@, caller@, now),
    {
        match self._get_todo(id) {
            Some(mut todo) => {
                if todo.owner != caller {
                    return Err(
                        Error::NotFound {
                            msg: id_message("Not authorized to update todo with id=", id, ""),
                        },
                    );
                }
                todo.title = payload.title;
                todo.description = payload.description;
                todo.priority = payload.priority;
                todo.due_date = payload.due_date;
                todo.updated_at = Some(now);
                self.do_insert(&todo);
                Ok(todo)
            },
            None => Err(
                Error::NotFound {
                    msg: id_message("Couldn't update todo with id=", id, ". Todo not found"),
                },
            ),
        }
    }

    /// Removes record `id` and returns it when `caller` owns it. The record
    /// is removed before ownership is checked: a refused deletion still
    /// removes it.
    pub fn delete_todo(&mut self, id: u64, caller: String) -> (r: Result<Todo, Error>)
        requires
            old(self).wf(),
        ensures
            final(self).wf(),
            (final(self)@, outcome(r)) == spec_delete(old(self)@, id, caller@),
    {
        let removed = self.records.remove(id);
        let ghost before = self.model@;
        self.model = Ghost(self.model@.remove(id));
        match removed {
            Some(bytes) => {
                proof {
                    lemma_decode_encode(before[id]);
                }
                match decode(bytes.as_slice()) {
                    Some(todo) => {
                        if todo.owner != caller {
                            return Err(
                                Error::NotFound {
                                    msg: id_message(
                                        "Not authorized to delete todo with id=",
                                        id,
                                        "",
                                    ),
                                },
                            );
                        }
                        Ok(todo)
                    },
                    None => Err(
                        Error::NotFound {
                            msg: id_message(
                                "Couldn't delete todo with id=",
                                id,
                                ". Todo not found.",
                            ),
                        },
                    ),
                }
            },
            None => {
                assert(self.model@ =~= before);
                Err(
                    Error::NotFound {
                        msg: id_message("Couldn't delete todo with id=", id, ". Todo not found."),
                    },
                )
            },
        }
    }

    /// Sets the status of record `id` and stamps it `now`; only the record's
    /// owner may do so. Any status may follow any other.
    pub fn update_status(&mut self, id: u64, status: TaskStatus, caller: String, now: u64) -> (r:
        Result<Todo, Error>)
        requires
            old(self).wf(),
        ensures
            final(self).wf(),
            (final(self)@, outcome(r)) == spec_update_status(old(self)@, id, status, caller@, now),
    {
        match self._get_todo(id) {
            Some(mut todo) => {
                if todo.owner != caller {
                    return Err(
                        Error::NotFound {
                            msg: id_message("Not authorized to update todo with id=", id, ""),
                        },
                    );
                }
                todo.status = status;
                todo.updated_at = Some(now);
                self.do_insert(&todo);
                Ok(todo)
            },
            None => Err(
                Error::NotFound {
                    msg: id_message(
                        "Couldn't update todo status with id=",
                        id,
                        ". Todo not found",
                    ),
                },
            ),
        }
    }
}

} // verus!
