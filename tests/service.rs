use todo_store::model::{Error, Priority, TaskStatus, TodoPayload};
use todo_store::service::Store;
use todo_store::text::id_message;

fn payload(title: &str, description: &str, priority: Priority, due_date: Option<u64>) -> TodoPayload {
    TodoPayload {
        title: title.to_string(),
        description: description.to_string(),
        priority,
        due_date,
    }
}

fn fresh() -> Store {
    Store::new().expect("a fresh store")
}

#[test]
fn buy_milk_lifecycle() {
    let mut s = fresh();
    let t = s
        .add_todo(payload("Buy milk", "", Priority::Low, None), "alice".to_string(), 100)
        .unwrap();
    assert_eq!(t.id, 1);
    assert_eq!(t.status, TaskStatus::Pending);
    assert_eq!(t.priority, Priority::Low);
    assert_eq!(t.created_at, 100);
    assert_eq!(t.updated_at, None);
    assert_eq!(t.owner, "alice");

    let u = s.update_status(1, TaskStatus::InProgress, "alice".to_string(), 200).unwrap();
    assert_eq!(u.id, 1);
    assert_eq!(u.status, TaskStatus::InProgress);
    assert_eq!(u.updated_at, Some(200));

    let d = s.delete_todo(1, "alice".to_string()).unwrap();
    assert_eq!(d.id, 1);
    assert_eq!(d.title, "Buy milk");
    assert_eq!(d.status, TaskStatus::InProgress);

    assert_eq!(
        s.get_todo(1),
        Err(Error::NotFound { msg: "Todo with id=1 not found".to_string() })
    );
}

#[test]
fn get_missing_on_empty_store() {
    let s = fresh();
    assert_eq!(
        s.get_todo(999),
        Err(Error::NotFound { msg: "Todo with id=999 not found".to_string() })
    );
    assert_eq!(s.last_id(), 0);
}

#[test]
fn add_then_get_returns_same_record() {
    let mut s = fresh();
    let t = s
        .add_todo(
            payload("Écrire le rapport", "due soon ✓", Priority::Urgent, Some(4_000_000_000_000)),
            "2vxsx-fae".to_string(),
            u64::MAX,
        )
        .unwrap();
    let g = s.get_todo(t.id).unwrap();
    assert_eq!(g, t);
    assert_eq!(g.title, "Écrire le rapport");
    assert_eq!(g.description, "due soon ✓");
    assert_eq!(g.due_date, Some(4_000_000_000_000));
    assert_eq!(g.created_at, u64::MAX);
}

#[test]
fn blank_titles_are_refused() {
    let mut s = fresh();
    for title in ["", "   ", "\t\n ", "\u{3000}\u{a0}"] {
        assert_eq!(
            s.add_todo(payload(title, "d", Priority::Low, None), "bob".to_string(), 1),
            Err(Error::InvalidInput { msg: "Title cannot be empty".to_string() })
        );
    }
    assert_eq!(s.last_id(), 0);
    let t = s.add_todo(payload("  x  ", "", Priority::Medium, None), "bob".to_string(), 1).unwrap();
    assert_eq!(t.id, 1);
    assert_eq!(t.title, "  x  ");
}

#[test]
fn ids_increase_and_are_not_reused() {
    let mut s = fresh();
    let a = s.add_todo(payload("a", "", Priority::Low, None), "u".to_string(), 1).unwrap();
    let b = s.add_todo(payload("b", "", Priority::Low, None), "u".to_string(), 2).unwrap();
    assert_eq!((a.id, b.id), (1, 2));
    s.delete_todo(2, "u".to_string()).unwrap();
    let c = s.add_todo(payload("c", "", Priority::Low, None), "u".to_string(), 3).unwrap();
    assert_eq!(c.id, 3);
    assert_eq!(s.last_id(), 3);
    assert!(s.get_todo(2).is_err());
}

#[test]
fn owner_update_changes_only_editable_fields() {
    let mut s = fresh();
    let t = s.add_todo(payload("old", "old d", Priority::Low, None), "owner".to_string(), 10).unwrap();
    s.update_status(t.id, TaskStatus::Completed, "owner".to_string(), 11).unwrap();
    let u = s
        .update_todo(t.id, payload("new", "new d", Priority::High, Some(99)), "owner".to_string(), 20)
        .unwrap();
    assert_eq!(u.id, t.id);
    assert_eq!(u.created_at, 10);
    assert_eq!(u.owner, "owner");
    assert_eq!(u.status, TaskStatus::Completed);
    assert_eq!(u.title, "new");
    assert_eq!(u.description, "new d");
    assert_eq!(u.priority, Priority::High);
    assert_eq!(u.due_date, Some(99));
    assert_eq!(u.updated_at, Some(20));
    assert_eq!(s.get_todo(t.id).unwrap(), u);
}

#[test]
fn non_owner_is_refused() {
    let mut s = fresh();
    let t = s.add_todo(payload("mine", "", Priority::Low, None), "owner".to_string(), 10).unwrap();
    assert_eq!(
        s.update_todo(t.id, payload("x", "", Priority::Low, None), "other".to_string(), 20),
        Err(Error::NotFound { msg: "Not authorized to update todo with id=1".to_string() })
    );
    assert_eq!(
        s.update_status(t.id, TaskStatus::Completed, "other".to_string(), 20),
        Err(Error::NotFound { msg: "Not authorized to update todo with id=1".to_string() })
    );
    assert_eq!(s.get_todo(t.id).unwrap(), t);
    assert_eq!(
        s.delete_todo(t.id, "other".to_string()),
        Err(Error::NotFound { msg: "Not authorized to delete todo with id=1".to_string() })
    );
    // The refused deletion has still removed the record.
    assert!(s.get_todo(t.id).is_err());
}

#[test]
fn missing_records_give_not_found() {
    let mut s = fresh();
    assert_eq!(
        s.update_todo(7, payload("x", "", Priority::Low, None), "u".to_string(), 1),
        Err(Error::NotFound { msg: "Couldn't update todo with id=7. Todo not found".to_string() })
    );
    assert_eq!(
        s.delete_todo(12345678901234, "u".to_string()),
        Err(Error::NotFound {
            msg: "Couldn't delete todo with id=12345678901234. Todo not found.".to_string()
        })
    );
    assert_eq!(
        s.update_status(0, TaskStatus::Pending, "u".to_string(), 1),
        Err(Error::NotFound {
            msg: "Couldn't update todo status with id=0. Todo not found".to_string()
        })
    );
}

#[test]
fn status_may_move_backwards() {
    let mut s = fresh();
    let t = s.add_todo(payload("t", "", Priority::Low, None), "o".to_string(), 1).unwrap();
    s.update_status(t.id, TaskStatus::Completed, "o".to_string(), 2).unwrap();
    let back = s.update_status(t.id, TaskStatus::Pending, "o".to_string(), 3).unwrap();
    assert_eq!(back.status, TaskStatus::Pending);
    assert_eq!(back.updated_at, Some(3));
}

#[test]
fn largest_texts_are_stored() {
    let mut s = fresh();
    let title = "t".repeat(1000);
    let description = "d".repeat(995);
    let t = s.add_todo(payload(&title, &description, Priority::Low, Some(1)), "owner".to_string(), 1).unwrap();
    let u = s.update_status(t.id, TaskStatus::InProgress, "owner".to_string(), 2).unwrap();
    assert_eq!(s.get_todo(t.id).unwrap(), u);
}

#[test]
fn restore_on_empty_memory_gives_empty_store() {
    let mut s = Store::restore().expect("an empty memory restores");
    assert_eq!(s.last_id(), 0);
    assert!(s.get_todo(1).is_err());
    let t = s.add_todo(payload("first", "", Priority::Low, None), "o".to_string(), 5).unwrap();
    assert_eq!(t.id, 1);
}

#[test]
fn blank_title_is_refused_whatever_its_length() {
    let mut s = fresh();
    let long = " ".repeat(5000);
    assert_eq!(
        s.add_todo(payload(&long, &"d".repeat(5000), Priority::Low, None), "bob".to_string(), 1),
        Err(Error::InvalidInput { msg: "Title cannot be empty".to_string() })
    );
    assert_eq!(s.last_id(), 0);
}

#[test]
fn refused_edits_ignore_text_length() {
    let mut s = fresh();
    let big = "x".repeat(5000);
    assert_eq!(
        s.update_todo(3, payload(&big, "", Priority::Low, None), "u".to_string(), 1),
        Err(Error::NotFound { msg: "Couldn't update todo with id=3. Todo not found".to_string() })
    );
    let t = s.add_todo(payload("mine", "", Priority::Low, None), "owner".to_string(), 1).unwrap();
    assert_eq!(
        s.update_todo(t.id, payload(&big, "", Priority::Low, None), "other".to_string(), 2),
        Err(Error::NotFound { msg: "Not authorized to update todo with id=1".to_string() })
    );
    assert_eq!(s.get_todo(t.id).unwrap(), t);
}

#[test]
fn messages_hold_the_identifier_in_decimal() {
    assert_eq!(id_message("a=", 0, "."), "a=0.");
    assert_eq!(id_message("", 18446744073709551615, ""), "18446744073709551615");
    assert_eq!(id_message("id ", 1007, " end"), "id 1007 end");
}
