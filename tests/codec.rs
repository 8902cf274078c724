use todo_store::codec::{decode, encode, MAX_RECORD_SIZE};
use todo_store::service::check_entry;
use todo_store::model::{Priority, TaskStatus, Todo};

fn record(status: TaskStatus, priority: Priority, due_date: Option<u64>, updated_at: Option<u64>) -> Todo {
    Todo {
        id: 42,
        title: "Plan trip ✈".to_string(),
        description: String::new(),
        status,
        priority,
        due_date,
        created_at: 1_700_000_000_000_000_000,
        updated_at,
        owner: "aaaaa-aa".to_string(),
    }
}

#[test]
fn round_trip_all_variants() {
    let statuses = [TaskStatus::Pending, TaskStatus::InProgress, TaskStatus::Completed];
    let priorities = [Priority::Low, Priority::Medium, Priority::High, Priority::Urgent];
    let options = [None, Some(0), Some(u64::MAX)];
    for s in statuses {
        for p in priorities {
            for d in options {
                for u in options {
                    let r = record(s, p, d, u);
                    let bytes = encode(&r);
                    assert!(bytes.len() <= MAX_RECORD_SIZE);
                    assert_eq!(decode(&bytes), Some(r));
                }
            }
        }
    }
}

#[test]
fn encoding_layout_is_fixed() {
    let r = Todo {
        id: 1,
        title: "é".to_string(),
        description: String::new(),
        status: TaskStatus::Completed,
        priority: Priority::Urgent,
        due_date: Some(2),
        created_at: 3,
        updated_at: None,
        owner: "o".to_string(),
    };
    let expected: Vec<u8> = vec![
        1, 0, 0, 0, 0, 0, 0, 0, // id
        2, 0, 0, 0, 0xC3, 0xA9, // title
        0, 0, 0, 0, // description
        2, // status
        3, // priority
        1, 2, 0, 0, 0, 0, 0, 0, 0, // due date
        3, 0, 0, 0, 0, 0, 0, 0, // created at
        0, // updated at
        1, 0, 0, 0, b'o', // owner
    ];
    assert_eq!(encode(&r), expected);
}

#[test]
fn malformed_bytes_are_rejected() {
    let r = record(TaskStatus::Pending, Priority::Low, None, Some(5));
    let bytes = encode(&r);
    assert_eq!(decode(&[]), None);
    assert_eq!(decode(&bytes[..bytes.len() - 1]), None);
    let mut longer = bytes.clone();
    longer.push(0);
    assert_eq!(decode(&longer), None);
    let mut bad_status = bytes.clone();
    let status_at = 8 + 4 + r.title.len() + 4;
    bad_status[status_at] = 3;
    assert_eq!(decode(&bad_status), None);
    let mut bad_utf8 = bytes.clone();
    bad_utf8[12] = 0xFF;
    assert_eq!(decode(&bad_utf8), None);
}

#[test]
fn persisted_entries_are_checked() {
    let r = record(TaskStatus::InProgress, Priority::High, Some(1), None);
    let bytes = encode(&r);
    assert_eq!(check_entry(42, &bytes, 42), Some(r.clone()));
    assert_eq!(check_entry(42, &bytes, 100), Some(r));
    assert_eq!(check_entry(41, &bytes, 100), None);
    assert_eq!(check_entry(42, &bytes, 41), None);
    assert_eq!(check_entry(42, &bytes[1..], 100), None);
}

#[test]
fn oversized_persisted_texts_are_refused() {
    let mut r = record(TaskStatus::Pending, Priority::Low, None, None);
    // 13 bytes of title, 8 of owner: the description may take 1979.
    r.description = "x".repeat(1979);
    let bytes = encode(&r);
    assert_eq!(check_entry(42, &bytes, 42), Some(r.clone()));
    let mut bigger = r.clone();
    bigger.description.push('x');
    // Build the bytes of a record whose texts no longer fit by hand: widen the
    // description's byte count and append the extra bytes in place.
    let title_end = 8 + 4 + r.title.len();
    let mut raw = bytes[..title_end].to_vec();
    raw.extend_from_slice(&(bigger.description.len() as u32).to_le_bytes());
    raw.extend_from_slice(bigger.description.as_bytes());
    raw.extend_from_slice(&bytes[title_end + 4 + r.description.len()..]);
    assert_eq!(decode(&raw), Some(bigger));
    assert_eq!(check_entry(42, &raw, 42), None);
}
