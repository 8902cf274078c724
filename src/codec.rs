//! Byte encoding of a record.
//!
//! Layout, all integers little-endian:
//! `id: u64`, `title`, `description`, `status: u8`, `priority: u8`,
//! `due_date`, `created_at: u64`, `updated_at`, `owner`.
//! A text is a `u32` byte count followed by its UTF-8 bytes; an optional
//! timestamp is a presence tag (0 absent, 1 present) followed, when present,
//! by the `u64`. Status tags: Pending 0, InProgress 1, Completed 2.
//! Priority tags: Low 0, Medium 1, High 2, Urgent 3. These tag values are
//! part of the persisted format and never change.
use crate::model::{Priority, TaskStatus, Todo, TodoView};
use vstd::bytes::{
    lemma_auto_spec_u32_to_from_le_bytes, lemma_auto_spec_u64_to_from_le_bytes,
    spec_u32_from_le_bytes, spec_u32_to_le_bytes, spec_u64_from_le_bytes, spec_u64_to_le_bytes,
    u32_from_le_bytes, u32_to_le_bytes, u64_from_le_bytes, u64_to_le_bytes,
};
use vstd::prelude::*;
use vstd::slice::{slice_subrange, slice_to_vec};
use vstd::utf8::{
    decode_utf8, decode_utf8_encode_utf8, encode_utf8, encode_utf8_decode_utf8,
    encode_utf8_valid_utf8, valid_utf8,
};

verus! {

/// Largest number of bytes that an encoded record may take.
pub const MAX_RECORD_SIZE: usize = 2048;

/// Largest total number of UTF-8 bytes of a record's three texts: with every
/// optional field present the fixed part of the encoding takes 48 bytes.
pub const MAX_TEXT_BYTES: usize = 2000;

/// The texts of a record fit in an encoding of at most `MAX_RECORD_SIZE` bytes,
/// whichever optional fields are present.
pub open spec fn texts_fit(title: Seq<char>, description: Seq<char>, owner: Seq<char>) -> bool {
    encode_utf8(title).len() + encode_utf8(description).len() + encode_utf8(owner).len()
        <= MAX_TEXT_BYTES
}

pub open spec fn record_fits(r: TodoView) -> bool {
    texts_fit(r.title, r.description, r.owner)
}

pub open spec fn enc_u64(x: u64) -> Seq<u8> {
    spec_u64_to_le_bytes(x)
}

pub open spec fn enc_text(s: Seq<char>) -> Seq<u8> {
    spec_u32_to_le_bytes(encode_utf8(s).len() as u32) + encode_utf8(s)
}

pub open spec fn enc_opt(o: Option<u64>) -> Seq<u8> {
    match o {
        None => seq![0u8],
        Some(x) => seq![1u8] + enc_u64(x),
    }
}

pub open spec fn status_tag(s: TaskStatus) -> u8 {
    match s {
        TaskStatus::Pending => 0,
        TaskStatus::InProgress => 1,
        TaskStatus::Completed => 2,
    }
}

pub open spec fn priority_tag(p: Priority) -> u8 {
    match p {
        Priority::Low => 0,
        Priority::Medium => 1,
        Priority::High => 2,
        Priority::Urgent => 3,
    }
}

/// The bytes that stand for record `r`.
pub open spec fn encode_record(r: TodoView) -> Seq<u8> {
    enc_u64(r.id) + (enc_text(r.title) + (enc_text(r.description) + (seq![status_tag(r.status)]
        + (seq![priority_tag(r.priority)] + (enc_opt(r.due_date) + (enc_u64(r.created_at)
        + (enc_opt(r.updated_at) + enc_text(r.owner))))))))
}

pub open spec fn parse_u64(b: Seq<u8>) -> Option<(u64, Seq<u8>)> {
    if b.len() >= 8 {
        Some((spec_u64_from_le_bytes(b.take(8)), b.skip(8)))
    } else {
        None
    }
}

pub open spec fn parse_text(b: Seq<u8>) -> Option<(Seq<char>, Seq<u8>)> {
    if b.len() >= 4 {
        let n = spec_u32_from_le_bytes(b.take(4)) as int;
        let rest = b.skip(4);
        if n <= rest.len() && valid_utf8(rest.take(n)) {
            Some((decode_utf8(rest.take(n)), rest.skip(n)))
        } else {
            None
        }
    } else {
        None
    }
}

pub open spec fn parse_opt(b: Seq<u8>) -> Option<(Option<u64>, Seq<u8>)> {
    if b.len() >= 1 && b[0] == 0 {
        Some((None, b.skip(1)))
    } else if b.len() >= 1 && b[0] == 1 {
        match parse_u64(b.skip(1)) {
            Some((x, rest)) => Some((Some(x), rest)),
            None => None,
        }
    } else {
        None
    }
}

pub open spec fn parse_status(b: Seq<u8>) -> Option<(TaskStatus, Seq<u8>)> {
    if b.len() >= 1 && b[0] == 0 {
        Some((TaskStatus::Pending, b.skip(1)))
    } else if b.len() >= 1 && b[0] == 1 {
        Some((TaskStatus::InProgress, b.skip(1)))
    } else if b.len() >= 1 && b[0] == 2 {
        Some((TaskStatus::Completed, b.skip(1)))
    } else {
        None
    }
}

pub open spec fn parse_priority(b: Seq<u8>) -> Option<(Priority, Seq<u8>)> {
    if b.len() >= 1 && b[0] == 0 {
        Some((Priority::Low, b.skip(1)))
    } else if b.len() >= 1 && b[0] == 1 {
        Some((Priority::Medium, b.skip(1)))
    } else if b.len() >= 1 && b[0] == 2 {
        Some((Priority::High, b.skip(1)))
    } else if b.len() >= 1 && b[0] == 3 {
        Some((Priority::Urgent, b.skip(1)))
    } else {
        None
    }
}

/// The record that bytes `b` stand for, if they are well formed and hold
/// nothing after the record.
#[verifier::opaque]
pub open spec fn decode_record(b: Seq<u8>) -> Option<TodoView> {
    match parse_u64(b) {
        None => None,
        Some((id, b1)) => match parse_text(b1) {
            None => None,
            Some((title, b2)) => match parse_text(b2) {
                None => None,
                Some((description, b3)) => match parse_status(b3) {
                    None => None,
                    Some((status, b4)) => match parse_priority(b4) {
                        None => None,
                        Some((priority, b5)) => match parse_opt(b5) {
                            None => None,
                            Some((due_date, b6)) => match parse_u64(b6) {
                                None => None,
                                Some((created_at, b7)) => match parse_opt(b7) {
                                    None => None,
                                    Some((updated_at, b8)) => match parse_text(b8) {
                                        None => None,
                                        Some((owner, b9)) => if b9.len() == 0 {
                                            Some(
                                                TodoView {
                                                    id,
                                                    title,
                                                    description,
                                                    status,
                                                    priority,
                                                    due_date,
                                                    created_at,
                                                    updated_at,
                                                    owner,
                                                },
                                            )
                                        } else {
                                            None
                                        },
                                    },
                                },
                            },
                        },
                    },
                },
            },
        },
    }
}

proof fn lemma_parse_u64(x: u64, rest: Seq<u8>)
    ensures
        enc_u64(x).len() == 8,
        parse_u64(enc_u64(x) + rest) == Some((x, rest)),
{
    lemma_auto_spec_u64_to_from_le_bytes();
    assert((enc_u64(x) + rest).take(8) =~= enc_u64(x));
    assert((enc_u64(x) + rest).skip(8) =~= rest);
}

proof fn lemma_parse_text(s: Seq<char>, rest: Seq<u8>)
    requires
        encode_utf8(s).len() <= u32::MAX,
    ensures
        parse_text(enc_text(s) + rest) == Some((s, rest)),
{
    lemma_auto_spec_u32_to_from_le_bytes();
    encode_utf8_valid_utf8(s);
    encode_utf8_decode_utf8(s);
    let n = encode_utf8(s).len() as u32;
    let b = enc_text(s) + rest;
    assert(b.take(4) =~= spec_u32_to_le_bytes(n));
    assert(b.skip(4) =~= encode_utf8(s) + rest);
    assert((encode_utf8(s) + rest).take(n as int) =~= encode_utf8(s));
    assert((encode_utf8(s) + rest).skip(n as int) =~= rest);
}

proof fn lemma_parse_opt(o: Option<u64>, rest: Seq<u8>)
    ensures
        parse_opt(enc_opt(o) + rest) == Some((o, rest)),
{
    match o {
        None => {
            assert((enc_opt(o) + rest).skip(1) =~= rest);
        },
        Some(x) => {
            assert((enc_opt(o) + rest).skip(1) =~= enc_u64(x) + rest);
            lemma_parse_u64(x, rest);
        },
    }
}

proof fn lemma_parse_tags(s: TaskStatus, p: Priority, rest: Seq<u8>)
    ensures
        parse_status(seq![status_tag(s)] + rest) == Some((s, rest)),
        parse_priority(seq![priority_tag(p)] + rest) == Some((p, rest)),
{
    assert((seq![status_tag(s)] + rest).skip(1) =~= rest);
    assert((seq![priority_tag(p)] + rest).skip(1) =~= rest);
}

/// Decoding the encoding of a record whose texts fit gives the record back.
pub proof fn lemma_decode_encode(r: TodoView)
    requires
        record_fits(r),
    ensures
        decode_record(encode_record(r)) == Some(r),
{
    reveal(decode_record);
    let b9 = Seq::<u8>::empty();
    let b8 = enc_text(r.owner);
    let b7 = enc_opt(r.updated_at) + b8;
    let b6 = enc_u64(r.created_at) + b7;
    let b5 = enc_opt(r.due_date) + b6;
    let b4 = seq![priority_tag(r.priority)] + b5;
    let b3 = seq![status_tag(r.status)] + b4;
    let b2 = enc_text(r.description) + b3;
    let b1 = enc_text(r.title) + b2;
    assert(b8 =~= enc_text(r.owner) + b9);
    lemma_parse_u64(r.id, b1);
    lemma_parse_text(r.title, b2);
    lemma_parse_text(r.description, b3);
    lemma_parse_tags(r.status, r.priority, b4);
    lemma_parse_tags(r.status, r.priority, b5);
    lemma_parse_opt(r.due_date, b6);
    lemma_parse_u64(r.created_at, b7);
    lemma_parse_opt(r.updated_at, b8);
    lemma_parse_text(r.owner, b9);
}


proof fn lemma_unparse_u64(b: Seq<u8>)
    requires
        parse_u64(b) is Some,
    ensures
        ({
            let (x, rest) = parse_u64(b)->0;
            b == enc_u64(x) + rest
        }),
{
    lemma_auto_spec_u64_to_from_le_bytes();
    let x = spec_u64_from_le_bytes(b.take(8));
    assert(enc_u64(x) == b.take(8));
    assert(b =~= b.take(8) + b.skip(8));
}

proof fn lemma_unparse_text(b: Seq<u8>)
    requires
        parse_text(b) is Some,
    ensures
        ({
            let (s, rest) = parse_text(b)->0;
            b == enc_text(s) + rest && encode_utf8(s).len() <= u32::MAX
        }),
{
    lemma_auto_spec_u32_to_from_le_bytes();
    let n = spec_u32_from_le_bytes(b.take(4));
    let rest = b.skip(4);
    let body = rest.take(n as int);
    decode_utf8_encode_utf8(body);
    assert(encode_utf8(decode_utf8(body)).len() == n);
    assert(spec_u32_to_le_bytes(n) == b.take(4));
    assert(b =~= b.take(4) + (body + rest.skip(n as int)));
}

proof fn lemma_unparse_opt(b: Seq<u8>)
    requires
        parse_opt(b) is Some,
    ensures
        ({
            let (o, rest) = parse_opt(b)->0;
            b == enc_opt(o) + rest
        }),
{
    if b[0] == 0 {
        assert(b =~= seq![0u8] + b.skip(1));
    } else {
        lemma_unparse_u64(b.skip(1));
        assert(b =~= seq![1u8] + b.skip(1));
        let (x, rest) = parse_u64(b.skip(1))->0;
        assert(b =~= seq![1u8] + enc_u64(x) + rest);
    }
}

proof fn lemma_unparse_tags(b: Seq<u8>)
    ensures
        parse_status(b) matches Some((st, rest)) ==> b == seq![status_tag(st)] + rest,
        parse_priority(b) matches Some((p, rest)) ==> b == seq![priority_tag(p)] + rest,
{
    if b.len() >= 1 {
        assert(b =~= seq![b[0]] + b.skip(1));
    }
}

/// Bytes that decode to a record are exactly that record's encoding: each
/// record has one encoding.
pub proof fn lemma_encode_decode(b: Seq<u8>)
    requires
        decode_record(b) is Some,
    ensures
        encode_record(decode_record(b)->0) == b,
{
    reveal(decode_record);
    lemma_unparse_u64(b);
    let (_, b1) = parse_u64(b)->0;
    lemma_unparse_text(b1);
    let (_, b2) = parse_text(b1)->0;
    lemma_unparse_text(b2);
    let (_, b3) = parse_text(b2)->0;
    lemma_unparse_tags(b3);
    let (_, b4) = parse_status(b3)->0;
    lemma_unparse_tags(b4);
    let (_, b5) = parse_priority(b4)->0;
    lemma_unparse_opt(b5);
    let (_, b6) = parse_opt(b5)->0;
    lemma_unparse_u64(b6);
    let (_, b7) = parse_u64(b6)->0;
    lemma_unparse_opt(b7);
    let (_, b8) = parse_opt(b7)->0;
    lemma_unparse_text(b8);
    let (owner, b9) = parse_text(b8)->0;
    assert(b9 =~= Seq::<u8>::empty());
    assert(enc_text(owner) + b9 =~= enc_text(owner));
}

/// Relies on `String::from_utf8`: it accepts exactly the valid UTF-8 byte
/// sequences, and the string then holds the characters they encode.
#[verifier::external_body]
fn string_from_utf8(v: Vec<u8>) -> (r: Option<String>)
    ensures
        r is Some <==> valid_utf8(v@),
        r matches Some(s) ==> s@ == decode_utf8(v@),
{
    String::from_utf8(v).ok()
}

fn write_u64(out: &mut Vec<u8>, x: u64)
    ensures
        final(out)@ == old(out)@ + enc_u64(x),
{
    let b = u64_to_le_bytes(x);
    out.extend_from_slice(b.as_slice());
}

fn write_text(out: &mut Vec<u8>, s: &String)
    requires
        encode_utf8(s@).len() <= u32::MAX,
    ensures
        final(out)@ == old(out)@ + enc_text(s@),
{
    let bytes = s.as_str().as_bytes();
    let n = u32_to_le_bytes(bytes.len() as u32);
    out.extend_from_slice(n.as_slice());
    out.extend_from_slice(bytes);
    assert(final(out)@ =~= old(out)@ + enc_text(s@));
}

fn write_opt(out: &mut Vec<u8>, o: Option<u64>)
    ensures
        final(out)@ == old(out)@ + enc_opt(o),
{
    match o {
        None => {
            out.push(0);
            assert(final(out)@ =~= old(out)@ + enc_opt(o));
        },
        Some(x) => {
            out.push(1);
            write_u64(out, x);
            assert(final(out)@ =~= old(out)@ + enc_opt(o));
        },
    }
}

fn status_byte(s: TaskStatus) -> (r: u8)
    ensures
        r == status_tag(s),
{
    match s {
        TaskStatus::Pending => 0,
        TaskStatus::InProgress => 1,
        TaskStatus::Completed => 2,
    }
}

fn priority_byte(p: Priority) -> (r: u8)
    ensures
        r == priority_tag(p),
{
    match p {
        Priority::Low => 0,
        Priority::Medium => 1,
        Priority::High => 2,
        Priority::Urgent => 3,
    }
}

/// Encodes a record; the result never exceeds `MAX_RECORD_SIZE` bytes.
#[verifier::rlimit(40)]
pub fn encode(t: &Todo) -> (r: Vec<u8>)
    requires
        record_fits(t@),
    ensures
        r@ == encode_record(t@),
        r@.len() <= MAX_RECORD_SIZE,
{
    let mut out: Vec<u8> = Vec::new();
    write_u64(&mut out, t.id);
    write_text(&mut out, &t.title);
    write_text(&mut out, &t.description);
    out.push(status_byte(t.status));
    out.push(priority_byte(t.priority));
    write_opt(&mut out, t.due_date);
    write_u64(&mut out, t.created_at);
    write_opt(&mut out, t.updated_at);
    write_text(&mut out, &t.owner);
    proof {
        lemma_auto_spec_u64_to_from_le_bytes();
        lemma_auto_spec_u32_to_from_le_bytes();
    }
    assert(out@ =~= encode_record(t@));
    out
}

fn read_u64(b: &[u8], pos: usize) -> (r: Option<(u64, usize)>)
    requires
        pos <= b@.len(),
    ensures
        match r {
            Some((x, p)) => pos <= p <= b@.len() && parse_u64(b@.skip(pos as int)) == Some(
                (x, b@.skip(p as int)),
            ),
            None => parse_u64(b@.skip(pos as int)) is None,
        },
{
    if b.len() - pos < 8 {
        return None;
    }
    let x = u64_from_le_bytes(slice_subrange(b, pos, pos + 8));
    assert(b@.skip(pos as int).take(8) =~= b@.subrange(pos as int, pos + 8));
    assert(b@.skip(pos as int).skip(8) =~= b@.skip(pos + 8));
    Some((x, pos + 8))
}

fn read_text(b: &[u8], pos: usize) -> (r: Option<(String, usize)>)
    requires
        pos <= b@.len(),
    ensures
        match r {
            Some((s, p)) => pos <= p <= b@.len() && parse_text(b@.skip(pos as int)) == Some(
                (s@, b@.skip(p as int)),
            ),
            None => parse_text(b@.skip(pos as int)) is None,
        },
{
    if b.len() - pos < 4 {
        return None;
    }
    let n = u32_from_le_bytes(slice_subrange(b, pos, pos + 4)) as usize;
    let start = pos + 4;
    let ghost rest = b@.skip(pos as int).skip(4);
    assert(b@.skip(pos as int).take(4) =~= b@.subrange(pos as int, pos + 4));
    assert(rest =~= b@.skip(start as int));
    if b.len() - start < n {
        return None;
    }
    let v = slice_to_vec(slice_subrange(b, start, start + n));
    assert(rest.take(n as int) =~= v@);
    assert(rest.skip(n as int) =~= b@.skip(start + n));
    match string_from_utf8(v) {
        Some(s) => Some((s, start + n)),
        None => None,
    }
}

fn read_opt(b: &[u8], pos: usize) -> (r: Option<(Option<u64>, usize)>)
    requires
        pos <= b@.len(),
    ensures
        match r {
            Some((o, p)) => pos <= p <= b@.len() && parse_opt(b@.skip(pos as int)) == Some(
                (o, b@.skip(p as int)),
            ),
            None => parse_opt(b@.skip(pos as int)) is None,
        },
{
    if pos >= b.len() {
        return None;
    }
    assert(b@.skip(pos as int).skip(1) =~= b@.skip(pos + 1));
    if b[pos] == 0 {
        Some((None, pos + 1))
    } else if b[pos] == 1 {
        match read_u64(b, pos + 1) {
            Some((x, p)) => Some((Some(x), p)),
            None => None,
        }
    } else {
        None
    }
}

fn read_status(b: &[u8], pos: usize) -> (r: Option<(TaskStatus, usize)>)
    requires
        pos <= b@.len(),
    ensures
        match r {
            Some((s, p)) => pos <= p <= b@.len() && parse_status(b@.skip(pos as int)) == Some(
                (s, b@.skip(p as int)),
            ),
            None => parse_status(b@.skip(pos as int)) is None,
        },
{
    if pos >= b.len() {
        return None;
    }
    assert(b@.skip(pos as int).skip(1) =~= b@.skip(pos + 1));
    if b[pos] == 0 {
        Some((TaskStatus::Pending, pos + 1))
    } else if b[pos] == 1 {
        Some((TaskStatus::InProgress, pos + 1))
    } else if b[pos] == 2 {
        Some((TaskStatus::Completed, pos + 1))
    } else {
        None
    }
}

fn read_priority(b: &[u8], pos: usize) -> (r: Option<(Priority, usize)>)
    requires
        pos <= b@.len(),
    ensures
        match r {
            Some((q, p)) => pos <= p <= b@.len() && parse_priority(b@.skip(pos as int)) == Some(
                (q, b@.skip(p as int)),
            ),
            None => parse_priority(b@.skip(pos as int)) is None,
        },
{
    if pos >= b.len() {
        return None;
    }
    assert(b@.skip(pos as int).skip(1) =~= b@.skip(pos + 1));
    if b[pos] == 0 {
        Some((Priority::Low, pos + 1))
    } else if b[pos] == 1 {
        Some((Priority::Medium, pos + 1))
    } else if b[pos] == 2 {
        Some((Priority::High, pos + 1))
    } else if b[pos] == 3 {
        Some((Priority::Urgent, pos + 1))
    } else {
        None
    }
}

/// Decodes a record; `None` exactly when the bytes are not the encoding of
/// a record.
pub fn decode(b: &[u8]) -> (r: Option<Todo>)
    ensures
        match r {
            Some(t) => decode_record(b@) == Some(t@),
            None => decode_record(b@) is None,
        },
{
    reveal(decode_record);
    assert(b@.skip(0) =~= b@);
    let (id, after_id) = match read_u64(b, 0) {
        Some(x) => x,
        None => return None,
    };
    let (title, after_title) = match read_text(b, after_id) {
        Some(x) => x,
        None => return None,
    };
    let (description, after_description) = match read_text(b, after_title) {
        Some(x) => x,
        None => return None,
    };
    let (status, after_status) = match read_status(b, after_description) {
        Some(x) => x,
        None => return None,
    };
    let (priority, after_priority) = match read_priority(b, after_status) {
        Some(x) => x,
        None => return None,
    };
    let (due_date, after_due) = match read_opt(b, after_priority) {
        Some(x) => x,
        None => return None,
    };
    let (created_at, after_created) = match read_u64(b, after_due) {
        Some(x) => x,
        None => return None,
    };
    let (updated_at, after_updated) = match read_opt(b, after_created) {
        Some(x) => x,
        None => return None,
    };
    let (owner, end) = match read_text(b, after_updated) {
        Some(x) => x,
        None => return None,
    };
    if end != b.len() {
        return None;
    }
    Some(
        Todo {
            id,
            title,
            description,
            status,
            priority,
            due_date,
            created_at,
            updated_at,
            owner,
        },
    )
}

} // verus!
