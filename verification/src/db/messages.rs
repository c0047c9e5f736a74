//! The message ledger: an append-only history for each conversation, read in
//! time order, whole or from a given message on.

use vstd::prelude::*;
use crate::db::{
    has_conversation, has_message, has_user, in_time_order, message_by_id, user_by_id, Db, DbError,
};
use crate::host::{current_timestamp, fresh_id};
use crate::models::{Message, MessageRow, Timestamp, User};
use crate::seqs::{lemma_filter_empty, lemma_filter_same, lemma_filter_take_step};
use crate::text::{is_blank, lemma_trimmed_empty_iff_blank, trim, trimmed};

verus! {

/// The place of a message written at `now`: behind every message that is not
/// later, before every message that is.
pub open spec fn is_slot(messages: Seq<MessageRow>, now: Timestamp, at: int) -> bool {
    &&& 0 <= at <= messages.len()
    &&& forall|k: int| 0 <= k < at ==> (#[trigger] messages[k]).created_at <= now
    &&& forall|k: int| at <= k < messages.len() ==> (#[trigger] messages[k]).created_at > now
}

/// `after` is `before` with one message more, the one described, at its place
/// in time order. Every other table is as it was.
pub open spec fn message_added(
    before: Db,
    after: Db,
    id: Seq<char>,
    now: Timestamp,
    conversation_id: Seq<char>,
    sender_id: Seq<char>,
    content: Seq<char>,
) -> bool {
    &&& exists|at: int| #[trigger]
        is_slot(before.messages@, now, at) && {
            let added = after.messages@[at];
            &&& after.messages@ == before.messages@.insert(at, added)
            &&& added.id@ == id
            &&& added.conversation_id@ == conversation_id
            &&& added.sender_id@ == sender_id
            &&& added.content@ == content
            &&& added.created_at == now
        }
    &&& after.users == before.users
    &&& after.listings == before.listings
    &&& after.conversations == before.conversations
    &&& after.offers == before.offers
    &&& after.reads == before.reads
    &&& after.sessions == before.sessions
}

/// What writing a message does: the message is put into the ledger as it is
/// given, unless the conversation or the sender is unknown or the identifier
/// is taken; then nothing changes.
pub open spec fn written(
    before: Db,
    after: Db,
    id: Seq<char>,
    now: Timestamp,
    conversation_id: Seq<char>,
    sender_id: Seq<char>,
    content: Seq<char>,
    outcome: Result<(), DbError>,
) -> bool {
    if !has_conversation(before.conversations@, conversation_id) {
        after == before && outcome == Err::<(), DbError>(DbError::UnknownConversation)
    } else if !has_user(before.users@, sender_id) {
        after == before && outcome == Err::<(), DbError>(DbError::UnknownUser)
    } else if has_message(before.messages@, id) {
        after == before && outcome == Err::<(), DbError>(DbError::DuplicateId)
    } else {
        outcome == Ok::<(), DbError>(()) && message_added(
            before,
            after,
            id,
            now,
            conversation_id,
            sender_id,
            content,
        )
    }
}

/// What appending a message does, given the identifier and the time that the
/// message would get.
///
/// Content that is empty once trimmed is skipped: nothing changes, and the
/// answer is `Ok(false)`. Otherwise the trimmed content is written, unless
/// the conversation or the sender is unknown or the identifier is taken.
pub open spec fn appended(
    before: Db,
    after: Db,
    id: Seq<char>,
    now: Timestamp,
    conversation_id: Seq<char>,
    sender_id: Seq<char>,
    content: Seq<char>,
    outcome: Result<bool, DbError>,
) -> bool {
    if trimmed(content).len() == 0 {
        after == before && outcome == Ok::<bool, DbError>(false)
    } else {
        outcome != Ok::<bool, DbError>(false) && written(
            before,
            after,
            id,
            now,
            conversation_id,
            sender_id,
            trimmed(content),
            match outcome {
                Ok(_) => Ok(()),
                Err(e) => Err(e),
            },
        )
    }
}

/// Where a message written at `now` belongs in time order.
fn slot_for(db: &Db, now: Timestamp) -> (at: usize)
    requires
        db.wf(),
    ensures
        is_slot(db.messages@, now, at as int),
{
    let mut at: usize = db.messages.len();
    while at > 0 && db.messages[at - 1].created_at > now
        invariant
            at <= db.messages@.len(),
            forall|k: int|
                at <= k < db.messages@.len() ==> (#[trigger] db.messages@[k]).created_at > now,
        decreases at,
    {
        at -= 1;
    }
    proof {
        let m = db.messages@;
        assert forall|k: int| 0 <= k < at implies (#[trigger] m[k]).created_at <= now by {
            assert(m[k].created_at <= m[at - 1].created_at);
        }
    }
    at
}

/// Writes a message into the ledger as it is given, at its place in time
/// order.
pub fn write_message(
    db: &mut Db,
    id: String,
    now: Timestamp,
    conversation_id: &str,
    sender_id: &str,
    content: &str,
) -> (outcome: Result<(), DbError>)
    requires
        old(db).wf(),
    ensures
        final(db).wf(),
        written(
            *old(db),
            *final(db),
            id@,
            now,
            conversation_id@,
            sender_id@,
            content@,
            outcome,
        ),
{
    if db.find_conversation(conversation_id).is_none() {
        return Err(DbError::UnknownConversation);
    }
    if db.find_user(sender_id).is_none() {
        return Err(DbError::UnknownUser);
    }
    if db.find_message(id.as_str()).is_some() {
        return Err(DbError::DuplicateId);
    }
    let at = slot_for(db, now);
    let row = MessageRow {
        id,
        conversation_id: conversation_id.to_owned(),
        sender_id: sender_id.to_owned(),
        content: content.to_owned(),
        created_at: now,
    };
    db.messages.insert(at, row);
    proof {
        let before = old(db).messages@;
        let after = db.messages@;
        assert(after == before.insert(at as int, row));
        assert forall|i: int, j: int| 0 <= i < j < after.len() implies (#[trigger] after[i]).id@ != (
        #[trigger] after[j]).id@ by {
            let a = if i < at { i } else { i - 1 };
            let b = if j < at { j } else { j - 1 };
            if i != at && j != at {
                assert(before[a].id@ != before[b].id@);
            } else if i == at {
                assert(before[b].id@ != id@);
            } else {
                assert(before[a].id@ != id@);
            }
        }
        assert forall|i: int, j: int| 0 <= i <= j < after.len() implies (
        #[trigger] after[i]).created_at <= (#[trigger] after[j]).created_at by {
            let a = if i < at { i } else { i - 1 };
            let b = if j < at { j } else { j - 1 };
            if i != at && j != at {
                assert(before[a].created_at <= before[b].created_at);
            } else if i == at && j != at {
                assert(before[b].created_at > now);
            } else if j == at && i != at {
                assert(before[a].created_at <= now);
            }
        }
        assert forall|i: int| 0 <= i < after.len() implies has_conversation(
            db.conversations@,
            (#[trigger] after[i]).conversation_id@,
        ) && has_user(db.users@, after[i].sender_id@) by {
            if i != at {
                let a = if i < at { i } else { i - 1 };
                assert(after[i] == before[a]);
            }
        }
        assert(is_slot(before, now, at as int));
    }
    Ok(())
}

/// Appends a message to a conversation under the given identifier at the
/// given time, trimmed; skips it where nothing is left once it is trimmed.
pub fn append_message(
    db: &mut Db,
    id: String,
    now: Timestamp,
    conversation_id: &str,
    sender_id: &str,
    content: &str,
) -> (outcome: Result<bool, DbError>)
    requires
        old(db).wf(),
    ensures
        final(db).wf(),
        appended(
            *old(db),
            *final(db),
            id@,
            now,
            conversation_id@,
            sender_id@,
            content@,
            outcome,
        ),
{
    let text = trim(content);
    if text.unicode_len() == 0 {
        return Ok(false);
    }
    match write_message(db, id, now, conversation_id, sender_id, text) {
        Ok(()) => Ok(true),
        Err(e) => Err(e),
    }
}

/// What sending a message does, given the identifier and the time that were
/// drawn for it: what appending does, with the identifier handed back where
/// the message was written.
pub open spec fn sent(
    before: Db,
    after: Db,
    id: Seq<char>,
    now: Timestamp,
    conversation_id: Seq<char>,
    sender_id: Seq<char>,
    content: Seq<char>,
    outcome: Result<Option<String>, DbError>,
) -> bool {
    &&& appended(
        before,
        after,
        id,
        now,
        conversation_id,
        sender_id,
        content,
        match outcome {
            Ok(Some(_)) => Ok(true),
            Ok(None) => Ok(false),
            Err(e) => Err(e),
        },
    )
    &&& outcome matches Ok(Some(written)) ==> written@ == id
}

/// Appends a message to a conversation under a new identifier at the current
/// time, trimmed. The answer is the new message's identifier, or `None` where
/// the content was empty once trimmed and nothing was written.
pub fn send_message(db: &mut Db, conversation_id: &str, sender_id: &str, content: &str) -> (outcome:
    Result<Option<String>, DbError>)
    requires
        old(db).wf(),
    ensures
        final(db).wf(),
        exists|id: Seq<char>, now: Timestamp|
            sent(*old(db), *final(db), id, now, conversation_id@, sender_id@, content@, outcome),
{
    let id = fresh_id();
    let now = current_timestamp();
    let written = id.clone();
    let outcome = match append_message(db, id, now, conversation_id, sender_id, content) {
        Ok(true) => Ok(Some(written)),
        Ok(false) => Ok(None),
        Err(e) => Err(e),
    };
    assert(sent(*old(db), *db, written@, now, conversation_id@, sender_id@, content@, outcome));
    outcome
}

/// A message as it is handed out: the row with its sender's display name.
pub open spec fn message_of(users: Seq<User>, row: MessageRow) -> Message {
    Message {
        id: row.id,
        conversation_id: row.conversation_id,
        sender_id: row.sender_id,
        sender_name: user_by_id(users, row.sender_id@).name,
        content: row.content,
        is_offer: false,
        offer_amount: None,
        offer_status: None,
        created_at: row.created_at,
    }
}

/// Rows as they are handed out, in the same order.
pub open spec fn joined(users: Seq<User>, rows: Seq<MessageRow>) -> Seq<Message> {
    rows.map_values(|row: MessageRow| message_of(users, row))
}

/// The test for the messages of a conversation.
pub open spec fn in_thread(conversation_id: Seq<char>) -> spec_fn(MessageRow) -> bool {
    |row: MessageRow| row.conversation_id@ == conversation_id
}

/// The test for the messages written after a point in time.
pub open spec fn later_than(time: Timestamp) -> spec_fn(MessageRow) -> bool {
    |row: MessageRow| row.created_at > time
}

/// The test for the messages of a conversation, or for those of them that were
/// written after a point in time.
pub open spec fn selection(conversation_id: Seq<char>, after: Option<Timestamp>) -> spec_fn(
    MessageRow,
) -> bool {
    |row: MessageRow|
        row.conversation_id@ == conversation_id && (after matches Some(time) ==> row.created_at
            > time)
}

/// The whole history of a conversation, in the ledger's order.
pub open spec fn thread_messages(db: Db, conversation_id: Seq<char>) -> Seq<Message> {
    joined(db.users@, db.messages@.filter(in_thread(conversation_id)))
}

/// The messages of a conversation that are strictly later than the message
/// with the given identifier, in the ledger's order; none where no message has
/// that identifier.
pub open spec fn messages_after(db: Db, conversation_id: Seq<char>, after_id: Seq<char>) -> Seq<
    Message,
> {
    if has_message(db.messages@, after_id) {
        joined(
            db.users@,
            db.messages@.filter(
                selection(
                    conversation_id,
                    Some(message_by_id(db.messages@, after_id).created_at),
                ),
            ),
        )
    } else {
        Seq::empty()
    }
}

/// The messages of a conversation, or those of them after a point in time,
/// each with its sender's name.
fn select(db: &Db, conversation_id: &str, after: Option<Timestamp>) -> (found: Vec<Message>)
    requires
        db.wf(),
    ensures
        found@ == joined(db.users@, db.messages@.filter(selection(conversation_id@, after))),
{
    let key = conversation_id.to_owned();
    let ghost keep = selection(conversation_id@, after);
    let mut found: Vec<Message> = Vec::new();
    let mut i: usize = 0;
    proof {
        lemma_filter_empty(db.messages@.take(0), keep);
        assert(found@ == joined(db.users@, db.messages@.take(0).filter(keep)));
    }
    while i < db.messages.len()
        invariant
            db.wf(),
            i <= db.messages@.len(),
            key@ == conversation_id@,
            keep == selection(conversation_id@, after),
            found@ == joined(db.users@, db.messages@.take(i as int).filter(keep)),
        decreases db.messages@.len() - i,
    {
        let row = &db.messages[i];
        let wanted = row.conversation_id == key && match after {
            Some(time) => row.created_at > time,
            None => true,
        };
        proof {
            lemma_filter_take_step(db.messages@, keep, i as int);
        }
        if wanted {
            let sender = db.user(row.sender_id.as_str());
            let message = Message {
                id: row.id.clone(),
                conversation_id: row.conversation_id.clone(),
                sender_id: row.sender_id.clone(),
                sender_name: sender.name.clone(),
                content: row.content.clone(),
                is_offer: false,
                offer_amount: None,
                offer_status: None,
                created_at: row.created_at,
            };
            assert(message == message_of(db.users@, *row));
            found.push(message);
            assert(found@ == joined(db.users@, db.messages@.take(i + 1).filter(keep)));
        }
        i += 1;
    }
    proof {
        assert(db.messages@.take(i as int) == db.messages@);
    }
    found
}

/// The whole history of a conversation, oldest message first.
pub fn get_messages(db: &Db, conversation_id: &str) -> (history: Vec<Message>)
    requires
        db.wf(),
    ensures
        history@ == thread_messages(*db, conversation_id@),
{
    proof {
        lemma_filter_same(
            db.messages@,
            selection(conversation_id@, None),
            in_thread(conversation_id@),
        );
    }
    select(db, conversation_id, None)
}

/// The messages of a conversation that are strictly later than the message
/// with the given identifier, oldest first. Where no message has that
/// identifier, there are none.
pub fn get_messages_after(db: &Db, conversation_id: &str, after_id: &str) -> (news: Vec<Message>)
    requires
        db.wf(),
    ensures
        news@ == messages_after(*db, conversation_id@, after_id@),
{
    match db.find_message(after_id) {
        Some(_) => {
            let time = db.message(after_id).created_at;
            select(db, conversation_id, Some(time))
        },
        None => Vec::new(),
    }
}

/// Picking messages out of a ledger in time order leaves them in time order.
pub proof fn lemma_filter_in_time_order(rows: Seq<MessageRow>, keep: spec_fn(MessageRow) -> bool)
    requires
        in_time_order(rows),
    ensures
        in_time_order(rows.filter(keep)),
    decreases rows.len(),
{
    reveal(Seq::filter);
    if rows.len() > 0 {
        let rest = rows.drop_last();
        assert(in_time_order(rest)) by {
            assert forall|i: int, j: int| 0 <= i <= j < rest.len() implies (
            #[trigger] rest[i]).created_at <= (#[trigger] rest[j]).created_at by {
                assert(rows[i].created_at <= rows[j].created_at);
            }
        }
        lemma_filter_in_time_order(rest, keep);
        let kept = rest.filter(keep);
        if keep(rows.last()) {
            let all = kept.push(rows.last());
            assert forall|i: int, j: int| 0 <= i <= j < all.len() implies (
            #[trigger] all[i]).created_at <= (#[trigger] all[j]).created_at by {
                if j < kept.len() {
                    assert(kept[i].created_at <= kept[j].created_at);
                } else if i < kept.len() {
                    assert(kept.contains(kept[i]));
                    rest.lemma_filter_contains_rev(keep, kept[i]);
                    let k = choose|k: int| 0 <= k < rest.len() && rest[k] == kept[i];
                    assert(rows[k].created_at <= rows[rows.len() - 1].created_at);
                }
            }
        }
    }
}

/// In a ledger in time order the messages later than a point in time are its
/// end: everything before them is not later, and nothing is left out.
pub proof fn lemma_later_is_suffix(rows: Seq<MessageRow>, time: Timestamp)
    requires
        in_time_order(rows),
    ensures
        rows.filter(later_than(time)).len() <= rows.len(),
        rows.filter(later_than(time)) == rows.skip(
            rows.len() - rows.filter(later_than(time)).len(),
        ),
        forall|i: int|
            0 <= i < rows.len() - rows.filter(later_than(time)).len() ==> (
            #[trigger] rows[i]).created_at <= time,
        forall|i: int|
            rows.len() - rows.filter(later_than(time)).len() <= i < rows.len() ==> (
            #[trigger] rows[i]).created_at > time,
    decreases rows.len(),
{
    reveal(Seq::filter);
    let keep = later_than(time);
    if rows.len() > 0 {
        let rest = rows.drop_last();
        assert(in_time_order(rest)) by {
            assert forall|i: int, j: int| 0 <= i <= j < rest.len() implies (
            #[trigger] rest[i]).created_at <= (#[trigger] rest[j]).created_at by {
                assert(rows[i].created_at <= rows[j].created_at);
            }
        }
        lemma_later_is_suffix(rest, time);
        let kept = rest.filter(keep);
        let cut = rest.len() - kept.len();
        if keep(rows.last()) {
            assert(kept.push(rows.last()) == rows.skip(cut));
            assert forall|i: int| 0 <= i < cut implies (#[trigger] rows[i]).created_at <= time by {
                assert(rows[i] == rest[i]);
            }
            assert forall|i: int| cut <= i < rows.len() implies (#[trigger] rows[i]).created_at
                > time by {
                if i < rest.len() {
                    assert(rows[i] == rest[i]);
                }
            }
        } else {
            if kept.len() > 0 {
                assert(rest[cut].created_at > time);
                assert(rows[cut].created_at <= rows[rows.len() - 1].created_at);
            }
            assert(kept == rows.skip(rows.len() as int));
            assert forall|i: int| 0 <= i < rows.len() implies (#[trigger] rows[i]).created_at
                <= time by {
                assert(rows[i].created_at <= rows[rows.len() - 1].created_at);
            }
        }
    } else {
        assert(rows.filter(keep) == rows.skip(0));
    }
}

/// The history of a conversation is in time order: no message is earlier than
/// the one before it.
pub proof fn lemma_history_in_time_order(db: Db, conversation_id: Seq<char>)
    requires
        db.wf(),
    ensures
        forall|i: int, j: int|
            0 <= i <= j < thread_messages(db, conversation_id).len() ==> (
            #[trigger] thread_messages(db, conversation_id)[i]).created_at <= (
            #[trigger] thread_messages(db, conversation_id)[j]).created_at,
{
    lemma_filter_in_time_order(db.messages@, in_thread(conversation_id));
    let rows = db.messages@.filter(in_thread(conversation_id));
    assert forall|i: int, j: int|
        0 <= i <= j < thread_messages(db, conversation_id).len() implies (
    #[trigger] thread_messages(db, conversation_id)[i]).created_at <= (#[trigger] thread_messages(
        db,
        conversation_id,
    )[j]).created_at by {
        assert(rows[i].created_at <= rows[j].created_at);
    }
}

/// The messages after a given message are exactly the end of the
/// conversation's history that is strictly later than that message: the
/// history is cut at one point, every message before the cut is not later
/// than the given one, and every message from the cut on is.
pub proof fn lemma_messages_after_is_suffix(
    db: Db,
    conversation_id: Seq<char>,
    after_id: Seq<char>,
)
    requires
        db.wf(),
        has_message(db.messages@, after_id),
    ensures
        ({
            let history = thread_messages(db, conversation_id);
            let news = messages_after(db, conversation_id, after_id);
            let time = message_by_id(db.messages@, after_id).created_at;
            let cut = history.len() - news.len();
            &&& 0 <= cut <= history.len()
            &&& news == history.skip(cut)
            &&& forall|i: int| 0 <= i < cut ==> (#[trigger] history[i]).created_at <= time
            &&& forall|i: int|
                cut <= i < history.len() ==> (#[trigger] history[i]).created_at > time
        }),
{
    let time = message_by_id(db.messages@, after_id).created_at;
    let thread = in_thread(conversation_id);
    let later = later_than(time);
    let rows = db.messages@.filter(thread);
    lemma_filter_in_time_order(db.messages@, thread);
    lemma_later_is_suffix(rows, time);
    crate::seqs::lemma_filter_both(db.messages@, thread, later);
    lemma_filter_same(
        db.messages@,
        selection(conversation_id, Some(time)),
        |row: MessageRow| thread(row) && later(row),
    );
    let kept = rows.filter(later);
    let cut = rows.len() - kept.len();
    let history = thread_messages(db, conversation_id);
    assert(joined(db.users@, rows.skip(cut)) == history.skip(cut));
    assert forall|i: int| 0 <= i < cut implies (#[trigger] history[i]).created_at <= time by {
        assert(rows[i].created_at <= time);
    }
    assert forall|i: int| cut <= i < history.len() implies (#[trigger] history[i]).created_at
        > time by {
        assert(rows[i].created_at > time);
    }
}

/// Appending a message that is empty or all whitespace is answered with
/// `Ok(false)` and changes nothing: every conversation has the history, and so
/// the number of messages, that it had.
pub proof fn lemma_blank_message_is_skipped(
    before: Db,
    after: Db,
    id: Seq<char>,
    now: Timestamp,
    conversation_id: Seq<char>,
    sender_id: Seq<char>,
    content: Seq<char>,
    outcome: Result<bool, DbError>,
)
    requires
        appended(before, after, id, now, conversation_id, sender_id, content, outcome),
        is_blank(content),
    ensures
        outcome == Ok::<bool, DbError>(false),
        after == before,
        forall|any: Seq<char>|
            (#[trigger] thread_messages(after, any)).len() == thread_messages(before, any).len(),
{
    lemma_trimmed_empty_iff_blank(content);
}

} // verus!
