//! Unread accounting: one read marker for each user and conversation, and the
//! count of the messages from others that lie behind it.

use vstd::prelude::*;
use crate::db::{
    conversation_by_id, has_conversation, has_read_marker, has_user, Db, DbError,
};
use crate::db::messages::{appended, message_added};
use crate::host::current_timestamp;
use crate::models::{ConversationRow, MessageRow, ReadMarker, Timestamp};
use crate::seqs::{lemma_filter_empty, lemma_filter_insert, lemma_filter_same, lemma_filter_take_step};

verus! {

/// The read markers as a map: for a user and a conversation, the time up to
/// which the user has read it. A pair without a marker was never read.
pub open spec fn read_markers(reads: Seq<ReadMarker>) -> Map<(Seq<char>, Seq<char>), Timestamp> {
    Map::new(
        |key: (Seq<char>, Seq<char>)| has_read_marker(reads, key.0, key.1),
        |key: (Seq<char>, Seq<char>)|
            reads[choose|i: int|
                0 <= i < reads.len() && (#[trigger] reads[i]).user_id@ == key.0
                    && reads[i].conversation_id@ == key.1].last_read_at,
    )
}

/// The time up to which a user has read a conversation, if ever.
pub open spec fn read_until(
    reads: Seq<ReadMarker>,
    user_id: Seq<char>,
    conversation_id: Seq<char>,
) -> Option<Timestamp> {
    if read_markers(reads).dom().contains((user_id, conversation_id)) {
        Some(read_markers(reads)[(user_id, conversation_id)])
    } else {
        None
    }
}

/// The message is unread by a user who has read up to `until`: someone else
/// sent it, and it is strictly later than the marker, if there is one.
pub open spec fn is_unread(row: MessageRow, user_id: Seq<char>, until: Option<Timestamp>) -> bool {
    row.sender_id@ != user_id && (until matches Some(time) ==> row.created_at > time)
}

/// The test for the messages of one conversation that a user has not read.
pub open spec fn unread_in_thread(
    reads: Seq<ReadMarker>,
    user_id: Seq<char>,
    conversation_id: Seq<char>,
) -> spec_fn(MessageRow) -> bool {
    |row: MessageRow|
        row.conversation_id@ == conversation_id && is_unread(
            row,
            user_id,
            read_until(reads, user_id, conversation_id),
        )
}

/// How many messages of one conversation a user has not read.
pub open spec fn unread_in(db: Db, user_id: Seq<char>, conversation_id: Seq<char>) -> nat {
    db.messages@.filter(unread_in_thread(db.reads@, user_id, conversation_id)).len()
}

/// The user is the buyer or the seller of the conversation.
pub open spec fn is_party(conversation: ConversationRow, user_id: Seq<char>) -> bool {
    conversation.buyer_id@ == user_id || conversation.seller_id@ == user_id
}

/// The test for the messages that a user has not read, in any conversation
/// that the user is a party to.
pub open spec fn unread_anywhere(db: Db, user_id: Seq<char>) -> spec_fn(MessageRow) -> bool {
    |row: MessageRow|
        is_party(conversation_by_id(db.conversations@, row.conversation_id@), user_id)
            && is_unread(row, user_id, read_until(db.reads@, user_id, row.conversation_id@))
}

/// How many messages a user has not read, over all conversations.
pub open spec fn unread_total(db: Db, user_id: Seq<char>) -> nat {
    db.messages@.filter(unread_anywhere(db, user_id)).len()
}

/// Markers are unique for a user and a conversation, so the marker kept at a
/// place is the one that the map holds for its pair.
pub proof fn lemma_read_marker_at(reads: Seq<ReadMarker>, i: int)
    requires
        forall|a: int, b: int|
            0 <= a < b < reads.len() ==> !((#[trigger] reads[a]).user_id@ == (
            #[trigger] reads[b]).user_id@ && reads[a].conversation_id@
                == reads[b].conversation_id@),
        0 <= i < reads.len(),
    ensures
        read_until(reads, reads[i].user_id@, reads[i].conversation_id@) == Some(
            reads[i].last_read_at,
        ),
{
    let k = choose|k: int|
        0 <= k < reads.len() && (#[trigger] reads[k]).user_id@ == reads[i].user_id@
            && reads[k].conversation_id@ == reads[i].conversation_id@;
    if k < i {
        assert(!(reads[k].user_id@ == reads[i].user_id@ && reads[k].conversation_id@
            == reads[i].conversation_id@));
    } else if i < k {
        assert(!(reads[i].user_id@ == reads[k].user_id@ && reads[i].conversation_id@
            == reads[k].conversation_id@));
    }
}

/// The time up to which a user has read a conversation, if ever.
pub fn last_read(db: &Db, user_id: &str, conversation_id: &str) -> (until: Option<Timestamp>)
    requires
        db.wf(),
    ensures
        until == read_until(db.reads@, user_id@, conversation_id@),
{
    match db.find_read_marker(user_id, conversation_id) {
        Some(i) => {
            proof {
                lemma_read_marker_at(db.reads@, i as int);
            }
            Some(db.reads[i].last_read_at)
        },
        None => None,
    }
}

/// What marking a conversation as read at `now` does: the user's marker for
/// the conversation stands at `now`, whether or not there was one; no other
/// marker and no other table changes. Nothing changes where the user or the
/// conversation is unknown.
pub open spec fn marked_read(
    before: Db,
    after: Db,
    now: Timestamp,
    user_id: Seq<char>,
    conversation_id: Seq<char>,
    outcome: Result<(), DbError>,
) -> bool {
    if !has_user(before.users@, user_id) {
        after == before && outcome == Err::<(), DbError>(DbError::UnknownUser)
    } else if !has_conversation(before.conversations@, conversation_id) {
        after == before && outcome == Err::<(), DbError>(DbError::UnknownConversation)
    } else {
        &&& outcome == Ok::<(), DbError>(())
        &&& read_markers(after.reads@) == read_markers(before.reads@).insert(
            (user_id, conversation_id),
            now,
        )
        &&& after.users == before.users
        &&& after.listings == before.listings
        &&& after.conversations == before.conversations
        &&& after.messages == before.messages
        &&& after.offers == before.offers
        &&& after.sessions == before.sessions
    }
}

/// Markers that agree place by place on user and conversation, but for one
/// place that now holds `now` for the given pair, make the map of the first
/// with that pair set to `now`.
proof fn lemma_markers_after_write(
    before: Seq<ReadMarker>,
    after: Seq<ReadMarker>,
    at: int,
    now: Timestamp,
)
    requires
        forall|a: int, b: int|
            0 <= a < b < before.len() ==> !((#[trigger] before[a]).user_id@ == (
            #[trigger] before[b]).user_id@ && before[a].conversation_id@
                == before[b].conversation_id@),
        forall|a: int, b: int|
            0 <= a < b < after.len() ==> !((#[trigger] after[a]).user_id@ == (
            #[trigger] after[b]).user_id@ && after[a].conversation_id@
                == after[b].conversation_id@),
        0 <= at < after.len(),
        after[at].last_read_at == now,
        before.len() == after.len() || (before.len() + 1 == after.len() && at == before.len()),
        forall|i: int| 0 <= i < before.len() && i != at ==> (#[trigger] after[i]) == before[i],
        at < before.len() ==> before[at].user_id@ == after[at].user_id@
            && before[at].conversation_id@ == after[at].conversation_id@,
    ensures
        read_markers(after) == read_markers(before).insert(
            (after[at].user_id@, after[at].conversation_id@),
            now,
        ),
{
    let key = (after[at].user_id@, after[at].conversation_id@);
    let left = read_markers(after);
    let right = read_markers(before).insert(key, now);
    lemma_read_marker_at(after, at);
    assert forall|k: (Seq<char>, Seq<char>)| left.dom().contains(k) <==> right.dom().contains(
        k,
    ) by {
        if left.dom().contains(k) && k != key {
            let i = choose|i: int|
                0 <= i < after.len() && (#[trigger] after[i]).user_id@ == k.0
                    && after[i].conversation_id@ == k.1;
            assert(before[i].user_id@ == k.0 && before[i].conversation_id@ == k.1);
        }
        if right.dom().contains(k) && k != key {
            let i = choose|i: int|
                0 <= i < before.len() && (#[trigger] before[i]).user_id@ == k.0
                    && before[i].conversation_id@ == k.1;
            assert(after[i].user_id@ == k.0 && after[i].conversation_id@ == k.1);
        }
    }
    assert forall|k: (Seq<char>, Seq<char>)| left.dom().contains(k) implies left[k]
        == right[k] by {
        if k != key {
            let i = choose|i: int|
                0 <= i < before.len() && (#[trigger] before[i]).user_id@ == k.0
                    && before[i].conversation_id@ == k.1;
            assert(after[i] == before[i]);
            lemma_read_marker_at(before, i);
            lemma_read_marker_at(after, i);
        }
    }
    assert(left =~= right);
}

/// Records that a user has read a conversation up to `now`.
pub fn mark_conversation_read_at(
    db: &mut Db,
    now: Timestamp,
    user_id: &str,
    conversation_id: &str,
) -> (outcome: Result<(), DbError>)
    requires
        old(db).wf(),
    ensures
        final(db).wf(),
        marked_read(*old(db), *final(db), now, user_id@, conversation_id@, outcome),
{
    if db.find_user(user_id).is_none() {
        return Err(DbError::UnknownUser);
    }
    if db.find_conversation(conversation_id).is_none() {
        return Err(DbError::UnknownConversation);
    }
    let marker = ReadMarker {
        user_id: user_id.to_owned(),
        conversation_id: conversation_id.to_owned(),
        last_read_at: now,
    };
    match db.find_read_marker(user_id, conversation_id) {
        Some(i) => {
            db.reads.set(i, marker);
            proof {
                let before = old(db).reads@;
                let after = db.reads@;
                assert forall|a: int, b: int| 0 <= a < b < after.len() implies !((
                #[trigger] after[a]).user_id@ == (#[trigger] after[b]).user_id@
                    && after[a].conversation_id@ == after[b].conversation_id@) by {
                    assert(!(before[a].user_id@ == before[b].user_id@ && before[a].conversation_id@
                        == before[b].conversation_id@));
                }
                lemma_markers_after_write(before, after, i as int, now);
            }
        },
        None => {
            db.reads.push(marker);
            proof {
                let before = old(db).reads@;
                let after = db.reads@;
                assert forall|a: int, b: int| 0 <= a < b < after.len() implies !((
                #[trigger] after[a]).user_id@ == (#[trigger] after[b]).user_id@
                    && after[a].conversation_id@ == after[b].conversation_id@) by {
                    if b < before.len() {
                        assert(!(before[a].user_id@ == before[b].user_id@
                            && before[a].conversation_id@ == before[b].conversation_id@));
                    }
                }
                lemma_markers_after_write(before, after, before.len() as int, now);
            }
        },
    }
    Ok(())
}

/// Records that a user has read a conversation up to the current time.
pub fn mark_conversation_read(db: &mut Db, user_id: &str, conversation_id: &str) -> (outcome:
    Result<(), DbError>)
    requires
        old(db).wf(),
    ensures
        final(db).wf(),
        exists|now: Timestamp|
            marked_read(*old(db), *final(db), now, user_id@, conversation_id@, outcome),
{
    let now = current_timestamp();
    let outcome = mark_conversation_read_at(db, now, user_id, conversation_id);
    assert(marked_read(*old(db), *db, now, user_id@, conversation_id@, outcome));
    outcome
}

/// How many messages of one conversation a user has not read.
pub fn count_unread_in(db: &Db, user_id: &str, conversation_id: &str) -> (count: usize)
    requires
        db.wf(),
    ensures
        count == unread_in(*db, user_id@, conversation_id@),
{
    let user = user_id.to_owned();
    let thread = conversation_id.to_owned();
    let until = last_read(db, user_id, conversation_id);
    let ghost keep = unread_in_thread(db.reads@, user_id@, conversation_id@);
    let mut count: usize = 0;
    let mut i: usize = 0;
    proof {
        lemma_filter_empty(db.messages@.take(0), keep);
    }
    while i < db.messages.len()
        invariant
            i <= db.messages@.len(),
            user@ == user_id@,
            thread@ == conversation_id@,
            until == read_until(db.reads@, user_id@, conversation_id@),
            keep == unread_in_thread(db.reads@, user_id@, conversation_id@),
            count == db.messages@.take(i as int).filter(keep).len(),
            count <= i,
        decreases db.messages@.len() - i,
    {
        let row = &db.messages[i];
        let unread = row.conversation_id == thread && !(row.sender_id == user) && match until {
            Some(time) => row.created_at > time,
            None => true,
        };
        proof {
            lemma_filter_take_step(db.messages@, keep, i as int);
        }
        if unread {
            count += 1;
        }
        i += 1;
    }
    proof {
        assert(db.messages@.take(i as int) == db.messages@);
    }
    count
}

/// How many messages a user has not read, over all the conversations that the
/// user is a party to.
pub fn get_unread_count(db: &Db, user_id: &str) -> (count: u64)
    requires
        db.wf(),
    ensures
        count == unread_total(*db, user_id@),
{
    let user = user_id.to_owned();
    let ghost keep = unread_anywhere(*db, user_id@);
    let mut count: usize = 0;
    let mut i: usize = 0;
    proof {
        lemma_filter_empty(db.messages@.take(0), keep);
    }
    while i < db.messages.len()
        invariant
            db.wf(),
            i <= db.messages@.len(),
            user@ == user_id@,
            keep == unread_anywhere(*db, user_id@),
            count == db.messages@.take(i as int).filter(keep).len(),
            count <= i,
        decreases db.messages@.len() - i,
    {
        let row = &db.messages[i];
        let thread = db.conversation(row.conversation_id.as_str());
        let party = thread.buyer_id == user || thread.seller_id == user;
        let unread = party && !(row.sender_id == user) && match last_read(
            db,
            user_id,
            row.conversation_id.as_str(),
        ) {
            Some(time) => row.created_at > time,
            None => true,
        };
        proof {
            lemma_filter_take_step(db.messages@, keep, i as int);
        }
        if unread {
            count += 1;
        }
        i += 1;
    }
    proof {
        assert(db.messages@.take(i as int) == db.messages@);
    }
    count as u64
}

/// The test for the messages of a conversation that someone else sent.
pub open spec fn from_others(user_id: Seq<char>, conversation_id: Seq<char>) -> spec_fn(
    MessageRow,
) -> bool {
    |row: MessageRow| row.conversation_id@ == conversation_id && row.sender_id@ != user_id
}

/// For a user who never read a conversation, every message in it that someone
/// else sent is unread.
pub proof fn lemma_unread_without_marker(db: Db, user_id: Seq<char>, conversation_id: Seq<char>)
    requires
        read_until(db.reads@, user_id, conversation_id) is None,
    ensures
        unread_in(db, user_id, conversation_id) == db.messages@.filter(
            from_others(user_id, conversation_id),
        ).len(),
{
    lemma_filter_same(
        db.messages@,
        unread_in_thread(db.reads@, user_id, conversation_id),
        from_others(user_id, conversation_id),
    );
}

/// Once a user has marked a conversation as read at a time that none of its
/// messages is later than, nothing in it is unread.
pub proof fn lemma_unread_after_mark_read(
    before: Db,
    after: Db,
    now: Timestamp,
    user_id: Seq<char>,
    conversation_id: Seq<char>,
)
    requires
        marked_read(before, after, now, user_id, conversation_id, Ok(())),
        forall|i: int|
            0 <= i < before.messages@.len() && (#[trigger] before.messages@[i]).conversation_id@
                == conversation_id ==> before.messages@[i].created_at <= now,
    ensures
        unread_in(after, user_id, conversation_id) == 0,
{
    assert(read_markers(after.reads@).dom().contains((user_id, conversation_id)));
    assert(read_until(after.reads@, user_id, conversation_id) == Some(now));
    crate::seqs::lemma_filter_none(
        after.messages@,
        unread_in_thread(after.reads@, user_id, conversation_id),
    );
}

/// Marking one conversation as read leaves a user's unread count in every
/// other conversation, and every other user's counts, as they were.
pub proof fn lemma_mark_read_is_local(
    before: Db,
    after: Db,
    now: Timestamp,
    user_id: Seq<char>,
    conversation_id: Seq<char>,
    other_user: Seq<char>,
    other_conversation: Seq<char>,
)
    requires
        marked_read(before, after, now, user_id, conversation_id, Ok(())),
        other_user != user_id || other_conversation != conversation_id,
    ensures
        unread_in(after, other_user, other_conversation) == unread_in(
            before,
            other_user,
            other_conversation,
        ),
{
    assert((other_user, other_conversation) != (user_id, conversation_id));
    assert(read_until(after.reads@, other_user, other_conversation) == read_until(
        before.reads@,
        other_user,
        other_conversation,
    ));
    lemma_filter_same(
        before.messages@,
        unread_in_thread(after.reads@, other_user, other_conversation),
        unread_in_thread(before.reads@, other_user, other_conversation),
    );
}

/// A message that is written raises a user's unread count in a conversation
/// by exactly one where it belongs to that conversation, someone else sent it
/// and it is later than the user's marker, and leaves the count as it was
/// otherwise. A message that is skipped or refused leaves every count as it
/// was.
pub proof fn lemma_unread_after_message(
    before: Db,
    after: Db,
    id: Seq<char>,
    now: Timestamp,
    conversation_id: Seq<char>,
    sender_id: Seq<char>,
    content: Seq<char>,
    outcome: Result<bool, DbError>,
    user_id: Seq<char>,
    watched: Seq<char>,
)
    requires
        appended(before, after, id, now, conversation_id, sender_id, content, outcome),
    ensures
        unread_in(after, user_id, watched) == unread_in(before, user_id, watched) + (if outcome
            == Ok::<bool, DbError>(true) && conversation_id == watched && sender_id != user_id && (
        read_until(before.reads@, user_id, watched) matches Some(time) ==> now > time) {
            1nat
        } else {
            0nat
        }),
{
    if outcome == Ok::<bool, DbError>(true) {
        let text = crate::text::trimmed(content);
        assert(message_added(before, after, id, now, conversation_id, sender_id, text));
        let at = choose|at: int| #[trigger]
            crate::db::messages::is_slot(before.messages@, now, at) && {
                let added = after.messages@[at];
                &&& after.messages@ == before.messages@.insert(at, added)
                &&& added.id@ == id
                &&& added.conversation_id@ == conversation_id
                &&& added.sender_id@ == sender_id
                &&& added.content@ == text
                &&& added.created_at == now
            };
        lemma_filter_insert(
            before.messages@,
            unread_in_thread(before.reads@, user_id, watched),
            at,
            after.messages@[at],
        );
    } else if crate::text::trimmed(content).len() > 0 {
        let plain: Result<(), DbError> = match outcome {
            Ok(_) => Ok(()),
            Err(e) => Err(e),
        };
        assert(crate::db::messages::written(
            before,
            after,
            id,
            now,
            conversation_id,
            sender_id,
            crate::text::trimmed(content),
            plain,
        ));
        if outcome is Ok {
            assert(outcome == Ok::<bool, DbError>(outcome->Ok_0));
        }
        assert(after == before);
    }
}

/// How many of some messages a user has not read, summed over those of some
/// conversations that the user is a party to.
pub open spec fn unread_over(
    messages: Seq<MessageRow>,
    reads: Seq<ReadMarker>,
    user_id: Seq<char>,
    conversations: Seq<ConversationRow>,
) -> nat
    decreases conversations.len(),
{
    if conversations.len() == 0 {
        0
    } else {
        let last = conversations.last();
        unread_over(messages, reads, user_id, conversations.drop_last()) + if is_party(
            last,
            user_id,
        ) {
            messages.filter(unread_in_thread(reads, user_id, last.id@)).len()
        } else {
            0
        }
    }
}

/// In how many of some conversations that the user is a party to a message
/// counts as unread.
pub open spec fn counted_in(
    message: MessageRow,
    reads: Seq<ReadMarker>,
    user_id: Seq<char>,
    conversations: Seq<ConversationRow>,
) -> nat
    decreases conversations.len(),
{
    if conversations.len() == 0 {
        0
    } else {
        let last = conversations.last();
        counted_in(message, reads, user_id, conversations.drop_last()) + if is_party(
            last,
            user_id,
        ) && unread_in_thread(reads, user_id, last.id@)(message) {
            1nat
        } else {
            0nat
        }
    }
}

/// One message more adds to the sum over conversations the number of
/// conversations in which it counts.
proof fn lemma_unread_over_step(
    messages: Seq<MessageRow>,
    message: MessageRow,
    reads: Seq<ReadMarker>,
    user_id: Seq<char>,
    conversations: Seq<ConversationRow>,
)
    ensures
        unread_over(messages.push(message), reads, user_id, conversations) == unread_over(
            messages,
            reads,
            user_id,
            conversations,
        ) + counted_in(message, reads, user_id, conversations),
    decreases conversations.len(),
{
    if conversations.len() > 0 {
        let last = conversations.last();
        lemma_unread_over_step(messages, message, reads, user_id, conversations.drop_last());
        let keep = unread_in_thread(reads, user_id, last.id@);
        assert(messages.push(message).filter(keep).len() == messages.filter(keep).len() + if keep(
            message,
        ) {
            1int
        } else {
            0int
        }) by {
            reveal(Seq::filter);
            assert(messages.push(message).drop_last() == messages);
        }
    }
}

/// A message counts in no conversation with another identifier than its
/// own.
proof fn lemma_counted_elsewhere(
    message: MessageRow,
    reads: Seq<ReadMarker>,
    user_id: Seq<char>,
    conversations: Seq<ConversationRow>,
)
    requires
        forall|k: int|
            0 <= k < conversations.len() ==> (#[trigger] conversations[k]).id@
                != message.conversation_id@,
    ensures
        counted_in(message, reads, user_id, conversations) == 0,
    decreases conversations.len(),
{
    if conversations.len() > 0 {
        let rest = conversations.drop_last();
        assert forall|k: int| 0 <= k < rest.len() implies (#[trigger] rest[k]).id@
            != message.conversation_id@ by {
            assert(rest[k] == conversations[k]);
        }
        lemma_counted_elsewhere(message, reads, user_id, rest);
        assert(conversations.last() == conversations[conversations.len() - 1]);
    }
}

/// A message counts once where the user is a party to its conversation and
/// has not read it, and not at all otherwise.
proof fn lemma_counted_once(
    message: MessageRow,
    reads: Seq<ReadMarker>,
    user_id: Seq<char>,
    conversations: Seq<ConversationRow>,
    at: int,
)
    requires
        forall|a: int, b: int|
            0 <= a < b < conversations.len() ==> (#[trigger] conversations[a]).id@ != (
            #[trigger] conversations[b]).id@,
        0 <= at < conversations.len(),
        conversations[at].id@ == message.conversation_id@,
    ensures
        counted_in(message, reads, user_id, conversations) == if is_party(
            conversations[at],
            user_id,
        ) && is_unread(message, user_id, read_until(reads, user_id, message.conversation_id@)) {
            1nat
        } else {
            0nat
        },
    decreases conversations.len(),
{
    let rest = conversations.drop_last();
    let last = conversations.len() - 1;
    if at == last {
        assert forall|k: int| 0 <= k < rest.len() implies (#[trigger] rest[k]).id@
            != message.conversation_id@ by {
            assert(rest[k] == conversations[k]);
            assert(conversations[k].id@ != conversations[last].id@);
        }
        lemma_counted_elsewhere(message, reads, user_id, rest);
    } else {
        assert forall|a: int, b: int| 0 <= a < b < rest.len() implies (#[trigger] rest[a]).id@ != (
        #[trigger] rest[b]).id@ by {
            assert(conversations[a].id@ != conversations[b].id@);
        }
        assert(rest[at] == conversations[at]);
        lemma_counted_once(message, reads, user_id, rest, at);
        assert(conversations[at].id@ != conversations[last].id@);
    }
}

/// The sum over conversations counts what the test for all conversations
/// counts, for any run of messages whose conversations exist.
proof fn lemma_unread_sum(db: Db, user_id: Seq<char>, messages: Seq<MessageRow>)
    requires
        forall|a: int, b: int|
            0 <= a < b < db.conversations@.len() ==> (#[trigger] db.conversations@[a]).id@ != (
            #[trigger] db.conversations@[b]).id@,
        forall|i: int|
            0 <= i < messages.len() ==> has_conversation(
                db.conversations@,
                (#[trigger] messages[i]).conversation_id@,
            ),
    ensures
        messages.filter(unread_anywhere(db, user_id)).len() == unread_over(
            messages,
            db.reads@,
            user_id,
            db.conversations@,
        ),
    decreases messages.len(),
{
    reveal(Seq::filter);
    if messages.len() == 0 {
        lemma_unread_over_nothing(messages, db.reads@, user_id, db.conversations@);
    } else {
        let rest = messages.drop_last();
        let last = messages.last();
        assert forall|i: int| 0 <= i < rest.len() implies has_conversation(
            db.conversations@,
            (#[trigger] rest[i]).conversation_id@,
        ) by {
            assert(rest[i] == messages[i]);
        }
        lemma_unread_sum(db, user_id, rest);
        assert(rest.push(last) == messages);
        lemma_unread_over_step(rest, last, db.reads@, user_id, db.conversations@);
        assert(has_conversation(db.conversations@, messages[messages.len() - 1].conversation_id@));
        let at = choose|at: int|
            0 <= at < db.conversations@.len() && (#[trigger] db.conversations@[at]).id@
                == last.conversation_id@;
        crate::db::lemma_conversation_by_id(db.conversations@, at);
        lemma_counted_once(last, db.reads@, user_id, db.conversations@, at);
    }
}

/// No messages, nothing unread.
proof fn lemma_unread_over_nothing(
    messages: Seq<MessageRow>,
    reads: Seq<ReadMarker>,
    user_id: Seq<char>,
    conversations: Seq<ConversationRow>,
)
    requires
        messages.len() == 0,
    ensures
        unread_over(messages, reads, user_id, conversations) == 0,
    decreases conversations.len(),
{
    if conversations.len() > 0 {
        lemma_unread_over_nothing(messages, reads, user_id, conversations.drop_last());
        lemma_filter_empty(
            messages,
            unread_in_thread(reads, user_id, conversations.last().id@),
        );
    }
}

/// The count of everything that a user has not read is the sum of the
/// counts of the conversations that the user is a party to: the badge and
/// the inbox go by the same rule.
pub proof fn lemma_unread_total_is_sum(db: Db, user_id: Seq<char>)
    requires
        db.wf(),
    ensures
        unread_total(db, user_id) == unread_over(
            db.messages@,
            db.reads@,
            user_id,
            db.conversations@,
        ),
{
    lemma_unread_sum(db, user_id, db.messages@);
}

} // verus!
