//! The stream registry: one inbound channel of text fragments per
//! conversation, drained without blocking into the conversations' messages.

use vstd::prelude::*;
use crate::chat::{
    chat_views, concat_all, first_chat_with_id, lemma_first_chat_has_id, lemma_first_chat_prefix,
    lemma_first_chat_same_ids, lemma_reached_refl, lemma_reached_step, lemma_streaming_append,
    message_views, reached_by_stream, with_fragment, with_fragments, ChatView, Message, MessageView,
    Role, StreamEvent,
};
use crate::session::App;

verus! {

/// tokio's sending half of a bounded channel, carried as an opaque value.
#[verifier::external_type_specification]
#[verifier::external_body]
#[verifier::reject_recursive_types(T)]
pub struct ExSender<T>(tokio::sync::mpsc::Sender<T>);

/// tokio's receiving half of a bounded channel, carried as an opaque value.
#[verifier::external_type_specification]
#[verifier::external_body]
#[verifier::reject_recursive_types(T)]
pub struct ExReceiver<T>(tokio::sync::mpsc::Receiver<T>);

/// What one poll of a stream's channel found.
pub enum Polled {
    Fragment(String),
    Empty,
    Closed,
}

/// Relies on tokio::sync::mpsc::channel: a bounded channel, which panics on a
/// capacity of zero or above the semaphore's permit limit, `usize::MAX >> 3`
/// (that is, `usize::MAX / 8`).
#[verifier::external_body]
fn open_channel(capacity: usize) -> (tokio::sync::mpsc::Sender<String>, tokio::sync::mpsc::Receiver<String>)
    requires
        0 < capacity <= usize::MAX / 8,
{
    tokio::sync::mpsc::channel(capacity)
}

/// Relies on tokio's Receiver::len: how many fragments are buffered now.
#[verifier::external_body]
fn buffered_count(rx: &tokio::sync::mpsc::Receiver<String>) -> usize {
    rx.len()
}

/// Relies on tokio's Receiver::try_recv: the next buffered fragment, or
/// whether the channel is empty or closed and drained.
#[verifier::external_body]
fn poll_fragment(rx: &mut tokio::sync::mpsc::Receiver<String>) -> Polled {
    match rx.try_recv() {
        Ok(s) => Polled::Fragment(s),
        Err(tokio::sync::mpsc::error::TryRecvError::Empty) => Polled::Empty,
        Err(tokio::sync::mpsc::error::TryRecvError::Disconnected) => Polled::Closed,
    }
}

/// How many fragments a stream's channel buffers.
pub const STREAM_CHANNEL_CAPACITY: usize = 100;

/// An inbound stream of fragments for a conversation.
pub struct StreamTask {
    pub chat_id: String,
    pub rx: tokio::sync::mpsc::Receiver<String>,
}

/// What a fragment for conversation `id` leaves: the first conversation with
/// that identifier gets it, and nothing changes where there is none.
pub open spec fn fragment_applied(a: App, b: App, id: Seq<char>, f: Seq<char>) -> bool {
    let k = first_chat_with_id(chat_views(a.chats@), id);
    &&& k < 0 ==> chat_views(b.chats@) == chat_views(a.chats@) && b.need_rebuild_cache
        == a.need_rebuild_cache
    &&& k >= 0 ==> chat_views(b.chats@) == chat_views(a.chats@).update(
        k,
        with_fragment(chat_views(a.chats@)[k], f),
    ) && b.need_rebuild_cache
    &&& b.current_chat == a.current_chat
    &&& b.copy_shortcuts@ == a.copy_shortcuts@
    &&& b.line_cache@ == a.line_cache@
    &&& b.last_width == a.last_width
    &&& b.stream_tasks@ == a.stream_tasks@
    &&& b.viewport == a.viewport
}

/// The conversations keep their number and identifiers, the displayed one
/// stays displayed, and a valid cache stays valid.
pub open spec fn same_shape(a: App, b: App) -> bool {
    &&& b.chats@.len() == a.chats@.len()
    &&& forall|i: int| 0 <= i < a.chats@.len() ==> (#[trigger] b.chats@[i]).id@ == a.chats@[i].id@
    &&& b.current_chat == a.current_chat
    &&& b.copy_shortcuts@ == a.copy_shortcuts@
    &&& a.cache_valid() ==> b.cache_valid()
}

impl App {
    /// The index of the first conversation with identifier `id`.
    fn find_chat(&self, id: &str) -> (r: Option<usize>)
        ensures
            match r {
                Some(k) => k < self.chats@.len() && k as int == first_chat_with_id(
                    chat_views(self.chats@),
                    id@,
                ),
                None => first_chat_with_id(chat_views(self.chats@), id@) == -1,
            },
    {
        let target = String::from_str(id);
        let ghost cv = chat_views(self.chats@);
        let mut i: usize = 0;
        while i < self.chats.len()
            invariant
                i <= self.chats.len(),
                cv == chat_views(self.chats@),
                target@ == id@,
                first_chat_with_id(cv.take(i as int), id@) == -1,
            decreases self.chats.len() - i,
        {
            proof {
                assert(cv.take(i + 1).drop_last() =~= cv.take(i as int));
            }
            if self.chats[i].id == target {
                assert(first_chat_with_id(cv.take(i + 1), id@) == i);
                assert(first_chat_with_id(cv, id@) == i) by {
                    lemma_first_chat_prefix(cv, id@, i + 1);
                }
                return Some(i);
            }
            i = i + 1;
        }
        assert(cv.take(i as int) =~= cv);
        None
    }

    /// Hands a fragment to the conversation with identifier `chat_id`: it
    /// extends the message being streamed or starts an assistant message; a
    /// fragment for a conversation that is gone is dropped.
    pub fn apply_fragment(&mut self, chat_id: &str, fragment: &str)
        ensures
            fragment_applied(*old(self), *final(self), chat_id@, fragment@),
            same_shape(*old(self), *final(self)),
            final(self).registry_wf() == old(self).registry_wf(),
    {
        match self.find_chat(chat_id) {
            None => {},
            Some(k) => {
                let ghost old_chats = chat_views(self.chats@);
                let ghost cv = old_chats[k as int];
                let mut chat = self.chats.remove(k);
                assert(chat@ == cv);
                let n = chat.messages.len();
                if chat.streaming && n > 0 && chat.messages[n - 1].role == Role::Assistant {
                    let ghost ms = message_views(chat.messages@);
                    let mut m = chat.messages.pop().unwrap();
                    m.content.append(fragment);
                    m.collapsed = false;
                    chat.messages.push(m);
                    assert(message_views(chat.messages@) =~= ms.update(
                        ms.len() - 1,
                        MessageView { content: ms.last().content + fragment@, collapsed: false, ..ms.last() },
                    ));
                } else {
                    let ghost ms = message_views(chat.messages@);
                    chat.messages.push(
                        Message { role: Role::Assistant, content: String::from_str(fragment), collapsed: false },
                    );
                    assert(message_views(chat.messages@) =~= ms.push(
                        MessageView { role: Role::Assistant, content: fragment@, collapsed: false },
                    ));
                }
                chat.streaming = true;
                assert(chat@ == with_fragment(cv, fragment@));
                let ghost tasks = self.stream_tasks@;
                self.chats.insert(k, chat);
                self.need_rebuild_cache = true;
                assert(self.stream_tasks@ == tasks);
                assert(chat_views(self.chats@) =~= old_chats.update(
                    k as int,
                    with_fragment(old_chats[k as int], fragment@),
                ));
                assert forall|i: int| 0 <= i < self.chats@.len() implies (#[trigger] self.chats@[i]).id@
                    == old(self).chats@[i].id@ by {
                    assert(chat_views(self.chats@)[i].id == old_chats[i].id);
                }
            },
        }
        assert(self.stream_ids() =~= old(self).stream_ids());
    }

    /// Marks the conversation with identifier `chat_id` as no longer streaming.
    pub fn end_stream(&mut self, chat_id: &str)
        ensures
            ({
                let k = first_chat_with_id(chat_views(old(self).chats@), chat_id@);
                &&& k < 0 ==> chat_views(final(self).chats@) == chat_views(old(self).chats@)
                &&& k >= 0 ==> chat_views(final(self).chats@) == chat_views(old(self).chats@).update(
                    k,
                    ChatView { streaming: false, ..chat_views(old(self).chats@)[k] },
                )
            }),
            same_shape(*old(self), *final(self)),
            final(self).stream_tasks@ == old(self).stream_tasks@,
            final(self).need_rebuild_cache == old(self).need_rebuild_cache,
            final(self).line_cache@ == old(self).line_cache@,
            final(self).last_width == old(self).last_width,
            final(self).viewport == old(self).viewport,
    {
        match self.find_chat(chat_id) {
            None => {},
            Some(k) => {
                let ghost old_chats = chat_views(self.chats@);
                let mut chat = self.chats.remove(k);
                chat.streaming = false;
                self.chats.insert(k, chat);
                assert(chat_views(self.chats@) =~= old_chats.update(
                    k as int,
                    ChatView { streaming: false, ..old_chats[k as int] },
                ));
                assert forall|i: int| 0 <= i < self.chats@.len() implies (#[trigger] self.chats@[i]).id@
                    == old(self).chats@[i].id@ by {
                    assert(chat_views(self.chats@)[i].id == old_chats[i].id);
                }
                assert(self.current_messages() == old(self).current_messages());
            },
        }
    }

    /// Registers a stream for conversation `chat_id` and returns the sending
    /// half that the transport writes fragments into; none where a stream
    /// for that conversation is registered already.
    pub fn start_stream(&mut self, chat_id: String) -> (r: Option<tokio::sync::mpsc::Sender<String>>)
        ensures
            r.is_some() <==> !old(self).stream_ids().contains(chat_id@),
            r.is_some() ==> final(self).stream_ids() == old(self).stream_ids().push(chat_id@),
            r.is_none() ==> final(self).stream_tasks@ == old(self).stream_tasks@,
            old(self).registry_wf() ==> final(self).registry_wf(),
            final(self).chats@ == old(self).chats@,
            final(self).current_chat == old(self).current_chat,
            final(self).need_rebuild_cache == old(self).need_rebuild_cache,
            final(self).viewport == old(self).viewport,
    {
        let mut i: usize = 0;
        while i < self.stream_tasks.len()
            invariant
                i <= self.stream_tasks.len(),
                forall|j: int| 0 <= j < i ==> self.stream_ids()[j] != chat_id@,
            decreases self.stream_tasks.len() - i,
        {
            if self.stream_tasks[i].chat_id == chat_id {
                assert(self.stream_ids()[i as int] == chat_id@);
                return None;
            }
            i = i + 1;
        }
        assert(!self.stream_ids().contains(chat_id@));
        let (tx, rx) = open_channel(STREAM_CHANNEL_CAPACITY);
        let ghost ids = self.stream_ids();
        self.stream_tasks.push(StreamTask { chat_id, rx });
        assert(self.stream_ids() =~= ids.push(chat_id@));
        Some(tx)
    }

    /// Polls stream `i` once.
    fn poll_at(&mut self, i: usize) -> (p: Polled)
        requires
            i < old(self).stream_tasks@.len(),
        ensures
            final(self).stream_ids() == old(self).stream_ids(),
            final(self).chats@ == old(self).chats@,
            final(self).need_rebuild_cache == old(self).need_rebuild_cache,
            final(self).viewport == old(self).viewport,
            final(self).current_chat == old(self).current_chat,
            final(self).copy_shortcuts@ == old(self).copy_shortcuts@,
            final(self).line_cache@ == old(self).line_cache@,
            final(self).last_width == old(self).last_width,
    {
        let ghost ids = self.stream_ids();
        let mut task = self.stream_tasks.remove(i);
        let p = poll_fragment(&mut task.rx);
        let ghost rest = self.stream_ids();
        assert(rest =~= ids.remove(i as int));
        let ghost cid = task.chat_id@;
        self.stream_tasks.insert(i, task);
        assert(self.stream_ids() =~= rest.insert(i as int, cid));
        assert(ids.remove(i as int).insert(i as int, ids[i as int]) =~= ids);
        p
    }

    /// Acts on what a poll of stream `i` found: a fragment goes to its
    /// conversation and draining goes on; an empty channel stops the drain
    /// and changes nothing; a closed channel ends the conversation's stream
    /// and deregisters it.
    pub fn apply_polled(&mut self, i: usize, p: Polled) -> (more: bool)
        requires
            i < old(self).stream_tasks@.len(),
        ensures
            match p {
                Polled::Fragment(f) => more && fragment_applied(
                    *old(self),
                    *final(self),
                    old(self).stream_ids()[i as int],
                    f@,
                ),
                Polled::Empty => !more && final(self).chats@ == old(self).chats@
                    && final(self).stream_tasks@ == old(self).stream_tasks@
                    && final(self).need_rebuild_cache == old(self).need_rebuild_cache,
                Polled::Closed => !more && stream_ended(*old(self), *final(self), old(self).stream_ids()[i as int])
                    && final(self).stream_ids() == old(self).stream_ids().remove(i as int),
            },
            same_shape(*old(self), *final(self)),
            final(self).viewport == old(self).viewport,
            final(self).line_cache@ == old(self).line_cache@,
            final(self).last_width == old(self).last_width,
    {
        match p {
            Polled::Fragment(f) => {
                let id = self.stream_tasks[i].chat_id.clone();
                self.apply_fragment(id.as_str(), f.as_str());
                true
            },
            Polled::Empty => false,
            Polled::Closed => {
                let id = self.stream_tasks[i].chat_id.clone();
                self.end_stream(id.as_str());
                let ghost ids = self.stream_ids();
                let _task = self.stream_tasks.remove(i);
                assert(self.stream_ids() =~= ids.remove(i as int));
                false
            },
        }
    }

    /// Drains every registered stream without blocking: the fragments
    /// buffered now go, in order, to their conversations; a stream whose
    /// channel is closed and empty is deregistered and its conversation
    /// stops streaming. Conversations change only by their streams'
    /// fragments and closures, and the viewport is left as it is.
    pub fn process_stream(&mut self)
        ensures
            drained_from(*old(self), *final(self)),
            old(self).stream_tasks@.len() == 0 ==> final(self).chats@ == old(self).chats@
                && final(self).stream_tasks@ == old(self).stream_tasks@
                && final(self).need_rebuild_cache == old(self).need_rebuild_cache,
    {
        let ghost start = *self;
        proof {
            lemma_drained_refl(start);
        }
        let mut i: usize = 0;
        while i < self.stream_tasks.len()
            invariant
                i <= self.stream_tasks@.len(),
                drained_from(start, *self),
                start.stream_tasks@.len() == 0 ==> *self == start,
            decreases self.stream_tasks.len() - i,
        {
            let before = self.stream_tasks.len();
            let n = buffered_count(&self.stream_tasks[i].rx);
            let mut more = true;
            let mut j: usize = 0;
            while j < n && more
                invariant
                    i < before,
                    self.stream_tasks@.len() == before || (!more && self.stream_tasks@.len() + 1
                        == before),
                    drained_from(start, *self),
                    start.stream_tasks@.len() == 0 ==> *self == start,
                decreases n - j,
            {
                let ghost a0 = *self;
                let p = self.poll_at(i);
                let ghost a1 = *self;
                proof {
                    lemma_drained_poll(start, a0, a1);
                }
                let ghost pv = p;
                more = self.apply_polled(i, p);
                proof {
                    lemma_after_poll(start, a1, *self, i as int, pv);
                }
                j = j + 1;
            }
            if more {
                let ghost a0 = *self;
                let p = self.poll_at(i);
                let ghost a1 = *self;
                proof {
                    lemma_drained_poll(start, a0, a1);
                }
                let ghost pv = p;
                let _ = self.apply_polled(i, p);
                proof {
                    lemma_after_poll(start, a1, *self, i as int, pv);
                }
            }
            if self.stream_tasks.len() == before {
                i = i + 1;
            }
        }
    }
}

/// What ending the stream of conversation `id` leaves: the first
/// conversation with that identifier stops streaming.
pub open spec fn stream_ended(a: App, b: App, id: Seq<char>) -> bool {
    let k = first_chat_with_id(chat_views(a.chats@), id);
    &&& k < 0 ==> chat_views(b.chats@) == chat_views(a.chats@)
    &&& k >= 0 ==> chat_views(b.chats@) == chat_views(a.chats@).update(
        k,
        ChatView { streaming: false, ..chat_views(a.chats@)[k] },
    )
    &&& b.need_rebuild_cache == a.need_rebuild_cache
}

/// The conversation that stream `id` fed, as numbered in `a`, is no longer
/// streaming in `b`.
pub open spec fn stream_closed_in(a: App, b: App, id: Seq<char>) -> bool {
    let k = first_chat_with_id(chat_views(a.chats@), id);
    k >= 0 ==> !chat_views(b.chats@)[k].streaming
}

/// What draining streams from `a` may leave in `b`: each conversation has
/// changed only by fragments and closures of streams, the registry has only
/// lost streams, each stream that left had its conversation stop streaming,
/// and the view state is as it was.
pub open spec fn drained_from(a: App, b: App) -> bool {
    &&& same_shape(a, b)
    &&& b.viewport == a.viewport
    &&& b.line_cache@ == a.line_cache@
    &&& b.last_width == a.last_width
    &&& a.registry_wf() ==> b.registry_wf()
    &&& forall|j: int|
        0 <= j < b.stream_tasks@.len() ==> a.stream_ids().contains(#[trigger] b.stream_ids()[j])
    &&& forall|c: int|
        0 <= c < a.chats@.len() ==> reached_by_stream(
            chat_views(a.chats@)[c],
            #[trigger] chat_views(b.chats@)[c],
        )
    &&& forall|id: Seq<char>|
        a.stream_ids().contains(id) && !b.stream_ids().contains(id) ==> #[trigger] stream_closed_in(
            a,
            b,
            id,
        )
}

proof fn lemma_drained_refl(a: App)
    ensures
        drained_from(a, a),
{
    assert forall|c: int| 0 <= c < a.chats@.len() implies reached_by_stream(
        chat_views(a.chats@)[c],
        #[trigger] chat_views(a.chats@)[c],
    ) by {
        lemma_reached_refl(chat_views(a.chats@)[c]);
    }
    assert forall|j: int| 0 <= j < a.stream_tasks@.len() implies a.stream_ids().contains(
        #[trigger] a.stream_ids()[j],
    ) by {}
}

proof fn lemma_chat_ids_kept(start: App, a: App)
    requires
        same_shape(start, a),
    ensures
        chat_views(a.chats@).len() == chat_views(start.chats@).len(),
        forall|i: int|
            0 <= i < chat_views(a.chats@).len() ==> #[trigger] chat_views(a.chats@)[i].id == chat_views(
                start.chats@,
            )[i].id,
{
    assert forall|i: int| 0 <= i < chat_views(a.chats@).len() implies #[trigger] chat_views(
        a.chats@,
    )[i].id == chat_views(start.chats@)[i].id by {
        assert(a.chats@[i].id@ == start.chats@[i].id@);
    }
}

proof fn lemma_drained_poll(start: App, a: App, b: App)
    requires
        drained_from(start, a),
        b.stream_ids() == a.stream_ids(),
        b.chats@ == a.chats@,
        b.need_rebuild_cache == a.need_rebuild_cache,
        b.viewport == a.viewport,
        b.current_chat == a.current_chat,
        b.copy_shortcuts@ == a.copy_shortcuts@,
        b.line_cache@ == a.line_cache@,
        b.last_width == a.last_width,
    ensures
        drained_from(start, b),
        b.stream_tasks@.len() == a.stream_tasks@.len(),
{
    assert(b.stream_ids().len() == b.stream_tasks@.len());
    assert(a.stream_ids().len() == a.stream_tasks@.len());
    assert(b.current_messages() == a.current_messages());
    assert forall|j: int| 0 <= j < b.stream_tasks@.len() implies start.stream_ids().contains(
        #[trigger] b.stream_ids()[j],
    ) by {
        assert(a.stream_ids()[j] == b.stream_ids()[j]);
    }
    assert(chat_views(b.chats@) == chat_views(a.chats@));
    assert forall|id: Seq<char>|
        start.stream_ids().contains(id) && !b.stream_ids().contains(id) implies #[trigger] stream_closed_in(
        start,
        b,
        id,
    ) by {
        assert(stream_closed_in(start, a, id));
    }
}

proof fn lemma_same_shape_trans(start: App, a: App, b: App)
    requires
        same_shape(start, a),
        same_shape(a, b),
    ensures
        same_shape(start, b),
{
    assert forall|i: int| 0 <= i < start.chats@.len() implies (#[trigger] b.chats@[i]).id@
        == start.chats@[i].id@ by {
        assert(b.chats@[i].id@ == a.chats@[i].id@);
        assert(a.chats@[i].id@ == start.chats@[i].id@);
    }
}

proof fn lemma_drained_fragment(start: App, a: App, b: App, i: int, f: Seq<char>)
    requires
        drained_from(start, a),
        0 <= i < a.stream_tasks@.len(),
        fragment_applied(a, b, a.stream_ids()[i], f),
        same_shape(a, b),
    ensures
        drained_from(start, b),
{
    let id = a.stream_ids()[i];
    let sv = chat_views(start.chats@);
    let av = chat_views(a.chats@);
    let bv = chat_views(b.chats@);
    lemma_same_shape_trans(start, a, b);
    lemma_chat_ids_kept(start, a);
    lemma_first_chat_same_ids(av, sv, id);
    lemma_first_chat_has_id(sv, id);
    let k = first_chat_with_id(av, id);
    assert(b.stream_ids() == a.stream_ids());
    assert forall|j: int| 0 <= j < b.stream_tasks@.len() implies start.stream_ids().contains(
        #[trigger] b.stream_ids()[j],
    ) by {
        assert(a.stream_ids()[j] == b.stream_ids()[j]);
    }
    assert forall|c: int| 0 <= c < start.chats@.len() implies reached_by_stream(
        sv[c],
        #[trigger] bv[c],
    ) by {
        assert(reached_by_stream(sv[c], av[c]));
        if c == k {
            lemma_reached_step(sv[c], av[c], StreamEvent::Fragment(f));
        } else {
            assert(bv[c] == av[c]);
        }
    }
    assert forall|id2: Seq<char>|
        start.stream_ids().contains(id2) && !b.stream_ids().contains(id2) implies #[trigger] stream_closed_in(
        start,
        b,
        id2,
    ) by {
        assert(stream_closed_in(start, a, id2));
        lemma_first_chat_has_id(sv, id2);
        let k2 = first_chat_with_id(sv, id2);
        if k2 >= 0 && k >= 0 {
            assert(a.stream_ids().contains(id));
            assert(id2 != id);
            assert(k2 != k);
            assert(bv[k2] == av[k2]);
        } else if k2 >= 0 {
            assert(bv[k2] == av[k2]);
        }
    }
}

proof fn lemma_drained_closed(start: App, a: App, b: App, i: int)
    requires
        drained_from(start, a),
        0 <= i < a.stream_tasks@.len(),
        stream_ended(a, b, a.stream_ids()[i]),
        b.stream_ids() == a.stream_ids().remove(i),
        same_shape(a, b),
        b.viewport == a.viewport,
        b.line_cache@ == a.line_cache@,
        b.last_width == a.last_width,
    ensures
        drained_from(start, b),
{
    let id = a.stream_ids()[i];
    let ids = a.stream_ids();
    let sv = chat_views(start.chats@);
    let av = chat_views(a.chats@);
    let bv = chat_views(b.chats@);
    lemma_same_shape_trans(start, a, b);
    lemma_chat_ids_kept(start, a);
    lemma_first_chat_same_ids(av, sv, id);
    lemma_first_chat_has_id(sv, id);
    let k = first_chat_with_id(av, id);
    assert(b.stream_ids().len() == b.stream_tasks@.len());
    assert(ids.len() == a.stream_tasks@.len());
    assert forall|j: int| 0 <= j < b.stream_tasks@.len() implies start.stream_ids().contains(
        #[trigger] b.stream_ids()[j],
    ) by {
        if j < i {
            assert(b.stream_ids()[j] == ids[j]);
        } else {
            assert(b.stream_ids()[j] == ids[j + 1]);
        }
    }
    if a.registry_wf() {
        assert forall|x: int, y: int|
            0 <= x < y < b.stream_tasks@.len() implies #[trigger] b.stream_ids()[x]
            != #[trigger] b.stream_ids()[y] by {
            let x2 = if x < i { x } else { x + 1 };
            let y2 = if y < i { y } else { y + 1 };
            assert(b.stream_ids()[x] == ids[x2]);
            assert(b.stream_ids()[y] == ids[y2]);
            assert(ids[x2] != ids[y2]);
        }
    }
    assert forall|c: int| 0 <= c < start.chats@.len() implies reached_by_stream(
        sv[c],
        #[trigger] bv[c],
    ) by {
        assert(reached_by_stream(sv[c], av[c]));
        if c == k {
            lemma_reached_step(sv[c], av[c], StreamEvent::Closed);
        } else {
            assert(bv[c] == av[c]);
        }
    }
    assert forall|id2: Seq<char>|
        start.stream_ids().contains(id2) && !b.stream_ids().contains(id2) implies #[trigger] stream_closed_in(
        start,
        b,
        id2,
    ) by {
        let k2 = first_chat_with_id(sv, id2);
        lemma_first_chat_has_id(sv, id2);
        if a.stream_ids().contains(id2) {
            let j = choose|j: int| 0 <= j < ids.len() && ids[j] == id2;
            if j != i {
                let jb = if j < i { j } else { j - 1 };
                assert(b.stream_ids()[jb] == id2);
            }
            assert(id2 == id);
        } else {
            assert(stream_closed_in(start, a, id2));
            if k2 >= 0 && k2 != k {
                assert(bv[k2] == av[k2]);
            }
        }
    }
}

proof fn lemma_after_poll(start: App, a: App, b: App, i: int, p: Polled)
    requires
        drained_from(start, a),
        0 <= i < a.stream_tasks@.len(),
        match p {
            Polled::Fragment(f) => fragment_applied(a, b, a.stream_ids()[i], f@),
            Polled::Empty => b.chats@ == a.chats@ && b.stream_tasks@ == a.stream_tasks@
                && b.need_rebuild_cache == a.need_rebuild_cache,
            Polled::Closed => stream_ended(a, b, a.stream_ids()[i]) && b.stream_ids() == a.stream_ids().remove(i),
        },
        same_shape(a, b),
        b.viewport == a.viewport,
        b.line_cache@ == a.line_cache@,
        b.last_width == a.last_width,
    ensures
        drained_from(start, b),
        p is Closed ==> b.stream_tasks@.len() + 1 == a.stream_tasks@.len(),
        !(p is Closed) ==> b.stream_tasks@.len() == a.stream_tasks@.len(),
{
    assert(b.stream_ids().len() == b.stream_tasks@.len());
    assert(a.stream_ids().len() == a.stream_tasks@.len());
    match p {
        Polled::Fragment(f) => lemma_drained_fragment(start, a, b, i, f@),
        Polled::Empty => lemma_drained_poll(start, a, b),
        Polled::Closed => lemma_drained_closed(start, a, b, i),
    }
}

proof fn lemma_fragment_run_prefix(states: Seq<App>, id: Seq<char>, fs: Seq<Seq<char>>, n: int)
    requires
        states.len() == fs.len() + 1,
        0 <= n <= fs.len(),
        forall|k: int|
            0 <= k < fs.len() ==> #[trigger] fragment_applied(states[k], states[k + 1], id, fs[k]),
        first_chat_with_id(chat_views(states[0].chats@), id) >= 0,
    ensures
        ({
            let c = first_chat_with_id(chat_views(states[0].chats@), id);
            &&& first_chat_with_id(chat_views(states[n].chats@), id) == c
            &&& chat_views(states[n].chats@).len() == chat_views(states[0].chats@).len()
            &&& chat_views(states[n].chats@)[c] == with_fragments(
                chat_views(states[0].chats@)[c],
                fs.take(n),
            )
        }),
    decreases n,
{
    let c = first_chat_with_id(chat_views(states[0].chats@), id);
    lemma_first_chat_has_id(chat_views(states[0].chats@), id);
    if n == 0 {
        assert(fs.take(0) =~= Seq::<Seq<char>>::empty());
    } else {
        lemma_fragment_run_prefix(states, id, fs, n - 1);
        let a = chat_views(states[n - 1].chats@);
        let b = chat_views(states[n].chats@);
        let k = n - 1;
        assert(fragment_applied(states[k], states[k + 1], id, fs[k]));
        assert(k + 1 == n);
        assert(b == a.update(c, with_fragment(a[c], fs[n - 1])));
        assert forall|i: int| 0 <= i < a.len() implies #[trigger] a[i].id == b[i].id by {}
        lemma_first_chat_same_ids(a, b, id);
        assert(fs.take(n).drop_last() =~= fs.take(n - 1));
        assert(fs.take(n).last() == fs[n - 1]);
    }
}

/// Streaming append through the registry: fragments applied one after
/// another to a conversation that is not streaming leave it with exactly one
/// new assistant message, holding the fragments concatenated, however many
/// there are.
pub proof fn lemma_registry_streaming_append(states: Seq<App>, id: Seq<char>, fs: Seq<Seq<char>>)
    requires
        states.len() == fs.len() + 1,
        fs.len() > 0,
        forall|k: int|
            0 <= k < fs.len() ==> #[trigger] fragment_applied(states[k], states[k + 1], id, fs[k]),
        first_chat_with_id(chat_views(states[0].chats@), id) >= 0,
        !chat_views(states[0].chats@)[first_chat_with_id(chat_views(states[0].chats@), id)].streaming,
    ensures
        ({
            let c = first_chat_with_id(chat_views(states[0].chats@), id);
            chat_views(states[fs.len() as int].chats@)[c].messages == chat_views(states[0].chats@)[c].messages.push(
                MessageView { role: Role::Assistant, content: concat_all(fs), collapsed: false },
            )
        }),
{
    let c = first_chat_with_id(chat_views(states[0].chats@), id);
    lemma_fragment_run_prefix(states, id, fs, fs.len() as int);
    assert(fs.take(fs.len() as int) =~= fs);
    lemma_streaming_append(chat_views(states[0].chats@)[c], fs);
}

} // verus!
