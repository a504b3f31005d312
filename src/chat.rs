//! Conversations and their messages.

use vstd::prelude::*;

verus! {

/// Who wrote a message.
#[derive(Debug, Clone, Copy, PartialEq, Eq, Structural)]
pub enum Role {
    User,
    Assistant,
}

impl Role {
    pub open spec fn name(self) -> Seq<char> {
        match self {
            Role::User => seq!['u', 's', 'e', 'r'],
            Role::Assistant => seq!['a', 's', 's', 'i', 's', 't', 'a', 'n', 't'],
        }
    }

    /// The role's name as stored: "user" or "assistant".
    pub fn as_str(&self) -> (r: &'static str)
        ensures
            r@ == self.name(),
    {
        proof {
            reveal_strlit("user");
            reveal_strlit("assistant");
        }
        match self {
            Role::User => "user",
            Role::Assistant => "assistant",
        }
    }

    /// The role named by `s`; any name but "assistant" is read as a user.
    pub fn from_name(s: &str) -> (r: Role)
        ensures
            r == (if s@ == Role::Assistant.name() {
                Role::Assistant
            } else {
                Role::User
            }),
    {
        let a = "assistant";
        proof {
            reveal_strlit("assistant");
        }
        let n = s.unicode_len();
        if n != 9 {
            return Role::User;
        }
        let mut i: usize = 0;
        while i < 9
            invariant
                n == 9 == s@.len(),
                a@ == Role::Assistant.name(),
                i <= 9,
                forall|k: int| 0 <= k < i ==> s@[k] == a@[k],
            decreases 9 - i,
        {
            if s.get_char(i) != a.get_char(i) {
                return Role::User;
            }
            i = i + 1;
        }
        assert(s@ =~= Role::Assistant.name());
        Role::Assistant
    }
}

/// A message: its role, its text, and whether it is shown collapsed when long.
#[derive(Debug, Clone)]
pub struct Message {
    pub role: Role,
    pub content: String,
    pub collapsed: bool,
}

pub ghost struct MessageView {
    pub role: Role,
    pub content: Seq<char>,
    pub collapsed: bool,
}

impl View for Message {
    type V = MessageView;

    open spec fn view(&self) -> MessageView {
        MessageView { role: self.role, content: self.content@, collapsed: self.collapsed }
    }
}

pub open spec fn message_views(v: Seq<Message>) -> Seq<MessageView> {
    v.map_values(|m: Message| m@)
}

impl Message {
    /// A new message; user messages start collapsible, assistant messages do not.
    pub fn new(role: Role, content: &str) -> (r: Message)
        ensures
            r@ == (MessageView { role, content: content@, collapsed: role == Role::User }),
    {
        Message { role, content: String::from_str(content), collapsed: role == Role::User }
    }
}

/// A conversation.
#[derive(Debug, Clone)]
pub struct Chat {
    pub id: String,
    pub title: String,
    pub messages: Vec<Message>,
    pub model: String,
    pub streaming: bool,
}

pub ghost struct ChatView {
    pub id: Seq<char>,
    pub title: Seq<char>,
    pub messages: Seq<MessageView>,
    pub model: Seq<char>,
    pub streaming: bool,
}

impl View for Chat {
    type V = ChatView;

    open spec fn view(&self) -> ChatView {
        ChatView {
            id: self.id@,
            title: self.title@,
            messages: message_views(self.messages@),
            model: self.model@,
            streaming: self.streaming,
        }
    }
}

pub open spec fn chat_views(v: Seq<Chat>) -> Seq<ChatView> {
    v.map_values(|c: Chat| c@)
}

/// The index of the first conversation with identifier `id`, or -1.
pub open spec fn first_chat_with_id(chats: Seq<ChatView>, id: Seq<char>) -> int
    decreases chats.len(),
{
    if chats.len() == 0 {
        -1
    } else {
        let r = first_chat_with_id(chats.drop_last(), id);
        if r >= 0 {
            r
        } else if chats.last().id == id {
            chats.len() - 1
        } else {
            -1
        }
    }
}

/// The conversation after one fragment arrives: it extends the last message
/// if that is an assistant message still being streamed, and else starts a
/// new assistant message; streamed text is never shown collapsed.
pub open spec fn with_fragment(c: ChatView, f: Seq<char>) -> ChatView {
    let ms = c.messages;
    if c.streaming && ms.len() > 0 && ms.last().role == Role::Assistant {
        ChatView {
            messages: ms.update(
                ms.len() - 1,
                MessageView { content: ms.last().content + f, collapsed: false, ..ms.last() },
            ),
            streaming: true,
            ..c
        }
    } else {
        ChatView {
            messages: ms.push(MessageView { role: Role::Assistant, content: f, collapsed: false }),
            streaming: true,
            ..c
        }
    }
}

/// The decimal digits of `n`.
pub open spec fn decimal(n: nat) -> Seq<char>
    decreases n,
{
    if n < 10 {
        seq![digit_char(n)]
    } else {
        decimal(n / 10).push(digit_char(n % 10))
    }
}

pub open spec fn digit_char(d: nat) -> char {
    if d == 0 { '0' } else if d == 1 { '1' } else if d == 2 { '2' } else if d == 3 { '3' }
    else if d == 4 { '4' } else if d == 5 { '5' } else if d == 6 { '6' } else if d == 7 { '7' }
    else if d == 8 { '8' } else { '9' }
}

fn digit_string(d: usize) -> (r: String)
    requires
        d < 10,
    ensures
        r@ == seq![digit_char(d as nat)],
{
    proof {
        reveal_strlit("0");
        reveal_strlit("1");
        reveal_strlit("2");
        reveal_strlit("3");
        reveal_strlit("4");
        reveal_strlit("5");
        reveal_strlit("6");
        reveal_strlit("7");
        reveal_strlit("8");
        reveal_strlit("9");
    }
    let s = if d == 0 { "0" } else if d == 1 { "1" } else if d == 2 { "2" } else if d == 3 { "3" }
    else if d == 4 { "4" } else if d == 5 { "5" } else if d == 6 { "6" } else if d == 7 { "7" }
    else if d == 8 { "8" } else { "9" };
    String::from_str(s)
}

/// `n` written in decimal.
pub fn decimal_string(n: usize) -> (r: String)
    ensures
        r@ == decimal(n as nat),
    decreases n,
{
    if n < 10 {
        digit_string(n)
    } else {
        let mut s = decimal_string(n / 10);
        let d = digit_string(n % 10);
        s.append(d.as_str());
        s
    }
}

pub proof fn lemma_first_chat_prefix(cv: Seq<ChatView>, id: Seq<char>, i: int)
    requires
        0 <= i <= cv.len(),
        first_chat_with_id(cv.take(i), id) >= 0,
    ensures
        first_chat_with_id(cv, id) == first_chat_with_id(cv.take(i), id),
    decreases cv.len() - i,
{
    if i < cv.len() {
        assert(cv.take(i + 1).drop_last() =~= cv.take(i));
        lemma_first_chat_prefix(cv, id, i + 1);
    } else {
        assert(cv.take(i) =~= cv);
    }
}

/// The fragments one after another.
pub open spec fn concat_all(fs: Seq<Seq<char>>) -> Seq<char>
    decreases fs.len(),
{
    if fs.len() == 0 {
        seq![]
    } else {
        concat_all(fs.drop_last()) + fs.last()
    }
}

/// The conversation after the fragments arrive in order.
pub open spec fn with_fragments(c: ChatView, fs: Seq<Seq<char>>) -> ChatView
    decreases fs.len(),
{
    if fs.len() == 0 {
        c
    } else {
        with_fragment(with_fragments(c, fs.drop_last()), fs.last())
    }
}

/// Streaming append: fragments streamed into a conversation that is not
/// streaming add exactly one assistant message, whose content is the
/// fragments concatenated, however many fragments there are.
pub proof fn lemma_streaming_append(c: ChatView, fs: Seq<Seq<char>>)
    requires
        !c.streaming,
        fs.len() > 0,
    ensures
        with_fragments(c, fs).messages == c.messages.push(
            MessageView { role: Role::Assistant, content: concat_all(fs), collapsed: false },
        ),
        with_fragments(c, fs).streaming,
        with_fragments(c, fs).id == c.id,
    decreases fs.len(),
{
    if fs.len() == 1 {
        assert(fs.drop_last() =~= Seq::<Seq<char>>::empty());
        assert(with_fragments(c, fs.drop_last()) == c);
        assert(concat_all(fs.drop_last()) =~= Seq::<char>::empty());
        assert(concat_all(fs) =~= fs[0]);
    } else {
        lemma_streaming_append(c, fs.drop_last());
        let prev = with_fragments(c, fs.drop_last());
        assert(prev.messages.last().role == Role::Assistant);
        assert(prev.messages.update(prev.messages.len() - 1, MessageView {
            content: prev.messages.last().content + fs.last(),
            collapsed: false,
            ..prev.messages.last()
        }) =~= c.messages.push(
            MessageView { role: Role::Assistant, content: concat_all(fs), collapsed: false },
        ));
    }
}

/// A fresh conversation that receives fragments holds exactly one message:
/// an assistant message whose content is the fragments concatenated.
pub proof fn lemma_fresh_conversation_stream(c: ChatView, fs: Seq<Seq<char>>)
    requires
        !c.streaming,
        c.messages.len() == 0,
        fs.len() > 0,
    ensures
        with_fragments(c, fs).messages.len() == 1,
        with_fragments(c, fs).messages[0].role == Role::Assistant,
        with_fragments(c, fs).messages[0].content == concat_all(fs),
{
    lemma_streaming_append(c, fs);
}

/// What a stream can do to a conversation: hand it a fragment, or close.
pub ghost enum StreamEvent {
    Fragment(Seq<char>),
    Closed,
}

pub open spec fn after_event(c: ChatView, e: StreamEvent) -> ChatView {
    match e {
        StreamEvent::Fragment(f) => with_fragment(c, f),
        StreamEvent::Closed => ChatView { streaming: false, ..c },
    }
}

/// The conversation after the events, in order.
pub open spec fn with_events(c: ChatView, es: Seq<StreamEvent>) -> ChatView
    decreases es.len(),
{
    if es.len() == 0 {
        c
    } else {
        after_event(with_events(c, es.drop_last()), es.last())
    }
}

/// `b` is `a` after some fragments and closures of streams.
pub open spec fn reached_by_stream(a: ChatView, b: ChatView) -> bool {
    exists|es: Seq<StreamEvent>| b == with_events(a, es)
}

pub proof fn lemma_reached_refl(a: ChatView)
    ensures
        reached_by_stream(a, a),
{
    assert(with_events(a, Seq::<StreamEvent>::empty()) == a);
}

pub proof fn lemma_reached_step(a: ChatView, b: ChatView, e: StreamEvent)
    requires
        reached_by_stream(a, b),
    ensures
        reached_by_stream(a, after_event(b, e)),
{
    let es = choose|es: Seq<StreamEvent>| b == with_events(a, es);
    assert(es.push(e).drop_last() =~= es);
    assert(with_events(a, es.push(e)) == after_event(b, e));
}

/// The first conversation with an identifier has that identifier.
pub proof fn lemma_first_chat_has_id(cv: Seq<ChatView>, id: Seq<char>)
    ensures
        first_chat_with_id(cv, id) >= 0 ==> first_chat_with_id(cv, id) < cv.len() && cv[first_chat_with_id(
            cv,
            id,
        )].id == id,
        first_chat_with_id(cv, id) >= -1,
    decreases cv.len(),
{
    if cv.len() > 0 {
        lemma_first_chat_has_id(cv.drop_last(), id);
    }
}

/// Which conversation comes first with an identifier depends on the identifiers alone.
pub proof fn lemma_first_chat_same_ids(a: Seq<ChatView>, b: Seq<ChatView>, id: Seq<char>)
    requires
        a.len() == b.len(),
        forall|i: int| 0 <= i < a.len() ==> #[trigger] a[i].id == b[i].id,
    ensures
        first_chat_with_id(a, id) == first_chat_with_id(b, id),
    decreases a.len(),
{
    if a.len() > 0 {
        let a2 = a.drop_last();
        let b2 = b.drop_last();
        assert forall|i: int| 0 <= i < a2.len() implies #[trigger] a2[i].id == b2[i].id by {
            assert(a2[i] == a[i]);
            assert(b2[i] == b[i]);
        }
        lemma_first_chat_same_ids(a2, b2, id);
        assert(a.last().id == b.last().id);
    }
}

} // verus!
