//! A chat in memory: channels by name, who is in them and what was said.
use vstd::prelude::*;
use crate::model::views;

verus! {

/// One thing that was said.
#[derive(Debug, PartialEq, Eq)]
pub struct ChatMessage {
    pub sender: String,
    pub content: String,
}

/// A [`ChatMessage`] as mathematics.
pub struct ChatMessageView {
    pub sender: Seq<char>,
    pub content: Seq<char>,
}

impl View for ChatMessage {
    type V = ChatMessageView;

    open spec fn view(&self) -> ChatMessageView {
        ChatMessageView { sender: self.sender@, content: self.content@ }
    }
}

/// A channel of the chat.
#[derive(Debug, PartialEq, Eq)]
pub struct ChatChannel {
    pub name: String,
    pub participants: Vec<String>,
    pub messages: Vec<ChatMessage>,
}

/// A [`ChatChannel`] as mathematics.
pub struct ChatChannelView {
    pub name: Seq<char>,
    pub participants: Seq<Seq<char>>,
    pub messages: Seq<ChatMessageView>,
}

impl ChatChannelView {
    /// The channel `name` with nobody in it and nothing said.
    pub open spec fn fresh(name: Seq<char>) -> ChatChannelView {
        ChatChannelView { name, participants: Seq::empty(), messages: Seq::empty() }
    }

    /// The channel with `username` in it.
    pub open spec fn joined(self, username: Seq<char>) -> ChatChannelView {
        ChatChannelView { participants: self.participants.push(username), ..self }
    }

    /// The channel with one more message.
    pub open spec fn told(self, message: ChatMessageView) -> ChatChannelView {
        ChatChannelView { messages: self.messages.push(message), ..self }
    }
}

impl View for ChatChannel {
    type V = ChatChannelView;

    open spec fn view(&self) -> ChatChannelView {
        ChatChannelView {
            name: self.name@,
            participants: views(self.participants@),
            messages: views(self.messages@),
        }
    }
}

/// Where the first channel named `name` stands at or after `from`; the
/// length of `channels` where there is none.
pub open spec fn position_from(channels: Seq<ChatChannelView>, name: Seq<char>, from: int) -> int
    decreases channels.len() - from,
{
    if from < 0 || from >= channels.len() {
        channels.len() as int
    } else if channels[from].name == name {
        from
    } else {
        position_from(channels, name, from + 1)
    }
}

/// Where the channel named `name` stands; the length of `channels` where
/// there is none.
pub open spec fn position(channels: Seq<ChatChannelView>, name: Seq<char>) -> int {
    position_from(channels, name, 0)
}

/// `channels` after the channel `name` was created: a new channel stands
/// where one of that name stood, or at the end.
pub open spec fn created(channels: Seq<ChatChannelView>, name: Seq<char>) -> Seq<ChatChannelView> {
    let at = position(channels, name);
    if at < channels.len() {
        channels.update(at, ChatChannelView::fresh(name))
    } else {
        channels.push(ChatChannelView::fresh(name))
    }
}

/// `channels` after `username` joined the channel `name`, if there is one.
pub open spec fn with_participant(
    channels: Seq<ChatChannelView>,
    name: Seq<char>,
    username: Seq<char>,
) -> Seq<ChatChannelView> {
    let at = position(channels, name);
    if 0 <= at < channels.len() {
        channels.update(at, channels[at].joined(username))
    } else {
        channels
    }
}

/// `channels` after `message` was said in the channel `name`, if there is
/// one.
pub open spec fn with_message(
    channels: Seq<ChatChannelView>,
    name: Seq<char>,
    message: ChatMessageView,
) -> Seq<ChatChannelView> {
    let at = position(channels, name);
    if 0 <= at < channels.len() {
        channels.update(at, channels[at].told(message))
    } else {
        channels
    }
}

/// No two channels have the same name.
pub open spec fn distinct_names(channels: Seq<ChatChannelView>) -> bool {
    forall|i: int, j: int|
        0 <= i < j < channels.len() ==> (#[trigger] channels[i]).name != (
        #[trigger] channels[j]).name
}

/// Where a channel is found, it has the name that was looked for, and no
/// channel before it has.
pub proof fn lemma_position(channels: Seq<ChatChannelView>, name: Seq<char>, from: int)
    requires
        0 <= from,
    ensures
        from <= position_from(channels, name, from) || position_from(channels, name, from)
            == channels.len(),
        position_from(channels, name, from) <= channels.len(),
        position_from(channels, name, from) < channels.len() ==> channels[position_from(
            channels,
            name,
            from,
        )].name == name,
        forall|k: int|
            from <= k < position_from(channels, name, from) ==> (#[trigger] channels[k]).name
                != name,
    decreases channels.len() - from,
{
    if from < channels.len() && channels[from].name != name {
        lemma_position(channels, name, from + 1);
    }
}

/// Creating a channel keeps the names distinct.
pub proof fn lemma_created_distinct(channels: Seq<ChatChannelView>, name: Seq<char>)
    requires
        distinct_names(channels),
    ensures
        distinct_names(created(channels, name)),
{
    lemma_position(channels, name, 0);
    let at = position(channels, name);
    let after = created(channels, name);
    assert forall|i: int, j: int| 0 <= i < j < after.len() implies (#[trigger] after[i]).name != (
    #[trigger] after[j]).name by {
        if at < channels.len() {
            assert(after[i].name == channels[i].name);
            assert(after[j].name == channels[j].name);
        } else if j < channels.len() {
            assert(after[i] == channels[i] && after[j] == channels[j]);
        } else {
            assert(after[i] == channels[i]);
        }
    }
}

/// Joining a channel and speaking in one change no name, so the names stay
/// distinct.
pub proof fn lemma_names_are_kept(
    channels: Seq<ChatChannelView>,
    name: Seq<char>,
    username: Seq<char>,
    message: ChatMessageView,
)
    requires
        distinct_names(channels),
    ensures
        distinct_names(with_participant(channels, name, username)),
        distinct_names(with_message(channels, name, message)),
{
    lemma_position(channels, name, 0);
    let joined = with_participant(channels, name, username);
    let told = with_message(channels, name, message);
    assert forall|i: int, j: int| 0 <= i < j < joined.len() implies (#[trigger] joined[i]).name
        != (#[trigger] joined[j]).name by {
        assert(joined[i].name == channels[i].name);
        assert(joined[j].name == channels[j].name);
    }
    assert forall|i: int, j: int| 0 <= i < j < told.len() implies (#[trigger] told[i]).name != (
    #[trigger] told[j]).name by {
        assert(told[i].name == channels[i].name);
        assert(told[j].name == channels[j].name);
    }
}

/// Where the channel `name` stands in `channels`, if there is one.
fn find(channels: &Vec<ChatChannel>, name: &String) -> (at: usize)
    ensures
        at == position(views(channels@), name@),
        at <= channels@.len(),
{
    let mut i: usize = 0;
    while i < channels.len()
        invariant
            i <= channels@.len(),
            position_from(views(channels@), name@, 0) == position_from(
                views(channels@),
                name@,
                i as int,
            ),
        decreases channels@.len() - i,
    {
        proof {
            assert(views(channels@)[i as int].name == channels@[i as int].name@);
        }
        if channels[i].name == *name {
            return i;
        }
        i = i + 1;
    }
    i
}

fn create_in(channels: &mut Vec<ChatChannel>, name: String)
    ensures
        views(final(channels)@) == created(views(old(channels)@), name@),
{
    let at = find(channels, &name);
    let channel = ChatChannel { name, participants: Vec::new(), messages: Vec::new() };
    proof {
        assert(views(channel.participants@) =~= Seq::empty());
        assert(views(channel.messages@) =~= Seq::empty());
    }
    if at < channels.len() {
        proof {
            assert(views(channels@.update(at as int, channel)) =~= views(channels@).update(
                at as int,
                channel@,
            ));
        }
        channels.set(at, channel);
    } else {
        proof {
            crate::model::lemma_views_push(channels@, channel);
        }
        channels.push(channel);
    }
}

fn join_in(channels: &mut Vec<ChatChannel>, channel_name: String, username: String)
    ensures
        views(final(channels)@) == with_participant(
            views(old(channels)@),
            channel_name@,
            username@,
        ),
{
    let at = find(channels, &channel_name);
    if at < channels.len() {
        let ghost before = channels@;
        let channel = &mut channels[at];
        proof {
            crate::model::lemma_views_push(channel.participants@, username);
        }
        channel.participants.push(username);
        proof {
            assert(views(channels@) =~= with_participant(views(before), channel_name@, username@));
        }
    }
}

fn say_in(channels: &mut Vec<ChatChannel>, channel_name: String, message: ChatMessage)
    ensures
        views(final(channels)@) == with_message(views(old(channels)@), channel_name@, message@),
{
    let at = find(channels, &channel_name);
    if at < channels.len() {
        let ghost before = channels@;
        let channel = &mut channels[at];
        proof {
            crate::model::lemma_views_push(channel.messages@, message);
        }
        channel.messages.push(message);
        proof {
            assert(views(channels@) =~= with_message(views(before), channel_name@, message@));
        }
    }
}

/// The chat. No two of its channels have the same name.
#[derive(Debug)]
pub struct ChatSystem {
    channels: Vec<ChatChannel>,
}

impl View for ChatSystem {
    type V = Seq<ChatChannelView>;

    closed spec fn view(&self) -> Seq<ChatChannelView> {
        views(self.channels@)
    }
}

impl ChatSystem {
    #[verifier::type_invariant]
    spec fn names_are_distinct(&self) -> bool {
        distinct_names(views(self.channels@))
    }

    /// A chat without channels.
    pub fn new() -> (chat: ChatSystem)
        ensures
            chat@ == Seq::<ChatChannelView>::empty(),
    {
        let chat = ChatSystem { channels: Vec::new() };
        proof {
            assert(views(chat.channels@) =~= Seq::<ChatChannelView>::empty());
        }
        chat
    }

    /// The channels of the chat, in the order of their creation. No two have
    /// the same name.
    pub fn channels(&self) -> (channels: &[ChatChannel])
        ensures
            views(channels@) == self@,
            distinct_names(self@),
    {
        proof {
            use_type_invariant(self);
        }
        self.channels.as_slice()
    }

    /// Creates the channel `name`. A channel of that name that was there
    /// before is replaced by the new, empty one.
    pub fn create_channel(&mut self, name: String)
        ensures
            final(self)@ == created(old(self)@, name@),
            distinct_names(final(self)@),
    {
        proof {
            use_type_invariant(&*self);
            lemma_created_distinct(self@, name@);
        }
        let mut channels: Vec<ChatChannel> = Vec::new();
        proof {
            assert(views(channels@) =~= Seq::<ChatChannelView>::empty());
        }
        std::mem::swap(&mut self.channels, &mut channels);
        create_in(&mut channels, name);
        std::mem::swap(&mut self.channels, &mut channels);
    }

    /// `username` joins the channel `channel_name`, if there is one.
    pub fn join_channel(&mut self, channel_name: String, username: String)
        ensures
            final(self)@ == with_participant(old(self)@, channel_name@, username@),
            distinct_names(final(self)@),
    {
        proof {
            use_type_invariant(&*self);
            lemma_names_are_kept(
                self@,
                channel_name@,
                username@,
                ChatMessageView { sender: Seq::empty(), content: Seq::empty() },
            );
        }
        let mut channels: Vec<ChatChannel> = Vec::new();
        proof {
            assert(views(channels@) =~= Seq::<ChatChannelView>::empty());
        }
        std::mem::swap(&mut self.channels, &mut channels);
        join_in(&mut channels, channel_name, username);
        std::mem::swap(&mut self.channels, &mut channels);
    }

    /// `sender` says `content` in the channel `channel_name`, if there is
    /// one.
    pub fn send_message(&mut self, channel_name: String, sender: String, content: String)
        ensures
            final(self)@ == with_message(
                old(self)@,
                channel_name@,
                ChatMessageView { sender: sender@, content: content@ },
            ),
            distinct_names(final(self)@),
    {
        let message = ChatMessage { sender, content };
        proof {
            use_type_invariant(&*self);
            lemma_names_are_kept(self@, channel_name@, Seq::empty(), message@);
        }
        let mut channels: Vec<ChatChannel> = Vec::new();
        proof {
            assert(views(channels@) =~= Seq::<ChatChannelView>::empty());
        }
        std::mem::swap(&mut self.channels, &mut channels);
        say_in(&mut channels, channel_name, message);
        std::mem::swap(&mut self.channels, &mut channels);
    }
}

} // verus!
