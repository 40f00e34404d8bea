//! The client side of the leaderboard: the player's nickname, the state of
//! the last fetch, and what a server reply means.
//!
//! Requests are sent elsewhere, on a thread of their own; the outcome of a
//! fetch arrives through a channel that is polled once per frame.

use std::sync::mpsc::Receiver;
use vstd::prelude::*;
use vstd::string::StringSliceAdditionalSpecFns;

verus! {

/// The receiving end of a std channel. Nothing is known of what it holds.
#[verifier::external_type_specification]
#[verifier::external_body]
#[verifier::reject_recursive_types(T)]
pub struct ExReceiver<T>(Receiver<T>);

/// Longest nickname, in characters.
pub const NICKNAME_MAX: usize = 16;

/// Shortest nickname that can be submitted, in characters.
pub const NICKNAME_MIN: usize = 2;

/// One line of the leaderboard, and the record that is submitted.
pub struct SendData {
    pub name: String,
    pub score: u32,
}

impl View for SendData {
    type V = (Seq<char>, u32);

    open spec fn view(&self) -> (Seq<char>, u32) {
        (self.name@, self.score)
    }
}

impl Clone for SendData {
    fn clone(&self) -> (copy: SendData)
        ensures
            copy@ == self@,
    {
        SendData { name: self.name.clone(), score: self.score }
    }
}

/// The state of the leaderboard as contracts see it.
pub enum Leaderboard {
    Idle,
    Loading,
    Ready(Seq<(Seq<char>, u32)>),
    Error(Seq<char>),
}

/// The state of the last leaderboard fetch.
pub enum LeaderboardState {
    /// Nothing was asked for yet.
    Idle,
    /// A fetch is under way.
    Loading,
    /// The top list, best first, as the server sent it.
    Ready(Vec<SendData>),
    /// The fetch failed for good; the message says why.
    Error(String),
}

/// The lines of a top list as contracts see them.
pub open spec fn lines_of(top: Seq<SendData>) -> Seq<(Seq<char>, u32)> {
    top.map_values(|line: SendData| line@)
}

impl View for LeaderboardState {
    type V = Leaderboard;

    open spec fn view(&self) -> Leaderboard {
        match self {
            LeaderboardState::Idle => Leaderboard::Idle,
            LeaderboardState::Loading => Leaderboard::Loading,
            LeaderboardState::Ready(top) => Leaderboard::Ready(lines_of(top@)),
            LeaderboardState::Error(message) => Leaderboard::Error(message@),
        }
    }
}

impl Default for LeaderboardState {
    fn default() -> (state: LeaderboardState)
        ensures
            state@ == Leaderboard::Idle,
    {
        LeaderboardState::Idle
    }
}

/// Copies a top list line by line.
fn copy_lines(top: &Vec<SendData>) -> (copy: Vec<SendData>)
    ensures
        lines_of(copy@) == lines_of(top@),
{
    let mut copy: Vec<SendData> = Vec::new();
    let mut i: usize = 0;
    while i < top.len()
        invariant
            i <= top.len(),
            copy@.len() == i,
            forall|k: int| 0 <= k < i ==> (#[trigger] copy@[k])@ == top@[k]@,
        decreases top.len() - i,
    {
        copy.push(top[i].clone());
        i += 1;
    }
    assert(lines_of(copy@) =~= lines_of(top@));
    copy
}

impl Clone for LeaderboardState {
    fn clone(&self) -> (copy: LeaderboardState)
        ensures
            copy@ == self@,
    {
        match self {
            LeaderboardState::Idle => LeaderboardState::Idle,
            LeaderboardState::Loading => LeaderboardState::Loading,
            LeaderboardState::Ready(top) => LeaderboardState::Ready(copy_lines(top)),
            LeaderboardState::Error(message) => LeaderboardState::Error(message.clone()),
        }
    }
}

/// A reply of the leaderboard server to a fetch, taken apart.
pub struct TopResponse {
    /// The server accepted the request.
    pub ok: bool,
    /// The top list; empty where the reply has none.
    pub top: Vec<SendData>,
    /// The server's complaint, if it sent one.
    pub error: Option<String>,
}

/// What a reply means: the top list if the server accepted the request,
/// else its complaint, or "Server error" if it sent none.
pub open spec fn reply_meaning(reply: TopResponse) -> Leaderboard {
    if reply.ok {
        Leaderboard::Ready(lines_of(reply.top@))
    } else {
        match reply.error {
            Some(message) => Leaderboard::Error(message@),
            None => Leaderboard::Error("Server error"@),
        }
    }
}

impl LeaderboardState {
    /// The state that a reply of the server leads to.
    pub fn from_reply(reply: TopResponse) -> (state: LeaderboardState)
        ensures
            state@ == reply_meaning(reply),
    {
        if reply.ok {
            LeaderboardState::Ready(reply.top)
        } else {
            match reply.error {
                Some(message) => LeaderboardState::Error(message),
                None => LeaderboardState::Error("Server error".to_owned()),
            }
        }
    }
}

/// A nickname may hold ASCII letters, underscores and spaces.
pub open spec fn allowed_char(ch: char) -> bool {
    ('a' <= ch && ch <= 'z') || ('A' <= ch && ch <= 'Z') || ch == '_' || ch == ' '
}

/// Tells whether a nickname may hold the character.
pub fn is_allowed_char(ch: char) -> (yes: bool)
    ensures
        yes == allowed_char(ch),
{
    ('a' <= ch && ch <= 'z') || ('A' <= ch && ch <= 'Z') || ch == '_' || ch == ' '
}

/// What is kept of a typed nickname: its allowed characters in their order,
/// and of those the first [`NICKNAME_MAX`].
pub open spec fn cleaned(typed: Seq<char>) -> Seq<char> {
    let kept = kept_chars(typed);
    if kept.len() > NICKNAME_MAX {
        kept.take(NICKNAME_MAX as int)
    } else {
        kept
    }
}

/// The allowed characters of a text, in their order.
pub open spec fn kept_chars(typed: Seq<char>) -> Seq<char> {
    typed.filter(|ch: char| allowed_char(ch))
}

/// Drops the characters that a nickname may not hold, with
/// `String::retain`, which keeps the characters that the predicate accepts
/// in their order.
#[verifier::external_body]
fn retain_allowed(text: &mut String)
    ensures
        final(text)@ == kept_chars(old(text)@),
{
    text.retain(|ch| is_allowed_char(ch));
}

/// Cuts the text to `new_len` characters with `String::truncate`, which does
/// nothing to a text that is not longer. `String::truncate` counts bytes and
/// panics off a character boundary, so the text must be ASCII.
#[verifier::external_body]
fn truncate_ascii(text: &mut String, new_len: usize)
    requires
        old(text).is_ascii(),
    ensures
        final(text)@ == (if new_len < old(text)@.len() {
            old(text)@.take(new_len as int)
        } else {
            old(text)@
        }),
{
    text.truncate(new_len);
}

/// Takes what may be there from the channel without waiting, with
/// `Receiver::try_recv`. Nothing is promised of the outcome: it depends on
/// whether the sender has sent yet.
#[verifier::external_body]
fn try_receive(channel: &Receiver<LeaderboardState>) -> (arrived: Option<LeaderboardState>) {
    channel.try_recv().ok()
}

/// The leaderboard client.
pub struct WebClient {
    nickname: String,
    leaderboard: LeaderboardState,
    lb_rx: Option<Receiver<LeaderboardState>>,
}

impl WebClient {
    #[verifier::type_invariant]
    spec fn nickname_is_clean(self) -> bool {
        &&& self.nickname@.len() <= NICKNAME_MAX
        &&& forall|i: int| 0 <= i < self.nickname@.len() ==> allowed_char(#[trigger] self.nickname@[i])
    }

    /// The nickname.
    pub closed spec fn nickname(self) -> Seq<char> {
        self.nickname@
    }

    /// The state of the last fetch.
    pub closed spec fn leaderboard(self) -> Leaderboard {
        self.leaderboard@
    }

    /// The channel from which the outcome of the fetch under way is
    /// expected, if a fetch is under way.
    pub closed spec fn awaited(self) -> Option<Receiver<LeaderboardState>> {
        self.lb_rx
    }

    /// A fetch is under way and its outcome has not been taken yet.
    pub open spec fn waiting(self) -> bool {
        self.awaited() is Some
    }

    /// A client without a nickname that has fetched nothing yet.
    pub fn new() -> (client: WebClient)
        ensures
            client.nickname() == Seq::<char>::empty(),
            client.leaderboard() == Leaderboard::Idle,
            !client.waiting(),
    {
        WebClient { nickname: String::new(), leaderboard: LeaderboardState::Idle, lb_rx: None }
    }

    /// Takes the text as the new nickname, cleaned: only ASCII letters,
    /// underscores and spaces are kept, and of those the first sixteen.
    pub fn change_nickname(&mut self, nickname: String)
        ensures
            final(self).nickname() == cleaned(nickname@),
            final(self).leaderboard() == old(self).leaderboard(),
            final(self).awaited() == old(self).awaited(),
    {
        let mut text = nickname;
        retain_allowed(&mut text);
        proof {
            lemma_filtered_is_allowed(nickname@);
            lemma_allowed_is_ascii(text@);
        }
        truncate_ascii(&mut text, NICKNAME_MAX);
        assert(text@ == cleaned(nickname@));
        assert forall|i: int| 0 <= i < text@.len() implies allowed_char(#[trigger] text@[i]) by {
            assert(text@[i] == kept_chars(nickname@)[i]);
        }
        self.nickname = text;
    }

    /// The nickname is long enough to be submitted: two characters or more.
    pub fn is_available_name(&self) -> (available: bool)
        ensures
            available == (self.nickname().len() >= NICKNAME_MIN),
    {
        proof {
            use_type_invariant(self);
            lemma_allowed_is_ascii(self.nickname@);
            vstd::utf8::is_ascii_chars_encode_utf8(self.nickname@);
        }
        let slice = self.nickname.as_str();
        assert(slice.spec_bytes().len() == self.nickname@.len());
        slice.len() >= NICKNAME_MIN
    }

    /// A copy of the nickname.
    pub fn get_nickname(&self) -> (nickname: String)
        ensures
            nickname@ == self.nickname(),
    {
        self.nickname.clone()
    }

    /// The record to submit for a game that ended with `scores` points.
    pub fn send_web_data(&self, scores: u32) -> (data: SendData)
        ensures
            data@ == (self.nickname(), scores),
    {
        SendData { score: scores, name: self.nickname.clone() }
    }

    /// What becomes of the client when the channel was asked: if something
    /// had arrived it is the new state and the fetch is over, else nothing
    /// changes and the same channel is waited on.
    pub open spec fn received(self, after: WebClient, arrived: Option<LeaderboardState>) -> bool {
        &&& after.nickname() == self.nickname()
        &&& match arrived {
            Some(state) => after.leaderboard() == state@ && after.awaited() is None,
            None => after.leaderboard() == self.leaderboard() && after.awaited() == self.awaited(),
        }
    }

    /// Takes in the answer of the channel: a state that has arrived replaces
    /// the current one and ends the fetch.
    pub fn receive(&mut self, arrived: Option<LeaderboardState>)
        ensures
            old(self).received(*final(self), arrived),
    {
        proof {
            use_type_invariant(&*self);
        }
        match arrived {
            Some(new_state) => {
                self.leaderboard = new_state;
                self.lb_rx = None;
            },
            None => {},
        }
    }

    /// Looks once, without waiting, whether the fetch under way has ended,
    /// and takes its outcome if so. Without a fetch under way nothing
    /// happens.
    pub fn poll_network(&mut self)
        ensures
            !old(self).waiting() ==> old(self).received(*final(self), None),
            old(self).waiting() ==> exists|arrived: Option<LeaderboardState>|
                old(self).received(*final(self), arrived),
    {
        let arrived = match &self.lb_rx {
            Some(rx) => try_receive(rx),
            None => None,
        };
        self.receive(arrived);
        assert(old(self).received(*self, arrived));
    }

    /// A copy of the state of the last fetch.
    pub fn get_leaderboard(&self) -> (state: LeaderboardState)
        ensures
            state@ == self.leaderboard(),
    {
        self.leaderboard.clone()
    }

    /// Starts a fetch, whatever came before: the state becomes
    /// [`LeaderboardState::Loading`] and the outcome is expected from
    /// `channel` and from no other. A channel that was still waited on is
    /// let go, so that what an earlier fetch ends with is never looked at:
    /// the last request wins. Hands back `true`, for the caller to send the
    /// request.
    pub fn get_leaderboard_data(&mut self, channel: Receiver<LeaderboardState>) -> (started: bool)
        ensures
            started,
            final(self).nickname() == old(self).nickname(),
            final(self).leaderboard() == Leaderboard::Loading,
            final(self).waiting(),
            final(self).awaited() == Some(channel),
    {
        proof {
            use_type_invariant(&*self);
        }
        self.leaderboard = LeaderboardState::Loading;
        self.lb_rx = Some(channel);
        true
    }
}

impl Default for WebClient {
    fn default() -> (client: WebClient)
        ensures
            client.nickname() == Seq::<char>::empty(),
            client.leaderboard() == Leaderboard::Idle,
            !client.waiting(),
    {
        WebClient::new()
    }
}

/// Filtering leaves allowed characters only.
proof fn lemma_filtered_is_allowed(typed: Seq<char>)
    ensures
        forall|i: int|
            0 <= i < kept_chars(typed).len() ==> allowed_char(#[trigger] kept_chars(typed)[i]),
{
    let pred = |ch: char| allowed_char(ch);
    assert forall|i: int| 0 <= i < kept_chars(typed).len() implies allowed_char(
        #[trigger] kept_chars(typed)[i],
    ) by {
        typed.lemma_filter_pred(pred, i);
        assert(pred(typed.filter(pred)[i]));
    }
}

/// A text of allowed characters is ASCII.
proof fn lemma_allowed_is_ascii(text: Seq<char>)
    requires
        forall|i: int| 0 <= i < text.len() ==> allowed_char(#[trigger] text[i]),
    ensures
        vstd::utf8::is_ascii_chars(text),
{
}

} // verus!
