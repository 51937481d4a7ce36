use vstd::prelude::*;

use crate::plugin::{enabled_names, enabled_plugins, texts};
use crate::text::{replace_all, replaced};

verus! {

/// A chatbox text and a console text.
pub type ChatMessage = (String, String);

/// What one plugin's chat stage gave back.
pub enum ChatReply {
    /// The plugin exports no chat stage.
    Missing,
    /// The stage failed.
    Failed,
    /// The stage produced a new chatbox text and console text.
    Replied(String, String),
}

/// The message after one stage: the stage's reply where it gave one, else
/// the message it was handed.
pub open spec fn after_reply(message: ChatMessage, reply: ChatReply) -> ChatMessage {
    match reply {
        ChatReply::Replied(chatbox, console) => (chatbox, console),
        _ => message,
    }
}

/// The message after the stages that gave `replies`, in their order.
pub open spec fn after_replies(message: ChatMessage, replies: Seq<ChatReply>) -> ChatMessage
    decreases replies.len(),
{
    if replies.len() == 0 {
        message
    } else {
        after_reply(after_replies(message, replies.drop_last()), replies.last())
    }
}

/// Threads `message` through one plugin's chat stage.
pub fn apply_reply(message: ChatMessage, reply: ChatReply) -> (r: ChatMessage)
    ensures
        r == after_reply(message, reply),
{
    match reply {
        ChatReply::Replied(chatbox, console) => (chatbox, console),
        _ => message,
    }
}

/// A stage that gives no reply, because it is missing or failed, can be
/// left out of the pipeline, wherever it stands, without changing the result.
pub proof fn lemma_silent_stage_is_skipped(
    message: ChatMessage,
    replies: Seq<ChatReply>,
    i: int,
    reply: ChatReply,
)
    requires
        0 <= i <= replies.len(),
        !(reply is Replied),
    ensures
        after_replies(message, replies.insert(i, reply)) == after_replies(message, replies),
    decreases replies.len(),
{
    let longer = replies.insert(i, reply);
    if i == replies.len() {
        assert(longer.drop_last() =~= replies);
    } else {
        lemma_silent_stage_is_skipped(message, replies.drop_last(), i, reply);
        assert(longer.drop_last() =~= replies.drop_last().insert(i, reply));
        assert(longer.last() == replies.last());
    }
}

/// One run of the chat pipeline: the enabled plugins in the order they were
/// named, how many of them have had their turn, and the message so far.
pub struct ChatPipeline {
    pub stages: Vec<String>,
    pub done: usize,
    pub message: ChatMessage,
    pub initial: Ghost<ChatMessage>,
    pub replies: Ghost<Seq<ChatReply>>,
}

impl ChatPipeline {
    /// The message so far is what the stages that had their turn made of the
    /// initial one.
    pub open spec fn wf(&self) -> bool {
        &&& self.done <= self.stages@.len()
        &&& self.replies@.len() == self.done
        &&& self.message == after_replies(self.initial@, self.replies@)
    }

    /// A run that hands `message` to the plugins among `names` that `enabled`
    /// holds, in the order of `names`.
    pub fn new(message: ChatMessage, names: &Vec<String>, enabled: &Vec<String>) -> (r: ChatPipeline)
        ensures
            r.wf(),
            texts(r.stages@) == enabled_names(texts(names@), texts(enabled@)),
            r.done == 0,
            r.initial@ == message,
            r.message == message,
    {
        let stages = enabled_plugins(names, enabled);
        ChatPipeline {
            stages,
            done: 0,
            message,
            initial: Ghost(message),
            replies: Ghost(Seq::empty()),
        }
    }

    /// The plugin whose turn it is, or `None` once every one has had its turn.
    pub fn next_stage(&self) -> (r: Option<String>)
        requires
            self.wf(),
        ensures
            self.done < self.stages@.len() ==> r == Some(self.stages@[self.done as int]),
            self.done == self.stages@.len() ==> r is None,
    {
        if self.done < self.stages.len() {
            Some(self.stages[self.done].clone())
        } else {
            None
        }
    }

    /// The message to hand to the plugin whose turn it is.
    pub fn current(&self) -> (r: ChatMessage)
        ensures
            r == self.message,
    {
        (self.message.0.clone(), self.message.1.clone())
    }

    /// Records what the plugin whose turn it was gave back.
    pub fn record(&mut self, reply: ChatReply)
        requires
            old(self).wf(),
            old(self).done < old(self).stages@.len(),
        ensures
            final(self).wf(),
            final(self).stages == old(self).stages,
            final(self).initial == old(self).initial,
            final(self).done == old(self).done + 1,
            final(self).replies@ == old(self).replies@.push(reply),
            final(self).message == after_reply(old(self).message, reply),
    {
        let n = self.stages.len();
        assert(self.done < n);
        let ghost replies = self.replies@.push(reply);
        assert(replies.drop_last() =~= self.replies@);
        let current = self.current();
        self.message = apply_reply(current, reply);
        self.replies = Ghost(replies);
        self.done = self.done + 1;
    }

    /// The message that the run ends with.
    pub fn finish(self) -> (r: ChatMessage)
        requires
            self.wf(),
        ensures
            r == after_replies(self.initial@, self.replies@),
    {
        self.message
    }
}

/// The track that a music plugin reports.
pub struct Track {
    pub name: String,
    pub artist: String,
    pub url: String,
}

/// A message template with the track's name and artist written into its
/// `{song}`, `{artist}` and `{artists}` placeholders.
pub open spec fn filled(template: Seq<char>, song: Seq<char>, artist: Seq<char>) -> Seq<char> {
    replaced(replaced(replaced(template, "{song}"@, song), "{artist}"@, artist), "{artists}"@, artist)
}

/// Writes the track into the placeholders of `message`.
pub fn replace(message: &mut String, track: &Track)
    ensures
        final(message)@ == filled(old(message)@, track.name@, track.artist@),
{
    proof {
        reveal_strlit("{song}");
        reveal_strlit("{artist}");
        reveal_strlit("{artists}");
    }
    let a = replace_all(message.as_str(), "{song}", track.name.as_str());
    let b = replace_all(a.as_str(), "{artist}", track.artist.as_str());
    *message = replace_all(b.as_str(), "{artists}", track.artist.as_str());
}

} // verus!
