//! One WebSocket connection in the Phoenix wire format.
//!
//! Each topic that a client joins is served by a channel of its own. The connection answers
//! heartbeats, opens channels on `phx_join`, closes them on `phx_leave`, and hands every other
//! message to the channel of its topic. A channel that ends is reported to the client: with
//! `phx_close` where it is done, with an error reply to its join where the join is refused, with
//! `phx_error` where it failed later.

use vstd::prelude::*;

use crate::json;
use crate::json::Json;
use crate::phoenix;
use crate::phoenix::events;
use crate::phoenix::{InitResult, InitView, PhxMessage, PhxView};
use crate::registry::Registry;
use crate::text;

verus! {

/// What serves a topic.
#[derive(Debug, Clone, Copy, PartialEq, Eq, Structural)]
pub enum ChannelKind {
    Watch,
    Acp,
    Mcp,
    Terminal,
    Recording,
    Upload,
}

/// What serves a topic, by its prefix.
pub open spec fn kind_of(topic: Seq<char>) -> Option<ChannelKind> {
    if text::starts_with(topic, "watch:"@) {
        Some(ChannelKind::Watch)
    } else if text::starts_with(topic, "acp:"@) {
        Some(ChannelKind::Acp)
    } else if text::starts_with(topic, "mcp:"@) {
        Some(ChannelKind::Mcp)
    } else if text::starts_with(topic, "terminal:"@) {
        Some(ChannelKind::Terminal)
    } else if text::starts_with(topic, "recording:"@) {
        Some(ChannelKind::Recording)
    } else if text::starts_with(topic, "upload:"@) {
        Some(ChannelKind::Upload)
    } else {
        None
    }
}

/// What serves a topic, by its prefix. Unknown topics have none.
pub fn dispatch_join(topic: &str) -> (r: Option<ChannelKind>)
    ensures
        r == kind_of(topic@),
{
    if text::has_prefix(topic, "watch:") {
        Some(ChannelKind::Watch)
    } else if text::has_prefix(topic, "acp:") {
        Some(ChannelKind::Acp)
    } else if text::has_prefix(topic, "mcp:") {
        Some(ChannelKind::Mcp)
    } else if text::has_prefix(topic, "terminal:") {
        Some(ChannelKind::Terminal)
    } else if text::has_prefix(topic, "recording:") {
        Some(ChannelKind::Recording)
    } else if text::has_prefix(topic, "upload:") {
        Some(ChannelKind::Upload)
    } else {
        None
    }
}

/// What is to be done with a message of the client.
pub enum Incoming {
    Nothing,
    /// Send this to the client.
    Reply(PhxMessage),
    /// Open a channel, in place of the one that served the topic, if any.
    Join { kind: ChannelKind, msg: PhxMessage },
    /// Close the channel of the topic, if any, and send the reply.
    Leave { topic: String, reply: PhxMessage },
    /// Hand the message to the channel of its topic.
    Forward(PhxMessage),
}

/// The model of an [`Incoming`].
pub enum IncomingView {
    Nothing,
    Reply(PhxView),
    Join { kind: ChannelKind, msg: PhxView },
    Leave { topic: Seq<char>, reply: PhxView },
    Forward(PhxView),
}

impl View for Incoming {
    type V = IncomingView;

    open spec fn view(&self) -> IncomingView {
        match self {
            Incoming::Nothing => IncomingView::Nothing,
            Incoming::Reply(m) => IncomingView::Reply(m@),
            Incoming::Join { kind, msg } => IncomingView::Join { kind: *kind, msg: msg@ },
            Incoming::Leave { topic, reply } => IncomingView::Leave { topic: topic@, reply: reply@ },
            Incoming::Forward(m) => IncomingView::Forward(m@),
        }
    }
}

/// The topics that a client has joined.
pub type Channels = Map<Seq<char>, ChannelKind>;

/// What is to be done with a message, and the topics that are joined afterwards.
pub open spec fn handled(channels: Channels, msg: PhxView) -> (Channels, IncomingView) {
    if msg.topic == "phoenix"@ && msg.event == events::HEARTBEAT@ {
        (channels, IncomingView::Reply(phoenix::heartbeat_view(msg)))
    } else if msg.event == events::PHX_JOIN@ {
        match kind_of(msg.topic) {
            Some(kind) => (channels.insert(msg.topic, kind), IncomingView::Join { kind, msg }),
            None => (
                channels,
                IncomingView::Reply(phoenix::error_view(msg.topic, msg.join_ref, "unknown topic"@)),
            ),
        }
    } else if msg.event == events::PHX_LEAVE@ {
        (
            channels.remove(msg.topic),
            IncomingView::Leave {
                topic: msg.topic,
                reply: phoenix::reply_view(msg, "ok"@, json::empty_object()),
            },
        )
    } else if channels.contains_key(msg.topic) {
        (channels, IncomingView::Forward(msg))
    } else {
        (channels, IncomingView::Nothing)
    }
}

/// What is to be done with a message that may not be readable.
pub open spec fn handled_if_read(channels: Channels, msg: Result<PhxView, Seq<char>>) -> (
    Channels,
    IncomingView,
) {
    match msg {
        Ok(msg) => handled(channels, msg),
        Err(_) => (channels, IncomingView::Nothing),
    }
}

/// What the client is told when a channel has ended.
pub open spec fn ended(join: PhxView, result: InitView) -> PhxView {
    match result {
        InitView::Done => phoenix::close_view(join.topic, join.join_ref),
        InitView::Error(reason) => phoenix::reply_view(join, "error"@, phoenix::reason_json(reason)),
        InitView::Shutdown(reason) => phoenix::error_view(join.topic, join.join_ref, reason),
    }
}

/// A connection.
pub struct Connection {
    pub channels: Registry<ChannelKind>,
}

impl View for Connection {
    type V = Channels;

    open spec fn view(&self) -> Channels {
        self.channels@
    }
}

impl Connection {
    /// The table is well formed.
    pub open spec fn wf(&self) -> bool {
        self.channels.wf()
    }

    /// A connection on which nothing is joined.
    pub fn new() -> (r: Self)
        ensures
            r.wf(),
            r@ == Map::<Seq<char>, ChannelKind>::empty(),
    {
        Connection { channels: Registry::new() }
    }

    /// Decides what is to be done with a message of the client.
    pub fn handle_message(&mut self, msg: PhxMessage) -> (r: Incoming)
        requires
            old(self).wf(),
        ensures
            final(self).wf(),
            (final(self)@, r@) == handled(old(self)@, msg@),
    {
        if text::same_text(msg.topic.as_str(), "phoenix") && text::same_text(
            msg.event.as_str(),
            events::HEARTBEAT,
        ) {
            return Incoming::Reply(PhxMessage::heartbeat_reply(&msg));
        }
        if text::same_text(msg.event.as_str(), events::PHX_JOIN) {
            match dispatch_join(msg.topic.as_str()) {
                Some(kind) => {
                    self.channels.insert(msg.topic.clone(), kind);
                    Incoming::Join { kind, msg }
                },
                None => Incoming::Reply(
                    PhxMessage::error(msg.topic.as_str(), msg.join_ref, "unknown topic"),
                ),
            }
        } else if text::same_text(msg.event.as_str(), events::PHX_LEAVE) {
            let _ = self.channels.remove(msg.topic.as_str());
            let reply = PhxMessage::ok_reply(&msg, Json::object());
            Incoming::Leave { topic: msg.topic, reply }
        } else if self.channels.contains_key(msg.topic.as_str()) {
            Incoming::Forward(msg)
        } else {
            Incoming::Nothing
        }
    }

    /// Decides what is to be done with a text of the client. A text that is no message is ignored.
    pub fn handle_text(&mut self, data: &str) -> (r: Incoming)
        requires
            old(self).wf(),
        ensures
            final(self).wf(),
            (final(self)@, r@) == handled_if_read(old(self)@, phoenix::decoded(data@)),
    {
        match PhxMessage::decode(data) {
            Ok(msg) => self.handle_message(msg),
            Err(_) => Incoming::Nothing,
        }
    }

    /// Decides what is to be done with binary data of the client. Data that is no message is
    /// ignored.
    pub fn handle_binary(&mut self, data: &[u8]) -> (r: Incoming)
        requires
            old(self).wf(),
        ensures
            final(self).wf(),
            (final(self)@, r@) == handled_if_read(old(self)@, phoenix::decoded_binary(data@)),
    {
        match PhxMessage::decode_binary(data) {
            Ok(msg) => self.handle_message(msg),
            Err(_) => Incoming::Nothing,
        }
    }

    /// The channel of a topic has ended. The client is told where it ended unexpectedly and had not
    /// been left.
    pub fn channel_exited(&mut self, topic: &str, join_ref: Option<String>, panicked: bool) -> (r: Option<
        PhxMessage,
    >)
        requires
            old(self).wf(),
        ensures
            final(self).wf(),
            final(self)@ == old(self)@.remove(topic@),
            r is Some == (panicked && old(self)@.contains_key(topic@)),
            r is Some ==> r->0@ == phoenix::error_view(
                topic@,
                json::opt_text(join_ref),
                "channel exited unexpectedly"@,
            ),
    {
        let joined = self.channels.remove(topic).is_some();
        if joined && panicked {
            Some(PhxMessage::error(topic, join_ref, "channel exited unexpectedly"))
        } else {
            None
        }
    }
}

/// What the client is told when a channel has ended. `join` is the message that opened it.
pub fn end_message(join: &PhxMessage, result: InitResult) -> (r: PhxMessage)
    ensures
        r@ == ended(join@, result@),
{
    match result {
        InitResult::Done => PhxMessage::close(join.topic.as_str(), phoenix::clone_text(&join.join_ref)),
        InitResult::Error(reason) => PhxMessage::error_reply(join, reason.as_str()),
        InitResult::Shutdown(reason) => PhxMessage::error(
            join.topic.as_str(),
            phoenix::clone_text(&join.join_ref),
            reason.as_str(),
        ),
    }
}

/// A channel gets the messages of its topic from its join until it is left, and no others.
pub proof fn lemma_channel_life(channels: Channels, join: PhxView, msg: PhxView, leave: PhxView)
    requires
        join.event == events::PHX_JOIN@,
        join.topic != "phoenix"@,
        kind_of(join.topic) is Some,
        msg.topic == join.topic,
        msg.event != events::PHX_JOIN@,
        msg.event != events::PHX_LEAVE@,
        leave.topic == join.topic,
        leave.event == events::PHX_LEAVE@,
    ensures
        ({
            let joined = handled(channels, join).0;
            let left = handled(joined, leave).0;
            &&& handled(joined, msg) == (joined, IncomingView::Forward(msg))
            &&& handled(left, msg) == (left, IncomingView::Nothing)
        }),
{
    reveal_strlit("phx_join");
    reveal_strlit("phx_leave");
    assert(events::PHX_JOIN@.len() != events::PHX_LEAVE@.len());
}

/// A message changes nothing for the other topics.
pub proof fn lemma_topics_are_apart(channels: Channels, msg: PhxView, topic: Seq<char>)
    requires
        topic != msg.topic,
    ensures
        handled(channels, msg).0.contains_key(topic) == channels.contains_key(topic),
        channels.contains_key(topic) ==> handled(channels, msg).0[topic] == channels[topic],
{
}

/// A heartbeat is always answered, with the reference of the request.
pub proof fn lemma_heartbeat_is_answered(channels: Channels, msg: PhxView)
    requires
        msg.topic == "phoenix"@,
        msg.event == events::HEARTBEAT@,
    ensures
        handled(channels, msg) == (channels, IncomingView::Reply(phoenix::heartbeat_view(msg))),
        phoenix::heartbeat_view(msg).ref_ == msg.ref_,
{
}

/// The kind of a channel goes by the beginning of its topic, and any other topic has none.
pub proof fn lemma_kinds(topic: Seq<char>, rest: Seq<char>)
    ensures
        kind_of("watch:"@ + rest) == Some(ChannelKind::Watch),
        kind_of("acp:"@ + rest) == Some(ChannelKind::Acp),
        kind_of("mcp:"@ + rest) == Some(ChannelKind::Mcp),
        kind_of("terminal:"@ + rest) == Some(ChannelKind::Terminal),
        kind_of("recording:"@ + rest) == Some(ChannelKind::Recording),
        kind_of("upload:"@ + rest) == Some(ChannelKind::Upload),
        kind_of(topic) is Some ==> text::starts_with(topic, "watch:"@) || text::starts_with(topic, "acp:"@)
            || text::starts_with(topic, "mcp:"@) || text::starts_with(topic, "terminal:"@)
            || text::starts_with(topic, "recording:"@) || text::starts_with(topic, "upload:"@),
{
    reveal_strlit("watch:");
    reveal_strlit("acp:");
    reveal_strlit("mcp:");
    reveal_strlit("terminal:");
    reveal_strlit("recording:");
    reveal_strlit("upload:");
    text::laws::lemma_prefixes(topic, "watch:"@, rest);
    text::laws::lemma_prefixes(topic, "acp:"@, rest);
    text::laws::lemma_prefixes(topic, "mcp:"@, rest);
    text::laws::lemma_prefixes(topic, "terminal:"@, rest);
    text::laws::lemma_prefixes(topic, "recording:"@, rest);
    text::laws::lemma_prefixes(topic, "upload:"@, rest);
    assert(("acp:"@ + rest)[0] == 'a');
    assert(("mcp:"@ + rest)[0] == 'm');
    assert(("terminal:"@ + rest)[0] == 't');
    assert(("recording:"@ + rest)[0] == 'r');
    assert(("upload:"@ + rest)[0] == 'u');
    lemma_first_char("acp:"@ + rest, "watch:"@);
    lemma_first_char("mcp:"@ + rest, "watch:"@);
    lemma_first_char("mcp:"@ + rest, "acp:"@);
    lemma_first_char("terminal:"@ + rest, "watch:"@);
    lemma_first_char("terminal:"@ + rest, "acp:"@);
    lemma_first_char("terminal:"@ + rest, "mcp:"@);
    lemma_first_char("recording:"@ + rest, "watch:"@);
    lemma_first_char("recording:"@ + rest, "acp:"@);
    lemma_first_char("recording:"@ + rest, "mcp:"@);
    lemma_first_char("recording:"@ + rest, "terminal:"@);
    lemma_first_char("upload:"@ + rest, "watch:"@);
    lemma_first_char("upload:"@ + rest, "acp:"@);
    lemma_first_char("upload:"@ + rest, "mcp:"@);
    lemma_first_char("upload:"@ + rest, "terminal:"@);
    lemma_first_char("upload:"@ + rest, "recording:"@);
}

proof fn lemma_first_char(topic: Seq<char>, prefix: Seq<char>)
    requires
        topic.len() > 0,
        prefix.len() > 0,
        topic[0] != prefix[0],
    ensures
        !text::starts_with(topic, prefix),
{
    if text::starts_with(topic, prefix) {
        assert(topic.take(prefix.len() as int)[0] == topic[0]);
    }
}

/// Handing in a message: a heartbeat is answered; a join of a topic with a kind opens its channel, and of
/// another is refused; a leave closes the channel and is answered; anything else goes to the channel of
/// its topic as it is, if there is one.
pub proof fn lemma_message_call(connection: &mut Connection, msg: PhxMessage, r: Incoming)
    requires
        call_ensures(Connection::handle_message, (connection, msg), r),
    ensures
        ({
            let before = old(connection)@;
            let after = final(connection)@;
            let m = msg@;
            let beat = m.topic == "phoenix"@ && m.event == "heartbeat"@;
            &&& beat ==> after == before && r@ == IncomingView::Reply(phoenix::heartbeat_view(m))
            &&& !beat && m.event == "phx_join"@ && kind_of(m.topic) is Some ==> after == before.insert(
                m.topic,
                kind_of(m.topic)->0,
            ) && r@ == (IncomingView::Join { kind: kind_of(m.topic)->0, msg: m })
            &&& !beat && m.event == "phx_join"@ && kind_of(m.topic) is None ==> after == before && r@
                == IncomingView::Reply(
                PhxView {
                    join_ref: m.join_ref,
                    ref_: None,
                    topic: m.topic,
                    event: "phx_error"@,
                    payload: phoenix::PayloadView::Json(
                        json::JsonView::Obj(map!["reason"@ => json::JsonView::Str("unknown topic"@)]),
                    ),
                },
            )
            &&& !beat && m.event == "phx_leave"@ ==> after == before.remove(m.topic) && r@ == (
            IncomingView::Leave {
                topic: m.topic,
                reply: phoenix::reply_view(
                    m,
                    "ok"@,
                    json::JsonView::Obj(Map::<Seq<char>, json::JsonView>::empty()),
                ),
            })
            &&& !beat && m.event != "phx_join"@ && m.event != "phx_leave"@ ==> after == before && r@ == (
            if before.contains_key(m.topic) {
                IncomingView::Forward(m)
            } else {
                IncomingView::Nothing
            })
        }),
{
    reveal_strlit("phx_join");
    reveal_strlit("phx_leave");
    assert("phx_join"@.len() == 8);
    assert("phx_leave"@.len() == 9);
}

/// Texts and bytes are handled as the messages that they hold. What holds none is passed over.
pub proof fn lemma_frame_calls(connection: &mut Connection, data: &str, r: Incoming)
    requires
        call_ensures(Connection::handle_text, (connection, data), r),
    ensures
        phoenix::decoded(data@) is Err ==> final(connection)@ == old(connection)@ && r@ is Nothing,
        phoenix::decoded(data@) is Ok ==> (final(connection)@, r@) == handled(
            old(connection)@,
            phoenix::decoded(data@)->Ok_0,
        ),
{
}

/// Bytes are handled as the message that they hold. Bytes that hold none are passed over.
pub proof fn lemma_binary_call(connection: &mut Connection, data: &[u8], r: Incoming)
    requires
        call_ensures(Connection::handle_binary, (connection, data), r),
    ensures
        phoenix::decoded_binary(data@) is Err ==> final(connection)@ == old(connection)@ && r@ is Nothing,
        phoenix::decoded_binary(data@) is Ok ==> (final(connection)@, r@) == handled(
            old(connection)@,
            phoenix::decoded_binary(data@)->Ok_0,
        ),
{
}

/// A channel whose task ends is forgotten. Its client is told only if the task failed before the channel
/// was left.
pub proof fn lemma_exit_call(
    connection: &mut Connection,
    topic: &str,
    join_ref: Option<String>,
    panicked: bool,
    r: Option<PhxMessage>,
)
    requires
        call_ensures(Connection::channel_exited, (connection, topic, join_ref, panicked), r),
    ensures
        final(connection)@ == old(connection)@.remove(topic@),
        r is Some <==> panicked && old(connection)@.contains_key(topic@),
        r is Some ==> r->0@ == (PhxView {
            join_ref: json::opt_text(join_ref),
            ref_: None,
            topic: topic@,
            event: "phx_error"@,
            payload: phoenix::PayloadView::Json(
                json::JsonView::Obj(map!["reason"@ => json::JsonView::Str("channel exited unexpectedly"@)]),
            ),
        }),
{
}

/// A channel that is done is closed, a join that failed is answered with the reason, and a channel that
/// broke down is ended with the reason.
pub proof fn lemma_end_call(join: &PhxMessage, result: InitResult, r: PhxMessage)
    requires
        call_ensures(end_message, (join, result), r),
    ensures
        result@ is Done ==> r@ == phoenix::close_view(join@.topic, join@.join_ref),
        result@ is Error ==> r@ == phoenix::reply_view(
            join@,
            "error"@,
            phoenix::reason_json(result@->Error_0),
        ),
        result@ is Shutdown ==> r@ == phoenix::error_view(join@.topic, join@.join_ref, result@->Shutdown_0),
{
}

} // verus!
