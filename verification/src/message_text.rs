use vstd::prelude::*;

use crate::state::{AttachmentInfo, DashboardState};
use crate::text_util::{decimal, join_with, lemma_join_push, push_chars, push_decimal, push_str};
use crate::unicode::{str_chars, string_from_chars};

verus! {

/// How an attachment reads in a message: `[kind: name]` and, when both are known,
/// ` WxH`.
pub open spec fn attachment_text(a: AttachmentInfo) -> Seq<char> {
    let kind = if a.is_image {
        "image"@
    } else if a.is_video {
        "video"@
    } else {
        "file"@
    };
    let dims = match (a.width, a.height) {
        (Some(w), Some(h)) => " "@ + decimal(w as nat) + "x"@ + decimal(h as nat),
        _ => Seq::empty(),
    };
    "["@ + kind + ": "@ + a.filename@ + "]"@ + dims
}

/// How an attachment reads in a message.
pub fn format_attachment(attachment: &AttachmentInfo) -> (r: String)
    ensures
        r@ == attachment_text(*attachment),
{
    let mut out: Vec<char> = Vec::new();
    push_str(&mut out, "[");
    if attachment.is_image {
        push_str(&mut out, "image");
    } else if attachment.is_video {
        push_str(&mut out, "video");
    } else {
        push_str(&mut out, "file");
    }
    push_str(&mut out, ": ");
    push_chars(&mut out, &str_chars(attachment.filename.as_str()));
    push_str(&mut out, "]");
    let ghost head = out@;
    match (attachment.width, attachment.height) {
        (Some(width), Some(height)) => {
            push_str(&mut out, " ");
            push_decimal(&mut out, width);
            push_str(&mut out, "x");
            push_decimal(&mut out, height);
            proof {
                assert(out@ =~= head + (" "@ + decimal(width as nat) + "x"@ + decimal(height as nat)));
            }
        },
        _ => {
            proof {
                assert(out@ =~= head + Seq::<char>::empty());
            }
        },
    }
    proof {
        assert(out@ =~= attachment_text(*attachment));
    }
    string_from_chars(out.as_slice())
}

/// The text of each attachment.
pub open spec fn attachment_texts(attachments: Seq<AttachmentInfo>) -> Seq<Seq<char>> {
    attachments.map_values(|a: AttachmentInfo| attachment_text(a))
}

/// The text of each attachment, in order.
pub fn format_attachment_summary_lines(attachments: &[AttachmentInfo]) -> (r: Vec<String>)
    ensures
        r@.len() == attachments@.len(),
        forall|i: int| 0 <= i < r@.len() ==> #[trigger] r@[i]@ == attachment_text(attachments@[i]),
{
    let mut lines: Vec<String> = Vec::new();
    let mut i: usize = 0;
    while i < attachments.len()
        invariant
            i <= attachments@.len(),
            lines@.len() == i,
            forall|j: int| 0 <= j < i ==> #[trigger] lines@[j]@ == attachment_text(attachments@[j]),
        decreases attachments@.len() - i,
    {
        lines.push(format_attachment(&attachments[i]));
        i = i + 1;
    }
    lines
}

/// The attachments of a message as one line, their texts joined by ` | `.
pub fn format_attachment_summary(attachments: &[AttachmentInfo]) -> (r: String)
    ensures
        r@ == join_with(attachment_texts(attachments@), " | "@),
{
    let lines = format_attachment_summary_lines(attachments);
    let mut out: Vec<char> = Vec::new();
    let mut i: usize = 0;
    proof {
        assert(attachment_texts(attachments@).take(0) =~= Seq::<Seq<char>>::empty());
    }
    while i < lines.len()
        invariant
            i <= lines@.len(),
            lines@.len() == attachments@.len(),
            forall|j: int| 0 <= j < lines@.len() ==> #[trigger] lines@[j]@ == attachment_text(attachments@[j]),
            out@ == join_with(attachment_texts(attachments@).take(i as int), " | "@),
        decreases lines@.len() - i,
    {
        let ghost parts = attachment_texts(attachments@).take(i as int);
        proof {
            lemma_join_push(parts, " | "@, lines@[i as int]@);
            assert(attachment_texts(attachments@).take(i + 1) =~= parts.push(lines@[i as int]@));
        }
        if i > 0 {
            push_str(&mut out, " | ");
        }
        push_chars(&mut out, &str_chars(lines[i].as_str()));
        i = i + 1;
    }
    proof {
        assert(attachment_texts(attachments@).take(i as int) =~= attachment_texts(attachments@));
    }
    string_from_chars(out.as_slice())
}

/// Most chars of a connection error the header shows.
pub const HEADER_ERROR_MAX_CHARS: usize = 96;

/// A connection error as the header shows it: its first chars, with `...` when it
/// was cut.
pub open spec fn truncated_error(error: Seq<char>) -> Seq<char> {
    if error.len() > HEADER_ERROR_MAX_CHARS {
        error.take(HEADER_ERROR_MAX_CHARS as int) + "..."@
    } else {
        error
    }
}

/// A connection error cut to what the header shows.
pub fn truncate_header_error(error: &str) -> (r: String)
    ensures
        r@ == truncated_error(error@),
{
    let chars = str_chars(error);
    let mut out: Vec<char> = Vec::new();
    let mut i: usize = 0;
    while i < chars.len() && i < HEADER_ERROR_MAX_CHARS
        invariant
            i <= chars@.len(),
            i <= HEADER_ERROR_MAX_CHARS,
            out@ == chars@.take(i as int),
        decreases chars@.len() - i,
    {
        out.push(chars[i]);
        i = i + 1;
        proof {
            assert(out@ =~= chars@.take(i as int));
        }
    }
    if i < chars.len() {
        push_str(&mut out, "...");
    } else {
        proof {
            assert(chars@.take(i as int) =~= chars@);
        }
    }
    string_from_chars(out.as_slice())
}

/// How a piece of the header line is drawn.
#[derive(Clone, Copy, Debug, PartialEq, Eq, Structural)]
pub enum HeaderTone {
    Title,
    Label,
    User,
    /// A voice mark (muted, deafened), drawn like a status without emphasis.
    Mark,
    Status,
    Error,
    Dim,
}

/// What the header line shows beside the title.
pub struct HeaderStatus {
    /// The signed-in user's name, once connected.
    pub current_user: Option<String>,
    /// Whether the user muted and deafened themselves in voice.
    pub self_mute: bool,
    pub self_deaf: bool,
    /// A newer release's version, when one is available.
    pub update_available_version: Option<String>,
    /// The voice channel the user is connected to.
    pub voice_connection_label: Option<String>,
}

/// The pieces of the header line for `status`, with the connection error
/// `gateway_error` shown while not connected.
pub open spec fn header_pieces(status: HeaderStatus, gateway_error: Option<Seq<char>>) -> Seq<
    (Seq<char>, HeaderTone),
> {
    let title = seq![(Seq::<char>::empty(), HeaderTone::Title)];
    let connection = match status.current_user {
        Some(user) => seq![(" Connected as "@, HeaderTone::Label), (user@ + " "@, HeaderTone::User)]
            + (if status.self_mute {
            seq![("\u{1F507} "@, HeaderTone::Mark)]
        } else {
            Seq::empty()
        }) + (if status.self_deaf {
            seq![("\u{1F3A7} "@, HeaderTone::Mark)]
        } else {
            Seq::empty()
        }),
        None => match gateway_error {
            Some(e) => seq![(" Connection issue: "@ + truncated_error(e) + " "@, HeaderTone::Error)],
            None => seq![(" Loading... "@, HeaderTone::Status)],
        },
    };
    let update = match status.update_available_version {
        Some(v) => seq![(" New version available: v"@ + v@ + " "@, HeaderTone::Status)],
        None => Seq::empty(),
    };
    let voice = match status.voice_connection_label {
        Some(l) => seq![(" Voice "@, HeaderTone::Dim), (l@ + " "@, HeaderTone::Status)],
        None => Seq::empty(),
    };
    title + connection + update + voice
}

/// The text of each piece.
pub open spec fn piece_texts(pieces: Seq<(String, HeaderTone)>) -> Seq<(Seq<char>, HeaderTone)> {
    pieces.map_values(|p: (String, HeaderTone)| (p.0@, p.1))
}

fn piece(head: &str, middle: Option<&str>, tail: &str, tone: HeaderTone) -> (r: (String, HeaderTone))
    ensures
        r.0@ == head@ + (match middle {
            Some(m) => m@,
            None => Seq::empty(),
        }) + tail@,
        r.1 == tone,
{
    let mut out: Vec<char> = Vec::new();
    push_str(&mut out, head);
    match middle {
        Some(m) => push_str(&mut out, m),
        None => {},
    }
    push_str(&mut out, tail);
    proof {
        if middle is None {
            assert(out@ =~= head@ + Seq::<char>::empty() + tail@);
        }
    }
    (string_from_chars(out.as_slice()), tone)
}

/// The pieces of the header line: the title, then the connection state (the user
/// with their voice mute and deafen marks, the connection error cut short, or a
/// loading note), the available update and the voice channel.
pub fn header_spans(status: &HeaderStatus, gateway_error: Option<&str>) -> (r: Vec<(String, HeaderTone)>)
    ensures
        piece_texts(r@) == header_pieces(
            *status,
            match gateway_error {
                Some(e) => Some(e@),
                None => None,
            },
        ),
{
    let mut spans: Vec<(String, HeaderTone)> = Vec::new();
    spans.push(piece("", None, "", HeaderTone::Title));
    match &status.current_user {
        Some(user) => {
            spans.push(piece(" Connected as ", None, "", HeaderTone::Label));
            spans.push(piece("", Some(user.as_str()), " ", HeaderTone::User));
            if status.self_mute {
                spans.push(piece("\u{1F507} ", None, "", HeaderTone::Mark));
            }
            if status.self_deaf {
                spans.push(piece("\u{1F3A7} ", None, "", HeaderTone::Mark));
            }
        },
        None => match gateway_error {
            Some(error) => {
                let cut = truncate_header_error(error);
                spans.push(piece(" Connection issue: ", Some(cut.as_str()), " ", HeaderTone::Error));
            },
            None => {
                spans.push(piece(" Loading... ", None, "", HeaderTone::Status));
            },
        },
    }
    match &status.update_available_version {
        Some(version) => {
            spans.push(piece(" New version available: v", Some(version.as_str()), " ", HeaderTone::Status));
        },
        None => {},
    }
    match &status.voice_connection_label {
        Some(label) => {
            spans.push(piece(" Voice ", None, "", HeaderTone::Dim));
            spans.push(piece("", Some(label.as_str()), " ", HeaderTone::Status));
        },
        None => {},
    }
    proof {
        reveal_strlit("");
        assert(piece_texts(spans@) =~= header_pieces(
            *status,
            match gateway_error {
                Some(e) => Some(e@),
                None => None,
            },
        ));
    }
    spans
}

/// A message as the client's events name it.
#[derive(Clone, Copy, Debug, PartialEq, Eq, Structural)]
pub struct MessageRef {
    pub channel_id: u64,
    pub message_id: u64,
    pub author_id: u64,
}

/// The client events that bring new messages.
#[derive(Debug)]
pub enum MessageEvent {
    /// A message was sent.
    MessageCreate { message: MessageRef },
    /// Messages after `after` were loaded for `channel_id`; `catch_up` says the load
    /// caught up on what was missed.
    MessageHistoryAfterLoaded { channel_id: u64, after: u64, messages: Vec<MessageRef>, catch_up: bool },
    Other,
}

/// Whether `m` is a message of `channel_id` newer than `after`.
pub open spec fn is_newer_in(m: MessageRef, channel_id: u64, after: u64) -> bool {
    m.channel_id == channel_id && m.message_id > after
}

/// The oldest of `messages` that is newer than `after` in `channel_id`.
pub open spec fn first_newer(messages: Seq<MessageRef>, channel_id: u64, after: u64) -> Option<u64>
    decreases messages.len(),
{
    if messages.len() == 0 {
        None
    } else {
        let rest = first_newer(messages.drop_last(), channel_id, after);
        let m = messages.last();
        if !is_newer_in(m, channel_id, after) {
            rest
        } else {
            match rest {
                Some(x) => if m.message_id < x {
                    Some(m.message_id)
                } else {
                    Some(x)
                },
                None => Some(m.message_id),
            }
        }
    }
}

/// The message of the open channel that an event brings: a sent message, or the
/// oldest newer message of a catch-up load; `None` for other channels and events.
pub open spec fn active_channel_message_spec(active: Option<u64>, event: MessageEvent) -> Option<(u64, u64)> {
    match event {
        MessageEvent::MessageCreate { message } => if active == Some(message.channel_id) {
            Some((message.channel_id, message.message_id))
        } else {
            None
        },
        MessageEvent::MessageHistoryAfterLoaded { channel_id, after, messages, catch_up } => {
            if !catch_up {
                None
            } else {
                match first_newer(messages@, channel_id, after) {
                    None => None,
                    Some(first) => if active == Some(channel_id) {
                        Some((channel_id, first))
                    } else {
                        None
                    },
                }
            }
        },
        MessageEvent::Other => None,
    }
}

impl DashboardState {
    /// The message of the open channel that `event` brings, if any.
    pub fn active_channel_message_create(&self, event: &MessageEvent) -> (r: Option<(u64, u64)>)
        ensures
            r == active_channel_message_spec(self.navigation.channels.active_channel_id, *event),
    {
        let active = self.navigation.channels.active_channel_id;
        match event {
            MessageEvent::MessageCreate { message } => {
                if active == Some(message.channel_id) {
                    Some((message.channel_id, message.message_id))
                } else {
                    None
                }
            },
            MessageEvent::MessageHistoryAfterLoaded { channel_id, after, messages, catch_up } => {
                if !*catch_up {
                    return None;
                }
                let mut best: Option<u64> = None;
                let mut i: usize = 0;
                while i < messages.len()
                    invariant
                        i <= messages@.len(),
                        best == first_newer(messages@.take(i as int), *channel_id, *after),
                    decreases messages@.len() - i,
                {
                    let m = messages[i];
                    proof {
                        assert(messages@.take(i + 1).drop_last() =~= messages@.take(i as int));
                        assert(messages@.take(i + 1).last() == m);
                    }
                    if m.channel_id == *channel_id && m.message_id > *after {
                        best = match best {
                            Some(x) => if m.message_id < x {
                                Some(m.message_id)
                            } else {
                                Some(x)
                            },
                            None => Some(m.message_id),
                        };
                    }
                    i = i + 1;
                }
                proof {
                    assert(messages@.take(i as int) =~= messages@);
                }
                match best {
                    Some(first) => {
                        if active == Some(*channel_id) {
                            Some((*channel_id, first))
                        } else {
                            None
                        }
                    },
                    None => None,
                }
            },
            MessageEvent::Other => None,
        }
    }

    /// Whether `event` is a message the signed-in user sent in the open channel.
    pub fn event_is_self_message_in_active_channel(&self, event: &MessageEvent) -> (r: bool)
        ensures
            r == (event matches MessageEvent::MessageCreate { message } && self.discord.current_user_id
                == Some(message.author_id) && self.navigation.channels.active_channel_id == Some(
                message.channel_id,
            )),
    {
        match event {
            MessageEvent::MessageCreate { message } => {
                self.discord.current_user_id == Some(message.author_id)
                    && self.navigation.channels.active_channel_id == Some(message.channel_id)
            },
            _ => false,
        }
    }
}

} // verus!
