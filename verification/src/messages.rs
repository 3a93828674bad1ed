//! What clients and the server tell each other over a WebSocket.

use vstd::prelude::*;

verus! {

/// A member of a room, as the others see it.
pub struct PresenceUser {
    pub username: String,
    pub color: String,
}

pub struct PresenceUserView {
    pub username: Seq<char>,
    pub color: Seq<char>,
}

impl View for PresenceUser {
    type V = PresenceUserView;

    open spec fn view(&self) -> PresenceUserView {
        PresenceUserView { username: self.username@, color: self.color@ }
    }
}

/// What a client says. A coordinate is the bit pattern of a single-precision number.
pub enum ClientWsMessage {
    Replace { version: u64, content: String },
    Ping,
    Cursor { x: u32, y: u32, basis: Option<String> },
    Selection { ids: Vec<String> },
}

/// What the server says. A coordinate is the bit pattern of a single-precision number.
pub enum ServerWsMessage {
    Init { version: u64, content: String, your_id: String },
    Update { version: u64, content: String, username: String, sender_id: String },
    Error { message: String },
    Pong,
    PresenceSnapshot { users: Vec<PresenceUser> },
    PresenceJoin { username: String, color: String },
    PresenceLeave { username: String },
    Cursor { username: String, x: u32, y: u32, basis: Option<String>, sender_id: String },
    Selection { username: String, ids: Vec<String>, sender_id: String },
    AiStatus { username: String, job_id: String, phase: String, detail: String },
}

pub enum ClientMessageView {
    Replace { version: u64, content: Seq<char> },
    Ping,
    Cursor { x: u32, y: u32, basis: Option<Seq<char>> },
    Selection { ids: Seq<Seq<char>> },
}

pub enum ServerMessageView {
    Init { version: u64, content: Seq<char>, your_id: Seq<char> },
    Update { version: u64, content: Seq<char>, username: Seq<char>, sender_id: Seq<char> },
    Error { message: Seq<char> },
    Pong,
    PresenceSnapshot { users: Seq<PresenceUserView> },
    PresenceJoin { username: Seq<char>, color: Seq<char> },
    PresenceLeave { username: Seq<char> },
    Cursor {
        username: Seq<char>,
        x: u32,
        y: u32,
        basis: Option<Seq<char>>,
        sender_id: Seq<char>,
    },
    Selection { username: Seq<char>, ids: Seq<Seq<char>>, sender_id: Seq<char> },
    AiStatus { username: Seq<char>, job_id: Seq<char>, phase: Seq<char>, detail: Seq<char> },
}

/// The texts of some strings.
pub open spec fn strings(v: Seq<String>) -> Seq<Seq<char>> {
    v.map_values(|s: String| s@)
}

/// The views of some members.
pub open spec fn users_view(v: Seq<PresenceUser>) -> Seq<PresenceUserView> {
    v.map_values(|u: PresenceUser| u@)
}

impl View for ClientWsMessage {
    type V = ClientMessageView;

    open spec fn view(&self) -> ClientMessageView {
        match *self {
            ClientWsMessage::Replace { version, content } => ClientMessageView::Replace {
                version,
                content: content@,
            },
            ClientWsMessage::Ping => ClientMessageView::Ping,
            ClientWsMessage::Cursor { x, y, basis } => ClientMessageView::Cursor {
                x,
                y,
                basis: crate::outside::opt_text(basis),
            },
            ClientWsMessage::Selection { ids } => ClientMessageView::Selection { ids: strings(ids@) },
        }
    }
}

impl View for ServerWsMessage {
    type V = ServerMessageView;

    open spec fn view(&self) -> ServerMessageView {
        match *self {
            ServerWsMessage::Init { version, content, your_id } => ServerMessageView::Init {
                version,
                content: content@,
                your_id: your_id@,
            },
            ServerWsMessage::Update { version, content, username, sender_id } => {
                ServerMessageView::Update {
                    version,
                    content: content@,
                    username: username@,
                    sender_id: sender_id@,
                }
            },
            ServerWsMessage::Error { message } => ServerMessageView::Error { message: message@ },
            ServerWsMessage::Pong => ServerMessageView::Pong,
            ServerWsMessage::PresenceSnapshot { users } => ServerMessageView::PresenceSnapshot {
                users: users_view(users@),
            },
            ServerWsMessage::PresenceJoin { username, color } => ServerMessageView::PresenceJoin {
                username: username@,
                color: color@,
            },
            ServerWsMessage::PresenceLeave { username } => ServerMessageView::PresenceLeave {
                username: username@,
            },
            ServerWsMessage::Cursor { username, x, y, basis, sender_id } => {
                ServerMessageView::Cursor {
                    username: username@,
                    x,
                    y,
                    basis: crate::outside::opt_text(basis),
                    sender_id: sender_id@,
                }
            },
            ServerWsMessage::Selection { username, ids, sender_id } => {
                ServerMessageView::Selection {
                    username: username@,
                    ids: strings(ids@),
                    sender_id: sender_id@,
                }
            },
            ServerWsMessage::AiStatus { username, job_id, phase, detail } => {
                ServerMessageView::AiStatus {
                    username: username@,
                    job_id: job_id@,
                    phase: phase@,
                    detail: detail@,
                }
            },
        }
    }
}

/// The bit pattern of zero.
pub const ZERO_BITS: u32 = 0;

/// The bit pattern of one.
pub const ONE_BITS: u32 = 0x3f80_0000;

/// The bit pattern of a number below zero: the sign is set, something else is too, and it is a
/// number.
pub open spec fn below_zero(bits: u32) -> bool {
    0x8000_0000 < bits <= 0xff80_0000
}

/// The bit pattern of a number above one. Patterns of positive numbers are ordered as the numbers
/// are.
pub open spec fn above_one(bits: u32) -> bool {
    ONE_BITS < bits <= 0x7f80_0000
}

/// A coordinate kept between zero and one. What is no number stays as it is.
pub open spec fn clamped(bits: u32) -> u32 {
    if below_zero(bits) {
        ZERO_BITS
    } else if above_one(bits) {
        ONE_BITS
    } else {
        bits
    }
}

/// Keeps a coordinate between zero and one.
pub fn clamp_unit(bits: u32) -> (r: u32)
    ensures
        r == clamped(bits),
{
    if 0x8000_0000 < bits && bits <= 0xff80_0000 {
        ZERO_BITS
    } else if ONE_BITS < bits && bits <= 0x7f80_0000 {
        ONE_BITS
    } else {
        bits
    }
}

/// Coordinates are kept between zero and one as numbers are: what is below zero becomes zero, what is
/// above one becomes one, and what lies between, zero with a minus sign, and what is no number stay as
/// they are. A bit pattern without a sign is that of a number up to infinity, and grows with it.
pub proof fn coordinates_are_kept_inside(bits: u32)
    ensures
        bits <= 0x3f80_0000u32 ==> clamped(bits) == bits,
        0x3f80_0000u32 <= bits <= 0x7f80_0000u32 ==> clamped(bits) == 0x3f80_0000u32,
        0x7f80_0000u32 < bits <= 0x8000_0000u32 ==> clamped(bits) == bits,
        0x8000_0000u32 < bits <= 0xff80_0000u32 ==> clamped(bits) == 0,
        0xff80_0000u32 < bits ==> clamped(bits) == bits,
{
}

} // verus!
