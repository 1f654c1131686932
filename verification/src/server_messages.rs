use vstd::prelude::*;
use vstd::utf8::encode_utf8;
use crate::packet::{jstr_bytes, put_byte, put_bytes, Packet};

verus! {

/// How a message counts against the bandwidth a script can spend.
#[derive(Clone, Copy, PartialEq, Eq, Structural, Debug)]
pub enum ServerProtocolPriority {
    /// Counted by the buffer-full check (low priority, content).
    BUFFERED,
    /// Not counted by the buffer-full check (high priority, engine messages).
    IMMEDIATE,
}

/// A server packet type: its opcode and its length (negative for a variable length whose
/// size prefix has that many bytes).
#[derive(Clone, Copy, PartialEq, Eq, Structural, Debug)]
pub struct ServerProtocol {
    pub id: i32,
    pub length: i32,
}

impl ServerProtocol {
    /// A packet type with opcode `id` and length `length`.
    pub fn new(id: i32, length: i32) -> (p: ServerProtocol)
        ensures
            p == (ServerProtocol { id, length }),
    {
        ServerProtocol { id, length }
    }

    /// Map rebuild around the player.
    pub fn rebuild_normal() -> (p: ServerProtocol)
        ensures
            p == (ServerProtocol { id: 162, length: -2i32 }),
    {
        ServerProtocol { id: 162, length: -2 }
    }

    /// Npc update.
    pub fn npc_info() -> (p: ServerProtocol)
        ensures
            p == (ServerProtocol { id: 32, length: -2i32 }),
    {
        ServerProtocol { id: 32, length: -2 }
    }

    /// Player update.
    pub fn player_info() -> (p: ServerProtocol)
        ensures
            p == (ServerProtocol { id: 225, length: -2i32 }),
    {
        ServerProtocol { id: 225, length: -2 }
    }

    /// A client variable with a small value.
    pub fn client_setvarc_small() -> (p: ServerProtocol)
        ensures
            p == (ServerProtocol { id: 65, length: 5 }),
    {
        ServerProtocol { id: 65, length: 5 }
    }

    /// A client variable with a large value.
    pub fn client_setvarc_large() -> (p: ServerProtocol)
        ensures
            p == (ServerProtocol { id: 69, length: 8 }),
    {
        ServerProtocol { id: 69, length: 8 }
    }

    /// Opening an interface inside another.
    pub fn if_opensub() -> (p: ServerProtocol)
        ensures
            p == (ServerProtocol { id: 145, length: 5 }),
    {
        ServerProtocol { id: 145, length: 5 }
    }

    /// Logging out.
    pub fn logout() -> (p: ServerProtocol)
        ensures
            p == (ServerProtocol { id: 86, length: 0 }),
    {
        ServerProtocol { id: 86, length: 0 }
    }

    /// Run energy.
    pub fn update_runenergy() -> (p: ServerProtocol)
        ensures
            p == (ServerProtocol { id: 234, length: 1 }),
    {
        ServerProtocol { id: 234, length: 1 }
    }

    /// Carried weight.
    pub fn update_runweight() -> (p: ServerProtocol)
        ensures
            p == (ServerProtocol { id: 159, length: 2 }),
    {
        ServerProtocol { id: 159, length: 2 }
    }

    /// The reboot countdown.
    pub fn update_reboot_time() -> (p: ServerProtocol)
        ensures
            p == (ServerProtocol { id: 85, length: 2 }),
    {
        ServerProtocol { id: 85, length: 2 }
    }

    /// A song.
    pub fn midi_song() -> (p: ServerProtocol)
        ensures
            p == (ServerProtocol { id: 4, length: 2 }),
    {
        ServerProtocol { id: 4, length: 2 }
    }

    /// A jingle.
    pub fn midi_jingle() -> (p: ServerProtocol)
        ensures
            p == (ServerProtocol { id: 208, length: 5 }),
    {
        ServerProtocol { id: 208, length: 5 }
    }

    /// A sound effect.
    pub fn synth_sound() -> (p: ServerProtocol)
        ensures
            p == (ServerProtocol { id: 172, length: 5 }),
    {
        ServerProtocol { id: 172, length: 5 }
    }
}

/// A packet type of the info (player and npc update) messages.
#[derive(Clone, Copy, PartialEq, Eq, Structural, Debug)]
pub struct InfoProtocol {
    pub protocol: ServerProtocol,
}

impl InfoProtocol {
    /// An info packet type with opcode `id` and length `length`.
    pub fn new(id: i32, length: i32) -> (p: InfoProtocol)
        ensures
            p.protocol == (ServerProtocol { id, length }),
    {
        InfoProtocol { protocol: ServerProtocol::new(id, length) }
    }

    /// The opcode.
    pub fn id(&self) -> (id: i32)
        ensures
            id == self.protocol.id,
    {
        self.protocol.id
    }

    /// The length.
    pub fn length(&self) -> (length: i32)
        ensures
            length == self.protocol.length,
    {
        self.protocol.length
    }
}

/// A client packet type: its opcode and its length.
#[derive(Clone, Copy, PartialEq, Eq, Structural, Debug)]
pub struct ClientProtocol {
    pub id: i32,
    pub length: i32,
}

impl ClientProtocol {
    /// The keep-alive packet.
    pub fn no_timeout() -> (p: ClientProtocol)
        ensures
            p == (ClientProtocol { id: 93, length: 0 }),
    {
        ClientProtocol { id: 93, length: 0 }
    }

    /// The client packet type with opcode `id`, if it is known.
    pub fn by_id(id: i32) -> (p: Option<ClientProtocol>)
        ensures
            p == (if id == 93 {
                Some(ClientProtocol { id: 93, length: 0 })
            } else {
                None
            }),
    {
        if id == 93 {
            Some(Self::no_timeout())
        } else {
            None
        }
    }
}

/// A message the server sends, with the priority it is queued at.
pub trait OutgoingMessage {
    /// The priority of the message.
    fn priority(&self) -> ServerProtocolPriority;
}

/// Writes one kind of outgoing message into a packet.
pub trait MessageEncoder<T: OutgoingMessage> {
    /// The packet type written.
    fn protocol(&self) -> ServerProtocol;

    /// Writes `message` at the cursor of `packet`.
    fn encode(&self, packet: &mut Packet, message: &T);
}

/// A message of player or npc information.
#[derive(Clone, Copy, PartialEq, Eq, Structural, Debug)]
pub struct InfoMessage {}

impl InfoMessage {
    /// An info message.
    pub fn new() -> (m: InfoMessage)
        ensures
            m == (InfoMessage {}),
    {
        InfoMessage {}
    }

    /// Whether the message stays queued after it is sent: it does not.
    pub fn persists(&self) -> (b: bool)
        ensures
            !b,
    {
        false
    }
}

impl OutgoingMessage for InfoMessage {
    fn priority(&self) -> (p: ServerProtocolPriority)
        ensures
            p == ServerProtocolPriority::IMMEDIATE,
    {
        ServerProtocolPriority::IMMEDIATE
    }
}

/// A message about a zone.
#[derive(Clone, Copy, PartialEq, Eq, Structural, Debug)]
pub struct ZoneMessage {}

impl ZoneMessage {
    /// A zone message.
    pub fn new() -> (m: ZoneMessage)
        ensures
            m == (ZoneMessage {}),
    {
        ZoneMessage {}
    }

    /// Whether the message stays queued after it is sent: it does not.
    pub fn persists(&self) -> (b: bool)
        ensures
            !b,
    {
        false
    }
}

/// Opens interface `interface_id` in component `component_id` of window `window_id`.
#[allow(non_camel_case_types)]
#[derive(Clone, Copy, PartialEq, Eq, Structural, Debug)]
pub struct If_OpenSub {
    pub window_id: u32,
    pub component_id: u32,
    pub interface_id: u32,
    pub flags: u32,
    pub verify_id: u32,
}

impl If_OpenSub {
    /// The message opening `interface_id` in component `component_id` of window `window_id`.
    pub fn new(window_id: u32, component_id: u32, interface_id: u32, flags: u32, verify_id: u32) -> (m: If_OpenSub)
        ensures
            m == (If_OpenSub { window_id, component_id, interface_id, flags, verify_id }),
    {
        If_OpenSub { window_id, component_id, interface_id, flags, verify_id }
    }
}

impl OutgoingMessage for If_OpenSub {
    fn priority(&self) -> (p: ServerProtocolPriority)
        ensures
            p == ServerProtocolPriority::IMMEDIATE,
    {
        ServerProtocolPriority::IMMEDIATE
    }
}

/// The interface type of a top-level interface that keeps the previous one.
pub const DEFAULT: u8 = 0;

/// The interface type of a top-level interface that resets the previous one.
pub const RESET: u8 = 2;

/// Opens top-level interface `interface_id`.
#[allow(non_camel_case_types)]
#[derive(Clone, Copy, PartialEq, Eq, Structural, Debug)]
pub struct If_OpenTop {
    pub interface_id: u32,
    pub interface_type: u8,
    pub verify_id: u32,
}

impl If_OpenTop {
    /// The message opening top-level interface `interface_id`, resetting the previous one
    /// when `interface_type` is set.
    pub fn new(interface_id: u32, interface_type: bool, verify_id: u32) -> (m: If_OpenTop)
        ensures
            m == (If_OpenTop {
                interface_id,
                interface_type: if interface_type {
                    RESET
                } else {
                    DEFAULT
                },
                verify_id,
            }),
    {
        If_OpenTop {
            interface_id,
            interface_type: if interface_type {
                RESET
            } else {
                DEFAULT
            },
            verify_id,
        }
    }
}

impl OutgoingMessage for If_OpenTop {
    fn priority(&self) -> (p: ServerProtocolPriority)
        ensures
            p == ServerProtocolPriority::IMMEDIATE,
    {
        ServerProtocolPriority::IMMEDIATE
    }
}

/// A game message to show in the chat box.
#[allow(non_camel_case_types)]
pub struct Message_Game {
    pub message: String,
}

impl Message_Game {
    /// The game message `message`.
    pub fn new(message: String) -> (m: Message_Game)
        ensures
            m.message@ == message@,
    {
        Message_Game { message }
    }
}

impl OutgoingMessage for Message_Game {
    fn priority(&self) -> (p: ServerProtocolPriority)
        ensures
            p == ServerProtocolPriority::IMMEDIATE,
    {
        ServerProtocolPriority::IMMEDIATE
    }
}

/// Writes `If_OpenSub` messages.
#[allow(non_camel_case_types)]
pub struct If_OpenSub_Encoder;

impl If_OpenSub_Encoder {
    /// The encoder.
    pub fn new() -> If_OpenSub_Encoder {
        If_OpenSub_Encoder
    }
}

/// Writes `If_OpenTop` messages.
#[allow(non_camel_case_types)]
pub struct If_OpenTop_Encoder;

impl If_OpenTop_Encoder {
    /// The encoder.
    pub fn new() -> If_OpenTop_Encoder {
        If_OpenTop_Encoder
    }
}

/// Writes the map rebuild message.
pub struct RebuildNormalEncoder;

impl RebuildNormalEncoder {
    /// The encoder.
    pub fn new() -> RebuildNormalEncoder {
        RebuildNormalEncoder
    }

    /// The packet type written.
    pub fn protocol(&self) -> (p: ServerProtocol)
        ensures
            p == (ServerProtocol { id: 162, length: -2i32 }),
    {
        ServerProtocol::rebuild_normal()
    }
}

/// Writes game messages: a length byte (the text's bytes plus its terminator), then the text
/// terminated by a zero byte.
#[allow(non_camel_case_types)]
pub struct Message_Game_Encoder;

impl Message_Game_Encoder {
    /// The encoder.
    pub fn new() -> Message_Game_Encoder {
        Message_Game_Encoder
    }
}

/// The bytes of a game message at `pos` of `data`.
pub open spec fn game_message_bytes(data: Seq<u8>, pos: int, text: Seq<char>) -> Seq<u8> {
    put_bytes(
        put_byte(data, pos, (encode_utf8(text).len() as i32 + 1) as u8),
        pos + 1,
        jstr_bytes(text, 0u8),
    )
}

impl Message_Game_Encoder {
    /// Writes `message` at the cursor of `packet`.
    pub fn encode(&self, packet: &mut Packet, message: &Message_Game)
        requires
            old(packet).position + encode_utf8(message.message@).len() + 2 <= usize::MAX,
            encode_utf8(message.message@).len() as i32 != i32::MAX,
        ensures
            final(packet).data@ == game_message_bytes(
                old(packet).data@,
                old(packet).position as int,
                message.message@,
            ),
            final(packet).position == old(packet).position + 2 + encode_utf8(message.message@).len(),
    {
        let text = message.message.as_str();
        packet.p1(text.len() as i32 + 1);
        packet.pjstr(text, 0);
    }
}

} // verus!
