use vstd::prelude::*;
use vstd::string::StringExecFns;
use vstd::slice::slice_to_vec;
use crate::packet::{
    be16, be16_bytes, be24, be32_bytes, g1_at, g2_at, g3_at, g4_at, lemma_put_at_end, pos_after,
    Packet,
};
use crate::param_helper::readable;
use crate::script_file::g1_pos;

verus! {

/// Client request opcodes of the cache (JS5) protocol.
pub const PREFETCH: u8 = 0;
pub const URGENT: u8 = 1;
pub const LOGGED_IN: u8 = 2;
pub const LOGGED_OUT: u8 = 3;
pub const REKEY: u8 = 4;
pub const CONNECTED: u8 = 6;
pub const DISCONNECT: u8 = 7;

/// Server responses to the opening handshake.
pub const SUCCESS: i32 = 0;
pub const OUT_OF_DATE: i32 = 6;

/// The client build the server accepts.
pub const CLIENT_VERSION: i32 = 530;

/// The archive that holds the index of all archives.
pub const ARCHIVESET: u8 = 255;

/// Size of a response block, of its header and of the marker that starts each later block.
pub const BLOCK_SIZE: usize = 512;
pub const BLOCK_HEADER_SIZE: usize = 4;
pub const BLOCK_DELIMITER_SIZE: usize = 1;
pub const BYTES_BEFORE_BLOCK: usize = 508;
pub const BYTES_AFTER_BLOCK: usize = 511;

/// A request of a cache client.
#[derive(Clone, Copy, PartialEq, Eq, Structural, Debug)]
pub enum Js5Request {
    Group { urgent: bool, archive: u8, group: u16 },
    LoggedIn,
    LoggedOut,
    Rekey { key: u8 },
    Connected,
    Disconnect,
    Invalid,
}

/// The state of a client connection.
#[derive(Clone, Copy, PartialEq, Eq, Structural, Debug)]
pub enum ConnectionState {
    New,
    Connected,
    Login,
    Reconnect,
    Logout,
    Closed,
}

/// A request read at `p` (an opcode byte, then three bytes of payload) with the payload
/// checked where the protocol fixes it, and the cursor after it.
pub open spec fn request_at(d: Seq<u8>, p: int) -> (Js5Request, int) {
    let opcode = g1_at(d, p);
    let q = g1_pos(d, p);
    if opcode == PREFETCH || opcode == URGENT {
        let archive = g1_at(d, q);
        let q1 = g1_pos(d, q);
        (
            Js5Request::Group { urgent: opcode == URGENT, archive, group: g2_at(d, q1) },
            pos_after(d, q1, 2),
        )
    } else if opcode == REKEY {
        let key = g1_at(d, q);
        let q1 = g1_pos(d, q);
        let request = if g2_at(d, q1) != 0 {
            Js5Request::Invalid
        } else {
            Js5Request::Rekey { key }
        };
        (request, pos_after(d, q1, 2))
    } else {
        let payload = g3_at(d, q);
        let request = if opcode == LOGGED_IN {
            if payload != 0 {
                Js5Request::Invalid
            } else {
                Js5Request::LoggedIn
            }
        } else if opcode == LOGGED_OUT {
            Js5Request::LoggedOut
        } else if opcode == CONNECTED {
            if payload != 3 {
                Js5Request::Invalid
            } else {
                Js5Request::Connected
            }
        } else if opcode == DISCONNECT {
            Js5Request::Disconnect
        } else {
            Js5Request::Invalid
        };
        (request, pos_after(d, q, 3))
    }
}

/// Reads one request: a group request names its archive and group; a rekey, logged-in or
/// connected request with an unexpected payload, or an unknown opcode, is invalid.
pub fn read_request(inbound: &mut Packet) -> (r: Js5Request)
    requires
        readable(old(inbound)),
    ensures
        (r, final(inbound).position as int) == request_at(old(inbound).data@, old(inbound).position as int),
        final(inbound).data@ == old(inbound).data@,
        readable(final(inbound)),
{
    let opcode = inbound.g1();
    if opcode == PREFETCH || opcode == URGENT {
        let archive = inbound.g1();
        let group = inbound.g2();
        Js5Request::Group { urgent: opcode == URGENT, archive, group }
    } else if opcode == REKEY {
        let key = inbound.g1();
        if inbound.g2() != 0 {
            Js5Request::Invalid
        } else {
            Js5Request::Rekey { key }
        }
    } else {
        let payload = inbound.g3();
        if opcode == LOGGED_IN {
            if payload != 0 {
                Js5Request::Invalid
            } else {
                Js5Request::LoggedIn
            }
        } else if opcode == LOGGED_OUT {
            Js5Request::LoggedOut
        } else if opcode == CONNECTED {
            if payload != 3 {
                Js5Request::Invalid
            } else {
                Js5Request::Connected
            }
        } else if opcode == DISCONNECT {
            Js5Request::Disconnect
        } else {
            Js5Request::Invalid
        }
    }
}

/// A request read at `p` without checking its payload, and the cursor after it.
pub open spec fn lenient_request_at(d: Seq<u8>, p: int) -> (Js5Request, int) {
    let opcode = g1_at(d, p);
    let q = g1_pos(d, p);
    if opcode == PREFETCH || opcode == URGENT {
        let archive = g1_at(d, q);
        let q1 = g1_pos(d, q);
        (
            Js5Request::Group { urgent: opcode == URGENT, archive, group: g2_at(d, q1) },
            pos_after(d, q1, 2),
        )
    } else if opcode == REKEY {
        (Js5Request::Rekey { key: g1_at(d, q) }, pos_after(d, g1_pos(d, q), 2))
    } else {
        let request = if opcode == LOGGED_IN {
            Js5Request::LoggedIn
        } else if opcode == LOGGED_OUT {
            Js5Request::LoggedOut
        } else if opcode == CONNECTED {
            Js5Request::Connected
        } else if opcode == DISCONNECT {
            Js5Request::Disconnect
        } else {
            Js5Request::Invalid
        };
        (request, pos_after(d, q, 3))
    }
}

/// The last of the requests read from `p` to the end (`last` when there are none).
pub open spec fn last_request(d: Seq<u8>, p: int, last: Js5Request) -> Js5Request
    decreases d.len() - p,
{
    if p < 0 || p >= d.len() || !(((d.len() - p) as i32) > 0) {
        last
    } else {
        let (request, q) = lenient_request_at(d, p);
        if q <= p || q > d.len() {
            request
        } else {
            last_request(d, q, request)
        }
    }
}

/// Reads the requests of a packet without checking their payloads.
pub struct Js5RequestDecoder;

impl Js5RequestDecoder {
    /// Reads requests while bytes remain and returns the last one (`Invalid` when there are
    /// none).
    pub fn decode(input: &mut Packet) -> (r: Js5Request)
        requires
            readable(old(input)),
        ensures
            r == last_request(old(input).data@, old(input).position as int, Js5Request::Invalid),
            final(input).data@ == old(input).data@,
    {
        let ghost d = input.data@;
        let ghost total = last_request(d, input.position as int, Js5Request::Invalid);
        let mut request = Js5Request::Invalid;
        while input.remaining() > 0
            invariant
                input.data@ == d,
                readable(input),
                last_request(d, input.position as int, request) == total,
            decreases d.len() - input.position,
        {
            let ghost p = input.position as int;
            let opcode = input.g1();
            request = if opcode == PREFETCH || opcode == URGENT {
                let archive = input.g1();
                let group = input.g2();
                Js5Request::Group { urgent: opcode == URGENT, archive, group }
            } else if opcode == REKEY {
                let key = input.g1();
                let _unknown = input.g2();
                Js5Request::Rekey { key }
            } else {
                input.g3();
                if opcode == LOGGED_IN {
                    Js5Request::LoggedIn
                } else if opcode == LOGGED_OUT {
                    Js5Request::LoggedOut
                } else if opcode == CONNECTED {
                    Js5Request::Connected
                } else if opcode == DISCONNECT {
                    Js5Request::Disconnect
                } else {
                    Js5Request::Invalid
                }
            };
            assert((request, input.position as int) == lenient_request_at(d, p));
        }
        request
    }
}

/// The response to the opening handshake and the state that follows: the accepted client
/// version connects, any other is told it is out of date and closed.
pub open spec fn handshake_spec(client_version: i32) -> (i32, ConnectionState) {
    if client_version == CLIENT_VERSION {
        (SUCCESS, ConnectionState::Connected)
    } else {
        (OUT_OF_DATE, ConnectionState::Closed)
    }
}

/// Answers the opening handshake: reads the client version (0 from an empty packet),
/// writes the response code and returns the connection's next state.
pub fn handshake(inbound: &mut Packet, outbound: &mut Packet) -> (state: ConnectionState)
    requires
        readable(old(inbound)),
        old(outbound).position < usize::MAX,
    ensures
        ({
            let version = if old(inbound).data@.len() == 0 {
                0i32
            } else {
                g4_at(old(inbound).data@, old(inbound).position as int)
            };
            let (code, next) = handshake_spec(version);
            &&& state == next
            &&& final(outbound).data@ == crate::packet::put_byte(
                old(outbound).data@,
                old(outbound).position as int,
                code as u8,
            )
            &&& final(outbound).position == old(outbound).position + 1
        }),
{
    let client_version = if !inbound.is_empty() {
        inbound.g4()
    } else {
        0
    };
    if client_version == CLIENT_VERSION {
        outbound.p1(SUCCESS);
        ConnectionState::Connected
    } else {
        outbound.p1(OUT_OF_DATE);
        ConnectionState::Closed
    }
}

/// The title-screen request that opens a cache connection.
pub const TITLE_JS5OPEN: u8 = 15;

/// The title-screen request for the world list.
pub const TITLE_WORLDLIST_FETCH: u8 = 23;

/// The state a new connection moves to after its first request (`opcode`, then the four
/// bytes `word`): an accepted cache client is connected and anything else closes.
pub open spec fn new_connection_state(opcode: u8, word: i32) -> ConnectionState {
    if opcode == TITLE_JS5OPEN {
        handshake_spec(word).1
    } else {
        ConnectionState::Closed
    }
}

/// Whether bytes remain to be read, as `Packet::remaining` counts them.
pub open spec fn has_input(packet: &Packet) -> bool {
    ((packet.data@.len() - packet.position) as i32) > 0
}

/// Answers the first request of a new connection: a cache open is answered with the
/// handshake's response code, a world list request with the world list; any other request
/// closes the connection. `None` when there is no input yet.
pub fn new_connection(input: &mut Packet, output: &mut Packet) -> (state: Option<ConnectionState>)
    requires
        readable(old(input)),
        g1_at(old(input).data@, old(input).position as int) == TITLE_WORLDLIST_FETCH
            && has_input(old(input)) ==> g4_at(
            old(input).data@,
            g1_pos(old(input).data@, old(input).position as int),
        ) == 2,
        old(output).position + 16 <= usize::MAX,
    ensures
        !has_input(old(input)) ==> state is None && *final(output) == *old(output),
        has_input(old(input)) ==> state == Some(new_connection_state(
            g1_at(old(input).data@, old(input).position as int),
            g4_at(old(input).data@, g1_pos(old(input).data@, old(input).position as int)),
        )),
        has_input(old(input)) && g1_at(old(input).data@, old(input).position as int)
            == TITLE_JS5OPEN ==> final(output).data@ == crate::packet::put_byte(
            old(output).data@,
            old(output).position as int,
            handshake_spec(
                g4_at(old(input).data@, g1_pos(old(input).data@, old(input).position as int)),
            ).0 as u8,
        ),
        has_input(old(input)) && g1_at(old(input).data@, old(input).position as int)
            == TITLE_WORLDLIST_FETCH ==> final(output).data@ == worldlist_written(
            old(output).data@,
            old(output).position as int,
        ),
        has_input(old(input)) && g1_at(old(input).data@, old(input).position as int) != TITLE_JS5OPEN
            && g1_at(old(input).data@, old(input).position as int) != TITLE_WORLDLIST_FETCH
            ==> *final(output) == *old(output),
{
    if input.remaining() <= 0 {
        return None;
    }
    let opcode = input.g1();
    if opcode == TITLE_JS5OPEN {
        let client_version = input.g4();
        if client_version == CLIENT_VERSION {
            output.p1(SUCCESS);
            Some(ConnectionState::Connected)
        } else {
            output.p1(OUT_OF_DATE);
            Some(ConnectionState::Closed)
        }
    } else if opcode == TITLE_WORLDLIST_FETCH {
        worldlist_response(input, output);
        Some(ConnectionState::Closed)
    } else {
        Some(ConnectionState::Closed)
    }
}

/// The smaller of `a` and `b`.
pub open spec fn min_int(a: int, b: int) -> int {
    if a <= b {
        a
    } else {
        b
    }
}

/// The blocks of a group response after the first: each a 0xFF marker and up to 511 bytes of
/// `data` (skipping its first byte), from `written` up to `size` bytes.
pub open spec fn later_blocks(data: Seq<u8>, written: int, size: int) -> Seq<u8>
    decreases size - written,
{
    if written >= size {
        Seq::empty()
    } else {
        let chunk = min_int(size - written, BYTES_AFTER_BLOCK as int);
        seq![0xFFu8] + data.subrange(written + 1, written + 1 + chunk) + later_blocks(
            data,
            written + chunk,
            size,
        )
    }
}

/// The compression byte of a stored group.
pub open spec fn compression_of(data: Seq<u8>) -> u8 {
    g1_at(data, 0)
}

/// The number of bytes of a stored group that are sent after its compression byte: its
/// length field plus the four bytes of that field, and four more (the uncompressed length)
/// when it is compressed.
pub open spec fn sent_size(data: Seq<u8>) -> int {
    g4_at(data, 1) + if compression_of(data) != 0 {
        8int
    } else {
        4int
    }
}

/// Whether a stored group can be sent: its size is not negative and its bytes are all there.
pub open spec fn group_sendable(data: Seq<u8>) -> bool {
    &&& data.len() >= 1
    &&& 0 <= sent_size(data)
    &&& sent_size(data) + 1 <= data.len()
    &&& sent_size(data) <= i32::MAX
    &&& data.len() + 16 <= usize::MAX
    &&& 2 * data.len() + 16 <= usize::MAX
}

/// The response to a request for a group stored as `data`: archive, group, the compression
/// byte (with the top bit set for an urgent request), then the group's bytes split in blocks
/// of 512 with a 0xFF marker starting each block after the first.
pub open spec fn group_response(urgent: bool, archive: u8, group: u16, data: Seq<u8>) -> Seq<u8> {
    let compression = compression_of(data);
    let size = sent_size(data);
    let first = min_int(size, BYTES_BEFORE_BLOCK as int);
    seq![archive] + be16_bytes(group as i32) + seq![
        if urgent {
            compression | 0x80u8
        } else {
            compression
        },
    ] + data.subrange(1, 1 + first) + later_blocks(data, first, size)
}

/// The response to a request for the archive index: archive and group 255, no compression,
/// the length and the index itself.
pub open spec fn index_response(index: Seq<u8>) -> Seq<u8> {
    seq![ARCHIVESET] + be16_bytes(ARCHIVESET as i32) + seq![0u8] + be32_bytes(index.len() as i32)
        + index
}

/// Whether a group request asks for the archive index.
pub open spec fn is_index_request(request: Js5Request) -> bool {
    request matches Js5Request::Group { archive, group, .. } && archive == ARCHIVESET && group
        == ARCHIVESET as u16
}

/// The smaller of `a` and `b`.
fn min_usize(a: usize, b: usize) -> (r: usize)
    ensures
        r == min_int(a as int, b as int),
{
    if a <= b {
        a
    } else {
        b
    }
}

/// The response carrying the archive index `index`.
fn index_packet(index: &[u8]) -> (out: Packet)
    requires
        index@.len() + 16 <= usize::MAX,
    ensures
        out.data@ == index_response(index@),
        out.position == out.data@.len(),
{
    let length = index.len();
    let mut out = Packet::new(8 + length);
    out.p1(ARCHIVESET as i32);
    let ghost d1 = out.data@;
    assert(d1 =~= seq![ARCHIVESET]);
    out.p2(ARCHIVESET as i32);
    proof {
        lemma_put_at_end(d1, be16_bytes(ARCHIVESET as i32));
    }
    let ghost d2 = out.data@;
    out.p1(0);
    let ghost d3 = out.data@;
    assert(d3 =~= d2.push(0u8));
    out.p4(length as i32);
    proof {
        lemma_put_at_end(d3, be32_bytes(length as i32));
    }
    let ghost d4 = out.data@;
    out.pbytes(index, 0, length);
    proof {
        lemma_put_at_end(d4, index@.subrange(0, length as int));
        assert(index@.subrange(0, length as int) =~= index@);
        assert(out.data@ =~= index_response(index@));
    }
    out
}

/// The response carrying the stored group `data`.
fn group_packet(urgent: bool, archive: u8, group: u16, data: &[u8]) -> (out: Packet)
    requires
        group_sendable(data@),
    ensures
        out.data@ == group_response(urgent, archive, group, data@),
        out.position == out.data@.len(),
{
    let ghost d = data@;
    let ghost total = group_response(urgent, archive, group, d);
    let mut data_packet = Packet::from(slice_to_vec(data));
    let data_len = data_packet.data.len();
    let mut out = Packet::new(data_len + 8);
    out.p1(archive as i32);
    let ghost o1 = out.data@;
    assert(o1 =~= seq![archive]);
    out.p2(group as i32);
    proof {
        lemma_put_at_end(o1, be16_bytes(group as i32));
    }
    let compression = data_packet.g1();
    let flagged = if urgent {
        compression | 0x80
    } else {
        compression
    };
    let ghost o2 = out.data@;
    out.p1(flagged as i32);
    assert(out.data@ =~= o2.push(flagged));
    let extra: i32 = if compression != 0 {
        8
    } else {
        4
    };
    let size = (data_packet.g4() + extra) as usize;
    let mut written = min_usize(size, BYTES_BEFORE_BLOCK);
    let ghost o3 = out.data@;
    out.pbytes(data_packet.data.as_slice(), BLOCK_DELIMITER_SIZE, written);
    proof {
        lemma_put_at_end(o3, d.subrange(1, 1 + written));
        assert(out.data@ + later_blocks(d, written as int, size as int) =~= total);
    }
    while written < size
        invariant
            data_packet.data@ == d,
            group_sendable(d),
            size as int == sent_size(d),
            written <= size,
            out.position == out.data@.len(),
            out.data@.len() <= 4 + 2 * written,
            out.data@ + later_blocks(d, written as int, size as int) == total,
        decreases size - written,
    {
        let ghost before = out.data@;
        out.p1(0xFF);
        assert(out.data@ =~= before.push(0xFFu8));
        let chunk = min_usize(size - written, BYTES_AFTER_BLOCK);
        let ghost mid = out.data@;
        out.pbytes(data_packet.data.as_slice(), written + BLOCK_DELIMITER_SIZE, chunk);
        proof {
            let sub = d.subrange(written + 1, written + 1 + chunk);
            lemma_put_at_end(mid, sub);
            assert(later_blocks(d, written as int, size as int) == seq![0xFFu8] + sub + later_blocks(
                d,
                written + chunk,
                size as int,
            ));
            assert(before + (seq![0xFFu8] + sub + later_blocks(d, written + chunk, size as int)) =~= out.data@
                + later_blocks(d, written + chunk, size as int));
        }
        written += chunk;
    }
    assert(out.data@ + later_blocks(d, written as int, size as int) =~= out.data@);
    out
}

/// Whether `fulfill_request` can answer `request` with `data`: a group that is not the index
/// must be sendable, and the index must leave room for its header.
pub open spec fn can_fulfill(request: Js5Request, data: Seq<u8>) -> bool {
    &&& (request is Group && !is_index_request(request) ==> group_sendable(data))
    &&& (is_index_request(request) ==> data.len() + 16 <= usize::MAX)
}

/// Tests what `fulfill_request` asks of its arguments.
pub fn fulfillable(request: &Js5Request, data: &[u8]) -> (b: bool)
    ensures
        b == can_fulfill(*request, data@),
{
    if data.len() > usize::MAX - 16 {
        return match *request {
            Js5Request::Group { .. } => false,
            _ => true,
        };
    }
    match *request {
        Js5Request::Group { archive, group, .. } => {
            if archive == ARCHIVESET && group == ARCHIVESET as u16 {
                return true;
            }
            if data.len() < 1 || data.len() > (usize::MAX - 16) / 2 {
                return false;
            }
            let mut packet = Packet::from(slice_to_vec(data));
            let compression = packet.g1();
            let length = packet.g4();
            assert(compression == compression_of(data@));
            let extra: i64 = if compression != 0 { 8 } else { 4 };
            let size: i64 = length as i64 + extra;
            assert(size == sent_size(data@));
            0 <= size && size + 1 <= data.len() as i64 && size <= i32::MAX as i64
        },
        _ => true,
    }
}

/// The bytes answering `request`, given the bytes it asks for: the archive index for a request
/// of group 255 of archive 255, else the stored group (nothing for other requests).
pub open spec fn response_to(request: Js5Request, data: Seq<u8>) -> Seq<u8> {
    match request {
        Js5Request::Group { urgent, archive, group } => if is_index_request(request) {
            index_response(data)
        } else {
            group_response(urgent, archive, group, data)
        },
        _ => Seq::empty(),
    }
}

impl Js5Request {
    /// The response to `request`, given the bytes it asks for (the archive index for a request
    /// of group 255 of archive 255, else the stored group). Requests other than group requests
    /// are refused.
    pub fn fulfill_request(request: &Js5Request, data: &[u8]) -> (r: Result<Packet, String>)
        requires
            request matches Js5Request::Group { .. } && !is_index_request(*request) ==> group_sendable(data@),
            is_index_request(*request) ==> data@.len() + 16 <= usize::MAX,
        ensures
            r is Err <==> !(request is Group),
            r matches Err(msg) ==> msg@ == "Invalid JS5 request"@,
            r matches Ok(p) ==> p.position == p.data@.len() && p.data@ == response_to(
                *request,
                data@,
            ),
    {
        match *request {
            Js5Request::Group { urgent, archive, group } => {
                if archive == ARCHIVESET && group == ARCHIVESET as u16 {
                    Ok(index_packet(data))
                } else {
                    Ok(group_packet(urgent, archive, group, data))
                }
            },
            _ => Err(String::from_str("Invalid JS5 request")),
        }
    }
}

/// The canned world list that follows the response code.
pub open spec fn worldlist_bytes() -> Seq<u8> {
    seq![1u8, 1, 1, 128, 191, 0, 0, 1, 1, 1, 0, 0, 0, 0, 0, 0, 0, 0, 0, 0, 0, 0, 0, 1, 0, 0, 40, 1, 0, 20]
}

/// The length of the world list reply that a client whose list has checksum 2 is sent.
pub open spec fn worldlist_reply_len() -> int {
    8
}

/// `out` with the world list reply written at `pos`: response code 0, the reply's length and
/// that many bytes of the canned world list.
pub open spec fn worldlist_written(out: Seq<u8>, pos: int) -> Seq<u8> {
    crate::packet::put_bytes(
        crate::packet::put_bytes(
            crate::packet::put_byte(out, pos, 0u8),
            pos + 1,
            be16_bytes(worldlist_reply_len() as i32),
        ),
        pos + 3,
        worldlist_bytes().take(worldlist_reply_len()),
    )
}

/// Answers a world list request: reads the client's checksum, writes response code 0, the
/// length of the reply and that many bytes of the canned world list. Only a client whose list
/// is current (checksum 2) gets a reply short enough for the canned list.
pub fn worldlist_response(input: &mut Packet, output: &mut Packet)
    requires
        readable(old(input)),
        g4_at(old(input).data@, old(input).position as int) == 2,
        old(output).position + 16 <= usize::MAX,
    ensures
        final(output).data@ == worldlist_written(old(output).data@, old(output).position as int),
        final(output).position == old(output).position + 3 + worldlist_reply_len(),
{
    output.p1(0);
    let checksum = input.g4();
    let mut response = Packet::from(Vec::new());
    response.p1(1);
    if checksum != 2 {
        response.p1(1);
        response.psmart(1);
        response.psmart(191);
        response.pjstr2("Sweden");
        response.psmart(1);
        response.psmart(1);
        response.psmart(1);
        response.psmart(0);
        response.p1(0);
        response.p4(0);
        response.pjstr2("");
        response.pjstr2("localhost");
        response.p4(1);
    } else {
        response.p1(0);
    }
    response.psmart(0);
    response.p2(40);
    response.psmart(1);
    response.p2(20);
    let temp: Vec<u8> = vec![1, 1, 1, 128, 191, 0, 0, 1, 1, 1, 0, 0, 0, 0, 0, 0, 0, 0, 0, 0, 0, 0, 0, 1, 0, 0, 40, 1, 0, 20];
    assert(temp@ =~= worldlist_bytes());
    assert(response.data@.len() == 8);
    output.p2(response.data.len() as i32);
    output.pbytes(temp.as_slice(), 0, response.data.len());
    assert(temp@.subrange(0, 8) =~= worldlist_bytes().take(8));
}

/// The data of the blocks after the first: each block is a marker byte and up to 511 bytes.
pub open spec fn unblock_rest(x: Seq<u8>) -> Seq<u8>
    decreases x.len(),
{
    if x.len() == 0 {
        Seq::empty()
    } else if x.len() <= BLOCK_SIZE {
        x.skip(1)
    } else {
        x.subrange(1, BLOCK_SIZE as int) + unblock_rest(x.skip(BLOCK_SIZE as int))
    }
}

/// The data of a response body: the first block holds up to 508 bytes, later ones a marker
/// byte and up to 511 bytes.
pub open spec fn unblock(body: Seq<u8>) -> Seq<u8> {
    if body.len() <= BYTES_BEFORE_BLOCK {
        body
    } else {
        body.take(BYTES_BEFORE_BLOCK as int) + unblock_rest(body.skip(BYTES_BEFORE_BLOCK as int))
    }
}

proof fn lemma_later_blocks_len(data: Seq<u8>, written: int, size: int)
    requires
        0 <= written <= size,
        size + 1 <= data.len(),
    ensures
        later_blocks(data, written, size).len() >= size - written,
        written < size ==> later_blocks(data, written, size).len() > 0,
        written + BYTES_AFTER_BLOCK >= size ==> later_blocks(data, written, size).len() <= BLOCK_SIZE,
    decreases size - written,
{
    if written < size {
        let chunk = min_int(size - written, BYTES_AFTER_BLOCK as int);
        lemma_later_blocks_len(data, written + chunk, size);
    }
}

proof fn lemma_unblock_rest(data: Seq<u8>, written: int, size: int)
    requires
        0 <= written <= size,
        size + 1 <= data.len(),
    ensures
        unblock_rest(later_blocks(data, written, size)) == data.subrange(written + 1, size + 1),
    decreases size - written,
{
    let lb = later_blocks(data, written, size);
    if written >= size {
        assert(lb =~= Seq::<u8>::empty());
        assert(data.subrange(written + 1, size + 1) =~= Seq::<u8>::empty());
    } else {
        let chunk = min_int(size - written, BYTES_AFTER_BLOCK as int);
        let sub = data.subrange(written + 1, written + 1 + chunk);
        let rest = later_blocks(data, written + chunk, size);
        lemma_later_blocks_len(data, written + chunk, size);
        lemma_unblock_rest(data, written + chunk, size);
        assert(lb == seq![0xFFu8] + sub + rest);
        if chunk < BYTES_AFTER_BLOCK {
            assert(rest =~= Seq::<u8>::empty());
            assert(lb.skip(1) =~= sub);
            assert(data.subrange(written + 1, size + 1) =~= sub);
        } else {
            if rest.len() == 0 {
                assert(lb.skip(1) =~= sub);
                assert(written + chunk == size);
                assert(data.subrange(written + 1, size + 1) =~= sub);
            } else {
                assert(lb.subrange(1, BLOCK_SIZE as int) =~= sub);
                assert(lb.skip(BLOCK_SIZE as int) =~= rest);
                assert(data.subrange(written + 1, size + 1) =~= sub + data.subrange(
                    written + chunk + 1,
                    size + 1,
                ));
            }
        }
    }
}

/// A group response carries the group: its first four bytes are the archive, the group and
/// the compression byte, and with the block markers taken out the rest is the group's bytes
/// after its compression byte.
pub proof fn law_group_response_carries_group(urgent: bool, archive: u8, group: u16, data: Seq<u8>)
    requires
        group_sendable(data),
    ensures
        ({
            let r = group_response(urgent, archive, group, data);
            &&& r[0] == archive
            &&& g2_at(r, 1) == group
            &&& (r[3] & 0x7Fu8) == (compression_of(data) & 0x7Fu8)
            &&& unblock(r.skip(4)) == data.subrange(1, 1 + sent_size(data))
        }),
{
    let r = group_response(urgent, archive, group, data);
    let size = sent_size(data);
    let first = min_int(size, BYTES_BEFORE_BLOCK as int);
    let head = data.subrange(1, 1 + first);
    let lb = later_blocks(data, first, size);
    crate::packet_laws::law_p2_then_g2(seq![archive], 1, group as i32);
    crate::packet::lemma_put_at_end(seq![archive], be16_bytes(group as i32));
    assert(r.subrange(0, 3) =~= seq![archive] + be16_bytes(group as i32));
    assert(g2_at(r, 1) == g2_at(seq![archive] + be16_bytes(group as i32), 1));
    let c = compression_of(data);
    assert((c | 0x80u8) & 0x7Fu8 == c & 0x7Fu8) by (bit_vector);
    assert(r.skip(4) =~= head + lb);
    lemma_later_blocks_len(data, first, size);
    lemma_unblock_rest(data, first, size);
    if size <= BYTES_BEFORE_BLOCK {
        assert(lb =~= Seq::<u8>::empty());
        assert(r.skip(4) =~= head);
    } else {
        assert((head + lb).take(BYTES_BEFORE_BLOCK as int) =~= head);
        assert((head + lb).skip(BYTES_BEFORE_BLOCK as int) =~= lb);
        assert(data.subrange(1, 1 + size) =~= head + data.subrange(first + 1, size + 1));
    }
}

/// A group request is answered for the archive and group it names: the response starts with
/// that archive and group. Only group 255 of archive 255 is answered with the archive index,
/// sent whole and uncompressed after its length; any other group is sent as stored, its
/// compression byte and then its bytes.
pub proof fn law_response_answers_request(urgent: bool, archive: u8, group: u16, data: Seq<u8>)
    requires
        (archive == ARCHIVESET && group == ARCHIVESET as u16) || group_sendable(data),
    ensures
        ({
            let r = response_to(Js5Request::Group { urgent, archive, group }, data);
            &&& r[0] == archive
            &&& g2_at(r, 1) == group
            &&& archive == ARCHIVESET && group == ARCHIVESET as u16 ==> {
                &&& r[3] == 0
                &&& r.len() == data.len() + 8
                &&& r.skip(8) == data
                &&& data.len() <= i32::MAX ==> g4_at(r, 4) == data.len()
            }
            &&& !(archive == ARCHIVESET && group == ARCHIVESET as u16) ==> {
                &&& (r[3] & 0x7Fu8) == (compression_of(data) & 0x7Fu8)
                &&& unblock(r.skip(4)) == data.subrange(1, 1 + sent_size(data))
            }
        }),
{
    let req = Js5Request::Group { urgent, archive, group };
    let r = response_to(req, data);
    if archive == ARCHIVESET && group == ARCHIVESET as u16 {
        let len = data.len() as i32;
        let head = seq![ARCHIVESET] + be16_bytes(ARCHIVESET as i32);
        crate::packet_laws::law_p2_then_g2(seq![ARCHIVESET], 1, ARCHIVESET as i32);
        crate::packet::lemma_put_at_end(seq![ARCHIVESET], be16_bytes(ARCHIVESET as i32));
        assert(r =~= head + seq![0u8] + be32_bytes(len) + data);
        assert(r.subrange(0, 3) =~= head);
        assert(g2_at(r, 1) == g2_at(head, 1));
        assert(r.skip(8) =~= data);
        let four = head + seq![0u8];
        crate::packet_laws::law_p4_then_g4(four, 4, len);
        crate::packet::lemma_put_at_end(four, be32_bytes(len));
        assert(r.subrange(0, 8) =~= four + be32_bytes(len));
        assert(g4_at(r, 4) == g4_at(four + be32_bytes(len), 4));
    } else {
        law_group_response_carries_group(urgent, archive, group, data);
    }
}

/// What a request's four bytes at `p` ask for: opcodes 0 and 1 a group (1 urgently) of the
/// archive in the next byte, the group in the two after; 4 a new key, given in the next byte,
/// when the last two bytes are zero; 2 (logged in) when its three payload bytes are zero, 6
/// (connected) when they are 0, 0, 3; 3 logged out and 7 disconnect whatever they hold. Every
/// other request is invalid.
pub proof fn law_request_meaning(d: Seq<u8>, p: int)
    requires
        0 <= p,
        p + 4 <= d.len(),
    ensures
        ({
            let (r, q) = request_at(d, p);
            let op = d[p];
            let zero3 = d[p + 1] == 0 && d[p + 2] == 0 && d[p + 3] == 0;
            &&& q == p + 4
            &&& op == 0 || op == 1 ==> r == Js5Request::Group {
                urgent: op == 1,
                archive: d[p + 1],
                group: (d[p + 2] as int * 256 + d[p + 3] as int) as u16,
            }
            &&& op == 4 ==> r == if d[p + 2] == 0 && d[p + 3] == 0 {
                Js5Request::Rekey { key: d[p + 1] }
            } else {
                Js5Request::Invalid
            }
            &&& op == 2 ==> r == if zero3 {
                Js5Request::LoggedIn
            } else {
                Js5Request::Invalid
            }
            &&& op == 6 ==> r == if d[p + 1] == 0 && d[p + 2] == 0 && d[p + 3] == 3 {
                Js5Request::Connected
            } else {
                Js5Request::Invalid
            }
            &&& op == 3 ==> r == Js5Request::LoggedOut
            &&& op == 7 ==> r == Js5Request::Disconnect
            &&& !(op <= 4 || op == 6 || op == 7) ==> r == Js5Request::Invalid
        }),
{
    let (a, b, c) = (d[p + 1], d[p + 2], d[p + 3]);
    assert((be16(b, c) == 0) == (b == 0 && c == 0) && be16(b, c) as int == b as int * 256
        + c as int) by (bit_vector);
    assert(((be24(a, b, c) as i32) == 0) == (a == 0 && b == 0 && c == 0) && ((be24(a, b, c)
        as i32) == 3) == (a == 0 && b == 0 && c == 3)) by (bit_vector);
}

/// Every request a client sends is four bytes long, opcode included: reading one from a
/// packet that holds four more bytes moves the cursor by exactly four.
pub proof fn law_requests_are_four_bytes(d: Seq<u8>, p: int)
    requires
        0 <= p,
        p + 4 <= d.len(),
    ensures
        request_at(d, p).1 == p + 4,
        lenient_request_at(d, p).1 == p + 4,
{
}

} // verus!
