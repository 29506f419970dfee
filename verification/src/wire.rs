//! HTTP and WebSocket as far as the DevTools endpoint needs them.
use crate::cdp::unit_result;
use crate::text;
use crate::text::{
    chars_of, contains, joined, joined3, number_text, parse_number, same, starts_with,
    strip_prefix, trim, trim_end,
};
use vstd::prelude::*;

verus! {

/// The request for a path.
pub open spec fn get_request(port: u16, path: Seq<char>) -> Seq<char> {
    "GET "@ + path + " HTTP/1.1\r\nHost: 127.0.0.1:"@ + text::decimal(port as nat)
        + "\r\nConnection: close\r\n\r\n"@
}

/// The request for a path.
pub fn http_get(port: u16, path: &str) -> (r: String)
    ensures
        r@ == get_request(port, path@),
{
    let mut out = joined3("GET ", path, " HTTP/1.1\r\nHost: 127.0.0.1:");
    out.append(number_text(port as u128).as_str());
    out.append("\r\nConnection: close\r\n\r\n");
    out
}

/// Whether a status line says that all is well.
pub open spec fn http_ok(status: Seq<char>) -> Result<(), Seq<char>> {
    if text::begins(status, "HTTP/1.1 200"@) || text::begins(status, "HTTP/1.0 200"@) {
        Ok(())
    } else {
        Err("DevTools HTTP returned "@ + text::trimmed_end(status))
    }
}

/// Whether a status line says that all is well.
pub fn check_http_status(status: &str) -> (r: Result<(), String>)
    ensures
        unit_result(r) == http_ok(status@),
{
    if starts_with(status, "HTTP/1.1 200") || starts_with(status, "HTTP/1.0 200") {
        Ok(())
    } else {
        Err(joined("DevTools HTTP returned ", trim_end(status).as_str()))
    }
}

/// The small letter of a capital one; any other character as it is.
pub open spec fn lower_char(c: char) -> char {
    if 'A' <= c <= 'Z' {
        ((c as u32 + 32) as u32) as char
    } else {
        c
    }
}

/// A text with its capital letters made small.
pub open spec fn lowered(s: Seq<char>) -> Seq<char> {
    s.map_values(|c: char| lower_char(c))
}

/// A text with its capital letters made small.
pub fn to_ascii_lowercase(s: &str) -> (r: String)
    ensures
        r@ == lowered(s@),
{
    let chars = chars_of(s);
    let mut out = String::new();
    let mut i: usize = 0;
    while i < chars.len()
        invariant
            i <= chars.len(),
            chars@ == s@,
            out@ =~= lowered(s@).take(i as int),
        decreases chars.len() - i,
    {
        let c = chars[i];
        if 'A' <= c && c <= 'Z' {
            let n: u8 = (c as u32 + 32) as u8;
            out.push(n as char);
        } else {
            out.push(c);
        }
        i = i + 1;
    }
    assert(out@ =~= lowered(s@));
    out
}

/// The length that a header line announces.
pub open spec fn announced_length(line: Seq<char>) -> Option<nat> {
    match text::after(lowered(text::trimmed_end(line)), "content-length:"@) {
        Some(value) => text::parsed(text::trimmed(value), usize::MAX as nat),
        None => None,
    }
}

/// Whether a header line is the empty one that ends them.
pub open spec fn ends_headers(line: Seq<char>) -> bool {
    text::trimmed_end(line).len() == 0
}

/// The headers of a response as far as they have been read.
pub struct HttpHead {
    pub content_length: Option<usize>,
}

/// The length of the body as it is known after a header line.
pub open spec fn length_after(length: Option<usize>, line: Seq<char>) -> Option<usize> {
    if ends_headers(line) {
        length
    } else {
        match announced_length(line) {
            Some(n) => Some(n as usize),
            None => length,
        }
    }
}

impl HttpHead {
    /// Headers of which nothing has been read yet.
    pub fn new() -> (r: HttpHead)
        ensures
            r.content_length is None,
    {
        HttpHead { content_length: None }
    }

    /// Takes in a header line; tells whether it was the last one.
    pub fn on_line(&mut self, line: &str) -> (r: bool)
        ensures
            r == ends_headers(line@),
            final(self).content_length == length_after(old(self).content_length, line@),
    {
        let trimmed = trim_end(line);
        if trimmed.as_str().unicode_len() == 0 {
            return true;
        }
        let lower = to_ascii_lowercase(trimmed.as_str());
        if let Some(value) = strip_prefix(lower.as_str(), "content-length:") {
            if let Some(n) = parse_number(trim(value.as_str()).as_str(), usize::MAX as u64) {
                self.content_length = Some(n as usize);
            }
        }
        false
    }
}

/// Whether the DevTools endpoint answered.
pub fn devtools_answered(response: &str) -> (r: bool)
    ensures
        r == text::holds(response@, "200 OK"@),
{
    contains(response, "200 OK")
}

/// The request that opens a WebSocket.
pub open spec fn upgrade_request(port: u16, path: Seq<char>) -> Seq<char> {
    "GET "@ + path + " HTTP/1.1\r\nHost: 127.0.0.1:"@ + text::decimal(port as nat)
        + "\r\nUpgrade: websocket\r\nConnection: Upgrade\r\nSec-WebSocket-Key: "@ + ("dGhlIH"@
        + "NhbXBs"@ + "ZSBub25jZQ=="@) + "\r\nSec-WebSocket-Version: 13\r\n\r\n"@
}

/// The request that opens a WebSocket.
pub fn websocket_request(port: u16, path: &str) -> (r: String)
    ensures
        r@ == upgrade_request(port, path@),
{
    let mut out = joined3("GET ", path, " HTTP/1.1\r\nHost: 127.0.0.1:");
    out.append(number_text(port as u128).as_str());
    out.append("\r\nUpgrade: websocket\r\nConnection: Upgrade\r\nSec-WebSocket-Key: ");
    out.append(joined3("dGhlIH", "NhbXBs", "ZSBub25jZQ==").as_str());
    out.append("\r\nSec-WebSocket-Version: 13\r\n\r\n");
    out
}

/// Whether a status line says that the WebSocket is open.
pub open spec fn upgraded(status: Seq<char>) -> Result<(), Seq<char>> {
    if text::begins(status, "HTTP/1.1 101"@) || text::begins(status, "HTTP/1.0 101"@) {
        Ok(())
    } else {
        Err("DevTools WebSocket handshake returned "@ + text::trimmed_end(status))
    }
}

/// Whether a status line says that the WebSocket is open.
pub fn check_websocket_status(status: &str) -> (r: Result<(), String>)
    ensures
        unit_result(r) == upgraded(status@),
{
    if starts_with(status, "HTTP/1.1 101") || starts_with(status, "HTTP/1.0 101") {
        Ok(())
    } else {
        Err(joined("DevTools WebSocket handshake returned ", trim_end(status).as_str()))
    }
}

/// Whether a line ends the headers of the answer that opens a WebSocket.
pub fn websocket_headers_end(line: &str) -> (r: bool)
    ensures
        r == (line@ == "\r\n"@ || line@.len() == 0),
{
    same(line, "\r\n") || line.unicode_len() == 0
}

/// The mask that the daemon puts on what it sends.
pub open spec fn client_mask() -> Seq<u8> {
    seq![0x12u8, 0x34u8, 0x56u8, 0x78u8]
}

/// Bytes under a mask of four.
pub open spec fn masked(bytes: Seq<u8>, mask: Seq<u8>) -> Seq<u8> {
    Seq::new(bytes.len(), |i: int| bytes[i] ^ mask[i % 4])
}

/// The last `count` bytes of a number, the highest first.
pub open spec fn big_endian(n: nat, count: nat) -> Seq<u8>
    decreases count,
{
    if count == 0 {
        Seq::empty()
    } else {
        big_endian(n / 256, (count - 1) as nat).push((n % 256) as u8)
    }
}

/// The number that some bytes denote, the highest first.
pub open spec fn from_big_endian(bytes: Seq<u8>) -> nat
    decreases bytes.len(),
{
    if bytes.len() == 0 {
        0
    } else {
        from_big_endian(bytes.drop_last()) * 256 + bytes.last() as nat
    }
}

/// How a frame of the daemon announces its length.
pub open spec fn length_bytes(n: nat) -> Seq<u8> {
    if n < 126 {
        seq![(0x80 + n) as u8]
    } else if n <= 0xffff {
        seq![0xfeu8] + big_endian(n, 2)
    } else {
        seq![0xffu8] + big_endian(n, 8)
    }
}

/// The frame in which the daemon sends a text.
pub open spec fn text_frame(payload: Seq<u8>) -> Seq<u8> {
    seq![0x81u8] + length_bytes(payload.len()) + client_mask() + masked(payload, client_mask())
}

fn push_big_endian(out: &mut Vec<u8>, n: u64, count: usize)
    ensures
        final(out)@ == old(out)@ + big_endian(n as nat, count as nat),
    decreases count,
{
    if count > 0 {
        push_big_endian(out, n / 256, count - 1);
        out.push((n % 256) as u8);
    }
    assert(out@ =~= old(out)@ + big_endian(n as nat, count as nat));
}

/// Bytes under a mask of four, or without it again.
pub fn mask_bytes(bytes: &[u8], mask: &Vec<u8>) -> (r: Vec<u8>)
    requires
        mask.len() == 4,
    ensures
        r@ == masked(bytes@, mask@),
{
    let mut out: Vec<u8> = Vec::new();
    let mut i: usize = 0;
    while i < bytes.len()
        invariant
            i <= bytes@.len(),
            mask.len() == 4,
            out@ =~= masked(bytes@, mask@).take(i as int),
        decreases bytes@.len() - i,
    {
        out.push(bytes[i] ^ mask[i % 4]);
        i = i + 1;
    }
    assert(out@ =~= masked(bytes@, mask@));
    out
}

/// The frame in which the daemon sends some bytes as a text.
pub fn encode_frame(payload: &[u8]) -> (r: Vec<u8>)
    ensures
        r@ == text_frame(payload@),
{
    let n: usize = payload.len();
    let mut frame: Vec<u8> = Vec::new();
    frame.push(0x81);
    if n < 126 {
        frame.push(0x80 + n as u8);
    } else if n <= 0xffff {
        frame.push(0xfe);
        push_big_endian(&mut frame, n as u64, 2);
    } else {
        frame.push(0xff);
        push_big_endian(&mut frame, n as u64, 8);
    }
    assert(frame@ =~= seq![0x81u8] + length_bytes(payload@.len()));
    let mut mask: Vec<u8> = Vec::new();
    mask.push(0x12);
    mask.push(0x34);
    mask.push(0x56);
    mask.push(0x78);
    assert(mask@ =~= client_mask());
    let mut body = mask_bytes(payload, &mask);
    frame.append(&mut mask);
    frame.append(&mut body);
    assert(frame@ =~= text_frame(payload@));
    frame
}

/// The frame in which the daemon sends a text.
pub fn write_ws_text(text: &str) -> (r: Vec<u8>)
    ensures
        r@ == text_frame(vstd::utf8::encode_utf8(text@)),
{
    encode_frame(text.as_bytes())
}

/// Where reading a frame is.
pub enum FrameState {
    /// At its first two bytes.
    Head,
    /// At the longer form of its length.
    Length { opcode: u8, masked: bool, size: usize },
    /// At its mask.
    Mask { opcode: u8, length: u64 },
    /// At what it carries.
    Payload { opcode: u8, length: u64, mask: Vec<u8> },
}

/// Where reading a frame is.
pub enum FrameView {
    Head,
    Length { opcode: u8, masked: bool, size: nat },
    Mask { opcode: u8, length: nat },
    Payload { opcode: u8, length: nat, mask: Seq<u8> },
}

impl View for FrameState {
    type V = FrameView;

    open spec fn view(&self) -> FrameView {
        match self {
            FrameState::Head => FrameView::Head,
            FrameState::Length { opcode, masked, size } => FrameView::Length {
                opcode: *opcode,
                masked: *masked,
                size: *size as nat,
            },
            FrameState::Mask { opcode, length } => FrameView::Mask {
                opcode: *opcode,
                length: *length as nat,
            },
            FrameState::Payload { opcode, length, mask } => FrameView::Payload {
                opcode: *opcode,
                length: *length as nat,
                mask: mask@,
            },
        }
    }
}

/// How many bytes come next.
pub open spec fn wanted(state: FrameView) -> nat {
    match state {
        FrameView::Head => 2,
        FrameView::Length { size, .. } => size,
        FrameView::Mask { .. } => 4,
        FrameView::Payload { length, .. } => length,
    }
}

/// Whether a state comes up in reading a frame.
pub open spec fn sound(state: FrameView) -> bool {
    match state {
        FrameView::Head => true,
        FrameView::Length { size, .. } => size == 2 || size == 8,
        FrameView::Mask { .. } => true,
        FrameView::Payload { mask, .. } => mask.len() == 0 || mask.len() == 4,
    }
}

/// What to do after some bytes of a frame.
pub enum FrameNext {
    /// Read on.
    More(FrameView),
    /// The frame carries this text.
    Text(Seq<u8>),
    /// The frame carries no text.
    Failed(Seq<char>),
}

/// Where reading a frame goes on once its length is known.
pub open spec fn after_length(opcode: u8, is_masked: bool, length: nat) -> FrameView {
    if is_masked {
        FrameView::Mask { opcode, length }
    } else {
        FrameView::Payload { opcode, length, mask: Seq::empty() }
    }
}

/// What some bytes of a frame mean.
pub open spec fn frame_next(state: FrameView, bytes: Seq<u8>) -> FrameNext {
    match state {
        FrameView::Head => {
            let opcode = (bytes[0] % 16) as u8;
            let is_masked = bytes[1] >= 128;
            let short = (bytes[1] % 128) as nat;
            FrameNext::More(
                if short == 126 {
                    FrameView::Length { opcode, masked: is_masked, size: 2 }
                } else if short == 127 {
                    FrameView::Length { opcode, masked: is_masked, size: 8 }
                } else {
                    after_length(opcode, is_masked, short)
                },
            )
        },
        FrameView::Length { opcode, masked: is_masked, .. } => FrameNext::More(
            after_length(opcode, is_masked, from_big_endian(bytes)),
        ),
        FrameView::Mask { opcode, length } => FrameNext::More(
            FrameView::Payload { opcode, length, mask: bytes },
        ),
        FrameView::Payload { opcode, mask, .. } => if opcode == 1 {
            FrameNext::Text(
                if mask.len() == 0 {
                    bytes
                } else {
                    masked(bytes, mask)
                },
            )
        } else if opcode == 8 {
            FrameNext::Failed("CDP WebSocket closed"@)
        } else {
            FrameNext::Failed("unexpected CDP WebSocket opcode "@ + text::decimal(opcode as nat))
        },
    }
}

/// What to do after some bytes of a frame.
pub enum FrameStep {
    /// Read on.
    More(FrameState),
    /// The frame carries these bytes as a text.
    Text(Vec<u8>),
    /// The frame carries no text.
    Failed(String),
}

impl View for FrameStep {
    type V = FrameNext;

    open spec fn view(&self) -> FrameNext {
        match self {
            FrameStep::More(state) => FrameNext::More(state@),
            FrameStep::Text(bytes) => FrameNext::Text(bytes@),
            FrameStep::Failed(message) => FrameNext::Failed(message@),
        }
    }
}

proof fn lemma_big_endian_bound(bytes: Seq<u8>)
    ensures
        bytes.len() <= 8 ==> from_big_endian(bytes) < vstd::arithmetic::power::pow(
            256,
            bytes.len(),
        ),
    decreases bytes.len(),
{
    reveal(vstd::arithmetic::power::pow);
    if bytes.len() > 0 {
        lemma_big_endian_bound(bytes.drop_last());
    }
}

/// The number that some bytes denote.
fn number_from(bytes: &Vec<u8>) -> (r: u64)
    requires
        bytes.len() <= 8,
    ensures
        r == from_big_endian(bytes@),
{
    let mut n: u64 = 0;
    let mut i: usize = 0;
    assert(bytes@.take(0) =~= Seq::empty());
    while i < bytes.len()
        invariant
            i <= bytes.len() <= 8,
            n == from_big_endian(bytes@.take(i as int)),
        decreases bytes.len() - i,
    {
        proof {
            assert(bytes@.take(i + 1).drop_last() =~= bytes@.take(i as int));
            lemma_big_endian_bound(bytes@.take(i + 1));
            vstd::arithmetic::power::lemma_pow_increases(256, (i + 1) as nat, 8);
            assert(vstd::arithmetic::power::pow(256, 8) == 0x1_0000_0000_0000_0000) by {
                reveal_with_fuel(vstd::arithmetic::power::pow, 9);
            }
        }
        n = n * 256 + bytes[i] as u64;
        i = i + 1;
    }
    assert(bytes@.take(i as int) =~= bytes@);
    n
}

fn length_known(opcode: u8, is_masked: bool, length: u64) -> (r: FrameStep)
    ensures
        r@ == FrameNext::More(after_length(opcode, is_masked, length as nat)),
{
    if is_masked {
        FrameStep::More(FrameState::Mask { opcode, length })
    } else {
        let mask: Vec<u8> = Vec::new();
        assert(mask@ =~= Seq::empty());
        FrameStep::More(FrameState::Payload { opcode, length, mask })
    }
}

impl FrameState {
    /// How many bytes come next.
    pub fn count(&self) -> (r: u64)
        ensures
            r == wanted(self@),
    {
        match self {
            FrameState::Head => 2,
            FrameState::Length { size, .. } => *size as u64,
            FrameState::Mask { .. } => 4,
            FrameState::Payload { length, .. } => *length,
        }
    }

    /// Takes in the bytes that come next.
    pub fn read_ws_text(self, bytes: Vec<u8>) -> (r: FrameStep)
        requires
            sound(self@),
            bytes@.len() == wanted(self@),
        ensures
            r@ == frame_next(self@, bytes@),
            r@ matches FrameNext::More(state) ==> sound(state),
    {
        match self {
            FrameState::Head => {
                let opcode: u8 = bytes[0] % 16;
                let is_masked = bytes[1] >= 128;
                let short: u8 = bytes[1] % 128;
                if short == 126 {
                    FrameStep::More(FrameState::Length { opcode, masked: is_masked, size: 2 })
                } else if short == 127 {
                    FrameStep::More(FrameState::Length { opcode, masked: is_masked, size: 8 })
                } else {
                    length_known(opcode, is_masked, short as u64)
                }
            },
            FrameState::Length { opcode, masked, .. } => {
                let length: u64 = number_from(&bytes);
                length_known(opcode, masked, length)
            },
            FrameState::Mask { opcode, length } => FrameStep::More(
                FrameState::Payload { opcode, length, mask: bytes },
            ),
            FrameState::Payload { opcode, mask, .. } => {
                if opcode == 1 {
                    if mask.len() == 0 {
                        FrameStep::Text(bytes)
                    } else {
                        FrameStep::Text(mask_bytes(bytes.as_slice(), &mask))
                    }
                } else if opcode == 8 {
                    FrameStep::Failed("CDP WebSocket closed".to_string())
                } else {
                    FrameStep::Failed(
                        joined(
                            "unexpected CDP WebSocket opcode ",
                            number_text(opcode as u128).as_str(),
                        ),
                    )
                }
            },
        }
    }
}

/// How many more steps reading a frame may take.
pub open spec fn steps_left(state: FrameView) -> nat {
    match state {
        FrameView::Head => 3,
        FrameView::Length { .. } => 2,
        FrameView::Mask { .. } => 1,
        FrameView::Payload { .. } => 0,
    }
}

/// What reading a frame from some bytes comes to.
pub open spec fn frame_read(state: FrameView, bytes: Seq<u8>) -> FrameNext
    decreases steps_left(state),
{
    let n = wanted(state) as int;
    if bytes.len() < n {
        FrameNext::More(state)
    } else {
        match frame_next(state, bytes.take(n)) {
            FrameNext::More(next) => if steps_left(next) < steps_left(state) {
                frame_read(next, bytes.skip(n))
            } else {
                FrameNext::More(next)
            },
            other => other,
        }
    }
}

proof fn lemma_big_endian_back(n: nat, count: nat)
    requires
        n < vstd::arithmetic::power::pow(256, count),
    ensures
        from_big_endian(big_endian(n, count)) == n,
        big_endian(n, count).len() == count,
    decreases count,
{
    reveal(vstd::arithmetic::power::pow);
    if count > 0 {
        lemma_big_endian_back(n / 256, (count - 1) as nat);
        assert(big_endian(n, count).drop_last() =~= big_endian(n / 256, (count - 1) as nat));
    }
}

/// Masking twice gives the bytes back.
pub proof fn masking_is_undone(bytes: Seq<u8>, mask: Seq<u8>)
    ensures
        masked(masked(bytes, mask), mask) == bytes,
{
    assert forall|i: int| 0 <= i < bytes.len() implies masked(masked(bytes, mask), mask)[i]
        == bytes[i] by {
        let a = bytes[i];
        let b = mask[i % 4];
        assert((a ^ b) ^ b == a) by (bit_vector);
    }
    assert(masked(masked(bytes, mask), mask) =~= bytes);
}

/// Reading on from the mask.
proof fn lemma_masked_tail(payload: Seq<u8>)
    ensures
        frame_read(
            FrameView::Mask { opcode: 1u8, length: payload.len() },
            client_mask() + masked(payload, client_mask()),
        ) == FrameNext::Text(payload),
{
    let n = payload.len();
    let body = masked(payload, client_mask());
    let tail = client_mask() + body;
    let mask_state = FrameView::Mask { opcode: 1u8, length: n };
    let payload_state = FrameView::Payload { opcode: 1u8, length: n, mask: client_mask() };
    masking_is_undone(payload, client_mask());
    assert(tail.take(4) =~= client_mask());
    assert(tail.skip(4) =~= body);
    assert(body.take(n as int) =~= body);
    assert(frame_read(payload_state, body) == FrameNext::Text(payload));
    assert(frame_next(mask_state, tail.take(4)) == FrameNext::More(payload_state));
}

/// Reading on from the longer form of the length.
proof fn lemma_long_tail(payload: Seq<u8>, size: nat)
    requires
        size == 2 || size == 8,
        payload.len() < vstd::arithmetic::power::pow(256, size),
    ensures
        frame_read(
            FrameView::Length { opcode: 1u8, masked: true, size },
            big_endian(payload.len(), size) + (client_mask() + masked(payload, client_mask())),
        ) == FrameNext::Text(payload),
{
    let n = payload.len();
    let tail = client_mask() + masked(payload, client_mask());
    let rest = big_endian(n, size) + tail;
    lemma_big_endian_back(n, size);
    lemma_masked_tail(payload);
    assert(rest.take(size as int) =~= big_endian(n, size));
    assert(rest.skip(size as int) =~= tail);
    assert(frame_next(
        FrameView::Length { opcode: 1u8, masked: true, size },
        rest.take(size as int),
    ) == FrameNext::More(FrameView::Mask { opcode: 1u8, length: n }));
}

/// Reading a frame that the daemon wrote gives back what it carries.
pub proof fn frames_are_read_back(payload: Seq<u8>)
    requires
        payload.len() <= u64::MAX,
    ensures
        frame_read(FrameView::Head, text_frame(payload)) == FrameNext::Text(payload),
{
    let n = payload.len();
    let f = text_frame(payload);
    let tail = client_mask() + masked(payload, client_mask());
    assert(f[0] == 0x81u8);
    assert(f[1] == length_bytes(n)[0]);
    assert(f.take(2)[0] == f[0] && f.take(2)[1] == f[1]);
    if n < 126 {
        lemma_masked_tail(payload);
        assert(f.skip(2) =~= tail);
        assert(frame_next(FrameView::Head, f.take(2)) == FrameNext::More(
            FrameView::Mask { opcode: 1u8, length: n },
        ));
    } else {
        let size: nat = if n <= 0xffff {
            2
        } else {
            8
        };
        assert(vstd::arithmetic::power::pow(256, 2) == 0x1_0000
            && vstd::arithmetic::power::pow(256, 8) == 0x1_0000_0000_0000_0000) by {
            reveal_with_fuel(vstd::arithmetic::power::pow, 9);
        }
        lemma_long_tail(payload, size);
        assert(f.skip(2) =~= big_endian(n, size) + tail);
        assert(frame_next(FrameView::Head, f.take(2)) == FrameNext::More(
            FrameView::Length { opcode: 1u8, masked: true, size },
        ));
    }
}

} // verus!
