//! What holds of what goes over the wire to the browser.
use crate::wire::{FrameNext, FrameView};
use crate::{text, text_laws, wire};
use vstd::prelude::*;

verus! {

/// A number of two or eight bytes has the highest byte first.
pub proof fn numbers_have_the_highest_byte_first(b: Seq<u8>)
    ensures
        b.len() == 2 ==> wire::from_big_endian(b) == b[0] * 256 + b[1],
        b.len() == 8 ==> wire::from_big_endian(b) == b[0] * 0x100_0000_0000_0000 + b[1]
            * 0x1_0000_0000_0000 + b[2] * 0x100_0000_0000 + b[3] * 0x1_0000_0000 + b[4]
            * 0x100_0000 + b[5] * 0x1_0000 + b[6] * 0x100 + b[7],
{
    reveal_with_fuel(wire::from_big_endian, 9);
}

/// The first byte of a frame has its kind in the lower half. The second tells whether it is
/// masked, and its length, unless that is 126 or 127: the length then stands in the next two
/// or eight bytes.
pub proof fn frames_say_how_long_they_are(bytes: Seq<u8>)
    requires
        bytes.len() == 2,
    ensures
        ({
            let kind = (bytes[0] % 16) as u8;
            let veiled = bytes[1] >= 128;
            let short = (bytes[1] % 128) as nat;
            let next = wire::frame_next(FrameView::Head, bytes);
            &&& short == 126 ==> next == FrameNext::More(
                FrameView::Length { opcode: kind, masked: veiled, size: 2 },
            )
            &&& short == 127 ==> next == FrameNext::More(
                FrameView::Length { opcode: kind, masked: veiled, size: 8 },
            )
            &&& short < 126 && veiled ==> next == FrameNext::More(
                FrameView::Mask { opcode: kind, length: short },
            )
            &&& short < 126 && !veiled ==> next == FrameNext::More(
                FrameView::Payload { opcode: kind, length: short, mask: Seq::empty() },
            )
        }),
{
}

/// How the length of a frame from the browser is written.
pub open spec fn is_length(bytes: Seq<u8>, n: nat) -> bool {
    ||| n < 126 && bytes == seq![n as u8]
    ||| bytes.len() == 3 && bytes[0] == 126 && bytes[1] * 256 + bytes[2] == n
    ||| bytes.len() == 9 && bytes[0] == 127 && bytes[1] * 0x100_0000_0000_0000 + bytes[2]
        * 0x1_0000_0000_0000 + bytes[3] * 0x100_0000_0000 + bytes[4] * 0x1_0000_0000 + bytes[5]
        * 0x100_0000 + bytes[6] * 0x1_0000 + bytes[7] * 0x100 + bytes[8] == n
}

/// A frame from the browser is read whole, whatever the size of its length: a text gives
/// what it carries, and any other kind ends the reading.
pub proof fn frames_of_the_browser_are_read(first: u8, length: Seq<u8>, payload: Seq<u8>)
    requires
        is_length(length, payload.len()),
    ensures
        ({
            let frame = seq![first] + length + payload;
            let read = wire::frame_read(FrameView::Head, frame);
            &&& first % 16 == 1 ==> read == FrameNext::Text(payload)
            &&& first % 16 != 1 ==> read is Failed
        }),
{
    let n = payload.len();
    let frame = seq![first] + length + payload;
    let kind = (first % 16) as u8;
    let start = seq![first, length[0]];
    assert(frame.take(2) =~= start);
    let tail = FrameView::Payload { opcode: kind, length: n, mask: Seq::empty() };
    assert(payload.take(n as int) =~= payload);
    if length.len() == 1 {
        assert(frame.skip(2) =~= payload);
        assert(wire::frame_next(FrameView::Head, start) == FrameNext::More(tail));
    } else {
        let size = (length.len() - 1) as nat;
        let rest = frame.skip(2);
        let number = length.skip(1);
        assert(rest.take(size as int) =~= number);
        assert(rest.skip(size as int) =~= payload);
        let state = FrameView::Length { opcode: kind, masked: false, size };
        assert(wire::frame_next(FrameView::Head, start) == FrameNext::More(state));
        numbers_have_the_highest_byte_first(number);
        assert(wire::from_big_endian(number) == n) by {
            assert(number[0] == length[1] && number[1] == length[2]);
            if size == 8 {
                assert(number[2] == length[3] && number[3] == length[4] && number[4] == length[5]
                    && number[5] == length[6] && number[6] == length[7] && number[7] == length[8]);
            }
        }
        assert(wire::frame_next(state, number) == FrameNext::More(tail));
        assert(wire::frame_read(state, rest) == wire::frame_read(tail, payload));
    }
}

/// A frame that is not there as a whole is not read yet.
pub proof fn short_frames_wait(state: FrameView, bytes: Seq<u8>)
    requires
        bytes.len() < wire::wanted(state),
    ensures
        wire::frame_read(state, bytes) == FrameNext::More(state),
        wire::wanted(FrameView::Head) == 2,
{
}

/// The frame of a text is a last one of the kind of texts, is masked, tells its length in
/// the shortest way, and has the mask before the veiled text.
pub proof fn frames_have_their_form(payload: Seq<u8>)
    requires
        payload.len() <= u64::MAX,
    ensures
        ({
            let frame = wire::text_frame(payload);
            let n = payload.len();
            let head: int = if n < 126 {
                2
            } else if n <= 0xffff {
                4
            } else {
                10
            };
            &&& frame.len() == head + 4 + n
            &&& frame[0] == 0x81
            &&& n < 126 ==> frame[1] == 128 + n
            &&& 126 <= n <= 0xffff ==> frame[1] == 254 && frame[2] * 256 + frame[3] == n
            &&& n > 0xffff ==> frame[1] == 255
            &&& forall|i: int|
                0 <= i < n ==> #[trigger] frame[head + 4 + i] == payload[i] ^ frame[head + i % 4]
        }),
{
    let n = payload.len();
    let mask = wire::client_mask();
    let length = wire::length_bytes(n);
    let frame = wire::text_frame(payload);
    reveal_with_fuel(wire::big_endian, 9);
    assert(length.len() == (if n < 126 {
        1int
    } else if n <= 0xffff {
        3
    } else {
        9
    }));
    assert(frame[1] == length[0]);
    let head = length.len() + 1;
    if 126 <= n <= 0xffff {
        assert(frame[2] == length[1] && frame[3] == length[2]);
        assert(wire::big_endian(n, 2)[0] == (n / 256 % 256) as u8);
        assert(wire::big_endian(n, 2)[1] == (n % 256) as u8);
        assert(n / 256 % 256 == n / 256);
    }
    assert forall|i: int| 0 <= i < n implies #[trigger] frame[head + 4 + i] == payload[i]
        ^ frame[head + i % 4] by {
        assert(frame[head + 4 + i] == wire::masked(payload, mask)[i]);
        assert(frame[head + i % 4] == mask[i % 4]);
    }
}

/// Whether two texts are the same but for capital letters.
pub open spec fn same_letters(a: Seq<char>, b: Seq<char>) -> bool {
    a.len() == b.len() && forall|i: int|
        0 <= i < a.len() ==> (#[trigger] a[i] == b[i] || ('A' <= a[i] <= 'Z' && b[i] as int
            == a[i] as int + 32))
}

/// A header tells the length of what follows, however its name is capitalised and whatever
/// white space is around the number.
pub proof fn lengths_are_announced(
    name: Seq<char>,
    before: Seq<char>,
    n: usize,
    after: Seq<char>,
)
    requires
        same_letters(name, "content-length:"@),
        text_laws::blank(before),
        text_laws::blank(after),
    ensures
        wire::announced_length(name + before + text::decimal(n as nat) + after) == Some(n as nat),
        forall|length: Option<usize>| #[trigger]
            wire::length_after(length, name + before + text::decimal(n as nat) + after) == Some(n),
{
    let digits = text::decimal(n as nat);
    text::decimal_denotes(n as nat);
    let core = name + before + digits;
    let line = core + after;
    assert(text::is_digit(digits[digits.len() - 1]));
    assert(core.last() == digits.last());
    text_laws::ends_are_trimmed(core, after);
    let low = wire::lowered(core);
    let tag = "content-length:"@;
    reveal_strlit("content-length:");
    assert forall|i: int| 0 <= i < before.len() implies wire::lower_char(#[trigger] before[i])
        == before[i] by {
        assert(text::whitespace(before[i]));
    }
    assert forall|i: int| 0 <= i < digits.len() implies wire::lower_char(#[trigger] digits[i])
        == digits[i] by {
        assert(text::is_digit(digits[i]));
    }
    assert forall|i: int| 0 <= i < name.len() implies wire::lower_char(#[trigger] name[i])
        == tag[i] by {
        if name[i] == tag[i] {
            lemma_tag_is_low(i);
        }
    }
    assert(low =~= tag + (before + digits));
    assert(low.subrange(0, tag.len() as int) =~= tag);
    assert(low.skip(tag.len() as int) =~= before + digits);
    assert(text::is_digit(digits[0]));
    text_laws::both_ends_are_trimmed(before, digits, Seq::empty());
    assert(before + digits + Seq::<char>::empty() =~= before + digits);
    text::printing_and_parsing_agree(n as nat, usize::MAX as nat);
    assert(wire::announced_length(line) == Some(n as nat));
    assert(text::trimmed_end(line).len() > 0);
}

proof fn lemma_tag_is_low(i: int)
    requires
        0 <= i < "content-length:"@.len(),
    ensures
        !('A' <= "content-length:"@[i] <= 'Z'),
{
    reveal_strlit("content-length:");
}

/// A blank line ends the headers and changes nothing; neither does another header.
pub proof fn other_headers_change_nothing(length: Option<usize>, line: Seq<char>)
    ensures
        text_laws::blank(line) ==> wire::ends_headers(line) && wire::length_after(length, line)
            == length,
        wire::announced_length(line) is None ==> wire::length_after(length, line) == length,
        text::trimmed_end(line).len() > 0 ==> !wire::ends_headers(line),
{
    if text_laws::blank(line) {
        assert(Seq::<char>::empty() + line =~= line);
        text_laws::ends_are_trimmed(Seq::empty(), line);
    }
}

/// An answer is good if its status is 200, and a handshake if it is 101; with any other
/// status it is refused.
pub proof fn answers_have_their_status(minor: char, code: Seq<char>, rest: Seq<char>)
    requires
        code.len() == 3,
        minor == '0' || minor == '1',
    ensures
        ({
            let status = seq!['H', 'T', 'T', 'P', '/', '1', '.', minor, ' '] + code + rest;
            &&& wire::http_ok(status) is Ok <==> code == seq!['2', '0', '0']
            &&& wire::upgraded(status) is Ok <==> code == seq!['1', '0', '1']
        }),
{
    let status = seq!['H', 'T', 'T', 'P', '/', '1', '.', minor, ' '] + code + rest;
    reveal_strlit("HTTP/1.1 200");
    reveal_strlit("HTTP/1.0 200");
    reveal_strlit("HTTP/1.1 101");
    reveal_strlit("HTTP/1.0 101");
    let front = status.subrange(0, 12);
    assert(front =~= seq!['H', 'T', 'T', 'P', '/', '1', '.', minor, ' '] + code);
    assert(front[9] == code[0] && front[10] == code[1] && front[11] == code[2] && front[7] == minor);
    let given = front.skip(9);
    assert(given =~= code);
    if code == seq!['2', '0', '0'] {
        assert(code[0] == '2' && code[1] == '0' && code[2] == '0');
        if minor == '1' {
            assert(front =~= "HTTP/1.1 200"@);
        } else {
            assert(front =~= "HTTP/1.0 200"@);
        }
    }
    if code == seq!['1', '0', '1'] {
        assert(code[0] == '1' && code[1] == '0' && code[2] == '1');
        if minor == '1' {
            assert(front =~= "HTTP/1.1 101"@);
        } else {
            assert(front =~= "HTTP/1.0 101"@);
        }
    }
    if wire::http_ok(status) is Ok {
        assert(front[9] == '2' && front[10] == '0' && front[11] == '0');
        assert(code =~= seq!['2', '0', '0']);
    }
    if wire::upgraded(status) is Ok {
        assert(front[9] == '1' && front[10] == '0' && front[11] == '1');
        assert(code =~= seq!['1', '0', '1']);
    }
}

/// A request asks for its path on the browser's port, and its headers end with a blank line.
pub proof fn requests_ask_for_their_path(port: u16, path: Seq<char>)
    ensures
        ({
            let asked = "GET "@ + path + " HTTP/1.1\r\nHost: 127.0.0.1:"@ + text::decimal(
                port as nat,
            ) + "\r\n"@;
            let plain = wire::get_request(port, path);
            let socket = wire::upgrade_request(port, path);
            &&& text::begins(plain, asked) && text::begins(socket, asked)
            &&& text::holds(plain, "\r\nConnection: close\r\n"@)
            &&& text::holds(socket, "\r\nUpgrade: websocket\r\n"@)
            &&& plain.subrange(plain.len() - 4, plain.len() as int) == "\r\n\r\n"@
            &&& socket.subrange(socket.len() - 4, socket.len() as int) == "\r\n\r\n"@
        }),
{
    let asked = "GET "@ + path + " HTTP/1.1\r\nHost: 127.0.0.1:"@ + text::decimal(port as nat)
        + "\r\n"@;
    let plain = wire::get_request(port, path);
    let socket = wire::upgrade_request(port, path);
    reveal_strlit("\r\n");
    reveal_strlit("\r\n\r\n");
    reveal_strlit("\r\nConnection: close\r\n\r\n");
    reveal_strlit("\r\nConnection: close\r\n");
    reveal_strlit("\r\nUpgrade: websocket\r\nConnection: Upgrade\r\nSec-WebSocket-Key: ");
    reveal_strlit("\r\nUpgrade: websocket\r\n");
    reveal_strlit("\r\nSec-WebSocket-Version: 13\r\n\r\n");
    assert(plain.subrange(0, asked.len() as int) =~= asked);
    assert(socket.subrange(0, asked.len() as int) =~= asked);
    let k = asked.len() - 2;
    assert(plain.subrange(k, k + "\r\nConnection: close\r\n"@.len())
        =~= "\r\nConnection: close\r\n"@);
    assert(text::occurs(plain, "\r\nConnection: close\r\n"@, k));
    assert(socket.subrange(k, k + "\r\nUpgrade: websocket\r\n"@.len())
        =~= "\r\nUpgrade: websocket\r\n"@);
    assert(text::occurs(socket, "\r\nUpgrade: websocket\r\n"@, k));
    assert(plain.subrange(plain.len() - 4, plain.len() as int) =~= "\r\n\r\n"@);
    assert(socket.subrange(socket.len() - 4, socket.len() as int) =~= "\r\n\r\n"@);
}

/// A frame that closes the connection says so; any other kind is named by its number.
pub proof fn closing_frames_say_so(kind: u8, length: nat, bytes: Seq<u8>)
    requires
        kind != 1,
    ensures
        ({
            let state = FrameView::Payload { opcode: kind, length, mask: Seq::empty() };
            &&& kind == 8 ==> wire::frame_next(state, bytes) == FrameNext::Failed(
                "CDP WebSocket closed"@,
            )
            &&& kind != 8 ==> wire::frame_next(state, bytes) == FrameNext::Failed(
                "unexpected CDP WebSocket opcode "@ + text::decimal(kind as nat),
            )
        }),
{
}

} // verus!
