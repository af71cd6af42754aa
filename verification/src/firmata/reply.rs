//! The sysex replies that the bridge sends to a client.

use crate::firmata::constants::{
    ANALOG_MAPPING_RESPONSE, CAPABILITY_RESPONSE, END_SYSEX, REPORT_FIRMWARE, START_SYSEX,
};
use vstd::prelude::*;
use vstd::utf8::{encode_utf8, is_ascii_chars, is_ascii_chars_encode_utf8};

verus! {

/// A sysex message: `START_SYSEX`, its command, its body and `END_SYSEX`.
pub open spec fn sysex_frame(command: u8, body: Seq<u8>) -> Seq<u8> {
    seq![START_SYSEX, command] + body + seq![END_SYSEX]
}

/// The firmware name that the bridge reports for a board.
pub open spec fn firmware_description(board_name: Seq<char>) -> Seq<char> {
    "FirmataBridge (using "@ + board_name + ")"@
}

/// The body of a firmware report: protocol version 1.0, then the firmware
/// name in UTF-8.
pub open spec fn firmware_report_body(board_name: Seq<char>) -> Seq<u8> {
    seq![1u8, 0u8] + encode_utf8(firmware_description(board_name))
}

/// A sysex frame, byte by byte: `START_SYSEX` (0xF0), the command, the body
/// unchanged, then `END_SYSEX` (0xF7).
pub proof fn lemma_sysex_frame_bytes(command: u8, body: Seq<u8>)
    ensures
        sysex_frame(command, body).len() == body.len() + 3,
        sysex_frame(command, body)[0] == 0xF0u8,
        sysex_frame(command, body)[1] == command,
        sysex_frame(command, body).subrange(2, body.len() + 2int) == body,
        sysex_frame(command, body)[body.len() + 2int] == 0xF7u8,
{
    assert(sysex_frame(command, body).subrange(2, body.len() + 2int) =~= body);
}

/// The UTF-8 encoding of a concatenation is the concatenation of the
/// encodings.
pub proof fn lemma_encode_utf8_concat(a: Seq<char>, b: Seq<char>)
    ensures
        encode_utf8(a + b) == encode_utf8(a) + encode_utf8(b),
    decreases a.len(),
{
    if a.len() == 0 {
        assert(a + b =~= b);
        assert(encode_utf8(a) =~= Seq::<u8>::empty());
        assert(encode_utf8(a) + encode_utf8(b) =~= encode_utf8(b));
    } else {
        assert((a + b)[0] == a[0]);
        assert((a + b).drop_first() =~= a.drop_first() + b);
        lemma_encode_utf8_concat(a.drop_first(), b);
        assert(encode_utf8(a + b) =~= encode_utf8(a) + encode_utf8(b));
    }
}

/// The firmware report for a board named `board_name`, byte by byte:
/// `START_SYSEX`, `REPORT_FIRMWARE`, version 1.0, the ASCII text
/// `FirmataBridge (using `, the whole name in UTF-8, `)` and `END_SYSEX`.
pub proof fn lemma_firmware_report_bytes(board_name: Seq<char>)
    ensures
        sysex_frame(REPORT_FIRMWARE, firmware_report_body(board_name)) == seq![
            0xF0u8,
            0x79,
            1,
            0,
        ] + seq![
            0x46u8, 0x69, 0x72, 0x6D, 0x61, 0x74, 0x61, 0x42, 0x72, 0x69, 0x64, 0x67, 0x65,
            0x20, 0x28, 0x75, 0x73, 0x69, 0x6E, 0x67, 0x20,
        ] + encode_utf8(board_name) + seq![0x29u8, 0xF7],
{
    reveal_strlit("FirmataBridge (using ");
    reveal_strlit(")");
    let pre = "FirmataBridge (using "@;
    let post = ")"@;
    assert(pre =~= seq![
        'F', 'i', 'r', 'm', 'a', 't', 'a', 'B', 'r', 'i', 'd', 'g', 'e', ' ', '(', 'u', 's',
        'i', 'n', 'g', ' ',
    ]);
    assert(post =~= seq![')']);
    assert(is_ascii_chars(pre));
    assert(is_ascii_chars(post));
    is_ascii_chars_encode_utf8(pre);
    is_ascii_chars_encode_utf8(post);
    let pre_bytes = seq![
        0x46u8, 0x69, 0x72, 0x6D, 0x61, 0x74, 0x61, 0x42, 0x72, 0x69, 0x64, 0x67, 0x65, 0x20,
        0x28, 0x75, 0x73, 0x69, 0x6E, 0x67, 0x20,
    ];
    assert(encode_utf8(pre) =~= pre_bytes);
    assert(encode_utf8(post) =~= seq![0x29u8]);
    lemma_encode_utf8_concat(pre, board_name);
    lemma_encode_utf8_concat(pre + board_name, post);
    assert(sysex_frame(REPORT_FIRMWARE, firmware_report_body(board_name)) =~= seq![
        0xF0u8,
        0x79,
        1,
        0,
    ] + pre_bytes + encode_utf8(board_name) + seq![0x29u8, 0xF7]);
}

/// Appends `bytes` to `out`.
fn push_bytes(out: &mut Vec<u8>, bytes: &[u8])
    ensures
        final(out)@ == old(out)@ + bytes@,
{
    let mut i: usize = 0;
    let ghost start = out@;
    while i < bytes.len()
        invariant
            0 <= i <= bytes@.len(),
            out@ == start + bytes@.take(i as int),
        decreases bytes@.len() - i,
    {
        out.push(bytes[i]);
        i = i + 1;
        assert(out@ =~= start + bytes@.take(i as int));
    }
    assert(bytes@.take(i as int) =~= bytes@);
}

/// Frames `body` as a sysex message of the given command.
pub fn frame_sysex(command: u8, body: &[u8]) -> (msg: Vec<u8>)
    ensures
        msg@ == sysex_frame(command, body@),
{
    let mut msg: Vec<u8> = Vec::new();
    msg.push(START_SYSEX);
    msg.push(command);
    push_bytes(&mut msg, body);
    msg.push(END_SYSEX);
    assert(msg@ =~= sysex_frame(command, body@));
    msg
}

/// The reply to a `REPORT_FIRMWARE` query for a board of the given name:
/// version 1.0 and the name `FirmataBridge (using <board_name>)`.
pub fn firmware_report(board_name: &str) -> (msg: Vec<u8>)
    ensures
        msg@ == sysex_frame(REPORT_FIRMWARE, firmware_report_body(board_name@)),
{
    let mut text = String::from_str("FirmataBridge (using ");
    text.append(board_name);
    text.append(")");
    let mut body: Vec<u8> = Vec::new();
    body.push(1);
    body.push(0);
    push_bytes(&mut body, text.as_str().as_bytes());
    assert(text@ =~= firmware_description(board_name@));
    assert(body@ =~= firmware_report_body(board_name@));
    frame_sysex(REPORT_FIRMWARE, body.as_slice())
}

/// The reply to a `CAPABILITY_QUERY`: the board's capability list framed as
/// a `CAPABILITY_RESPONSE`.
pub fn capability_response(capabilities: &[u8]) -> (msg: Vec<u8>)
    ensures
        msg@ == sysex_frame(CAPABILITY_RESPONSE, capabilities@),
{
    frame_sysex(CAPABILITY_RESPONSE, capabilities)
}

/// The reply to an `ANALOG_MAPPING_QUERY`: the board's analog mapping framed
/// as an `ANALOG_MAPPING_RESPONSE`.
pub fn analog_mapping_response(mapping: &[u8]) -> (msg: Vec<u8>)
    ensures
        msg@ == sysex_frame(ANALOG_MAPPING_RESPONSE, mapping@),
{
    frame_sysex(ANALOG_MAPPING_RESPONSE, mapping)
}

} // verus!
