//! Outbound frame of the multiplexing protocol, which carries several logical
//! links over one serial line.
//!
//! | 8 bits  | SOF    | start of frame, `0xBF`       |
//! | 8 bits  | LINK   | link id                      |
//! | 6 bits  | FLAGS  | always zero                  |
//! | 10 bits | LENGTH | size of DATA, big-endian     |
//! | N bytes | DATA   | payload, at most 1023 bytes  |
//! | 8 bits  | nLINK  | LINK XOR `0xFF`              |
use vstd::prelude::*;

verus! {

pub const SOF: u8 = 0xBF;

pub const MAX_DATA_LEN: usize = 1023;

/// How much of a payload of `len` bytes fits in one frame.
pub open spec fn frame_data_len(len: nat) -> nat {
    if len < MAX_DATA_LEN {
        len
    } else {
        MAX_DATA_LEN as nat
    }
}

/// The frame that carries `data` (cut to what fits) on link `link`.
pub open spec fn mux_frame(data: Seq<u8>, link: u8) -> Seq<u8> {
    let n = frame_data_len(data.len());
    seq![SOF, link, (n / 256) as u8, (n % 256) as u8] + data.subrange(0, n as int) + seq![
        link ^ 0xFF,
    ]
}

/// Encodes one frame: SOF, the link id, flags and length, the payload cut to
/// 1023 bytes, and the inverted link id.
pub fn encode_mux_frame(data: &[u8], link_id: u8) -> (frame: Vec<u8>)
    ensures
        frame@ == mux_frame(data@, link_id),
{
    let data_len = if data.len() < MAX_DATA_LEN {
        data.len()
    } else {
        MAX_DATA_LEN
    };
    let length_field: u16 = data_len as u16;
    let mut frame: Vec<u8> = Vec::with_capacity(5 + data_len);
    frame.push(SOF);
    frame.push(link_id);
    frame.push((length_field / 256) as u8);
    frame.push((length_field % 256) as u8);
    let mut i: usize = 0;
    while i < data_len
        invariant
            data_len == frame_data_len(data@.len()),
            i <= data_len,
            length_field == data_len,
            frame@ == seq![SOF, link_id, (data_len / 256) as u8, (data_len % 256) as u8]
                + data@.subrange(0, i as int),
        decreases data_len - i,
    {
        frame.push(data[i]);
        i += 1;
        assert(frame@ =~= seq![SOF, link_id, (data_len / 256) as u8, (data_len % 256) as u8]
            + data@.subrange(0, i as int));
    }
    frame.push(link_id ^ 0xFF);
    assert(frame@ =~= mux_frame(data@, link_id));
    frame
}

/// Every frame is five bytes longer than the part of the payload it carries,
/// starts with SOF, and ends with its link byte inverted.
pub proof fn lemma_frame_shape(data: Seq<u8>, link: u8)
    ensures
        mux_frame(data, link).len() == 5 + frame_data_len(data.len()),
        mux_frame(data, link)[0] == SOF,
        mux_frame(data, link).last() == mux_frame(data, link)[1] ^ 0xFF,
{
}

} // verus!
