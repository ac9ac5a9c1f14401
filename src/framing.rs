//! The wire format: `u32-le length | u32-le correlation id | payload`.

use vstd::prelude::*;

verus! {

/// Little-endian bytes of a 32-bit value.
pub open spec fn le_bytes(v: u32) -> Seq<u8> {
    seq![
        (v % 256) as u8,
        ((v / 256) % 256) as u8,
        ((v / 65536) % 256) as u8,
        ((v / 16777216) % 256) as u8,
    ]
}

/// The value that four little-endian bytes stand for.
pub open spec fn le_value(b: Seq<u8>) -> int
    recommends
        b.len() >= 4,
{
    b[0] as int + 256 * (b[1] as int) + 65536 * (b[2] as int) + 16777216 * (b[3] as int)
}

/// The bytes of one frame carrying `payload` under correlation id `id`.
pub open spec fn frame_bytes(id: u32, payload: Seq<u8>) -> Seq<u8>
    recommends
        payload.len() <= u32::MAX,
{
    le_bytes(payload.len() as u32) + le_bytes(id) + payload
}

/// What reading one frame from the front of `b` gives: the id, the payload and
/// the number of bytes consumed; `None` where `b` ends before the frame does.
pub open spec fn parse_frame(b: Seq<u8>) -> Option<(u32, Seq<u8>, int)> {
    if b.len() < 8 {
        None
    } else {
        let len = le_value(b.subrange(0, 4));
        if b.len() < 8 + len {
            None
        } else {
            Some((le_value(b.subrange(4, 8)) as u32, b.subrange(8, 8 + len), 8 + len))
        }
    }
}

/// Four little-endian bytes read back give the value they were made from.
pub proof fn lemma_le_round_trip(v: u32)
    ensures
        le_value(le_bytes(v)) == v as int,
{
    let x = v as int;
    let b = le_bytes(v);
    assert(x == x % 256 + 256 * ((x / 256) % 256) + 65536 * ((x / 65536) % 256) + 16777216 * ((x
        / 16777216) % 256)) by (nonlinear_arith)
        requires
            0 <= x < 0x1_0000_0000,
    {
        assert(x == x % 256 + 256 * (x / 256));
        assert(x / 256 == (x / 256) % 256 + 256 * (x / 65536));
        assert(x / 65536 == (x / 65536) % 256 + 256 * (x / 16777216));
        assert(x / 16777216 < 256);
    }
}

/// Any four bytes read as a little-endian value fit in 32 bits.
pub proof fn lemma_le_value_bounds(b: Seq<u8>)
    requires
        b.len() >= 4,
    ensures
        0 <= le_value(b) <= u32::MAX,
{
    let (b0, b1, b2, b3) = (b[0] as int, b[1] as int, b[2] as int, b[3] as int);
    assert(0 <= b0 + 256 * b1 + 65536 * b2 + 16777216 * b3 <= 0xffff_ffff) by (nonlinear_arith)
        requires
            0 <= b0 < 256,
            0 <= b1 < 256,
            0 <= b2 < 256,
            0 <= b3 < 256,
    ;
}

/// Writing a frame and reading it back on the other end gives the same id and
/// payload, whatever follows it on the stream.
pub proof fn lemma_frame_round_trip(id: u32, payload: Seq<u8>, rest: Seq<u8>)
    requires
        payload.len() <= u32::MAX,
    ensures
        parse_frame(frame_bytes(id, payload) + rest) == Some((id, payload, 8 + payload.len() as int)),
{
    let b = frame_bytes(id, payload) + rest;
    let n = payload.len() as u32;
    lemma_le_round_trip(n);
    lemma_le_round_trip(id);
    assert(b.subrange(0, 4) =~= le_bytes(n));
    assert(b.subrange(4, 8) =~= le_bytes(id));
    assert(b.subrange(8, 8 + payload.len() as int) =~= payload);
}

/// The little-endian bytes of `val`, as they go on the wire.
pub fn write_u32(val: u32) -> (r: Vec<u8>)
    ensures
        r@ == le_bytes(val),
{
    let r = vec![
        (val % 256) as u8,
        ((val / 256) % 256) as u8,
        ((val / 65536) % 256) as u8,
        ((val / 16777216) % 256) as u8,
    ];
    assert(r@ =~= le_bytes(val));
    r
}

/// The value of the four little-endian bytes that start at `at`.
pub fn read_u32(bytes: &[u8], at: usize) -> (r: u32)
    requires
        at + 4 <= bytes@.len(),
    ensures
        r as int == le_value(bytes@.subrange(at as int, at + 4)),
{
    let ghost s = bytes@.subrange(at as int, at + 4);
    proof {
        lemma_le_value_bounds(s);
    }
    let b0 = bytes[at] as u32;
    let b1 = bytes[at + 1] as u32;
    let b2 = bytes[at + 2] as u32;
    let b3 = bytes[at + 3] as u32;
    assert(s[0] == b0 && s[1] == b1 && s[2] == b2 && s[3] == b3);
    assert(b1 * 256 <= 255 * 256) by (nonlinear_arith)
        requires
            b1 <= 255,
    ;
    assert(b2 * 65536 <= 255 * 65536) by (nonlinear_arith)
        requires
            b2 <= 255,
    ;
    assert(b3 * 16777216 <= 255 * 16777216) by (nonlinear_arith)
        requires
            b3 <= 255,
    ;
    b0 + b1 * 256 + b2 * 65536 + b3 * 16777216
}

/// Why a frame could not be written or read.
#[derive(Debug, Clone, Copy, PartialEq, Eq, Structural)]
pub enum FrameError {
    /// The payload is longer than a 32-bit length prefix can state.
    TooLong,
    /// The bytes end before the frame does.
    Truncated,
}

/// One frame read from the stream.
pub struct Frame {
    pub id: u32,
    pub payload: Vec<u8>,
}

/// The bytes of one frame: length prefix, correlation id, then the payload.
pub fn write_frame(id: u32, payload: &[u8]) -> (r: Result<Vec<u8>, FrameError>)
    ensures
        payload@.len() > u32::MAX <==> r is Err,
        r is Err ==> r == Err::<Vec<u8>, FrameError>(FrameError::TooLong),
        r matches Ok(v) ==> v@ == frame_bytes(id, payload@),
{
    if payload.len() > 0xffff_ffff {
        return Err(FrameError::TooLong);
    }
    let mut out = write_u32(payload.len() as u32);
    let mut idb = write_u32(id);
    out.append(&mut idb);
    let mut i: usize = 0;
    while i < payload.len()
        invariant
            0 <= i <= payload@.len(),
            out@ == le_bytes(payload@.len() as u32) + le_bytes(id) + payload@.subrange(0, i as int),
        decreases payload@.len() - i,
    {
        out.push(payload[i]);
        i = i + 1;
        assert(out@ =~= le_bytes(payload@.len() as u32) + le_bytes(id) + payload@.subrange(
            0,
            i as int,
        ));
    }
    assert(payload@.subrange(0, i as int) =~= payload@);
    Ok(out)
}

/// Reads one frame from the front of `bytes`; returns it with the number of
/// bytes it took, or `Truncated` where the bytes end before the frame does.
pub fn read_frame(bytes: &[u8]) -> (r: Result<(Frame, usize), FrameError>)
    ensures
        parse_frame(bytes@) is None <==> r is Err,
        r is Err ==> r == Err::<(Frame, usize), FrameError>(FrameError::Truncated),
        r matches Ok((f, n)) ==> parse_frame(bytes@) == Some((f.id, f.payload@, n as int)),
{
    if bytes.len() < 8 {
        return Err(FrameError::Truncated);
    }
    let len = read_u32(bytes, 0);
    let id = read_u32(bytes, 4);
    if bytes.len() - 8 < len as usize {
        return Err(FrameError::Truncated);
    }
    let end = 8 + len as usize;
    let mut payload: Vec<u8> = Vec::new();
    let mut i: usize = 8;
    while i < end
        invariant
            8 <= i <= end <= bytes@.len(),
            payload@ == bytes@.subrange(8, i as int),
        decreases end - i,
    {
        payload.push(bytes[i]);
        i = i + 1;
        assert(payload@ =~= bytes@.subrange(8, i as int));
    }
    Ok((Frame { id, payload }, end))
}

} // verus!
