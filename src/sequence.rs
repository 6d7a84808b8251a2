use vstd::prelude::*;

verus! {

/// Size of the space of message ids and sequence numbers.
pub const ID_SPACE: u32 = 65536;

/// Half of the id space: the window inside which one id counts as newer.
pub const HALF_ID_SPACE: u16 = 32768;

/// `a` is newer than `b` under wraparound: the forward distance from `b` to
/// `a` is non-zero and less than half the id space.
pub open spec fn newer_spec(a: u16, b: u16) -> bool {
    let d = (a as int - b as int) % (ID_SPACE as int);
    0 < d < HALF_ID_SPACE as int
}

/// The id that follows `a`, wrapping from the largest back to zero.
pub open spec fn next_id_spec(a: u16) -> u16 {
    ((a as int + 1) % (ID_SPACE as int)) as u16
}

/// Wraparound-aware "strictly newer than" on message ids and sequence numbers.
pub fn sequence_greater_than(a: u16, b: u16) -> (r: bool)
    ensures
        r == newer_spec(a, b),
{
    let d: u16 = a.wrapping_sub(b);
    d != 0 && d < HALF_ID_SPACE
}

/// The id after `a`, wrapping.
pub fn next_id(a: u16) -> (r: u16)
    ensures
        r == next_id_spec(a),
{
    a.wrapping_add(1)
}

/// Little-endian two-byte encoding of `v`.
pub open spec fn u16_bytes(v: u16) -> Seq<u8> {
    seq![(v % 256) as u8, (v / 256) as u8]
}

/// The value of the first two bytes of `b`, little-endian.
pub open spec fn u16_of(b: Seq<u8>) -> u16
    recommends
        b.len() >= 2,
{
    (b[0] as int + 256 * (b[1] as int)) as u16
}

/// Reading back what `u16_bytes` wrote gives the value.
pub proof fn lemma_u16_round_trip(v: u16, rest: Seq<u8>)
    ensures
        u16_of(u16_bytes(v) + rest) == v,
        (u16_bytes(v) + rest).len() == 2 + rest.len(),
        (u16_bytes(v) + rest).subrange(2, 2 + rest.len() as int) == rest,
{
    assert((u16_bytes(v) + rest).subrange(2, 2 + rest.len() as int) =~= rest);
}

/// Writes `v` as two little-endian bytes followed by `body`.
pub fn frame_with_id(v: u16, body: &[u8]) -> (r: Vec<u8>)
    ensures
        r@ == u16_bytes(v) + body@,
{
    let mut out: Vec<u8> = Vec::new();
    out.push((v % 256) as u8);
    out.push((v / 256) as u8);
    let mut i: usize = 0;
    while i < body.len()
        invariant
            0 <= i <= body@.len(),
            out@ == u16_bytes(v) + body@.subrange(0, i as int),
        decreases body@.len() - i,
    {
        out.push(body[i]);
        i += 1;
        assert(body@.subrange(0, i as int) =~= body@.subrange(0, i - 1 as int).push(body@[i - 1]));
    }
    assert(body@.subrange(0, body@.len() as int) =~= body@);
    out
}

/// Splits a framed packet into its leading id and the bytes after it.
/// Packets shorter than two bytes carry no id.
pub fn split_id(packet: &[u8]) -> (r: Option<(u16, Vec<u8>)>)
    ensures
        packet@.len() < 2 <==> r is None,
        r matches Some((id, body)) ==> id == u16_of(packet@) && body@ == packet@.subrange(
            2,
            packet@.len() as int,
        ),
{
    if packet.len() < 2 {
        return None;
    }
    let id: u16 = (packet[0] as u16) + 256 * (packet[1] as u16);
    let mut body: Vec<u8> = Vec::new();
    let mut i: usize = 2;
    while i < packet.len()
        invariant
            2 <= i <= packet@.len(),
            body@ == packet@.subrange(2, i as int),
        decreases packet@.len() - i,
    {
        body.push(packet[i]);
        i += 1;
        assert(packet@.subrange(2, i as int) =~= packet@.subrange(2, i - 1 as int).push(
            packet@[i - 1],
        ));
    }
    Some((id, body))
}

} // verus!
