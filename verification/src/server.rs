//! The fixed HTTP responses and the serving decisions of the TCP demo: the
//! response header strings served on the plain-HTTP port, the status body,
//! the route-to-motor-control mapping, and the cursor arithmetic of the
//! chunked transfer of the index page.

use vstd::prelude::*;
use crate::motor::ControlState;

verus! {

/// How many bytes of the index body one send call carries.
pub const CHUNK_SIZE: usize = 256;

/// The response header of the index page: 200 OK, with the body stored
/// pre-compressed.
pub open spec fn index_header() -> Seq<u8> {
    seq![
        72u8, 84u8, 84u8, 80u8, 47u8, 49u8, 46u8, 49u8, 32u8, 50u8, 48u8, 48u8, 32u8, 79u8, 75u8,
        13u8, 10u8, 67u8, 111u8, 110u8, 116u8, 101u8, 110u8, 116u8, 45u8, 69u8, 110u8, 99u8,
        111u8, 100u8, 105u8, 110u8, 103u8, 58u8, 32u8, 98u8, 114u8, 13u8, 10u8, 13u8, 10u8,
    ]
}

/// The response header of the status endpoint: 200 OK with the
/// cross-origin header naming the board's own address.
pub open spec fn status_header() -> Seq<u8> {
    seq![
        72u8, 84u8, 84u8, 80u8, 47u8, 49u8, 46u8, 49u8, 32u8, 50u8, 48u8, 48u8, 32u8, 79u8, 75u8,
        13u8, 10u8, 65u8, 99u8, 99u8, 101u8, 115u8, 115u8, 45u8, 67u8, 111u8, 110u8, 116u8,
        114u8, 111u8, 108u8, 45u8, 65u8, 108u8, 108u8, 111u8, 119u8, 45u8, 79u8, 114u8, 105u8,
        103u8, 105u8, 110u8, 58u8, 32u8, 104u8, 116u8, 116u8, 112u8, 58u8, 47u8, 47u8, 49u8,
        57u8, 50u8, 46u8, 49u8, 54u8, 56u8, 46u8, 49u8, 46u8, 50u8, 13u8, 10u8, 13u8, 10u8,
    ]
}

/// The body of the status endpoint.
pub open spec fn status_body() -> Seq<u8> {
    seq![
        123u8, 13u8, 10u8, 9u8, 34u8, 115u8, 116u8, 97u8, 116u8, 101u8, 34u8, 58u8, 32u8, 34u8,
        102u8, 97u8, 108u8, 115u8, 101u8, 34u8, 44u8, 13u8, 10u8, 9u8, 34u8, 99u8, 111u8, 117u8,
        110u8, 116u8, 34u8, 58u8, 32u8, 102u8, 97u8, 108u8, 115u8, 101u8, 13u8, 10u8, 125u8,
        13u8, 10u8,
    ]
}

/// Builds the index response header.
pub fn build_index_header() -> (r: Vec<u8>)
    ensures
        r@ == index_header(),
{
    let mut out: Vec<u8> = Vec::new();
    out.push(72);
    out.push(84);
    out.push(84);
    out.push(80);
    out.push(47);
    out.push(49);
    out.push(46);
    out.push(49);
    out.push(32);
    out.push(50);
    out.push(48);
    out.push(48);
    out.push(32);
    out.push(79);
    out.push(75);
    out.push(13);
    out.push(10);
    out.push(67);
    out.push(111);
    out.push(110);
    out.push(116);
    out.push(101);
    out.push(110);
    out.push(116);
    out.push(45);
    out.push(69);
    out.push(110);
    out.push(99);
    out.push(111);
    out.push(100);
    out.push(105);
    out.push(110);
    out.push(103);
    out.push(58);
    out.push(32);
    out.push(98);
    out.push(114);
    out.push(13);
    out.push(10);
    out.push(13);
    out.push(10);
    proof {
        assert(out@ =~= index_header());
    }
    out
}

/// Builds the status response header.
pub fn build_status_header() -> (r: Vec<u8>)
    ensures
        r@ == status_header(),
{
    let mut out: Vec<u8> = Vec::new();
    out.push(72);
    out.push(84);
    out.push(84);
    out.push(80);
    out.push(47);
    out.push(49);
    out.push(46);
    out.push(49);
    out.push(32);
    out.push(50);
    out.push(48);
    out.push(48);
    out.push(32);
    out.push(79);
    out.push(75);
    out.push(13);
    out.push(10);
    out.push(65);
    out.push(99);
    out.push(99);
    out.push(101);
    out.push(115);
    out.push(115);
    out.push(45);
    out.push(67);
    out.push(111);
    out.push(110);
    out.push(116);
    out.push(114);
    out.push(111);
    out.push(108);
    out.push(45);
    out.push(65);
    out.push(108);
    out.push(108);
    out.push(111);
    out.push(119);
    out.push(45);
    out.push(79);
    out.push(114);
    out.push(105);
    out.push(103);
    out.push(105);
    out.push(110);
    out.push(58);
    out.push(32);
    out.push(104);
    out.push(116);
    out.push(116);
    out.push(112);
    out.push(58);
    out.push(47);
    out.push(47);
    out.push(49);
    out.push(57);
    out.push(50);
    out.push(46);
    out.push(49);
    out.push(54);
    out.push(56);
    out.push(46);
    out.push(49);
    out.push(46);
    out.push(50);
    out.push(13);
    out.push(10);
    out.push(13);
    out.push(10);
    proof {
        assert(out@ =~= status_header());
    }
    out
}

/// Builds the status response body.
pub fn build_status_body() -> (r: Vec<u8>)
    ensures
        r@ == status_body(),
{
    let mut out: Vec<u8> = Vec::new();
    out.push(123);
    out.push(13);
    out.push(10);
    out.push(9);
    out.push(34);
    out.push(115);
    out.push(116);
    out.push(97);
    out.push(116);
    out.push(101);
    out.push(34);
    out.push(58);
    out.push(32);
    out.push(34);
    out.push(102);
    out.push(97);
    out.push(108);
    out.push(115);
    out.push(101);
    out.push(34);
    out.push(44);
    out.push(13);
    out.push(10);
    out.push(9);
    out.push(34);
    out.push(99);
    out.push(111);
    out.push(117);
    out.push(110);
    out.push(116);
    out.push(34);
    out.push(58);
    out.push(32);
    out.push(102);
    out.push(97);
    out.push(108);
    out.push(115);
    out.push(101);
    out.push(13);
    out.push(10);
    out.push(125);
    out.push(13);
    out.push(10);
    proof {
        assert(out@ =~= status_body());
    }
    out
}

/// What a POSTed route asks of the motor: forward, reverse, or stop;
/// anything unknown stops it.
pub open spec fn control_of_route(route: Seq<u8>) -> ControlState {
    if route == seq![47u8, 102u8] {
        ControlState::Forward
    } else if route == seq![47u8, 114u8] {
        ControlState::Reverse
    } else {
        ControlState::Idle
    }
}

/// Maps a request route to the motor control state.
pub fn control_for_route(route: &Vec<u8>) -> (r: ControlState)
    ensures
        r == control_of_route(route@),
{
    let mut fwd: Vec<u8> = Vec::new();
    fwd.push(47);
    fwd.push(102);
    let mut rev: Vec<u8> = Vec::new();
    rev.push(47);
    rev.push(114);
    proof {
        assert(fwd@ =~= seq![47u8, 102u8]);
        assert(rev@ =~= seq![47u8, 114u8]);
    }
    if crate::frame::bytes_eq(route, &fwd) {
        ControlState::Forward
    } else if crate::frame::bytes_eq(route, &rev) {
        ControlState::Reverse
    } else {
        ControlState::Idle
    }
}

/// One step of the chunked transfer: send this byte range next, or close
/// the connection and start over.
#[derive(Debug, PartialEq, Eq, Structural, Clone, Copy)]
pub enum ChunkStep {
    Send { start: usize, end: usize },
    Close,
}

/// One cursor step of the chunked index transfer. A full chunk is sent
/// while more than one chunk remains; a final partial chunk is sent when
/// less than one remains; at or past the end — a remainder of exactly one
/// chunk included — the connection is closed and the cursor starts over.
pub fn next_chunk(cursor: usize, body_len: usize) -> (r: (ChunkStep, usize))
    requires
        body_len <= usize::MAX - CHUNK_SIZE,
        cursor <= body_len + CHUNK_SIZE,
    ensures
        cursor + CHUNK_SIZE < body_len ==> r == (
            ChunkStep::Send { start: cursor, end: (cursor + CHUNK_SIZE) as usize },
            (cursor + CHUNK_SIZE) as usize,
        ),
        cursor + CHUNK_SIZE > body_len && cursor < body_len ==> r == (
            ChunkStep::Send { start: cursor, end: body_len },
            (cursor + CHUNK_SIZE) as usize,
        ),
        cursor + CHUNK_SIZE == body_len || cursor >= body_len ==> r == (ChunkStep::Close, 0usize),
{
    if cursor < body_len {
        let rem = body_len - cursor;
        if rem > CHUNK_SIZE {
            (ChunkStep::Send { start: cursor, end: cursor + CHUNK_SIZE }, cursor + CHUNK_SIZE)
        } else if rem < CHUNK_SIZE {
            (ChunkStep::Send { start: cursor, end: body_len }, cursor + CHUNK_SIZE)
        } else {
            (ChunkStep::Close, 0)
        }
    } else {
        (ChunkStep::Close, 0)
    }
}

} // verus!
