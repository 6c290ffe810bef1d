//! Length-prefixed framing of the socket protocol: each message is a
//! 4-byte big-endian length followed by that many bytes of JSON body.
//! Turning messages into JSON bodies and back is left to the caller.

use vstd::prelude::*;

verus! {

/// The default location of the daemon's Unix domain socket.
pub const DEFAULT_SOCKET_PATH: &'static str = "/run/mindgate/mindgate.sock";

/// The four big-endian bytes of `n`.
pub open spec fn be_bytes(n: u32) -> Seq<u8> {
    seq![
        (n / 0x1000000) as u8,
        ((n / 0x10000) % 0x100) as u8,
        ((n / 0x100) % 0x100) as u8,
        (n % 0x100) as u8,
    ]
}

/// The number that four big-endian bytes stand for.
pub open spec fn be_value(b0: u8, b1: u8, b2: u8, b3: u8) -> int {
    b0 as int * 0x1000000 + b1 as int * 0x10000 + b2 as int * 0x100 + b3 as int
}

/// A frame: the body's length, big-endian, then the body.
pub open spec fn frame(body: Seq<u8>) -> Seq<u8> {
    be_bytes(body.len() as u32) + body
}

/// Encodes a message body as one frame.
pub fn encode_frame(body: &[u8]) -> (out: Vec<u8>)
    requires
        body@.len() <= u32::MAX,
    ensures
        out@ == frame(body@),
{
    let n: u32 = body.len() as u32;
    let mut out: Vec<u8> = Vec::new();
    out.push((n / 0x1000000) as u8);
    out.push(((n / 0x10000) % 0x100) as u8);
    out.push(((n / 0x100) % 0x100) as u8);
    out.push((n % 0x100) as u8);
    let mut i: usize = 0;
    while i < body.len()
        invariant
            0 <= i <= body@.len(),
            out@ == be_bytes(n) + body@.subrange(0, i as int),
            n == body@.len(),
        decreases body@.len() - i,
    {
        out.push(body[i]);
        i += 1;
        assert(body@.subrange(0, i as int) == body@.subrange(0, i - 1).push(body@[i - 1]));
    }
    assert(body@.subrange(0, body@.len() as int) == body@);
    out
}

/// Reads the body length out of a frame's 4-byte big-endian prefix.
pub fn frame_body_len(prefix: [u8; 4]) -> (len: u32)
    ensures
        len as int == be_value(prefix[0], prefix[1], prefix[2], prefix[3]),
{
    (prefix[0] as u32) * 0x1000000 + (prefix[1] as u32) * 0x10000 + (prefix[2] as u32) * 0x100
        + (prefix[3] as u32)
}

/// Splits the first complete frame off the front of `buf`: its body and the
/// number of bytes it took. `None` while the frame is not yet complete.
pub fn split_frame(buf: &[u8]) -> (res: Option<(Vec<u8>, usize)>)
    ensures
        buf@.len() < 4 ==> res is None,
        buf@.len() >= 4 ==> {
            let len = be_value(buf@[0], buf@[1], buf@[2], buf@[3]);
            match res {
                None => buf@.len() < 4 + len,
                Some((body, used)) => {
                    &&& 4 + len <= buf@.len()
                    &&& used == 4 + len
                    &&& body@ == buf@.subrange(4, 4 + len)
                },
            }
        },
{
    if buf.len() < 4 {
        return None;
    }
    let len = frame_body_len([buf[0], buf[1], buf[2], buf[3]]) as usize;
    if buf.len() - 4 < len {
        return None;
    }
    let mut body: Vec<u8> = Vec::new();
    let mut i: usize = 0;
    while i < len
        invariant
            0 <= i <= len,
            4 + len <= buf@.len(),
            buf@.len() == buf.len(),
            body@ == buf@.subrange(4, 4 + i),
        decreases len - i,
    {
        body.push(buf[4 + i]);
        i += 1;
        assert(buf@.subrange(4, 4 + i) == buf@.subrange(4, 4 + i - 1).push(buf@[4 + i - 1]));
    }
    Some((body, 4 + len))
}

/// The socket path: the override when one is given, else the default.
pub fn socket_path_from(override_path: Option<String>) -> (path: String)
    ensures
        path@ == match override_path {
            Some(p) => p@,
            None => DEFAULT_SOCKET_PATH@,
        },
{
    match override_path {
        Some(p) => p,
        None => String::from_str(DEFAULT_SOCKET_PATH),
    }
}

/// The big-endian prefix of a frame stands for the length it was made from.
pub proof fn be_bytes_round_trip(n: u32)
    ensures
        be_value(be_bytes(n)[0], be_bytes(n)[1], be_bytes(n)[2], be_bytes(n)[3]) == n,
{
}

/// Reading a frame gives back the body that was framed, whatever follows it.
pub proof fn frame_read_gives_back_write(body: Seq<u8>, rest: Seq<u8>)
    requires
        body.len() <= u32::MAX,
    ensures
        ({
            let buf = frame(body) + rest;
            let len = be_value(buf[0], buf[1], buf[2], buf[3]);
            &&& buf.len() >= 4
            &&& len == body.len()
            &&& 4 + len <= buf.len()
            &&& buf.subrange(4, 4 + len) == body
        }),
{
    let buf = frame(body) + rest;
    be_bytes_round_trip(body.len() as u32);
    assert(buf[0] == be_bytes(body.len() as u32)[0]);
    assert(buf[1] == be_bytes(body.len() as u32)[1]);
    assert(buf[2] == be_bytes(body.len() as u32)[2]);
    assert(buf[3] == be_bytes(body.len() as u32)[3]);
    assert(buf.subrange(4, 4 + body.len() as int) =~= body);
}

} // verus!
