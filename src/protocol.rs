use vstd::prelude::*;

verus! {

/// Failure of the frame channel.
#[derive(Debug, Clone, Copy, PartialEq, Eq, Structural)]
pub enum ConnectionError {
    /// Fewer bytes arrived than the message announced.
    ShortRead,
}

/// A command to the vehicle; values are in millionths.
#[derive(Debug, Clone, Copy, PartialEq, Eq, Structural)]
pub enum Command {
    /// Throttle.
    Forward { value: i64 },
    /// Steering; negative turns one way, positive the other.
    Turn { value: i64 },
}

/// The greeting sent once on connecting: the team's name, colour (a hex
/// string such as `#ff9514`) and identifier.
pub struct LoginMessage<'a> {
    pub name: &'a str,
    pub color: &'a str,
    pub team_id: &'a str,
}

/// Number of bytes in the length prefix of a frame message.
pub const PREFIX_LEN: usize = 2;

/// The big-endian 16-bit value held in the first two bytes of `b`.
pub open spec fn be_u16(b: Seq<u8>) -> int
    recommends
        b.len() >= 2,
{
    b[0] as int * 256 + b[1] as int
}

/// Relies on byteorder's `BigEndian::read_u16`: the first two bytes of `buf`,
/// most significant first (it panics on a shorter slice).
#[verifier::external_body]
fn read_be_u16(buf: &[u8]) -> (r: u16)
    requires
        buf@.len() >= 2,
    ensures
        r as int == be_u16(buf@),
{
    <byteorder::BigEndian as byteorder::ByteOrder>::read_u16(buf)
}

/// Reads the payload length announced by a frame message's prefix.
pub fn payload_length(prefix: &[u8]) -> (r: Result<usize, ConnectionError>)
    ensures
        prefix@.len() >= 2 <==> r.is_ok(),
        r matches Ok(n) ==> n as int == be_u16(prefix@),
        r matches Err(e) ==> e == ConnectionError::ShortRead,
{
    if prefix.len() < PREFIX_LEN {
        Err(ConnectionError::ShortRead)
    } else {
        Ok(read_be_u16(prefix) as usize)
    }
}

/// Whether `buf` starts with a complete frame message.
pub open spec fn holds_message(buf: Seq<u8>) -> bool {
    buf.len() >= 2 && buf.len() >= 2 + be_u16(buf)
}

/// Splits the first frame message off `buf`: its payload and the number of
/// bytes that the message takes up, prefix included.
pub fn split_frame(buf: &[u8]) -> (r: Result<(Vec<u8>, usize), ConnectionError>)
    ensures
        r.is_ok() <==> holds_message(buf@),
        r matches Ok((payload, used)) ==> {
            &&& used as int == 2 + be_u16(buf@)
            &&& payload@ == buf@.subrange(2, used as int)
        },
        r matches Err(e) ==> e == ConnectionError::ShortRead,
{
    let n = match payload_length(buf) {
        Ok(n) => n,
        Err(e) => return Err(e),
    };
    if buf.len() - PREFIX_LEN < n {
        return Err(ConnectionError::ShortRead);
    }
    let mut payload: Vec<u8> = Vec::with_capacity(n);
    let mut i: usize = 0;
    while i < n
        invariant
            i <= n,
            n + 2 <= buf.len(),
            payload@ == buf@.subrange(2, 2 + i as int),
        decreases n - i,
    {
        payload.push(buf[i + PREFIX_LEN]);
        i = i + 1;
        proof {
            assert(payload@ =~= buf@.subrange(2, 2 + i as int));
        }
    }
    Ok((payload, n + PREFIX_LEN))
}

} // verus!
