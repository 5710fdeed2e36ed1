//! WebSocket upgrade over the established TLS stream, and the ordered
//! delivery buffer that turns binary messages back into a byte stream.
//!
//! The `Sec-WebSocket-Protocol` header carries the bearer token — the only
//! authentication this protocol has. Anything but `HTTP/1.1 101` is fatal.

use vstd::prelude::*;

use crate::errors::Error;
use crate::outside::{b64std_encode, b64std_of, string_push_str};

verus! {

/// The upgrade request sent over the TLS stream, headers in this order:
/// request line, Host, Upgrade, Connection, Sec-WebSocket-Key,
/// Sec-WebSocket-Version, then the token as Sec-WebSocket-Protocol if one
/// is given, then the blank line.
pub open spec fn spec_upgrade_request(
    host: Seq<char>,
    path: Seq<char>,
    key: Seq<char>,
    token: Option<Seq<char>>,
) -> Seq<char> {
    let head = "GET "@ + path + " HTTP/1.1\r\nHost: "@ + host
        + "\r\nUpgrade: websocket\r\nConnection: Upgrade\r\nSec-WebSocket-Key: "@ + key
        + "\r\nSec-WebSocket-Version: 13\r\n"@;
    let with_token = match token {
        Some(t) => head + "Sec-WebSocket-Protocol: "@ + t + "\r\n"@,
        None => head,
    };
    with_token + "\r\n"@
}

/// Build the HTTP/1.1 upgrade request.
pub fn build_upgrade_request(host: &str, path: &str, key: &str, token: Option<&str>) -> (r: String)
    ensures
        r@ == spec_upgrade_request(
            host@,
            path@,
            key@,
            match token {
                Some(t) => Some(t@),
                None => None,
            },
        ),
{
    let mut req = String::new();
    string_push_str(&mut req, "GET ");
    string_push_str(&mut req, path);
    string_push_str(&mut req, " HTTP/1.1\r\nHost: ");
    string_push_str(&mut req, host);
    string_push_str(
        &mut req,
        "\r\nUpgrade: websocket\r\nConnection: Upgrade\r\nSec-WebSocket-Key: ",
    );
    string_push_str(&mut req, key);
    string_push_str(&mut req, "\r\nSec-WebSocket-Version: 13\r\n");
    match token {
        Some(t) => {
            string_push_str(&mut req, "Sec-WebSocket-Protocol: ");
            string_push_str(&mut req, t);
            string_push_str(&mut req, "\r\n");
        },
        None => {},
    }
    string_push_str(&mut req, "\r\n");
    proof {
        assert(req@ =~= spec_upgrade_request(
            host@,
            path@,
            key@,
            match token {
                Some(t) => Some(t@),
                None => None,
            },
        ));
    }
    req
}

/// Draw a fresh Sec-WebSocket-Key: sixteen random bytes, base64.
pub fn generate_ws_key() -> (r: String)
    ensures
        exists|bs: Seq<u8>| bs.len() == 16 && r@ == b64std_of(bs),
{
    let bytes: [u8; 16] = rand::random::<[u8; 16]>();
    let r = b64std_encode(bytes.as_slice());
    proof {
        assert(bytes@.len() == 16 && r@ == b64std_of(bytes@));
    }
    r
}

/// The bytes every acceptable upgrade response starts with.
pub open spec fn spec_http_101_prefix() -> Seq<u8> {
    seq![
        0x48u8,
        0x54u8,
        0x54u8,
        0x50u8,
        0x2fu8,
        0x31u8,
        0x2eu8,
        0x31u8,
        0x20u8,
        0x31u8,
        0x30u8,
        0x31u8,
    ]
}

/// Check the server's answer to the upgrade: only a response beginning
/// `HTTP/1.1 101` is accepted; anything else is an authentication or
/// protocol failure and fails the session.
pub fn check_upgrade_response(data: &[u8]) -> (r: Result<(), Error>)
    ensures
        (r is Ok <==> (data@.len() >= 12 && data@.take(12) == spec_http_101_prefix())),
        r matches Err(e) ==> e == Error::Protocol,
{
    let expected: [u8; 12] = [
        0x48,
        0x54,
        0x54,
        0x50,
        0x2f,
        0x31,
        0x2e,
        0x31,
        0x20,
        0x31,
        0x30,
        0x31,
    ];
    if data.len() < 12 {
        return Err(Error::Protocol);
    }
    let mut i: usize = 0;
    while i < 12
        invariant
            i <= 12,
            data@.len() >= 12,
            expected@ == spec_http_101_prefix(),
            forall|j: int| 0 <= j < i ==> data@[j] == spec_http_101_prefix()[j],
        decreases 12 - i,
    {
        if data[i] != expected[i] {
            proof {
                assert(data@[i as int] != spec_http_101_prefix()[i as int]);
                assert(data@.take(12) != spec_http_101_prefix()) by {
                    assert(data@.take(12)[i as int] == data@[i as int]);
                }
            }
            return Err(Error::Protocol);
        }
        i = i + 1;
    }
    proof {
        assert(data@.take(12) =~= spec_http_101_prefix());
    }
    Ok(())
}

/// Reassembles the byte stream from binary WebSocket messages, in order.
///
/// `received()` is everything the messages carried; `delivered()` is what
/// readers have consumed. The leftover of a partly-read message is kept and
/// drained before the next message is accepted.
pub struct ReadBuffer {
    buffer: Vec<u8>,
    pos: usize,
    delivered_g: Ghost<Seq<u8>>,
}

impl ReadBuffer {
    /// Bytes handed to readers so far, in order.
    pub closed spec fn delivered(&self) -> Seq<u8> {
        self.delivered_g@
    }

    /// Bytes of every message accepted so far, in order.
    pub closed spec fn received(&self) -> Seq<u8> {
        self.delivered_g@ + self.buffer@.skip(self.pos as int)
    }

    /// How much of the current message is still undelivered.
    pub closed spec fn spec_remaining(&self) -> nat {
        (self.buffer@.len() - self.pos) as nat
    }

    /// The read position never passes the buffer's end.
    pub closed spec fn wf(&self) -> bool {
        self.pos <= self.buffer@.len()
    }

    /// An empty buffer: nothing received, nothing delivered.
    pub fn new() -> (r: ReadBuffer)
        ensures
            r.wf(),
            r.delivered() == Seq::<u8>::empty(),
            r.received() == Seq::<u8>::empty(),
            r.spec_remaining() == 0,
    {
        let r = ReadBuffer { buffer: Vec::new(), pos: 0, delivered_g: Ghost(Seq::empty()) };
        proof {
            assert(r.received() =~= Seq::<u8>::empty());
        }
        r
    }

    /// How many bytes of the current message are still undelivered.
    pub fn remaining(&self) -> (n: usize)
        requires
            self.wf(),
        ensures
            n == self.spec_remaining(),
    {
        self.buffer.len() - self.pos
    }

    /// Accept the next binary message. Only called once the previous one
    /// is fully drained, so nothing is ever reordered.
    pub fn push_message(&mut self, msg: Vec<u8>)
        requires
            old(self).wf(),
            old(self).spec_remaining() == 0,
        ensures
            final(self).wf(),
            final(self).received() == old(self).received() + msg@,
            final(self).delivered() == old(self).delivered(),
            final(self).spec_remaining() == msg@.len(),
    {
        proof {
            assert(old(self).received() =~= old(self).delivered());
        }
        self.buffer = msg;
        self.pos = 0;
        proof {
            assert(self.received() =~= old(self).received() + msg@);
        }
    }

    /// Hand up to `max` bytes of the current message to the reader, in
    /// order.
    pub fn read(&mut self, max: usize) -> (r: Vec<u8>)
        requires
            old(self).wf(),
        ensures
            final(self).wf(),
            r@ == old(self).buffer_remaining().take(
                if max < old(self).spec_remaining() {
                    max as int
                } else {
                    old(self).spec_remaining() as int
                },
            ),
            final(self).delivered() == old(self).delivered() + r@,
            final(self).received() == old(self).received(),
    {
        let take: usize = if max < self.buffer.len() - self.pos {
            max
        } else {
            self.buffer.len() - self.pos
        };
        let chunk = vstd::slice::slice_to_vec(
            vstd::slice::slice_subrange(self.buffer.as_slice(), self.pos, self.pos + take),
        );
        proof {
            assert(chunk@ =~= old(self).buffer_remaining().take(take as int));
        }
        let ghost old_delivered = self.delivered_g@;
        self.pos = self.pos + take;
        proof {
            self.delivered_g@ = old_delivered + chunk@;
        }
        proof {
            assert(self.received() =~= old(self).received());
        }
        chunk
    }

    /// The undelivered tail of the current message.
    pub closed spec fn buffer_remaining(&self) -> Seq<u8> {
        self.buffer@.skip(self.pos as int)
    }
}

/// Mux in-order delivery, on the receive side this library owns: the bytes
/// a reader has been handed are a prefix of the bytes the peer's messages
/// carried, in order.
pub proof fn lemma_in_order_delivery(buf: &ReadBuffer)
    requires
        buf.wf(),
    ensures
        buf.delivered() == buf.received().take(buf.delivered().len() as int),
        buf.delivered().len() <= buf.received().len(),
{
    assert(buf.received().take(buf.delivered().len() as int) =~= buf.delivered());
}

} // verus!
