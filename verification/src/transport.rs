//! Transport framing of one command/response exchange: a command is the
//! request text with a single carriage-return terminator; a response is read
//! in bulk chunks that are accumulated until a carriage-return byte appears,
//! then decoded as text.
//!
//! The bulk USB calls themselves happen outside the library; this module does
//! the framing decisions on the plain bytes they move.

use vstd::prelude::*;

verus! {

/// The carriage-return byte that terminates every command and response.
pub const TERMINATOR: u8 = 13;

/// A failure of the byte transport beneath the protocol.
#[derive(Clone, Copy, PartialEq, Eq, Structural, Debug)]
pub enum TransportError {
    /// A bulk transfer did not finish within its timeout.
    Timeout,
    /// The bulk transfer itself failed.
    Io,
    /// The accumulated response bytes were not valid text.
    Decode,
}

/// Relies on `String::from_utf8`: it succeeds exactly on valid UTF-8 input
/// and returns the string those bytes encode.
#[verifier::external_body]
fn utf8_decode(bytes: Vec<u8>) -> (r: Option<String>)
    ensures
        r is Some <==> vstd::utf8::valid_utf8(bytes@),
        r is Some ==> vstd::utf8::encode_utf8(r->Some_0@) == bytes@,
{
    String::from_utf8(bytes).ok()
}

/// Accumulates the bulk chunks of one response until the terminator byte has
/// been seen anywhere in the accumulated buffer.
///
/// A response field may straddle a chunk boundary; accumulation reassembles it
/// by plain concatenation.
pub struct ResponseAssembler {
    buffer: Vec<u8>,
}

impl View for ResponseAssembler {
    type V = Seq<u8>;

    closed spec fn view(&self) -> Seq<u8> {
        self.buffer@
    }
}

impl ResponseAssembler {
    /// An empty accumulation buffer.
    pub fn new() -> (a: ResponseAssembler)
        ensures
            a@ == Seq::<u8>::empty(),
    {
        ResponseAssembler { buffer: Vec::new() }
    }

    /// Append the bytes of one bulk chunk to the accumulated response.
    pub fn push_chunk(&mut self, chunk: &[u8])
        ensures
            final(self)@ == old(self)@ + chunk@,
    {
        let mut tail = vstd::slice::slice_to_vec(chunk);
        self.buffer.append(&mut tail);
    }

    /// Whether a terminator byte has been observed anywhere in the buffer, so
    /// that the response is complete and reading may stop.
    pub fn is_complete(&self) -> (r: bool)
        ensures
            r == self@.contains(TERMINATOR),
    {
        let n = self.buffer.len();
        let mut i: usize = 0;
        while i < n
            invariant
                i <= n,
                n == self@.len(),
                self@ == self.buffer@,
                forall|j: int| 0 <= j < i ==> self@[j] != TERMINATOR,
            decreases n - i,
        {
            if self.buffer[i] == TERMINATOR {
                return true;
            }
            i = i + 1;
        }
        false
    }

    /// Decode the accumulated bytes as text; fails exactly when they are not
    /// valid text.
    pub fn finish(self) -> (r: Result<String, TransportError>)
        ensures
            r is Ok <==> vstd::utf8::valid_utf8(self@),
            r is Ok ==> vstd::utf8::encode_utf8(r->Ok_0@) == self@,
            r is Err ==> r->Err_0 == TransportError::Decode,
    {
        match utf8_decode(self.buffer) {
            Some(text) => Ok(text),
            None => Err(TransportError::Decode),
        }
    }
}

/// The bytes of `command` with the single carriage-return terminator appended:
/// what one bulk write must move in full.
pub fn frame_command(command: &str) -> (r: Vec<u8>)
    ensures
        r@ == vstd::utf8::encode_utf8(command@.push('\r')),
{
    let framed = command.to_owned().concat("\r");
    proof {
        reveal_strlit("\r");
        assert(framed@ =~= command@.push('\r'));
    }
    framed.as_str().as_bytes_vec()
}

} // verus!
