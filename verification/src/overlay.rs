//! The client side of the overlay bridge's WebSocket link: building
//! the masked text frame that carries one command, and reading the
//! payload length out of a response header. Connecting, the HTTP
//! handshake and the socket reads and writes are the host
//! application's concern.

use vstd::prelude::*;
use vstd::string::StrSliceExecFns;
use vstd::string::StringExecFns;
use vstd::string::StringSliceAdditionalSpecFns;

verus! {

pub assume_specification<T>[ rand::random::<T> ]() -> (r: T)
    where
        rand::distr::StandardUniform: rand::distr::Distribution<T>,
;

/// The payload with the client mask applied: each byte XORed with
/// the mask byte at its index modulo four.
pub open spec fn spec_masked(p: Seq<u8>, m: Seq<u8>) -> Seq<u8> {
    Seq::new(p.len(), |i: int| p[i] ^ m[i % 4])
}

/// The length field of a client frame: a single byte for payloads
/// under 126 bytes, else the 126 marker and two big-endian bytes.
/// The high bit says the payload is masked, as every client frame
/// must be.
pub open spec fn spec_len_bytes(n: int) -> Seq<u8> {
    if n < 126 {
        seq![(128 + n) as u8]
    } else {
        seq![254u8, (n / 256) as u8, (n % 256) as u8]
    }
}

/// A complete masked text frame: the FIN+text opcode byte, the
/// length field, the four mask bytes, then the masked payload.
pub open spec fn spec_client_text_frame(p: Seq<u8>, m: Seq<u8>) -> Seq<u8> {
    seq![0x81u8] + spec_len_bytes(p.len() as int) + m + spec_masked(p, m)
}

/// Builds the single masked WebSocket text frame that carries one
/// command to the overlay bridge, under a fresh random mask.
/// Payloads of 65536 bytes or more are refused with a reported
/// error.
pub fn send_overlay_command(command: &str) -> (r: Result<Vec<u8>, String>)
    ensures
        command.spec_bytes().len() < 65536 ==> (r matches Ok(f) && (exists|m: Seq<u8>|
            m.len() == 4 && f@ == spec_client_text_frame(command.spec_bytes(), m))),
        command.spec_bytes().len() >= 65536 ==> (r matches Err(e) && e@
            == "Payload too large"@),
{
    let payload = command.as_bytes_vec();
    if payload.len() >= 65536 {
        return Err(String::from_str("Payload too large"));
    }
    let mask: [u8; 4] = rand::random();
    let mut f: Vec<u8> = Vec::new();
    f.push(0x81);
    if payload.len() < 126 {
        f.push(128 + payload.len() as u8);
    } else {
        f.push(254);
        f.push((payload.len() / 256) as u8);
        f.push((payload.len() % 256) as u8);
    }
    assert(f@ =~= seq![0x81u8] + spec_len_bytes(payload@.len() as int));
    f.push(mask[0]);
    f.push(mask[1]);
    f.push(mask[2]);
    f.push(mask[3]);
    let ghost header = f@;
    assert(header =~= seq![0x81u8] + spec_len_bytes(payload@.len() as int) + mask@);
    let mut i: usize = 0;
    while i < payload.len()
        invariant
            i <= payload@.len(),
            mask@.len() == 4,
            f@ == header + spec_masked(payload@.take(i as int), mask@),
        decreases payload@.len() - i,
    {
        f.push(payload[i] ^ mask[i % 4]);
        assert(f@ =~= header + spec_masked(payload@.take(i + 1 as int), mask@));
        i += 1;
    }
    assert(payload@.take(payload@.len() as int) =~= payload@);
    assert(f@ =~= spec_client_text_frame(command.spec_bytes(), mask@));
    proof {
        assert(exists|m: Seq<u8>|
            m.len() == 4 && f@ == spec_client_text_frame(command.spec_bytes(), m)) by {
            assert(mask@.len() == 4 && f@ == spec_client_text_frame(
                command.spec_bytes(),
                mask@,
            ));
        }
    }
    Ok(f)
}

/// The payload length named by the second byte of a short frame
/// header: the low seven bits.
pub fn ws_payload_len(header_byte: u8) -> (r: u8)
    ensures
        r == header_byte % 128,
{
    header_byte % 128
}

} // verus!
