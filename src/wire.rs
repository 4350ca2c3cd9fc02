use vstd::prelude::*;
use bytes::BytesMut;

verus! {

#[verifier::external_type_specification]
#[verifier::external_body]
pub struct ExBytesMut(BytesMut);

/// The bytes held by a `BytesMut`, front to back.
pub uninterp spec fn buffer_bytes(b: BytesMut) -> Seq<u8>;

/// The four bytes of `n` in big-endian order.
pub open spec fn be_u32(n: nat) -> Seq<u8> {
    seq![
        ((n / 0x100_0000) % 0x100) as u8,
        ((n / 0x1_0000) % 0x100) as u8,
        ((n / 0x100) % 0x100) as u8,
        (n % 0x100) as u8,
    ]
}

/// A `CopyData` frame: tag `d`, the length of the frame without its tag,
/// then the payload.
pub open spec fn copy_data_frame(d: Seq<u8>) -> Seq<u8> {
    seq![0x64u8] + be_u32(d.len() + 4) + d
}

/// A `Terminate` frame: tag `X` and an empty body.
pub open spec fn terminate_frame() -> Seq<u8> {
    seq![0x58u8, 0u8, 0u8, 0u8, 4u8]
}

/// Largest payload that a `CopyData` frame can carry: its length field is an `i32`.
pub const MAX_COPY_DATA: usize = 0x7fff_fffb;

/// Relies on `BytesMut::with_capacity`: a new buffer holds no bytes.
#[verifier::external_body]
pub(crate) fn new_buffer(capacity: usize) -> (r: BytesMut)
    ensures
        buffer_bytes(r) == Seq::<u8>::empty(),
{
    BytesMut::with_capacity(capacity)
}

/// Relies on `BytesMut::extend_from_slice`: the bytes are appended in order.
#[verifier::external_body]
pub(crate) fn append_bytes(buf: &mut BytesMut, data: &[u8])
    ensures
        buffer_bytes(*final(buf)) == buffer_bytes(*old(buf)) + data@,
{
    buf.extend_from_slice(data)
}

/// Relies on `BytesMut::split`: every byte moves out, the buffer is left empty.
#[verifier::external_body]
pub(crate) fn take_bytes(buf: &mut BytesMut) -> (r: Vec<u8>)
    ensures
        r@ == buffer_bytes(*old(buf)),
        buffer_bytes(*final(buf)) == Seq::<u8>::empty(),
{
    buf.split().to_vec()
}

/// Relies on `postgres_protocol::message::frontend::CopyData` (`new` then
/// `write`): tag `d`, the length as a big-endian `i32`, then the payload.
#[verifier::external_body]
pub(crate) fn append_copy_data(buf: &mut BytesMut, data: &[u8])
    requires
        data@.len() <= MAX_COPY_DATA,
    ensures
        buffer_bytes(*final(buf)) == buffer_bytes(*old(buf)) + copy_data_frame(data@),
{
    let frame = postgres_protocol::message::frontend::CopyData::new(data).unwrap();
    frame.write(buf)
}

/// Relies on `postgres_protocol::message::frontend::terminate`: tag `X`
/// and a length of four.
#[verifier::external_body]
pub(crate) fn append_terminate(buf: &mut BytesMut)
    ensures
        buffer_bytes(*final(buf)) == buffer_bytes(*old(buf)) + terminate_frame(),
{
    postgres_protocol::message::frontend::terminate(buf)
}

} // verus!
