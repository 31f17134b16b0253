//! What this crate takes for granted of code that it does not verify: the buffer of
//! `bytes`, the generator of `rand`, and the fault names of `std::io`.  Everything here
//! is believed, not proved; everything else in the crate is proved from it.
use vstd::prelude::*;
use bytes::Bytes;
use rand::Rng;

verus! {

/// `bytes::Bytes`: a buffer of bytes that cannot be changed once it is made.  Nothing of
/// its inside is known here but what `bytes_view` names.
#[verifier::external_type_specification]
#[verifier::external_body]
pub struct ExBytes(bytes::Bytes);

/// The bytes that a buffer holds, in order.
pub uninterp spec fn bytes_view(b: Bytes) -> Seq<u8>;

/// `Bytes::len`: the number of bytes that the buffer holds.
pub assume_specification[ Bytes::len ](b: &Bytes) -> (n: usize)
    ensures
        n == bytes_view(*b).len(),
;

/// `Bytes::copy_from_slice`: a new buffer that holds a copy of the slice.
pub assume_specification[ Bytes::copy_from_slice ](data: &[u8]) -> (b: Bytes)
    ensures
        bytes_view(b) == data@,
;

/// `AsRef<[u8]>` of `Bytes`: the bytes of the buffer as a slice.
pub assume_specification[ <Bytes as AsRef<[u8]>>::as_ref ](b: &Bytes) -> (s: &[u8])
    ensures
        s@ == bytes_view(*b),
;

/// `From<Vec<u8>>` of `Bytes`: a buffer that holds the bytes of the vector.
pub assume_specification[ <Bytes as From<Vec<u8>>>::from ](v: Vec<u8>) -> (b: Bytes)
    ensures
        bytes_view(b) == v@,
;

/// `std::io::ErrorKind`: the name that the operating system gives a fault.  It is carried
/// along and never looked into.
#[verifier::external_type_specification]
#[verifier::external_body]
pub struct ExErrorKind(std::io::ErrorKind);

/// `Rng::gen` on `rand::thread_rng()`, asked for a `u8`: one byte drawn at random.
/// Nothing is claimed of the byte.  The generator seeds itself from the operating system
/// and gives up the thread if that fails.
#[verifier::external_body]
pub(crate) fn random_byte() -> u8 {
    rand::thread_rng().gen()
}

} // verus!
