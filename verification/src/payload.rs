//! Random draws: how large a trial file is, what it holds, and which file a
//! read trial picks.

use rand::rngs::ThreadRng;
use rand::RngCore;
use vstd::prelude::*;

verus! {

/// The smallest trial file, in bytes.
pub const MIN_FILE_SIZE: u64 = 1024;

/// How many sizes a trial file can have: sizes run from [`MIN_FILE_SIZE`]
/// up to, and not including, `MIN_FILE_SIZE + FILE_SIZE_SPAN`.
pub const FILE_SIZE_SPAN: u64 = 3072;

/// `rand::rngs::ThreadRng`, the handle to a thread's generator. Nothing of
/// its state is visible here.
#[verifier::external_type_specification]
#[verifier::external_body]
pub struct ExThreadRng(rand::rngs::ThreadRng);

/// `rand::thread_rng`: the handle to the calling thread's generator, which
/// the operating system seeds on first use, and again after every 64 KiB
/// drawn. Nothing is claimed of it. Where the operating system has no
/// randomness to give, seeding panics.
#[verifier::external_body]
pub(crate) fn thread_generator() -> (rng: ThreadRng) {
    rand::thread_rng()
}

/// `RngCore::next_u64` on a thread's generator. Any value may come back, so
/// nothing is claimed of it.
#[verifier::external_body]
pub(crate) fn next_raw(rng: &mut ThreadRng) -> (raw: u64) {
    rng.next_u64()
}

/// `RngCore::fill_bytes` on a thread's generator: overwrites every byte of
/// `dest`. Claimed: the length stays; nothing of the bytes.
#[verifier::external_body]
pub(crate) fn fill_random(rng: &mut ThreadRng, dest: &mut Vec<u8>)
    ensures
        final(dest)@.len() == old(dest)@.len(),
{
    rng.fill_bytes(dest.as_mut_slice())
}

/// The size that the draw `raw` stands for.
pub open spec fn spec_file_size(raw: u64) -> u64 {
    (raw % 3072 + 1024) as u64
}

/// The index that the draw `raw` stands for among `batch` files.
pub open spec fn spec_pick_index(raw: u64, batch: u32) -> u32
    recommends
        batch > 0,
{
    (raw % (batch as u64)) as u32
}

/// Maps a draw to a file size: every size from 1024 up to 4095 comes from
/// equally many draws, but for the few at the top of the 64-bit range.
pub fn file_size(raw: u64) -> (size: u64)
    ensures
        size == spec_file_size(raw),
        MIN_FILE_SIZE <= size < MIN_FILE_SIZE + FILE_SIZE_SPAN,
{
    raw % FILE_SIZE_SPAN + MIN_FILE_SIZE
}

/// Maps a draw to the index of one of `batch` files.
pub fn pick_index(raw: u64, batch: u32) -> (index: u32)
    requires
        batch > 0,
    ensures
        index == spec_pick_index(raw, batch),
        index < batch,
{
    (raw % (batch as u64)) as u32
}

/// A buffer of `size` random bytes: what a trial file is filled with.
pub fn random_bytes(size: u64) -> (buf: Vec<u8>)
    requires
        size <= usize::MAX,
    ensures
        buf@.len() == size,
{
    let mut buf: Vec<u8> = vec![0u8; size as usize];
    let mut rng = thread_generator();
    fill_random(&mut rng, &mut buf);
    buf
}

} // verus!
