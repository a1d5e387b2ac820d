use std::marker::PhantomData;
use std::rc::Rc;
use vstd::prelude::*;

verus! {

/// Stores an engine value of `N` bytes whose layout only the engine knows.
///
/// Copying it copies the bytes and nothing else. The bytes may stand for
/// state of the engine that is bound to one thread, so a value can neither
/// be sent to another thread nor shared with one.
#[derive(Clone, Copy)]
pub struct Opaque<const N: usize> {
    storage: [u8; N],
    marker: PhantomData<Rc<()>>,
}

/// Alignment that the engine expects of an opaque value on a target with
/// pointers of `pointer_width` bits.
pub open spec fn spec_alignment(pointer_width: u32) -> usize {
    if pointer_width == 32 {
        4
    } else {
        8
    }
}

/// Alignment of opaque values for the given pointer width: 4 bytes on
/// 32-bit targets, 8 bytes otherwise.
pub fn alignment(pointer_width: u32) -> (a: usize)
    ensures
        a == spec_alignment(pointer_width),
{
    if pointer_width == 32 {
        4
    } else {
        8
    }
}

impl<const N: usize> Opaque<N> {
    /// The stored bytes.
    pub closed spec fn view(&self) -> Seq<u8> {
        self.storage@
    }

    /// Takes over `N` bytes that the engine produced.
    pub fn from_bytes(bytes: [u8; N]) -> (value: Self)
        ensures
            value@ == bytes@,
            value@.len() == N,
    {
        Opaque { storage: bytes, marker: PhantomData }
    }

    /// Hands the stored bytes back, unchanged.
    pub fn to_bytes(&self) -> (bytes: [u8; N])
        ensures
            bytes@ == self@,
    {
        self.storage
    }

    /// Number of bytes stored.
    pub fn size(&self) -> (n: usize)
        ensures
            n == N,
            n == self@.len(),
    {
        N
    }

    /// The check made once at start-up: does the layout that the engine
    /// reports for a built-in type agree with this storage?
    pub fn layout_matches(engine_size: usize, engine_alignment: usize, pointer_width: u32) -> (ok:
        bool)
        ensures
            ok == (engine_size == N && engine_alignment == spec_alignment(pointer_width)),
    {
        engine_size == N && engine_alignment == alignment(pointer_width)
    }
}

} // verus!
