//! The memory that the service works in.
//!
//! A peripheral keeps one buffer, in which the BTP engine assembles each frame before it is
//! indicated. The buffer outlives the runs of the peripheral and is brought to its full size at the
//! start of each. That size is the largest frame that the service assembles. It is a parameter of
//! the types here, for the caller to take from the BLE host.

use vstd::prelude::*;
use vstd::slice::slice_subrange;

verus! {

/// `buffer` brought to the length `len`: what is too long is cut off, and what is missing is zeros.
pub open spec fn resized(buffer: Seq<u8>, len: nat) -> Seq<u8> {
    Seq::new(
        len,
        |i: int|
            if i < buffer.len() {
                buffer[i]
            } else {
                0
            },
    )
}

/// A length of at most `N`.
#[derive(Debug)]
struct Length<const N: usize> {
    len: usize,
}

impl<const N: usize> Length<N> {
    #[verifier::type_invariant]
    spec fn is_within(self) -> bool {
        self.len <= N
    }
}

/// The buffer that outgoing frames are assembled in. It never holds more than `N` bytes.
#[derive(Debug)]
pub struct IndBuffer<const N: usize> {
    bytes: [u8; N],
    used: Length<N>,
}

impl<const N: usize> View for IndBuffer<N> {
    type V = Seq<u8>;

    closed spec fn view(&self) -> Seq<u8> {
        self.bytes@.take(self.used.len as int)
    }
}

impl<const N: usize> IndBuffer<N> {
    /// An empty buffer.
    pub fn new() -> (buffer: Self)
        ensures
            buffer@ == Seq::<u8>::empty(),
    {
        IndBuffer { bytes: [0; N], used: Length { len: 0 } }
    }

    /// How many bytes the buffer has room for.
    pub fn capacity(&self) -> (capacity: usize)
        ensures
            capacity == N,
            self@.len() <= capacity,
    {
        proof {
            use_type_invariant(&self.used);
        }
        N
    }

    /// How many bytes the buffer holds.
    pub fn len(&self) -> (len: usize)
        ensures
            len == self@.len(),
            len <= N,
    {
        proof {
            use_type_invariant(&self.used);
        }
        self.used.len
    }

    /// Brings the buffer to `new_len` bytes, if it has room for them. A byte that was there stays,
    /// and the others are zeros. A buffer without that room is left as it is.
    pub fn resize_default(&mut self, new_len: usize) -> (done: Result<(), ()>)
        ensures
            done is Ok <==> new_len <= N,
            done is Ok ==> final(self)@ == resized(old(self)@, new_len as nat),
            done is Err ==> final(self)@ == old(self)@,
    {
        if new_len > N {
            return Err(());
        }
        proof {
            use_type_invariant(&self.used);
        }
        let len: usize = self.used.len;
        let mut i: usize = len;
        while i < new_len
            invariant
                len <= i,
                new_len <= N,
                len < new_len ==> i <= new_len,
                self.used.len == len,
                self.bytes@.take(len as int) == old(self)@,
                forall|j: int| len <= j < i ==> self.bytes@[j] == 0,
            decreases new_len - i,
        {
            self.bytes[i] = 0;
            i = i + 1;
            assert(self.bytes@.take(len as int) =~= old(self)@);
        }
        self.used = Length { len: new_len };
        assert forall|j: int| 0 <= j < new_len implies self@[j] == resized(
            old(self)@,
            new_len as nat,
        )[j] by {
            if j < len {
                assert(old(self)@[j] == self.bytes@[j]);
            }
        }
        assert(self@ =~= resized(old(self)@, new_len as nat));
        Ok(())
    }

    /// Brings the buffer to its full size, that of the largest frame that the service assembles. A
    /// byte that was there stays, and the others are zeros.
    pub fn resize_to_mtu(&mut self)
        ensures
            final(self)@ == resized(old(self)@, N as nat),
    {
        let _ = self.resize_default(N);
    }

    /// What the buffer holds.
    pub fn as_slice(&self) -> (bytes: &[u8])
        ensures
            bytes@ == self@,
    {
        proof {
            use_type_invariant(&self.used);
        }
        slice_subrange(self.bytes.as_slice(), 0, self.used.len)
    }

    /// The buffer at its full size, for the BTP engine to write to. Whatever is written, it stays
    /// at that size.
    pub fn as_mut_slice(&mut self) -> (bytes: &mut [u8])
        requires
            old(self)@.len() == N,
        ensures
            bytes@ == old(self)@,
            final(self)@ == final(bytes)@,
            final(bytes)@.len() == N,
    {
        proof {
            use_type_invariant(&self.used);
        }
        assert(self.bytes@.take(N as int) =~= self.bytes@);
        &mut self.bytes
    }
}

/// The state of a [`TroubleBtpGattPeripheral`](crate::host::TroubleBtpGattPeripheral) beside the
/// memory of its BLE host.
#[derive(Debug)]
pub struct TroubleBtpGattContext<const N: usize> {
    pub ind_buf: IndBuffer<N>,
}

impl<const N: usize> TroubleBtpGattContext<N> {
    /// A context with an empty buffer.
    pub fn new() -> (context: Self)
        ensures
            context.ind_buf@ == Seq::<u8>::empty(),
    {
        TroubleBtpGattContext { ind_buf: IndBuffer::new() }
    }

    /// The initial value of a context that is set up in place.
    pub fn init() -> (context: Self)
        ensures
            context.ind_buf@ == Seq::<u8>::empty(),
    {
        TroubleBtpGattContext { ind_buf: IndBuffer::new() }
    }
}

impl<const N: usize> Default for TroubleBtpGattContext<N> {
    fn default() -> (context: Self)
        ensures
            context.ind_buf@ == Seq::<u8>::empty(),
    {
        TroubleBtpGattContext::new()
    }
}

/// The state of a
/// [`TroubleBtpExternalGattPeripheral`](crate::host::TroubleBtpExternalGattPeripheral). It is just
/// the buffer: the owner of the BLE host has the memory of the host.
#[derive(Debug)]
pub struct TroubleBtpGattIndContext<const N: usize> {
    pub ind_buf: IndBuffer<N>,
}

impl<const N: usize> TroubleBtpGattIndContext<N> {
    /// A context with an empty buffer.
    pub fn new() -> (context: Self)
        ensures
            context.ind_buf@ == Seq::<u8>::empty(),
    {
        TroubleBtpGattIndContext { ind_buf: IndBuffer::new() }
    }

    /// The initial value of a context that is set up in place.
    pub fn init() -> (context: Self)
        ensures
            context.ind_buf@ == Seq::<u8>::empty(),
    {
        TroubleBtpGattIndContext { ind_buf: IndBuffer::new() }
    }
}

impl<const N: usize> Default for TroubleBtpGattIndContext<N> {
    fn default() -> (context: Self)
        ensures
            context.ind_buf@ == Seq::<u8>::empty(),
    {
        TroubleBtpGattIndContext::new()
    }
}

/// The first run in a fresh context finds nothing but zeros in the buffer, as many as it has room
/// for, whichever way the context was made and whichever peripheral it is for.
pub proof fn law_fresh_contexts_are_alike<const N: usize>(
    owned: TroubleBtpGattContext<N>,
    external: TroubleBtpGattIndContext<N>,
)
    requires
        owned.ind_buf@ == Seq::<u8>::empty(),
        external.ind_buf@ == Seq::<u8>::empty(),
    ensures
        resized(owned.ind_buf@, N as nat) == Seq::new(N as nat, |i: int| 0u8),
        resized(external.ind_buf@, N as nat) == Seq::new(N as nat, |i: int| 0u8),
{
    assert(resized(owned.ind_buf@, N as nat) =~= Seq::new(N as nat, |i: int| 0u8));
}

/// To bring a buffer to a size twice is the same as to do it once, so a run finds in the buffer
/// what the run before it left there.
pub proof fn law_resizing_again_keeps_the_buffer(buffer: Seq<u8>, len: nat)
    ensures
        resized(resized(buffer, len), len) == resized(buffer, len),
{
    assert(resized(resized(buffer, len), len) =~= resized(buffer, len));
}

/// A buffer that is brought to a size has that size, keeps each of its bytes that there is room for
/// where it was, and is filled up with zeros.
pub proof fn law_resizing_keeps_what_fits(buffer: Seq<u8>, len: nat)
    ensures
        len <= buffer.len() ==> resized(buffer, len) == buffer.take(len as int),
        len >= buffer.len() ==> resized(buffer, len) == buffer + Seq::new(
            (len - buffer.len()) as nat,
            |i: int| 0u8,
        ),
{
    if len <= buffer.len() {
        assert(resized(buffer, len) =~= buffer.take(len as int));
    }
    if len >= buffer.len() {
        assert(resized(buffer, len) =~= buffer + Seq::new(
            (len - buffer.len()) as nat,
            |i: int| 0u8,
        ));
    }
}

} // verus!
