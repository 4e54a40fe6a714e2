//! A code buffer for just-in-time compilation: its size is rounded up to
//! whole memory pages, and code is appended to it while it has room.
use vstd::prelude::*;

verus! {

/// Why a code buffer could not be made or written.
#[derive(Debug, Clone, PartialEq, Eq)]
pub enum JitError {
    /// The page size is zero, or rounding the size up to it overflows.
    InvalidSize { capacity: usize, page_size: usize },
    /// The code does not fit in what is left of the buffer.
    OutOfMemory { message: String },
}

/// The memory page size of this machine (calls `page_size::get`, which asks
/// the operating system). Nothing is promised of the value: it is whatever
/// the system reports.
#[verifier::external_body]
pub fn get_page_size() -> (r: usize) {
    page_size::get()
}

/// `capacity` rounded with `page_size` as `(capacity + page_size - 1) &
/// !(page_size - 1)`; nothing when the page size is zero or the sum
/// overflows.
pub open spec fn rounded_capacity(capacity: usize, page_size: usize) -> Option<usize> {
    if page_size == 0 || capacity + page_size - 1 > usize::MAX {
        None
    } else {
        Some(((capacity + page_size - 1) as usize & !((page_size - 1) as usize)) as usize)
    }
}

/// Rounds a size with a page size (see `rounded_capacity`).
pub fn round_capacity(capacity: usize, page_size: usize) -> (r: Option<usize>)
    ensures
        r == rounded_capacity(capacity, page_size),
{
    if page_size == 0 {
        return None;
    }
    match capacity.checked_add(page_size - 1) {
        None => None,
        Some(sum) => Some(sum & !(page_size - 1)),
    }
}

/// A rounded size is never below the size, and lies less than a page above it.
pub proof fn lemma_rounded_bounds(capacity: usize, page_size: usize)
    requires
        rounded_capacity(capacity, page_size) is Some,
    ensures
        capacity <= rounded_capacity(capacity, page_size)->0,
        rounded_capacity(capacity, page_size)->0 < capacity + page_size,
{
    let m: usize = (page_size - 1) as usize;
    let x: usize = (capacity + m) as usize;
    assert((x & !m) + (x & m) == x && x & m <= m) by (bit_vector);
}

/// The rounded size has none of the bits of `page_size - 1`; with a
/// power-of-two page size, that makes it a whole number of pages.
pub proof fn lemma_rounded_low_bits_clear(capacity: usize, page_size: usize)
    requires
        rounded_capacity(capacity, page_size) is Some,
    ensures
        rounded_capacity(capacity, page_size)->0 & ((page_size - 1) as usize) == 0,
{
    let m: usize = (page_size - 1) as usize;
    let x: usize = (capacity + m) as usize;
    assert((x & !m) & m == 0) by (bit_vector);
}

/// What a write does to the bytes of a buffer of capacity `cap`: appends
/// the code when it fits, else leaves them.
pub open spec fn write_step(bytes: Seq<u8>, cap: nat, code: Seq<u8>) -> Seq<u8> {
    if bytes.len() + code.len() <= cap {
        bytes + code
    } else {
        bytes
    }
}

/// The bytes after a sequence of writes.
pub open spec fn after_writes(bytes: Seq<u8>, cap: nat, writes: Seq<Seq<u8>>) -> Seq<u8>
    decreases writes.len(),
{
    if writes.len() == 0 {
        bytes
    } else {
        write_step(after_writes(bytes, cap, writes.drop_last()), cap, writes.last())
    }
}

/// Over any sequence of writes to a buffer that starts within its capacity,
/// the bytes stay within the capacity, what was written stays as it was,
/// and each write either appends all its code or changes nothing.
pub proof fn law_writes_within_capacity(bytes: Seq<u8>, cap: nat, writes: Seq<Seq<u8>>)
    requires
        bytes.len() <= cap,
    ensures
        after_writes(bytes, cap, writes).len() <= cap,
        bytes.len() <= after_writes(bytes, cap, writes).len(),
        after_writes(bytes, cap, writes).subrange(0, bytes.len() as int) == bytes,
        writes.len() > 0 ==> ({
            let before = after_writes(bytes, cap, writes.drop_last());
            let after = after_writes(bytes, cap, writes);
            after == before + writes.last() || after == before
        }),
    decreases writes.len(),
{
    if writes.len() > 0 {
        law_writes_within_capacity(bytes, cap, writes.drop_last());
        let before = after_writes(bytes, cap, writes.drop_last());
        let after = after_writes(bytes, cap, writes);
        assert(after.subrange(0, bytes.len() as int) =~= before.subrange(0, bytes.len() as int));
    }
}

/// A buffer of machine code: the bytes written so far, and the size it was
/// made with, which they never exceed.
pub struct JitMemory {
    code: Vec<u8>,
    capacity: usize,
}

impl JitMemory {
    #[verifier::type_invariant]
    spec fn fits(self) -> bool {
        self.code@.len() <= self.capacity
    }

    /// The bytes written so far.
    pub closed spec fn bytes(self) -> Seq<u8> {
        self.code@
    }

    /// The size of the buffer.
    pub closed spec fn size(self) -> nat {
        self.capacity as nat
    }

    /// A buffer whose size is `capacity` rounded with `page_size`; an error
    /// when that rounding fails.
    pub fn with_page_size(capacity: usize, page_size: usize) -> (r: Result<JitMemory, JitError>)
        ensures
            match rounded_capacity(capacity, page_size) {
                Some(c) => r matches Ok(m) && m.bytes().len() == 0 && m.size() == c,
                None => r == Err::<JitMemory, JitError>(JitError::InvalidSize { capacity, page_size }),
            },
    {
        match round_capacity(capacity, page_size) {
            None => Err(JitError::InvalidSize { capacity, page_size }),
            Some(c) => Ok(JitMemory { code: Vec::new(), capacity: c }),
        }
    }

    /// A buffer of at least `capacity` bytes, rounded with the page size of
    /// this machine. It fails only when that rounding fails.
    pub fn new(capacity: usize) -> (r: Result<JitMemory, JitError>)
        ensures
            r matches Ok(m) ==> m.bytes().len() == 0 && capacity <= m.size(),
            r matches Err(e) ==> e is InvalidSize,
            exists|page_size: usize|
                match #[trigger] rounded_capacity(capacity, page_size) {
                    Some(c) => r matches Ok(m) && m.bytes().len() == 0 && m.size() == c,
                    None => r == Err::<JitMemory, JitError>(JitError::InvalidSize { capacity, page_size }),
                },
    {
        let page_size = get_page_size();
        let r = JitMemory::with_page_size(capacity, page_size);
        proof {
            if rounded_capacity(capacity, page_size) is Some {
                lemma_rounded_bounds(capacity, page_size);
            }
        }
        r
    }

    /// Appends code when it fits in what is left; otherwise the buffer is
    /// unchanged and the error says there is not enough room.
    pub fn write(&mut self, code: &[u8]) -> (r: Result<(), JitError>)
        ensures
            old(self).bytes().len() + code@.len() <= old(self).size() ==> r is Ok
                && final(self).bytes() == old(self).bytes() + code@ && final(self).size() == old(
                self,
            ).size(),
            old(self).bytes().len() + code@.len() > old(self).size() ==> (r matches Err(
                JitError::OutOfMemory { message },
            ) && message@ == "Not enough capacity in JIT buffer"@) && *final(self) == *old(self),
            final(self).bytes() == write_step(old(self).bytes(), old(self).size(), code@),
            final(self).size() == old(self).size(),
    {
        proof {
            use_type_invariant(&*self);
        }
        if code.len() > self.capacity - self.code.len() {
            return Err(
                JitError::OutOfMemory {
                    message: String::from_str("Not enough capacity in JIT buffer"),
                },
            );
        }
        let mut bytes: Vec<u8> = Vec::new();
        let mut i: usize = 0;
        while i < self.code.len()
            invariant
                i <= self.code@.len(),
                bytes@ == self.code@.take(i as int),
            decreases self.code.len() - i,
        {
            bytes.push(self.code[i]);
            i = i + 1;
            assert(bytes@ =~= self.code@.take(i as int));
        }
        assert(self.code@.take(i as int) =~= self.code@);
        let mut j: usize = 0;
        while j < code.len()
            invariant
                j <= code@.len(),
                bytes@ == old(self).code@ + code@.take(j as int),
            decreases code.len() - j,
        {
            bytes.push(code[j]);
            j = j + 1;
            assert(bytes@ =~= old(self).code@ + code@.take(j as int));
        }
        assert(code@.take(j as int) =~= code@);
        self.code = bytes;
        Ok(())
    }

    /// The number of bytes written.
    pub fn len(&self) -> (r: usize)
        ensures
            r == self.bytes().len(),
            r <= self.size(),
    {
        proof {
            use_type_invariant(self);
        }
        self.code.len()
    }

    /// The size of the buffer.
    pub fn capacity(&self) -> (r: usize)
        ensures
            r == self.size(),
    {
        self.capacity
    }

    /// Whether nothing has been written.
    pub fn is_empty(&self) -> (r: bool)
        ensures
            r == (self.bytes().len() == 0),
    {
        self.code.len() == 0
    }

    /// The bytes written so far.
    pub fn as_slice(&self) -> (r: &[u8])
        ensures
            r@ == self.bytes(),
    {
        self.code.as_slice()
    }
}

} // verus!
