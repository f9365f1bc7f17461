//! The bump allocator of a server's arena, and the bytes of a slot.

use crate::plasma::OBJECT_ALIGN;
use crate::util::bytes::copy_range;
use crate::util::text;
use crate::util::text::{concat2, push_decimal, with_number};
use vstd::prelude::*;

verus! {

/// Why an arena could not be made or could not make room.
#[derive(Debug)]
pub enum ArenaError {
    /// A system call failed, with its error number.
    Nix(i32),
    /// Input or output failed.
    Io(String),
    /// There is no room.
    OutOfMemory {
        /// Bytes asked for.
        requested: u64,
        /// Bytes left.
        remaining: u64,
    },
    /// The arena's name holds a NUL character.
    InvalidName(String),
}

/// The error number of an invalid argument.
pub const EINVAL: i32 = 22;

/// The text of a failed allocation.
pub open spec fn out_of_memory_text(requested: u64, remaining: u64) -> Seq<char> {
    "arena out of memory: requested "@ + text::decimal_text(requested as nat) + " bytes, only "@
        + text::decimal_text(remaining as nat) + " remaining"@
}

/// The text of a failed allocation.
pub fn out_of_memory_message(requested: u64, remaining: u64) -> (r: String)
    ensures
        r@ == out_of_memory_text(requested, remaining),
{
    let mut r = with_number("arena out of memory: requested ", requested, " bytes, only ");
    push_decimal(&mut r, remaining);
    r.append(" remaining");
    r
}

/// How an error number of the system is shown: its name and what it stands for.
pub uninterp spec fn errno_text(code: i32) -> Seq<char>;

/// The `Display` form of `nix::errno::Errno` for an error number.
#[verifier::external_body]
fn show_errno(code: i32) -> (r: String)
    ensures
        r@ == errno_text(code),
{
    format!("{}", nix::errno::Errno::from_raw(code))
}

impl ArenaError {
    /// The error as a text.
    pub open spec fn spec_text(&self) -> Seq<char> {
        match self {
            ArenaError::Nix(code) => "arena syscall: "@ + errno_text(*code),
            ArenaError::Io(e) => "arena io: "@ + e@,
            ArenaError::OutOfMemory { requested, remaining } => out_of_memory_text(
                *requested,
                *remaining,
            ),
            ArenaError::InvalidName(n) => "arena name contained NUL: "@ + n@,
        }
    }

    /// The error as a text.
    pub fn text(&self) -> (r: String)
        ensures
            r@ == self.spec_text(),
    {
        match self {
            ArenaError::Nix(code) => {
                let shown = show_errno(*code);
                concat2("arena syscall: ", shown.as_str())
            },
            ArenaError::Io(e) => concat2("arena io: ", e.as_str()),
            ArenaError::OutOfMemory { requested, remaining } => out_of_memory_message(
                *requested,
                *remaining,
            ),
            ArenaError::InvalidName(n) => concat2("arena name contained NUL: ", n.as_str()),
        }
    }
}

/// `n` rounded up to a multiple of the alignment.
pub open spec fn align_up(n: int) -> int {
    (n + OBJECT_ALIGN - 1) / (OBJECT_ALIGN as int) * OBJECT_ALIGN
}

/// What asking for `size` bytes yields when `bump` of `capacity` bytes are used: the
/// offset of the new block, or how many bytes are left.
pub open spec fn spec_alloc(bump: u64, capacity: u64, size: u64) -> Result<u64, (u64, u64)> {
    if align_up(bump as int) + size > u64::MAX {
        Err((size, 0))
    } else if align_up(bump as int) + size > capacity {
        Err((size, (capacity - bump) as u64))
    } else {
        Ok(align_up(bump as int) as u64)
    }
}

/// The bump allocator of one memory region.
#[derive(Debug)]
pub struct Arena {
    id: u64,
    capacity: u64,
    bump: u64,
}

/// The mathematical content of an arena.
pub struct ArenaModel {
    /// The arena's number.
    pub id: u64,
    /// Bytes of the region.
    pub capacity: u64,
    /// Bytes handed out.
    pub bump: u64,
}

impl View for Arena {
    type V = ArenaModel;

    closed spec fn view(&self) -> ArenaModel {
        ArenaModel { id: self.id, capacity: self.capacity, bump: self.bump }
    }
}

impl ArenaModel {
    /// What is handed out lies inside the region, whose size is a file size.
    pub open spec fn wf(self) -> bool {
        self.bump <= self.capacity <= i64::MAX
    }
}

/// Whether `name` holds a NUL character.
pub open spec fn has_nul(name: Seq<char>) -> bool {
    exists|i: int| 0 <= i < name.len() && name[i] == '\0'
}

fn holds_nul(name: &str) -> (b: bool)
    ensures
        b == has_nul(name@),
{
    let n: usize = name.unicode_len();
    let mut i: usize = 0;
    while i < n
        invariant
            i <= n,
            n == name@.len(),
            forall|j: int| 0 <= j < i ==> name@[j] != '\0',
        decreases n - i,
    {
        if name.get_char(i) == '\0' {
            return true;
        }
        i += 1;
    }
    false
}

impl Arena {
    /// An arena of `capacity` bytes of which none is handed out yet. The name of the
    /// region must not hold NUL, and its size must be a file size.
    pub fn create(id: u64, capacity: u64, name: &str) -> (r: Result<Self, ArenaError>)
        ensures
            match r {
                Ok(a) => !has_nul(name@) && capacity <= i64::MAX && capacity <= usize::MAX && a@ == (
                ArenaModel { id, capacity, bump: 0 }) && a@.wf(),
                Err(ArenaError::InvalidName(n)) => has_nul(name@) && n@ == name@,
                Err(ArenaError::Nix(e)) => !has_nul(name@) && (capacity > i64::MAX || capacity
                    > usize::MAX) && e == EINVAL,
                Err(_) => false,
            },
    {
        if holds_nul(name) {
            return Err(ArenaError::InvalidName(name.to_owned()));
        }
        if capacity > i64::MAX as u64 || capacity > usize::MAX as u64 {
            return Err(ArenaError::Nix(EINVAL));
        }
        Ok(Arena { id, capacity, bump: 0 })
    }

    /// The arena's number.
    pub fn id(&self) -> (r: u64)
        ensures
            r == self@.id,
    {
        self.id
    }

    /// Bytes of the region.
    pub fn capacity(&self) -> (r: u64)
        ensures
            r == self@.capacity,
    {
        self.capacity
    }

    /// Bytes handed out.
    pub fn used(&self) -> (r: u64)
        ensures
            r == self@.bump,
    {
        self.bump
    }

    /// Bytes left.
    pub fn remaining(&self) -> (r: u64)
        requires
            self@.wf(),
        ensures
            r == self@.capacity - self@.bump,
    {
        self.capacity.saturating_sub(self.bump)
    }

    /// Hands out `size` bytes at the next aligned offset.
    pub fn allocate(&mut self, size: u64) -> (r: Result<u64, ArenaError>)
        requires
            old(self)@.wf(),
        ensures
            final(self)@.wf(),
            match r {
                Ok(offset) => spec_alloc(old(self)@.bump, old(self)@.capacity, size) == Ok::<
                    u64,
                    (u64, u64),
                >(offset) && final(self)@ == (ArenaModel {
                    bump: (offset + size) as u64,
                    ..old(self)@
                }),
                Err(ArenaError::OutOfMemory { requested, remaining }) => spec_alloc(
                    old(self)@.bump,
                    old(self)@.capacity,
                    size,
                ) == Err::<u64, (u64, u64)>((requested, remaining)) && final(self)@ == old(self)@,
                Err(_) => false,
            },
    {
        let bump: u64 = self.bump;
        let aligned: u64 = (bump + OBJECT_ALIGN - 1) & !(OBJECT_ALIGN - 1);
        assert((bump + 15) as u64 & !15u64 == (bump + 15) / 16 * 16) by (bit_vector)
            requires
                bump <= 0x7fff_ffff_ffff_ffff,
        ;
        assert(aligned == align_up(bump as int));
        let end: u64 = match aligned.checked_add(size) {
            Some(e) => e,
            None => {
                return Err(ArenaError::OutOfMemory { requested: size, remaining: 0 });
            },
        };
        if end > self.capacity {
            return Err(
                ArenaError::OutOfMemory {
                    requested: size,
                    remaining: self.capacity.saturating_sub(bump),
                },
            );
        }
        self.bump = end;
        Ok(aligned)
    }

    /// A copy of `len` bytes of the region at `offset`.
    pub fn read_copy(&self, memory: &[u8], offset: u64, len: u64) -> (r: Vec<u8>)
        requires
            offset + len <= memory@.len(),
        ensures
            r@ == memory@.subrange(offset as int, offset + len),
    {
        assert(memory@.len() == memory.len());
        copy_range(memory, offset as usize, (offset + len) as usize)
    }
}

/// `memory` with `b` written at `offset`.
pub open spec fn written(memory: Seq<u8>, offset: int, b: Seq<u8>) -> Seq<u8> {
    Seq::new(
        memory.len(),
        |i: int|
            if offset <= i < offset + b.len() {
                b[i - offset]
            } else {
                memory[i]
            },
    )
}

/// Writes `b` into the region at `offset`.
pub fn write_at(memory: &mut [u8], offset: usize, b: &[u8])
    requires
        offset + b@.len() <= old(memory)@.len(),
    ensures
        final(memory)@ == written(old(memory)@, offset as int, b@),
{
    let mut i: usize = 0;
    assert(memory@ =~= written(old(memory)@, offset as int, b@.take(0)));
    while i < b.len()
        invariant
            i <= b@.len(),
            offset + b@.len() <= old(memory)@.len(),
            memory@.len() == old(memory)@.len(),
            memory@.len() == memory.len(),
            memory@ == written(old(memory)@, offset as int, b@.take(i as int)),
        decreases b@.len() - i,
    {
        memory[offset + i] = b[i];
        assert(memory@ =~= written(old(memory)@, offset as int, b@.take(i + 1)));
        i += 1;
    }
    assert(b@.take(i as int) =~= b@);
}

/// A successful allocation is aligned, lies inside the region and behind everything
/// handed out before, so that it overlaps no earlier block.
pub proof fn law_alloc_fresh(bump: u64, capacity: u64, size: u64, offset: u64)
    requires
        bump <= capacity,
        spec_alloc(bump, capacity, size) == Ok::<u64, (u64, u64)>(offset),
    ensures
        offset % OBJECT_ALIGN == 0,
        bump <= offset < bump + OBJECT_ALIGN,
        offset + size <= capacity,
{
}

/// An allocation succeeds exactly when the aligned block fits.
pub proof fn law_alloc_succeeds(bump: u64, capacity: u64, size: u64)
    ensures
        spec_alloc(bump, capacity, size) is Ok <==> align_up(bump as int) + size <= capacity,
{
}

/// What was written is what is read, and bytes outside are unchanged.
pub proof fn law_write_read(memory: Seq<u8>, offset: int, b: Seq<u8>, from: int, to: int)
    requires
        0 <= offset,
        offset + b.len() <= memory.len(),
        0 <= from <= to <= memory.len(),
    ensures
        written(memory, offset, b).subrange(offset, offset + b.len()) == b,
        (to <= offset || offset + b.len() <= from) ==> written(memory, offset, b).subrange(from, to)
            == memory.subrange(from, to),
{
    assert(written(memory, offset, b).subrange(offset, offset + b.len()) =~= b);
    if to <= offset || offset + b.len() <= from {
        assert(written(memory, offset, b).subrange(from, to) =~= memory.subrange(from, to));
    }
}

/// Rounding up goes to the next multiple of 16 and no further.
pub proof fn law_align_up_is_tight(n: int)
    requires
        n >= 0,
    ensures
        align_up(n) % 16 == 0,
        n <= align_up(n) < n + 16,
{
}

/// A block that does not fit is refused with its size and the bytes that are left, and with
/// none where its end is no number.
pub proof fn law_alloc_refusal_tells_what_is_left(bump: u64, capacity: u64, size: u64)
    requires
        bump <= capacity,
        spec_alloc(bump, capacity, size) is Err,
    ensures
        spec_alloc(bump, capacity, size)->Err_0.0 == size,
        align_up(bump as int) + size <= u64::MAX ==> spec_alloc(bump, capacity, size)->Err_0.1 + bump
            == capacity,
        align_up(bump as int) + size > u64::MAX ==> spec_alloc(bump, capacity, size)->Err_0.1 == 0,
{
}

/// A write keeps the size of the region and touches only its own bytes.
pub proof fn law_write_touches_its_bytes(memory: Seq<u8>, offset: int, b: Seq<u8>, i: int)
    requires
        0 <= offset,
        offset + b.len() <= memory.len(),
        0 <= i < memory.len(),
    ensures
        written(memory, offset, b).len() == memory.len(),
        i < offset ==> written(memory, offset, b)[i] == memory[i],
        offset <= i < offset + b.len() ==> written(memory, offset, b)[i] == b[i - offset],
        offset + b.len() <= i ==> written(memory, offset, b)[i] == memory[i],
{
}

/// An arena has 128 MiB by default, and objects in it are aligned to 16 bytes.
pub proof fn law_limits()
    ensures
        crate::plasma::DEFAULT_ARENA_BYTES == 128 * 1024 * 1024,
        OBJECT_ALIGN == 16,
{
}

/// A name is refused exactly for a NUL somewhere in it.
pub proof fn law_nul_is_found(a: Seq<char>, b: Seq<char>)
    ensures
        has_nul(a + seq!['\0'] + b),
        has_nul(a + b) <==> has_nul(a) || has_nul(b),
        !has_nul(Seq::<char>::empty()),
{
    let s = a + seq!['\0'] + b;
    assert(s[a.len() as int] == '\0');
    let t = a + b;
    if has_nul(a) {
        let i = choose|i: int| 0 <= i < a.len() && a[i] == '\0';
        assert(t[i] == '\0');
    }
    if has_nul(b) {
        let i = choose|i: int| 0 <= i < b.len() && b[i] == '\0';
        assert(t[a.len() + i] == '\0');
    }
    if has_nul(t) {
        let i = choose|i: int| 0 <= i < t.len() && t[i] == '\0';
        if i < a.len() {
            assert(a[i] == '\0');
        } else {
            assert(b[i - a.len()] == '\0');
        }
    }
}

} // verus!
