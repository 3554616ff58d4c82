//! Storage for the recovery point that turns faults on protected pages into
//! memory traps.

use vstd::prelude::*;

verus! {

/// The size of a `setjmp` buffer, large enough on the supported platforms.
pub const JMP_BUF_SIZE: usize = 256;

/// Storage for a `setjmp` recovery point.
pub struct JmpBuf {
    data: [u8; JMP_BUF_SIZE],
}

impl JmpBuf {
    /// The bytes of the buffer.
    pub closed spec fn bytes(&self) -> Seq<u8> {
        self.data@
    }

    /// The buffer, for `setjmp` to fill.
    pub fn buffer_mut(&mut self) -> (b: &mut [u8; JMP_BUF_SIZE])
        ensures
            b@ == old(self).bytes(),
            final(self).bytes() == final(b)@,
    {
        &mut self.data
    }
}

impl Default for JmpBuf {
    fn default() -> (j: Self)
        ensures
            j.bytes() == Seq::new(JMP_BUF_SIZE as nat, |i: int| 0u8),
    {
        let j = JmpBuf { data: [0u8; JMP_BUF_SIZE] };
        proof {
            assert(j.bytes() =~= Seq::new(JMP_BUF_SIZE as nat, |i: int| 0u8));
        }
        j
    }
}

} // verus!
