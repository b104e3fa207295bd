//! Device numbers of the device filesystem and the inode numbers they map to.
use vstd::prelude::*;

verus! {

/// Bound, exclusive, on device numbers.
pub const MAX_MINOR_DEVICE: u64 = 0xffff;

/// Major device number: non-zero and below the bound, kept in the top 16 bits of an inode number.
#[derive(Debug, Clone, Copy, PartialEq, Eq, Structural)]
pub struct MajorDevNo(u32);

/// Minor device number: non-zero, the inode number itself.
#[derive(Debug, Clone, Copy, PartialEq, Eq, Structural)]
pub struct MinorDevNo(u32);

impl View for MajorDevNo {
    type V = u32;

    closed spec fn view(&self) -> u32 {
        self.0
    }
}

impl View for MinorDevNo {
    type V = u32;

    closed spec fn view(&self) -> u32 {
        self.0
    }
}

impl MajorDevNo {
    #[verifier::type_invariant]
    spec fn inv(self) -> bool {
        0 < self.0 < MAX_MINOR_DEVICE
    }

    /// The major number kept in the top 16 bits of the inode number
    /// `value`; fails when that part is zero or not below the bound.
    pub fn try_from(value: u64) -> (r: Result<MajorDevNo, ()>)
        ensures
            r is Ok <==> (value >> 48u64) != 0 && (value >> 48u64) < MAX_MINOR_DEVICE,
            r matches Ok(d) ==> d@ == (value >> 48u64) as u32,
    {
        let v = value >> 48u64;
        if v < MAX_MINOR_DEVICE && v != 0 {
            Ok(MajorDevNo(v as u32))
        } else {
            Err(())
        }
    }

    /// The inode number of the device: the major number in the top 16 bits.
    pub fn inode(self) -> (r: u64)
        ensures
            r == (self@ as u64) << 48u64,
            r != 0,
    {
        proof {
            use_type_invariant(&self);
            let v = self.0 as u64;
            assert(0 < v < 0xffff ==> (v << 48u64) != 0) by (bit_vector);
        }
        (self.0 as u64) << 48u64
    }
}

impl MinorDevNo {
    #[verifier::type_invariant]
    spec fn inv(self) -> bool {
        self.0 != 0
    }

    /// The minor number that is the inode number `value`; fails when it is
    /// zero or not below the bound.
    pub fn try_from(value: u64) -> (r: Result<MinorDevNo, ()>)
        ensures
            r is Ok <==> value != 0 && value < MAX_MINOR_DEVICE,
            r matches Ok(d) ==> d@ == value,
    {
        if value < MAX_MINOR_DEVICE && value != 0 {
            Ok(MinorDevNo(value as u32))
        } else {
            Err(())
        }
    }

    /// The inode number of the device.
    pub fn inode(self) -> (r: u64)
        ensures
            r == self@,
            r != 0,
    {
        proof {
            use_type_invariant(&self);
        }
        self.0 as u64
    }
}

} // verus!
