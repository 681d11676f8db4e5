//! Bit sets of access-control permissions and entry flags.
use vstd::prelude::*;

verus! {

/// A set of access-control permissions, one bit each.
#[derive(Clone, Copy, Debug, PartialEq, Eq, PartialOrd, Ord, Hash)]
pub struct Permission {
    pub bits: u16,
}

impl Permission {
    /// READ_DATA for a file, LIST_DIRECTORY for a directory.
    pub fn read() -> (r: Permission)
        ensures
            r.bits == 0b1,
    {
        Permission { bits: 0b1 }
    }
    /// WRITE_DATA for a file, ADD_FILE for a directory.
    pub fn write() -> (r: Permission)
        ensures
            r.bits == 0b10,
    {
        Permission { bits: 0b10 }
    }
    /// EXECUTE for a file, SEARCH for a directory.
    pub fn execute() -> (r: Permission)
        ensures
            r.bits == 0b100,
    {
        Permission { bits: 0b100 }
    }
    /// DELETE for a file.
    pub fn delete() -> (r: Permission)
        ensures
            r.bits == 0b1000,
    {
        Permission { bits: 0b1000 }
    }
    /// APPEND_DATA for a file, ADD_SUBDIRECTORY for a directory.
    pub fn append() -> (r: Permission)
        ensures
            r.bits == 0b10000,
    {
        Permission { bits: 0b10000 }
    }
    /// DELETE_CHILD for a directory.
    pub fn delete_child() -> (r: Permission)
        ensures
            r.bits == 0b100000,
    {
        Permission { bits: 0b100000 }
    }
    /// READ_ATTRIBUTES.
    pub fn readattr() -> (r: Permission)
        ensures
            r.bits == 0b1000000,
    {
        Permission { bits: 0b1000000 }
    }
    /// WRITE_ATTRIBUTES.
    pub fn writeattr() -> (r: Permission)
        ensures
            r.bits == 0b10000000,
    {
        Permission { bits: 0b10000000 }
    }
    /// READ_EXTATTRIBUTES.
    pub fn readextattr() -> (r: Permission)
        ensures
            r.bits == 0b100000000,
    {
        Permission { bits: 0b100000000 }
    }
    /// WRITE_EXTATTRIBUTES.
    pub fn writeextattr() -> (r: Permission)
        ensures
            r.bits == 0b1000000000,
    {
        Permission { bits: 0b1000000000 }
    }
    /// READ_SECURITY.
    pub fn readsecurity() -> (r: Permission)
        ensures
            r.bits == 0b10000000000,
    {
        Permission { bits: 0b10000000000 }
    }
    /// WRITE_SECURITY.
    pub fn writesecurity() -> (r: Permission)
        ensures
            r.bits == 0b100000000000,
    {
        Permission { bits: 0b100000000000 }
    }
    /// CHANGE_OWNER.
    pub fn chown() -> (r: Permission)
        ensures
            r.bits == 0b1000000000000,
    {
        Permission { bits: 0b1000000000000 }
    }
    /// SYNCHRONIZE.
    pub fn sync() -> (r: Permission)
        ensures
            r.bits == 0b10000000000000,
    {
        Permission { bits: 0b10000000000000 }
    }
    /// NFSv4 READ_DATA.
    pub fn read_data() -> (r: Permission)
        ensures
            r.bits == 0b100000000000000,
    {
        Permission { bits: 0b100000000000000 }
    }
    /// NFSv4 WRITE_DATA.
    pub fn write_data() -> (r: Permission)
        ensures
            r.bits == 0b1000000000000000,
    {
        Permission { bits: 0b1000000000000000 }
    }

    /// No permission.
    pub fn empty() -> (r: Permission)
        ensures
            r.bits == 0,
    {
        Permission { bits: 0 }
    }

    /// Every permission.
    pub fn all() -> (r: Permission)
        ensures
            r.bits == 0xffff,
    {
        Permission { bits: 0xffff }
    }

    /// Whether every permission of `other` is in `self`.
    pub fn contains(&self, other: Permission) -> (r: bool)
        ensures
            r == (self.bits & other.bits == other.bits),
    {
        self.bits & other.bits == other.bits
    }

    /// The permissions of either set.
    pub fn union(self, other: Permission) -> (r: Permission)
        ensures
            r.bits == self.bits | other.bits,
    {
        Permission { bits: self.bits | other.bits }
    }

    /// The set with exactly the given bits.
    pub fn from_bits_retain(bits: u16) -> (r: Permission)
        ensures
            r.bits == bits,
    {
        Permission { bits }
    }

    /// Adds the permissions of `other`.
    pub fn insert(&mut self, other: Permission)
        ensures
            final(self).bits == old(self).bits | other.bits,
    {
        self.bits = self.bits | other.bits;
    }
}

/// A set of access-control entry flags, one bit each.
#[derive(Clone, Copy, Debug, PartialEq, Eq, PartialOrd, Ord, Hash)]
pub struct Flag {
    pub bits: u8,
}

impl Flag {
    /// The entry belongs to the default ACL of a directory.
    pub fn default_flag() -> (r: Flag)
        ensures
            r.bits == 0b1,
    {
        Flag { bits: 0b1 }
    }
    /// The entry was inherited.
    pub fn inherited() -> (r: Flag)
        ensures
            r.bits == 0b10,
    {
        Flag { bits: 0b10 }
    }
    /// Files inherit the entry.
    pub fn file_inherit() -> (r: Flag)
        ensures
            r.bits == 0b100,
    {
        Flag { bits: 0b100 }
    }
    /// Directories inherit the entry.
    pub fn directory_inherit() -> (r: Flag)
        ensures
            r.bits == 0b1000,
    {
        Flag { bits: 0b1000 }
    }
    /// Inheritance stops after one level.
    pub fn limit_inherit() -> (r: Flag)
        ensures
            r.bits == 0b10000,
    {
        Flag { bits: 0b10000 }
    }
    /// The entry is only inherited, not applied.
    pub fn only_inherit() -> (r: Flag)
        ensures
            r.bits == 0b100000,
    {
        Flag { bits: 0b100000 }
    }

    /// No flag.
    pub fn empty() -> (r: Flag)
        ensures
            r.bits == 0,
    {
        Flag { bits: 0 }
    }

    /// Every defined flag.
    pub fn all() -> (r: Flag)
        ensures
            r.bits == 0x3f,
    {
        Flag { bits: 0x3f }
    }

    /// Whether every flag of `other` is in `self`.
    pub fn contains(&self, other: Flag) -> (r: bool)
        ensures
            r == (self.bits & other.bits == other.bits),
    {
        self.bits & other.bits == other.bits
    }

    /// The flags of either set.
    pub fn union(self, other: Flag) -> (r: Flag)
        ensures
            r.bits == self.bits | other.bits,
    {
        Flag { bits: self.bits | other.bits }
    }

    /// The set with exactly the given bits.
    pub fn from_bits_retain(bits: u8) -> (r: Flag)
        ensures
            r.bits == bits,
    {
        Flag { bits }
    }

    /// Adds the flags of `other`.
    pub fn insert(&mut self, other: Flag)
        ensures
            final(self).bits == old(self).bits | other.bits,
    {
        self.bits = self.bits | other.bits;
    }
}

} // verus!
