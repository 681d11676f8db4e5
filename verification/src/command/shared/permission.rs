use vstd::prelude::*;

verus! {

/// Unix permission mask representing bits to clear from file mode.
///
/// The mask value is always within the permission bits (0 to 0o777);
/// values outside this range are masked on construction.
#[derive(Clone, Copy, Debug, Default, Eq, PartialEq, Ord, PartialOrd, Hash)]
pub struct Umask(u16);

impl Umask {
    /// The raw mask value.
    pub closed spec fn spec_bits(self) -> u16 {
        self.0
    }

    /// Well-formedness: only permission bits may be set.
    pub closed spec fn wf(self) -> bool {
        self.0 & 0o777u16 == self.0
    }

    /// Creates a new Umask, masking to valid permission bits (0o777).
    pub fn new(mask: u16) -> (r: Self)
        ensures
            r.spec_bits() == mask & 0o777u16,
            r.wf(),
            r.spec_bits() <= 0o777,
    {
        proof {
            assert((mask & 0o777u16) & 0o777u16 == mask & 0o777u16) by (bit_vector);
            assert(mask & 0o777u16 <= 0o777u16) by (bit_vector);
        }
        Umask(mask & 0o777)
    }

    /// Returns the raw mask value (always within 0 to 0o777).
    pub fn bits(self) -> (r: u16)
        ensures
            r == self.spec_bits(),
    {
        self.0
    }

    /// Applies this umask to the given mode, also clearing the special bits
    /// (setuid, setgid, sticky).
    pub fn apply(self, mode: u16) -> (r: u16)
        ensures
            r == (mode & !0o7000u16) & !self.spec_bits(),
            r & 0o7000u16 == 0,
            r & self.spec_bits() == 0,
            r <= mode,
    {
        let b = self.0;
        proof {
            assert(((mode & !0o7000u16) & !b) & 0o7000u16 == 0) by (bit_vector);
            assert(((mode & !0o7000u16) & !b) & b == 0) by (bit_vector);
            assert(((mode & !0o7000u16) & !b) <= mode) by (bit_vector);
        }
        (mode & !0o7000) & !b
    }
}

/// Applying a umask a second time changes nothing.
pub proof fn umask_apply_idempotent(u: Umask, mode: u16)
    ensures
        ((mode & !0o7000u16) & !u.spec_bits()) & !0o7000u16 & !u.spec_bits() == (mode & !0o7000u16)
            & !u.spec_bits(),
{
    let b = u.spec_bits();
    assert(((mode & !0o7000u16) & !b) & !0o7000u16 & !b == (mode & !0o7000u16) & !b) by (bit_vector);
}

/// Override values for ownership: during creation the values stored in the
/// archive (none: take the file system's), during extraction the values
/// restored (none: take the archive's).
#[derive(Clone, Debug, Default, PartialEq, Eq)]
pub struct OwnerOptions {
    pub uname: Option<String>,
    pub gname: Option<String>,
    pub uid: Option<u32>,
    pub gid: Option<u32>,
}

/// How to handle file mode bits.
#[derive(Clone, Copy, Debug, Default, PartialEq, Eq)]
pub enum ModeStrategy {
    /// Don't preserve mode bits.
    #[default]
    Never,
    /// Preserve mode bits from the source.
    Preserve,
    /// Restore mode bits with the mask applied and the special bits cleared.
    Masked(Umask),
}

/// How to handle file ownership.
#[derive(Clone, Debug, Default, PartialEq, Eq)]
pub enum OwnerStrategy {
    /// Don't restore ownership.
    #[default]
    Never,
    /// Restore ownership with optional overrides.
    Preserve { options: OwnerOptions },
}

} // verus!
