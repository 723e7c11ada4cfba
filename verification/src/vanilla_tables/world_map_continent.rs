//! The key of the `WorldMapContinent` table.

use vstd::prelude::*;

verus! {

/// The typed primary key of the `WorldMapContinent` table, which other tables
/// reference by foreign key. The table itself is not modelled here.
#[derive(Debug, Clone, Copy, PartialEq, Eq, PartialOrd, Ord, Hash, Default, Structural)]
pub struct WorldMapContinentKey {
    pub id: u32,
}

impl WorldMapContinentKey {
    pub fn new(id: u32) -> (r: Self)
        ensures
            r.id == id,
    {
        Self { id }
    }
}

impl From<u8> for WorldMapContinentKey {
    fn from(v: u8) -> (r: Self) {
        Self::new(v as u32)
    }
}

impl vstd::std_specs::convert::FromSpecImpl<u8> for WorldMapContinentKey {
    open spec fn obeys_from_spec() -> bool {
        true
    }

    open spec fn from_spec(v: u8) -> Self {
        WorldMapContinentKey { id: v as u32 }
    }
}

impl From<u16> for WorldMapContinentKey {
    fn from(v: u16) -> (r: Self) {
        Self::new(v as u32)
    }
}

impl vstd::std_specs::convert::FromSpecImpl<u16> for WorldMapContinentKey {
    open spec fn obeys_from_spec() -> bool {
        true
    }

    open spec fn from_spec(v: u16) -> Self {
        WorldMapContinentKey { id: v as u32 }
    }
}

impl From<u32> for WorldMapContinentKey {
    fn from(v: u32) -> (r: Self) {
        Self::new(v)
    }
}

impl vstd::std_specs::convert::FromSpecImpl<u32> for WorldMapContinentKey {
    open spec fn obeys_from_spec() -> bool {
        true
    }

    open spec fn from_spec(v: u32) -> Self {
        WorldMapContinentKey { id: v }
    }
}

impl TryFrom<u64> for WorldMapContinentKey {
    type Error = u64;

    fn try_from(v: u64) -> (r: Result<Self, u64>) {
        if v <= u32::MAX as u64 {
            Ok(Self::new(v as u32))
        } else {
            Err(v)
        }
    }
}

impl vstd::std_specs::convert::TryFromSpecImpl<u64> for WorldMapContinentKey {
    open spec fn obeys_try_from_spec() -> bool {
        true
    }

    open spec fn try_from_spec(v: u64) -> Result<Self, u64> {
        if v <= u32::MAX as u64 {
            Ok(WorldMapContinentKey { id: v as u32 })
        } else {
            Err(v)
        }
    }
}

impl TryFrom<usize> for WorldMapContinentKey {
    type Error = usize;

    fn try_from(v: usize) -> (r: Result<Self, usize>) {
        if v <= u32::MAX as usize {
            Ok(Self::new(v as u32))
        } else {
            Err(v)
        }
    }
}

impl vstd::std_specs::convert::TryFromSpecImpl<usize> for WorldMapContinentKey {
    open spec fn obeys_try_from_spec() -> bool {
        true
    }

    open spec fn try_from_spec(v: usize) -> Result<Self, usize> {
        if v <= u32::MAX as usize {
            Ok(WorldMapContinentKey { id: v as u32 })
        } else {
            Err(v)
        }
    }
}

impl TryFrom<i8> for WorldMapContinentKey {
    type Error = i8;

    fn try_from(v: i8) -> (r: Result<Self, i8>) {
        if v >= 0 {
            Ok(Self::new(v as u32))
        } else {
            Err(v)
        }
    }
}

impl vstd::std_specs::convert::TryFromSpecImpl<i8> for WorldMapContinentKey {
    open spec fn obeys_try_from_spec() -> bool {
        true
    }

    open spec fn try_from_spec(v: i8) -> Result<Self, i8> {
        if v >= 0 {
            Ok(WorldMapContinentKey { id: v as u32 })
        } else {
            Err(v)
        }
    }
}

impl TryFrom<i16> for WorldMapContinentKey {
    type Error = i16;

    fn try_from(v: i16) -> (r: Result<Self, i16>) {
        if v >= 0 {
            Ok(Self::new(v as u32))
        } else {
            Err(v)
        }
    }
}

impl vstd::std_specs::convert::TryFromSpecImpl<i16> for WorldMapContinentKey {
    open spec fn obeys_try_from_spec() -> bool {
        true
    }

    open spec fn try_from_spec(v: i16) -> Result<Self, i16> {
        if v >= 0 {
            Ok(WorldMapContinentKey { id: v as u32 })
        } else {
            Err(v)
        }
    }
}

impl TryFrom<i32> for WorldMapContinentKey {
    type Error = i32;

    fn try_from(v: i32) -> (r: Result<Self, i32>) {
        if v >= 0 {
            Ok(Self::new(v as u32))
        } else {
            Err(v)
        }
    }
}

impl vstd::std_specs::convert::TryFromSpecImpl<i32> for WorldMapContinentKey {
    open spec fn obeys_try_from_spec() -> bool {
        true
    }

    open spec fn try_from_spec(v: i32) -> Result<Self, i32> {
        if v >= 0 {
            Ok(WorldMapContinentKey { id: v as u32 })
        } else {
            Err(v)
        }
    }
}

impl TryFrom<i64> for WorldMapContinentKey {
    type Error = i64;

    fn try_from(v: i64) -> (r: Result<Self, i64>) {
        if 0 <= v && v <= u32::MAX as i64 {
            Ok(Self::new(v as u32))
        } else {
            Err(v)
        }
    }
}

impl vstd::std_specs::convert::TryFromSpecImpl<i64> for WorldMapContinentKey {
    open spec fn obeys_try_from_spec() -> bool {
        true
    }

    open spec fn try_from_spec(v: i64) -> Result<Self, i64> {
        if 0 <= v && v <= u32::MAX as i64 {
            Ok(WorldMapContinentKey { id: v as u32 })
        } else {
            Err(v)
        }
    }
}

impl TryFrom<isize> for WorldMapContinentKey {
    type Error = isize;

    fn try_from(v: isize) -> (r: Result<Self, isize>) {
        if 0 <= v && v <= u32::MAX as isize {
            Ok(Self::new(v as u32))
        } else {
            Err(v)
        }
    }
}

impl vstd::std_specs::convert::TryFromSpecImpl<isize> for WorldMapContinentKey {
    open spec fn obeys_try_from_spec() -> bool {
        true
    }

    open spec fn try_from_spec(v: isize) -> Result<Self, isize> {
        if 0 <= v && v <= u32::MAX as isize {
            Ok(WorldMapContinentKey { id: v as u32 })
        } else {
            Err(v)
        }
    }
}

} // verus!
