//! The hand-maintained enums that table schemas reference by name. Only the
//! two the `Cfg_Categories` table needs are modelled: each is a closed set
//! of integer codes.

use vstd::prelude::*;
use crate::DbcError;

verus! {

/// The category of a game server.
#[derive(Debug, Clone, Copy, PartialEq, Eq, PartialOrd, Ord, Hash, Structural)]
pub enum ServerCategory {
    One,
    Two,
    Three,
    Five,
}

/// The integer code a [`ServerCategory`] is stored as.
pub open spec fn category_int(c: ServerCategory) -> i32 {
    match c {
        ServerCategory::One => 1,
        ServerCategory::Two => 2,
        ServerCategory::Three => 3,
        ServerCategory::Five => 5,
    }
}

/// What a reader makes of a stored category code: exactly the codes 1, 2,
/// 3 and 5 name a category.
pub open spec fn decode_category(v: i32) -> Result<ServerCategory, DbcError> {
    if v == 1 {
        Ok(ServerCategory::One)
    } else if v == 2 {
        Ok(ServerCategory::Two)
    } else if v == 3 {
        Ok(ServerCategory::Three)
    } else if v == 5 {
        Ok(ServerCategory::Five)
    } else {
        Err(DbcError::InvalidEnumValue { table: "Cfg_Categories", field: "category", value: v as i64 })
    }
}

impl ServerCategory {
    /// The stored integer code.
    pub fn as_int(&self) -> (r: u8)
        ensures
            r as i32 == category_int(*self),
    {
        match self {
            ServerCategory::One => 1,
            ServerCategory::Two => 2,
            ServerCategory::Three => 3,
            ServerCategory::Five => 5,
        }
    }

    /// The category stored as code `v`, or the typed error for any other
    /// code.
    pub fn try_from_i32(v: i32) -> (r: Result<ServerCategory, DbcError>)
        ensures
            r == decode_category(v),
    {
        if v == 1 {
            Ok(ServerCategory::One)
        } else if v == 2 {
            Ok(ServerCategory::Two)
        } else if v == 3 {
            Ok(ServerCategory::Three)
        } else if v == 5 {
            Ok(ServerCategory::Five)
        } else {
            Err(
                DbcError::InvalidEnumValue {
                    table: "Cfg_Categories",
                    field: "category",
                    value: v as i64,
                },
            )
        }
    }
}

/// The region a game server serves.
#[derive(Debug, Clone, Copy, PartialEq, Eq, PartialOrd, Ord, Hash, Structural)]
pub enum ServerRegion {
    UnitedStates,
    Korea,
    Europe,
    Taiwan,
    China,
    TestServer,
    QaServer,
}

/// The integer code a [`ServerRegion`] is stored as.
pub open spec fn region_int(c: ServerRegion) -> i32 {
    match c {
        ServerRegion::UnitedStates => 1,
        ServerRegion::Korea => 2,
        ServerRegion::Europe => 3,
        ServerRegion::Taiwan => 4,
        ServerRegion::China => 5,
        ServerRegion::TestServer => 99,
        ServerRegion::QaServer => 101,
    }
}

/// What a reader makes of a stored region code: exactly the codes 1 to 5,
/// 99 and 101 name a region.
pub open spec fn decode_region(v: i32) -> Result<ServerRegion, DbcError> {
    if v == 1 {
        Ok(ServerRegion::UnitedStates)
    } else if v == 2 {
        Ok(ServerRegion::Korea)
    } else if v == 3 {
        Ok(ServerRegion::Europe)
    } else if v == 4 {
        Ok(ServerRegion::Taiwan)
    } else if v == 5 {
        Ok(ServerRegion::China)
    } else if v == 99 {
        Ok(ServerRegion::TestServer)
    } else if v == 101 {
        Ok(ServerRegion::QaServer)
    } else {
        Err(DbcError::InvalidEnumValue { table: "Cfg_Categories", field: "region", value: v as i64 })
    }
}

impl ServerRegion {
    /// The stored integer code.
    pub fn as_int(&self) -> (r: u8)
        ensures
            r as i32 == region_int(*self),
    {
        match self {
            ServerRegion::UnitedStates => 1,
            ServerRegion::Korea => 2,
            ServerRegion::Europe => 3,
            ServerRegion::Taiwan => 4,
            ServerRegion::China => 5,
            ServerRegion::TestServer => 99,
            ServerRegion::QaServer => 101,
        }
    }

    /// The region stored as code `v`, or the typed error for any other
    /// code.
    pub fn try_from_i32(v: i32) -> (r: Result<ServerRegion, DbcError>)
        ensures
            r == decode_region(v),
    {
        if v == 1 {
            Ok(ServerRegion::UnitedStates)
        } else if v == 2 {
            Ok(ServerRegion::Korea)
        } else if v == 3 {
            Ok(ServerRegion::Europe)
        } else if v == 4 {
            Ok(ServerRegion::Taiwan)
        } else if v == 5 {
            Ok(ServerRegion::China)
        } else if v == 99 {
            Ok(ServerRegion::TestServer)
        } else if v == 101 {
            Ok(ServerRegion::QaServer)
        } else {
            Err(
                DbcError::InvalidEnumValue {
                    table: "Cfg_Categories",
                    field: "region",
                    value: v as i64,
                },
            )
        }
    }
}

} // verus!
