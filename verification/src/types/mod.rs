//! Wire type codes and width flags.

use vstd::prelude::*;
use vstd::std_specs::convert::TryFromSpecImpl;

pub mod primitive;
pub mod structures;
pub mod variant;

verus! {

/// Length in bytes of the header that starts every encoded value.
pub const TYPE_PADDING: u8 = 4;

/// Largest type code that the registry knows by number.
pub const MAX_TYPE_CODE: u16 = 28;

/// Width flag carried in the second half of the header. It selects the
/// payload width of integers and floats; the other kinds ignore it.
#[derive(PartialEq, Eq, Debug, Clone, Copy, Structural)]
pub enum SerializeFlag {
    /// 32-bit payload; the default.
    Bit32,
    /// 64-bit payload.
    Bit64,
}

/// Type tag carried in the first half of the header.
#[derive(PartialEq, Eq, Debug, Clone, Copy, Structural)]
pub enum GodotTypeIndex {
    Nil,
    Bool,
    Integer,
    Float,
    String,
    Vector2,
    Vector3,
    Dictionary,
    /// A code inside the known range whose kind this codec does not implement.
    Unsupported(u16),
}

impl SerializeFlag {
    /// The flag that a code stands for, if it stands for one.
    pub open spec fn of_code(code: u16) -> Option<SerializeFlag> {
        if code == 0 {
            Some(SerializeFlag::Bit32)
        } else if code == 1 {
            Some(SerializeFlag::Bit64)
        } else {
            None
        }
    }

    /// The flag that a header carries: an unrecognized code reads as the
    /// default.
    pub open spec fn of_header(code: u16) -> SerializeFlag {
        match SerializeFlag::of_code(code) {
            Some(flag) => flag,
            None => SerializeFlag::Bit32,
        }
    }

    /// The code that stands for this flag on the wire.
    pub open spec fn spec_code(self) -> u16 {
        match self {
            SerializeFlag::Bit32 => 0,
            SerializeFlag::Bit64 => 1,
        }
    }

    /// The code that stands for this flag on the wire.
    pub fn code(self) -> (code: u16)
        ensures
            code == self.spec_code(),
            SerializeFlag::of_code(code) == Some(self),
    {
        match self {
            SerializeFlag::Bit32 => 0,
            SerializeFlag::Bit64 => 1,
        }
    }

    /// Number of payload bytes that an integer or a float has under this flag.
    pub open spec fn spec_width(self) -> nat {
        match self {
            SerializeFlag::Bit32 => 4,
            SerializeFlag::Bit64 => 8,
        }
    }

    /// Number of payload bytes that an integer or a float has under this flag.
    pub fn width(self) -> (width: usize)
        ensures
            width == self.spec_width(),
    {
        match self {
            SerializeFlag::Bit32 => 4,
            SerializeFlag::Bit64 => 8,
        }
    }
}

impl TryFrom<u16> for SerializeFlag {
    type Error = ();

    /// The flag that the code stands for: the default for 0, 64 bits for 1,
    /// and nothing for any other code. What it returns is `try_from_spec`.
    fn try_from(value: u16) -> (flag: Result<SerializeFlag, ()>)
        ensures
            flag is Ok <==> SerializeFlag::of_code(value) is Some,
            flag matches Ok(found) ==> SerializeFlag::of_code(value) == Some(found),
    {
        match value {
            0 => Ok(SerializeFlag::Bit32),
            1 => Ok(SerializeFlag::Bit64),
            _ => Err(()),
        }
    }
}

impl TryFromSpecImpl<u16> for SerializeFlag {
    open spec fn obeys_try_from_spec() -> bool {
        true
    }

    open spec fn try_from_spec(value: u16) -> Result<SerializeFlag, ()> {
        match SerializeFlag::of_code(value) {
            Some(flag) => Ok(flag),
            None => Err(()),
        }
    }
}

impl GodotTypeIndex {
    /// The tag that a code stands for: one of the implemented kinds, the
    /// residual tag for any other code up to `MAX_TYPE_CODE`, and nothing
    /// beyond.
    pub open spec fn of_code(code: u16) -> Option<GodotTypeIndex> {
        if code == 0 {
            Some(GodotTypeIndex::Nil)
        } else if code == 1 {
            Some(GodotTypeIndex::Bool)
        } else if code == 2 {
            Some(GodotTypeIndex::Integer)
        } else if code == 3 {
            Some(GodotTypeIndex::Float)
        } else if code == 4 {
            Some(GodotTypeIndex::String)
        } else if code == 5 {
            Some(GodotTypeIndex::Vector2)
        } else if code == 7 {
            Some(GodotTypeIndex::Vector3)
        } else if code == 18 {
            Some(GodotTypeIndex::Dictionary)
        } else if code <= MAX_TYPE_CODE {
            Some(GodotTypeIndex::Unsupported(code))
        } else {
            None
        }
    }

    /// The code that stands for this tag on the wire.
    pub open spec fn spec_code(self) -> u16 {
        match self {
            GodotTypeIndex::Nil => 0,
            GodotTypeIndex::Bool => 1,
            GodotTypeIndex::Integer => 2,
            GodotTypeIndex::Float => 3,
            GodotTypeIndex::String => 4,
            GodotTypeIndex::Vector2 => 5,
            GodotTypeIndex::Vector3 => 7,
            GodotTypeIndex::Dictionary => 18,
            GodotTypeIndex::Unsupported(code) => code,
        }
    }

    /// Whether the codec implements the kind that this tag names.
    pub open spec fn spec_is_supported(self) -> bool {
        !(self is Unsupported)
    }

    /// The code that stands for this tag on the wire.
    pub fn code(self) -> (code: u16)
        ensures
            code == self.spec_code(),
    {
        match self {
            GodotTypeIndex::Nil => 0,
            GodotTypeIndex::Bool => 1,
            GodotTypeIndex::Integer => 2,
            GodotTypeIndex::Float => 3,
            GodotTypeIndex::String => 4,
            GodotTypeIndex::Vector2 => 5,
            GodotTypeIndex::Vector3 => 7,
            GodotTypeIndex::Dictionary => 18,
            GodotTypeIndex::Unsupported(code) => code,
        }
    }

    /// Whether the codec implements the kind that this tag names.
    pub fn is_supported(self) -> (supported: bool)
        ensures
            supported == self.spec_is_supported(),
    {
        match self {
            GodotTypeIndex::Unsupported(_) => false,
            _ => true,
        }
    }
}

impl TryFrom<u16> for GodotTypeIndex {
    type Error = ();

    /// The tag that the code stands for, and nothing for a code beyond
    /// `MAX_TYPE_CODE`. What it returns is `try_from_spec`.
    fn try_from(value: u16) -> (tag: Result<GodotTypeIndex, ()>)
        ensures
            tag is Ok <==> GodotTypeIndex::of_code(value) is Some,
            tag matches Ok(found) ==> GodotTypeIndex::of_code(value) == Some(found),
    {
        match value {
            0 => Ok(GodotTypeIndex::Nil),
            1 => Ok(GodotTypeIndex::Bool),
            2 => Ok(GodotTypeIndex::Integer),
            3 => Ok(GodotTypeIndex::Float),
            4 => Ok(GodotTypeIndex::String),
            5 => Ok(GodotTypeIndex::Vector2),
            7 => Ok(GodotTypeIndex::Vector3),
            18 => Ok(GodotTypeIndex::Dictionary),
            _ => {
                if value <= MAX_TYPE_CODE {
                    Ok(GodotTypeIndex::Unsupported(value))
                } else {
                    Err(())
                }
            },
        }
    }
}

impl TryFromSpecImpl<u16> for GodotTypeIndex {
    open spec fn obeys_try_from_spec() -> bool {
        true
    }

    open spec fn try_from_spec(value: u16) -> Result<GodotTypeIndex, ()> {
        match GodotTypeIndex::of_code(value) {
            Some(tag) => Ok(tag),
            None => Err(()),
        }
    }
}

} // verus!
