//! The wire-format vocabulary of device descriptions.

use vstd::prelude::*;

verus! {

use crate::pulser::error::ConversionError;
use vstd::string::StringExecFns;

/// A hardware channel ID in the device.
#[derive(Clone, Debug, PartialEq, Eq, Hash)]
pub struct ChannelId(pub String);

impl View for ChannelId {
    type V = Seq<char>;

    open spec fn view(&self) -> Seq<char> {
        self.0@
    }
}

/// One of the two beams driving a Rydberg transition.
#[derive(Clone, Copy, Debug, PartialEq, Eq, Structural, Hash)]
pub enum RydbergBeam {
    /// `"RED"` on the wire.
    Red,
    /// `"BLUE"` on the wire.
    Blue,
}

impl RydbergBeam {
    /// The wire spelling of each alternative.
    pub open spec fn spec_name(self) -> Seq<char> {
        match self {
            Self::Red => "RED"@,
            Self::Blue => "BLUE"@,
        }
    }

    /// The wire spelling, as a fresh string.
    pub fn to_string(&self) -> (r: String)
        ensures
            r@ == self.spec_name(),
    {
        match *self {
            Self::Red => String::from_str("RED"),
            Self::Blue => String::from_str("BLUE"),
        }
    }

    /// Reads a wire spelling back; anything else is rejected.
    pub fn from_str(s: &str) -> (r: Result<Self, ConversionError>)
        ensures
            s@ == "RED"@ ==> r == Ok::<Self, ConversionError>(Self::Red),
            s@ == "BLUE"@ ==> r == Ok::<Self, ConversionError>(Self::Blue),
            (s@ != "RED"@ && s@ != "BLUE"@) ==> r is Err,
    {
        proof {
            reveal_strlit("RED");
            assert("RED"@ =~= seq!['R', 'E', 'D']);
            reveal_strlit("BLUE");
            assert("BLUE"@ =~= seq!['B', 'L', 'U', 'E']);
        }
        if crate::order::str_is(s, "RED") {
            Ok(Self::Red)
        } else if crate::order::str_is(s, "BLUE") {
            Ok(Self::Blue)
        } else {
            Err(ConversionError::new(String::from_str("invalid value")))
        }
    }
}

} // verus!
