//! The interaction model: a physical coefficient per Rydberg energy level.
//!
//! The pairwise interaction strength between two atoms falls off with the
//! sixth power of their distance; the proportionality coefficient depends on
//! the Rydberg level the device drives. This table covers the supported
//! levels. To keep the coefficients exact integers they are stored in
//! hundredths of rad/us x um^6; callers that need the physical value divide
//! by one hundred.

use vstd::prelude::*;

verus! {

/// C_6/hbar in hundredths of rad/us x um^6, for the Rydberg level
/// `50 + i` at position `i`.
pub open spec fn c6_table() -> Seq<int> {
    seq![
        9612072,
        12224160,
        15469302,
        19474036,
        24397391,
        30449501,
        37830598,
        46802705,
        57671485,
        70791138,
        86572302,
        105490311,
        128104211,
        155053115,
        187062131,
        224972857,
        269749869,
        322498751,
        384473437,
        457105332,
        542015853,
        641039940,
        756263731,
        890034214,
        1044998962,
        1224141453,
        1430802803,
        1668732994,
        1942133362,
        2255702994,
        2614672074,
        3024888665,
        3492844869,
        4025762367,
        4631655788,
        5319404352,
        6098835464,
        6980817915,
        7977346888,
        9101651307,
        10367778457,
        11793329396,
        13394354190,
        15190713594,
        17203613734,
        19456288989,
        21974159056,
        24785017891,
        27919219377,
        31409882939,
        35293111911,
    ]
}

/// The interaction coefficient of a supported Rydberg level, in hundredths
/// of rad/us x um^6.
#[derive(Debug, Clone, Copy, PartialEq, Eq, Structural)]
pub struct C6Coeff {
    hundredths: u64,
}

impl C6Coeff {
    /// The lowest supported Rydberg level.
    pub const MIN: u32 = 50;

    /// The highest supported Rydberg level.
    pub const MAX: u32 = 100;

    /// The coefficient value, in specifications.
    pub closed spec fn spec_hundredths(self) -> int {
        self.hundredths as int
    }

    /// The coefficient for a Rydberg level: exactly the table value for a
    /// supported level, nothing for a level out of range.
    pub fn new(level: u32) -> (r: Option<Self>)
        ensures
            r is Some <==> Self::MIN <= level <= Self::MAX,
            r matches Some(c) ==> c.spec_hundredths() == c6_table()[level - 50],
    {
        if level < Self::MIN {
            return None;
        }
        if level > Self::MAX {
            return None;
        }
        let hundredths: u64 = match level {
            50 => 9612072,
            51 => 12224160,
            52 => 15469302,
            53 => 19474036,
            54 => 24397391,
            55 => 30449501,
            56 => 37830598,
            57 => 46802705,
            58 => 57671485,
            59 => 70791138,
            60 => 86572302,
            61 => 105490311,
            62 => 128104211,
            63 => 155053115,
            64 => 187062131,
            65 => 224972857,
            66 => 269749869,
            67 => 322498751,
            68 => 384473437,
            69 => 457105332,
            70 => 542015853,
            71 => 641039940,
            72 => 756263731,
            73 => 890034214,
            74 => 1044998962,
            75 => 1224141453,
            76 => 1430802803,
            77 => 1668732994,
            78 => 1942133362,
            79 => 2255702994,
            80 => 2614672074,
            81 => 3024888665,
            82 => 3492844869,
            83 => 4025762367,
            84 => 4631655788,
            85 => 5319404352,
            86 => 6098835464,
            87 => 6980817915,
            88 => 7977346888,
            89 => 9101651307,
            90 => 10367778457,
            91 => 11793329396,
            92 => 13394354190,
            93 => 15190713594,
            94 => 17203613734,
            95 => 19456288989,
            96 => 21974159056,
            97 => 24785017891,
            98 => 27919219377,
            99 => 31409882939,
            100 => 35293111911,
            _ => 0,
        };
        proof {
            assert(hundredths as int == c6_table()[level - 50]);
        }
        Some(Self { hundredths })
    }

    /// The coefficient in hundredths of rad/us x um^6.
    pub fn value_hundredths(&self) -> (r: u64)
        ensures
            r == self.spec_hundredths(),
    {
        self.hundredths
    }
}

} // verus!
