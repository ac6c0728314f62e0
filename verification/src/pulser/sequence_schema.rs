//! The wire-format vocabulary of pulse sequences.
//!
//! These types mirror the external abstract representation that compiled
//! sequences are serialized into. Each enum spells its alternatives exactly
//! as the wire format does; the structs carry the payload of the few
//! operations the compiler emits, and are assembled through the builders in
//! [`builder`].

use vstd::prelude::*;

verus! {

use crate::pulser::error::ConversionError;
use crate::pulser::register_schema::QubitId;
use vstd::string::StringExecFns;

/// The measurement basis of a channel.
#[derive(Clone, Copy, Debug, PartialEq, Eq, Structural, Hash)]
pub enum Basis {
    /// `"ground-rydberg"` on the wire.
    GroundRydberg,
    /// `"digital"` on the wire.
    Digital,
    /// `"XY"` on the wire.
    Xy,
}

impl Basis {
    /// The wire spelling of each alternative.
    pub open spec fn spec_name(self) -> Seq<char> {
        match self {
            Self::GroundRydberg => "ground-rydberg"@,
            Self::Digital => "digital"@,
            Self::Xy => "XY"@,
        }
    }

    /// The wire spelling, as a fresh string.
    pub fn to_string(&self) -> (r: String)
        ensures
            r@ == self.spec_name(),
    {
        match *self {
            Self::GroundRydberg => String::from_str("ground-rydberg"),
            Self::Digital => String::from_str("digital"),
            Self::Xy => String::from_str("XY"),
        }
    }

    /// Reads a wire spelling back; anything else is rejected.
    pub fn from_str(s: &str) -> (r: Result<Self, ConversionError>)
        ensures
            s@ == "ground-rydberg"@ ==> r == Ok::<Self, ConversionError>(Self::GroundRydberg),
            s@ == "digital"@ ==> r == Ok::<Self, ConversionError>(Self::Digital),
            s@ == "XY"@ ==> r == Ok::<Self, ConversionError>(Self::Xy),
            (s@ != "ground-rydberg"@ && s@ != "digital"@ && s@ != "XY"@) ==> r is Err,
    {
        proof {
            reveal_strlit("ground-rydberg");
            assert("ground-rydberg"@ =~= seq!['g', 'r', 'o', 'u', 'n', 'd', '-', 'r', 'y', 'd', 'b', 'e', 'r', 'g']);
            reveal_strlit("digital");
            assert("digital"@ =~= seq!['d', 'i', 'g', 'i', 't', 'a', 'l']);
            reveal_strlit("XY");
            assert("XY"@ =~= seq!['X', 'Y']);
        }
        if crate::order::str_is(s, "ground-rydberg") {
            Ok(Self::GroundRydberg)
        } else if crate::order::str_is(s, "digital") {
            Ok(Self::Digital)
        } else if crate::order::str_is(s, "XY") {
            Ok(Self::Xy)
        } else {
            Err(ConversionError::new(String::from_str("invalid value")))
        }
    }
}

/// A hardware channel ID in the device.
#[derive(Clone, Debug, PartialEq, Eq, Hash)]
pub struct ChannelId(pub String);

impl View for ChannelId {
    type V = Seq<char>;

    open spec fn view(&self) -> Seq<char> {
        self.0@
    }
}

/// The name of a declared channel.
#[derive(Clone, Debug, PartialEq, Eq, Hash)]
pub struct ChannelName(pub String);

impl View for ChannelName {
    type V = Seq<char>;

    open spec fn view(&self) -> Seq<char> {
        self.0@
    }
}

/// The operation of a binary arithmetic expression.
#[derive(Clone, Copy, Debug, PartialEq, Eq, Structural, Hash)]
pub enum ExprBinaryExpression {
    /// `"add"` on the wire.
    Add,
    /// `"sub"` on the wire.
    Sub,
    /// `"mul"` on the wire.
    Mul,
    /// `"div"` on the wire.
    Div,
    /// `"mod"` on the wire.
    Mod,
    /// `"pow"` on the wire.
    Pow,
    /// `"index"` on the wire.
    Index,
}

impl ExprBinaryExpression {
    /// The wire spelling of each alternative.
    pub open spec fn spec_name(self) -> Seq<char> {
        match self {
            Self::Add => "add"@,
            Self::Sub => "sub"@,
            Self::Mul => "mul"@,
            Self::Div => "div"@,
            Self::Mod => "mod"@,
            Self::Pow => "pow"@,
            Self::Index => "index"@,
        }
    }

    /// The wire spelling, as a fresh string.
    pub fn to_string(&self) -> (r: String)
        ensures
            r@ == self.spec_name(),
    {
        match *self {
            Self::Add => String::from_str("add"),
            Self::Sub => String::from_str("sub"),
            Self::Mul => String::from_str("mul"),
            Self::Div => String::from_str("div"),
            Self::Mod => String::from_str("mod"),
            Self::Pow => String::from_str("pow"),
            Self::Index => String::from_str("index"),
        }
    }

    /// Reads a wire spelling back; anything else is rejected.
    pub fn from_str(s: &str) -> (r: Result<Self, ConversionError>)
        ensures
            s@ == "add"@ ==> r == Ok::<Self, ConversionError>(Self::Add),
            s@ == "sub"@ ==> r == Ok::<Self, ConversionError>(Self::Sub),
            s@ == "mul"@ ==> r == Ok::<Self, ConversionError>(Self::Mul),
            s@ == "div"@ ==> r == Ok::<Self, ConversionError>(Self::Div),
            s@ == "mod"@ ==> r == Ok::<Self, ConversionError>(Self::Mod),
            s@ == "pow"@ ==> r == Ok::<Self, ConversionError>(Self::Pow),
            s@ == "index"@ ==> r == Ok::<Self, ConversionError>(Self::Index),
            (s@ != "add"@ && s@ != "sub"@ && s@ != "mul"@ && s@ != "div"@ && s@ != "mod"@ && s@ != "pow"@ && s@ != "index"@) ==> r is Err,
    {
        proof {
            reveal_strlit("add");
            assert("add"@ =~= seq!['a', 'd', 'd']);
            reveal_strlit("sub");
            assert("sub"@ =~= seq!['s', 'u', 'b']);
            reveal_strlit("mul");
            assert("mul"@ =~= seq!['m', 'u', 'l']);
            reveal_strlit("div");
            assert("div"@ =~= seq!['d', 'i', 'v']);
            reveal_strlit("mod");
            assert("mod"@ =~= seq!['m', 'o', 'd']);
            reveal_strlit("pow");
            assert("pow"@ =~= seq!['p', 'o', 'w']);
            reveal_strlit("index");
            assert("index"@ =~= seq!['i', 'n', 'd', 'e', 'x']);
        }
        if crate::order::str_is(s, "add") {
            Ok(Self::Add)
        } else if crate::order::str_is(s, "sub") {
            Ok(Self::Sub)
        } else if crate::order::str_is(s, "mul") {
            Ok(Self::Mul)
        } else if crate::order::str_is(s, "div") {
            Ok(Self::Div)
        } else if crate::order::str_is(s, "mod") {
            Ok(Self::Mod)
        } else if crate::order::str_is(s, "pow") {
            Ok(Self::Pow)
        } else if crate::order::str_is(s, "index") {
            Ok(Self::Index)
        } else {
            Err(ConversionError::new(String::from_str("invalid value")))
        }
    }
}

/// The operation of a unary arithmetic expression.
#[derive(Clone, Copy, Debug, PartialEq, Eq, Structural, Hash)]
pub enum ExprUnaryExpression {
    /// `"neg"` on the wire.
    Neg,
    /// `"abs"` on the wire.
    Abs,
    /// `"floor"` on the wire.
    Floor,
    /// `"ceil"` on the wire.
    Ceil,
    /// `"round"` on the wire.
    Round,
    /// `"sqrt"` on the wire.
    Sqrt,
    /// `"exp"` on the wire.
    Exp,
    /// `"log2"` on the wire.
    Log2,
    /// `"log"` on the wire.
    Log,
    /// `"sin"` on the wire.
    Sin,
    /// `"cos"` on the wire.
    Cos,
    /// `"tan"` on the wire.
    Tan,
}

impl ExprUnaryExpression {
    /// The wire spelling of each alternative.
    pub open spec fn spec_name(self) -> Seq<char> {
        match self {
            Self::Neg => "neg"@,
            Self::Abs => "abs"@,
            Self::Floor => "floor"@,
            Self::Ceil => "ceil"@,
            Self::Round => "round"@,
            Self::Sqrt => "sqrt"@,
            Self::Exp => "exp"@,
            Self::Log2 => "log2"@,
            Self::Log => "log"@,
            Self::Sin => "sin"@,
            Self::Cos => "cos"@,
            Self::Tan => "tan"@,
        }
    }

    /// The wire spelling, as a fresh string.
    pub fn to_string(&self) -> (r: String)
        ensures
            r@ == self.spec_name(),
    {
        match *self {
            Self::Neg => String::from_str("neg"),
            Self::Abs => String::from_str("abs"),
            Self::Floor => String::from_str("floor"),
            Self::Ceil => String::from_str("ceil"),
            Self::Round => String::from_str("round"),
            Self::Sqrt => String::from_str("sqrt"),
            Self::Exp => String::from_str("exp"),
            Self::Log2 => String::from_str("log2"),
            Self::Log => String::from_str("log"),
            Self::Sin => String::from_str("sin"),
            Self::Cos => String::from_str("cos"),
            Self::Tan => String::from_str("tan"),
        }
    }

    /// Reads a wire spelling back; anything else is rejected.
    pub fn from_str(s: &str) -> (r: Result<Self, ConversionError>)
        ensures
            s@ == "neg"@ ==> r == Ok::<Self, ConversionError>(Self::Neg),
            s@ == "abs"@ ==> r == Ok::<Self, ConversionError>(Self::Abs),
            s@ == "floor"@ ==> r == Ok::<Self, ConversionError>(Self::Floor),
            s@ == "ceil"@ ==> r == Ok::<Self, ConversionError>(Self::Ceil),
            s@ == "round"@ ==> r == Ok::<Self, ConversionError>(Self::Round),
            s@ == "sqrt"@ ==> r == Ok::<Self, ConversionError>(Self::Sqrt),
            s@ == "exp"@ ==> r == Ok::<Self, ConversionError>(Self::Exp),
            s@ == "log2"@ ==> r == Ok::<Self, ConversionError>(Self::Log2),
            s@ == "log"@ ==> r == Ok::<Self, ConversionError>(Self::Log),
            s@ == "sin"@ ==> r == Ok::<Self, ConversionError>(Self::Sin),
            s@ == "cos"@ ==> r == Ok::<Self, ConversionError>(Self::Cos),
            s@ == "tan"@ ==> r == Ok::<Self, ConversionError>(Self::Tan),
            (s@ != "neg"@ && s@ != "abs"@ && s@ != "floor"@ && s@ != "ceil"@ && s@ != "round"@ && s@ != "sqrt"@ && s@ != "exp"@ && s@ != "log2"@ && s@ != "log"@ && s@ != "sin"@ && s@ != "cos"@ && s@ != "tan"@) ==> r is Err,
    {
        proof {
            reveal_strlit("neg");
            assert("neg"@ =~= seq!['n', 'e', 'g']);
            reveal_strlit("abs");
            assert("abs"@ =~= seq!['a', 'b', 's']);
            reveal_strlit("floor");
            assert("floor"@ =~= seq!['f', 'l', 'o', 'o', 'r']);
            reveal_strlit("ceil");
            assert("ceil"@ =~= seq!['c', 'e', 'i', 'l']);
            reveal_strlit("round");
            assert("round"@ =~= seq!['r', 'o', 'u', 'n', 'd']);
            reveal_strlit("sqrt");
            assert("sqrt"@ =~= seq!['s', 'q', 'r', 't']);
            reveal_strlit("exp");
            assert("exp"@ =~= seq!['e', 'x', 'p']);
            reveal_strlit("log2");
            assert("log2"@ =~= seq!['l', 'o', 'g', '2']);
            reveal_strlit("log");
            assert("log"@ =~= seq!['l', 'o', 'g']);
            reveal_strlit("sin");
            assert("sin"@ =~= seq!['s', 'i', 'n']);
            reveal_strlit("cos");
            assert("cos"@ =~= seq!['c', 'o', 's']);
            reveal_strlit("tan");
            assert("tan"@ =~= seq!['t', 'a', 'n']);
        }
        if crate::order::str_is(s, "neg") {
            Ok(Self::Neg)
        } else if crate::order::str_is(s, "abs") {
            Ok(Self::Abs)
        } else if crate::order::str_is(s, "floor") {
            Ok(Self::Floor)
        } else if crate::order::str_is(s, "ceil") {
            Ok(Self::Ceil)
        } else if crate::order::str_is(s, "round") {
            Ok(Self::Round)
        } else if crate::order::str_is(s, "sqrt") {
            Ok(Self::Sqrt)
        } else if crate::order::str_is(s, "exp") {
            Ok(Self::Exp)
        } else if crate::order::str_is(s, "log2") {
            Ok(Self::Log2)
        } else if crate::order::str_is(s, "log") {
            Ok(Self::Log)
        } else if crate::order::str_is(s, "sin") {
            Ok(Self::Sin)
        } else if crate::order::str_is(s, "cos") {
            Ok(Self::Cos)
        } else if crate::order::str_is(s, "tan") {
            Ok(Self::Tan)
        } else {
            Err(ConversionError::new(String::from_str("invalid value")))
        }
    }
}

/// A device known to the wire format by name.
#[derive(Clone, Copy, Debug, PartialEq, Eq, Structural, Hash)]
pub enum HardcodedDevice {
    /// `"Chadoq2"` on the wire.
    Chadoq2,
    /// `"IroiseMVP"` on the wire.
    IroiseMvp,
    /// `"MockDevice"` on the wire.
    MockDevice,
}

impl HardcodedDevice {
    /// The wire spelling of each alternative.
    pub open spec fn spec_name(self) -> Seq<char> {
        match self {
            Self::Chadoq2 => "Chadoq2"@,
            Self::IroiseMvp => "IroiseMVP"@,
            Self::MockDevice => "MockDevice"@,
        }
    }

    /// The wire spelling, as a fresh string.
    pub fn to_string(&self) -> (r: String)
        ensures
            r@ == self.spec_name(),
    {
        match *self {
            Self::Chadoq2 => String::from_str("Chadoq2"),
            Self::IroiseMvp => String::from_str("IroiseMVP"),
            Self::MockDevice => String::from_str("MockDevice"),
        }
    }

    /// Reads a wire spelling back; anything else is rejected.
    pub fn from_str(s: &str) -> (r: Result<Self, ConversionError>)
        ensures
            s@ == "Chadoq2"@ ==> r == Ok::<Self, ConversionError>(Self::Chadoq2),
            s@ == "IroiseMVP"@ ==> r == Ok::<Self, ConversionError>(Self::IroiseMvp),
            s@ == "MockDevice"@ ==> r == Ok::<Self, ConversionError>(Self::MockDevice),
            (s@ != "Chadoq2"@ && s@ != "IroiseMVP"@ && s@ != "MockDevice"@) ==> r is Err,
    {
        proof {
            reveal_strlit("Chadoq2");
            assert("Chadoq2"@ =~= seq!['C', 'h', 'a', 'd', 'o', 'q', '2']);
            reveal_strlit("IroiseMVP");
            assert("IroiseMVP"@ =~= seq!['I', 'r', 'o', 'i', 's', 'e', 'M', 'V', 'P']);
            reveal_strlit("MockDevice");
            assert("MockDevice"@ =~= seq!['M', 'o', 'c', 'k', 'D', 'e', 'v', 'i', 'c', 'e']);
        }
        if crate::order::str_is(s, "Chadoq2") {
            Ok(Self::Chadoq2)
        } else if crate::order::str_is(s, "IroiseMVP") {
            Ok(Self::IroiseMvp)
        } else if crate::order::str_is(s, "MockDevice") {
            Ok(Self::MockDevice)
        } else {
            Err(ConversionError::new(String::from_str("invalid value")))
        }
    }
}

/// How an added detuning-map modulation is scheduled.
#[derive(Clone, Copy, Debug, PartialEq, Eq, Structural, Hash)]
pub enum OpAddDmmDetProtocol {
    /// `"min-delay"` on the wire.
    MinDelay,
    /// `"no-delay"` on the wire.
    NoDelay,
    /// `"wait-for-all"` on the wire.
    WaitForAll,
}

impl OpAddDmmDetProtocol {
    /// The wire spelling of each alternative.
    pub open spec fn spec_name(self) -> Seq<char> {
        match self {
            Self::MinDelay => "min-delay"@,
            Self::NoDelay => "no-delay"@,
            Self::WaitForAll => "wait-for-all"@,
        }
    }

    /// The wire spelling, as a fresh string.
    pub fn to_string(&self) -> (r: String)
        ensures
            r@ == self.spec_name(),
    {
        match *self {
            Self::MinDelay => String::from_str("min-delay"),
            Self::NoDelay => String::from_str("no-delay"),
            Self::WaitForAll => String::from_str("wait-for-all"),
        }
    }

    /// Reads a wire spelling back; anything else is rejected.
    pub fn from_str(s: &str) -> (r: Result<Self, ConversionError>)
        ensures
            s@ == "min-delay"@ ==> r == Ok::<Self, ConversionError>(Self::MinDelay),
            s@ == "no-delay"@ ==> r == Ok::<Self, ConversionError>(Self::NoDelay),
            s@ == "wait-for-all"@ ==> r == Ok::<Self, ConversionError>(Self::WaitForAll),
            (s@ != "min-delay"@ && s@ != "no-delay"@ && s@ != "wait-for-all"@) ==> r is Err,
    {
        proof {
            reveal_strlit("min-delay");
            assert("min-delay"@ =~= seq!['m', 'i', 'n', '-', 'd', 'e', 'l', 'a', 'y']);
            reveal_strlit("no-delay");
            assert("no-delay"@ =~= seq!['n', 'o', '-', 'd', 'e', 'l', 'a', 'y']);
            reveal_strlit("wait-for-all");
            assert("wait-for-all"@ =~= seq!['w', 'a', 'i', 't', '-', 'f', 'o', 'r', '-', 'a', 'l', 'l']);
        }
        if crate::order::str_is(s, "min-delay") {
            Ok(Self::MinDelay)
        } else if crate::order::str_is(s, "no-delay") {
            Ok(Self::NoDelay)
        } else if crate::order::str_is(s, "wait-for-all") {
            Ok(Self::WaitForAll)
        } else {
            Err(ConversionError::new(String::from_str("invalid value")))
        }
    }
}

/// How an EOM-mode pulse is scheduled.
#[derive(Clone, Copy, Debug, PartialEq, Eq, Structural, Hash)]
pub enum OpEomPulseProtocol {
    /// `"min-delay"` on the wire.
    MinDelay,
    /// `"no-delay"` on the wire.
    NoDelay,
    /// `"wait-for-all"` on the wire.
    WaitForAll,
}

impl OpEomPulseProtocol {
    /// The wire spelling of each alternative.
    pub open spec fn spec_name(self) -> Seq<char> {
        match self {
            Self::MinDelay => "min-delay"@,
            Self::NoDelay => "no-delay"@,
            Self::WaitForAll => "wait-for-all"@,
        }
    }

    /// The wire spelling, as a fresh string.
    pub fn to_string(&self) -> (r: String)
        ensures
            r@ == self.spec_name(),
    {
        match *self {
            Self::MinDelay => String::from_str("min-delay"),
            Self::NoDelay => String::from_str("no-delay"),
            Self::WaitForAll => String::from_str("wait-for-all"),
        }
    }

    /// Reads a wire spelling back; anything else is rejected.
    pub fn from_str(s: &str) -> (r: Result<Self, ConversionError>)
        ensures
            s@ == "min-delay"@ ==> r == Ok::<Self, ConversionError>(Self::MinDelay),
            s@ == "no-delay"@ ==> r == Ok::<Self, ConversionError>(Self::NoDelay),
            s@ == "wait-for-all"@ ==> r == Ok::<Self, ConversionError>(Self::WaitForAll),
            (s@ != "min-delay"@ && s@ != "no-delay"@ && s@ != "wait-for-all"@) ==> r is Err,
    {
        proof {
            reveal_strlit("min-delay");
            assert("min-delay"@ =~= seq!['m', 'i', 'n', '-', 'd', 'e', 'l', 'a', 'y']);
            reveal_strlit("no-delay");
            assert("no-delay"@ =~= seq!['n', 'o', '-', 'd', 'e', 'l', 'a', 'y']);
            reveal_strlit("wait-for-all");
            assert("wait-for-all"@ =~= seq!['w', 'a', 'i', 't', '-', 'f', 'o', 'r', '-', 'a', 'l', 'l']);
        }
        if crate::order::str_is(s, "min-delay") {
            Ok(Self::MinDelay)
        } else if crate::order::str_is(s, "no-delay") {
            Ok(Self::NoDelay)
        } else if crate::order::str_is(s, "wait-for-all") {
            Ok(Self::WaitForAll)
        } else {
            Err(ConversionError::new(String::from_str("invalid value")))
        }
    }
}

/// How a pulse is scheduled.
#[derive(Clone, Copy, Debug, PartialEq, Eq, Structural, Hash)]
pub enum OpPulseProtocol {
    /// `"min-delay"` on the wire.
    MinDelay,
    /// `"no-delay"` on the wire.
    NoDelay,
    /// `"wait-for-all"` on the wire.
    WaitForAll,
}

impl OpPulseProtocol {
    /// The wire spelling of each alternative.
    pub open spec fn spec_name(self) -> Seq<char> {
        match self {
            Self::MinDelay => "min-delay"@,
            Self::NoDelay => "no-delay"@,
            Self::WaitForAll => "wait-for-all"@,
        }
    }

    /// The wire spelling, as a fresh string.
    pub fn to_string(&self) -> (r: String)
        ensures
            r@ == self.spec_name(),
    {
        match *self {
            Self::MinDelay => String::from_str("min-delay"),
            Self::NoDelay => String::from_str("no-delay"),
            Self::WaitForAll => String::from_str("wait-for-all"),
        }
    }

    /// Reads a wire spelling back; anything else is rejected.
    pub fn from_str(s: &str) -> (r: Result<Self, ConversionError>)
        ensures
            s@ == "min-delay"@ ==> r == Ok::<Self, ConversionError>(Self::MinDelay),
            s@ == "no-delay"@ ==> r == Ok::<Self, ConversionError>(Self::NoDelay),
            s@ == "wait-for-all"@ ==> r == Ok::<Self, ConversionError>(Self::WaitForAll),
            (s@ != "min-delay"@ && s@ != "no-delay"@ && s@ != "wait-for-all"@) ==> r is Err,
    {
        proof {
            reveal_strlit("min-delay");
            assert("min-delay"@ =~= seq!['m', 'i', 'n', '-', 'd', 'e', 'l', 'a', 'y']);
            reveal_strlit("no-delay");
            assert("no-delay"@ =~= seq!['n', 'o', '-', 'd', 'e', 'l', 'a', 'y']);
            reveal_strlit("wait-for-all");
            assert("wait-for-all"@ =~= seq!['w', 'a', 'i', 't', '-', 'f', 'o', 'r', '-', 'a', 'l', 'l']);
        }
        if crate::order::str_is(s, "min-delay") {
            Ok(Self::MinDelay)
        } else if crate::order::str_is(s, "no-delay") {
            Ok(Self::NoDelay)
        } else if crate::order::str_is(s, "wait-for-all") {
            Ok(Self::WaitForAll)
        } else {
            Err(ConversionError::new(String::from_str("invalid value")))
        }
    }
}

/// One of the two beams driving a Rydberg transition.
#[derive(Clone, Copy, Debug, PartialEq, Eq, Structural, Hash)]
pub enum RydbergBeam {
    /// `"RED"` on the wire.
    Red,
    /// `"BLUE"` on the wire.
    Blue,
}

impl RydbergBeam {
    /// The wire spelling of each alternative.
    pub open spec fn spec_name(self) -> Seq<char> {
        match self {
            Self::Red => "RED"@,
            Self::Blue => "BLUE"@,
        }
    }

    /// The wire spelling, as a fresh string.
    pub fn to_string(&self) -> (r: String)
        ensures
            r@ == self.spec_name(),
    {
        match *self {
            Self::Red => String::from_str("RED"),
            Self::Blue => String::from_str("BLUE"),
        }
    }

    /// Reads a wire spelling back; anything else is rejected.
    pub fn from_str(s: &str) -> (r: Result<Self, ConversionError>)
        ensures
            s@ == "RED"@ ==> r == Ok::<Self, ConversionError>(Self::Red),
            s@ == "BLUE"@ ==> r == Ok::<Self, ConversionError>(Self::Blue),
            (s@ != "RED"@ && s@ != "BLUE"@) ==> r is Err,
    {
        proof {
            reveal_strlit("RED");
            assert("RED"@ =~= seq!['R', 'E', 'D']);
            reveal_strlit("BLUE");
            assert("BLUE"@ =~= seq!['B', 'L', 'U', 'E']);
        }
        if crate::order::str_is(s, "RED") {
            Ok(Self::Red)
        } else if crate::order::str_is(s, "BLUE") {
            Ok(Self::Blue)
        } else {
            Err(ConversionError::new(String::from_str("invalid value")))
        }
    }
}

/// The name of a declared variable.
#[derive(Clone, Debug, PartialEq, Eq, Hash)]
pub struct VariableName(pub String);

impl View for VariableName {
    type V = Seq<char>;

    open spec fn view(&self) -> Seq<char> {
        self.0@
    }
}

/// The type of a declared variable.
#[derive(Clone, Copy, Debug, PartialEq, Eq, Structural, Hash)]
pub enum VariableType {
    /// `"int"` on the wire.
    Int,
    /// `"float"` on the wire.
    Float,
}

impl VariableType {
    /// The wire spelling of each alternative.
    pub open spec fn spec_name(self) -> Seq<char> {
        match self {
            Self::Int => "int"@,
            Self::Float => "float"@,
        }
    }

    /// The wire spelling, as a fresh string.
    pub fn to_string(&self) -> (r: String)
        ensures
            r@ == self.spec_name(),
    {
        match *self {
            Self::Int => String::from_str("int"),
            Self::Float => String::from_str("float"),
        }
    }

    /// Reads a wire spelling back; anything else is rejected.
    pub fn from_str(s: &str) -> (r: Result<Self, ConversionError>)
        ensures
            s@ == "int"@ ==> r == Ok::<Self, ConversionError>(Self::Int),
            s@ == "float"@ ==> r == Ok::<Self, ConversionError>(Self::Float),
            (s@ != "int"@ && s@ != "float"@) ==> r is Err,
    {
        proof {
            reveal_strlit("int");
            assert("int"@ =~= seq!['i', 'n', 't']);
            reveal_strlit("float");
            assert("float"@ =~= seq!['f', 'l', 'o', 'a', 't']);
        }
        if crate::order::str_is(s, "int") {
            Ok(Self::Int)
        } else if crate::order::str_is(s, "float") {
            Ok(Self::Float)
        } else {
            Err(ConversionError::new(String::from_str("invalid value")))
        }
    }
}

/// Aligns multiple channels in time: introduces the delays that make the
/// named channels wait for the one that finished latest.
#[derive(Clone, Debug)]
pub struct OpAlign {
    /// The channels to align.
    pub channels: Vec<ChannelName>,
    /// The operation tag, `"align"` on the wire.
    pub op: String,
}

impl OpAlign {
    /// A builder collecting this operation's fields.
    pub fn builder() -> (r: builder::OpAlign)
        ensures
            r.spec_channels() is Err,
            r.spec_op() is Err,
    {
        builder::OpAlign::empty()
    }
}

/// Configures a detuning-map modulator as an SLM mask over some qubits.
#[derive(Clone, Debug)]
pub struct OpConfigSlm {
    /// The ID of the DMM channel to use for the mask.
    pub dmm_id: ChannelId,
    /// The operation tag, `"config_slm_mask"` on the wire.
    pub op: String,
    /// The qubits to mask during the first global pulse.
    pub qubits: Vec<QubitId>,
}

impl OpConfigSlm {
    /// A builder collecting this operation's fields.
    pub fn builder() -> (r: builder::OpConfigSlm)
        ensures
            r.spec_dmm_id() is Err,
            r.spec_op() is Err,
            r.spec_qubits() is Err,
    {
        builder::OpConfigSlm::empty()
    }
}

/// Takes a channel out of EOM mode.
#[derive(Clone, Debug)]
pub struct OpDisableEom {
    /// The channel to take out of EOM mode.
    pub channel: ChannelName,
    /// Whether to correct the phase drift accumulated in EOM mode.
    pub correct_phase_drift: Option<bool>,
    /// The operation tag, `"disable_eom_mode"` on the wire.
    pub op: String,
}

impl OpDisableEom {
    /// A builder collecting this operation's fields.
    pub fn builder() -> (r: builder::OpDisableEom)
        ensures
            r.spec_channel() is Err,
            r.spec_correct_phase_drift() == Ok::<Option<bool>, String>(None),
            r.spec_op() is Err,
    {
        builder::OpDisableEom::empty()
    }
}

/// References a declared variable by name.
#[derive(Clone, Debug)]
pub struct VariableRef {
    /// The variable's name; it must reference a declared variable.
    pub variable: VariableName,
}

impl VariableRef {
    /// A builder collecting this reference's field.
    pub fn builder() -> (r: builder::VariableRef)
        ensures
            r.spec_variable() is Err,
    {
        builder::VariableRef::empty()
    }
}

} // verus!

pub mod builder;
