//! Builders for the sequence operations the compiler emits.
//!
//! A builder starts with every required field unset and records one error
//! message per missing field; building succeeds exactly when every required
//! field was supplied.

use vstd::prelude::*;

verus! {

use crate::pulser::error::ConversionError;
use vstd::string::StringExecFns;

/// Collects the fields of [`super::OpAlign`].
#[derive(Debug)]
pub struct OpAlign {
    channels: Result<Vec<super::ChannelName>, String>,
    op: Result<String, String>,
}

impl OpAlign {
    /// The recorded `channels` field, in specifications.
    pub closed spec fn spec_channels(self) -> Result<Vec<super::ChannelName>, String> {
        self.channels
    }
    /// The recorded `op` field, in specifications.
    pub closed spec fn spec_op(self) -> Result<String, String> {
        self.op
    }

    /// A builder with every required field still missing.
    pub fn empty() -> (r: Self)
        ensures
            r.spec_channels() is Err,
            r.spec_op() is Err,
    {
        Self {
            channels: Err(String::from_str("no value supplied for channels")),
            op: Err(String::from_str("no value supplied for op")),
        }
    }

    /// Supplies the `channels` field.
    pub fn channels(self, value: Vec<super::ChannelName>) -> (r: Self)
        ensures
            r.spec_channels() == Ok::<Vec<super::ChannelName>, String>(value),
            r.spec_op() == self.spec_op(),
    {
        Self { channels: Ok(value), ..self }
    }
    /// Supplies the `op` field.
    pub fn op(self, value: String) -> (r: Self)
        ensures
            r.spec_op() == Ok::<String, String>(value),
            r.spec_channels() == self.spec_channels(),
    {
        Self { op: Ok(value), ..self }
    }

    /// The assembled operation; fails when a required field was never
    /// supplied.
    pub fn build(self) -> (r: Result<super::OpAlign, ConversionError>)
        ensures
            r is Ok <==> (self.spec_channels() is Ok && self.spec_op() is Ok),
            r matches Ok(v) ==> {
                &&& Ok::<Vec<super::ChannelName>, String>(v.channels) == self.spec_channels()
                &&& Ok::<String, String>(v.op) == self.spec_op()
            },
            (self.spec_channels() is Err) ==> (r matches Err(e)
                && e.spec_message() == self.spec_channels()->Err_0@),
            (self.spec_channels() is Ok && self.spec_op() is Err) ==> (r matches Err(e)
                && e.spec_message() == self.spec_op()->Err_0@),
    {
        let channels = match self.channels {
            Ok(value) => value,
            Err(message) => {
                return Err(ConversionError::new(message));
            },
        };
        let op = match self.op {
            Ok(value) => value,
            Err(message) => {
                return Err(ConversionError::new(message));
            },
        };
        Ok(super::OpAlign { channels, op })
    }
}

/// Collects the fields of [`super::OpConfigSlm`].
#[derive(Debug)]
pub struct OpConfigSlm {
    dmm_id: Result<super::ChannelId, String>,
    op: Result<String, String>,
    qubits: Result<Vec<crate::pulser::register_schema::QubitId>, String>,
}

impl OpConfigSlm {
    /// The recorded `dmm_id` field, in specifications.
    pub closed spec fn spec_dmm_id(self) -> Result<super::ChannelId, String> {
        self.dmm_id
    }
    /// The recorded `op` field, in specifications.
    pub closed spec fn spec_op(self) -> Result<String, String> {
        self.op
    }
    /// The recorded `qubits` field, in specifications.
    pub closed spec fn spec_qubits(self) -> Result<Vec<crate::pulser::register_schema::QubitId>, String> {
        self.qubits
    }

    /// A builder with every required field still missing.
    pub fn empty() -> (r: Self)
        ensures
            r.spec_dmm_id() is Err,
            r.spec_op() is Err,
            r.spec_qubits() is Err,
    {
        Self {
            dmm_id: Err(String::from_str("no value supplied for dmm_id")),
            op: Err(String::from_str("no value supplied for op")),
            qubits: Err(String::from_str("no value supplied for qubits")),
        }
    }

    /// Supplies the `dmm_id` field.
    pub fn dmm_id(self, value: super::ChannelId) -> (r: Self)
        ensures
            r.spec_dmm_id() == Ok::<super::ChannelId, String>(value),
            r.spec_op() == self.spec_op(),
            r.spec_qubits() == self.spec_qubits(),
    {
        Self { dmm_id: Ok(value), ..self }
    }
    /// Supplies the `op` field.
    pub fn op(self, value: String) -> (r: Self)
        ensures
            r.spec_op() == Ok::<String, String>(value),
            r.spec_dmm_id() == self.spec_dmm_id(),
            r.spec_qubits() == self.spec_qubits(),
    {
        Self { op: Ok(value), ..self }
    }
    /// Supplies the `qubits` field.
    pub fn qubits(self, value: Vec<crate::pulser::register_schema::QubitId>) -> (r: Self)
        ensures
            r.spec_qubits() == Ok::<Vec<crate::pulser::register_schema::QubitId>, String>(value),
            r.spec_dmm_id() == self.spec_dmm_id(),
            r.spec_op() == self.spec_op(),
    {
        Self { qubits: Ok(value), ..self }
    }

    /// The assembled operation; fails when a required field was never
    /// supplied.
    pub fn build(self) -> (r: Result<super::OpConfigSlm, ConversionError>)
        ensures
            r is Ok <==> (self.spec_dmm_id() is Ok && self.spec_op() is Ok && self.spec_qubits() is Ok),
            r matches Ok(v) ==> {
                &&& Ok::<super::ChannelId, String>(v.dmm_id) == self.spec_dmm_id()
                &&& Ok::<String, String>(v.op) == self.spec_op()
                &&& Ok::<Vec<crate::pulser::register_schema::QubitId>, String>(v.qubits) == self.spec_qubits()
            },
            (self.spec_dmm_id() is Err) ==> (r matches Err(e)
                && e.spec_message() == self.spec_dmm_id()->Err_0@),
            (self.spec_dmm_id() is Ok && self.spec_op() is Err) ==> (r matches Err(e)
                && e.spec_message() == self.spec_op()->Err_0@),
            (self.spec_dmm_id() is Ok && self.spec_op() is Ok && self.spec_qubits() is Err) ==> (r matches Err(e)
                && e.spec_message() == self.spec_qubits()->Err_0@),
    {
        let dmm_id = match self.dmm_id {
            Ok(value) => value,
            Err(message) => {
                return Err(ConversionError::new(message));
            },
        };
        let op = match self.op {
            Ok(value) => value,
            Err(message) => {
                return Err(ConversionError::new(message));
            },
        };
        let qubits = match self.qubits {
            Ok(value) => value,
            Err(message) => {
                return Err(ConversionError::new(message));
            },
        };
        Ok(super::OpConfigSlm { dmm_id, op, qubits })
    }
}

/// Collects the fields of [`super::OpDisableEom`].
#[derive(Debug)]
pub struct OpDisableEom {
    channel: Result<super::ChannelName, String>,
    correct_phase_drift: Result<Option<bool>, String>,
    op: Result<String, String>,
}

impl OpDisableEom {
    /// The recorded `channel` field, in specifications.
    pub closed spec fn spec_channel(self) -> Result<super::ChannelName, String> {
        self.channel
    }
    /// The recorded `correct_phase_drift` field, in specifications.
    pub closed spec fn spec_correct_phase_drift(self) -> Result<Option<bool>, String> {
        self.correct_phase_drift
    }
    /// The recorded `op` field, in specifications.
    pub closed spec fn spec_op(self) -> Result<String, String> {
        self.op
    }

    /// A builder with every required field still missing.
    pub fn empty() -> (r: Self)
        ensures
            r.spec_channel() is Err,
            r.spec_correct_phase_drift() == Ok::<Option<bool>, String>(None),
            r.spec_op() is Err,
    {
        Self {
            channel: Err(String::from_str("no value supplied for channel")),
            correct_phase_drift: Ok(None),
            op: Err(String::from_str("no value supplied for op")),
        }
    }

    /// Supplies the `channel` field.
    pub fn channel(self, value: super::ChannelName) -> (r: Self)
        ensures
            r.spec_channel() == Ok::<super::ChannelName, String>(value),
            r.spec_correct_phase_drift() == self.spec_correct_phase_drift(),
            r.spec_op() == self.spec_op(),
    {
        Self { channel: Ok(value), ..self }
    }
    /// Supplies the `correct_phase_drift` field.
    pub fn correct_phase_drift(self, value: Option<bool>) -> (r: Self)
        ensures
            r.spec_correct_phase_drift() == Ok::<Option<bool>, String>(value),
            r.spec_channel() == self.spec_channel(),
            r.spec_op() == self.spec_op(),
    {
        Self { correct_phase_drift: Ok(value), ..self }
    }
    /// Supplies the `op` field.
    pub fn op(self, value: String) -> (r: Self)
        ensures
            r.spec_op() == Ok::<String, String>(value),
            r.spec_channel() == self.spec_channel(),
            r.spec_correct_phase_drift() == self.spec_correct_phase_drift(),
    {
        Self { op: Ok(value), ..self }
    }

    /// The assembled operation; fails when a required field was never
    /// supplied.
    pub fn build(self) -> (r: Result<super::OpDisableEom, ConversionError>)
        ensures
            r is Ok <==> (self.spec_channel() is Ok && self.spec_correct_phase_drift() is Ok && self.spec_op() is Ok),
            r matches Ok(v) ==> {
                &&& Ok::<super::ChannelName, String>(v.channel) == self.spec_channel()
                &&& Ok::<Option<bool>, String>(v.correct_phase_drift) == self.spec_correct_phase_drift()
                &&& Ok::<String, String>(v.op) == self.spec_op()
            },
            (self.spec_channel() is Err) ==> (r matches Err(e)
                && e.spec_message() == self.spec_channel()->Err_0@),
            (self.spec_channel() is Ok && self.spec_correct_phase_drift() is Err) ==> (r matches Err(e)
                && e.spec_message() == self.spec_correct_phase_drift()->Err_0@),
            (self.spec_channel() is Ok && self.spec_correct_phase_drift() is Ok && self.spec_op() is Err) ==> (r matches Err(e)
                && e.spec_message() == self.spec_op()->Err_0@),
    {
        let channel = match self.channel {
            Ok(value) => value,
            Err(message) => {
                return Err(ConversionError::new(message));
            },
        };
        let correct_phase_drift = match self.correct_phase_drift {
            Ok(value) => value,
            Err(message) => {
                return Err(ConversionError::new(message));
            },
        };
        let op = match self.op {
            Ok(value) => value,
            Err(message) => {
                return Err(ConversionError::new(message));
            },
        };
        Ok(super::OpDisableEom { channel, correct_phase_drift, op })
    }
}

/// Collects the fields of [`super::VariableRef`].
#[derive(Debug)]
pub struct VariableRef {
    variable: Result<super::VariableName, String>,
}

impl VariableRef {
    /// The recorded `variable` field, in specifications.
    pub closed spec fn spec_variable(self) -> Result<super::VariableName, String> {
        self.variable
    }

    /// A builder with every required field still missing.
    pub fn empty() -> (r: Self)
        ensures
            r.spec_variable() is Err,
    {
        Self {
            variable: Err(String::from_str("no value supplied for variable")),
        }
    }

    /// Supplies the `variable` field.
    pub fn variable(self, value: super::VariableName) -> (r: Self)
        ensures
            r.spec_variable() == Ok::<super::VariableName, String>(value),

    {
        Self { variable: Ok(value), ..self }
    }

    /// The assembled operation; fails when a required field was never
    /// supplied.
    pub fn build(self) -> (r: Result<super::VariableRef, ConversionError>)
        ensures
            r is Ok <==> (self.spec_variable() is Ok),
            r matches Ok(v) ==> {
                &&& Ok::<super::VariableName, String>(v.variable) == self.spec_variable()
            },
            (self.spec_variable() is Err) ==> (r matches Err(e)
                && e.spec_message() == self.spec_variable()->Err_0@),
    {
        let variable = match self.variable {
            Ok(value) => value,
            Err(message) => {
                return Err(ConversionError::new(message));
            },
        };
        Ok(super::VariableRef { variable })
    }
}

} // verus!
