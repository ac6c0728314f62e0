use qlafoutea::pulser::sequence_schema::{
    Basis, ChannelId, ChannelName, ExprBinaryExpression, ExprUnaryExpression, HardcodedDevice,
    OpAddDmmDetProtocol, OpAlign, OpConfigSlm, OpDisableEom, OpEomPulseProtocol, OpPulseProtocol,
    RydbergBeam, VariableName, VariableRef, VariableType,
};
use qlafoutea::pulser::register_schema::QubitId;
use qlafoutea::runtime::Sample;
use qlafoutea::text::int_string;
use qlafoutea::units::{Micrometers, Value};

#[test]
fn basis_round_trips() {
    for basis in [Basis::GroundRydberg, Basis::Digital, Basis::Xy] {
        assert_eq!(Basis::from_str(basis.to_string().as_str()).unwrap(), basis);
    }
    assert_eq!(Basis::GroundRydberg.to_string(), "ground-rydberg");
    assert!(Basis::from_str("sideways").is_err());
}

#[test]
fn beams_and_protocols_round_trip() {
    assert_eq!(RydbergBeam::Red.to_string(), "RED");
    assert_eq!(RydbergBeam::from_str("BLUE").unwrap(), RydbergBeam::Blue);
    assert_eq!(
        qlafoutea::pulser::device_schema::RydbergBeam::from_str("RED").unwrap(),
        qlafoutea::pulser::device_schema::RydbergBeam::Red
    );
    assert_eq!(OpPulseProtocol::MinDelay.to_string(), "min-delay");
    assert_eq!(
        OpPulseProtocol::from_str("wait-for-all").unwrap(),
        OpPulseProtocol::WaitForAll
    );
    assert_eq!(
        OpEomPulseProtocol::from_str("no-delay").unwrap(),
        OpEomPulseProtocol::NoDelay
    );
    assert_eq!(
        OpAddDmmDetProtocol::from_str("min-delay").unwrap(),
        OpAddDmmDetProtocol::MinDelay
    );
    assert!(OpPulseProtocol::from_str("eventually").is_err());
}

#[test]
fn expressions_and_devices_round_trip() {
    assert_eq!(ExprBinaryExpression::from_str("pow").unwrap(), ExprBinaryExpression::Pow);
    assert_eq!(ExprBinaryExpression::Index.to_string(), "index");
    assert_eq!(ExprUnaryExpression::from_str("sqrt").unwrap(), ExprUnaryExpression::Sqrt);
    assert_eq!(ExprUnaryExpression::Log2.to_string(), "log2");
    assert_eq!(HardcodedDevice::from_str("IroiseMVP").unwrap(), HardcodedDevice::IroiseMvp);
    assert_eq!(HardcodedDevice::Chadoq2.to_string(), "Chadoq2");
    assert_eq!(VariableType::from_str("float").unwrap(), VariableType::Float);
    assert_eq!(VariableType::Int.to_string(), "int");
}

#[test]
fn op_align_builds_from_its_fields() {
    let op = OpAlign::builder()
        .channels(vec![ChannelName("global".to_string())])
        .op("align".to_string())
        .build()
        .unwrap();
    assert_eq!(op.channels.len(), 1);
    assert_eq!(op.channels[0].0, "global");
    assert_eq!(op.op, "align");
}

#[test]
fn builders_reject_missing_fields() {
    assert!(OpAlign::builder().op("align".to_string()).build().is_err());
    assert!(OpConfigSlm::builder().build().is_err());
    let err = VariableRef::builder().build().unwrap_err();
    assert_eq!(err.message().as_str(), "no value supplied for variable");
}

#[test]
fn op_config_slm_builds_from_its_fields() {
    let op = OpConfigSlm::builder()
        .dmm_id(ChannelId("dmm_0".to_string()))
        .op("config_slm_mask".to_string())
        .qubits(vec![QubitId("q0".to_string()), QubitId("q1".to_string())])
        .build()
        .unwrap();
    assert_eq!(op.dmm_id.0, "dmm_0");
    assert_eq!(op.qubits.len(), 2);
}

#[test]
fn op_disable_eom_defaults_its_option() {
    let op = OpDisableEom::builder()
        .channel(ChannelName("ising".to_string()))
        .op("disable_eom_mode".to_string())
        .build()
        .unwrap();
    assert_eq!(op.correct_phase_drift, None);
    let op = OpDisableEom::builder()
        .channel(ChannelName("ising".to_string()))
        .correct_phase_drift(Some(true))
        .op("disable_eom_mode".to_string())
        .build()
        .unwrap();
    assert_eq!(op.correct_phase_drift, Some(true));
}

#[test]
fn variable_ref_builds() {
    let r = VariableRef::builder()
        .variable(VariableName("t_rise".to_string()))
        .build()
        .unwrap();
    assert_eq!(r.variable.0, "t_rise");
}

#[test]
fn samples_read_their_bits() {
    let sample = Sample { bitstring: "0110".to_string(), instances: 12 };
    assert_eq!(sample.bits(), vec![false, true, true, false]);
}

#[test]
fn integers_render_in_decimal() {
    assert_eq!(int_string(0), "0");
    assert_eq!(int_string(42), "42");
    assert_eq!(int_string(-7), "-7");
    assert_eq!(int_string(-120), "-120");
    assert_eq!(int_string(i64::MIN), "-9223372036854775808");
}

#[test]
fn unit_values_square_into_the_squared_unit() {
    let d: Value<Micrometers> = Value::new(-3);
    assert_eq!(d.into_inner(), -3);
    assert_eq!(d.sq().into_inner(), 9);
}
