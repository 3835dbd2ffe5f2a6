use gurobi::{ConstrSense, RelaxType, SOSType, Status, VarType};

#[test]
fn var_type_codes() {
    assert_eq!(VarType::Binary.code(), b'B');
    assert_eq!(VarType::Continuous.code(), b'C');
    assert_eq!(VarType::Integer.code(), b'I');
}

#[test]
fn constr_sense_codes() {
    assert_eq!(ConstrSense::Equal.code(), b'=');
    assert_eq!(ConstrSense::Less.code(), b'<');
    assert_eq!(ConstrSense::Greater.code(), b'>');
}

#[test]
fn sos_and_relax_codes() {
    assert_eq!(SOSType::SOSType1.code(), 1);
    assert_eq!(SOSType::SOSType2.code(), 2);
    assert_eq!(RelaxType::Linear.code(), 0);
    assert_eq!(RelaxType::Quadratic.code(), 1);
    assert_eq!(RelaxType::Cardinality.code(), 2);
}

#[test]
fn status_from_code() {
    assert_eq!(Status::from_code(1), Some(Status::Loaded));
    assert_eq!(Status::from_code(2), Some(Status::Optimal));
    assert_eq!(Status::from_code(11), Some(Status::Interrupted));
    assert_eq!(Status::from_code(14), Some(Status::InProgress));
    assert_eq!(Status::from_code(0), None);
    assert_eq!(Status::from_code(15), None);
}
