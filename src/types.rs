use vstd::prelude::*;

verus! {

/// Type of a new variable.
#[derive(Debug, Clone, Copy, PartialEq, Eq, Structural)]
pub enum VarType {
    Binary,
    Continuous,
    Integer,
}

impl VarType {
    /// The engine's character code: `B`, `C` or `I`.
    pub open spec fn spec_code(self) -> u8 {
        match self {
            VarType::Binary => 66u8,
            VarType::Continuous => 67u8,
            VarType::Integer => 73u8,
        }
    }

    /// The engine's character code: `B`, `C` or `I`.
    pub fn code(self) -> (r: u8)
        ensures
            r == self.spec_code(),
    {
        match self {
            VarType::Binary => 'B' as u8,
            VarType::Continuous => 'C' as u8,
            VarType::Integer => 'I' as u8,
        }
    }
}

/// Sense of a new linear or quadratic constraint.
#[derive(Debug, Clone, Copy, PartialEq, Eq, Structural)]
pub enum ConstrSense {
    Equal,
    Greater,
    Less,
}

impl ConstrSense {
    /// The engine's character code: `=`, `>` or `<`.
    pub open spec fn spec_code(self) -> u8 {
        match self {
            ConstrSense::Equal => 61u8,
            ConstrSense::Greater => 62u8,
            ConstrSense::Less => 60u8,
        }
    }

    /// The engine's character code: `=`, `>` or `<`.
    pub fn code(self) -> (r: u8)
        ensures
            r == self.spec_code(),
    {
        match self {
            ConstrSense::Equal => '=' as u8,
            ConstrSense::Greater => '>' as u8,
            ConstrSense::Less => '<' as u8,
        }
    }
}

/// Sense of the objective function.
#[derive(Debug, Clone, Copy, PartialEq, Eq, Structural)]
pub enum ModelSense {
    Minimize,
    Maximize,
}

impl ModelSense {
    /// The engine's code: `1` to minimize, `-1` to maximize.
    pub open spec fn spec_code(self) -> i32 {
        match self {
            ModelSense::Minimize => 1i32,
            ModelSense::Maximize => -1i32,
        }
    }
}

impl From<ModelSense> for i32 {
    fn from(sense: ModelSense) -> (r: i32) {
        match sense {
            ModelSense::Minimize => 1,
            ModelSense::Maximize => -1,
        }
    }
}

impl vstd::std_specs::convert::FromSpecImpl<ModelSense> for i32 {
    open spec fn obeys_from_spec() -> bool {
        true
    }

    open spec fn from_spec(sense: ModelSense) -> i32 {
        sense.spec_code()
    }
}

/// Type of a new SOS constraint.
#[derive(Debug, Clone, Copy, PartialEq, Eq, Structural)]
pub enum SOSType {
    SOSType1,
    SOSType2,
}

impl SOSType {
    pub open spec fn spec_code(self) -> i32 {
        match self {
            SOSType::SOSType1 => 1i32,
            SOSType::SOSType2 => 2i32,
        }
    }

    /// The engine's code: `1` or `2`.
    pub fn code(self) -> (r: i32)
        ensures
            r == self.spec_code(),
    {
        match self {
            SOSType::SOSType1 => 1,
            SOSType::SOSType2 => 2,
        }
    }
}

/// Optimization status of a model.
#[derive(Debug, Clone, Copy, PartialEq, Eq, Structural)]
pub enum Status {
    Loaded,
    Optimal,
    Infeasible,
    InfOrUnbd,
    Unbounded,
    CutOff,
    IterationLimit,
    NodeLimit,
    TimeLimit,
    SolutionLimit,
    Interrupted,
    Numeric,
    SubOptimal,
    InProgress,
}

impl Status {
    /// The engine's code, `1` to `14` in declaration order.
    pub open spec fn spec_code(self) -> i32 {
        match self {
            Status::Loaded => 1i32,
            Status::Optimal => 2i32,
            Status::Infeasible => 3i32,
            Status::InfOrUnbd => 4i32,
            Status::Unbounded => 5i32,
            Status::CutOff => 6i32,
            Status::IterationLimit => 7i32,
            Status::NodeLimit => 8i32,
            Status::TimeLimit => 9i32,
            Status::SolutionLimit => 10i32,
            Status::Interrupted => 11i32,
            Status::Numeric => 12i32,
            Status::SubOptimal => 13i32,
            Status::InProgress => 14i32,
        }
    }

    /// The status of an engine code; `None` for a code outside `1..=14`.
    pub fn from_code(code: i32) -> (r: Option<Status>)
        ensures
            r.is_some() <==> 1 <= code <= 14,
            r matches Some(s) ==> s.spec_code() == code,
    {
        match code {
            1 => Some(Status::Loaded),
            2 => Some(Status::Optimal),
            3 => Some(Status::Infeasible),
            4 => Some(Status::InfOrUnbd),
            5 => Some(Status::Unbounded),
            6 => Some(Status::CutOff),
            7 => Some(Status::IterationLimit),
            8 => Some(Status::NodeLimit),
            9 => Some(Status::TimeLimit),
            10 => Some(Status::SolutionLimit),
            11 => Some(Status::Interrupted),
            12 => Some(Status::Numeric),
            13 => Some(Status::SubOptimal),
            14 => Some(Status::InProgress),
            _ => None,
        }
    }
}

/// Cost function of a feasibility relaxation.
#[derive(Debug, Clone, Copy, PartialEq, Eq, Structural)]
pub enum RelaxType {
    /// The weighted magnitude of the bound and constraint violations.
    Linear,
    /// The weighted square of the magnitude of the violations.
    Quadratic,
    /// The weighted count of the violations.
    Cardinality,
}

impl RelaxType {
    pub open spec fn spec_code(self) -> i32 {
        match self {
            RelaxType::Linear => 0i32,
            RelaxType::Quadratic => 1i32,
            RelaxType::Cardinality => 2i32,
        }
    }

    /// The engine's code: `0`, `1` or `2`.
    pub fn code(self) -> (r: i32)
        ensures
            r == self.spec_code(),
    {
        match self {
            RelaxType::Linear => 0,
            RelaxType::Quadratic => 1,
            RelaxType::Cardinality => 2,
        }
    }
}

} // verus!
