//! Structured launch failures, their human-readable debug renderings, and
//! the uniform tuning-failure report an external autotuning search consumes.

use vstd::prelude::*;
use vstd::string::StringExecFns;
use crate::tiling2d::CubeCount;

verus! {

/// A tiling configuration rejected before any classification,
/// normalization or dispatch happened.
#[derive(Debug, PartialEq, Eq, Clone, Copy, Structural)]
pub enum InvalidConfigError {
    /// The configuration would overrun on-chip shared memory: the product
    /// of the three factors exceeds the hardware maximum.
    SharedMemoryLimitExceeded {
        elem_size: usize,
        block_size_k: usize,
        block_size_max_mn: usize,
        max_shared_memory_size: usize,
    },
}

/// Why a matmul kernel cannot run on the present hardware.
#[derive(Debug, PartialEq, Eq, Clone, Copy, Structural)]
pub enum MatmulAvailabilityError {
    /// The execution grid the plan asks for, which some axis of exceeds
    /// the hardware's per-axis maximum.
    CubeCountTooBig(CubeCount),
}

/// A structured failure of the tiled matmul launch planner.
#[derive(Debug, PartialEq, Eq, Clone, Copy, Structural)]
pub enum MatmulLaunchError {
    Unavailable(MatmulAvailabilityError),
    InvalidConfig(InvalidConfigError),
}

/// A structured failure of a grouped convolution lowered onto matmul.
#[derive(Debug, PartialEq, Eq, Clone, Copy)]
pub enum ConvLaunchError {
    /// A wrapped matmul launch failure.
    Matmul(MatmulLaunchError),
    /// Convolution groups must equal one; carries the actual count.
    Groups(usize),
    /// The execution grid is larger than the hardware supports.
    CubeCountTooLarge,
    /// An uncategorized failure.
    Unknown,
}

/// The single generic tuning-failure report: every structured launch error
/// collapses to its string rendering so the autotuning search has one
/// uniform reporting channel.
#[derive(Debug, PartialEq, Eq, Clone)]
pub enum AutotuneError {
    Unknown(String),
}

/// The decimal digit character for a value below ten.
pub open spec fn spec_digit(d: int) -> char {
    (48 + d) as char
}

/// The decimal rendering of a natural number, most significant digit first.
pub open spec fn spec_decimal(v: nat) -> Seq<char>
    decreases v,
{
    if v < 10 {
        seq![spec_digit(v as int)]
    } else {
        spec_decimal(v / 10).push(spec_digit((v % 10) as int))
    }
}

/// Relies on std's `Display` for `usize`: the rendering is the decimal
/// digits of the value, most significant digit first, with no sign and
/// no leading zeros.
#[verifier::external_body]
fn decimal(v: usize) -> (r: String)
    ensures
        r@ == spec_decimal(v as nat),
{
    format!("{}", v)
}

impl CubeCount {
    /// The debug rendering of a grid: its three static extents, or the
    /// word `dynamic` for a grid sized at run time.
    pub open spec fn spec_debug(self) -> Seq<char> {
        match self {
            CubeCount::Static(x, y, z) => "("@ + spec_decimal(x as nat) + ", "@ + spec_decimal(
                y as nat,
            ) + ", "@ + spec_decimal(z as nat) + ")"@,
            CubeCount::Dynamic => "dynamic"@,
        }
    }

    /// Render the grid for humans.
    pub fn debug_string(&self) -> (r: String)
        ensures
            r@ == self.spec_debug(),
    {
        match self {
            CubeCount::Static(x, y, z) => {
                let mut s = String::from_str("(");
                s.append(decimal(*x as usize).as_str());
                s.append(", ");
                s.append(decimal(*y as usize).as_str());
                s.append(", ");
                s.append(decimal(*z as usize).as_str());
                s.append(")");
                proof {
                    assert(s@ =~= self.spec_debug());
                }
                s
            },
            CubeCount::Dynamic => String::from_str("dynamic"),
        }
    }
}

impl MatmulAvailabilityError {
    /// The debug rendering of an availability failure.
    pub open spec fn spec_debug(self) -> Seq<char> {
        match self {
            MatmulAvailabilityError::CubeCountTooBig(count) => "The cube count is larger than the max supported: "@
                + count.spec_debug(),
        }
    }

    /// Render the failure for humans.
    pub fn debug_string(&self) -> (r: String)
        ensures
            r@ == self.spec_debug(),
    {
        match self {
            MatmulAvailabilityError::CubeCountTooBig(count) => {
                let mut s = String::from_str("The cube count is larger than the max supported: ");
                s.append(count.debug_string().as_str());
                s
            },
        }
    }
}

impl MatmulLaunchError {
    /// The debug rendering of a matmul launch failure.
    pub open spec fn spec_debug(self) -> Seq<char> {
        match self {
            MatmulLaunchError::Unavailable(err) => "Unable to launch matmul because a required feature is unavailable: "@
                + err.spec_debug(),
            MatmulLaunchError::InvalidConfig(_) => "Unable to launch matmul because the config is invalid: Shared memory limit will be busted. "@,
        }
    }

    /// Render the failure for humans.
    pub fn debug_string(&self) -> (r: String)
        ensures
            r@ == self.spec_debug(),
    {
        match self {
            MatmulLaunchError::Unavailable(err) => {
                let mut s = String::from_str(
                    "Unable to launch matmul because a required feature is unavailable: ",
                );
                s.append(err.debug_string().as_str());
                s
            },
            MatmulLaunchError::InvalidConfig(_) => String::from_str(
                "Unable to launch matmul because the config is invalid: Shared memory limit will be busted. ",
            ),
        }
    }
}

impl ConvLaunchError {
    /// The debug rendering of a convolution launch failure.
    pub open spec fn spec_debug(self) -> Seq<char> {
        match self {
            ConvLaunchError::Matmul(err) => err.spec_debug(),
            ConvLaunchError::Groups(groups) => "Unable to launch matmul because groups must be one, is actually "@
                + spec_decimal(groups as nat) + "\n"@,
            ConvLaunchError::CubeCountTooLarge => "The cube count is larger than the max supported."@,
            ConvLaunchError::Unknown => "Unknown"@,
        }
    }

    /// Render the failure for humans.
    pub fn debug_string(&self) -> (r: String)
        ensures
            r@ == self.spec_debug(),
    {
        match self {
            ConvLaunchError::Matmul(err) => err.debug_string(),
            ConvLaunchError::Groups(groups) => {
                let mut s = String::from_str(
                    "Unable to launch matmul because groups must be one, is actually ",
                );
                s.append(decimal(*groups).as_str());
                s.append("\n");
                proof {
                    assert(s@ =~= self.spec_debug());
                }
                s
            },
            ConvLaunchError::CubeCountTooLarge => String::from_str(
                "The cube count is larger than the max supported.",
            ),
            ConvLaunchError::Unknown => String::from_str("Unknown"),
        }
    }

    /// Collapse the structured failure into the uniform tuning-failure
    /// report: its debug rendering, losslessly carried as a string.
    pub fn into_tune_error(self) -> (r: AutotuneError)
        ensures
            r matches AutotuneError::Unknown(s) && s@ == self.spec_debug(),
    {
        AutotuneError::Unknown(self.debug_string())
    }
}

impl From<MatmulLaunchError> for ConvLaunchError {
    /// A matmul launch failure wraps unchanged.
    fn from(value: MatmulLaunchError) -> (r: Self) {
        ConvLaunchError::Matmul(value)
    }
}

impl vstd::std_specs::convert::FromSpecImpl<MatmulLaunchError> for ConvLaunchError {
    open spec fn obeys_from_spec() -> bool {
        true
    }

    open spec fn from_spec(value: MatmulLaunchError) -> Self {
        ConvLaunchError::Matmul(value)
    }
}

impl From<MatmulAvailabilityError> for ConvLaunchError {
    /// An availability failure wraps as an unavailable matmul launch.
    fn from(value: MatmulAvailabilityError) -> (r: Self) {
        ConvLaunchError::Matmul(MatmulLaunchError::Unavailable(value))
    }
}

impl vstd::std_specs::convert::FromSpecImpl<MatmulAvailabilityError> for ConvLaunchError {
    open spec fn obeys_from_spec() -> bool {
        true
    }

    open spec fn from_spec(value: MatmulAvailabilityError) -> Self {
        ConvLaunchError::Matmul(MatmulLaunchError::Unavailable(value))
    }
}

} // verus!
