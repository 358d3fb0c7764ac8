use vstd::prelude::*;
use crate::node::{NodePayload, PayloadView, Real64};
use crate::normalize::{node_type_of, normalize_node_type};
use crate::text::{trim, trim_of};

verus! {

/// Why a payload was refused before anything was written.
#[derive(Clone, Debug)]
pub enum ValidationError {
    /// The identifier is empty once trimmed.
    EmptyId,
    /// The type is not one of `geo`, `text`, `note`; holds the type as given.
    UnsupportedType(String),
    /// `x` or `y` is NaN or infinite.
    NonFiniteCoordinate,
    /// A width was given and is not a positive finite number.
    InvalidWidth,
    /// A height was given and is not a positive finite number.
    InvalidHeight,
}

/// An optional dimension is acceptable when absent or positive and finite.
pub open spec fn dimension_ok(d: Option<Real64>) -> bool {
    match d {
        None => true,
        Some(v) => v.spec_positive_finite(),
    }
}

/// Every check that a payload has to pass.
pub open spec fn payload_valid(p: PayloadView) -> bool {
    trim_of(p.id).len() > 0
        && node_type_of(p.node_type) is Some
        && p.x.spec_finite()
        && p.y.spec_finite()
        && dimension_ok(p.width)
        && dimension_ok(p.height)
}

/// `r` is the outcome of validating `p`: the first failing check, in the
/// order identifier, type, coordinates, width, height, or success.
pub open spec fn validation_outcome(p: PayloadView, r: Result<(), ValidationError>) -> bool {
    if trim_of(p.id).len() == 0 {
        r matches Err(ValidationError::EmptyId)
    } else if node_type_of(p.node_type) is None {
        match r {
            Err(ValidationError::UnsupportedType(given)) => given@ == p.node_type,
            _ => false,
        }
    } else if !p.x.spec_finite() || !p.y.spec_finite() {
        r matches Err(ValidationError::NonFiniteCoordinate)
    } else if !dimension_ok(p.width) {
        r matches Err(ValidationError::InvalidWidth)
    } else if !dimension_ok(p.height) {
        r matches Err(ValidationError::InvalidHeight)
    } else {
        r is Ok
    }
}

/// The text of an error as shown to the caller.
pub open spec fn error_message(e: ValidationError) -> Seq<char> {
    match e {
        ValidationError::EmptyId => "node.id must not be empty"@,
        ValidationError::UnsupportedType(given) => "unsupported node type: "@ + given@,
        ValidationError::NonFiniteCoordinate => "node coordinates must be finite numbers"@,
        ValidationError::InvalidWidth =>
            "node.width must be a positive finite number when provided"@,
        ValidationError::InvalidHeight =>
            "node.height must be a positive finite number when provided"@,
    }
}

impl ValidationError {
    /// The message that the caller receives for this error.
    pub fn message(&self) -> (r: String)
        ensures
            r@ == error_message(*self),
    {
        match self {
            ValidationError::EmptyId => String::from_str("node.id must not be empty"),
            ValidationError::UnsupportedType(given) => String::from_str(
                "unsupported node type: ",
            ).concat(given.as_str()),
            ValidationError::NonFiniteCoordinate => String::from_str(
                "node coordinates must be finite numbers",
            ),
            ValidationError::InvalidWidth => String::from_str(
                "node.width must be a positive finite number when provided",
            ),
            ValidationError::InvalidHeight => String::from_str(
                "node.height must be a positive finite number when provided",
            ),
        }
    }
}

fn dimension_acceptable(d: Option<Real64>) -> (r: bool)
    ensures
        r == dimension_ok(d),
{
    match d {
        None => true,
        Some(v) => v.is_positive_finite(),
    }
}

/// Checks a payload without side effects and reports the first failure.
pub fn validate_node_payload(node: &NodePayload) -> (r: Result<(), ValidationError>)
    ensures
        validation_outcome(node@, r),
        r is Ok <==> payload_valid(node@),
{
    if trim(node.id.as_str()).unicode_len() == 0 {
        return Err(ValidationError::EmptyId);
    }
    if normalize_node_type(node.node_type.as_str()).is_none() {
        return Err(ValidationError::UnsupportedType(node.node_type.clone()));
    }
    if !node.x.is_finite() || !node.y.is_finite() {
        return Err(ValidationError::NonFiniteCoordinate);
    }
    if !dimension_acceptable(node.width) {
        return Err(ValidationError::InvalidWidth);
    }
    if !dimension_acceptable(node.height) {
        return Err(ValidationError::InvalidHeight);
    }
    Ok(())
}

} // verus!
