//! The free-form YAML value carried by open-ended fields.
use vstd::prelude::*;

verus! {

/// A semi-structured YAML value (scalar, sequence or mapping). The model
/// never looks inside one: it only stores and hands it back.
#[verifier::external_type_specification]
#[verifier::external_body]
pub struct ExValue(serde_yml::Value);

/// Relies on the `Clone` that `serde_yml::Value` derives: the copy is the
/// same value, variant by variant and field by field.
pub assume_specification[ <serde_yml::Value as Clone>::clone ](v: &serde_yml::Value) -> (r:
    serde_yml::Value)
    ensures
        r == *v,
;

/// The YAML boolean `b`.
pub uninterp spec fn yaml_bool(b: bool) -> serde_yml::Value;

/// Relies on `serde_yml::Value::Bool`: it builds the YAML boolean `b`, and
/// that value depends on `b` alone.
#[verifier::external_body]
pub(crate) fn bool_value(b: bool) -> (r: serde_yml::Value)
    ensures
        r == yaml_bool(b),
{
    serde_yml::Value::Bool(b)
}

} // verus!
