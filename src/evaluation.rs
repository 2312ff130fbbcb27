//! Turns what the script engine produced into the reply taxonomy.
use vstd::prelude::*;
use crate::types::{DevtoolsError, EvaluationResult, ScriptValue};

verus! {

/// The reply for an evaluation outcome: a value is classified in the order
/// undefined, boolean, number, string; an object or null is not representable;
/// a thrown script error carries its message.
pub open spec fn evaluation_spec(outcome: Result<ScriptValue, String>) -> EvaluationResult {
    match outcome {
        Ok(ScriptValue::Undefined) => EvaluationResult::Void,
        Ok(ScriptValue::Boolean(b)) => EvaluationResult::Boolean(b),
        Ok(ScriptValue::Number(bits)) => EvaluationResult::Number(bits),
        Ok(ScriptValue::String(s)) => EvaluationResult::String(s),
        Ok(ScriptValue::Object) => EvaluationResult::Error(DevtoolsError::Unimplemented),
        Ok(ScriptValue::Null) => EvaluationResult::Error(DevtoolsError::Unimplemented),
        Err(msg) => EvaluationResult::Error(DevtoolsError::ScriptError(msg)),
    }
}

/// Converts the outcome of evaluating a script into the reply value.
pub fn evaluation_result(outcome: Result<ScriptValue, String>) -> (r: EvaluationResult)
    ensures
        r == evaluation_spec(outcome),
{
    match outcome {
        Ok(ScriptValue::Undefined) => EvaluationResult::Void,
        Ok(ScriptValue::Boolean(b)) => EvaluationResult::Boolean(b),
        Ok(ScriptValue::Number(bits)) => EvaluationResult::Number(bits),
        Ok(ScriptValue::String(s)) => EvaluationResult::String(s),
        Ok(ScriptValue::Object) => EvaluationResult::Error(DevtoolsError::Unimplemented),
        Ok(ScriptValue::Null) => EvaluationResult::Error(DevtoolsError::Unimplemented),
        Err(msg) => EvaluationResult::Error(DevtoolsError::ScriptError(msg)),
    }
}

} // verus!
