//! What expressions are evaluated with.

use vstd::prelude::*;

verus! {

/// The number of virtual nodes where the context does not tell it.
pub const COUNT_FOR_COMPAT: usize = 256;

/// The context of an expression.
#[derive(Debug, PartialEq, Eq)]
pub struct ExprContext {
    pub time_zone: String,
}

/// A part of the context is not set.
#[derive(Debug, Clone, Copy, PartialEq, Eq, Structural)]
pub enum ContextError {
    TimeZoneNotSet,
}

/// The context to be handed on, made of the time zone that is set here.
pub fn capture_expr_context(time_zone: &Option<String>) -> (r: Result<ExprContext, ContextError>)
    ensures
        match *time_zone {
            Some(zone) => r is Ok && r->Ok_0.time_zone@ == zone@,
            None => r is Err && r->Err_0 == ContextError::TimeZoneNotSet,
        },
{
    match time_zone {
        Some(zone) => Ok(ExprContext { time_zone: zone.clone() }),
        None => Err(ContextError::TimeZoneNotSet),
    }
}

/// Get the vnode count from the context, or [`COUNT_FOR_COMPAT`] if not set.
pub fn vnode_count(set: Option<usize>) -> (r: usize)
    ensures
        r == match set {
            Some(count) => count,
            None => COUNT_FOR_COMPAT,
        },
{
    match set {
        Some(count) => count,
        None => COUNT_FOR_COMPAT,
    }
}

} // verus!
