//! Structured errors.
//!
//! Every failure of an export or import is one of these kinds, carrying the
//! entity kind and identifier or name needed to diagnose it.  All errors are
//! terminal for the operation that raised them.

use vstd::prelude::*;

verus! {

/// The kinds of reference entities the core resolves.
#[derive(Clone, Copy, Debug, PartialEq, Eq, Structural)]
pub enum EntityKind {
    Collection,
    Database,
    Table,
    Field,
    Question,
    Dashboard,
}

/// A terminal failure of one export or import operation.
#[derive(Debug, PartialEq, Eq)]
pub enum PortError {
    /// No entity of this kind with this identifier exists in the cache.
    NotFoundId(EntityKind, i32),
    /// No live entity of this kind with this name could be resolved.
    NotFoundName(EntityKind, Vec<char>),
    /// The restore context table has no field with this name.
    NotFoundField(i32, Vec<char>),
    /// An entity of this kind with the same name already exists in the same
    /// scope.
    Conflict(EntityKind, Vec<char>),
    /// The snapshot omits a dependency declaration that import requires.
    MissingDependency(EntityKind),
    /// A payload is not well-formed structured text, or holds an identifier
    /// too large to be one.
    MalformedPayload,
    /// The underlying store failed to read or write; raised only at the
    /// storage boundary, never by the core's own resolution.
    Store(Vec<char>),
}

impl PortError {
    /// The entity kind an unresolved reference was about, where one applies.
    pub fn entity_kind(&self) -> (r: Option<EntityKind>)
        ensures
            r == match *self {
                PortError::NotFoundId(k, _) => Some(k),
                PortError::NotFoundName(k, _) => Some(k),
                PortError::NotFoundField(_, _) => Some(EntityKind::Field),
                PortError::Conflict(k, _) => Some(k),
                PortError::MissingDependency(k) => Some(k),
                PortError::MalformedPayload => None::<EntityKind>,
                PortError::Store(_) => None::<EntityKind>,
            },
    {
        match self {
            PortError::NotFoundId(k, _) => Some(*k),
            PortError::NotFoundName(k, _) => Some(*k),
            PortError::NotFoundField(_, _) => Some(EntityKind::Field),
            PortError::Conflict(k, _) => Some(*k),
            PortError::MissingDependency(k) => Some(*k),
            PortError::MalformedPayload => None,
            PortError::Store(_) => None,
        }
    }
}

/// Specification-level outcome of an operation that can fail with a
/// `PortError`: the mathematical value of the result, or the error with its
/// context.
pub enum PortOutcome<T> {
    Done(T),
    NotFoundId(EntityKind, i32),
    NotFoundName(EntityKind, Seq<char>),
    NotFoundField(i32, Seq<char>),
    Conflict(EntityKind, Seq<char>),
    MissingDependency(EntityKind),
    Malformed,
}

/// Whether an executable result is exactly the stated outcome: the same
/// value on success, the same error kind and context on failure.
pub open spec fn outcome_matches<U: View>(r: Result<U, PortError>, o: PortOutcome<U::V>) -> bool {
    match o {
        PortOutcome::Done(v) => r matches Ok(x) && x@ == v,
        PortOutcome::NotFoundId(k, id) => r matches Err(e) && e == PortError::NotFoundId(k, id),
        PortOutcome::NotFoundName(k, n) => r matches Err(e) && (e matches PortError::NotFoundName(
            k2,
            n2,
        ) && k2 == k && n2@ == n),
        PortOutcome::NotFoundField(t, n) => r matches Err(e) && (e matches
            PortError::NotFoundField(t2, n2) && t2 == t && n2@ == n),
        PortOutcome::Conflict(k, n) => r matches Err(e) && (e matches PortError::Conflict(k2, n2)
            && k2 == k && n2@ == n),
        PortOutcome::MissingDependency(k) => r matches Err(e) && e == PortError::MissingDependency(
            k,
        ),
        PortOutcome::Malformed => r matches Err(e) && e == PortError::MalformedPayload,
    }
}

} // verus!
