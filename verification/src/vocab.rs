//! Vocabulary-side types: what a sampling constraint asks of the generation loop,
//! and the placeholder vocabulary and constraint.
use vstd::prelude::*;

verus! {

/// Instruction returned by a constraint after a sampled token is committed.
#[derive(Debug, Clone, PartialEq, Eq)]
pub enum ConstraintStep {
    /// Skip normal sampling and inject these token ids directly into the KV cache
    /// (the grammar determines them uniquely).
    FastForward(Vec<i32>),
    /// Run the normal forward pass for the next token.
    Forward,
    /// Terminate generation immediately; the constraint is fully satisfied.
    Stop,
}

/// A constraint that allows every token.
#[derive(Debug, Clone, Copy)]
pub struct Unconstrained;

/// A vocabulary that supports no operation (every call reports `Unsupported`).
#[derive(Debug, Clone, Copy)]
pub struct NullVocab;

} // verus!
