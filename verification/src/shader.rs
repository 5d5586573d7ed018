//! Compiled-shader artifacts and their reflection data: the compilation
//! outcome as plain words or diagnostic text, and the descriptor metadata of
//! a compiled module as a plain listing.
//!
//! Producing bytecode from source and parsing a module's reflection out of
//! its bytes are the external collaborators' work at the driver boundary;
//! the library receives their answers as plain values and owns everything
//! decided from them.

use vstd::prelude::*;

use crate::descriptor::{PushConstantBlock, ReflectedBinding, STAGE_COMPUTE};
use crate::layout::{
    bindings_at, bindings_of_set, group_reflected, has_set, reflected_has_set, sets_sorted,
    SetBindings,
};

verus! {

/// The reflection data of one compiled module: its declared descriptor
/// bindings and its push-constant block, read-only once obtained.
pub struct ShaderReflection {
    bindings: Vec<ReflectedBinding>,
    push_constants: Option<PushConstantBlock>,
}

impl ShaderReflection {
    /// The reflected bindings, as the parser listed them.
    pub closed spec fn spec_bindings(&self) -> Seq<ReflectedBinding> {
        self.bindings@
    }

    /// The reflected push-constant block, if the module declares one.
    pub closed spec fn spec_push_constants(&self) -> Option<PushConstantBlock> {
        self.push_constants
    }

    /// Wraps what the reflection parser listed for one module: the declared
    /// bindings, in the parser's order, and the push-constant block if any.
    pub fn new(
        bindings: Vec<ReflectedBinding>,
        push_constants: Option<PushConstantBlock>,
    ) -> (r: Self)
        ensures
            r.spec_bindings() == bindings@,
            r.spec_push_constants() == push_constants,
    {
        ShaderReflection { bindings, push_constants }
    }

    /// The reflected bindings, as the parser listed them.
    pub fn bindings(&self) -> (r: &Vec<ReflectedBinding>)
        ensures
            r@ == self.spec_bindings(),
    {
        &self.bindings
    }

    /// The reflected bindings grouped by set index, each set carrying
    /// exactly its reflected layout bindings targeting the compute stage.
    pub fn descriptor_sets(&self) -> (r: Vec<SetBindings>)
        ensures
            sets_sorted(r@),
            forall|s: u32| #[trigger] bindings_at(r@, s) == bindings_of_set(
                self.spec_bindings(),
                s,
                STAGE_COMPUTE,
            ),
            forall|s: u32| #[trigger] has_set(r@, s) <==> reflected_has_set(
                self.spec_bindings(),
                s,
            ),
    {
        group_reflected(&self.bindings, STAGE_COMPUTE)
    }

    /// The reflected push-constant block, if the module declares one.
    pub fn push_constant_ranges(&self) -> (r: Option<PushConstantBlock>)
        ensures
            r == self.spec_push_constants(),
    {
        self.push_constants
    }
}

/// The outcome of one shader compilation: either the compiled words with the
/// compiler's warning count, or the compiler's diagnostic text. Compilation
/// failure is recoverable: the caller decides whether to retry.
pub struct CompilationResult {
    outcome: Result<(Vec<u32>, u64), String>,
}

impl CompilationResult {
    /// Compilation failed.
    pub closed spec fn spec_failed(&self) -> bool {
        self.outcome is Err
    }

    /// The compiled words, when compilation succeeded.
    pub closed spec fn spec_spirv(&self) -> Seq<u32> {
        self.outcome->Ok_0.0@
    }

    /// The compiler's warning count, when compilation succeeded.
    pub closed spec fn spec_warnings(&self) -> u64 {
        self.outcome->Ok_0.1
    }

    /// The compiler's diagnostic text, when compilation failed.
    pub closed spec fn spec_error(&self) -> Seq<char> {
        self.outcome->Err_0@
    }

    /// Wraps a successful compilation: the compiled words and the warning
    /// count.
    pub fn from_spirv(words: Vec<u32>, warnings: u64) -> (r: Self)
        ensures
            !r.spec_failed(),
            r.spec_spirv() == words@,
            r.spec_warnings() == warnings,
    {
        CompilationResult { outcome: Ok((words, warnings)) }
    }

    /// Wraps a failed compilation: the compiler's diagnostic text.
    pub fn from_error(message: String) -> (r: Self)
        ensures
            r.spec_failed(),
            r.spec_error() == message@,
    {
        CompilationResult { outcome: Err(message) }
    }

    /// Whether compilation failed.
    pub fn failed(&self) -> (r: bool)
        ensures
            r == self.spec_failed(),
    {
        self.outcome.is_err()
    }

    /// The compiler's diagnostic text; empty when compilation succeeded.
    pub fn error_string(&self) -> (r: String)
        ensures
            r@ == if self.spec_failed() {
                self.spec_error()
            } else {
                Seq::<char>::empty()
            },
    {
        match &self.outcome {
            Ok(_) => String::new(),
            Err(m) => m.clone(),
        }
    }

    /// Whether the compiler reported warnings.
    pub fn has_warnings(&self) -> (r: bool)
        ensures
            r == (!self.spec_failed() && self.spec_warnings() > 0),
    {
        match &self.outcome {
            Ok((_, warnings)) => *warnings > 0,
            Err(_) => false,
        }
    }

    /// The compiled words; only a successful compilation has them.
    pub fn spirv(&self) -> (r: &Vec<u32>)
        requires
            !self.spec_failed(),
        ensures
            r@ == self.spec_spirv(),
    {
        match &self.outcome {
            Ok((words, _)) => words,
            Err(_) => unreached(),
        }
    }
}

} // verus!
