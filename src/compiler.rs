use vstd::prelude::*;

verus! {

/// One stage of a compiler pipeline, turning its input into its result.
pub trait CompileStage {
    type Input;

    type Result;

    fn run(input: Self::Input) -> Self::Result;
}

} // verus!
