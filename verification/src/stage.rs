//! The shader pipeline stage a program targets.

use vstd::prelude::*;

verus! {

/// The pipeline stage: affects both parsing and code generation.
#[derive(Clone, Copy, PartialEq, Eq, Structural, Debug)]
pub enum PipelineStage {
    Vertex,
    Fragment,
    Compute,
}

/// Which stage a stage selector denotes: "vertex" and "compute" are
/// recognized; any other selector is taken as the fragment stage.
pub open spec fn stage_of_selector(s: Seq<char>) -> PipelineStage {
    if s == "vertex"@ {
        PipelineStage::Vertex
    } else if s == "compute"@ {
        PipelineStage::Compute
    } else {
        PipelineStage::Fragment
    }
}

/// Parse a stage selector string.
pub fn parse_stage(stage_str: &str) -> (st: PipelineStage)
    ensures
        st == stage_of_selector(stage_str@),
{
    if crate::text::str_eq(stage_str, "vertex") {
        PipelineStage::Vertex
    } else if crate::text::str_eq(stage_str, "compute") {
        PipelineStage::Compute
    } else {
        PipelineStage::Fragment
    }
}

} // verus!
