use vstd::prelude::*;

verus! {

/// A message of the application: about the project, a processing step, or processing.
#[derive(Debug, Copy, Clone, PartialEq, Eq, Structural)]
pub enum Msg {
    Project(Project),
    StepOp(StepOp),
    Proc(Proc),
}

/// What is asked of the project.
#[derive(Debug, Copy, Clone, PartialEq, Eq, Structural)]
pub enum Project {
    Import(ImportType),
    SaveProject,
    LoadProject,
    SaveResults(SaveResults),
}

/// What is done to the chain of processing steps.
#[derive(Debug, Copy, Clone, PartialEq, Eq, Structural)]
pub enum StepOp {
    AddStep(AddStep),
    Edit { step_num: usize },
    Move { step_num: usize, direction: MoveStep },
    Delete { step_num: usize },
}

/// How processing goes.
#[derive(Debug, Copy, Clone, PartialEq, Eq, Structural)]
pub enum Proc {
    ChainIsStarted { step_num: usize, process_until_end: bool },
    StepProgress { num: usize, step_percents: usize, total_percents: usize },
    Halted,
    CompletedStep { num: usize },
}

/// Where an image is imported from.
#[derive(Debug, Copy, Clone, PartialEq, Eq, Structural)]
pub enum ImportType {
    File,
    SystemClipoard,
}

/// The filter a new step applies.
#[derive(Debug, Copy, Clone, PartialEq, Eq, Structural)]
pub enum AddStep {
    LinCustom,
    LinMean,
    LinGauss,
    Median,
    HistogramLocalContrast,
    CutBrightness,
    HistogramEqualizer,
    Rgb2Gray,
    NeutralizeChannel,
    ExtractChannel,
    CannyEdgeDetection,
}

/// Where a step moves in the chain.
#[derive(Debug, Copy, Clone, PartialEq, Eq, Structural)]
pub enum MoveStep {
    Up,
    Down,
}

/// How saving the results goes.
#[derive(Debug, Copy, Clone, PartialEq, Eq, Structural)]
pub enum SaveResults {
    Start,
    Completed { percents: usize, last_result_is_saved: bool },
    Error,
}

} // verus!
