//! Messages between the engine, the render thread and their callers.
use vstd::prelude::*;

verus! {

/// A request to the render thread.
#[derive(Clone, Copy, Debug, PartialEq, Eq, Structural)]
pub enum RenderTask {
    Stop,
}

/// An answer of the render thread.
#[derive(Clone, Copy, Debug, PartialEq, Eq, Structural)]
pub enum RenderResult {
    Success,
    Stopped,
}

/// A request to the engine thread.
#[derive(Clone, Debug, PartialEq, Eq)]
pub enum EngineTask {
    Start,
    SetWindowName(String),
}

/// An answer of the engine thread.
#[derive(Clone, Copy, Debug, PartialEq, Eq, Structural)]
pub enum EngineResult {
    Finished,
    Started,
    Success,
}

} // verus!
