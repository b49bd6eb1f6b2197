use vstd::prelude::*;

verus! {

/// One step of project setup as shown to the user.
#[derive(Debug)]
pub struct ProjectStep {
    pub id: String,
    pub title: String,
    pub status: String,
    pub markdown: Option<String>,
}

/// A progress report: the step, its position, and how many steps there are.
#[derive(Debug)]
pub struct ProjectProgress {
    pub step: ProjectStep,
    pub current_step: usize,
    pub total_steps: usize,
}

} // verus!
