use vstd::prelude::*;
use vstd::string::*;
use crate::models::{ProjectProgress, ProjectStep};

verus! {

/// A step's id, title, status and markdown as texts.
pub open spec fn step_view(s: ProjectStep) -> (Seq<char>, Seq<char>, Seq<char>, Option<Seq<char>>) {
    (
        s.id@,
        s.title@,
        s.status@,
        match s.markdown {
            Some(m) => Some(m@),
            None => None,
        },
    )
}

fn pending_step(id: &str, title: &str) -> (r: ProjectStep)
    ensures
        step_view(r) == (id@, title@, "pending"@, None::<Seq<char>>),
{
    ProjectStep {
        id: String::from_str(id),
        title: String::from_str(title),
        status: String::from_str("pending"),
        markdown: None,
    }
}

/// The three steps of project setup, all pending.
pub fn initial_steps() -> (r: Vec<ProjectStep>)
    ensures
        r@.len() == 3,
        step_view(r@[0]) == ("analysis"@, "Analyzing Project Requirements"@, "pending"@, None::<
            Seq<char>,
        >),
        step_view(r@[1]) == ("planning"@, "Planning Project Structure"@, "pending"@, None::<
            Seq<char>,
        >),
        step_view(r@[2]) == ("setup"@, "Setting up Project"@, "pending"@, None::<Seq<char>>),
{
    let mut steps: Vec<ProjectStep> = Vec::new();
    steps.push(pending_step("analysis", "Analyzing Project Requirements"));
    steps.push(pending_step("planning", "Planning Project Structure"));
    steps.push(pending_step("setup", "Setting up Project"));
    steps
}

/// A copy of a step.
pub fn copy_step(step: &ProjectStep) -> (r: ProjectStep)
    ensures
        step_view(r) == step_view(*step),
{
    let markdown = match &step.markdown {
        Some(m) => Some(m.clone()),
        None => None,
    };
    ProjectStep {
        id: step.id.clone(),
        title: step.title.clone(),
        status: step.status.clone(),
        markdown,
    }
}

/// Sets the status of step `i`, and its markdown when one is given; every
/// other step stays as it was.
pub fn mark_step(steps: &mut Vec<ProjectStep>, i: usize, status: &str, markdown: Option<String>)
    requires
        i < old(steps)@.len(),
    ensures
        final(steps)@.len() == old(steps)@.len(),
        final(steps)@[i as int].id == old(steps)@[i as int].id,
        final(steps)@[i as int].title == old(steps)@[i as int].title,
        final(steps)@[i as int].status@ == status@,
        final(steps)@[i as int].markdown == (match markdown {
            Some(m) => Some(m),
            None => old(steps)@[i as int].markdown,
        }),
        forall|k: int| 0 <= k < old(steps)@.len() && k != i ==> final(steps)@[k] == old(steps)@[k],
{
    let step = &mut steps[i];
    step.status = String::from_str(status);
    match markdown {
        Some(m) => {
            step.markdown = Some(m);
        },
        None => {},
    }
}

/// The progress report of step `i` out of all the steps.
pub fn progress_of(steps: &Vec<ProjectStep>, i: usize) -> (r: ProjectProgress)
    requires
        i < steps@.len(),
    ensures
        step_view(r.step) == step_view(steps@[i as int]),
        r.current_step == i,
        r.total_steps == steps@.len(),
{
    ProjectProgress { step: copy_step(&steps[i]), current_step: i, total_steps: steps.len() }
}

/// Items as a markdown list: a line `- item` each, joined by newlines.
pub open spec fn bullets(items: Seq<Seq<char>>) -> Seq<char>
    decreases items.len(),
{
    if items.len() == 0 {
        Seq::empty()
    } else if items.len() == 1 {
        "- "@ + items[0]
    } else {
        bullets(items.drop_last()) + "\n- "@ + items.last()
    }
}

/// The texts of a list of strings.
pub open spec fn item_texts(v: Seq<String>) -> Seq<Seq<char>> {
    v.map_values(|s: String| s@)
}

/// Items as a markdown list: a line `- item` each, joined by newlines.
pub fn bullet_list(items: &Vec<String>) -> (r: String)
    ensures
        r@ == bullets(item_texts(items@)),
{
    let mut out = String::new();
    let mut i: usize = 0;
    while i < items.len()
        invariant
            i <= items@.len(),
            out@ == bullets(item_texts(items@).subrange(0, i as int)),
        decreases items@.len() - i,
    {
        let ghost prev = out@;
        if i == 0 {
            out.append("- ");
        } else {
            out.append("\n- ");
        }
        out.append(items[i].as_str());
        proof {
            let sub = item_texts(items@).subrange(0, i + 1);
            assert(sub.drop_last() =~= item_texts(items@).subrange(0, i as int));
            assert(sub.last() == items@[i as int]@);
            if i == 0 {
                assert(out@ =~= "- "@ + sub[0]);
            } else {
                assert(out@ =~= prev + "\n- "@ + sub.last());
            }
        }
        i = i + 1;
    }
    assert(item_texts(items@).subrange(0, items@.len() as int) =~= item_texts(items@));
    out
}

/// The report of the analysis step.
pub open spec fn analysis_text(stack: Seq<Seq<char>>) -> Seq<char> {
    "## Project Analysis\n\n**Tech Stack:**\n\n"@ + bullets(stack)
}

/// The report of the analysis step: the proposed tech stack.
pub fn analysis_markdown(tech_stack: &Vec<String>) -> (r: String)
    ensures
        r@ == analysis_text(item_texts(tech_stack@)),
{
    let mut m = String::from_str("## Project Analysis\n\n**Tech Stack:**\n\n");
    let list = bullet_list(tech_stack);
    m.append(list.as_str());
    m
}

/// The report of the planning step.
pub open spec fn structure_text(stack: Seq<Seq<char>>, files: Seq<Seq<char>>) -> Seq<char> {
    "## Project Structure\n\n**Refined Tech Stack:**\n\n"@ + bullets(stack)
        + "\n\n**Files:**\n\n```bash\n"@ + bullets(files) + "\n```"@
}

/// The report of the planning step: the refined stack and the files to create.
pub fn structure_markdown(refined_stack: &Vec<String>, file_paths: &Vec<String>) -> (r: String)
    ensures
        r@ == structure_text(item_texts(refined_stack@), item_texts(file_paths@)),
{
    let mut m = String::from_str("## Project Structure\n\n**Refined Tech Stack:**\n\n");
    let stack = bullet_list(refined_stack);
    m.append(stack.as_str());
    m.append("\n\n**Files:**\n\n```bash\n");
    let files = bullet_list(file_paths);
    m.append(files.as_str());
    m.append("\n```");
    m
}

/// The report of the setup step.
pub open spec fn setup_text(project_dir: Seq<char>, stack: Seq<Seq<char>>) -> Seq<char> {
    "## Setup Complete\n\n\u{2705} Project directory created at "@ + project_dir
        + "\n\u{2705} Dependencies installed:\n"@ + bullets(stack) + "\n\u{2705} Files created"@
}

/// The report of the setup step: where the project is and what was installed.
pub fn setup_markdown(project_dir: &str, refined_stack: &Vec<String>) -> (r: String)
    ensures
        r@ == setup_text(project_dir@, item_texts(refined_stack@)),
{
    let mut m = String::from_str("## Setup Complete\n\n\u{2705} Project directory created at ");
    m.append(project_dir);
    m.append("\n\u{2705} Dependencies installed:\n");
    let stack = bullet_list(refined_stack);
    m.append(stack.as_str());
    m.append("\n\u{2705} Files created");
    m
}

} // verus!
