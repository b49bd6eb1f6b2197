use vstd::prelude::*;
use vstd::string::*;
use std::collections::HashMap;
use crate::text::{alphanumeric, is_alnum, is_space, whitespace};

verus! {

/// What the model proposes for a new project.
#[derive(Debug)]
pub struct SetupInstructions {
    pub tech_stack: Vec<String>,
    pub commands: Vec<String>,
    pub files: HashMap<String, String>,
    pub primary_language: String,
}

/// The punctuation a prompt may hold besides letters, digits and whitespace.
pub open spec fn prompt_punctuation(c: char) -> bool {
    c == '.' || c == ',' || c == '!' || c == '?' || c == '-' || c == '_'
}

/// Whether a character may stand in a prompt.
pub open spec fn prompt_char_allowed(c: char) -> bool {
    is_alnum(c) || is_space(c) || prompt_punctuation(c)
}

/// Whether every character of a prompt is allowed.
pub open spec fn prompt_allowed(p: Seq<char>) -> bool {
    forall|i: int| 0 <= i < p.len() ==> prompt_char_allowed(#[trigger] p[i])
}

/// Whether a character may stand in a prompt, given whether it is
/// alphanumeric and whether it is whitespace.
pub fn allowed_char(c: char, alnum: bool, space: bool) -> (r: bool)
    ensures
        r == (alnum || space || prompt_punctuation(c)),
{
    alnum || space || c == '.' || c == ',' || c == '!' || c == '?' || c == '-' || c == '_'
}

/// Whether a prompt holds only letters, digits, whitespace and `.,!?-_`.
pub fn prompt_is_valid(prompt: &str) -> (r: bool)
    ensures
        r == prompt_allowed(prompt@),
{
    let n = prompt.unicode_len();
    let mut i: usize = 0;
    while i < n
        invariant
            n == prompt@.len(),
            i <= n,
            forall|k: int| 0 <= k < i ==> prompt_char_allowed(#[trigger] prompt@[k]),
        decreases n - i,
    {
        let c = prompt.get_char(i);
        if !allowed_char(c, alphanumeric(c), whitespace(c)) {
            return false;
        }
        i = i + 1;
    }
    true
}

/// Rejects a prompt with characters outside letters, digits, whitespace and `.,!?-_`.
pub fn check_prompt(prompt: &str) -> (r: Result<(), String>)
    ensures
        r is Ok <==> prompt_allowed(prompt@),
        r is Err ==> r->Err_0@ == "Invalid characters in prompt"@,
{
    if prompt_is_valid(prompt) {
        Ok(())
    } else {
        Err(String::from_str("Invalid characters in prompt"))
    }
}

/// The instruction sent to the model for a project prompt.
pub open spec fn setup_prompt_text(prompt: Seq<char>) -> Seq<char> {
    "Given the prompt '"@ + prompt + "', generate setup instructions for a backend project. Return a JSON object with:\n        - 'tech_stack': an array of technologies (e.g., [\"Django\", \"PostgreSQL\"]),\n        - 'commands': an array of terminal commands to set up the project (e.g., [\"pip install django\", \"django-admin startproject myproject\"]),\n        - 'files': an object mapping file paths to their content (e.g., { \"myproject/settings.py\": \"...\" }),\n        - 'primary_language': the main programming language (e.g., \"Python\").\n        Ensure commands are platform-agnostic where possible and files are minimal but functional."@
}

/// The instruction sent to the model for a project prompt.
pub fn setup_prompt(prompt: &str) -> (r: String)
    ensures
        r@ == setup_prompt_text(prompt@),
{
    let mut p = String::from_str("Given the prompt '");
    p.append(prompt);
    p.append("', generate setup instructions for a backend project. Return a JSON object with:\n        - 'tech_stack': an array of technologies (e.g., [\"Django\", \"PostgreSQL\"]),\n        - 'commands': an array of terminal commands to set up the project (e.g., [\"pip install django\", \"django-admin startproject myproject\"]),\n        - 'files': an object mapping file paths to their content (e.g., { \"myproject/settings.py\": \"...\" }),\n        - 'primary_language': the main programming language (e.g., \"Python\").\n        Ensure commands are platform-agnostic where possible and files are minimal but functional.");
    p
}

/// The content of the first choice of a model reply, given the content of
/// each choice's message (none where a choice has no message).
pub fn first_content(contents: Vec<Option<String>>) -> (r: Result<String, String>)
    ensures
        contents@.len() > 0 && contents@[0] is Some ==> r == Ok::<String, String>(
            contents@[0]->Some_0,
        ),
        !(contents@.len() > 0 && contents@[0] is Some) ==> r is Err && r->Err_0@
            == "No content in LLM response"@,
{
    if contents.len() > 0 {
        match &contents[0] {
            Some(c) => {
                return Ok(c.clone());
            },
            None => {},
        }
    }
    Err(String::from_str("No content in LLM response"))
}

} // verus!
