use pty_sessions::ai_service::is_code_extension;
use pty_sessions::chat::{chat_sessions, clean_title, frontend_history, tidy_title, title_context, title_prompt, FrontendMessage};
use pty_sessions::commands::{analysis_markdown, bullet_list, initial_steps, mark_step, progress_of, setup_markdown, structure_markdown};
use pty_sessions::config::{check_project_directory, validate_project_directory};
use pty_sessions::db::Message;
use pty_sessions::file_ops::{name_le, should_descend, sort_entries, FileMetadata, FileOpResult};
use pty_sessions::llm::{allowed_char, check_prompt, first_content, prompt_is_valid, setup_prompt};
use pty_sessions::scraper::{pick_language, refine_lowered, refine_tech_stack, trending_language, trending_url};
use pty_sessions::session::{resolve_shell, resolve_size, TermSize};
use pty_sessions::text::{contains_text, same_text, trim_char};

fn msg(message: &str, response: &str) -> Message {
    Message {
        id: "m".to_string(),
        session_id: "s".to_string(),
        message: message.to_string(),
        response: response.to_string(),
        timestamp: "2024-01-01".to_string(),
    }
}

fn fm(role: &str, content: &str) -> FrontendMessage {
    FrontendMessage { role: role.to_string(), content: content.to_string() }
}

fn strings(v: &[&str]) -> Vec<String> {
    v.iter().map(|s| s.to_string()).collect()
}

fn entry(name: &str, is_dir: bool) -> FileMetadata {
    FileMetadata {
        name: name.to_string(),
        path: format!("/p/{}", name),
        is_dir,
        size: 0,
        modified: 0,
        children: None,
    }
}

#[test]
fn history_skips_empty_responses() {
    let out = frontend_history(vec![msg("hi", "hello"), msg("again", "")]);
    let pairs: Vec<(String, String)> = out.into_iter().map(|m| (m.role, m.content)).collect();
    assert_eq!(
        pairs,
        vec![
            ("user".to_string(), "hi".to_string()),
            ("assistant".to_string(), "hello".to_string()),
            ("user".to_string(), "again".to_string()),
        ]
    );
    assert!(frontend_history(Vec::new()).is_empty());
}

#[test]
fn sessions_from_rows() {
    let out = chat_sessions(vec![("a".to_string(), "A".to_string()), ("b".to_string(), "B".to_string())]);
    assert_eq!(out.len(), 2);
    assert_eq!((out[1].id.as_str(), out[1].title.as_str()), ("b", "B"));
}

#[test]
fn title_context_takes_three_messages() {
    let ms = vec![fm("user", "a"), fm("assistant", "b"), fm("user", "c"), fm("assistant", "d")];
    assert_eq!(title_context(&ms), "user: a\nassistant: b\nuser: c");
    assert_eq!(title_context(&Vec::new()), "");
    assert_eq!(
        title_prompt("user: a"),
        "Based on this conversation, generate a concise and descriptive title (max 6 words):\n\nuser: a"
    );
}

#[test]
fn title_is_trimmed_and_cut() {
    assert_eq!(clean_title("  \"Rust PTY manager.\"\n"), "Rust PTY manager");
    assert_eq!(tidy_title("..\"Ok\"..."), "\"Ok\"");
    assert_eq!(tidy_title("\"Ok.\""), "Ok");
    let long = "x".repeat(60);
    let t = clean_title(&long);
    assert_eq!(t, format!("{}...", "x".repeat(47)));
    assert_eq!(clean_title(&"y".repeat(50)), "y".repeat(50));
    assert_eq!(clean_title("   "), "");
}

#[test]
fn prompt_validation() {
    assert!(prompt_is_valid("Build a REST API, quickly!"));
    assert!(prompt_is_valid("ünïcode wörds_ok-fine?"));
    assert!(!prompt_is_valid("rm -rf /"));
    assert!(check_prompt("a;b").is_err());
    assert_eq!(check_prompt("a;b").unwrap_err(), "Invalid characters in prompt");
    assert!(check_prompt("").is_ok());
}

#[test]
fn setup_prompt_embeds_the_request() {
    let p = setup_prompt("todo app");
    assert!(p.starts_with("Given the prompt 'todo app', generate setup instructions"));
    assert!(p.ends_with("files are minimal but functional."));
    assert!(p.contains("{ \"myproject/settings.py\": \"...\" }"));
}

#[test]
fn first_content_of_reply() {
    assert_eq!(first_content(vec![Some("x".to_string()), None]).unwrap(), "x");
    assert_eq!(first_content(vec![None, Some("y".to_string())]).unwrap_err(), "No content in LLM response");
    assert!(first_content(Vec::new()).is_err());
}

#[test]
fn language_filter() {
    assert_eq!(trending_language("Python"), "python");
    assert_eq!(trending_language("TypeScript"), "javascript");
    assert_eq!(trending_language("JAVA"), "java");
    assert_eq!(trending_language("Haskell"), "all");
    assert_eq!(pick_language("go"), "go");
    assert_eq!(pick_language("Go"), "all");
    assert_eq!(trending_url("all"), "https://github.com/trending");
    assert_eq!(trending_url("ruby"), "https://github.com/trending?language=ruby");
}

#[test]
fn stack_gains_framework_once() {
    let stack = strings(&["Python"]);
    let headings = strings(&["Awesome DJANGO tips", "django-rest", "flask"]);
    assert_eq!(refine_tech_stack(&stack, "python", &headings), strings(&["Python", "Django"]));
    let stack = strings(&["node", "typescript"]);
    assert_eq!(refine_tech_stack(&stack, "javascript", &strings(&["TypeScript rocks"])), stack);
    assert_eq!(
        refine_tech_stack(&Vec::new(), "java", &strings(&["spring-boot"])),
        strings(&["Spring"])
    );
    assert!(refine_tech_stack(&Vec::new(), "all", &strings(&["django"])).is_empty());
}

#[test]
fn project_directory_rules() {
    assert_eq!(check_project_directory("rel/dir", false).unwrap_err(), "Directory must be an absolute path");
    assert_eq!(check_project_directory("/a/../b", true).unwrap_err(), "Invalid directory path");
    assert_eq!(check_project_directory("/home/~x", true).unwrap_err(), "Invalid directory path");
    assert!(check_project_directory("/home/me/Projects", true).is_ok());
    assert!(validate_project_directory("/a/../b").is_err());
    assert!(validate_project_directory("relative").is_err());
}

#[test]
fn listing_order() {
    let sorted = sort_entries(vec![entry("b.txt", false), entry("src", true), entry("a.txt", false), entry("docs", true)]);
    let names: Vec<&str> = sorted.iter().map(|e| e.name.as_str()).collect();
    assert_eq!(names, vec!["docs", "src", "a.txt", "b.txt"]);
    assert!(sort_entries(Vec::new()).is_empty());
    assert!(name_le("ab", "abc"));
    assert!(!name_le("b", "a"));
    assert!(name_le("B", "a"));
    assert!(should_descend(true, 2));
    assert!(!should_descend(true, 1));
    assert!(!should_descend(false, 5));
}

#[test]
fn file_op_results() {
    let ok = FileOpResult::success("Successfully created folder");
    assert!(ok.success);
    assert_eq!(ok.message, "Successfully created folder");
    let err = FileOpResult::error("Failed to delete: denied");
    assert!(!err.success);
    assert_eq!(err.message, "Failed to delete: denied");
}

#[test]
fn steps_and_markdown() {
    let steps = initial_steps();
    let ids: Vec<&str> = steps.iter().map(|s| s.id.as_str()).collect();
    assert_eq!(ids, vec!["analysis", "planning", "setup"]);
    assert!(steps.iter().all(|s| s.status == "pending" && s.markdown.is_none()));
    assert_eq!(steps[0].title, "Analyzing Project Requirements");
    assert_eq!(bullet_list(&strings(&["a", "b"])), "- a\n- b");
    assert_eq!(bullet_list(&Vec::new()), "");
    assert_eq!(analysis_markdown(&strings(&["Django"])), "## Project Analysis\n\n**Tech Stack:**\n\n- Django");
    assert_eq!(
        structure_markdown(&strings(&["Django"]), &strings(&["app/main.py"])),
        "## Project Structure\n\n**Refined Tech Stack:**\n\n- Django\n\n**Files:**\n\n```bash\n- app/main.py\n```"
    );
    assert_eq!(
        setup_markdown("/p/project-backend", &strings(&["Go"])),
        "## Setup Complete\n\n\u{2705} Project directory created at /p/project-backend\n\u{2705} Dependencies installed:\n- Go\n\u{2705} Files created"
    );
}

#[test]
fn code_extensions() {
    assert!(is_code_extension("rs"));
    assert!(is_code_extension("md"));
    assert!(!is_code_extension("png"));
    assert!(!is_code_extension(""));
}

#[test]
fn session_defaults() {
    assert_eq!(resolve_size(None), TermSize { rows: 24, cols: 80 });
    assert_eq!(resolve_size(Some(TermSize { rows: 40, cols: 120 })), TermSize { rows: 40, cols: 120 });
    assert_eq!(resolve_shell(None, false), "bash");
    assert_eq!(resolve_shell(None, true), "cmd.exe");
    assert_eq!(resolve_shell(Some("zsh".to_string()), false), "zsh");
}

#[test]
fn text_helpers() {
    assert!(same_text("abc", "abc"));
    assert!(!same_text("abc", "abd"));
    assert!(contains_text("hello world", "o w"));
    assert!(contains_text("x", ""));
    assert!(!contains_text("ab", "abc"));
    assert_eq!(trim_char("\"\"q\"", '"'), "q");
    assert_eq!(trim_char("....", '.'), "");
}

#[test]
fn prompt_character_rule() {
    assert!(allowed_char('x', true, false));
    assert!(allowed_char(' ', false, true));
    assert!(allowed_char('?', false, false));
    assert!(allowed_char('_', false, false));
    assert!(!allowed_char(';', false, false));
    assert!(!allowed_char('/', false, false));
}

#[test]
fn refine_on_lowered_texts() {
    let stack = strings(&["Python", "DJANGO"]);
    let lowered = strings(&["python", "django"]);
    assert_eq!(refine_lowered(&stack, &lowered, "python", &strings(&["django news"])), stack);
    let stack = strings(&["Java"]);
    let lowered = strings(&["java"]);
    assert_eq!(
        refine_lowered(&stack, &lowered, "java", &strings(&["spring one", "spring two"])),
        strings(&["Java", "Spring"])
    );
    assert_eq!(
        refine_lowered(&stack, &lowered, "javascript", &strings(&["typescript"])),
        strings(&["Java", "TypeScript"])
    );
}

#[test]
fn step_bookkeeping() {
    let mut steps = initial_steps();
    mark_step(&mut steps, 1, "running", None);
    assert_eq!(steps[1].status, "running");
    assert!(steps[1].markdown.is_none());
    mark_step(&mut steps, 1, "completed", Some("## done".to_string()));
    assert_eq!(steps[1].markdown.as_deref(), Some("## done"));
    mark_step(&mut steps, 1, "completed", None);
    assert_eq!(steps[1].markdown.as_deref(), Some("## done"));
    assert_eq!(steps[0].status, "pending");
    let p = progress_of(&steps, 1);
    assert_eq!((p.current_step, p.total_steps), (1, 3));
    assert_eq!(p.step.id, "planning");
    assert_eq!(p.step.status, "completed");
}
