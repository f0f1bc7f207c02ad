use cakeman::terminal::{ask_answer, ask_prompt, banner, debug, divider, error, hint, info, success, title, warn};
use owo_colors::OwoColorize;

#[test]
fn info_line() {
    assert_eq!(info("hello"), "\u{1b}[1m\u{1b}[36m\u{2192}\u{1b}[39m\u{1b}[0m hello");
    assert_eq!(info("hello"), format!("{} {}", "→".cyan().bold(), "hello"));
}

#[test]
fn status_lines() {
    assert_eq!(success("ok"), format!("{} {}", "✓".green().bold(), "ok"));
    assert_eq!(warn("w"), format!("{} {}", "!".yellow().bold(), "w"));
    assert_eq!(error("e"), format!("{} {}", "✗".red().bold(), "e"));
    assert_eq!(hint("h"), format!("{} {}", "💡".cyan(), "h"));
    assert_eq!(error("e"), "\u{1b}[1m\u{1b}[31m\u{2717}\u{1b}[39m\u{1b}[0m e");
}

#[test]
fn debug_and_title() {
    assert_eq!(debug("d"), format!("{} {}", "DEBUG".magenta().bold(), "d".dimmed()));
    assert_eq!(debug("d"), "\u{1b}[1m\u{1b}[35mDEBUG\u{1b}[39m\u{1b}[0m \u{1b}[2md\u{1b}[0m");
    assert_eq!(title("T"), format!("\n{}\n", "T".bold().underline()));
    assert_eq!(title("T"), "\n\u{1b}[4m\u{1b}[1mT\u{1b}[0m\u{1b}[0m\n");
}

#[test]
fn prompt_answer_banner_divider() {
    assert_eq!(ask_prompt("Name?"), format!("{} ", "Name?".blue().bold()));
    assert_eq!(ask_answer("  yes \n"), "yes");
    assert!(banner().starts_with("\u{1b}[93m\n   ____"));
    assert!(banner().ends_with("C/C++ package manager\n\u{1b}[39m"));
    assert_eq!(divider(), format!("{}", "────────────────────────────────────────".dimmed()));
}
