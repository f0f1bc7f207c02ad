//! The lines that the command line prints: colored markers and messages.
//!
//! Each function builds a line; printing it is left to the caller.

use vstd::prelude::*;
use vstd::string::StringExecFns;
use owo_colors::OwoColorize;
use crate::text::{trim, trimmed};

verus! {

/// The reset that ends a foreground color.
pub open spec fn fg_end() -> Seq<char> {
    "\u{1b}[39m"@
}

/// The reset that ends a style.
pub open spec fn style_end() -> Seq<char> {
    "\u{1b}[0m"@
}

/// `text` in the foreground color that `ansi` opens.
pub open spec fn colored(ansi: Seq<char>, text: Seq<char>) -> Seq<char> {
    ansi + text + fg_end()
}

/// `text` in the style that `ansi` opens.
pub open spec fn styled(ansi: Seq<char>, text: Seq<char>) -> Seq<char> {
    ansi + text + style_end()
}

/// A marker in a bold color, a space, and the message.
pub open spec fn marked(ansi: Seq<char>, marker: Seq<char>, message: Seq<char>) -> Seq<char> {
    styled(ansi_bold(), colored(ansi, marker)) + " "@ + message
}

/// The escape sequence that `OwoColorize::cyan` opens with.
pub open spec fn ansi_cyan() -> Seq<char> {
    "\u{1b}[36m"@
}

/// `text` in cyan: displays `owo_colors::OwoColorize::cyan` of `text`. The contract claims
/// what the crate's `Display` impl writes: the opening escape sequence, the text, and the foreground reset `ESC[39m`.
#[verifier::external_body]
fn cyan(text: &str) -> (r: String)
    ensures
        r@ == ansi_cyan() + text@ + "\u{1b}[39m"@,
{
    format!("{}", text.cyan())
}

/// The escape sequence that `OwoColorize::green` opens with.
pub open spec fn ansi_green() -> Seq<char> {
    "\u{1b}[32m"@
}

/// `text` in green: displays `owo_colors::OwoColorize::green` of `text`. The contract claims
/// what the crate's `Display` impl writes: the opening escape sequence, the text, and the foreground reset `ESC[39m`.
#[verifier::external_body]
fn green(text: &str) -> (r: String)
    ensures
        r@ == ansi_green() + text@ + "\u{1b}[39m"@,
{
    format!("{}", text.green())
}

/// The escape sequence that `OwoColorize::yellow` opens with.
pub open spec fn ansi_yellow() -> Seq<char> {
    "\u{1b}[33m"@
}

/// `text` in yellow: displays `owo_colors::OwoColorize::yellow` of `text`. The contract claims
/// what the crate's `Display` impl writes: the opening escape sequence, the text, and the foreground reset `ESC[39m`.
#[verifier::external_body]
fn yellow(text: &str) -> (r: String)
    ensures
        r@ == ansi_yellow() + text@ + "\u{1b}[39m"@,
{
    format!("{}", text.yellow())
}

/// The escape sequence that `OwoColorize::red` opens with.
pub open spec fn ansi_red() -> Seq<char> {
    "\u{1b}[31m"@
}

/// `text` in red: displays `owo_colors::OwoColorize::red` of `text`. The contract claims
/// what the crate's `Display` impl writes: the opening escape sequence, the text, and the foreground reset `ESC[39m`.
#[verifier::external_body]
fn red(text: &str) -> (r: String)
    ensures
        r@ == ansi_red() + text@ + "\u{1b}[39m"@,
{
    format!("{}", text.red())
}

/// The escape sequence that `OwoColorize::magenta` opens with.
pub open spec fn ansi_magenta() -> Seq<char> {
    "\u{1b}[35m"@
}

/// `text` in magenta: displays `owo_colors::OwoColorize::magenta` of `text`. The contract claims
/// what the crate's `Display` impl writes: the opening escape sequence, the text, and the foreground reset `ESC[39m`.
#[verifier::external_body]
fn magenta(text: &str) -> (r: String)
    ensures
        r@ == ansi_magenta() + text@ + "\u{1b}[39m"@,
{
    format!("{}", text.magenta())
}

/// The escape sequence that `OwoColorize::blue` opens with.
pub open spec fn ansi_blue() -> Seq<char> {
    "\u{1b}[34m"@
}

/// `text` in blue: displays `owo_colors::OwoColorize::blue` of `text`. The contract claims
/// what the crate's `Display` impl writes: the opening escape sequence, the text, and the foreground reset `ESC[39m`.
#[verifier::external_body]
fn blue(text: &str) -> (r: String)
    ensures
        r@ == ansi_blue() + text@ + "\u{1b}[39m"@,
{
    format!("{}", text.blue())
}

/// The escape sequence that `OwoColorize::bright_yellow` opens with.
pub open spec fn ansi_bright_yellow() -> Seq<char> {
    "\u{1b}[93m"@
}

/// `text` in bright yellow: displays `owo_colors::OwoColorize::bright_yellow` of `text`. The contract claims
/// what the crate's `Display` impl writes: the opening escape sequence, the text, and the foreground reset `ESC[39m`.
#[verifier::external_body]
fn bright_yellow(text: &str) -> (r: String)
    ensures
        r@ == ansi_bright_yellow() + text@ + "\u{1b}[39m"@,
{
    format!("{}", text.bright_yellow())
}

/// The escape sequence that `OwoColorize::bold` opens with.
pub open spec fn ansi_bold() -> Seq<char> {
    "\u{1b}[1m"@
}

/// `text` in bold: displays `owo_colors::OwoColorize::bold` of `text`. The contract claims
/// what the crate's `Display` impl writes: the opening escape sequence, the text, and the reset `ESC[0m`.
#[verifier::external_body]
fn bold(text: &str) -> (r: String)
    ensures
        r@ == ansi_bold() + text@ + "\u{1b}[0m"@,
{
    format!("{}", text.bold())
}

/// The escape sequence that `OwoColorize::dimmed` opens with.
pub open spec fn ansi_dimmed() -> Seq<char> {
    "\u{1b}[2m"@
}

/// `text` in dim: displays `owo_colors::OwoColorize::dimmed` of `text`. The contract claims
/// what the crate's `Display` impl writes: the opening escape sequence, the text, and the reset `ESC[0m`.
#[verifier::external_body]
fn dimmed(text: &str) -> (r: String)
    ensures
        r@ == ansi_dimmed() + text@ + "\u{1b}[0m"@,
{
    format!("{}", text.dimmed())
}

/// The escape sequence that `OwoColorize::underline` opens with.
pub open spec fn ansi_underline() -> Seq<char> {
    "\u{1b}[4m"@
}

/// `text` in underlined: displays `owo_colors::OwoColorize::underline` of `text`. The contract claims
/// what the crate's `Display` impl writes: the opening escape sequence, the text, and the reset `ESC[0m`.
#[verifier::external_body]
fn underline(text: &str) -> (r: String)
    ensures
        r@ == ansi_underline() + text@ + "\u{1b}[0m"@,
{
    format!("{}", text.underline())
}

fn bold_colored(text: &str, color: u8) -> (r: String)
    requires
        color < 6,
    ensures
        r@ == styled(
            ansi_bold(),
            colored(
                if color == 0 { ansi_cyan() } else if color == 1 { ansi_green() } else if color == 2 { ansi_yellow() }
                else if color == 3 { ansi_red() } else if color == 4 { ansi_magenta() } else { ansi_blue() },
                text@,
            ),
        ),
{
    let c = if color == 0 {
        cyan(text)
    } else if color == 1 {
        green(text)
    } else if color == 2 {
        yellow(text)
    } else if color == 3 {
        red(text)
    } else if color == 4 {
        magenta(text)
    } else {
        blue(text)
    };
    bold(c.as_str())
}

fn marked_line(marker: &str, color: u8, message: &str) -> (r: String)
    requires
        color < 6,
    ensures
        r@ == styled(
            ansi_bold(),
            colored(
                if color == 0 { ansi_cyan() } else if color == 1 { ansi_green() } else if color == 2 { ansi_yellow() }
                else if color == 3 { ansi_red() } else if color == 4 { ansi_magenta() } else { ansi_blue() },
                marker@,
            ),
        ) + " "@ + message@,
{
    let mut s = bold_colored(marker, color);
    s.append(" ");
    s.append(message);
    s
}

/// The line that reports progress: a bold cyan arrow and the message.
pub fn info(message: &str) -> (r: String)
    ensures
        r@ == marked(ansi_cyan(), "\u{2192}"@, message@),
{
    marked_line("\u{2192}", 0, message)
}

/// The line that reports success: a bold green check mark and the message.
pub fn success(message: &str) -> (r: String)
    ensures
        r@ == marked(ansi_green(), "\u{2713}"@, message@),
{
    marked_line("\u{2713}", 1, message)
}

/// The line that warns: a bold yellow `!` and the message.
pub fn warn(message: &str) -> (r: String)
    ensures
        r@ == marked(ansi_yellow(), "!"@, message@),
{
    marked_line("!", 2, message)
}

/// The line that reports an error: a bold red cross and the message.
pub fn error(message: &str) -> (r: String)
    ensures
        r@ == marked(ansi_red(), "\u{2717}"@, message@),
{
    marked_line("\u{2717}", 3, message)
}

/// The line that gives a hint: a cyan light bulb and the message.
pub fn hint(message: &str) -> (r: String)
    ensures
        r@ == colored(ansi_cyan(), "\u{1f4a1}"@) + " "@ + message@,
{
    let mut s = cyan("\u{1f4a1}");
    s.append(" ");
    s.append(message);
    s
}

/// The line that shows debugging output: a bold magenta `DEBUG` and the message dimmed.
pub fn debug(message: &str) -> (r: String)
    ensures
        r@ == marked(ansi_magenta(), "DEBUG"@, styled(ansi_dimmed(), message@)),
{
    let dim = dimmed(message);
    marked_line("DEBUG", 4, dim.as_str())
}

/// The title block: an empty line, the title in bold and underlined, and an empty line.
pub fn title(message: &str) -> (r: String)
    ensures
        r@ == "\n"@ + styled(ansi_underline(), styled(ansi_bold(), message@)) + "\n"@,
{
    let b = bold(message);
    let u = underline(b.as_str());
    let mut s = String::from_str("\n");
    s.append(u.as_str());
    s.append("\n");
    s
}

/// The question put to the user: the prompt in bold blue and a space.
pub fn ask_prompt(prompt: &str) -> (r: String)
    ensures
        r@ == styled(ansi_bold(), colored(ansi_blue(), prompt@)) + " "@,
{
    let mut s = bold_colored(prompt, 5);
    s.append(" ");
    s
}

/// The answer the user gave: the line read, without surrounding white space.
pub fn ask_answer(input: &str) -> (r: String)
    ensures
        r@ == trim(input@),
{
    trimmed(input)
}

/// The program's banner, in bright yellow.
pub fn banner() -> (r: String)
    ensures
        r@ == colored(ansi_bright_yellow(), "\n   ____      _                                  _\n  / ___|__ _| | _____ _ __ ___   __ _ _ __      | |\n | |   / _` | |/ / _ \\ '_ ` _ \\ / _` | '_ \\  _  | |\n | |__| (_| |   <  __/ | | | | | (_| | | | || |_| |\n  \\____\\__,_|_|\\_\\___|_| |_| |_|\\__,_|_| |_(_)___/\n\n        C/C++ package manager\n"@),
{
    bright_yellow("\n   ____      _                                  _\n  / ___|__ _| | _____ _ __ ___   __ _ _ __      | |\n | |   / _` | |/ / _ \\ '_ ` _ \\ / _` | '_ \\  _  | |\n | |__| (_| |   <  __/ | | | | | (_| | | | || |_| |\n  \\____\\__,_|_|\\_\\___|_| |_| |_|\\__,_|_| |_(_)___/\n\n        C/C++ package manager\n")
}

/// A dimmed horizontal rule of forty box-drawing characters.
pub fn divider() -> (r: String)
    ensures
        r@ == styled(ansi_dimmed(), "\u{2500}\u{2500}\u{2500}\u{2500}\u{2500}\u{2500}\u{2500}\u{2500}\u{2500}\u{2500}\u{2500}\u{2500}\u{2500}\u{2500}\u{2500}\u{2500}\u{2500}\u{2500}\u{2500}\u{2500}\u{2500}\u{2500}\u{2500}\u{2500}\u{2500}\u{2500}\u{2500}\u{2500}\u{2500}\u{2500}\u{2500}\u{2500}\u{2500}\u{2500}\u{2500}\u{2500}\u{2500}\u{2500}\u{2500}\u{2500}"@),
{
    dimmed("\u{2500}\u{2500}\u{2500}\u{2500}\u{2500}\u{2500}\u{2500}\u{2500}\u{2500}\u{2500}\u{2500}\u{2500}\u{2500}\u{2500}\u{2500}\u{2500}\u{2500}\u{2500}\u{2500}\u{2500}\u{2500}\u{2500}\u{2500}\u{2500}\u{2500}\u{2500}\u{2500}\u{2500}\u{2500}\u{2500}\u{2500}\u{2500}\u{2500}\u{2500}\u{2500}\u{2500}\u{2500}\u{2500}\u{2500}\u{2500}")
}

} // verus!
