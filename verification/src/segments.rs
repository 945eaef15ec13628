use crate::json::{keys, spec_string_at, string_at, JsonValue};
use crate::number::{whole_text, whole_value, WholeNumber, WholeView};
use crate::text::{is_prefix, opt_str, opt_text, starts_with, trim_end_by};
use vstd::prelude::*;
use vstd::string::*;

verus! {

pub const ANSI_RESET: &'static str = "\x1b[0m";
pub const ANSI_FG_BLACK: &'static str = "\x1b[38;5;0m";
pub const ANSI_FG_WHITE: &'static str = "\x1b[38;5;15m";
pub const ANSI_FG_ORANGE: &'static str = "\x1b[38;5;214m";
pub const ANSI_FG_PURPLE: &'static str = "\x1b[38;5;63m";
pub const ANSI_FG_DARK_RED: &'static str = "\x1b[38;5;124m";
pub const ANSI_BG_BLUE: &'static str = "\x1b[48;5;24m";
pub const ANSI_BG_GREEN: &'static str = "\x1b[48;5;34m";
pub const ANSI_BG_YELLOW: &'static str = "\x1b[48;5;220m";
pub const ANSI_BG_RED: &'static str = "\x1b[48;5;196m";

/// The background of a usage percentage: green up to 50%, yellow up to 80%,
/// red above.
pub open spec fn usage_background(percent: WholeView) -> Seq<char> {
    if whole_value(percent) <= 50 {
        ANSI_BG_GREEN@
    } else if whole_value(percent) <= 80 {
        ANSI_BG_YELLOW@
    } else {
        ANSI_BG_RED@
    }
}

/// A labelled usage segment showing `percent`.
pub open spec fn percentage_segment(label: Seq<char>, percent: WholeView) -> Seq<char> {
    usage_background(percent) + ANSI_FG_BLACK@ + " "@ + label + " "@ + whole_text(percent) + "% "@
        + ANSI_RESET@
}

/// The model and effort segment.
pub open spec fn model_segment(model_name: Seq<char>, effort_level: Seq<char>) -> Seq<char> {
    ANSI_BG_BLUE@ + ANSI_FG_WHITE@ + " "@ + model_name + "|"@ + effort_level + " "@ + ANSI_RESET@
}

/// The branch segment.
pub open spec fn branch_segment(branch: Seq<char>) -> Seq<char> {
    ANSI_FG_ORANGE@ + branch + ANSI_RESET@
}

/// The workspace directory segment.
pub open spec fn dir_segment(dir: Seq<char>) -> Seq<char> {
    ANSI_FG_WHITE@ + dir + ANSI_RESET@
}

/// The separator between the directory and the branch.
pub open spec fn separator_segment() -> Seq<char> {
    ANSI_FG_PURPLE@ + "|"@
}

/// What stands in place of the branch of a directory that has none.
pub open spec fn no_branch_segment() -> Seq<char> {
    ANSI_FG_DARK_RED@ + "<no git branch>"@ + ANSI_RESET@
}

/// A usage segment: `label` and the usage `percent`, on a background that
/// shows how high the usage is. The percentage is the usage rounded up to a
/// whole number; the colour thresholds lose nothing by that, since a usage is
/// at most 50 (or 80) exactly when its rounding up is.
pub fn format_percentage_segment(label: &str, percent: &WholeNumber) -> (r: String)
    ensures
        r@ == percentage_segment(label@, percent@),
{
    let bg_color = if percent.at_most(50) {
        ANSI_BG_GREEN
    } else if percent.at_most(80) {
        ANSI_BG_YELLOW
    } else {
        ANSI_BG_RED
    };
    let mut r = String::new();
    r.append(bg_color);
    r.append(ANSI_FG_BLACK);
    r.append(" ");
    r.append(label);
    r.append(" ");
    percent.append_to(&mut r);
    r.append("% ");
    r.append(ANSI_RESET);
    assert(r@ =~= percentage_segment(label@, percent@));
    r
}

/// The model and effort level segment.
pub fn format_model_segment(model_name: &str, effort_level: &str) -> (r: String)
    ensures
        r@ == model_segment(model_name@, effort_level@),
{
    let mut r = String::new();
    r.append(ANSI_BG_BLUE);
    r.append(ANSI_FG_WHITE);
    r.append(" ");
    r.append(model_name);
    r.append("|");
    r.append(effort_level);
    r.append(" ");
    r.append(ANSI_RESET);
    assert(r@ =~= model_segment(model_name@, effort_level@));
    r
}

/// The branch segment.
pub fn format_branch_segment(branch: &str) -> (r: String)
    ensures
        r@ == branch_segment(branch@),
{
    let mut r = String::new();
    r.append(ANSI_FG_ORANGE);
    r.append(branch);
    r.append(ANSI_RESET);
    assert(r@ =~= branch_segment(branch@));
    r
}

/// The workspace directory segment.
pub fn format_dir_segment(dir: &str) -> (r: String)
    ensures
        r@ == dir_segment(dir@),
{
    let mut r = String::new();
    r.append(ANSI_FG_WHITE);
    r.append(dir);
    r.append(ANSI_RESET);
    assert(r@ =~= dir_segment(dir@));
    r
}

/// The separator between the directory and the branch.
pub fn format_separator_segment() -> (r: String)
    ensures
        r@ == separator_segment(),
{
    let mut r = String::new();
    r.append(ANSI_FG_PURPLE);
    r.append("|");
    r
}

/// The placeholder for a directory without a branch.
pub fn format_no_branch_segment() -> (r: String)
    ensures
        r@ == no_branch_segment(),
{
    let mut r = String::new();
    r.append(ANSI_FG_DARK_RED);
    r.append("<no git branch>");
    r.append(ANSI_RESET);
    assert(r@ =~= no_branch_segment());
    r
}

/// A path separator, `/` or `\`.
pub open spec fn is_path_separator(c: char) -> bool {
    c == '/' || c == '\\'
}

/// `is_path_separator` as a predicate value.
pub open spec fn path_separator() -> spec_fn(char) -> bool {
    |c: char| is_path_separator(c)
}

/// `path` with the home directory shown as `~`: when `home` (without its
/// trailing separators) is not empty and is `path` itself or a prefix of it
/// that a separator follows.
pub open spec fn spec_tildify(path: Seq<char>, home: Option<Seq<char>>) -> Seq<char> {
    match home {
        None => path,
        Some(home) => {
            let h = trim_end_by(home, path_separator());
            if h.len() == 0 || !is_prefix(h, path) {
                path
            } else {
                let rest = path.skip(h.len() as int);
                if rest.len() == 0 {
                    "~"@
                } else if is_path_separator(rest[0]) {
                    "~"@ + rest
                } else {
                    path
                }
            }
        },
    }
}

fn char_is_path_separator(c: char) -> (b: bool)
    ensures
        b == is_path_separator(c),
{
    c == '/' || c == '\\'
}

/// `s` without its trailing path separators.
fn trim_end_separators(s: &str) -> (r: &str)
    ensures
        r@ == trim_end_by(s@, path_separator()),
{
    let ghost p = path_separator();
    let n = s.unicode_len();
    let mut j: usize = n;
    assert(s@.subrange(0, n as int) =~= s@);
    while j > 0 && char_is_path_separator(s.get_char(j - 1))
        invariant
            n == s@.len(),
            j <= n,
            p == path_separator(),
            trim_end_by(s@, p) == trim_end_by(s@.subrange(0, j as int), p),
        decreases j,
    {
        assert(s@.subrange(0, j as int).drop_last() =~= s@.subrange(0, j - 1));
        assert(p(s@.subrange(0, j as int).last()));
        j = j - 1;
    }
    assert(j > 0 ==> !p(s@.subrange(0, j as int).last()));
    s.substring_char(0, j)
}

/// Shows the home directory at the start of `path` as `~`.
pub fn tildify(path: &str, home: Option<&str>) -> (r: String)
    ensures
        r@ == spec_tildify(path@, opt_str(home)),
{
    let home = match home {
        Some(home) => trim_end_separators(home),
        None => {
            return path.to_owned();
        },
    };

    if home.is_empty() {
        return path.to_owned();
    }
    if !starts_with(path, home) {
        return path.to_owned();
    }
    let n = path.unicode_len();
    let h = home.unicode_len();
    let rest = path.substring_char(h, n);
    if rest.is_empty() {
        let mut r = String::new();
        r.append("~");
        return r;
    }
    if char_is_path_separator(rest.get_char(0)) {
        let mut r = String::new();
        r.append("~");
        r.append(rest);
        r
    } else {
        path.to_owned()
    }
}

/// The workspace directory: `workspace.current_dir`, else `cwd`, unless empty.
pub open spec fn spec_raw_workspace_dir(json: JsonValue) -> Option<Seq<char>> {
    let dir = match spec_string_at(json, seq!["workspace"@, "current_dir"@]) {
        Some(d) => Some(d),
        None => spec_string_at(json, seq!["cwd"@]),
    };
    match dir {
        Some(d) => if d.len() > 0 {
            Some(d)
        } else {
            None
        },
        None => None,
    }
}

/// The workspace directory as the top row shows it, home shown as `~`.
pub open spec fn spec_workspace_dir(json: JsonValue, home: Option<Seq<char>>) -> Option<Seq<char>> {
    match spec_raw_workspace_dir(json) {
        Some(d) => Some(spec_tildify(d, home)),
        None => None,
    }
}

/// The workspace directory as the top row shows it, the home directory
/// `home` shown as `~`.
pub fn workspace_dir_with(json: &JsonValue, home: Option<&str>) -> (r: Option<String>)
    ensures
        opt_text(r) == spec_workspace_dir(*json, opt_str(home)),
{
    let current = ["workspace", "current_dir"];
    let cwd = ["cwd"];
    assert(keys(current@) =~= seq!["workspace"@, "current_dir"@]);
    assert(keys(cwd@) =~= seq!["cwd"@]);
    let dir = match string_at(json, &current) {
        Some(d) => d,
        None => match string_at(json, &cwd) {
            Some(d) => d,
            None => return None,
        },
    };
    if dir.unicode_len() == 0 {
        return None;
    }
    Some(tildify(dir, home))
}

} // verus!
