//! What the tool says and asks: the lines it writes, and how it reads an answer.
//!
//! Nothing here writes or reads. The caller writes the lines to the terminal
//! and hands over what was typed.

use crate::cli::ListArgs;
use crate::text::{join_text, same_text, trim, trimmed};
use vstd::prelude::*;

verus! {

/// The line that reports `msg` as done.
pub fn log_info(msg: &str) -> (line: String)
    ensures
        line@ == "[OK] "@ + msg@,
{
    join_text("[OK] ", msg)
}

/// The line that reports `msg` as a warning.
pub fn log_warn(msg: &str) -> (line: String)
    ensures
        line@ == "[!] "@ + msg@,
{
    join_text("[!] ", msg)
}

/// The line that reports `msg` as an error.
pub fn log_error(msg: &str) -> (line: String)
    ensures
        line@ == "[x] "@ + msg@,
{
    join_text("[x] ", msg)
}

/// The line that announces the step `msg`.
pub fn log_step(msg: &str) -> (line: String)
    ensures
        line@ == "==> "@ + msg@,
{
    join_text("==> ", msg)
}

/// The text that asks `prompt` and waits for a line.
pub fn input_prompt(prompt: &str) -> (text: String)
    ensures
        text@ == "[?] "@ + prompt@ + " "@,
{
    let mut text = join_text("[?] ", prompt);
    text.append(" ");
    text
}

/// What was answered to a question: the line typed, without the whitespace
/// around it.
pub fn prompt_input(typed: &str) -> (answer: String)
    ensures
        answer@ == trimmed(typed@),
{
    trim(typed)
}

/// The text that asks the yes-or-no question `prompt`; the answer that an empty
/// line stands for is written large.
pub fn yes_no_prompt(prompt: &str, default_yes: bool) -> (text: String)
    ensures
        text@ == "[?] "@ + prompt@ + " "@ + (if default_yes {
            "[Y/n]"@
        } else {
            "[y/N]"@
        }) + " "@,
{
    let mut text = join_text("[?] ", prompt);
    text.append(" ");
    if default_yes {
        text.append("[Y/n]");
    } else {
        text.append("[y/N]");
    }
    text.append(" ");
    text
}

/// A word that says yes.
pub open spec fn says_yes(reply: Seq<char>) -> bool {
    reply == "y"@ || reply == "Y"@ || reply == "yes"@ || reply == "YES"@ || reply == "Yes"@
}

/// The answer that the line `typed` gives to a yes-or-no question: the default
/// for an empty line, yes for a word that says yes, no for anything else.
pub open spec fn yes_no_of(typed: Seq<char>, default_yes: bool) -> bool {
    let reply = trimmed(typed);
    if reply.len() == 0 {
        default_yes
    } else {
        says_yes(reply)
    }
}

/// The answer that the line `typed` gives to a yes-or-no question.
pub fn prompt_yes_no(typed: &str, default_yes: bool) -> (yes: bool)
    ensures
        yes == yes_no_of(typed@, default_yes),
{
    let reply = trim(typed);
    let r = reply.as_str();
    if r.is_empty() {
        return default_yes;
    }
    same_text(r, "y") || same_text(r, "Y") || same_text(r, "yes") || same_text(r, "YES")
        || same_text(r, "Yes")
}

/// `s` filled up with blanks at its end to `width` characters; a longer one
/// stays as it is.
pub open spec fn padded(s: Seq<char>, width: nat) -> Seq<char> {
    if s.len() >= width {
        s
    } else {
        s + Seq::new((width - s.len()) as nat, |i: int| ' ')
    }
}

/// `s` filled up with blanks at its end to `width` characters.
pub fn pad(s: &str, width: usize) -> (out: String)
    ensures
        out@ == padded(s@, width as nat),
{
    let n = s.unicode_len();
    let mut out = s.to_owned();
    if n >= width {
        return out;
    }
    let mut i: usize = n;
    assert(out@ =~= s@ + Seq::new(0, |i: int| ' '));
    while i < width
        invariant
            n <= i <= width,
            n == s@.len(),
            out@ == s@ + Seq::new((i - n) as nat, |k: int| ' '),
        decreases width - i,
    {
        out.push(' ');
        assert(out@ =~= s@ + Seq::new((i + 1 - n) as nat, |k: int| ' '));
        i = i + 1;
    }
    out
}

/// One space as it is listed.
#[derive(Debug)]
pub struct SpaceRow {
    pub path: String,
    pub name: String,
    pub branch: String,
    pub status: String,
}

/// A `SpaceRow` as plain values.
pub ghost struct SpaceRowView {
    pub path: Seq<char>,
    pub name: Seq<char>,
    pub branch: Seq<char>,
    pub status: Seq<char>,
}

impl View for SpaceRow {
    type V = SpaceRowView;

    open spec fn view(&self) -> SpaceRowView {
        SpaceRowView {
            path: self.path@,
            name: self.name@,
            branch: self.branch@,
            status: self.status@,
        }
    }
}

impl DeepView for SpaceRow {
    type V = SpaceRowView;

    open spec fn deep_view(&self) -> SpaceRowView {
        self@
    }
}

/// The line of a space in the listing for machines: path, name, branch and
/// state, with tabs between them.
pub open spec fn porcelain_line(row: SpaceRowView) -> Seq<char> {
    row.path + "\t"@ + row.name + "\t"@ + row.branch + "\t"@ + row.status
}

/// A line of the table: two columns of 24 characters and the path.
pub open spec fn table_line(name: Seq<char>, branch: Seq<char>, path: Seq<char>) -> Seq<char> {
    padded(name, 24) + " "@ + padded(branch, 24) + " "@ + path
}

/// The line of `row` in the listing: for machines where `porcelain` is set,
/// else as a line of the table.
pub open spec fn row_line(porcelain: bool, row: SpaceRowView) -> Seq<char> {
    if porcelain {
        porcelain_line(row)
    } else {
        table_line(row.name, row.branch, row.path)
    }
}

/// What stands above the rows of the listing: nothing for machines, else the
/// title and the head of the table.
pub open spec fn list_head(porcelain: bool) -> Seq<Seq<char>> {
    if porcelain {
        Seq::empty()
    } else {
        seq![
            "Spaces"@,
            ""@,
            table_line("SPACE"@, "BRANCH"@, "PATH"@),
            table_line("-----"@, "------"@, "----"@),
        ]
    }
}

/// What stands below the rows of the listing.
pub open spec fn list_foot(porcelain: bool) -> Seq<Seq<char>> {
    if porcelain {
        Seq::empty()
    } else {
        seq![""@, "Tip: Use 'spaces list --porcelain' for machine-readable output"@]
    }
}

/// The listing of `rows`, line by line.
pub open spec fn listing_of(porcelain: bool, rows: Seq<SpaceRowView>) -> Seq<Seq<char>> {
    list_head(porcelain) + rows.map_values(|row: SpaceRowView| row_line(porcelain, row))
        + list_foot(porcelain)
}

/// A line of the table.
fn table_row(name: &str, branch: &str, path: &str) -> (line: String)
    ensures
        line@ == table_line(name@, branch@, path@),
{
    let mut line = pad(name, 24);
    line.append(" ");
    line.append(pad(branch, 24).as_str());
    line.append(" ");
    line.append(path);
    line
}

/// The line of `row` in the listing.
fn line_of_row(porcelain: bool, row: &SpaceRow) -> (line: String)
    ensures
        line@ == row_line(porcelain, row@),
{
    if porcelain {
        let mut line = join_text(row.path.as_str(), "\t");
        line.append(row.name.as_str());
        line.append("\t");
        line.append(row.branch.as_str());
        line.append("\t");
        line.append(row.status.as_str());
        line
    } else {
        table_row(row.name.as_str(), row.branch.as_str(), row.path.as_str())
    }
}

/// The lines that `list` prints for `rows`, the main repository first and the
/// clones after it in the order in which they are to stand.
pub fn cmd_list(args: &ListArgs, rows: &Vec<SpaceRow>) -> (lines: Vec<String>)
    ensures
        lines.deep_view() == listing_of(args.porcelain, rows.deep_view()),
{
    let porcelain = args.porcelain;
    let mut lines: Vec<String> = Vec::new();
    proof {
        reveal_strlit("");
        assert(""@ =~= Seq::<char>::empty());
    }
    if !porcelain {
        lines.push("Spaces".to_owned());
        lines.push(String::new());
        lines.push(table_row("SPACE", "BRANCH", "PATH"));
        lines.push(table_row("-----", "------", "----"));
    }
    assert(lines.deep_view() =~= list_head(porcelain));
    let mut i: usize = 0;
    let ghost shown = |row: SpaceRowView| row_line(porcelain, row);
    while i < rows.len()
        invariant
            i <= rows.len(),
            shown == |row: SpaceRowView| row_line(porcelain, row),
            lines.deep_view() == list_head(porcelain) + rows.deep_view().take(i as int).map_values(
                shown,
            ),
        decreases rows.len() - i,
    {
        let ghost before = lines.deep_view();
        assert(rows.deep_view()[i as int] == rows[i as int]@);
        let line = line_of_row(porcelain, &rows[i]);
        let ghost lv = line@;
        lines.push(line);
        assert(lines.deep_view() =~= before.push(lv));
        assert(rows.deep_view().take(i as int + 1).map_values(shown) =~= rows.deep_view().take(
            i as int,
        ).map_values(shown).push(lv));
        i = i + 1;
    }
    assert(rows.deep_view().take(rows.len() as int) =~= rows.deep_view());
    let ghost body = lines.deep_view();
    if !porcelain {
        lines.push(String::new());
        lines.push("Tip: Use 'spaces list --porcelain' for machine-readable output".to_owned());
    }
    assert(lines.deep_view() =~= body + list_foot(porcelain));
    lines
}

} // verus!
