//! Command lines of the tools that the tagger runs, and what their runs mean.
use vstd::prelude::*;

verus! {

use crate::text::{
    is_not_blank, is_white_space, text_of, trimmed, trimming_finds_what_white_space_surrounds,
    trimming_takes_white_space_only,
};

/// One argument of a command line.
#[derive(Debug, PartialEq, Eq)]
pub enum Arg {
    /// A text.
    Text(String),
    /// The path of the file that is worked on.
    File,
    /// The pattern of the paths that extracted frames get.
    Frames,
}

/// The text of an `Arg`.
pub ghost enum ArgText {
    Text(Seq<char>),
    File,
    Frames,
}

impl View for Arg {
    type V = ArgText;

    open spec fn view(&self) -> ArgText {
        match self {
            Arg::Text(s) => ArgText::Text(s@),
            Arg::File => ArgText::File,
            Arg::Frames => ArgText::Frames,
        }
    }
}

/// The texts of a command line.
pub open spec fn command_line(v: Seq<Arg>) -> Seq<ArgText> {
    v.map_values(|a: Arg| a@)
}

/// Adds an argument of two parts.
pub(crate) fn push_text(args: &mut Vec<Arg>, option: &str, value: &str)
    ensures
        command_line(final(args)@) == command_line(old(args)@).push(
            ArgText::Text(option@ + value@),
        ),
{
    let mut s = option.to_owned();
    s.append(value);
    args.push(Arg::Text(s));
    assert(command_line(args@) =~= command_line(old(args)@).push(
        ArgText::Text(option@ + value@),
    ));
}

/// Adds an argument.
pub(crate) fn push_flag(args: &mut Vec<Arg>, flag: &str)
    ensures
        command_line(final(args)@) == command_line(old(args)@).push(ArgText::Text(flag@)),
{
    args.push(Arg::Text(flag.to_owned()));
    assert(command_line(args@) =~= command_line(old(args)@).push(ArgText::Text(flag@)));
}

/// Adds the file that is worked on.
pub(crate) fn push_file(args: &mut Vec<Arg>)
    ensures
        command_line(final(args)@) == command_line(old(args)@).push(ArgText::File),
{
    args.push(Arg::File);
    assert(command_line(args@) =~= command_line(old(args)@).push(ArgText::File));
}

/// How the run of a tool ended.
#[derive(Debug, PartialEq, Eq)]
pub enum ToolOutcome {
    /// The tool is not installed.
    NotFound,
    /// The tool could not be started, for the given reason.
    NotStarted(String),
    /// The tool ran.
    Finished { success: bool, stdout: Vec<u8>, stderr: Vec<u8> },
}

/// The text of bytes that are not UTF-8: what `String::from_utf8_lossy` makes of
/// them.
pub uninterp spec fn repaired_utf8(bytes: Seq<u8>) -> Seq<char>;

/// The text of bytes.
pub open spec fn text_of_bytes(bytes: Seq<u8>) -> Seq<char> {
    if vstd::utf8::valid_utf8(bytes) {
        vstd::utf8::decode_utf8(bytes)
    } else {
        repaired_utf8(bytes)
    }
}

/// `String::from_utf8_lossy` decodes UTF-8; of other bytes the contract says
/// that the text is a function of the bytes.
#[verifier::external_body]
fn lossy_text(bytes: &[u8]) -> (r: String)
    ensures
        vstd::utf8::valid_utf8(bytes@) ==> r@ == vstd::utf8::decode_utf8(bytes@),
        !vstd::utf8::valid_utf8(bytes@) ==> r@ == repaired_utf8(bytes@),
{
    String::from_utf8_lossy(bytes).into_owned()
}

/// The message for a run of `tool` that went wrong, if it did.
pub open spec fn tool_failure(tool: Seq<char>, outcome: ToolOutcome) -> Option<Seq<char>> {
    match outcome {
        ToolOutcome::NotFound => Some(
            tool + " not found on PATH (install via `brew install "@ + tool + "`)"@,
        ),
        ToolOutcome::NotStarted(e) => Some("failed to invoke "@ + tool + ": "@ + e@),
        ToolOutcome::Finished { success, stdout, stderr } => if success {
            None
        } else {
            Some(run_failure(tool, text_of_bytes(stderr@)))
        },
    }
}

/// The message for a run of `tool` that reported an error.
pub open spec fn run_failure(tool: Seq<char>, reported: Seq<char>) -> Seq<char> {
    tool + " failed: "@ + trimmed(reported)
}

/// Says that `tool` reported an error.
pub fn report_run_failure(tool: &str, reported: &str) -> (r: String)
    ensures
        r@ == run_failure(tool@, reported@),
{
    let mut s = tool.to_owned();
    s.append(" failed: ");
    s.append(reported.trim());
    s
}

/// Tells whether a run of `tool` succeeded, and if not, why.
pub fn tool_result(tool: &str, outcome: &ToolOutcome) -> (r: Result<(), String>)
    ensures
        tool_failure(tool@, *outcome) is None ==> r is Ok,
        tool_failure(tool@, *outcome) matches Some(e) ==> r is Err && r->Err_0@ == e,
{
    match outcome {
        ToolOutcome::NotFound => {
            let mut s = tool.to_owned();
            s.append(" not found on PATH (install via `brew install ");
            s.append(tool);
            s.append("`)");
            Err(s)
        },
        ToolOutcome::NotStarted(e) => {
            let mut s = "failed to invoke ".to_owned();
            s.append(tool);
            s.append(": ");
            s.append(e.as_str());
            Err(s)
        },
        ToolOutcome::Finished { success, stdout, stderr } => {
            if *success {
                Ok(())
            } else {
                Err(report_run_failure(tool, lossy_text(stderr.as_slice()).as_str()))
            }
        },
    }
}

/// The value that a printed field holds, if it is not blank.
pub open spec fn printed_value(printed: Seq<char>) -> Option<Seq<char>> {
    if trimmed(printed).len() == 0 {
        None
    } else {
        Some(trimmed(printed))
    }
}

/// Reads the value of a printed field.
pub fn read_printed_value(printed: &str) -> (r: Option<String>)
    ensures
        text_of(r) == printed_value(printed@),
{
    let value = printed.trim();
    if value.is_empty() {
        None
    } else {
        Some(value.to_owned())
    }
}

/// The value of a field that a tool was asked for: none if the run went wrong.
pub open spec fn queried_value(outcome: ToolOutcome) -> Option<Seq<char>> {
    match outcome {
        ToolOutcome::Finished { success, stdout, stderr } => if success {
            printed_value(text_of_bytes(stdout@))
        } else {
            None
        },
        _ => None,
    }
}

/// Reads the value of a field that a tool was asked for.
pub fn read_queried_value(outcome: &ToolOutcome) -> (r: Option<String>)
    ensures
        text_of(r) == queried_value(*outcome),
{
    match outcome {
        ToolOutcome::Finished { success, stdout, stderr } => {
            if *success {
                read_printed_value(lossy_text(stdout.as_slice()).as_str())
            } else {
                None
            }
        },
        _ => None,
    }
}

/// A field has a value exactly if something other than white space was printed:
/// the value is what white space surrounds, whole and unchanged.
pub proof fn printed_values_are_whole(
    printed: Seq<char>,
    before: Seq<char>,
    core: Seq<char>,
    behind: Seq<char>,
)
    requires
        forall|i: int| 0 <= i < before.len() ==> is_white_space(#[trigger] before[i]),
        forall|i: int| 0 <= i < behind.len() ==> is_white_space(#[trigger] behind[i]),
        core.len() > 0 ==> !is_white_space(core[0]) && !is_white_space(core[core.len() - 1]),
    ensures
        core.len() > 0 ==> printed_value(before + core + behind) == Some(core),
        core.len() == 0 ==> printed_value(before + core + behind) is None,
        printed_value(printed) is Some <==> exists|i: int|
            0 <= i < printed.len() && !is_white_space(#[trigger] printed[i]),
{
    trimming_finds_what_white_space_surrounds(before, core, behind);
    let at = trimming_takes_white_space_only(printed);
}

/// A tool that was asked for a field has told a value exactly if it ran with
/// success and printed something other than white space, however it is written
/// and however long it is. No other outcome tells one.
pub proof fn a_field_is_told_where_text_is_printed(
    stdout: Vec<u8>,
    stderr: Vec<u8>,
    text: Seq<char>,
    e: String,
)
    requires
        vstd::utf8::valid_utf8(stdout@) ==> text == vstd::utf8::decode_utf8(stdout@),
        !vstd::utf8::valid_utf8(stdout@) ==> text == repaired_utf8(stdout@),
    ensures
        queried_value(ToolOutcome::Finished { success: true, stdout, stderr }) is Some
            <==> exists|i: int| 0 <= i < text.len() && !is_white_space(#[trigger] text[i]),
        queried_value(ToolOutcome::Finished { success: true, stdout, stderr }) matches Some(v)
            ==> v == trimmed(text),
        queried_value(ToolOutcome::Finished { success: false, stdout, stderr }) is None,
        queried_value(ToolOutcome::NotFound) is None,
        queried_value(ToolOutcome::NotStarted(e)) is None,
{
    let at = trimming_takes_white_space_only(text);
}

/// A run counts as failed unless the tool ran with success. The message says
/// which tool it was, and tells all that the tool reported, or all that is known
/// of why it did not start.
pub proof fn failures_are_reported_whole(
    tool: Seq<char>,
    stdout: Vec<u8>,
    stderr: Vec<u8>,
    text: Seq<char>,
    e: String,
)
    requires
        vstd::utf8::valid_utf8(stderr@) ==> text == vstd::utf8::decode_utf8(stderr@),
        !vstd::utf8::valid_utf8(stderr@) ==> text == repaired_utf8(stderr@),
    ensures
        tool_failure(tool, ToolOutcome::Finished { success: true, stdout, stderr }) is None,
        tool_failure(tool, ToolOutcome::Finished { success: false, stdout, stderr }) == Some(
            tool + " failed: "@ + trimmed(text),
        ),
        tool_failure(tool, ToolOutcome::NotStarted(e)) == Some(
            "failed to invoke "@ + tool + ": "@ + e@,
        ),
        tool_failure(tool, ToolOutcome::NotFound) == Some(
            tool + " not found on PATH (install via `brew install "@ + tool + "`)"@,
        ),
        run_failure(tool, text) == tool + " failed: "@ + trimmed(text),
{
}

/// A command line is seen as it is, argument by argument.
pub proof fn command_lines_are_seen_whole(v: Seq<Arg>, i: int)
    ensures
        command_line(v).len() == v.len(),
        0 <= i < v.len() ==> (v[i] matches Arg::Text(s) ==> command_line(v)[i] == ArgText::Text(
            s@,
        )),
        0 <= i < v.len() && v[i] is File ==> command_line(v)[i] == ArgText::File,
        0 <= i < v.len() && v[i] is Frames ==> command_line(v)[i] == ArgText::Frames,
{
}

/// The tool ran with success and printed something other than white space.
pub open spec fn tells_something(outcome: ToolOutcome) -> bool {
    match outcome {
        ToolOutcome::Finished { success, stdout, stderr } => {
            &&& success
            &&& vstd::utf8::valid_utf8(stdout@) ==> is_not_blank(vstd::utf8::decode_utf8(stdout@))
            &&& !vstd::utf8::valid_utf8(stdout@) ==> is_not_blank(repaired_utf8(stdout@))
        },
        _ => false,
    }
}

/// A value was read exactly if the tool told something.
pub proof fn what_is_told_is_read(outcome: ToolOutcome)
    ensures
        queried_value(outcome) is Some <==> tells_something(outcome),
{
    if let ToolOutcome::Finished { success, stdout, stderr } = outcome {
        let decoded = trimming_takes_white_space_only(vstd::utf8::decode_utf8(stdout@));
        let repaired = trimming_takes_white_space_only(repaired_utf8(stdout@));
    }
}

} // verus!
