//! The clipboard provider's command lines, and what its output means.
use vstd::prelude::*;
use vstd::utf8::{decode_utf8, valid_utf8};

verus! {

/// The words that `shlex::split` makes of a command line, or `None` where
/// it reports the line as malformed.
pub uninterp spec fn shell_words(s: Seq<char>) -> Option<Seq<Seq<char>>>;

/// Relies on `shlex::split`: the words of a command line split as a POSIX
/// shell splits them, or `None` on an unterminated quote or a trailing
/// backslash. The result depends on the text alone.
#[verifier::external_body]
fn split_words(s: &str) -> (r: Option<Vec<String>>)
    ensures
        r is None <==> shell_words(s@) is None,
        r is Some ==> r->0@.map_values(|w: String| w@) == shell_words(s@)->0,
{
    shlex::split(s)
}

/// Relies on `String::from_utf8`: it succeeds exactly on valid UTF-8, and
/// then holds the characters that the bytes encode.
#[verifier::external_body]
fn utf8_string(bytes: Vec<u8>) -> (r: Option<String>)
    ensures
        r is Some <==> valid_utf8(bytes@),
        r is Some ==> r->0@ == decode_utf8(bytes@),
{
    String::from_utf8(bytes).ok()
}

/// A program and its arguments.
#[derive(Debug, Clone)]
pub struct CommandLine {
    pub program: String,
    pub args: Vec<String>,
}

/// Why a command line cannot be run.
#[derive(Debug, Clone, Copy, PartialEq, Eq, Structural)]
pub enum CommandError {
    /// The line could not be split into words.
    Invalid,
    /// The line holds no words.
    Empty,
}

/// The program and arguments that `words` name: the first word is the
/// program.
pub fn command_from_words(words: Vec<String>) -> (r: Result<CommandLine, CommandError>)
    ensures
        words@.len() == 0 ==> r == Err::<CommandLine, CommandError>(CommandError::Empty),
        words@.len() > 0 ==> r is Ok && r->Ok_0.program == words@[0] && r->Ok_0.args@ == words@.drop_first(),
{
    if words.len() == 0 {
        return Err(CommandError::Empty);
    }
    let mut args = words;
    let program = args.remove(0);
    assert(args@ =~= words@.drop_first());
    Ok(CommandLine { program, args })
}

/// The program and arguments of the command line `cmd`.
pub fn parse_command(cmd: &str) -> (r: Result<CommandLine, CommandError>)
    ensures
        match shell_words(cmd@) {
            None => r == Err::<CommandLine, CommandError>(CommandError::Invalid),
            Some(w) => if w.len() == 0 {
                r == Err::<CommandLine, CommandError>(CommandError::Empty)
            } else {
                &&& r is Ok
                &&& r->Ok_0.program@ == w[0]
                &&& r->Ok_0.args@.map_values(|a: String| a@) == w.drop_first()
            },
        },
{
    match split_words(cmd) {
        None => Err(CommandError::Invalid),
        Some(words) => {
            let ghost w = words@;
            let r = command_from_words(words);
            proof {
                if w.len() > 0 {
                    assert(w.map_values(|a: String| a@)[0] == w[0]@);
                    assert(w.drop_first().map_values(|a: String| a@) =~= w.map_values(
                        |a: String| a@,
                    ).drop_first());
                }
            }
            r
        },
    }
}

/// The clipboard content that the read command printed: its output as
/// text, or empty text where the output is not valid UTF-8.
pub fn clipboard_text(output: Vec<u8>) -> (r: String)
    ensures
        r@ == if valid_utf8(output@) { decode_utf8(output@) } else { Seq::empty() },
{
    match utf8_string(output) {
        Some(s) => s,
        None => String::new(),
    }
}

} // verus!
