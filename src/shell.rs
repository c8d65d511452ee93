//! What a line typed at the explorer's prompt asks for.
use vstd::prelude::*;
use vstd::string::StringSliceAdditionalSpecFns;

verus! {

/// An error of the operating system's I/O layer, carried through unopened.
#[verifier::external_type_specification]
#[verifier::external_body]
pub struct ExIoError(std::io::Error);

/// Why a command could not be carried out.
pub enum HandlerError {
    /// Reading or writing a file failed.
    Io(std::io::Error),
    /// The line is not a command.
    ParseError,
}

impl From<std::io::Error> for HandlerError {
    fn from(err: std::io::Error) -> (r: HandlerError)
        ensures
            r == HandlerError::Io(err),
    {
        HandlerError::Io(err)
    }
}

impl vstd::std_specs::convert::FromSpecImpl<std::io::Error> for HandlerError {
    open spec fn obeys_from_spec() -> bool {
        true
    }

    open spec fn from_spec(v: std::io::Error) -> HandlerError {
        HandlerError::Io(v)
    }
}

/// Whether the prompt goes on after a command.
#[derive(Clone, Copy, Debug, PartialEq, Eq, Structural)]
pub enum HandlerResult {
    Handled,
    Quit,
}

/// A command read from one line.
#[derive(Debug)]
pub enum Command {
    /// Leave the prompt.
    Quit,
    /// List the commands.
    Help,
    /// Write the disassembly to the file named by these bytes.
    Dump(Vec<u8>),
    /// `dump` with other than one argument.
    DumpUsage,
    /// Print the overview of the loaded image.
    Show,
    /// Load the dump named by these bytes.
    Load(Vec<u8>),
    /// `load` with other than one argument.
    LoadUsage,
    /// An empty command word: nothing to do.
    Nothing,
}

impl Command {
    /// What the prompt does after the command has run.
    pub fn outcome(&self) -> (r: HandlerResult)
        ensures
            r == (if self is Quit {
                HandlerResult::Quit
            } else {
                HandlerResult::Handled
            }),
    {
        match self {
            Command::Quit => HandlerResult::Quit,
            _ => HandlerResult::Handled,
        }
    }
}

/// The byte that separates the words of a command line.
pub const SPACE: u8 = 32;

/// The index of the first space at or after `i`, or the length of `s`.
pub open spec fn word_end(s: Seq<u8>, i: nat) -> nat
    decreases s.len() - i,
{
    if i >= s.len() || s[i as int] == SPACE {
        i
    } else {
        word_end(s, i + 1)
    }
}

/// The number of spaces in `s`; a line splits into one word more.
pub open spec fn space_count(s: Seq<u8>) -> nat
    decreases s.len(),
{
    if s.len() == 0 {
        0
    } else {
        space_count(s.drop_last()) + if s.last() == SPACE {
            1nat
        } else {
            0nat
        }
    }
}

/// The first word of a line: everything before its first space.
pub open spec fn first_word(s: Seq<u8>) -> Seq<u8> {
    s.take(word_end(s, 0) as int)
}

/// Everything after the first space of a line.
pub open spec fn after_first_word(s: Seq<u8>) -> Seq<u8> {
    s.skip(word_end(s, 0) + 1int)
}

/// `quit` in ASCII.
pub open spec fn word_quit() -> Seq<u8> {
    seq![113u8, 117u8, 105u8, 116u8]
}

/// `q` in ASCII.
pub open spec fn word_q() -> Seq<u8> {
    seq![113u8]
}

/// `help` in ASCII.
pub open spec fn word_help() -> Seq<u8> {
    seq![104u8, 101u8, 108u8, 112u8]
}

/// `dump` in ASCII.
pub open spec fn word_dump() -> Seq<u8> {
    seq![100u8, 117u8, 109u8, 112u8]
}

/// `show` in ASCII.
pub open spec fn word_show() -> Seq<u8> {
    seq![115u8, 104u8, 111u8, 119u8]
}

/// `load` in ASCII.
pub open spec fn word_load() -> Seq<u8> {
    seq![108u8, 111u8, 97u8, 100u8]
}

/// No byte before the first space at or after `i` is a space.
proof fn lemma_word_end(s: Seq<u8>, i: nat)
    ensures
        i <= word_end(s, i),
        forall|j: int| i <= j < word_end(s, i) && j < s.len() ==> s[j] != SPACE,
    decreases s.len() - i,
{
    if i < s.len() && s[i as int] != SPACE {
        lemma_word_end(s, i + 1);
    }
}

/// A line without spaces has none to count.
proof fn lemma_no_spaces(s: Seq<u8>)
    requires
        forall|j: int| 0 <= j < s.len() ==> s[j] != SPACE,
    ensures
        space_count(s) == 0,
    decreases s.len(),
{
    if s.len() > 0 {
        lemma_no_spaces(s.drop_last());
    }
}

fn find_word_end(s: &[u8]) -> (r: usize)
    ensures
        r == word_end(s@, 0),
        r <= s@.len(),
{
    let mut i: usize = 0;
    while i < s.len() && s[i] != SPACE
        invariant
            i <= s@.len(),
            word_end(s@, 0) == word_end(s@, i as nat),
        decreases s@.len() - i,
    {
        i = i + 1;
    }
    i
}

fn count_spaces(s: &[u8]) -> (r: usize)
    ensures
        r == space_count(s@),
{
    let mut n: usize = 0;
    let mut i: usize = 0;
    while i < s.len()
        invariant
            i <= s@.len(),
            n == space_count(s@.take(i as int)),
            n <= i,
        decreases s@.len() - i,
    {
        assert(s@.take(i + 1).drop_last() =~= s@.take(i as int));
        if s[i] == SPACE {
            n = n + 1;
        }
        i = i + 1;
    }
    assert(s@.take(i as int) =~= s@);
    n
}

/// Whether the first `end` bytes of `s` are exactly `w`.
fn prefix_is(s: &[u8], end: usize, w: &[u8]) -> (r: bool)
    requires
        end <= s@.len(),
    ensures
        r == (s@.take(end as int) == w@),
{
    if end != w.len() {
        return false;
    }
    let mut i: usize = 0;
    while i < end
        invariant
            i <= end,
            end == w@.len(),
            end <= s@.len(),
            s@.take(i as int) == w@.take(i as int),
        decreases end - i,
    {
        if s[i] != w[i] {
            assert(s@.take(end as int)[i as int] != w@[i as int]);
            return false;
        }
        assert(s@.take(i + 1) =~= w@.take(i + 1));
        i = i + 1;
    }
    assert(w@.take(end as int) =~= w@);
    true
}

/// The bytes of `s` from `start` on.
fn tail_bytes(s: &[u8], start: usize) -> (r: Vec<u8>)
    requires
        start <= s@.len(),
    ensures
        r@ == s@.skip(start as int),
{
    let mut out: Vec<u8> = Vec::new();
    let mut i: usize = start;
    while i < s.len()
        invariant
            start <= i <= s@.len(),
            out@ == s@.subrange(start as int, i as int),
        decreases s@.len() - i,
    {
        out.push(s[i]);
        assert(out@ =~= s@.subrange(start as int, i + 1));
        i = i + 1;
    }
    assert(out@ =~= s@.skip(start as int));
    out
}

/// Reads the command on one line. Words are separated by single spaces; the
/// first word names the command, and `dump` and `load` take exactly one
/// more word, a file name.
pub fn handle_command(input: &str) -> (r: Result<Command, HandlerError>)
    ensures
        ({
            let s = input.spec_bytes();
            let w = first_word(s);
            if w == word_quit() || w == word_q() {
                r matches Ok(Command::Quit)
            } else if w == word_help() {
                r matches Ok(Command::Help)
            } else if w == word_dump() {
                if space_count(s) == 1 {
                    r matches Ok(Command::Dump(f)) && f@ == after_first_word(s)
                } else {
                    r matches Ok(Command::DumpUsage)
                }
            } else if w == word_show() {
                r matches Ok(Command::Show)
            } else if w == word_load() {
                if space_count(s) == 1 {
                    r matches Ok(Command::Load(f)) && f@ == after_first_word(s)
                } else {
                    r matches Ok(Command::LoadUsage)
                }
            } else if w.len() == 0 {
                r matches Ok(Command::Nothing)
            } else {
                r matches Err(HandlerError::ParseError)
            }
        }),
{
    let s = input.as_bytes();
    let end = find_word_end(s);
    proof {
        lemma_word_end(s@, 0);
        if end == s@.len() {
            lemma_no_spaces(s@);
        }
    }
    let quit: [u8; 4] = [113u8, 117u8, 105u8, 116u8];
    let q: [u8; 1] = [113u8];
    let help: [u8; 4] = [104u8, 101u8, 108u8, 112u8];
    let dump: [u8; 4] = [100u8, 117u8, 109u8, 112u8];
    let show: [u8; 4] = [115u8, 104u8, 111u8, 119u8];
    let load: [u8; 4] = [108u8, 111u8, 97u8, 100u8];
    assert(quit@ =~= word_quit());
    assert(q@ =~= word_q());
    assert(help@ =~= word_help());
    assert(dump@ =~= word_dump());
    assert(show@ =~= word_show());
    assert(load@ =~= word_load());
    if prefix_is(s, end, quit.as_slice()) || prefix_is(s, end, q.as_slice()) {
        Ok(Command::Quit)
    } else if prefix_is(s, end, help.as_slice()) {
        Ok(Command::Help)
    } else if prefix_is(s, end, dump.as_slice()) {
        if count_spaces(s) == 1 {
            Ok(Command::Dump(tail_bytes(s, end + 1)))
        } else {
            Ok(Command::DumpUsage)
        }
    } else if prefix_is(s, end, show.as_slice()) {
        Ok(Command::Show)
    } else if prefix_is(s, end, load.as_slice()) {
        if count_spaces(s) == 1 {
            Ok(Command::Load(tail_bytes(s, end + 1)))
        } else {
            Ok(Command::LoadUsage)
        }
    } else if end == 0 {
        Ok(Command::Nothing)
    } else {
        Err(HandlerError::ParseError)
    }
}

} // verus!
