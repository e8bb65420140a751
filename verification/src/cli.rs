//! Commands of the interactive chat of the command-line tool.

use vstd::prelude::*;

use crate::text::{concat5, decimal, owned, push_decimal, starts_with, str_eq, substring, trim, trimmed};

verus! {

/// What a line typed into the interactive chat asks for.
#[derive(Debug, PartialEq, Eq)]
pub enum ChatCommand {
    /// A blank line: nothing to do.
    Skip,
    /// `quit` or `exit`.
    Quit,
    /// `reset`: clear the conversation.
    Reset,
    /// `/audio <file> [text]`: an audio turn, with an optional text prompt.
    Audio { path: String, text_prompt: Option<String> },
    /// Any other line: a text turn.
    Text(String),
}

/// `str::splitn(2, ' ')`: the text before the first space, and the text
/// after it when there is a space.
pub open spec fn split_once_space(s: Seq<char>) -> (Seq<char>, Option<Seq<char>>)
    decreases s.len(),
{
    if s.len() == 0 {
        (s, None)
    } else if s[0] == ' ' {
        (Seq::empty(), Some(s.drop_first()))
    } else {
        let (a, b) = split_once_space(s.drop_first());
        (seq![s[0]] + a, b)
    }
}

/// The command a line asks for: the line is trimmed first, and the text
/// prompt of an audio turn is trimmed and dropped when blank.
pub open spec fn chat_command_spec(line: Seq<char>) -> (Seq<char>, Seq<char>, Option<Seq<char>>) {
    let t = trimmed(line);
    if t.len() == 0 {
        ("skip"@, Seq::empty(), None)
    } else if t == "quit"@ || t == "exit"@ {
        ("quit"@, Seq::empty(), None)
    } else if t == "reset"@ {
        ("reset"@, Seq::empty(), None)
    } else if "/audio "@.is_prefix_of(t) {
        let (path, rest) = split_once_space(t.skip(7));
        let prompt = match rest {
            Some(r) => if trimmed(r).len() > 0 {
                Some(trimmed(r))
            } else {
                None
            },
            None => None,
        };
        ("audio"@, path, prompt)
    } else {
        ("text"@, t, None)
    }
}

/// The command as its kind, its main text and its prompt.
pub open spec fn command_view(c: ChatCommand) -> (Seq<char>, Seq<char>, Option<Seq<char>>) {
    match c {
        ChatCommand::Skip => ("skip"@, Seq::empty(), None),
        ChatCommand::Quit => ("quit"@, Seq::empty(), None),
        ChatCommand::Reset => ("reset"@, Seq::empty(), None),
        ChatCommand::Audio { path, text_prompt } => (
            "audio"@,
            path@,
            match text_prompt {
                Some(p) => Some(p@),
                None => None,
            },
        ),
        ChatCommand::Text(t) => ("text"@, t@, None),
    }
}

proof fn lemma_split_at_first_space(s: Seq<char>, i: int)
    requires
        0 <= i <= s.len(),
        forall|j: int| 0 <= j < i ==> s[j] != ' ',
        i < s.len() ==> s[i] == ' ',
    ensures
        split_once_space(s) == (s.subrange(0, i), if i < s.len() {
            Some(s.subrange(i + 1, s.len() as int))
        } else {
            None
        }),
    decreases i,
{
    if i == 0 {
        if s.len() > 0 {
            assert(s.drop_first() =~= s.subrange(1, s.len() as int));
        }
        assert(s.subrange(0, 0) =~= Seq::<char>::empty());
        if s.len() == 0 {
            assert(s =~= Seq::<char>::empty());
        }
    } else {
        let t = s.drop_first();
        lemma_split_at_first_space(t, i - 1);
        assert(seq![s[0]] + t.subrange(0, i - 1) =~= s.subrange(0, i));
        if i < s.len() {
            assert(t.subrange(i, t.len() as int) =~= s.subrange(i + 1, s.len() as int));
        }
    }
}

/// Read a line typed into the interactive chat.
pub fn parse_chat_line(line: &str) -> (c: ChatCommand)
    ensures
        command_view(c) == chat_command_spec(line@),
{
    proof {
        reveal_strlit("/audio ");
    }
    let t = trim(line);
    if t.is_empty() {
        return ChatCommand::Skip;
    }
    if str_eq(t, "quit") || str_eq(t, "exit") {
        return ChatCommand::Quit;
    }
    if str_eq(t, "reset") {
        return ChatCommand::Reset;
    }
    if !starts_with(t, "/audio ") {
        return ChatCommand::Text(owned(t));
    }
    let n = t.unicode_len();
    let rest = substring(t, 7, n);
    let r = rest.as_str();
    let m = r.unicode_len();
    let mut i: usize = 0;
    while i < m && r.get_char(i) != ' '
        invariant
            m == r@.len(),
            i <= m,
            forall|j: int| 0 <= j < i ==> r@[j] != ' ',
        decreases m - i,
    {
        i = i + 1;
    }
    proof {
        assert(t@.skip(7) =~= r@);
        lemma_split_at_first_space(r@, i as int);
    }
    let path = substring(r, 0, i);
    if i == m {
        return ChatCommand::Audio { path, text_prompt: None };
    }
    let after = substring(r, i + 1, m);
    let prompt = trim(after.as_str());
    if prompt.is_empty() {
        ChatCommand::Audio { path, text_prompt: None }
    } else {
        ChatCommand::Audio { path, text_prompt: Some(owned(prompt)) }
    }
}

/// `Path::file_stem` of a path, when there is one and it is valid text.
pub uninterp spec fn path_file_stem(path: Seq<char>) -> Option<Seq<char>>;

/// `Path::extension` of a path, when there is one and it is valid text.
pub uninterp spec fn path_extension(path: Seq<char>) -> Option<Seq<char>>;

/// `Path::with_file_name`: the path with its file name replaced.
pub uninterp spec fn path_with_file_name(path: Seq<char>, name: Seq<char>) -> Seq<char>;

/// `std::path::Path::file_stem`, read as text: the file name without its
/// extension. Its result depends on the path alone; the path grammar is not
/// stated here.
#[verifier::external_body]
fn file_stem(path: &str) -> (r: Option<String>)
    ensures
        r matches Some(s) ==> path_file_stem(path@) == Some(s@),
        r is None ==> path_file_stem(path@) is None,
{
    std::path::Path::new(path).file_stem().and_then(|s| s.to_str()).map(|s| s.to_string())
}

/// `std::path::Path::extension`, read as text: what follows the last `.` of
/// the file name. Its result depends on the path alone.
#[verifier::external_body]
fn extension(path: &str) -> (r: Option<String>)
    ensures
        r matches Some(s) ==> path_extension(path@) == Some(s@),
        r is None ==> path_extension(path@) is None,
{
    std::path::Path::new(path).extension().and_then(|s| s.to_str()).map(|s| s.to_string())
}

/// `std::path::Path::with_file_name`, as text. Its result depends on the
/// path and the name alone.
#[verifier::external_body]
fn with_file_name(path: &str, name: &str) -> (r: String)
    ensures
        r@ == path_with_file_name(path@, name@),
{
    std::path::Path::new(path).with_file_name(name).to_string_lossy().into_owned()
}

/// The file name of the audio of a chat turn: the output path's stem (or
/// `chat_output`), `-`, the turn number, `.` and its extension (or `wav`).
pub open spec fn turn_file_name(path: Seq<char>, turn: usize) -> Seq<char> {
    (match path_file_stem(path) {
        Some(s) => s,
        None => "chat_output"@,
    }) + "-"@ + decimal(turn as nat) + "."@ + (match path_extension(path) {
        Some(e) => e,
        None => "wav"@,
    })
}

/// Where the audio of a chat turn is saved: `chat_output.wav` becomes
/// `chat_output-<turn>.wav` beside it.
pub fn turn_output_path(path: &str, turn: usize) -> (r: String)
    ensures
        r@ == path_with_file_name(path@, turn_file_name(path@, turn)),
{
    let stem = match file_stem(path) {
        Some(s) => s,
        None => owned("chat_output"),
    };
    let ext = match extension(path) {
        Some(e) => e,
        None => owned("wav"),
    };
    let mut number = owned("");
    push_decimal(&mut number, turn);
    proof {
        reveal_strlit("");
        reveal_strlit("chat_output");
        reveal_strlit("wav");
        assert(number@ =~= decimal(turn as nat));
    }
    let name = concat5(stem.as_str(), "-", number.as_str(), ".", ext.as_str());
    with_file_name(path, name.as_str())
}

} // verus!
