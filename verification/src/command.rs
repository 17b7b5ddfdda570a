//! Interpretation of a line typed at the interactive prompt.

use vstd::prelude::*;
use crate::text::{ascii_lower_code, eq_ignore_ascii_case, same_ignoring_ascii_case, trim, trimmed};

verus! {

/// What a line typed at the prompt asks for.
#[derive(Clone, Debug, PartialEq, Eq)]
pub enum ReplCommand {
    /// End the program after a summary of the session.
    Quit,
    /// Show the available commands.
    Help,
    /// Clear the terminal screen.
    Clear,
    /// Show information on the current session.
    Status,
    /// A task for the assistant, with surrounding whitespace removed.
    Prompt(String),
}

/// What `input` asks for: a command word, matched after trimming and up to
/// ASCII case, in the order quit, help, clear, status; else a prompt.
pub open spec fn command_meaning(input: Seq<char>, r: ReplCommand) -> bool {
    let t = trim(input);
    let quit = eq_ignore_ascii_case(t, "quit"@);
    let help = eq_ignore_ascii_case(t, "help"@);
    let clear = eq_ignore_ascii_case(t, "clear"@);
    let status = eq_ignore_ascii_case(t, "status"@);
    match r {
        ReplCommand::Quit => quit,
        ReplCommand::Help => !quit && help,
        ReplCommand::Clear => !quit && !help && clear,
        ReplCommand::Status => !quit && !help && !clear && status,
        ReplCommand::Prompt(p) => !quit && !help && !clear && !status && p@ == t,
    }
}

/// Interprets a line typed at the prompt.
pub fn parse_command(input: &str) -> (r: ReplCommand)
    ensures
        command_meaning(input@, r),
{
    let t = trimmed(input);
    if same_ignoring_ascii_case(t.as_str(), "quit") {
        ReplCommand::Quit
    } else if same_ignoring_ascii_case(t.as_str(), "help") {
        ReplCommand::Help
    } else if same_ignoring_ascii_case(t.as_str(), "clear") {
        ReplCommand::Clear
    } else if same_ignoring_ascii_case(t.as_str(), "status") {
        ReplCommand::Status
    } else {
        ReplCommand::Prompt(t)
    }
}

/// `t` spells `word`, a word of lowercase ASCII letters, with each letter in
/// either case and nothing before, after or between them.
pub open spec fn spells_in_any_case(t: Seq<char>, word: Seq<char>) -> bool {
    &&& t.len() == word.len()
    &&& forall|i: int|
        0 <= i < t.len() ==> ((#[trigger] t[i]) as u32 == word[i] as u32 || t[i] as u32 + 32
            == word[i] as u32)
}

/// `word` is made of lowercase ASCII letters.
pub open spec fn lowercase_word(word: Seq<char>) -> bool {
    forall|i: int| 0 <= i < word.len() ==> 97 <= (#[trigger] word[i]) as u32 <= 122
}

proof fn lemma_ascii_case_spelling(t: Seq<char>, word: Seq<char>)
    requires
        lowercase_word(word),
    ensures
        eq_ignore_ascii_case(t, word) <==> spells_in_any_case(t, word),
{
    if eq_ignore_ascii_case(t, word) {
        assert forall|i: int| 0 <= i < t.len() implies ((#[trigger] t[i]) as u32 == word[i] as u32
            || t[i] as u32 + 32 == word[i] as u32) by {
            assert(97 <= word[i] as u32 <= 122);
            assert(ascii_lower_code(t[i]) == ascii_lower_code(word[i]));
        }
    }
    if spells_in_any_case(t, word) {
        assert forall|i: int| 0 <= i < t.len() implies ascii_lower_code(#[trigger] t[i])
            == ascii_lower_code(word[i]) by {
            assert(97 <= word[i] as u32 <= 122);
        }
    }
}

proof fn lemma_command_words()
    ensures
        "quit"@ == seq!['q', 'u', 'i', 't'],
        "help"@ == seq!['h', 'e', 'l', 'p'],
        "clear"@ == seq!['c', 'l', 'e', 'a', 'r'],
        "status"@ == seq!['s', 't', 'a', 't', 'u', 's'],
        lowercase_word(seq!['q', 'u', 'i', 't']),
        lowercase_word(seq!['h', 'e', 'l', 'p']),
        lowercase_word(seq!['c', 'l', 'e', 'a', 'r']),
        lowercase_word(seq!['s', 't', 'a', 't', 'u', 's']),
{
    reveal_strlit("quit");
    reveal_strlit("help");
    reveal_strlit("clear");
    reveal_strlit("status");
    assert("quit"@ =~= seq!['q', 'u', 'i', 't']);
    assert("help"@ =~= seq!['h', 'e', 'l', 'p']);
    assert("clear"@ =~= seq!['c', 'l', 'e', 'a', 'r']);
    assert("status"@ =~= seq!['s', 't', 'a', 't', 'u', 's']);
}

/// A line is a command only when, once trimmed, the whole of it spells the
/// command word in any ASCII case; a line that spells none of the four words
/// is a prompt holding the trimmed line. So a line longer than a command word
/// (such as "help me fix the failing test") is always a prompt.
pub proof fn law_commands_are_whole_words(input: Seq<char>, r: ReplCommand)
    requires
        command_meaning(input, r),
    ensures
        r is Quit ==> spells_in_any_case(trim(input), seq!['q', 'u', 'i', 't']),
        r is Help ==> spells_in_any_case(trim(input), seq!['h', 'e', 'l', 'p']),
        r is Clear ==> spells_in_any_case(trim(input), seq!['c', 'l', 'e', 'a', 'r']),
        r is Status ==> spells_in_any_case(trim(input), seq!['s', 't', 'a', 't', 'u', 's']),
        spells_in_any_case(trim(input), seq!['q', 'u', 'i', 't']) ==> r is Quit,
        !spells_in_any_case(trim(input), seq!['q', 'u', 'i', 't'])
            && !spells_in_any_case(trim(input), seq!['h', 'e', 'l', 'p'])
            && !spells_in_any_case(trim(input), seq!['c', 'l', 'e', 'a', 'r'])
            && !spells_in_any_case(trim(input), seq!['s', 't', 'a', 't', 'u', 's'])
            ==> (r matches ReplCommand::Prompt(p) && p@ == trim(input)),
        trim(input).len() > 6 ==> (r matches ReplCommand::Prompt(p) && p@ == trim(input)),
{
    lemma_command_words();
    let t = trim(input);
    lemma_ascii_case_spelling(t, seq!['q', 'u', 'i', 't']);
    lemma_ascii_case_spelling(t, seq!['h', 'e', 'l', 'p']);
    lemma_ascii_case_spelling(t, seq!['c', 'l', 'e', 'a', 'r']);
    lemma_ascii_case_spelling(t, seq!['s', 't', 'a', 't', 'u', 's']);
}

} // verus!
