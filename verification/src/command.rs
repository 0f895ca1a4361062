//! The command line of a request: its grammar and what each command does.
//!
//! A command line is read as whitespace-separated tokens. The first token
//! must be `command:`, the second names the command, and `set-repo` takes a
//! third, the path. Tokens after those are ignored.

use crate::response::{Response, ResponseView, BAD_REQUEST, OK};
use crate::state::State;
use crate::text::same_text;
use crate::tokens::{
    is_ascii_whitespace, is_word, join, lemma_tokens_of_join, next_token, tokens,
};
use vstd::prelude::*;
use vstd::string::*;

verus! {

/// The token that every command line starts with.
pub const COMMAND_PREFIX: &'static str = "command:";

/// Name of the command that pulls the repository.
pub const GIT_PULL: &'static str = "git-pull";

/// Name of the command that reports the repository's path.
pub const GIT_REPO: &'static str = "git-repo";

/// Name of the command that sets the repository's path.
pub const SET_REPO: &'static str = "set-repo";

/// Body of the reply to a line that is no command line.
pub const BODY_OK: &'static str = "OK";

/// Body of the reply to a command line without a command name.
pub const BODY_BAD_REQUEST: &'static str = "400";

/// Body of the reply to a command that is not known.
pub const BODY_UNKNOWN: &'static str = "Unknown command";

/// Body of the reply to `set-repo` without a path.
pub const BODY_MISSING_PATH: &'static str = "Missing path";

/// What the body of the reply to `git-repo` starts with.
pub const REPO_LABEL: &'static str = "Repo: ";

/// What follows the command's name in the body of a reply to a command that
/// was carried out.
pub const DONE_SUFFIX: &'static str = ": OK";

/// What the body of the reply to a pull that could not be started begins
/// with.
pub const PULL_FAILED_LABEL: &'static str = "[ERROR]: Failed to pull: ";

/// What a command line asks for.
#[derive(Debug, PartialEq, Eq)]
pub enum Command {
    /// The line does not start with `command:`.
    Absent,
    /// `command:` stands alone, without a command name.
    Unnamed,
    /// `git-pull`.
    GitPull,
    /// `git-repo`.
    GitRepo,
    /// `set-repo` with its path.
    SetRepo { path: String },
    /// `set-repo` without a path.
    MissingPath,
    /// Any other command name.
    Unknown,
}

/// The mathematical content of a `Command`.
pub ghost enum CommandView {
    Absent,
    Unnamed,
    GitPull,
    GitRepo,
    SetRepo { path: Seq<char> },
    MissingPath,
    Unknown,
}

impl View for Command {
    type V = CommandView;

    open spec fn view(&self) -> CommandView {
        match self {
            Command::Absent => CommandView::Absent,
            Command::Unnamed => CommandView::Unnamed,
            Command::GitPull => CommandView::GitPull,
            Command::GitRepo => CommandView::GitRepo,
            Command::SetRepo { path } => CommandView::SetRepo { path: path@ },
            Command::MissingPath => CommandView::MissingPath,
            Command::Unknown => CommandView::Unknown,
        }
    }
}

/// What the server does next for a request.
#[derive(Debug, PartialEq, Eq)]
pub enum Step {
    /// Send this response.
    Reply(Response),
    /// Pull the repository at `repo`, then send what `pull_response` makes
    /// of the outcome.
    Pull { repo: String },
}

/// The mathematical content of a `Step`.
pub ghost enum StepView {
    Reply(ResponseView),
    Pull { repo: Seq<char> },
}

impl View for Step {
    type V = StepView;

    open spec fn view(&self) -> StepView {
        match self {
            Step::Reply(response) => StepView::Reply(response@),
            Step::Pull { repo } => StepView::Pull { repo: repo@ },
        }
    }
}

/// The command that a sequence of tokens spells.
pub open spec fn parse_tokens(t: Seq<Seq<char>>) -> CommandView {
    if t.len() == 0 || t[0] != COMMAND_PREFIX@ {
        CommandView::Absent
    } else if t.len() == 1 {
        CommandView::Unnamed
    } else if t[1] == GIT_PULL@ {
        CommandView::GitPull
    } else if t[1] == GIT_REPO@ {
        CommandView::GitRepo
    } else if t[1] == SET_REPO@ {
        if t.len() == 2 {
            CommandView::MissingPath
        } else {
            CommandView::SetRepo { path: t[2] }
        }
    } else {
        CommandView::Unknown
    }
}

/// The command that a line spells.
pub open spec fn parse_line(line: Seq<char>) -> CommandView {
    parse_tokens(tokens(line))
}

/// A reply with status `OK`.
pub open spec fn ok_reply(body: Seq<char>) -> StepView {
    StepView::Reply(ResponseView { status: OK@, body })
}

/// What the server does for `command` when its repository is `repo`.
pub open spec fn next_step(command: CommandView, repo: Seq<char>) -> StepView {
    match command {
        CommandView::Absent => ok_reply(BODY_OK@),
        CommandView::Unnamed => StepView::Reply(
            ResponseView { status: BAD_REQUEST@, body: BODY_BAD_REQUEST@ },
        ),
        CommandView::GitPull => StepView::Pull { repo },
        CommandView::GitRepo => ok_reply(REPO_LABEL@ + repo),
        CommandView::SetRepo { path } => ok_reply(SET_REPO@ + DONE_SUFFIX@),
        CommandView::MissingPath => ok_reply(BODY_MISSING_PATH@),
        CommandView::Unknown => ok_reply(BODY_UNKNOWN@),
    }
}

/// The server's repository after `command`, when it was `repo` before.
pub open spec fn next_repo(command: CommandView, repo: Seq<char>) -> Seq<char> {
    match command {
        CommandView::SetRepo { path } => path,
        _ => repo,
    }
}

/// The response to a pull. `outcome` is the pull's captured output, or the
/// reason why it could not be started.
pub open spec fn pull_reply(outcome: Result<Seq<char>, Seq<char>>) -> ResponseView {
    match outcome {
        Ok(_) => ResponseView { status: OK@, body: GIT_PULL@ + DONE_SUFFIX@ },
        Err(reason) => ResponseView { status: OK@, body: PULL_FAILED_LABEL@ + reason },
    }
}

/// Every reply carries the status `OK`, but for the reply to a command line
/// without a command name, which carries `BAD_REQUEST`.
pub proof fn lemma_reply_status(command: CommandView, repo: Seq<char>)
    ensures
        OK@ != BAD_REQUEST@,
        next_step(command, repo) matches StepView::Reply(reply) ==> reply.status == if command
            is Unnamed {
            BAD_REQUEST@
        } else {
            OK@
        },
        next_step(command, repo) is Pull <==> command is GitPull,
{
    reveal_strlit("HTTP/1.1 200 OK");
    reveal_strlit("HTTP/1.1 400 BAD REQUEST");
    assert(OK@.len() != BAD_REQUEST@.len());
}

/// Only `set-repo` with a path changes the repository, and it changes it to
/// that path.
pub proof fn lemma_repo_changes(command: CommandView, repo: Seq<char>)
    ensures
        command matches CommandView::SetRepo { path } ==> next_repo(command, repo) == path,
        !(command is SetRepo) ==> next_repo(command, repo) == repo,
{
}

/// The command line that names `name` and nothing else.
pub open spec fn command_line(name: Seq<char>) -> Seq<char> {
    COMMAND_PREFIX@ + seq![' '] + name
}

/// The command line that sets the repository to `path`.
pub open spec fn set_repo_line(path: Seq<char>) -> Seq<char> {
    command_line(SET_REPO@) + seq![' '] + path
}

/// A command line made of `command:` and words, each set off by one
/// whitespace character, spells what those tokens spell.
pub proof fn lemma_parse_spaced_words(words: Seq<Seq<char>>, sep: char)
    requires
        is_ascii_whitespace(sep),
        forall|k: int| 0 <= k < words.len() ==> is_word(#[trigger] words[k]),
    ensures
        parse_line(join(seq![COMMAND_PREFIX@] + words, sep)) == parse_tokens(
            seq![COMMAND_PREFIX@] + words,
        ),
{
    reveal_strlit("command:");
    let all = seq![COMMAND_PREFIX@] + words;
    assert forall|k: int| 0 <= k < all.len() implies is_word(#[trigger] all[k]) by {
        if k > 0 {
            assert(all[k] == words[k - 1]);
        }
    }
    lemma_tokens_of_join(all, sep);
}

/// A command line spells no name exactly when `command:` is its only token.
pub proof fn lemma_unnamed(line: Seq<char>)
    ensures
        parse_line(line) is Unnamed <==> tokens(line) == seq![COMMAND_PREFIX@],
{
    if tokens(line).len() == 1 && tokens(line)[0] == COMMAND_PREFIX@ {
        assert(tokens(line) =~= seq![COMMAND_PREFIX@]);
    }
}

/// What a command line with a name alone spells: one of the two commands
/// without a path, `set-repo` without its path, or an unknown command.
pub proof fn lemma_named_line(name: Seq<char>)
    requires
        is_word(name),
    ensures
        parse_line(command_line(name)) == if name == GIT_PULL@ {
            CommandView::GitPull
        } else if name == GIT_REPO@ {
            CommandView::GitRepo
        } else if name == SET_REPO@ {
            CommandView::MissingPath
        } else {
            CommandView::Unknown
        },
{
    let words = seq![name];
    lemma_parse_spaced_words(words, ' ');
    reveal_with_fuel(join, 3);
    assert(join(seq![COMMAND_PREFIX@] + words, ' ') =~= command_line(name));
}

/// A `set-repo` line with a path spells `set-repo` with that path.
pub proof fn lemma_set_repo_line(path: Seq<char>)
    requires
        is_word(path),
    ensures
        parse_line(set_repo_line(path)) == (CommandView::SetRepo { path }),
{
    reveal_strlit("set-repo");
    reveal_strlit("git-pull");
    reveal_strlit("git-repo");
    assert(SET_REPO@[0] != GIT_PULL@[0]);
    assert(SET_REPO@[0] != GIT_REPO@[0]);
    let words = seq![SET_REPO@, path];
    lemma_parse_spaced_words(words, ' ');
    reveal_with_fuel(join, 4);
    assert(join(seq![COMMAND_PREFIX@] + words, ' ') =~= set_repo_line(path));
}

/// After a `set-repo` line with a path, a `git-repo` line reports that path
/// and a `git-pull` line asks for a pull there, whatever the repository was
/// before.
pub proof fn lemma_set_repo_is_remembered(path: Seq<char>, repo: Seq<char>)
    requires
        is_word(path),
    ensures
        next_repo(parse_line(set_repo_line(path)), repo) == path,
        next_step(parse_line(command_line(GIT_REPO@)), path) == ok_reply(REPO_LABEL@ + path),
        next_step(parse_line(command_line(GIT_PULL@)), path) == (StepView::Pull { repo: path }),
{
    reveal_strlit("git-pull");
    reveal_strlit("git-repo");
    assert(GIT_REPO@[4] != GIT_PULL@[4]);
    lemma_set_repo_line(path);
    lemma_named_line(GIT_REPO@);
    lemma_named_line(GIT_PULL@);
}

/// Whatever a pull printed, and whether or not it could be started, the
/// response to it carries the status `OK`.
pub proof fn lemma_pull_reply_status(outcome: Result<Seq<char>, Seq<char>>)
    ensures
        pull_reply(outcome).status == OK@,
        outcome is Ok ==> pull_reply(outcome).body == GIT_PULL@ + DONE_SUFFIX@,
        outcome matches Err(reason) ==> pull_reply(outcome).body == PULL_FAILED_LABEL@ + reason,
{
}

/// Reads a command line.
pub fn parse_command(line: &str) -> (command: Command)
    ensures
        command@ == parse_line(line@),
{
    let (first, after_first) = match next_token(line) {
        Some(cut) => cut,
        None => {
            return Command::Absent;
        },
    };
    if !same_text(first, COMMAND_PREFIX) {
        return Command::Absent;
    }
    let (name, after_name) = match next_token(after_first) {
        Some(cut) => cut,
        None => {
            return Command::Unnamed;
        },
    };
    if same_text(name, GIT_PULL) {
        Command::GitPull
    } else if same_text(name, GIT_REPO) {
        Command::GitRepo
    } else if same_text(name, SET_REPO) {
        match next_token(after_name) {
            Some((path, _)) => {
                Command::SetRepo { path: String::from_str(path) }
            },
            None => Command::MissingPath,
        }
    } else {
        Command::Unknown
    }
}

/// Carries out `command` on `state`, as far as that takes no work outside
/// the server, and says what to do next.
pub fn dispatch(command: Command, state: &mut State) -> (step: Step)
    ensures
        step@ == next_step(command@, old(state).repo@),
        final(state).repo@ == next_repo(command@, old(state).repo@),
{
    match command {
        Command::Absent => Step::Reply(Response::new(OK, BODY_OK)),
        Command::Unnamed => Step::Reply(Response::new(BAD_REQUEST, BODY_BAD_REQUEST)),
        Command::GitPull => Step::Pull { repo: state.repo.clone() },
        Command::GitRepo => {
            let mut body: String = String::from_str(REPO_LABEL);
            body.append(state.repo.as_str());
            Step::Reply(Response { status: String::from_str(OK), body })
        },
        Command::SetRepo { path } => {
            state.repo = path;
            let mut body: String = String::from_str(SET_REPO);
            body.append(DONE_SUFFIX);
            Step::Reply(Response { status: String::from_str(OK), body })
        },
        Command::MissingPath => Step::Reply(Response::new(OK, BODY_MISSING_PATH)),
        Command::Unknown => Step::Reply(Response::new(OK, BODY_UNKNOWN)),
    }
}

/// Reads the command line `line` and carries it out on `state`.
pub fn process_command(line: &str, state: &mut State) -> (step: Step)
    ensures
        step@ == next_step(parse_line(line@), old(state).repo@),
        final(state).repo@ == next_repo(parse_line(line@), old(state).repo@),
{
    let command: Command = parse_command(line);
    dispatch(command, state)
}

/// The response to send after a pull. `outcome` holds the pull's captured
/// output, or the reason why it could not be started.
pub fn pull_response(outcome: &Result<String, String>) -> (response: Response)
    ensures
        response@ == pull_reply(
            match *outcome {
                Ok(output) => Ok(output@),
                Err(reason) => Err(reason@),
            },
        ),
{
    match outcome {
        Ok(_) => {
            let mut body: String = String::from_str(GIT_PULL);
            body.append(DONE_SUFFIX);
            Response { status: String::from_str(OK), body }
        },
        Err(reason) => {
            let mut body: String = String::from_str(PULL_FAILED_LABEL);
            body.append(reason.as_str());
            Response { status: String::from_str(OK), body }
        },
    }
}

} // verus!
