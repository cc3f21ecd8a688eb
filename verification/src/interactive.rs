//! Reading one line of an interactive session.

use vstd::prelude::*;
use vstd::string::StringExecFns;
use crate::text::{id_of_text, parse_id, split_words, whitespace_words, words_view};

verus! {

/// What a line of input asks for.
#[derive(Debug, Clone, PartialEq, Eq)]
pub enum Request {
    /// Add a transaction. The amount is still text: it may be no number.
    Add { amount: String, category: String, is_income: bool },
    /// Delete the transaction with this id.
    Delete { id: u32 },
    /// A delete whose id is no number: nothing is to be loaded or saved.
    InvalidId,
    List,
    Summary,
    /// Leave the session.
    Exit,
    /// No known command: the session goes on.
    Unknown,
}

/// A request as plain values.
pub enum RequestView {
    Add { amount: Seq<char>, category: Seq<char>, is_income: bool },
    Delete { id: u32 },
    InvalidId,
    List,
    Summary,
    Exit,
    Unknown,
}

impl View for Request {
    type V = RequestView;

    open spec fn view(&self) -> RequestView {
        match self {
            Request::Add { amount, category, is_income } => RequestView::Add {
                amount: amount@,
                category: category@,
                is_income: *is_income,
            },
            Request::Delete { id } => RequestView::Delete { id: *id },
            Request::InvalidId => RequestView::InvalidId,
            Request::List => RequestView::List,
            Request::Summary => RequestView::Summary,
            Request::Exit => RequestView::Exit,
            Request::Unknown => RequestView::Unknown,
        }
    }
}

/// The request that a line's words spell. The three-word form of `add` is
/// tried before the four-word form with `income`.
pub open spec fn request_of(words: Seq<Seq<char>>) -> RequestView {
    if words.len() == 3 && words[0] == "add"@ {
        RequestView::Add { amount: words[1], category: words[2], is_income: false }
    } else if words.len() == 4 && words[0] == "add"@ && words[1] == "income"@ {
        RequestView::Add { amount: words[2], category: words[3], is_income: true }
    } else if words.len() == 2 && words[0] == "delete"@ {
        match id_of_text(words[1]) {
            Some(id) => RequestView::Delete { id },
            None => RequestView::InvalidId,
        }
    } else if words.len() == 1 && words[0] == "list"@ {
        RequestView::List
    } else if words.len() == 1 && words[0] == "summary"@ {
        RequestView::Summary
    } else if words.len() == 1 && words[0] == "exit"@ {
        RequestView::Exit
    } else {
        RequestView::Unknown
    }
}

fn is_word(word: &String, name: &str) -> (same: bool)
    ensures
        same == (word@ == name@),
{
    let other = String::from_str(name);
    *word == other
}

/// Tells which request a line's words spell.
pub fn classify(words: &Vec<String>) -> (request: Request)
    ensures
        request@ == request_of(words_view(words@)),
{
    let n = words.len();
    if n == 3 && is_word(&words[0], "add") {
        Request::Add { amount: words[1].clone(), category: words[2].clone(), is_income: false }
    } else if n == 4 && is_word(&words[0], "add") && is_word(&words[1], "income") {
        Request::Add { amount: words[2].clone(), category: words[3].clone(), is_income: true }
    } else if n == 2 && is_word(&words[0], "delete") {
        match parse_id(words[1].as_str()) {
            Some(id) => Request::Delete { id },
            None => Request::InvalidId,
        }
    } else if n == 1 && is_word(&words[0], "list") {
        Request::List
    } else if n == 1 && is_word(&words[0], "summary") {
        Request::Summary
    } else if n == 1 && is_word(&words[0], "exit") {
        Request::Exit
    } else {
        Request::Unknown
    }
}

/// One step of the session: the request for a line that was read, or `Exit`
/// where the input has ended.
pub fn interactive_mode(input: Option<&str>) -> (request: Request)
    ensures
        request@ == (match input {
            Some(line) => request_of(whitespace_words(line@)),
            None => RequestView::Exit,
        }),
{
    match input {
        Some(line) => {
            let words = split_words(line);
            classify(&words)
        },
        None => Request::Exit,
    }
}

/// A command that is ready to run on the ledger.
#[derive(Debug, Clone, PartialEq, Eq)]
pub enum Command {
    /// Add a transaction; `amount` is the bit pattern of a binary64 number.
    Add { amount: u64, category: String, is_income: bool },
    Delete { id: u32 },
    List,
    Summary,
}

/// Why a line runs no command.
#[derive(Debug, Clone, Copy, PartialEq, Eq, Structural)]
pub enum Fault {
    /// The amount is no number.
    InvalidAmount,
    /// The id is no number.
    InvalidId,
    /// The line is no known command.
    UnknownCommand,
}

/// What the session does next.
#[derive(Debug, Clone, PartialEq, Eq)]
pub enum Step {
    /// Run the command, then read on.
    Run(Command),
    /// Report the fault, touch nothing, and read on.
    Reject(Fault),
    /// Leave the session.
    Exit,
}

/// A command as plain values.
pub enum CommandView {
    Add { amount: u64, category: Seq<char>, is_income: bool },
    Delete { id: u32 },
    List,
    Summary,
}

/// A step as plain values.
pub enum StepView {
    Run(CommandView),
    Reject(Fault),
    Exit,
}

impl View for Command {
    type V = CommandView;

    open spec fn view(&self) -> CommandView {
        match self {
            Command::Add { amount, category, is_income } => CommandView::Add {
                amount: *amount,
                category: category@,
                is_income: *is_income,
            },
            Command::Delete { id } => CommandView::Delete { id: *id },
            Command::List => CommandView::List,
            Command::Summary => CommandView::Summary,
        }
    }
}

impl View for Step {
    type V = StepView;

    open spec fn view(&self) -> StepView {
        match self {
            Step::Run(command) => StepView::Run(command@),
            Step::Reject(fault) => StepView::Reject(*fault),
            Step::Exit => StepView::Exit,
        }
    }
}

/// The step that follows a request. `amount` is what the amount's text reads
/// as, absent where it is no number; only an `Add` request looks at it.
pub open spec fn step_of(request: RequestView, amount: Option<u64>) -> StepView {
    match request {
        RequestView::Add { amount: _, category, is_income } => match amount {
            Some(bits) => StepView::Run(CommandView::Add { amount: bits, category, is_income }),
            None => StepView::Reject(Fault::InvalidAmount),
        },
        RequestView::Delete { id } => StepView::Run(CommandView::Delete { id }),
        RequestView::InvalidId => StepView::Reject(Fault::InvalidId),
        RequestView::List => StepView::Run(CommandView::List),
        RequestView::Summary => StepView::Run(CommandView::Summary),
        RequestView::Exit => StepView::Exit,
        RequestView::Unknown => StepView::Reject(Fault::UnknownCommand),
    }
}

/// Decides what follows a request, once the amount's text has been read as a
/// number or found to be none. A rejected line runs no command, so the ledger
/// is neither loaded nor saved for it.
pub fn resolve(request: Request, amount: Option<u64>) -> (step: Step)
    ensures
        step@ == step_of(request@, amount),
{
    match request {
        Request::Add { amount: _, category, is_income } => match amount {
            Some(bits) => Step::Run(Command::Add { amount: bits, category, is_income }),
            None => Step::Reject(Fault::InvalidAmount),
        },
        Request::Delete { id } => Step::Run(Command::Delete { id }),
        Request::InvalidId => Step::Reject(Fault::InvalidId),
        Request::List => Step::Run(Command::List),
        Request::Summary => Step::Run(Command::Summary),
        Request::Exit => Step::Exit,
        Request::Unknown => Step::Reject(Fault::UnknownCommand),
    }
}

} // verus!
