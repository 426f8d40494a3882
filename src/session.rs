use crate::error::ReaderError;
use crate::feed::{feed_text, Rss};
use crate::reader::RssReader;
use crate::registry::{category_label, category_url, label_of, CATEGORY_COUNT, EXIT_SELECTION};
use crate::selection::{parse_selection, selection_value};
use vstd::prelude::*;

verus! {

/// What the caller of a session does next.
#[derive(Debug)]
pub enum Action {
    /// End the process with this status, printing nothing more.
    Exit { code: i32 },
    /// Send one GET request to this address.
    Fetch { url: String },
    /// Read the whole response body as text.
    ReadBody,
    /// Print this text, then end the process with status 0.
    Display { text: String },
    /// Print this error on the error stream, then end the process with status 1.
    Fail { error: ReaderError },
}

/// The first line of the menu.
pub const MENU_TITLE: &'static str = "Adnkronos RSS Reader\n";

/// The menu line of the exit selection.
pub const MENU_EXIT: &'static str = "0: Exit\n";

/// The prompt printed after the menu.
pub const MENU_PROMPT: &'static str = "\nSelect category number: ";

/// The decimal text of a category id, for ids `1..=8`.
pub open spec fn id_text(id: u32) -> Seq<char> {
    if id == 1 {
        seq!['1']
    } else if id == 2 {
        seq!['2']
    } else if id == 3 {
        seq!['3']
    } else if id == 4 {
        seq!['4']
    } else if id == 5 {
        seq!['5']
    } else if id == 6 {
        seq!['6']
    } else if id == 7 {
        seq!['7']
    } else {
        seq!['8']
    }
}

fn id_str(id: u32) -> (r: &'static str)
    requires
        1 <= id <= CATEGORY_COUNT,
    ensures
        r@ == id_text(id),
{
    proof {
        reveal_strlit("1");
        reveal_strlit("2");
        reveal_strlit("3");
        reveal_strlit("4");
        reveal_strlit("5");
        reveal_strlit("6");
        reveal_strlit("7");
        reveal_strlit("8");
    }
    if id == 1 {
        "1"
    } else if id == 2 {
        "2"
    } else if id == 3 {
        "3"
    } else if id == 4 {
        "4"
    } else if id == 5 {
        "5"
    } else if id == 6 {
        "6"
    } else if id == 7 {
        "7"
    } else {
        "8"
    }
}

/// The menu line of category `id`.
pub open spec fn menu_line(id: u32) -> Seq<char> {
    id_text(id) + ": "@ + label_of(id)@ + "\n"@
}

/// The menu lines of the categories `1..=n`, in that order.
pub open spec fn menu_lines(n: u32) -> Seq<char>
    decreases n,
{
    if n == 0 {
        seq![]
    } else {
        menu_lines((n - 1) as u32) + menu_line(n)
    }
}

/// The whole menu: the title, the exit line, one line per category in the
/// order of their ids, then the prompt.
pub open spec fn menu_spec() -> Seq<char> {
    MENU_TITLE@ + MENU_EXIT@ + menu_lines(CATEGORY_COUNT) + MENU_PROMPT@
}

/// The menu shown before a selection is read.
pub fn menu_text() -> (r: String)
    ensures
        r@ == menu_spec(),
{
    let mut out = String::new();
    out.append(MENU_TITLE);
    out.append(MENU_EXIT);
    let mut id: u32 = 1;
    while id <= CATEGORY_COUNT
        invariant
            1 <= id <= CATEGORY_COUNT + 1,
            out@ == MENU_TITLE@ + MENU_EXIT@ + menu_lines((id - 1) as u32),
        decreases CATEGORY_COUNT + 1 - id,
    {
        let mut line = String::new();
        line.append(id_str(id));
        line.append(": ");
        line.append(category_label(id));
        line.append("\n");
        assert(line@ =~= menu_line(id));
        out.append(line.as_str());
        id = id + 1;
    }
    out.append(MENU_PROMPT);
    out
}

/// Whether an HTTP status code is a success, `200..=299`.
pub open spec fn is_success(code: u16) -> bool {
    200 <= code <= 299
}

/// Accepts a success status; any other status is an error that carries the
/// code.
pub fn check_status(code: u16) -> (r: Result<(), ReaderError>)
    ensures
        is_success(code) ==> r == Ok::<(), ReaderError>(()),
        !is_success(code) ==> r == Err::<(), ReaderError>(ReaderError::UnexpectedStatus { code }),
{
    if 200 <= code && code <= 299 {
        Ok(())
    } else {
        Err(ReaderError::UnexpectedStatus { code })
    }
}

/// After the response status arrives: read the body on success, else stop
/// without reading it.
pub fn on_status(code: u16) -> (r: Action)
    ensures
        is_success(code) ==> r == Action::ReadBody,
        !is_success(code) ==> r == (Action::Fail { error: ReaderError::UnexpectedStatus { code } }),
{
    match check_status(code) {
        Ok(()) => Action::ReadBody,
        Err(error) => Action::Fail { error },
    }
}

/// After the request failed in transit or timed out.
pub fn on_transport_failure(cause: String) -> (r: Action)
    ensures
        r == (Action::Fail { error: ReaderError::Transport { cause } }),
{
    Action::Fail { error: ReaderError::Transport { cause } }
}

impl RssReader {
    /// After a line is read at the prompt: `0` exits with status 0, a
    /// category id fetches its feed, and anything else fails.
    pub fn on_selection(&self, line: &str) -> (r: Action)
        ensures
            match selection_value(line@) {
                Some(v) => if v > u32::MAX {
                    r == (Action::Fail { error: ReaderError::InvalidSelection })
                } else if v == EXIT_SELECTION {
                    r == (Action::Exit { code: 0 })
                } else {
                    match category_url(v as u32) {
                        Some(url) => r matches Action::Fetch { url: u } && u@ == url,
                        None => r == (Action::Fail {
                            error: ReaderError::CategoryNotFound { id: v as u32 },
                        }),
                    }
                },
                None => r == (Action::Fail { error: ReaderError::InvalidSelection }),
            },
    {
        match parse_selection(line) {
            Err(error) => Action::Fail { error },
            Ok(id) => {
                if id == EXIT_SELECTION {
                    Action::Exit { code: 0 }
                } else {
                    match self.lookup(id) {
                        Ok(url) => Action::Fetch { url: url.to_owned() },
                        Err(error) => Action::Fail { error },
                    }
                }
            },
        }
    }

    /// After the body was parsed, or failed to parse: a feed is displayed
    /// whole, and a parse failure shows nothing of it.
    pub fn on_body(&self, parsed: Result<Rss, String>) -> (r: Action)
        ensures
            match parsed {
                Ok(rss) => r matches Action::Display { text } && text@ == feed_text(rss),
                Err(detail) => r == (Action::Fail { error: ReaderError::ParseError { detail } }),
            },
    {
        match parsed {
            Ok(rss) => Action::Display { text: self.display_feed(&rss) },
            Err(detail) => Action::Fail { error: ReaderError::ParseError { detail } },
        }
    }
}

} // verus!
