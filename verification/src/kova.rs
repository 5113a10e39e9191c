//! State of the Kova thin-client web app (the UI itself is rendered outside
//! the library).

use vstd::prelude::*;

verus! {

/// Kova web app state: the input line, the message log, and whether the
/// backlog panel is shown.
#[derive(Debug)]
pub struct KovaWebApp {
    pub input: String,
    pub messages: Vec<String>,
    pub show_backlog: bool,
}

impl KovaWebApp {
    /// The app as it starts: empty input, a greeting, backlog hidden.
    pub fn new() -> (r: KovaWebApp)
        ensures
            r.input@ == Seq::<char>::empty(),
            r.messages@.len() == 1,
            r.messages@[0]@ == "Kova thin client."@,
            !r.show_backlog,
    {
        let mut messages: Vec<String> = Vec::new();
        messages.push("Kova thin client.".to_string());
        KovaWebApp { input: String::new(), messages, show_backlog: false }
    }
}

} // verus!
