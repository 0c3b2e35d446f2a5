//! Encoding presets of the encoder service: an identifier, a title and a command line.
use vstd::prelude::*;
use crate::wire;

verus! {

/// The words a shell would split `s` into, or `None` when a quote is left open.
pub uninterp spec fn shell_words_of(s: Seq<char>) -> Option<Seq<Seq<char>>>;

/// Relies on `shell_words::split`, which splits a command line into words by the quoting
/// rules of a POSIX shell and fails only on an unclosed quote; the result depends on the
/// text alone.
#[verifier::external_body]
fn shell_split(s: &str) -> (r: Option<Vec<String>>)
    ensures
        match r {
            Some(ws) => shell_words_of(s@) == Some(ws@.map_values(|w: String| w@)),
            None => shell_words_of(s@) is None,
        },
{
    match shell_words::split(s) {
        Ok(words) => Some(words),
        Err(_) => None,
    }
}

#[derive(Debug, PartialEq, Eq)]
pub enum InvalidCommand {
    /// A quote is left open.
    ParseError(String),
    /// The command line holds no word.
    Empty,
}

#[derive(Debug)]
pub struct Preset {
    pub id: String,
    pub title: Option<String>,
    pub command: String,
}

impl Preset {
    /// The program to run and its arguments: the first word of the command line, and the rest.
    pub fn command_line(&self) -> (r: Result<(String, Vec<String>), InvalidCommand>)
        ensures
            match shell_words_of(self.command@) {
                None => r matches Err(e) && e is ParseError,
                Some(ws) => if ws.len() == 0 {
                    r matches Err(e) && e is Empty
                } else {
                    r matches Ok((program, args)) && program@ == ws[0] && args@.map_values(
                        |w: String| w@,
                    ) == ws.drop_first()
                },
            },
    {
        let mut words = match shell_split(self.command.as_str()) {
            Some(ws) => ws,
            None => return Err(InvalidCommand::ParseError(String::from_str("missing closing quote"))),
        };
        if words.len() == 0 {
            return Err(InvalidCommand::Empty);
        }
        let ghost all = words@;
        let program = words.remove(0);
        proof {
            assert(words@.map_values(|w: String| w@) =~= all.map_values(|w: String| w@).drop_first());
        }
        Ok((program, words))
    }

    /// A preset is valid when its command line splits into at least one word.
    pub fn validate(&self) -> (r: Result<(), String>)
        ensures
            r is Ok <==> (shell_words_of(self.command@) matches Some(ws) && ws.len() > 0),
    {
        match self.command_line() {
            Ok(_) => Ok(()),
            Err(InvalidCommand::ParseError(m)) => Err(m),
            Err(InvalidCommand::Empty) => Err(String::from_str("command is empty")),
        }
    }

    /// The preset as the encoder lists it; the title defaults to the identifier.
    pub fn exchangeable(&self) -> (r: wire::Preset)
        ensures
            r.preset_id@ == self.id@,
            r.title@ == match self.title {
                Some(t) => t@,
                None => self.id@,
            },
            r.command@ == self.command@,
    {
        wire::Preset {
            preset_id: self.id.clone(),
            title: match &self.title {
                Some(t) => t.clone(),
                None => self.id.clone(),
            },
            command: self.command.clone(),
        }
    }
}

} // verus!
