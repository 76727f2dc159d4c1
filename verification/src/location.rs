//! Identity of a reservation holder.

use vstd::prelude::*;
use vstd::std_specs::cmp::PartialEqSpecImpl;
use crate::id::same_text;
use crate::text::{decimal, decimal_text};

verus! {

/// Where a test was entered, and the name of the thread that entered it.
#[derive(Debug, Hash)]
pub struct Location {
    file: String,
    line: u32,
    column: u32,
    thread: Option<String>,
}

/// A location as plain values.
pub struct LocationView {
    pub file: Seq<char>,
    pub line: u32,
    pub column: u32,
    pub thread: Option<Seq<char>>,
}

impl LocationView {
    /// `{file}:{line}:{column}`, followed by ` ({thread})` where a thread
    /// name was captured.
    pub open spec fn text(self) -> Seq<char> {
        self.file + seq![':'] + decimal(self.line as nat) + seq![':'] + decimal(
            self.column as nat,
        ) + match self.thread {
            Some(name) => seq![' ', '('] + name + seq![')'],
            None => Seq::<char>::empty(),
        }
    }
}

impl View for Location {
    type V = LocationView;

    closed spec fn view(&self) -> LocationView {
        LocationView {
            file: self.file@,
            line: self.line,
            column: self.column,
            thread: match self.thread {
                Some(name) => Some(name@),
                None => None,
            },
        }
    }
}

impl Location {
    /// The location at `file:line:column`, entered by a thread called
    /// `thread` if it had a name.
    pub fn new(file: String, line: u32, column: u32, thread: Option<String>) -> (r: Self)
        ensures
            r@ == (LocationView {
                file: file@,
                line,
                column,
                thread: match thread {
                    Some(name) => Some(name@),
                    None => None,
                },
            }),
    {
        Location { file, line, column, thread }
    }

    /// The text that diagnostics print for this location.
    pub fn to_text(&self) -> (s: String)
        ensures
            s@ == self@.text(),
    {
        proof {
            reveal_strlit(":");
            reveal_strlit(" (");
            reveal_strlit(")");
        }
        let mut s = self.file.clone();
        s.append(":");
        let line = decimal_text(self.line);
        s.append(line.as_str());
        s.append(":");
        let column = decimal_text(self.column);
        s.append(column.as_str());
        match &self.thread {
            Some(name) => {
                s.append(" (");
                s.append(name.as_str());
                s.append(")");
                assert(" ("@ =~= seq![' ', '(']);
                assert(s@ =~= self@.text());
            },
            None => {
                assert(s@ =~= self@.text());
            },
        }
        s
    }
}

impl Clone for Location {
    fn clone(&self) -> (r: Self)
        ensures
            r == *self,
    {
        Location {
            file: self.file.clone(),
            line: self.line,
            column: self.column,
            thread: match &self.thread {
                Some(name) => Some(name.clone()),
                None => None,
            },
        }
    }
}

impl PartialEq for Location {
    fn eq(&self, other: &Self) -> (r: bool) {
        let threads = match &self.thread {
            Some(a) => match &other.thread {
                Some(b) => same_text(a, b),
                None => false,
            },
            None => match &other.thread {
                Some(_) => false,
                None => true,
            },
        };
        same_text(&self.file, &other.file) && self.line == other.line && self.column
            == other.column && threads
    }
}

impl PartialEqSpecImpl for Location {
    open spec fn obeys_eq_spec() -> bool {
        true
    }

    open spec fn eq_spec(&self, other: &Self) -> bool {
        self@ == other@
    }
}

impl Eq for Location {}

} // verus!
