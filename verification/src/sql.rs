//! Data-language commands: statements meant for the query engine, classified
//! by their first blank-delimited token and carried verbatim as payload.

use vstd::prelude::*;
use vstd::string::StrSliceExecFns;
use crate::text::head_until_blank;
use crate::text::lemma_head_until_blank_is_take;
use crate::text::scan_blank;
use crate::text::str_equal;

verus! {

/// A data command. Every variant carries the full raw statement text, which
/// the executing handler receives unmodified.
#[derive(Debug, PartialEq)]
pub enum SQLCommand {
    Insert(String),
    Delete(String),
    Update(String),
    CreateTable(String),
    Select(String),
    Unknown(String),
}

/// The mathematical shape of an `SQLCommand`: the payload as a character
/// sequence.
pub enum SQLCommandView {
    Insert(Seq<char>),
    Delete(Seq<char>),
    Update(Seq<char>),
    CreateTable(Seq<char>),
    Select(Seq<char>),
    Unknown(Seq<char>),
}

impl View for SQLCommand {
    type V = SQLCommandView;

    open spec fn view(&self) -> SQLCommandView {
        match self {
            SQLCommand::Insert(s) => SQLCommandView::Insert(s@),
            SQLCommand::Delete(s) => SQLCommandView::Delete(s@),
            SQLCommand::Update(s) => SQLCommandView::Update(s@),
            SQLCommand::CreateTable(s) => SQLCommandView::CreateTable(s@),
            SQLCommand::Select(s) => SQLCommandView::Select(s@),
            SQLCommand::Unknown(s) => SQLCommandView::Unknown(s@),
        }
    }
}

/// The data sub-classifier: the prefix before the first blank, compared
/// verbatim and case-sensitively, decides the kind; anything else is
/// `Unknown`. The whole input is kept as the payload.
pub open spec fn spec_sql_command(s: Seq<char>) -> SQLCommandView {
    let t = head_until_blank(s);
    if t == "insert"@ {
        SQLCommandView::Insert(s)
    } else if t == "update"@ {
        SQLCommandView::Update(s)
    } else if t == "delete"@ {
        SQLCommandView::Delete(s)
    } else if t == "create"@ {
        SQLCommandView::CreateTable(s)
    } else if t == "select"@ {
        SQLCommandView::Select(s)
    } else {
        SQLCommandView::Unknown(s)
    }
}

impl SQLCommand {
    /// Classify a data statement by its first blank-delimited token. Total:
    /// every input, the empty one included, yields exactly one command.
    pub fn new(command: String) -> (r: SQLCommand)
        ensures
            r@ == spec_sql_command(command@),
    {
        let s = command.as_str();
        let k = scan_blank(s);
        proof {
            lemma_head_until_blank_is_take(s@, k as int);
            assert(s@.take(k as int) =~= s@.subrange(0, k as int));
        }
        let tok = s.substring_char(0, k);
        if str_equal(tok, "insert") {
            SQLCommand::Insert(command)
        } else if str_equal(tok, "update") {
            SQLCommand::Update(command)
        } else if str_equal(tok, "delete") {
            SQLCommand::Delete(command)
        } else if str_equal(tok, "create") {
            SQLCommand::CreateTable(command)
        } else if str_equal(tok, "select") {
            SQLCommand::Select(command)
        } else {
            SQLCommand::Unknown(command)
        }
    }
}

} // verus!
