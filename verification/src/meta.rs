//! Administrative commands: session-control instructions whose text begins
//! with the `.` marker, classified by their first whitespace-delimited token.

use vstd::prelude::*;
use vstd::string::StrSliceExecFns;
use vstd::string::StringExecFns;
use crate::text::first_token;
use crate::text::lemma_head_until_space_is_take;
use crate::text::lemma_trim_start_is_skip;
use crate::text::scan_start;
use crate::text::scan_token_end;
use crate::text::str_equal;

verus! {

/// An administrative command. `Open` carries the full raw input, so the
/// handler can re-extract the target name itself.
#[derive(Debug, PartialEq)]
pub enum MetaCommand {
    Exit,
    Help,
    Open(String),
    Unknown,
}

/// The mathematical shape of a `MetaCommand`: the `Open` payload as a
/// character sequence.
pub enum MetaCommandView {
    Exit,
    Help,
    Open(Seq<char>),
    Unknown,
}

impl View for MetaCommand {
    type V = MetaCommandView;

    open spec fn view(&self) -> MetaCommandView {
        match self {
            MetaCommand::Exit => MetaCommandView::Exit,
            MetaCommand::Help => MetaCommandView::Help,
            MetaCommand::Open(s) => MetaCommandView::Open(s@),
            MetaCommand::Unknown => MetaCommandView::Unknown,
        }
    }
}

/// The administrative sub-classifier: the first whitespace-delimited token,
/// compared verbatim, decides the command; anything else, a missing token
/// included, is `Unknown`.
pub open spec fn spec_meta_command(s: Seq<char>) -> MetaCommandView {
    let t = first_token(s);
    if t == ".exit"@ {
        MetaCommandView::Exit
    } else if t == ".help"@ {
        MetaCommandView::Help
    } else if t == ".open"@ {
        MetaCommandView::Open(s)
    } else {
        MetaCommandView::Unknown
    }
}

impl MetaCommand {
    /// Classify an administrative input by its first token. Total: every
    /// input, the empty one included, yields exactly one command.
    pub fn new(command: String) -> (r: MetaCommand)
        ensures
            r@ == spec_meta_command(command@),
    {
        let s = command.as_str();
        let i = scan_start(s);
        let k = scan_token_end(s, i);
        proof {
            lemma_trim_start_is_skip(s@, i as int);
            let t = s@.skip(i as int);
            assert forall|m: int| 0 <= m < k - i implies !crate::text::is_space_char(t[m]) by {
                assert(t[m] == s@[m + i]);
            }
            if k < s@.len() {
                assert(t[k - i] == s@[k as int]);
            }
            lemma_head_until_space_is_take(t, k - i);
            assert(t.take(k - i) =~= s@.subrange(i as int, k as int));
        }
        let tok = s.substring_char(i, k);
        if str_equal(tok, ".exit") {
            MetaCommand::Exit
        } else if str_equal(tok, ".help") {
            MetaCommand::Help
        } else if str_equal(tok, ".open") {
            MetaCommand::Open(command)
        } else {
            MetaCommand::Unknown
        }
    }

    /// The short display name of the command, as shown to the user.
    pub fn name(&self) -> (r: String)
        ensures
            r@ == spec_meta_name(self@),
    {
        match self {
            MetaCommand::Exit => String::from_str(".exit"),
            MetaCommand::Help => String::from_str(".help"),
            MetaCommand::Open(_) => String::from_str(".open"),
            MetaCommand::Unknown => String::from_str("Unknown command"),
        }
    }
}

/// The display name of each administrative command.
pub open spec fn spec_meta_name(m: MetaCommandView) -> Seq<char> {
    match m {
        MetaCommandView::Exit => ".exit"@,
        MetaCommandView::Help => ".help"@,
        MetaCommandView::Open(_) => ".open"@,
        MetaCommandView::Unknown => "Unknown command"@,
    }
}

} // verus!
