//! The completeness detector and the top-level command classifier: the rule
//! that decides when accumulated input forms one submittable command, and the
//! split between administrative and data commands.

use vstd::prelude::*;
use vstd::string::StrSliceExecFns;
use crate::meta::MetaCommand;
use crate::meta::MetaCommandView;
use crate::meta::spec_meta_command;
use crate::sql::SQLCommand;
use crate::sql::SQLCommandView;
use crate::sql::spec_sql_command;
use crate::text::is_space_char;
use crate::text::lemma_trim_end_is_take;
use crate::text::lemma_trim_start_is_skip;
use crate::text::scan_end;
use crate::text::scan_start;
use crate::text::trim_end;
use crate::text::trim_start;
use crate::text::trimmed;

verus! {

/// The verdict of the completeness detector.
#[derive(Debug, PartialEq, Eq, Structural, Clone, Copy)]
pub enum Completeness {
    Complete,
    Incomplete,
}

/// When accumulated input forms one submittable command: the trimmed buffer
/// either starts with the administrative marker `.` (administrative commands
/// are always single-line), or, for a data command, ends with the statement
/// terminator `;`. An empty or all-whitespace buffer is never complete.
pub open spec fn spec_is_complete(s: Seq<char>) -> bool {
    let t = trimmed(s);
    t.len() > 0 && (t[0] == '.' || t.last() == ';')
}

/// Decide whether the buffer forms a complete command or the session should
/// keep reading continuation lines.
pub fn is_complete(buffer: &str) -> (r: Completeness)
    ensures
        (r is Complete) == spec_is_complete(buffer@),
{
    let n = buffer.unicode_len();
    let i = scan_start(buffer);
    if i == n {
        proof {
            lemma_trim_start_is_skip(buffer@, i as int);
            assert(buffer@.skip(n as int) =~= Seq::<char>::empty());
        }
        return Completeness::Incomplete;
    }
    let j = scan_end(buffer, i);
    proof {
        lemma_trim_start_is_skip(buffer@, i as int);
        let t = buffer@.skip(i as int);
        assert forall|k: int| j - i <= k < t.len() implies is_space_char(t[k]) by {
            assert(t[k] == buffer@[k + i]);
        }
        assert(t[j - i - 1] == buffer@[j - 1]);
        lemma_trim_end_is_take(t, j - i);
        assert(t.take(j - i) =~= buffer@.subrange(i as int, j as int));
        assert(trimmed(buffer@)[0] == buffer@[i as int]);
        assert(trimmed(buffer@).last() == buffer@[j - 1]);
    }
    if buffer.get_char(i) == '.' {
        Completeness::Complete
    } else if buffer.get_char(j - 1) == ';' {
        Completeness::Complete
    } else {
        Completeness::Incomplete
    }
}

/// A classified command: administrative or data, with its sub-kind.
#[derive(Debug, PartialEq)]
pub enum CommandType {
    MetaCommand(MetaCommand),
    SQLCommand(SQLCommand),
}

/// The mathematical shape of a `CommandType`.
pub enum CommandTypeView {
    MetaCommand(MetaCommandView),
    SQLCommand(SQLCommandView),
}

impl View for CommandType {
    type V = CommandTypeView;

    open spec fn view(&self) -> CommandTypeView {
        match self {
            CommandType::MetaCommand(m) => CommandTypeView::MetaCommand(m@),
            CommandType::SQLCommand(c) => CommandTypeView::SQLCommand(c@),
        }
    }
}

/// The classifier: text beginning with the `.` marker goes to the
/// administrative sub-classifier, everything else to the data sub-classifier.
pub open spec fn spec_command_type(s: Seq<char>) -> CommandTypeView {
    if s.len() > 0 && s[0] == '.' {
        CommandTypeView::MetaCommand(spec_meta_command(s))
    } else {
        CommandTypeView::SQLCommand(spec_sql_command(s))
    }
}

/// Classify an input string. Total and pure: every input, the empty one
/// included, maps to exactly one tagged command, and none is rejected.
pub fn get_command_type(command: &String) -> (r: CommandType)
    ensures
        r@ == spec_command_type(command@),
{
    let s = command.as_str();
    if s.unicode_len() > 0 && s.get_char(0) == '.' {
        CommandType::MetaCommand(MetaCommand::new(command.clone()))
    } else {
        CommandType::SQLCommand(SQLCommand::new(command.clone()))
    }
}

/// An administrative-marker string is always complete, a lone `.` included:
/// whatever follows the leading marker, the detector submits it as one line.
pub proof fn lemma_admin_always_complete(s: Seq<char>)
    requires
        s.len() > 0,
        s[0] == '.',
    ensures
        spec_is_complete(s),
{
    assert(!is_space_char('.'));
    assert(trim_start(s) == s);
    lemma_trim_end_keeps_head(s);
}

/// A non-administrative string is complete exactly when its trimmed text is
/// non-empty and ends with the statement terminator `;`; trailing whitespace
/// never changes the verdict.
pub proof fn lemma_data_complete_iff_terminator(s: Seq<char>)
    requires
        !(trimmed(s).len() > 0 && trimmed(s)[0] == '.'),
    ensures
        spec_is_complete(s) == (trimmed(s).len() > 0 && trimmed(s).last() == ';'),
{
}

/// Classification is total and two-tier: every input maps to an
/// administrative command exactly when it begins with the `.` marker, and to
/// a data command otherwise — never to both, never to neither.
pub proof fn lemma_classify_total(s: Seq<char>)
    ensures
        (spec_command_type(s) is MetaCommand) == (s.len() > 0 && s[0] == '.'),
        (spec_command_type(s) is SQLCommand) == !(s.len() > 0 && s[0] == '.'),
{
}

/// `trim_end` keeps a non-whitespace first character in place.
proof fn lemma_trim_end_keeps_head(s: Seq<char>)
    requires
        s.len() > 0,
        !is_space_char(s[0]),
    ensures
        trim_end(s).len() > 0,
        trim_end(s)[0] == s[0],
    decreases s.len(),
{
    if is_space_char(s.last()) {
        assert(s.len() >= 2);
        lemma_trim_end_keeps_head(s.drop_last());
    }
}

} // verus!
