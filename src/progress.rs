//! The outcome of one operation on one instance.
use vstd::prelude::*;
use crate::text::push_char;

verus! {

broadcast use vstd::string::group_string_axioms;

/// The outcome of an operation on one instance.
#[derive(Debug, PartialEq, Eq)]
pub struct CommandStatus {
    pub identifier: String,
    pub success: bool,
    pub error_message: String,
}

impl Clone for CommandStatus {
    fn clone(&self) -> (r: Self)
        ensures
            r == *self,
    {
        CommandStatus {
            identifier: self.identifier.clone(),
            success: self.success,
            error_message: self.error_message.clone(),
        }
    }
}

impl CommandStatus {
    /// A success, with an empty message.
    pub fn success(identifier: &str) -> (r: CommandStatus)
        ensures
            r.identifier@ == identifier@,
            r.success,
            r.error_message@ == Seq::<char>::empty(),
    {
        CommandStatus {
            identifier: String::from_str(identifier),
            success: true,
            error_message: String::new(),
        }
    }

    /// A failure with its message.
    pub fn error(identifier: &str, error_message: &str) -> (r: CommandStatus)
        ensures
            r.identifier@ == identifier@,
            !r.success,
            r.error_message@ == error_message@,
    {
        CommandStatus {
            identifier: String::from_str(identifier),
            success: false,
            error_message: String::from_str(error_message),
        }
    }
}

/// How the external process of one operation ended.
#[derive(Debug, PartialEq, Eq)]
pub enum ProcessResult {
    /// The process ran to its end; `stderr` is its diagnostic output.
    Exited { success: bool, stderr: String },
    /// The process could not be started or awaited.
    Failed { error: String },
}

/// `s` with each line break turned into a space.
pub open spec fn collapse_spec(s: Seq<char>) -> Seq<char> {
    s.map_values(|c: char| if c == '\n' { ' ' } else { c })
}

/// Turns each line break of `s` into a space.
pub fn collapse_newlines(s: &str) -> (r: String)
    ensures
        r@ == collapse_spec(s@),
{
    let mut r = String::new();
    for c in it: s.chars()
        invariant
            it.seq() == s@,
            r@ == collapse_spec(s@.take(it.index() as int)),
    {
        push_char(&mut r, if c == '\n' { ' ' } else { c });
        assert(collapse_spec(s@.take(it.index() + 1)) =~= collapse_spec(s@.take(it.index() as int)).push(
            if c == '\n' { ' ' } else { c },
        ));
    }
    assert(s@.take(s@.len() as int) =~= s@);
    r
}

/// Whether `st` is the outcome that a process result gives for the
/// instance labelled `label`: success on a successful exit; otherwise a
/// failure carrying the diagnostic output on one line, or the error.
pub open spec fn status_of(label: Seq<char>, result: ProcessResult, st: CommandStatus) -> bool {
    &&& st.identifier@ == label
    &&& match result {
        ProcessResult::Exited { success: true, .. } => st.success && st.error_message@
            == Seq::<char>::empty(),
        ProcessResult::Exited { success: false, stderr } => !st.success && st.error_message@
            == collapse_spec(stderr@),
        ProcessResult::Failed { error } => !st.success && st.error_message@ == error@,
    }
}

/// The outcome of the operation on the instance labelled `label`.
pub fn command_status(label: &str, result: &ProcessResult) -> (r: CommandStatus)
    ensures
        status_of(label@, *result, r),
{
    match result {
        ProcessResult::Exited { success, stderr } => {
            if *success {
                CommandStatus::success(label)
            } else {
                let message = collapse_newlines(stderr.as_str());
                CommandStatus::error(label, message.as_str())
            }
        },
        ProcessResult::Failed { error } => CommandStatus::error(label, error.as_str()),
    }
}

} // verus!
