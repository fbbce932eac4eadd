//! The errors that reach the user, with their messages and exit codes.

use vstd::prelude::*;

use crate::text;

verus! {

/// Why a command failed.
#[derive(Debug)]
pub enum AwsLogsError {
    /// A date argument that could not be read; holds the argument.
    UnknownDate(String),
    /// More streams match the pattern than one request may name.
    TooManyStreamsFiltered { pattern: String, count: usize, limit: usize },
    /// No stream matches the pattern; holds the pattern.
    NoStreamsFiltered(String),
    /// A failure from below: the messages of the error and of its causes, outermost first.
    Aws(Vec<String>),
}

impl AwsLogsError {
    /// The process exit code that stands for this error.
    pub open spec fn exit_code(self) -> int {
        match self {
            AwsLogsError::UnknownDate(_) => 3,
            AwsLogsError::TooManyStreamsFiltered { .. } => 6,
            AwsLogsError::NoStreamsFiltered(_) => 7,
            AwsLogsError::Aws(_) => 1,
        }
    }

    /// The message shown to the user.
    pub open spec fn hint_text(self) -> Seq<char> {
        match self {
            AwsLogsError::UnknownDate(date) => "awslogs doesn't understand '"@ + date@
                + "' as a date."@,
            AwsLogsError::TooManyStreamsFiltered { pattern, count, limit } => {
                "The number of streams that match your pattern '"@ + pattern@ + "' is '"@
                    + text::decimal_text(count as nat)
                    + "'. AWS API limits the number of streams you can filter by to "@
                    + text::decimal_text(limit as nat)
                    + ".It might be helpful to you to not filter streams by any pattern and filter the output of awslogs."@
            },
            AwsLogsError::NoStreamsFiltered(pattern) => "No streams match your pattern '"@ + pattern@
                + "' for the given time period."@,
            AwsLogsError::Aws(chain) => if chain@.len() > 0 {
                chain@[0]@
            } else {
                Seq::empty()
            },
        }
    }

    /// The exit code of the process.
    pub fn code(&self) -> (res: i32)
        ensures
            res == self.exit_code(),
    {
        match self {
            AwsLogsError::UnknownDate(_) => 3,
            AwsLogsError::TooManyStreamsFiltered { .. } => 6,
            AwsLogsError::NoStreamsFiltered(_) => 7,
            AwsLogsError::Aws(_) => 1,
        }
    }

    /// The message shown to the user.
    pub fn hint(&self) -> (res: String)
        ensures
            res@ == self.hint_text(),
    {
        let mut out = String::new();
        match self {
            AwsLogsError::UnknownDate(date) => {
                out.append("awslogs doesn't understand '");
                out.append(date.as_str());
                out.append("' as a date.");
            },
            AwsLogsError::TooManyStreamsFiltered { pattern, count, limit } => {
                out.append("The number of streams that match your pattern '");
                out.append(pattern.as_str());
                out.append("' is '");
                out.append(text::decimal(*count as u64).as_str());
                out.append("'. AWS API limits the number of streams you can filter by to ");
                out.append(text::decimal(*limit as u64).as_str());
                out.append(
                    ".It might be helpful to you to not filter streams by any pattern and filter the output of awslogs.",
                );
            },
            AwsLogsError::NoStreamsFiltered(pattern) => {
                out.append("No streams match your pattern '");
                out.append(pattern.as_str());
                out.append("' for the given time period.");
            },
            AwsLogsError::Aws(chain) => {
                if chain.len() > 0 {
                    out.append(chain[0].as_str());
                }
            },
        }
        assert(out@ == self.hint_text());
        out
    }
}

/// An error from below that has a single message.
pub fn aws_error(message: &str) -> (res: AwsLogsError)
    ensures
        res matches AwsLogsError::Aws(chain) && chain@.len() == 1 && chain@[0]@ == message@,
{
    let mut chain: Vec<String> = Vec::new();
    chain.push(message.to_string());
    AwsLogsError::Aws(chain)
}

// ── laws ────────────────────────────────────────────────────────────────────
/// Each failure has its exit code and its message, which names what failed.
pub proof fn law_failures(date: String, pattern: String, count: usize, limit: usize, chain: Vec<String>)
    ensures
        AwsLogsError::UnknownDate(date).exit_code() == 3,
        AwsLogsError::UnknownDate(date).hint_text() == "awslogs doesn't understand '"@ + date@
            + "' as a date."@,
        (AwsLogsError::TooManyStreamsFiltered { pattern, count, limit }).exit_code() == 6,
        (AwsLogsError::TooManyStreamsFiltered { pattern, count, limit }).hint_text()
            == "The number of streams that match your pattern '"@ + pattern@ + "' is '"@
            + text::decimal_text(count as nat)
            + "'. AWS API limits the number of streams you can filter by to "@
            + text::decimal_text(limit as nat)
            + ".It might be helpful to you to not filter streams by any pattern and filter the output of awslogs."@,
        AwsLogsError::NoStreamsFiltered(pattern).exit_code() == 7,
        AwsLogsError::NoStreamsFiltered(pattern).hint_text() == "No streams match your pattern '"@
            + pattern@ + "' for the given time period."@,
        AwsLogsError::Aws(chain).exit_code() == 1,
        chain@.len() > 0 ==> AwsLogsError::Aws(chain).hint_text() == chain@[0]@,
        chain@.len() == 0 ==> AwsLogsError::Aws(chain).hint_text().len() == 0,
{
}

} // verus!
