//! Composing the log lines the tool writes.  The writing itself -- the
//! console and the dated log file -- happens outside the library; these
//! functions pin down exactly what the lines say.

use vstd::prelude::*;
use vstd::string::StringExecFns;
use vstd::arithmetic::div_mod::{lemma_div_is_ordered, lemma_div_multiples_vanish};
use crate::progress::BackupState;
use crate::text::{digit_char, push_char, spec_decimal, spec_digit_char, u64_to_string};

verus! {

/// Hundredths of a percent of `processed` out of `total`, floored; 0 when
/// the total is 0.
pub open spec fn spec_basis_points(processed: int, total: int) -> int {
    if total == 0 {
        0
    } else {
        processed * 10000 / total
    }
}

/// The basis points stay between 0 and 10000 while the pass invariant
/// holds.
pub proof fn lemma_basis_points_bounded(processed: int, total: int)
    requires
        0 <= processed <= total,
    ensures
        0 <= spec_basis_points(processed, total) <= 10000,
{
    if total != 0 {
        lemma_div_is_ordered(processed * 10000, total * 10000, total);
        lemma_div_multiples_vanish(10000, total);
        assert(total * 10000 == 10000 * total) by (nonlinear_arith);
    }
}

/// The progress line for a pass state: the percentage to two decimal
/// places, then the file counts and the byte counts.
pub open spec fn spec_progress_line(s: BackupState) -> Seq<char> {
    let basis = spec_basis_points(s.processed_size as int, s.total_size as int);
    "Progress: "@ + spec_decimal((basis / 100) as nat) + seq!['.'] + seq![
        spec_digit_char((basis % 100 / 10) as nat),
        spec_digit_char((basis % 100 % 10) as nat),
    ] + "% - "@ + spec_decimal(s.completed_files as nat) + seq!['/'] + spec_decimal(
        s.total_files as nat,
    ) + " files completed. "@ + spec_decimal(s.processed_size as nat) + seq!['/'] + spec_decimal(
        s.total_size as nat,
    ) + " bytes processed."@
}

/// Renders the progress of a pass, exactly as `spec_progress_line` reads
/// it.
pub fn log_progress(state: &BackupState) -> (r: String)
    requires
        state.wf(),
    ensures
        r@ == spec_progress_line(*state),
{
    let basis: u64 = if state.total_size == 0 {
        0
    } else {
        let scaled: u128 = (state.processed_size as u128) * 10000;
        let q: u128 = scaled / (state.total_size as u128);
        proof {
            lemma_basis_points_bounded(state.processed_size as int, state.total_size as int);
        }
        q as u64
    };
    proof {
        lemma_basis_points_bounded(state.processed_size as int, state.total_size as int);
    }
    let mut line = String::from_str("Progress: ");
    let whole = u64_to_string(basis / 100);
    line.append(whole.as_str());
    push_char(&mut line, '.');
    push_char(&mut line, digit_char(basis % 100 / 10));
    push_char(&mut line, digit_char(basis % 100 % 10));
    line.append("% - ");
    let completed = u64_to_string(state.completed_files as u64);
    line.append(completed.as_str());
    push_char(&mut line, '/');
    let total_files = u64_to_string(state.total_files as u64);
    line.append(total_files.as_str());
    line.append(" files completed. ");
    let processed = u64_to_string(state.processed_size);
    line.append(processed.as_str());
    push_char(&mut line, '/');
    let total_size = u64_to_string(state.total_size);
    line.append(total_size.as_str());
    line.append(" bytes processed.");
    proof {
        assert(line@ =~= spec_progress_line(*state));
    }
    line
}

/// A timestamped log line: the timestamp in brackets, then the message.
pub open spec fn spec_log_line(timestamp: Seq<char>, message: Seq<char>) -> Seq<char> {
    "["@ + timestamp + "] "@ + message
}

/// Frames a message with its timestamp, exactly as `spec_log_line` reads
/// it.
pub fn format_log_line(timestamp: &str, message: &str) -> (r: String)
    ensures
        r@ == spec_log_line(timestamp@, message@),
{
    let mut line = String::from_str("[");
    line.append(timestamp);
    line.append("] ");
    line.append(message);
    proof {
        assert(line@ =~= spec_log_line(timestamp@, message@));
    }
    line
}

} // verus!
