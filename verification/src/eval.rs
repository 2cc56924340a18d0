//! The evaluation adapter: hand a complete buffer to the `meval` expression
//! evaluator and replace the buffer with the formatted result, or surface the
//! evaluator's failure message and leave the buffer untouched.

use vstd::prelude::*;
use vstd::string::StringExecFns;

use crate::calculator::Calculator;
use crate::rules::complete;

verus! {

/// What evaluating a buffer yields: the formatted numeric result on success,
/// the evaluator's failure description otherwise.  The outcome depends on
/// the characters of the buffer alone.  (Named functions such as `sin`,
/// reachable through free-form text, are computed by the platform's math
/// library and may differ across machines in the last bit; no proof here
/// compares two outcomes, so nothing rests on that.)
pub uninterp spec fn eval_outcome(s: Seq<char>) -> Result<Seq<char>, Seq<char>>;

/// Relies on meval::eval_str: parses and evaluates an arithmetic expression;
/// the result is a function of the expression text alone.  Its tokenizer
/// panics on some texts that end before an expected operand (blank input,
/// for one), so the call is confined to complete buffers, which end in a
/// digit or a close parenthesis; on those every failure comes back as an
/// error value.
#[verifier::external_body]
fn eval_text(s: &Vec<char>) -> (r: Result<Vec<char>, String>)
    requires
        complete(s@),
    ensures
        (match r {
            Ok(t) => eval_outcome(s@) == Ok::<Seq<char>, Seq<char>>(t@),
            Err(e) => eval_outcome(s@) == Err::<Seq<char>, Seq<char>>(e@),
        }),
{
    let text: String = s.iter().collect();
    match meval::eval_str(&text) {
        Ok(v) => Ok(format!("{}", v).chars().collect()),
        Err(e) => Err(format!("{:?}", e)),
    }
}

impl Calculator {
    /// Evaluate the buffer if it is complete.  On success the buffer is
    /// replaced by the formatted result; on failure it is left unchanged and
    /// the evaluator's message is returned for display.  An incomplete
    /// buffer is left unchanged and nothing is reported.
    pub fn evaluate(&mut self) -> (r: Option<String>)
        ensures
            !complete(old(self)@) ==> final(self)@ == old(self)@ && r is None,
            complete(old(self)@) ==> (match eval_outcome(old(self)@) {
                Ok(t) => final(self)@ == t && r is None,
                Err(e) => final(self)@ == old(self)@ && (r matches Some(m) && m@
                    == "Calculation error: "@ + e),
            }),
    {
        if !self.correct_input() {
            return None;
        }
        match eval_text(self.buffer()) {
            Ok(t) => {
                self.replace_with(t);
                None
            },
            Err(e) => {
                let mut message = String::from_str("Calculation error: ");
                message.append(e.as_str());
                Some(message)
            },
        }
    }
}

} // verus!
