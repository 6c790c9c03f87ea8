//! Which expressions are calculated, and what is told of it, by the characters that go in and out.

use vstd::prelude::*;

use crate::calculator::{
    begin_calculation, finish_calculation, finished_result, lemma_allowed_is_ascii,
    only_allowed_chars, read_calculation, refusal, CalculatorOutcome, CalculatorStep, ALLOWED_CHARS,
};
use crate::laws::text::{all_white, bare, lacks, law_has_text, law_trimmed};
use crate::tool::{failed, succeeded, ToolResult};
use crate::unicode::utf8_lossy;

verus! {

/// A digit, an operator, a bracket, a full stop or a blank.
pub open spec fn is_math_char(c: char) -> bool {
    '0' <= c <= '9' || c == '+' || c == '-' || c == '*' || c == '/' || c == '(' || c == ')' || c
        == '.' || c == '^' || c == ' '
}

/// Digits, operators, brackets, full stops and blanks alone.
pub open spec fn is_math_text(expression: Seq<char>) -> bool {
    forall|i: int| 0 <= i < expression.len() ==> is_math_char(#[trigger] expression[i])
}

proof fn lemma_allowed_chars(c: char)
    ensures
        ALLOWED_CHARS@.contains(c) <==> is_math_char(c),
{
    reveal_strlit("0123456789+-*/().^ ");
    let allowed = ALLOWED_CHARS@;
    if is_math_char(c) {
        assert(allowed[0] == '0' && allowed[1] == '1' && allowed[2] == '2' && allowed[3] == '3'
            && allowed[4] == '4' && allowed[5] == '5' && allowed[6] == '6' && allowed[7] == '7'
            && allowed[8] == '8' && allowed[9] == '9' && allowed[10] == '+' && allowed[11] == '-'
            && allowed[12] == '*' && allowed[13] == '/' && allowed[14] == '(' && allowed[15] == ')'
            && allowed[16] == '.' && allowed[17] == '^' && allowed[18] == ' ');
    }
}

proof fn lemma_math_text(expression: Seq<char>)
    ensures
        only_allowed_chars(expression) <==> is_math_text(expression),
{
    if is_math_text(expression) {
        assert forall|i: int| 0 <= i < expression.len() implies ALLOWED_CHARS@.contains(
            #[trigger] expression[i],
        ) by {
            lemma_allowed_chars(expression[i]);
        }
    }
    if only_allowed_chars(expression) {
        assert forall|i: int| 0 <= i < expression.len() implies is_math_char(
            #[trigger] expression[i],
        ) by {
            lemma_allowed_chars(expression[i]);
        }
    }
}

/// An expression is calculated exactly if it is made of digits, operators, brackets, full stops
/// and blanks, holds neither two full stops nor two slashes in a row, and has two hundred
/// characters at most. A foreign character is named before the other reasons.
pub proof fn law_refusal(expression: Seq<char>)
    ensures
        !is_math_text(expression) ==> refusal(expression) == Some(
            "Invalid characters in expression. Only numbers, +, -, *, /, ^, (, ), and spaces are allowed."@,
        ),
        is_math_text(expression) && (!lacks(expression, ".."@) || !lacks(expression, "//"@)
            || expression.len() > 200) ==> refusal(expression) == Some(
            "Expression contains unsafe patterns or is too long."@,
        ),
        is_math_text(expression) && lacks(expression, ".."@) && lacks(expression, "//"@)
            && expression.len() <= 200 ==> refusal(expression) is None,
{
    lemma_math_text(expression);
    law_has_text(expression, ".."@);
    law_has_text(expression, "//"@);
    if is_math_text(expression) {
        lemma_allowed_is_ascii(expression);
    }
}

/// The calculator is given the expression and told to quit, or not started at all.
pub proof fn law_begin_calculation(expression: &str, step: CalculatorStep)
    requires
        call_ensures(begin_calculation, (expression,), step),
    ensures
        match step {
            CalculatorStep::Run(input) => {
                &&& input@ == expression@ + "\nquit\n"@
                &&& is_math_text(expression@)
                &&& lacks(expression@, ".."@)
                &&& lacks(expression@, "//"@)
                &&& expression@.len() <= 200
            },
            CalculatorStep::Refuse(result) => {
                &&& !result.success
                &&& refusal(expression@) == Some(result.content@)
            },
        },
{
    law_refusal(expression@);
}

/// A calculation that succeeds tells the expression, and what the calculator wrote but for the
/// white space around it.
pub proof fn law_answer_is_what_was_written(
    expression: Seq<char>,
    before: Seq<char>,
    answer: Seq<char>,
    after: Seq<char>,
    stderr: Seq<char>,
)
    requires
        answer.len() > 0,
        bare(answer),
        all_white(before),
        all_white(after),
    ensures
        finished_result(expression, true, before + answer + after, stderr) == succeeded(
            expression + " = "@ + answer,
        ),
{
    law_trimmed(before, answer, after);
}

/// A calculation that writes nothing but white space has no result.
pub proof fn law_no_answer(expression: Seq<char>, stdout: Seq<char>, stderr: Seq<char>)
    requires
        all_white(stdout),
    ensures
        finished_result(expression, true, stdout, stderr) == failed("No result from calculation"@),
{
    let empty = Seq::<char>::empty();
    assert(stdout =~= stdout + empty + empty);
    law_trimmed(stdout, empty, empty);
}

/// A calculation that fails tells what the calculator complained of, and nothing that it wrote.
pub proof fn law_complaint(expression: Seq<char>, stdout: Seq<char>, stderr: Seq<char>)
    ensures
        finished_result(expression, false, stdout, stderr) == failed(
            "Calculation error: "@ + stderr,
        ),
{
}

/// `read_calculation` tells the answer that was written, that there is none, or the complaint.
pub proof fn law_read_calculation(
    before: Seq<char>,
    answer: Seq<char>,
    after: Seq<char>,
    expression: &str,
    success: bool,
    stdout: &str,
    stderr: &str,
    result: ToolResult,
)
    requires
        call_ensures(read_calculation, (expression, success, stdout, stderr), result),
        stdout@ == before + answer + after,
        all_white(before),
        all_white(after),
        bare(answer),
    ensures
        result.success <==> success && answer.len() > 0,
        success && answer.len() > 0 ==> result.content@ == expression@ + " = "@ + answer,
        success && answer.len() == 0 ==> result.content@ == "No result from calculation"@,
        !success ==> result.content@ == "Calculation error: "@ + stderr@,
{
    law_trimmed(before, answer, after);
}

/// `finish_calculation` tells why the calculator was not started or not waited for; and where it
/// ran to its end, the same as `read_calculation` of the texts that it wrote.
pub proof fn law_finish_calculation(
    expression: &str,
    outcome: CalculatorOutcome,
    result: ToolResult,
    written: &str,
    complaint: &str,
    read: ToolResult,
)
    requires
        call_ensures(finish_calculation, (expression, &outcome), result),
        outcome matches CalculatorOutcome::Finished { success, stdout, stderr } ==> written@
            == utf8_lossy(stdout@) && complaint@ == utf8_lossy(stderr@) && call_ensures(
            read_calculation,
            (expression, success, written, complaint),
            read,
        ),
    ensures
        match outcome {
            CalculatorOutcome::NotStarted { error } => !result.success && result.content@
                == "Failed to start calculator: "@ + error@,
            CalculatorOutcome::NotFinished { error } => !result.success && result.content@
                == "Failed to execute calculation: "@ + error@,
            CalculatorOutcome::Finished { .. } => result.success == read.success && result.content@
                == read.content@,
        },
{
}

/// A result says whether the tool succeeded, and its words.
pub proof fn law_results(content: Seq<char>)
    ensures
        succeeded(content).success,
        succeeded(content).content == content,
        !failed(content).success,
        failed(content).content == content,
{
}

} // verus!
