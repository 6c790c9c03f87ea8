//! The calculator: which expressions it may be given, and what its answer means.
//!
//! The calculator is a program that reads an expression and writes its value. Here it is decided
//! whether it is started, what it is told, and what is made of what it did; to run it is the
//! caller's part.

use vstd::prelude::*;
use vstd::string::*;
use vstd::utf8::is_ascii_chars;

use crate::offset::{byte_len, lemma_ascii_offset};
use crate::text::{
    chars_of, contains, find_text, has_bare_ends, has_text, law_trimmed_has_bare_ends,
    lemma_find_text_at, occurs_at, text_of, trim, trimmed,
};
use crate::tool::{failed, succeeded, ToolResult, ToolResultView};
use crate::unicode::{from_utf8_lossy, utf8_lossy};

verus! {

// Which expressions may be calculated.

/// The characters that an expression may hold.
pub const ALLOWED_CHARS: &'static str = "0123456789+-*/().^ ";

/// The number of bytes that an expression may take.
pub const MAX_EXPRESSION_LEN: usize = 200;

/// Every character of the expression is one of those that it may hold.
pub open spec fn only_allowed_chars(expression: Seq<char>) -> bool {
    forall|i: int| 0 <= i < expression.len() ==> ALLOWED_CHARS@.contains(#[trigger] expression[i])
}

/// The expression holds a pattern that is kept from the calculator, or is too long.
pub open spec fn has_unsafe_pattern(expression: Seq<char>) -> bool {
    ||| has_text(expression, ".."@)
    ||| has_text(expression, "//"@)
    ||| byte_len(expression) > MAX_EXPRESSION_LEN
}

/// The expression may be handed to the calculator.
pub open spec fn is_safe_expression(expression: Seq<char>) -> bool {
    only_allowed_chars(expression) && !has_unsafe_pattern(expression)
}

/// What an expression that may not be calculated is answered.
pub open spec fn refusal(expression: Seq<char>) -> Option<Seq<char>> {
    if !only_allowed_chars(expression) {
        Some(
            "Invalid characters in expression. Only numbers, +, -, *, /, ^, (, ), and spaces are allowed."@,
        )
    } else if has_unsafe_pattern(expression) {
        Some("Expression contains unsafe patterns or is too long."@)
    } else {
        None
    }
}

/// What the calculator reads: the expression on a line of its own, and the order to stop.
pub open spec fn calculator_input(expression: Seq<char>) -> Seq<char> {
    expression + "\nquit\n"@
}

/// What to do with an expression.
#[derive(Debug, Clone, PartialEq, Eq)]
pub enum CalculatorStep {
    /// Answer this, and do not start the calculator.
    Refuse(ToolResult),
    /// Start the calculator, and let it read this.
    Run(String),
}

fn allowed_chars_only(expression: &[char]) -> (b: bool)
    ensures
        b == only_allowed_chars(expression@),
{
    let allowed = chars_of(ALLOWED_CHARS);
    let mut i: usize = 0;
    while i < expression.len()
        invariant
            0 <= i <= expression@.len(),
            allowed@ == ALLOWED_CHARS@,
            forall|j: int| 0 <= j < i ==> ALLOWED_CHARS@.contains(#[trigger] expression@[j]),
        decreases expression@.len() - i,
    {
        let mut found: bool = false;
        let mut k: usize = 0;
        while k < allowed.len()
            invariant
                0 <= k <= allowed@.len(),
                0 <= i < expression@.len(),
                found == exists|j: int| 0 <= j < k && allowed@[j] == expression@[i as int],
            decreases allowed@.len() - k,
        {
            if allowed[k] == expression[i] {
                found = true;
            }
            k = k + 1;
        }
        if !found {
            assert(!ALLOWED_CHARS@.contains(expression@[i as int]));
            return false;
        }
        i = i + 1;
    }
    true
}

/// What an expression may hold is ASCII, and no line feed.
pub proof fn lemma_allowed_is_ascii(expression: Seq<char>)
    requires
        only_allowed_chars(expression),
    ensures
        is_ascii_chars(expression),
        byte_len(expression) == expression.len(),
        forall|i: int| 0 <= i < expression.len() ==> #[trigger] expression[i] != '\n',
{
    reveal_strlit("0123456789+-*/().^ ");
    assert forall|i: int| 0 <= i < expression.len() implies '\0' <= #[trigger] expression[i]
        <= '\u{7f}' && expression[i] != '\n' by {
        assert(ALLOWED_CHARS@.contains(expression[i]));
    }
    lemma_ascii_offset(expression, expression.len() as int);
    assert(expression.take(expression.len() as int) =~= expression);
}

/// Decides whether an expression may be calculated, and says what the calculator is to read.
pub fn begin_calculation(expression: &str) -> (step: CalculatorStep)
    ensures
        match refusal(expression@) {
            Some(answer) => step matches CalculatorStep::Refuse(result) && result@ == failed(
                answer,
            ),
            None => step matches CalculatorStep::Run(input) && input@ == calculator_input(
                expression@,
            ),
        },
{
    let chars = chars_of(expression);
    if !allowed_chars_only(chars.as_slice()) {
        return CalculatorStep::Refuse(
            ToolResult {
                success: false,
                content: "Invalid characters in expression. Only numbers, +, -, *, /, ^, (, ), and spaces are allowed.".to_string(),
            },
        );
    }
    proof {
        lemma_allowed_is_ascii(expression@);
    }
    if contains(chars.as_slice(), chars_of("..").as_slice()) || contains(
        chars.as_slice(),
        chars_of("//").as_slice(),
    ) || chars.len() > MAX_EXPRESSION_LEN {
        return CalculatorStep::Refuse(
            ToolResult {
                success: false,
                content: "Expression contains unsafe patterns or is too long.".to_string(),
            },
        );
    }
    let mut input: String = expression.to_string();
    input.append("\nquit\n");
    CalculatorStep::Run(input)
}

// What the calculator's answer means.

/// What became of the calculator.
#[derive(Debug, Clone, PartialEq, Eq)]
pub enum CalculatorOutcome {
    /// It could not be started.
    NotStarted { error: String },
    /// It was started, and could not be waited for.
    NotFinished { error: String },
    /// It ran to its end, and wrote these bytes.
    Finished { success: bool, stdout: Vec<u8>, stderr: Vec<u8> },
}

/// The result of a calculation that ran to its end, by the texts that the calculator wrote.
pub open spec fn finished_result(
    expression: Seq<char>,
    success: bool,
    stdout: Seq<char>,
    stderr: Seq<char>,
) -> ToolResultView {
    if !success {
        failed("Calculation error: "@ + stderr)
    } else if trimmed(stdout).len() == 0 {
        failed("No result from calculation"@)
    } else {
        succeeded(expression + " = "@ + trimmed(stdout))
    }
}

/// The result of a calculation.
pub open spec fn calculation_result(
    expression: Seq<char>,
    outcome: CalculatorOutcome,
) -> ToolResultView {
    match outcome {
        CalculatorOutcome::NotStarted { error } => failed("Failed to start calculator: "@ + error@),
        CalculatorOutcome::NotFinished { error } => failed(
            "Failed to execute calculation: "@ + error@,
        ),
        CalculatorOutcome::Finished { success, stdout, stderr } => finished_result(
            expression,
            success,
            utf8_lossy(stdout@),
            utf8_lossy(stderr@),
        ),
    }
}

/// Says what a calculation that ran to its end came to.
pub fn read_calculation(expression: &str, success: bool, stdout: &str, stderr: &str) -> (result:
    ToolResult)
    ensures
        result@ == finished_result(expression@, success, stdout@, stderr@),
{
    if success {
        let written = chars_of(stdout);
        let answer = trim(written.as_slice());
        if answer.len() == 0 {
            ToolResult { success: false, content: "No result from calculation".to_string() }
        } else {
            let mut content: String = expression.to_string();
            content.append(" = ");
            content.append(text_of(answer).as_str());
            ToolResult { success: true, content }
        }
    } else {
        let mut content: String = "Calculation error: ".to_string();
        content.append(stderr);
        ToolResult { success: false, content }
    }
}

/// Says what a calculation came to.
pub fn finish_calculation(expression: &str, outcome: &CalculatorOutcome) -> (result: ToolResult)
    ensures
        result@ == calculation_result(expression@, *outcome),
{
    match outcome {
        CalculatorOutcome::NotStarted { error } => {
            let mut content: String = "Failed to start calculator: ".to_string();
            content.append(error.as_str());
            ToolResult { success: false, content }
        },
        CalculatorOutcome::NotFinished { error } => {
            let mut content: String = "Failed to execute calculation: ".to_string();
            content.append(error.as_str());
            ToolResult { success: false, content }
        },
        CalculatorOutcome::Finished { success, stdout, stderr } => {
            let written = from_utf8_lossy(stdout.as_slice());
            let complaint = from_utf8_lossy(stderr.as_slice());
            read_calculation(expression, *success, written.as_str(), complaint.as_str())
        },
    }
}

// Laws.

/// An expression is calculated exactly if it is safe.
pub proof fn law_only_safe_expressions_run(expression: Seq<char>)
    ensures
        refusal(expression) is None <==> is_safe_expression(expression),
{
}

/// The calculator reads a safe expression as one line: the first line feed in its input is the one
/// behind the expression.
pub proof fn law_input_holds_one_expression(expression: Seq<char>)
    requires
        is_safe_expression(expression),
    ensures
        find_text(calculator_input(expression), "\n"@) == Some(expression.len() as int),
        calculator_input(expression).take(expression.len() as int) == expression,
        calculator_input(expression).skip(expression.len() as int) == "\nquit\n"@,
{
    let input = calculator_input(expression);
    let n = expression.len() as int;
    reveal_strlit("\n");
    reveal_strlit("\nquit\n");
    lemma_allowed_is_ascii(expression);
    assert(input.subrange(n, n + 1) =~= "\n"@);
    assert forall|before: int| 0 <= before < n implies !occurs_at(input, "\n"@, before) by {
        assert(input[before] == expression[before]);
        if occurs_at(input, "\n"@, before) {
            assert(input.subrange(before, before + 1)[0] == "\n"@[0]);
        }
    }
    lemma_find_text_at(input, "\n"@, n);
    assert(input.take(n) =~= expression);
    assert(input.skip(n) =~= "\nquit\n"@);
}

/// A calculation that succeeds repeats its expression and gives an answer, which is not blank.
pub proof fn law_success_gives_an_answer(
    expression: Seq<char>,
    success: bool,
    stdout: Seq<char>,
    stderr: Seq<char>,
)
    requires
        finished_result(expression, success, stdout, stderr).success,
    ensures
        exists|answer: Seq<char>| #![trigger has_bare_ends(answer)]
            answer.len() > 0 && has_bare_ends(answer) && finished_result(
                expression,
                success,
                stdout,
                stderr,
            ).content == expression + " = "@ + answer,
{
    law_trimmed_has_bare_ends(stdout);
}

} // verus!
