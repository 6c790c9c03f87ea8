use brok::calculator::{
    begin_calculation, finish_calculation, read_calculation, CalculatorOutcome, CalculatorStep,
};
use brok::tool::ToolResult;

fn failure(content: &str) -> ToolResult {
    ToolResult { success: false, content: content.to_string() }
}

fn success(content: &str) -> ToolResult {
    ToolResult { success: true, content: content.to_string() }
}

fn finished(success: bool, stdout: &[u8], stderr: &[u8]) -> CalculatorOutcome {
    CalculatorOutcome::Finished { success, stdout: stdout.to_vec(), stderr: stderr.to_vec() }
}

const INVALID: &str = "Invalid characters in expression. Only numbers, +, -, *, /, ^, (, ), and spaces are allowed.";
const UNSAFE: &str = "Expression contains unsafe patterns or is too long.";

#[test]
fn safe_expressions_run() {
    assert_eq!(
        begin_calculation("(1 + 2.5) * 3 ^ 4 / 5 - 6"),
        CalculatorStep::Run("(1 + 2.5) * 3 ^ 4 / 5 - 6\nquit\n".to_string())
    );
    assert_eq!(begin_calculation(""), CalculatorStep::Run("\nquit\n".to_string()));
    assert_eq!(
        begin_calculation("0123456789+-*/().^ "),
        CalculatorStep::Run("0123456789+-*/().^ \nquit\n".to_string())
    );
}

#[test]
fn other_characters_are_refused() {
    for expression in ["a", "1+1;", "1\n2", "1%2", "system(1)", "٣+٤", "1,5", "1\t2"] {
        assert_eq!(begin_calculation(expression), CalculatorStep::Refuse(failure(INVALID)));
    }
}

#[test]
fn unsafe_patterns_are_refused() {
    for expression in ["1..2", "4//2", "...", "1+(2//3)"] {
        assert_eq!(begin_calculation(expression), CalculatorStep::Refuse(failure(UNSAFE)));
    }
}

#[test]
fn long_expressions_are_refused() {
    let longest = "1".repeat(200);
    assert_eq!(begin_calculation(&longest), CalculatorStep::Run(format!("{longest}\nquit\n")));
    assert_eq!(begin_calculation(&"1".repeat(201)), CalculatorStep::Refuse(failure(UNSAFE)));
}

#[test]
fn invalid_characters_are_named_before_length() {
    assert_eq!(begin_calculation(&"x".repeat(300)), CalculatorStep::Refuse(failure(INVALID)));
}

#[test]
fn input_holds_one_expression() {
    match begin_calculation("1+1") {
        CalculatorStep::Run(input) => {
            let lines: Vec<&str> = input.lines().collect();
            assert_eq!(lines, vec!["1+1", "quit"]);
        }
        CalculatorStep::Refuse(_) => panic!("1+1 is safe"),
    }
}

#[test]
fn outcomes_are_told() {
    assert_eq!(finish_calculation("2+2", &finished(true, b" 4\n", b"")), success("2+2 = 4"));
    assert_eq!(
        finish_calculation("2+2", &finished(true, b" \n", b"")),
        failure("No result from calculation")
    );
    assert_eq!(
        finish_calculation("2+", &finished(false, b"4", b"parse error\n")),
        failure("Calculation error: parse error\n")
    );
    assert_eq!(
        finish_calculation("2", &CalculatorOutcome::NotStarted { error: "no bc".to_string() }),
        failure("Failed to start calculator: no bc")
    );
    assert_eq!(
        finish_calculation("2", &CalculatorOutcome::NotFinished { error: "gone".to_string() }),
        failure("Failed to execute calculation: gone")
    );
}

#[test]
fn bytes_outside_utf8_are_replaced() {
    assert_eq!(
        finish_calculation("2+2", &finished(true, b"4\xff\n", b"")),
        success("2+2 = 4\u{fffd}")
    );
    assert_eq!(
        finish_calculation("2", &finished(false, b"", "π\n".as_bytes())),
        failure("Calculation error: π\n")
    );
}

#[test]
fn the_texts_can_be_given() {
    assert_eq!(read_calculation("1", true, "1\n2\n", ""), success("1 = 1\n2"));
    assert_eq!(read_calculation("1", false, "1", ""), failure("Calculation error: "));
}
