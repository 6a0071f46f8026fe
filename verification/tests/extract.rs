use netero::args::split_args;
use netero::extract::{extract, extract_inline_commands, strip_inline_commands};

fn texts(line: &str) -> Vec<String> {
    extract(line).commands.into_iter().map(|c| c.raw_text).collect()
}

#[test]
fn a_line_that_is_one_command_leaves_no_text() {
    let found = extract("$(echo hi)");
    assert_eq!(found.cleaned_text, "");
    assert_eq!(found.commands.len(), 1);
    assert_eq!(found.commands[0].raw_text, "echo hi");
}

#[test]
fn a_line_without_commands_comes_back_unchanged() {
    for line in ["hello there", "  two  spaces  kept ", "price is $5 (five)", "", "a ) b ( c"] {
        let found = extract(line);
        assert_eq!(found.cleaned_text, line);
        assert!(found.commands.is_empty());
    }
}

#[test]
fn a_quoted_marker_is_no_command() {
    let line = "say \"$(ls)\" done";
    let found = extract(line);
    assert_eq!(found.cleaned_text, line);
    assert!(found.commands.is_empty());
    let single = "say '$(ls)' done";
    assert_eq!(strip_inline_commands(single), single);
    assert!(extract_inline_commands(single).is_empty());
}

#[test]
fn a_command_after_a_quoted_span_is_found() {
    assert_eq!(texts("say \"$(ls)\" then $(pwd)"), vec!["pwd".to_string()]);
    assert_eq!(strip_inline_commands("say \"$(ls)\" then $(pwd)"), "say \"$(ls)\" then");
}

#[test]
fn whitespace_round_a_command_shrinks_to_one_space() {
    assert_eq!(strip_inline_commands("run $(ls) now"), "run now");
    assert_eq!(strip_inline_commands("run   $(ls)\t now"), "run now");
    assert_eq!(strip_inline_commands("run $(ls)"), "run");
    assert_eq!(strip_inline_commands("$(ls) now"), "now");
    assert_eq!(strip_inline_commands("a$(x)b"), "ab");
    assert_eq!(strip_inline_commands("a $(x)b"), "a b");
}

#[test]
fn commands_come_in_the_order_of_the_line() {
    let line = "list $(ls -la) and $(pwd) please";
    assert_eq!(texts(line), vec!["ls -la".to_string(), "pwd".to_string()]);
    assert_eq!(strip_inline_commands(line), "list and please");
    assert_eq!(extract_inline_commands(line), vec!["ls -la".to_string(), "pwd".to_string()]);
}

#[test]
fn neighbouring_commands_leave_one_space() {
    assert_eq!(strip_inline_commands("a $(x) $(y) b"), "a b");
    assert_eq!(strip_inline_commands("a $(x)$(y) b"), "a b");
    assert_eq!(texts("a $(x)$(y) b"), vec!["x".to_string(), "y".to_string()]);
}

#[test]
fn parentheses_nest_inside_a_command() {
    assert_eq!(texts("see $(echo $(date)) ok"), vec!["echo $(date)".to_string()]);
    assert_eq!(texts("$(f (a) (b))"), vec!["f (a) (b)".to_string()]);
}

#[test]
fn a_marker_that_is_never_closed_is_text() {
    let line = "broken $(echo hi";
    let found = extract(line);
    assert_eq!(found.cleaned_text, line);
    assert!(found.commands.is_empty());
    assert_eq!(texts("broken $(a (b) then $(ok)"), vec!["ok".to_string()]);
}

#[test]
fn a_quote_that_is_never_closed_is_text() {
    assert_eq!(texts("don't run $(ls)"), vec!["ls".to_string()]);
    assert_eq!(strip_inline_commands("don't run $(ls)"), "don't run");
}

#[test]
fn the_raw_text_of_a_command_keeps_its_spaces() {
    assert_eq!(texts("$( echo  hi )"), vec![" echo  hi ".to_string()]);
    assert_eq!(texts("$()"), vec!["".to_string()]);
}

#[test]
fn split_args_splits_on_whitespace() {
    assert_eq!(split_args("a.txt b.txt\tc.txt"), vec!["a.txt", "b.txt", "c.txt"]);
    assert_eq!(split_args("  lone  "), vec!["lone"]);
}

#[test]
fn split_args_of_blank_text_is_empty() {
    assert!(split_args("").is_empty());
    assert!(split_args(" \t ").is_empty());
}

#[test]
fn split_args_keeps_quoted_spans_together() {
    assert_eq!(split_args("\"my file.txt\" other"), vec!["my file.txt", "other"]);
    assert_eq!(split_args("'a b' \"c d\""), vec!["a b", "c d"]);
    assert_eq!(split_args("pre\"fix ed\"post"), vec!["prefix edpost"]);
    assert_eq!(split_args("\"it's\""), vec!["it's"]);
}

#[test]
fn split_args_drops_empty_quotes_and_takes_an_open_quote_to_the_end() {
    assert!(split_args("\"\"").is_empty());
    assert_eq!(split_args("a \"\" b"), vec!["a", "b"]);
    assert_eq!(split_args("\"open ended  text"), vec!["open ended  text"]);
}
