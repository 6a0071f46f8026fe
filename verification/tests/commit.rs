use netero::commit::{
    comment, generate, normalize_commit_message, render_commit_output, render_failed_section,
    render_output_section, render_status, status_commands, CommitPrompts, Ran,
};
use netero::report::Captured;

fn prompts() -> CommitPrompts {
    CommitPrompts {
        instruction: "Write a commit message.".to_string(),
        convention: "type: subject".to_string(),
        skeleton: "<type>: <subject>".to_string(),
    }
}

fn text(v: Vec<char>) -> String {
    v.into_iter().collect()
}

#[test]
fn the_commit_prompt_holds_six_sections() {
    assert_eq!(
        generate(Some("fix the parser"), &prompts(), "STATUS"),
        ":: START INSTRUCTION ::\nWrite a commit message.\n:: END INSTRUCTION ::\n\n\
:: START CONVENTION ::\ntype: subject\n:: END CONVENTION ::\n\n\
:: START SKELETON ::\n<type>: <subject>\n:: END SKELETON ::\n\n\
:: START PROJECT CONTEXT ::\nrepository context\n:: END PROJECT CONTEXT ::\n\n\
:: START USER HINT ::\nfix the parser\n:: END USER HINT ::\n\n\
:: START REPOSITORY STATUS ::\nSTATUS\n:: END REPOSITORY STATUS ::"
    );
}

#[test]
fn the_commit_prompt_without_a_hint_has_an_empty_hint() {
    let prompt = generate(None, &prompts(), "");
    assert!(prompt.contains(":: START USER HINT ::\n\n:: END USER HINT ::\n\n"));
    assert!(prompt.ends_with(":: START REPOSITORY STATUS ::\n\n:: END REPOSITORY STATUS ::"));
}

#[test]
fn comment_marks_every_line() {
    assert_eq!(comment("a\nb"), "# a\n# b");
    assert_eq!(comment("a\r\nb\n"), "# a\n# b");
    assert_eq!(comment("a\n\nb"), "# a\n# \n# b");
    assert_eq!(comment("only\r"), "# only\r");
    assert_eq!(comment("\n"), "# ");
    assert_eq!(comment(""), "");
}

#[test]
fn a_message_gets_an_empty_line_after_its_subject() {
    assert_eq!(normalize_commit_message("fix: a\nbody one\nbody two\n\n"), "fix: a\n\nbody one\nbody two");
    assert_eq!(normalize_commit_message("fix: a\n\nbody"), "fix: a\n\nbody");
    assert_eq!(normalize_commit_message("fix: a  \n"), "fix: a");
    assert_eq!(normalize_commit_message("fix: a\n \nbody"), "fix: a\n\n \nbody");
    assert_eq!(normalize_commit_message("  \n"), "");
    assert_eq!(normalize_commit_message("\nbody"), "\n\nbody");
}

#[test]
fn normalizing_twice_is_normalizing_once() {
    for message in ["fix: a\nbody\n", "a\n\nb", "one line", "", "a\n \nb  ", "\nx"] {
        let once = normalize_commit_message(message);
        assert_eq!(normalize_commit_message(&once), once);
    }
}

#[test]
fn the_convention_follows_the_message_as_a_comment() {
    assert_eq!(
        render_commit_output("feat: x\nbody\n", "type: subject\nkeep it short"),
        "feat: x\n\nbody\n\n\n# type: subject\n# keep it short"
    );
}

#[test]
fn nothing_staged_is_shown_as_it_is() {
    assert_eq!(
        render_commit_output("Error: no changes staged for commit\n", "type: subject"),
        "Error: no changes staged for commit"
    );
    assert_eq!(
        render_commit_output("Sorry.\nError: no changes staged for commit.", "c"),
        "Sorry.\n\nError: no changes staged for commit."
    );
    assert_eq!(
        render_commit_output("Error: no changes staged for commi", "c"),
        "Error: no changes staged for commi\n\n\n# c"
    );
}

#[test]
fn the_status_commands_are_seven() {
    let commands = status_commands();
    assert_eq!(commands.len(), 7);
    assert_eq!(commands[1], "git branch -v");
    assert_eq!(commands[5], "git status");
    assert!(commands[0].starts_with("cat $(find . -type f -name 'README.md'"));
    assert!(commands[6].ends_with("&& git diff --staged"));
}

#[test]
fn a_section_holds_output_then_errors_without_trailing_whitespace() {
    assert_eq!(
        text(render_output_section("git status -s", " M a.rs\n", "warning\n\n")),
        "[section]\n[command]\ngit status -s\n[output]\n M a.rs\nwarning\n[end section]"
    );
    assert_eq!(
        text(render_output_section("true", "", "")),
        "[section]\n[command]\ntrue\n[output]\n\n[end section]"
    );
    assert_eq!(
        text(render_failed_section("git", "not found")),
        "[section]\n[command]\ngit\n[error]\nnot found\n[end section]"
    );
}

#[test]
fn the_status_holds_a_section_for_each_command() {
    let runs = vec![
        Ran {
            command: "one".to_string(),
            captured: Captured::Output { stdout: b"1\n".to_vec(), stderr: vec![0xff], code: 2 },
        },
        Ran { command: "two".to_string(), captured: Captured::SpawnError("gone".to_string()) },
    ];
    assert_eq!(
        render_status(&runs),
        "[section]\n[command]\none\n[output]\n1\n\u{fffd}\n[end section]\n\n[section]\n[command]\ntwo\n[error]\ngone\n[end section]"
    );
    assert_eq!(render_status(&Vec::new()), "");
}
