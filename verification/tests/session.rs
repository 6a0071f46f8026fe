use netero::report::{Captured, CommandReport};
use netero::session::{
    Action, Environment, FileRead, HistoryEntry, LoopState, Reply, Session, SlashWork, Speaker,
};
use netero::slash::{read_line, read_translation, Input, SlashCommand, TransRequest};

fn session() -> Session {
    Session::new(
        Environment { username: "Ada".to_string(), user_lang: "en_US".to_string() },
        String::new(),
    )
}

fn entry(speaker: Speaker, text: &str) -> HistoryEntry {
    HistoryEntry { speaker, text: text.to_string() }
}

fn pairs(s: &Session) -> Vec<(Speaker, String)> {
    s.history.iter().map(|e| (e.speaker, e.text.clone())).collect()
}

#[test]
fn a_new_session_awaits_input() {
    let s = session();
    assert_eq!(s.state, LoopState::AwaitingInput);
    assert!(s.history.is_empty());
    assert!(s.pending_attachment.is_none());
    assert!(!s.streaming);
    assert!(!s.is_closed());
    let piped = Session::new(
        Environment { username: "Ada".to_string(), user_lang: "en".to_string() },
        " data \n".to_string(),
    );
    assert_eq!(piped.pending_attachment.as_deref(), Some(" data \n"));
    let blank = Session::new(
        Environment { username: "Ada".to_string(), user_lang: "en".to_string() },
        " \n\t".to_string(),
    );
    assert!(blank.pending_attachment.is_none());
}

#[test]
fn a_blank_line_changes_nothing() {
    let mut s = session();
    assert!(matches!(s.submit("   \t"), Action::Continue));
    assert_eq!(s.state, LoopState::AwaitingInput);
    assert!(s.history.is_empty());
}

#[test]
fn clean_twice_is_clean_once() {
    let mut once = session();
    once.history.push(entry(Speaker::User, "hi"));
    once.history.push(entry(Speaker::Assistant, "hello"));
    once.pending_attachment = Some("kept".to_string());
    once.streaming = true;
    assert!(matches!(once.submit("/clean"), Action::ClearScreen));
    assert!(once.history.is_empty());
    let mut twice = session();
    twice.history.push(entry(Speaker::User, "hi"));
    twice.pending_attachment = Some("kept".to_string());
    twice.streaming = true;
    assert!(matches!(twice.submit(" /clean "), Action::ClearScreen));
    assert!(matches!(twice.submit("/clean"), Action::ClearScreen));
    assert!(twice.history.is_empty());
    assert_eq!(twice.state, once.state);
    assert_eq!(twice.pending_attachment, once.pending_attachment);
    assert_eq!(twice.streaming, once.streaming);
    assert_eq!(twice.turn, once.turn);
}

#[test]
fn help_prints_the_commands() {
    let mut s = session();
    match s.submit("/help") {
        Action::Print(text) => assert_eq!(
            text,
            "\nCommands:\n/help  Show this help message\n/clean Clear chat history\n/add   Attach file contents to chat context\n/trans Translate text (uses LLM)\n/eval  Evaluate arithmetic expression\n/stream [on|off] Toggle streaming output\n"
        ),
        _ => panic!("help prints"),
    }
    assert!(s.history.is_empty());
}

#[test]
fn stream_switches_the_mode() {
    let mut s = session();
    assert!(matches!(s.submit("/stream ON"), Action::Print(t) if t == "\nstream: on"));
    assert!(s.streaming);
    assert!(matches!(s.submit("/stream"), Action::Print(t) if t == "\nUsage: /stream on|off"));
    assert!(s.streaming);
    assert!(matches!(s.submit("/stream  off "), Action::Print(t) if t == "\nstream: off"));
    assert!(!s.streaming);
    assert!(matches!(s.submit("/streamon"), Action::Print(t) if t == "\nstream: on"));
    assert!(matches!(s.submit("/stream maybe"), Action::Print(t) if t == "\nUsage: /stream on|off"));
}

#[test]
fn eval_hands_the_expression_out() {
    let mut s = session();
    assert!(matches!(s.submit("/eval 1 + 2 * 3"), Action::Evaluate(e) if e == "1 + 2 * 3"));
    assert!(matches!(s.submit("/eval"), Action::Continue));
    assert!(matches!(s.submit("/eval $(date)"), Action::Continue));
    assert_eq!(s.state, LoopState::AwaitingInput);
    assert!(s.history.is_empty());
}

#[test]
fn add_without_paths_prints_the_usage() {
    let mut s = session();
    assert!(matches!(s.submit("/add"), Action::Print(t) if t == "\nUsage: /add <path> [path2 path3 ...]"));
    assert_eq!(s.state, LoopState::AwaitingInput);
}

#[test]
fn add_attaches_the_files_that_could_be_read() {
    let mut s = session();
    match s.submit("/add a.txt \"my notes.md\" gone") {
        Action::ReadFiles(paths) => assert_eq!(paths, vec!["a.txt", "my notes.md", "gone"]),
        _ => panic!("add reads files"),
    }
    assert_eq!(s.state, LoopState::SlashCommand(SlashWork::ReadingFiles));
    assert!(matches!(s.submit("hello"), Action::Continue));
    let notices = s.files_read(vec![
        FileRead { path: "a.txt".to_string(), content: Ok("alpha".to_string()) },
        FileRead { path: "my notes.md".to_string(), content: Ok("beta\n".to_string()) },
        FileRead { path: "gone".to_string(), content: Err("No such file".to_string()) },
    ]);
    let told: Vec<(String, bool)> = notices.into_iter().map(|n| (n.text, n.is_error)).collect();
    assert_eq!(
        told,
        vec![
            ("\nadded: a.txt".to_string(), false),
            ("\nadded: my notes.md".to_string(), false),
            ("\nError reading gone: No such file".to_string(), true),
        ]
    );
    assert_eq!(s.state, LoopState::AwaitingInput);
    assert_eq!(
        s.pending_attachment.as_deref(),
        Some("\n-- FILE: a.txt --\nalpha\n\n-- FILE: my notes.md --\nbeta\n\n")
    );
    assert_eq!(
        pairs(&s),
        vec![
            (Speaker::Attachment, "a.txt\nalpha".to_string()),
            (Speaker::Attachment, "my notes.md\nbeta\n".to_string()),
        ]
    );
    assert_eq!(s.dialog(), "Attachment: a.txt\nalpha\n\nAttachment: my notes.md\nbeta\n\n");
}

#[test]
fn files_that_could_not_be_read_leave_the_attachment_alone() {
    let mut s = session();
    s.pending_attachment = Some("old".to_string());
    s.submit("/add x");
    let notices = s.files_read(vec![FileRead { path: "x".to_string(), content: Err("denied".to_string()) }]);
    assert_eq!(notices.len(), 1);
    assert_eq!(s.pending_attachment.as_deref(), Some("old"));
    assert!(s.history.is_empty());
    assert!(s.files_read(Vec::new()).is_empty());
    assert_eq!(s.state, LoopState::AwaitingInput);
}

#[test]
fn a_turn_puts_question_and_answer_into_the_history() {
    let mut s = session();
    s.pending_attachment = Some("FILE".to_string());
    match s.submit("  what is in $(ls) here?  ") {
        Action::RunCommands(list) => assert_eq!(list, vec!["ls"]),
        _ => panic!("a message begins a turn"),
    }
    assert_eq!(s.state, LoopState::Completing);
    assert_eq!(s.turn.as_deref(), Some("what is in here?"));
    assert!(s.history.is_empty());
    let reports = vec![CommandReport::new(
        "ls",
        &Captured::Output { stdout: b"a.txt\n".to_vec(), stderr: Vec::new(), code: 0 },
    )];
    let request = s.assemble(&reports, "2024-01-02 03:04:05").unwrap();
    assert!(!request.stream);
    assert_eq!(request.trace.kind, "REQUEST");
    assert_eq!(request.trace.body, request.prompt);
    assert!(request.prompt.starts_with("LLM ROL: Conversational terminal assistant\nUSERNAME: Ada\nDATETIME: 2024-01-02 03:04:05\nUSER LANG: en_US\n"));
    assert!(request.prompt.ends_with(
        ":: HISTORIAL CHAT (SYSTEM) ::\n\n:: END HISTORIAL CHAT (SYSTEM) ::\n\
:: COMMAND OUTPUT (SYSTEM) ::\n[section]\n[command]\nls\n\n[stdout]\na.txt\n[end section]\n:: END COMMAND OUTPUT (SYSTEM) ::\n\
:: STDIN ATTACHMENT (SYSTEM) ::\nFILE\n:: END STDIN ATTACHMENT (SYSTEM) ::\n\
:: USER MESSAGE ::\nwhat is in here?\n:: END USER MESSAGE ::"
    ));
    assert!(s.pending_attachment.is_none());
    assert!(s.history.is_empty());
    match s.complete(Ok("two files".to_string())) {
        Reply::Answer { text, streamed, trace } => {
            assert_eq!(text, "two files");
            assert!(!streamed);
            assert_eq!(trace.encode(), "RESPONSE\ntwo files");
        }
        _ => panic!("a reply completes the turn"),
    }
    assert_eq!(s.state, LoopState::AwaitingInput);
    assert!(s.turn.is_none());
    assert_eq!(
        pairs(&s),
        vec![
            (Speaker::User, "what is in here?".to_string()),
            (Speaker::Assistant, "two files".to_string()),
        ]
    );
    assert_eq!(s.dialog(), "Ada: what is in here?\nAssistant: two files\n");
}

#[test]
fn the_next_prompt_holds_the_history_and_no_attachment() {
    let mut s = session();
    s.pending_attachment = Some("FILE".to_string());
    s.submit("one");
    s.assemble(&Vec::new(), "t").unwrap();
    s.complete(Ok("1".to_string()));
    s.submit("two");
    let request = s.assemble(&Vec::new(), "t").unwrap();
    assert!(request.prompt.contains(":: HISTORIAL CHAT (SYSTEM) ::\nAda: one\nAssistant: 1\n\n:: END HISTORIAL CHAT (SYSTEM) ::\n:: USER MESSAGE ::\ntwo\n"));
    assert!(!request.prompt.contains("STDIN ATTACHMENT"));
    assert!(!request.prompt.contains("COMMAND OUTPUT"));
}

#[test]
fn a_streamed_turn_is_marked_as_seen() {
    let mut s = session();
    s.submit("/stream on");
    assert!(matches!(s.submit("hi"), Action::RunCommands(list) if list.is_empty()));
    assert_eq!(s.state, LoopState::StreamCompleting);
    assert!(s.assemble_now(&Vec::new()).unwrap().stream);
    assert!(matches!(s.complete(Ok("yo".to_string())), Reply::Answer { streamed: true, .. }));
    assert_eq!(s.history.len(), 2);
}

#[test]
fn a_failed_turn_ends_the_session_and_leaves_the_history() {
    let mut s = session();
    s.history.push(entry(Speaker::User, "earlier"));
    s.submit("hi");
    s.assemble(&Vec::new(), "t");
    assert!(matches!(s.complete(Err("timeout".to_string())), Reply::Fatal(t) if t == "AI error: timeout"));
    assert!(s.is_closed());
    assert_eq!(pairs(&s), vec![(Speaker::User, "earlier".to_string())]);
    assert!(matches!(s.submit("again"), Action::Continue));
    assert!(s.assemble(&Vec::new(), "t").is_none());
    assert!(matches!(s.complete(Ok("late".to_string())), Reply::Ignored));
    assert!(s.is_closed());
    assert_eq!(s.history.len(), 1);
}

#[test]
fn nothing_is_assembled_outside_a_turn() {
    let mut s = session();
    s.pending_attachment = Some("kept".to_string());
    assert!(s.assemble(&Vec::new(), "t").is_none());
    assert!(s.assemble_now(&Vec::new()).is_none());
    assert_eq!(s.pending_attachment.as_deref(), Some("kept"));
    assert!(matches!(s.complete(Ok("x".to_string())), Reply::Ignored));
    assert!(matches!(s.translated(Ok("x".to_string())), Reply::Ignored));
    assert!(s.history.is_empty());
}

#[test]
fn a_translation_is_shown_and_not_recorded() {
    let mut s = session();
    match s.submit("/trans en:es good morning") {
        Action::Translate(prompt) => {
            assert!(prompt.contains("LANG: en:es.\n"));
            assert!(prompt.ends_with("Target language name (locked): es.\n\nTEXT:\ngood morning"));
        }
        _ => panic!("trans asks the model"),
    }
    assert_eq!(s.state, LoopState::SlashCommand(SlashWork::Translating));
    assert!(s.files_read(Vec::new()).is_empty());
    assert_eq!(s.state, LoopState::SlashCommand(SlashWork::Translating));
    assert!(matches!(s.translated(Ok("buenos dias".to_string())), Reply::Answer { text, streamed: false, .. } if text == "buenos dias"));
    assert_eq!(s.state, LoopState::AwaitingInput);
    assert!(s.history.is_empty());
    match s.submit("/trans hello there") {
        Action::Translate(prompt) => assert!(prompt.contains("LANG: auto-detect:en_US.\n")),
        _ => panic!("trans asks the model"),
    }
    assert!(matches!(s.translated(Err("down".to_string())), Reply::Fatal(t) if t == "AI error: down"));
    assert!(s.is_closed());
}

#[test]
fn trans_without_text_asks_nothing() {
    let mut s = session();
    assert!(matches!(s.submit("/trans"), Action::Print(t) if t == "\nUsage: /trans [INPUT_LANG:OUTPUT_LANG] <text>"));
    assert!(matches!(s.submit("/trans en:es"), Action::Continue));
    assert_eq!(s.state, LoopState::AwaitingInput);
}

#[test]
fn the_end_of_input_closes_the_session() {
    let mut s = session();
    s.submit("hi");
    s.close();
    assert!(s.is_closed());
    assert!(s.turn.is_none());
    assert!(matches!(s.submit("/help"), Action::Continue));
}

#[test]
fn lines_are_read_by_how_they_begin() {
    assert!(matches!(read_line(" \n"), Input::Blank));
    assert!(matches!(read_line("/clean"), Input::Command(SlashCommand::Clean)));
    assert!(matches!(read_line("/clean now"), Input::Message(t) if t == "/clean now"));
    assert!(matches!(read_line("/helpme"), Input::Message(t) if t == "/helpme"));
    assert!(matches!(read_line("/address book"), Input::Command(SlashCommand::Add { paths }) if paths == vec!["ress", "book"]));
    assert!(matches!(read_line("/stream Off"), Input::Command(SlashCommand::Stream { mode: Some(false) })));
    assert!(matches!(read_line("/stream \u{212a}"), Input::Command(SlashCommand::Stream { mode: None })));
    assert!(matches!(read_line("/eval  2+2 "), Input::Command(SlashCommand::Eval { expr }) if expr == "2+2"));
    assert!(matches!(read_line("  hello  "), Input::Message(t) if t == "hello"));
    assert!(matches!(read_line("/unknown"), Input::Message(t) if t == "/unknown"));
}

#[test]
fn a_language_pair_is_taken_off_the_text() {
    assert!(matches!(read_translation(""), TransRequest::Usage));
    assert!(matches!(read_translation(" $(date) "), TransRequest::Usage));
    assert!(matches!(read_translation(" en:es "), TransRequest::Empty));
    assert!(matches!(
        read_translation(" en:es-MX  hola  mundo "),
        TransRequest::Text { source: Some(a), target: Some(b), text } if a == "en" && b == "es-MX" && text == "hola  mundo"
    ));
    assert!(matches!(
        read_translation(":fr bonjour"),
        TransRequest::Text { source: None, target: Some(b), text } if b == "fr" && text == "bonjour"
    ));
    assert!(matches!(
        read_translation("de: hallo"),
        TransRequest::Text { source: Some(a), target: None, text } if a == "de" && text == "hallo"
    ));
    assert!(matches!(
        read_translation(": just text"),
        TransRequest::Text { source: None, target: None, text } if text == ": just text"
    ));
    assert!(matches!(
        read_translation("time: 10:30 is late"),
        TransRequest::Text { source: Some(a), target: None, text } if a == "time" && text == "10:30 is late"
    ));
    assert!(matches!(
        read_translation("caf\u{e9}:x hello"),
        TransRequest::Text { source: None, target: None, text } if text == "caf\u{e9}:x hello"
    ));
    assert!(matches!(
        read_translation("a:b:c rest"),
        TransRequest::Text { source: Some(a), target: Some(b), text } if a == "a" && b == "b:c" && text == "rest"
    ));
}
