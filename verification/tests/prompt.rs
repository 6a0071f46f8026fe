use netero::prompt::{
    create_message_prompt, create_plain_prompt, create_prompt, create_request_prompt,
    create_translation_prompt,
};

const HEAD: &str = "LLM ROL: Conversational terminal assistant\nUSERNAME: Ada\nDATETIME: 2024-01-02 03:04:05\nUSER LANG: en_US\n\
:: INSTRUCTION (SYSTEM) ::\n\
- Keep responses concise: 5-20 lines maximum.\n\
- Do not use emojis or decorations.\n\
- Always prioritize the latest user message over the HISTORICAL CHAT.\n\
- The latest message may be completely unrelated to previous messages.\n\
- Do not assume continuity or context from the history unless the user explicitly refers to it.\n\
:: END INSTRUCTION (SYSTEM) ::\n\
:: HISTORIAL CHAT (SYSTEM) ::\n";

fn chat(command_output: Option<&str>, attachment: Option<&str>) -> String {
    create_prompt("Ada", "2024-01-02 03:04:05", "en_US", "Ada: hi", "what now?", command_output, attachment)
}

#[test]
fn the_chat_prompt_without_extras() {
    assert_eq!(
        chat(None, None),
        format!("{HEAD}Ada: hi\n:: END HISTORIAL CHAT (SYSTEM) ::\n:: USER MESSAGE ::\nwhat now?\n:: END USER MESSAGE ::")
    );
}

#[test]
fn the_chat_prompt_with_command_output() {
    assert_eq!(
        chat(Some("OUT"), None),
        format!("{HEAD}Ada: hi\n:: END HISTORIAL CHAT (SYSTEM) ::\n:: COMMAND OUTPUT (SYSTEM) ::\nOUT\n:: END COMMAND OUTPUT (SYSTEM) ::\n:: USER MESSAGE ::\nwhat now?\n:: END USER MESSAGE ::")
    );
}

#[test]
fn the_chat_prompt_with_an_attachment() {
    assert_eq!(
        chat(None, Some("FILE")),
        format!("{HEAD}Ada: hi\n:: END HISTORIAL CHAT (SYSTEM) ::\n:: STDIN ATTACHMENT (SYSTEM) ::\nFILE\n:: END STDIN ATTACHMENT (SYSTEM) ::\n:: USER MESSAGE ::\nwhat now?\n:: END USER MESSAGE ::")
    );
}

#[test]
fn the_chat_prompt_with_both_extras() {
    assert_eq!(
        chat(Some(""), Some("")),
        format!("{HEAD}Ada: hi\n:: END HISTORIAL CHAT (SYSTEM) ::\n:: COMMAND OUTPUT (SYSTEM) ::\n\n:: END COMMAND OUTPUT (SYSTEM) ::\n:: STDIN ATTACHMENT (SYSTEM) ::\n\n:: END STDIN ATTACHMENT (SYSTEM) ::\n:: USER MESSAGE ::\nwhat now?\n:: END USER MESSAGE ::")
    );
}

#[test]
fn the_plain_chat_prompt() {
    assert_eq!(
        create_plain_prompt("Ada", "now", "USER: a", "b"),
        "\nLLM: Netero\nUSER: Ada\nDatetime: now\n\n== INSTRUCTION ==\n- Do not use emojis\n- Respond with between 1 and 15 lines at most\n- Keep answers short, avoid long explanations\n- Respond in the same language as the user\n== END INSTRUCTION ==\n\n== HISTORIAL CHAT ==\nUSER: a\n== END HISTORIAL CHAT ==\n\n== USER MESSAGE ==\nb\n== END USER MESSAGE ==\n"
    );
}

#[test]
fn the_request_prompt_with_and_without_piped_input() {
    assert_eq!(
        create_request_prompt(" \n", "  explain this  "),
        "== USER REQUEST ==\nexplain this\n== END USER REQUEST =="
    );
    assert_eq!(
        create_request_prompt("\nfn main() {}\n", "explain this"),
        "== STDIN FILE ==\nfn main() {}\n== END STDIN FILE ==\n\n== USER REQUEST ==\nexplain this\n== END USER REQUEST =="
    );
}

#[test]
fn the_message_prompt_with_and_without_piped_input() {
    assert_eq!(
        create_message_prompt("Ada", "now", " hello ", ""),
        "LLM name: Netero\nUser name: Ada\nDate and hour: now\nUser request:\nhello"
    );
    assert_eq!(
        create_message_prompt("Ada", "now", " hello ", " data \n"),
        "LLM name: Netero\nUser name: Ada\nDate and hour: now\n== USER REQUEST ==\nhello\n== END USER REQUEST ==\n== STDIN FILE ==\n data \n\n== END STDIN FILE =="
    );
}

#[test]
fn the_translation_prompt_names_both_languages() {
    assert_eq!(
        create_translation_prompt(Some("en"), "es", "Spanish", "good morning"),
        "\nTask: Translate the following text faithfully, preserving its meaning and context.\nReturn only the translation. Do not explain or add anything.\nYou must translate. Do not choose any other task or language.\nLANG: en:es.\nSource language (locked): en.\nTarget language (locked): es.\nTarget language name (locked): Spanish.\n\nTEXT:\ngood morning"
    );
    let detected = create_translation_prompt(None, "de", "de", "x");
    assert!(detected.contains("LANG: auto-detect:de.\nSource language (locked): auto-detect.\n"));
}
