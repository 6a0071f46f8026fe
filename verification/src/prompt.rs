//! The prompts that are sent to the model, built from values that the caller
//! has resolved: user name, date, history, input.

use crate::text::{from_chars, push_all, push_str, trim, trim_str};
use vstd::prelude::*;

verus! {

/// The opening lines of the chat prompt, up to the user's name.
pub open spec fn chat_head() -> Seq<char> {
    "LLM ROL: Conversational terminal assistant\nUSERNAME: "@
}

/// The instructions of the chat prompt, up to the history.
pub open spec fn chat_instructions() -> Seq<char> {
    "\n:: INSTRUCTION (SYSTEM) ::\n- Keep responses concise: 5-20 lines maximum.\n- Do not use emojis or decorations.\n- Always prioritize the latest user message over the HISTORICAL CHAT.\n- The latest message may be completely unrelated to previous messages.\n- Do not assume continuity or context from the history unless the user explicitly refers to it.\n:: END INSTRUCTION (SYSTEM) ::\n:: HISTORIAL CHAT (SYSTEM) ::\n"@
}

/// The section that holds the output of the turn's commands.
pub open spec fn command_section(output: Seq<char>) -> Seq<char> {
    ":: COMMAND OUTPUT (SYSTEM) ::\n"@ + output + "\n:: END COMMAND OUTPUT (SYSTEM) ::"@
}

/// The section that holds the pending attachment.
pub open spec fn attachment_section(content: Seq<char>) -> Seq<char> {
    ":: STDIN ATTACHMENT (SYSTEM) ::\n"@ + content + "\n:: END STDIN ATTACHMENT (SYSTEM) ::"@
}

/// The sections between history and user message: the command output, then
/// the attachment, each on lines of its own; nothing where there is neither.
pub open spec fn extra_block(
    command_output: Option<Seq<char>>,
    attachment: Option<Seq<char>>,
) -> Seq<char> {
    match (command_output, attachment) {
        (Some(output), Some(content)) => command_section(output) + "\n"@ + attachment_section(
            content,
        ) + "\n"@,
        (Some(output), None) => command_section(output) + "\n"@,
        (None, Some(content)) => attachment_section(content) + "\n"@,
        (None, None) => Seq::empty(),
    }
}

/// The chat prompt.
pub open spec fn chat_prompt(
    username: Seq<char>,
    datetime: Seq<char>,
    user_lang: Seq<char>,
    history: Seq<char>,
    user_input: Seq<char>,
    command_output: Option<Seq<char>>,
    attachment: Option<Seq<char>>,
) -> Seq<char> {
    chat_head() + username + "\nDATETIME: "@ + datetime + "\nUSER LANG: "@ + user_lang
        + chat_instructions() + history + "\n:: END HISTORIAL CHAT (SYSTEM) ::\n"@ + extra_block(
        command_output,
        attachment,
    ) + ":: USER MESSAGE ::\n"@ + user_input + "\n:: END USER MESSAGE ::"@
}

/// The view of an optional string.
pub open spec fn opt_view(s: Option<&str>) -> Option<Seq<char>> {
    match s {
        Some(t) => Some(t@),
        None => None,
    }
}

/// Builds the chat prompt from the user's name, the date, the user's
/// language, the dialogue so far, the user's message, and, where there are
/// any, the output of the turn's commands and the pending attachment.
pub fn create_prompt(
    username: &str,
    datetime: &str,
    user_lang: &str,
    history: &str,
    user_input: &str,
    command_output: Option<&str>,
    stdin_attachment: Option<&str>,
) -> (out: String)
    ensures
        out@ == chat_prompt(
            username@,
            datetime@,
            user_lang@,
            history@,
            user_input@,
            opt_view(command_output),
            opt_view(stdin_attachment),
        ),
{
    let mut extra: Vec<char> = Vec::new();
    if let Some(output) = command_output {
        push_str(&mut extra, ":: COMMAND OUTPUT (SYSTEM) ::\n");
        push_str(&mut extra, output);
        push_str(&mut extra, "\n:: END COMMAND OUTPUT (SYSTEM) ::");
        push_str(&mut extra, "\n");
    }
    if let Some(content) = stdin_attachment {
        push_str(&mut extra, ":: STDIN ATTACHMENT (SYSTEM) ::\n");
        push_str(&mut extra, content);
        push_str(&mut extra, "\n:: END STDIN ATTACHMENT (SYSTEM) ::");
        push_str(&mut extra, "\n");
    }
    assert(extra@ =~= extra_block(opt_view(command_output), opt_view(stdin_attachment)));
    let mut out: Vec<char> = Vec::new();
    push_str(&mut out, "LLM ROL: Conversational terminal assistant\nUSERNAME: ");
    push_str(&mut out, username);
    push_str(&mut out, "\nDATETIME: ");
    push_str(&mut out, datetime);
    push_str(&mut out, "\nUSER LANG: ");
    push_str(&mut out, user_lang);
    push_str(
        &mut out,
        "\n:: INSTRUCTION (SYSTEM) ::\n- Keep responses concise: 5-20 lines maximum.\n- Do not use emojis or decorations.\n- Always prioritize the latest user message over the HISTORICAL CHAT.\n- The latest message may be completely unrelated to previous messages.\n- Do not assume continuity or context from the history unless the user explicitly refers to it.\n:: END INSTRUCTION (SYSTEM) ::\n:: HISTORIAL CHAT (SYSTEM) ::\n",
    );
    push_str(&mut out, history);
    push_str(&mut out, "\n:: END HISTORIAL CHAT (SYSTEM) ::\n");
    push_all(&mut out, extra.as_slice());
    push_str(&mut out, ":: USER MESSAGE ::\n");
    push_str(&mut out, user_input);
    push_str(&mut out, "\n:: END USER MESSAGE ::");
    from_chars(out.as_slice())
}

/// The prompt of the plain chat, which knows no commands and no attachments.
pub open spec fn plain_chat_prompt(
    user: Seq<char>,
    datetime: Seq<char>,
    history: Seq<char>,
    user_input: Seq<char>,
) -> Seq<char> {
    "\nLLM: Netero\nUSER: "@ + user + "\nDatetime: "@ + datetime
        + "\n\n== INSTRUCTION ==\n- Do not use emojis\n- Respond with between 1 and 15 lines at most\n- Keep answers short, avoid long explanations\n- Respond in the same language as the user\n== END INSTRUCTION ==\n\n== HISTORIAL CHAT ==\n"@
        + history + "\n== END HISTORIAL CHAT ==\n\n== USER MESSAGE ==\n"@ + user_input
        + "\n== END USER MESSAGE ==\n"@
}

/// Builds the prompt of the plain chat.
pub fn create_plain_prompt(user: &str, datetime: &str, history: &str, user_input: &str) -> (out:
    String)
    ensures
        out@ == plain_chat_prompt(user@, datetime@, history@, user_input@),
{
    let mut out: Vec<char> = Vec::new();
    push_str(&mut out, "\nLLM: Netero\nUSER: ");
    push_str(&mut out, user);
    push_str(&mut out, "\nDatetime: ");
    push_str(&mut out, datetime);
    push_str(
        &mut out,
        "\n\n== INSTRUCTION ==\n- Do not use emojis\n- Respond with between 1 and 15 lines at most\n- Keep answers short, avoid long explanations\n- Respond in the same language as the user\n== END INSTRUCTION ==\n\n== HISTORIAL CHAT ==\n",
    );
    push_str(&mut out, history);
    push_str(&mut out, "\n== END HISTORIAL CHAT ==\n\n== USER MESSAGE ==\n");
    push_str(&mut out, user_input);
    push_str(&mut out, "\n== END USER MESSAGE ==\n");
    from_chars(out.as_slice())
}

/// The prompt of a single request: the trimmed request between its markers,
/// after the trimmed piped input between its own where there is any.
pub open spec fn request_prompt(piped: Seq<char>, request: Seq<char>) -> Seq<char> {
    if trim(piped).len() == 0 {
        "== USER REQUEST ==\n"@ + trim(request) + "\n== END USER REQUEST =="@
    } else {
        "== STDIN FILE ==\n"@ + trim(piped) + "\n== END STDIN FILE ==\n\n== USER REQUEST ==\n"@
            + trim(request) + "\n== END USER REQUEST =="@
    }
}

/// Builds the prompt of a single request.
pub fn create_request_prompt(piped: &str, request: &str) -> (out: String)
    ensures
        out@ == request_prompt(piped@, request@),
{
    let input = trim_str(piped);
    let asked = trim_str(request);
    let mut out: Vec<char> = Vec::new();
    if input.len() == 0 {
        push_str(&mut out, "== USER REQUEST ==\n");
        push_all(&mut out, asked.as_slice());
        push_str(&mut out, "\n== END USER REQUEST ==");
    } else {
        push_str(&mut out, "== STDIN FILE ==\n");
        push_all(&mut out, input.as_slice());
        push_str(&mut out, "\n== END STDIN FILE ==\n\n== USER REQUEST ==\n");
        push_all(&mut out, asked.as_slice());
        push_str(&mut out, "\n== END USER REQUEST ==");
    }
    from_chars(out.as_slice())
}

/// The prompt of a single message with its preamble: who asks and when, then
/// the trimmed request, and the piped input as it came where there is any.
pub open spec fn message_prompt(
    user: Seq<char>,
    datetime: Seq<char>,
    request: Seq<char>,
    piped: Seq<char>,
) -> Seq<char> {
    let preamble = "LLM name: Netero\nUser name: "@ + user + "\nDate and hour: "@ + datetime;
    if trim(piped).len() == 0 {
        preamble + "\n"@ + "User request:\n"@ + trim(request)
    } else {
        preamble + "\n"@ + "== USER REQUEST ==\n"@ + trim(request)
            + "\n== END USER REQUEST ==\n== STDIN FILE ==\n"@ + piped + "\n== END STDIN FILE =="@
    }
}

/// Builds the prompt of a single message with its preamble.
pub fn create_message_prompt(user: &str, datetime: &str, request: &str, piped: &str) -> (out:
    String)
    ensures
        out@ == message_prompt(user@, datetime@, request@, piped@),
{
    let input = trim_str(piped);
    let asked = trim_str(request);
    let mut out: Vec<char> = Vec::new();
    push_str(&mut out, "LLM name: Netero\nUser name: ");
    push_str(&mut out, user);
    push_str(&mut out, "\nDate and hour: ");
    push_str(&mut out, datetime);
    push_str(&mut out, "\n");
    if input.len() == 0 {
        push_str(&mut out, "User request:\n");
        push_all(&mut out, asked.as_slice());
    } else {
        push_str(&mut out, "== USER REQUEST ==\n");
        push_all(&mut out, asked.as_slice());
        push_str(&mut out, "\n== END USER REQUEST ==\n== STDIN FILE ==\n");
        push_str(&mut out, piped);
        push_str(&mut out, "\n== END STDIN FILE ==");
    }
    from_chars(out.as_slice())
}

/// The language that stands for a source that the user did not name.
pub open spec fn detect_language() -> Seq<char> {
    "auto-detect"@
}

/// The prompt that asks for a translation of `text` from `source`, or from
/// whatever language it is in, into `target`.
pub open spec fn translation_prompt(
    source: Option<Seq<char>>,
    target: Seq<char>,
    target_name: Seq<char>,
    text: Seq<char>,
) -> Seq<char> {
    let from = match source {
        Some(s) => s,
        None => detect_language(),
    };
    "\nTask: Translate the following text faithfully, preserving its meaning and context.\nReturn only the translation. Do not explain or add anything.\nYou must translate. Do not choose any other task or language.\nLANG: "@
        + from + ":"@ + target + ".\nSource language (locked): "@ + from
        + ".\nTarget language (locked): "@ + target + ".\nTarget language name (locked): "@
        + target_name + ".\n\nTEXT:\n"@ + text
}

/// Builds the prompt that asks for a translation.
pub fn create_translation_prompt(
    source: Option<&str>,
    target: &str,
    target_name: &str,
    text: &str,
) -> (out: String)
    ensures
        out@ == translation_prompt(opt_view(source), target@, target_name@, text@),
{
    let from: &str = match source {
        Some(s) => s,
        None => "auto-detect",
    };
    let mut out: Vec<char> = Vec::new();
    push_str(
        &mut out,
        "\nTask: Translate the following text faithfully, preserving its meaning and context.\nReturn only the translation. Do not explain or add anything.\nYou must translate. Do not choose any other task or language.\nLANG: ",
    );
    push_str(&mut out, from);
    push_str(&mut out, ":");
    push_str(&mut out, target);
    push_str(&mut out, ".\nSource language (locked): ");
    push_str(&mut out, from);
    push_str(&mut out, ".\nTarget language (locked): ");
    push_str(&mut out, target);
    push_str(&mut out, ".\nTarget language name (locked): ");
    push_str(&mut out, target_name);
    push_str(&mut out, ".\n\nTEXT:\n");
    push_str(&mut out, text);
    from_chars(out.as_slice())
}

} // verus!
