use vstd::prelude::*;
use vstd::string::*;
use crate::db::Message;
use crate::text::{strip_char, trim_char, trim_of, trim_whitespace};

verus! {

/// A chat message as the front end shows it.
#[derive(Debug)]
pub struct FrontendMessage {
    pub role: String,
    pub content: String,
}

/// A chat session as listed to the front end.
#[derive(Debug)]
pub struct ChatSession {
    pub id: String,
    pub title: String,
}

impl View for FrontendMessage {
    type V = (Seq<char>, Seq<char>);

    open spec fn view(&self) -> (Seq<char>, Seq<char>) {
        (self.role@, self.content@)
    }
}

/// The front-end messages of one stored exchange: the user's message, then the
/// assistant's response when there is one.
pub open spec fn exchange_view(message: Seq<char>, response: Seq<char>) -> Seq<(Seq<char>, Seq<char>)> {
    if response.len() == 0 {
        seq![("user"@, message)]
    } else {
        seq![("user"@, message), ("assistant"@, response)]
    }
}

/// The front-end messages of a stored history, exchange by exchange.
pub open spec fn history_view(h: Seq<Message>) -> Seq<(Seq<char>, Seq<char>)>
    decreases h.len(),
{
    if h.len() == 0 {
        Seq::empty()
    } else {
        history_view(h.drop_last()) + exchange_view(h.last().message@, h.last().response@)
    }
}

/// The views of a sequence of front-end messages.
pub open spec fn views(v: Seq<FrontendMessage>) -> Seq<(Seq<char>, Seq<char>)> {
    v.map_values(|m: FrontendMessage| m@)
}

/// Turns a stored history into the messages the front end shows.
pub fn frontend_history(history: Vec<Message>) -> (r: Vec<FrontendMessage>)
    ensures
        views(r@) == history_view(history@),
{
    let mut out: Vec<FrontendMessage> = Vec::new();
    let mut i: usize = 0;
    while i < history.len()
        invariant
            i <= history@.len(),
            views(out@) == history_view(history@.subrange(0, i as int)),
        decreases history@.len() - i,
    {
        let m = &history[i];
        let ghost before = out@;
        out.push(FrontendMessage { role: String::from_str("user"), content: m.message.clone() });
        if !m.response.as_str().is_empty() {
            out.push(
                FrontendMessage { role: String::from_str("assistant"), content: m.response.clone() },
            );
        }
        proof {
            let h = history@.subrange(0, i + 1);
            assert(h.drop_last() =~= history@.subrange(0, i as int));
            assert(h.last() == history@[i as int]);
            assert(views(out@) =~= views(before) + exchange_view(m.message@, m.response@));
        }
        i = i + 1;
    }
    assert(history@.subrange(0, history@.len() as int) =~= history@);
    out
}

/// Turns (id, title) rows into session listings, in the same order.
pub fn chat_sessions(rows: Vec<(String, String)>) -> (r: Vec<ChatSession>)
    ensures
        r@.len() == rows@.len(),
        forall|i: int|
            0 <= i < rows@.len() ==> (#[trigger] r@[i]).id@ == rows@[i].0@ && r@[i].title@
                == rows@[i].1@,
{
    let mut out: Vec<ChatSession> = Vec::new();
    let mut i: usize = 0;
    while i < rows.len()
        invariant
            i <= rows@.len(),
            out@.len() == i,
            forall|k: int|
                0 <= k < i ==> (#[trigger] out@[k]).id@ == rows@[k].0@ && out@[k].title@
                    == rows@[k].1@,
        decreases rows@.len() - i,
    {
        out.push(ChatSession { id: rows[i].0.clone(), title: rows[i].1.clone() });
        i = i + 1;
    }
    out
}

/// The messages that give a title its context: at most the first three.
pub open spec fn context_messages(ms: Seq<(Seq<char>, Seq<char>)>) -> Seq<(Seq<char>, Seq<char>)> {
    if ms.len() <= 3 {
        ms
    } else {
        ms.subrange(0, 3)
    }
}

/// Lines `role: content`, joined by newlines.
pub open spec fn context_lines(ms: Seq<(Seq<char>, Seq<char>)>) -> Seq<char>
    decreases ms.len(),
{
    if ms.len() == 0 {
        Seq::empty()
    } else if ms.len() == 1 {
        ms[0].0 + ": "@ + ms[0].1
    } else {
        context_lines(ms.drop_last()) + "\n"@ + ms.last().0 + ": "@ + ms.last().1
    }
}

/// The conversation context for a title: the first three messages as lines
/// `role: content`, joined by newlines.
pub fn title_context(messages: &Vec<FrontendMessage>) -> (r: String)
    ensures
        r@ == context_lines(context_messages(views(messages@))),
{
    let n: usize = if messages.len() < 3 { messages.len() } else { 3 };
    let ghost ms = context_messages(views(messages@));
    let mut out = String::new();
    let mut i: usize = 0;
    while i < n
        invariant
            n <= messages@.len(),
            n == ms.len(),
            ms == context_messages(views(messages@)),
            forall|k: int| 0 <= k < n ==> ms[k] == messages@[k]@,
            i <= n,
            out@ == context_lines(ms.subrange(0, i as int)),
        decreases n - i,
    {
        let ghost prev = out@;
        if i > 0 {
            out.append("\n");
        }
        out.append(messages[i].role.as_str());
        out.append(": ");
        out.append(messages[i].content.as_str());
        proof {
            let sub = ms.subrange(0, i + 1);
            assert(sub.drop_last() =~= ms.subrange(0, i as int));
            assert(sub.last() == messages@[i as int]@);
            if i == 0 {
                assert(out@ =~= sub[0].0 + ": "@ + sub[0].1);
            } else {
                assert(out@ =~= prev + "\n"@ + sub.last().0 + ": "@ + sub.last().1);
            }
        }
        i = i + 1;
    }
    assert(ms.subrange(0, n as int) =~= ms);
    out
}

/// The instruction that asks the model for a title.
pub open spec fn title_prompt_text(context: Seq<char>) -> Seq<char> {
    "Based on this conversation, generate a concise and descriptive title (max 6 words):\n\n"@
        + context
}

/// The prompt that asks the model for a title of the given context.
pub fn title_prompt(context: &str) -> (r: String)
    ensures
        r@ == title_prompt_text(context@),
{
    let mut p = String::from_str(
        "Based on this conversation, generate a concise and descriptive title (max 6 words):\n\n",
    );
    p.append(context);
    p
}

/// A title made from trimmed model output: quotes and dots at either end
/// removed, and cut to 47 characters and `...` when longer than 50.
pub open spec fn tidy_title_text(trimmed: Seq<char>) -> Seq<char> {
    let t = strip_char(strip_char(trimmed, '"'), '.');
    if t.len() > 50 {
        t.subrange(0, 47) + "..."@
    } else {
        t
    }
}

/// Finishes a title from model output that was already trimmed of whitespace.
pub fn tidy_title(trimmed: &str) -> (r: String)
    ensures
        r@ == tidy_title_text(trimmed@),
{
    let unquoted = trim_char(trimmed, '"');
    let t = trim_char(unquoted.as_str(), '.');
    if t.unicode_len() > 50 {
        let mut cut = String::from_str(t.as_str().substring_char(0, 47));
        cut.append("...");
        cut
    } else {
        t
    }
}

/// The title made of a model's raw response.
pub fn clean_title(response: &str) -> (r: String)
    ensures
        r@ == tidy_title_text(trim_of(response@)),
{
    let trimmed = trim_whitespace(response);
    tidy_title(trimmed.as_str())
}

} // verus!
