//! What the chat hand-off computes.
//!
//! The chat-completion service itself is an external collaborator: it takes a
//! prompt and the prior turns, and streams back text fragments until a
//! finished or error notification. The two computations around that exchange
//! are here: assembling the request's message list from the conversation so
//! far, and folding each streamed item into the notifications the UI layer
//! relays.
use vstd::prelude::*;

verus! {

/// A notification relayed to the UI layer while a chat completion streams.
#[derive(Clone)]
pub enum Chat {
    /// The stream has opened.
    Started {},
    /// One text fragment arrived.
    Response { content: String },
    /// The stream ended normally.
    Finished {},
    /// The stream ended in a failure.
    Error { message: String },
}

/// The mathematical model of a `Chat` notification.
pub enum ChatModel {
    Started,
    Response { content: Seq<char> },
    Finished,
    Error { message: Seq<char> },
}

impl View for Chat {
    type V = ChatModel;

    open spec fn view(&self) -> ChatModel {
        match self {
            Chat::Started {} => ChatModel::Started,
            Chat::Response { content } => ChatModel::Response { content: content@ },
            Chat::Finished {} => ChatModel::Finished,
            Chat::Error { message } => ChatModel::Error { message: message@ },
        }
    }
}

/// Who speaks a message of the request.
#[derive(Clone, Copy, PartialEq, Eq, Structural, Debug)]
pub enum ChatRole {
    System,
    User,
    Assistant,
}

/// One message of the chat-completion request.
#[derive(Clone)]
pub struct ChatMessage {
    pub role: ChatRole,
    pub content: String,
}

/// The mathematical model of a request message.
pub struct MessageModel {
    pub role: ChatRole,
    pub content: Seq<char>,
}

impl View for ChatMessage {
    type V = MessageModel;

    open spec fn view(&self) -> MessageModel {
        MessageModel { role: self.role, content: self.content@ }
    }
}

/// The user's prompt as it is sent: wrapped in delimiters that mark it as
/// verbatim user input.
pub open spec fn wrapped_prompt(prompt: Seq<char>) -> Seq<char> {
    "<user_input>"@ + prompt + "</user_input>"@
}

/// The prior turns as request messages: each prompt answered so far, as a
/// user message followed by the assistant's response. Turns are paired off in
/// order; a prompt with no recorded response (or the reverse) is left out.
pub open spec fn spec_turns(prompts: Seq<Seq<char>>, responses: Seq<Seq<char>>) -> Seq<
    MessageModel,
>
    decreases prompts.len(),
{
    if prompts.len() == 0 || responses.len() == 0 {
        Seq::empty()
    } else {
        seq![
            MessageModel { role: ChatRole::User, content: prompts[0] },
            MessageModel { role: ChatRole::Assistant, content: responses[0] },
        ] + spec_turns(prompts.skip(1), responses.skip(1))
    }
}

/// The whole request: the system prompt, the prior turns in order, then the
/// wrapped new prompt.
pub open spec fn spec_messages(
    system: Seq<char>,
    prompts: Seq<Seq<char>>,
    responses: Seq<Seq<char>>,
    prompt: Seq<char>,
) -> Seq<MessageModel> {
    seq![MessageModel { role: ChatRole::System, content: system }] + spec_turns(
        prompts,
        responses,
    ) + seq![MessageModel { role: ChatRole::User, content: wrapped_prompt(prompt) }]
}

/// Pairing off distributes over concatenation of equally many turns.
proof fn lemma_turns_concat(
    p1: Seq<Seq<char>>,
    r1: Seq<Seq<char>>,
    p2: Seq<Seq<char>>,
    r2: Seq<Seq<char>>,
)
    requires
        p1.len() == r1.len(),
    ensures
        spec_turns(p1 + p2, r1 + r2) == spec_turns(p1, r1) + spec_turns(p2, r2),
    decreases p1.len(),
{
    if p1.len() == 0 {
        assert(p1 + p2 =~= p2);
        assert(r1 + r2 =~= r2);
        assert(spec_turns(p1, r1) + spec_turns(p2, r2) =~= spec_turns(p2, r2));
    } else {
        assert((p1 + p2)[0] == p1[0]);
        assert((r1 + r2)[0] == r1[0]);
        assert((p1 + p2).skip(1) =~= p1.skip(1) + p2);
        assert((r1 + r2).skip(1) =~= r1.skip(1) + r2);
        lemma_turns_concat(p1.skip(1), r1.skip(1), p2, r2);
        let head = seq![
            MessageModel { role: ChatRole::User, content: p1[0] },
            MessageModel { role: ChatRole::Assistant, content: r1[0] },
        ];
        assert(head + (spec_turns(p1.skip(1), r1.skip(1)) + spec_turns(p2, r2)) =~= (head
            + spec_turns(p1.skip(1), r1.skip(1))) + spec_turns(p2, r2));
        assert(spec_turns(p1, r1) == head + spec_turns(p1.skip(1), r1.skip(1)));
    }
}

/// The views of a vector of strings.
pub open spec fn texts_of(v: Seq<String>) -> Seq<Seq<char>> {
    v.map_values(|s: String| s@)
}

/// Assembles the chat-completion request from the conversation so far: the
/// system prompt first, then each answered prior turn in order, then the new
/// prompt wrapped in user-input delimiters.
pub fn build_chat_messages(
    system_prompt: &str,
    previous_prompts: &Vec<String>,
    previous_responses: &Vec<String>,
    prompt: &str,
) -> (r: Vec<ChatMessage>)
    ensures
        r@.map_values(|m: ChatMessage| m@) == spec_messages(
            system_prompt@,
            texts_of(previous_prompts@),
            texts_of(previous_responses@),
            prompt@,
        ),
{
    let ghost ps = texts_of(previous_prompts@);
    let ghost rs = texts_of(previous_responses@);
    let mut out: Vec<ChatMessage> = Vec::new();
    out.push(ChatMessage { role: ChatRole::System, content: String::from_str(system_prompt) });
    proof {
        assert(out@.map_values(|m: ChatMessage| m@) =~= seq![
            MessageModel { role: ChatRole::System, content: system_prompt@ },
        ] + spec_turns(ps.take(0), rs.take(0)));
    }
    let n = if previous_prompts.len() < previous_responses.len() {
        previous_prompts.len()
    } else {
        previous_responses.len()
    };
    let mut i: usize = 0;
    while i < n
        invariant
            i <= n,
            n <= previous_prompts.len(),
            n <= previous_responses.len(),
            ps == texts_of(previous_prompts@),
            rs == texts_of(previous_responses@),
            out@.map_values(|m: ChatMessage| m@) == seq![
                MessageModel { role: ChatRole::System, content: system_prompt@ },
            ] + spec_turns(ps.take(i as int), rs.take(i as int)),
        decreases n - i,
    {
        let ghost before = out@;
        out.push(
            ChatMessage { role: ChatRole::User, content: previous_prompts[i].clone() },
        );
        out.push(
            ChatMessage { role: ChatRole::Assistant, content: previous_responses[i].clone() },
        );
        proof {
            let pair = seq![
                MessageModel { role: ChatRole::User, content: ps[i as int] },
                MessageModel { role: ChatRole::Assistant, content: rs[i as int] },
            ];
            assert(ps.take(i + 1) =~= ps.take(i as int) + seq![ps[i as int]]);
            assert(rs.take(i + 1) =~= rs.take(i as int) + seq![rs[i as int]]);
            lemma_turns_concat(
                ps.take(i as int),
                rs.take(i as int),
                seq![ps[i as int]],
                seq![rs[i as int]],
            );
            assert(seq![ps[i as int]].skip(1) =~= Seq::<Seq<char>>::empty());
            assert(spec_turns(seq![ps[i as int]].skip(1), seq![rs[i as int]].skip(1)) == Seq::<
                MessageModel,
            >::empty());
            assert(spec_turns(seq![ps[i as int]], seq![rs[i as int]]) =~= pair);
            assert(out@.map_values(|m: ChatMessage| m@) =~= before.map_values(
                |m: ChatMessage| m@,
            ) + pair);
            assert(out@.map_values(|m: ChatMessage| m@) =~= seq![
                MessageModel { role: ChatRole::System, content: system_prompt@ },
            ] + spec_turns(ps.take(i + 1), rs.take(i + 1)));
        }
        i += 1;
    }
    let mut wrapped = String::from_str("<user_input>");
    wrapped.append(prompt);
    wrapped.append("</user_input>");
    let ghost before_last = out@;
    out.push(ChatMessage { role: ChatRole::User, content: wrapped });
    proof {
        lemma_turns_take_enough(ps, rs, n as int);
        assert(out@.map_values(|m: ChatMessage| m@) =~= before_last.map_values(
            |m: ChatMessage| m@,
        ) + seq![MessageModel { role: ChatRole::User, content: wrapped_prompt(prompt@) }]);
        assert(out@.map_values(|m: ChatMessage| m@) =~= spec_messages(
            system_prompt@,
            ps,
            rs,
            prompt@,
        ));
    }
    out
}

/// Cutting both lists at the shorter one's length changes no pairing: turns
/// past that length are never formed.
proof fn lemma_turns_take_enough(prompts: Seq<Seq<char>>, responses: Seq<Seq<char>>, n: int)
    requires
        n == if prompts.len() < responses.len() {
            prompts.len() as int
        } else {
            responses.len() as int
        },
    ensures
        spec_turns(prompts.take(n), responses.take(n)) == spec_turns(prompts, responses),
    decreases n,
{
    if n == 0 {
        assert(prompts.len() == 0 || responses.len() == 0);
    } else {
        assert(prompts.take(n)[0] == prompts[0]);
        assert(responses.take(n)[0] == responses[0]);
        assert(prompts.take(n).skip(1) =~= prompts.skip(1).take(n - 1));
        assert(responses.take(n).skip(1) =~= responses.skip(1).take(n - 1));
        lemma_turns_take_enough(prompts.skip(1), responses.skip(1), n - 1);
    }
}

/// One streamed chunk's fragments: the deltas that carried text, in order.
pub open spec fn chunk_events(contents: Seq<Option<Seq<char>>>) -> Seq<ChatModel>
    decreases contents.len(),
{
    if contents.len() == 0 {
        Seq::empty()
    } else {
        (match contents[0] {
            Some(c) => seq![ChatModel::Response { content: c }],
            None => Seq::<ChatModel>::empty(),
        }) + chunk_events(contents.skip(1))
    }
}

/// The views of a vector of optional strings.
pub open spec fn fragments_of(v: Seq<Option<String>>) -> Seq<Option<Seq<char>>> {
    v.map_values(
        |o: Option<String>|
            match o {
                Some(s) => Some(s@),
                None => None,
            },
    )
}

/// One item of the completion stream, as the transport hands it over: a chunk
/// whose choices each carry an optional text delta, or the stream's failure.
pub enum StreamItem {
    Chunk { contents: Vec<Option<String>> },
    Failed { message: String },
}

/// What one streamed item asks the UI layer to relay, and whether the stream
/// goes on: a chunk yields one response notification per delta that carried
/// text; a failure yields the error notification and ends the stream.
pub open spec fn spec_stream_step(item: StreamItem) -> (Seq<ChatModel>, bool) {
    match item {
        StreamItem::Chunk { contents } => (chunk_events(fragments_of(contents@)), true),
        StreamItem::Failed { message } => (seq![ChatModel::Error { message: message@ }], false),
    }
}

/// Folds one streamed item into the notifications to relay, in order, and
/// says whether the stream goes on.
pub fn stream_step(item: StreamItem) -> (r: (Vec<Chat>, bool))
    ensures
        r.0@.map_values(|c: Chat| c@) == spec_stream_step(item).0,
        r.1 == spec_stream_step(item).1,
{
    match item {
        StreamItem::Failed { message } => {
            let mut out: Vec<Chat> = Vec::new();
            let ghost m = message@;
            out.push(Chat::Error { message });
            proof {
                assert(out@.map_values(|c: Chat| c@) =~= seq![ChatModel::Error { message: m }]);
            }
            (out, false)
        },
        StreamItem::Chunk { contents } => {
            let ghost fs = fragments_of(contents@);
            let mut out: Vec<Chat> = Vec::new();
            proof {
                assert(out@.map_values(|c: Chat| c@) =~= chunk_events(fs.take(0)));
            }
            let mut i: usize = 0;
            let n = contents.len();
            while i < n
                invariant
                    i <= n,
                    n == contents.len(),
                    fs == fragments_of(contents@),
                    out@.map_values(|c: Chat| c@) == chunk_events(fs.take(i as int)),
                decreases n - i,
            {
                let ghost before = out@;
                match &contents[i] {
                    Some(content) => {
                        out.push(Chat::Response { content: content.clone() });
                    },
                    None => {},
                }
                proof {
                    lemma_chunk_events_take_one_more(fs, i as int);
                    assert(out@.map_values(|c: Chat| c@) =~= chunk_events(fs.take(i + 1)));
                }
                i += 1;
            }
            proof {
                assert(fs.take(n as int) =~= fs);
            }
            (out, true)
        },
    }
}

/// One fragment more extends the chunk's notifications by at most one
/// response.
proof fn lemma_chunk_events_take_one_more(contents: Seq<Option<Seq<char>>>, i: int)
    requires
        0 <= i < contents.len(),
    ensures
        chunk_events(contents.take(i + 1)) == chunk_events(contents.take(i)) + (match contents[i] {
            Some(c) => seq![ChatModel::Response { content: c }],
            None => Seq::<ChatModel>::empty(),
        }),
    decreases i,
{
    if i == 0 {
        assert(contents.take(1)[0] == contents[0]);
        assert(contents.take(1).skip(1) =~= Seq::<Option<Seq<char>>>::empty());
        assert(contents.take(0) =~= Seq::<Option<Seq<char>>>::empty());
        assert(chunk_events(contents.take(1).skip(1)) == Seq::<ChatModel>::empty());
        assert(chunk_events(contents.take(0)) == Seq::<ChatModel>::empty());
        assert(chunk_events(contents.take(1)) =~= (match contents[0] {
            Some(c) => seq![ChatModel::Response { content: c }],
            None => Seq::<ChatModel>::empty(),
        }));
    } else {
        assert(contents.take(i + 1)[0] == contents[0]);
        assert(contents.take(i)[0] == contents[0]);
        assert(contents.take(i + 1).skip(1) =~= contents.skip(1).take(i));
        assert(contents.take(i).skip(1) =~= contents.skip(1).take(i - 1));
        lemma_chunk_events_take_one_more(contents.skip(1), i - 1);
        let head = (match contents[0] {
            Some(c) => seq![ChatModel::Response { content: c }],
            None => Seq::<ChatModel>::empty(),
        });
        let tail_old = chunk_events(contents.skip(1).take(i - 1));
        let last = (match contents[i] {
            Some(c) => seq![ChatModel::Response { content: c }],
            None => Seq::<ChatModel>::empty(),
        });
        assert(contents.skip(1)[i - 1] == contents[i]);
        assert(head + (tail_old + last) =~= (head + tail_old) + last);
    }
}

} // verus!
