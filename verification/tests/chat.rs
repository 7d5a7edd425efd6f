use puchi_sekai::chat::{build_chat_messages, stream_step, Chat, ChatRole, StreamItem};

#[test]
fn request_assembled_in_order() {
    let prompts = vec![String::from("first question"), String::from("second question")];
    let responses = vec![String::from("first answer"), String::from("second answer")];
    let msgs = build_chat_messages("be terse", &prompts, &responses, "third question");
    assert_eq!(msgs.len(), 6);
    assert_eq!(msgs[0].role, ChatRole::System);
    assert_eq!(msgs[0].content, "be terse");
    assert_eq!(msgs[1].role, ChatRole::User);
    assert_eq!(msgs[1].content, "first question");
    assert_eq!(msgs[2].role, ChatRole::Assistant);
    assert_eq!(msgs[2].content, "first answer");
    assert_eq!(msgs[3].role, ChatRole::User);
    assert_eq!(msgs[3].content, "second question");
    assert_eq!(msgs[4].role, ChatRole::Assistant);
    assert_eq!(msgs[4].content, "second answer");
    assert_eq!(msgs[5].role, ChatRole::User);
    assert_eq!(msgs[5].content, "<user_input>third question</user_input>");
}

#[test]
fn request_with_no_history() {
    let msgs = build_chat_messages("sys", &Vec::new(), &Vec::new(), "hi");
    assert_eq!(msgs.len(), 2);
    assert_eq!(msgs[0].role, ChatRole::System);
    assert_eq!(msgs[1].content, "<user_input>hi</user_input>");
}

#[test]
fn unanswered_prompts_are_left_out() {
    let prompts = vec![String::from("a"), String::from("b"), String::from("c")];
    let responses = vec![String::from("ra")];
    let msgs = build_chat_messages("sys", &prompts, &responses, "q");
    assert_eq!(msgs.len(), 4);
    assert_eq!(msgs[1].content, "a");
    assert_eq!(msgs[2].content, "ra");
    assert_eq!(msgs[3].content, "<user_input>q</user_input>");
}

#[test]
fn chunk_yields_responses_in_order() {
    let item = StreamItem::Chunk {
        contents: vec![Some(String::from("Hel")), None, Some(String::from("lo"))],
    };
    let (events, goes_on) = stream_step(item);
    assert!(goes_on);
    assert_eq!(events.len(), 2);
    match &events[0] {
        Chat::Response { content } => assert_eq!(content, "Hel"),
        _ => panic!("a delta with text becomes a response"),
    }
    match &events[1] {
        Chat::Response { content } => assert_eq!(content, "lo"),
        _ => panic!("a delta with text becomes a response"),
    }
}

#[test]
fn empty_chunk_yields_nothing() {
    let (events, goes_on) = stream_step(StreamItem::Chunk { contents: Vec::new() });
    assert!(goes_on);
    assert!(events.is_empty());
}

#[test]
fn failure_ends_stream_with_error() {
    let (events, goes_on) = stream_step(StreamItem::Failed { message: String::from("timed out") });
    assert!(!goes_on);
    assert_eq!(events.len(), 1);
    match &events[0] {
        Chat::Error { message } => assert_eq!(message, "timed out"),
        _ => panic!("a failure becomes the error notification"),
    }
}
