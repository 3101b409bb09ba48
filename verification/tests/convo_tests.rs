use assist::llm_convo::LLMConvo;
use assist::llm_convo::LLMConvoMethods;
use assist::llm_convo::oai_convo::OAIConvo3_0_0;
use assist::markdown::compile_mono_doc;

#[test]
fn new_conversation_is_empty() {
    let convo = LLMConvo::new();
    assert!(convo.messages.is_empty());
}

#[test]
fn clear_messages_empties_the_transcript() {
    let mut convo = OAIConvo3_0_0::new("key".to_string(), "gpt-4o".to_string());
    convo.add_user_message("hello".to_string());
    convo.llm_convo.clear_messages();
    assert!(convo.llm_convo.messages.is_empty());
}

#[test]
fn added_messages_keep_role_content_and_order() {
    let mut convo = OAIConvo3_0_0::new("key".to_string(), "gpt-4o".to_string());
    convo.add_system_message("System initialized.".to_string());
    convo.add_user_message("hello".to_string());
    convo.add_assistant_message("hi".to_string());
    assert_eq!(convo.llm_convo.messages.len(), 3);
    assert_eq!(convo.llm_convo.messages[0].role.as_str(), "system");
    assert_eq!(convo.llm_convo.messages[0].content.as_str(), "System initialized.");
    assert_eq!(convo.llm_convo.messages[1].role.as_str(), "user");
    assert_eq!(convo.llm_convo.messages[1].content.as_str(), "hello");
    assert_eq!(convo.llm_convo.messages[2].role.as_str(), "assistant");
    assert_eq!(convo.llm_convo.messages[2].content.as_str(), "hi");
}

#[test]
fn formatted_messages_strip_the_timestamp() {
    let mut convo = OAIConvo3_0_0::new("key".to_string(), "gpt-4o".to_string());
    convo.add_user_message("hello".to_string());
    let formatted = convo.formatted_messages();
    assert_eq!(formatted.len(), 1);
    assert_eq!(formatted[0].role.as_str(), "user");
    assert_eq!(formatted[0].content.as_str(), "hello");
}

#[test]
fn accessors_return_what_new_was_given() {
    let convo = OAIConvo3_0_0::new("secret".to_string(), "gpt-4o".to_string());
    assert_eq!(convo.api_key().as_str(), "secret");
    assert_eq!(convo.model().as_str(), "gpt-4o");
}

#[test]
fn request_body_is_canonical() {
    let mut convo = OAIConvo3_0_0::new("key".to_string(), "gpt-4o".to_string());
    convo.add_user_message("hi".to_string());
    let body = convo.request_body_json(2048);
    let expected = "{\"frequency_penalty\":0,\"max_tokens\":2048,\"messages\":[{\"content\":\"hi\",\"role\":\"user\"}],\"model\":\"gpt-4o\",\"presence_penalty\":0,\"temperature\":1,\"top_p\":1}";
    assert_eq!(body.as_str(), expected);
}

#[test]
fn request_body_with_empty_transcript() {
    let convo = OAIConvo3_0_0::new("key".to_string(), "m".to_string());
    let body = convo.request_body_json(0);
    let expected = "{\"frequency_penalty\":0,\"max_tokens\":0,\"messages\":[],\"model\":\"m\",\"presence_penalty\":0,\"temperature\":1,\"top_p\":1}";
    assert_eq!(body.as_str(), expected);
}

#[test]
fn record_response_appends_when_asked() {
    let mut convo = OAIConvo3_0_0::new("key".to_string(), "m".to_string());
    convo.record_response("answer".to_string(), true);
    assert_eq!(convo.llm_convo.messages.len(), 1);
    assert_eq!(convo.llm_convo.messages[0].role.as_str(), "assistant");
    assert_eq!(convo.llm_convo.messages[0].content.as_str(), "answer");
}

#[test]
fn record_response_leaves_transcript_alone_otherwise() {
    let mut convo = OAIConvo3_0_0::new("key".to_string(), "m".to_string());
    convo.record_response("answer".to_string(), false);
    assert!(convo.llm_convo.messages.is_empty());
}

#[test]
fn current_date_time_reads_the_clock() {
    let convo = LLMConvo::new();
    let dt = convo.current_date_time();
    assert_eq!(dt.len(), 19);
    assert_eq!(&dt[4..5], "-");
    assert_eq!(&dt[13..14], ":");
}

#[test]
fn mono_doc_concatenates_with_blank_lines() {
    let contents = vec!["first".to_string(), "second".to_string()];
    assert_eq!(compile_mono_doc(&contents).as_str(), "first\n\nsecond\n\n");
}

#[test]
fn mono_doc_of_nothing_is_empty() {
    assert_eq!(compile_mono_doc(&Vec::new()).as_str(), "");
}
