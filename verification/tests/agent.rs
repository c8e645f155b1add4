use uomi_agent::address::extract_wallet_address;
use uomi_agent::agent::{
    begin, on_balance, on_model, on_tokens, prepare_request, relay_reply, respond, run,
    AgentState, BalanceReply, HostAction, HostEvent, ResponseFormat, FETCH_APOLOGY,
    PARSE_APOLOGY,
};
use uomi_agent::blockchain_service::has_address_format;
use uomi_agent::json::{APOLOGY_STATS, REPORT_STATS};
use uomi_agent::message::{
    last_user_content, process_messages, prompt_body, system_message, Message, MODEL_ID,
    SYSTEM_PROMPT,
};
use uomi_agent::report::{TokenInfo, WalletBalance};

const ADDRESS: &str = "0x52908400098527886E0F7030069857D2E4169EE7";

fn msg(role: &str, content: &str) -> Message {
    Message { role: role.to_string(), content: content.to_string() }
}

fn pairs(messages: &[Message]) -> Vec<(String, String)> {
    messages.iter().map(|m| (m.role.clone(), m.content.clone())).collect()
}

fn sample_wallet() -> WalletBalance {
    WalletBalance {
        block_number_balance_updated_at: 12345,
        coin_balance: "1500000000000000000".to_string(),
        hash: ADDRESS.to_string(),
        is_contract: false,
        exchange_rate: Some("2.5".to_string()),
    }
}

fn uomi_token() -> TokenInfo {
    TokenInfo {
        balance: "1000000".to_string(),
        contract_address: "0xde709f2102306220921060314715629080e2fb77".to_string(),
        decimals: 6,
        name: "Uomi".to_string(),
        symbol: "UOMI".to_string(),
        type_token: "ERC-20".to_string(),
    }
}

fn response_of(step: Option<(AgentState, HostAction)>) -> Vec<u8> {
    match step {
        Some((AgentState::Finished, HostAction::Respond(bytes))) => bytes,
        other => panic!("no response: {:?}", other),
    }
}

fn response_text(step: Option<(AgentState, HostAction)>) -> String {
    String::from_utf8(response_of(step)).unwrap()
}

fn enveloped_text(bytes: &[u8]) -> (String, f64, f64, u64) {
    let value: serde_json::Value = serde_json::from_slice(bytes).unwrap();
    assert_eq!(value.as_object().unwrap().len(), 4);
    (
        value["response"].as_str().unwrap().to_string(),
        value["time_taken"].as_f64().unwrap(),
        value["tokens_per_second"].as_f64().unwrap(),
        value["total_tokens_generated"].as_u64().unwrap(),
    )
}

#[test]
fn the_latest_user_message_is_the_one_that_counts() {
    let messages = vec![
        msg("user", "first"),
        msg("assistant", "reply"),
        msg("user", "second"),
        msg("assistant", "last word"),
    ];
    assert_eq!(last_user_content(&messages), "second");
}

#[test]
fn no_user_message_is_empty_text() {
    assert_eq!(last_user_content(&Vec::new()), "");
    assert_eq!(last_user_content(&vec![msg("system", "x"), msg("User", "y")]), "");
}

#[test]
fn the_system_message_goes_first_and_the_rest_is_unchanged() {
    let original = vec![
        msg("user", "hi"),
        msg("assistant", "hello"),
        msg("tool", "odd role"),
        msg("user", ""),
    ];
    let out = process_messages(system_message("persona".to_string()), original.clone());
    assert_eq!(out.len(), original.len() + 1);
    assert_eq!((out[0].role.as_str(), out[0].content.as_str()), ("system", "persona"));
    assert_eq!(pairs(&out[1..]), pairs(&original));
}

#[test]
fn the_prompt_body_is_what_serde_would_write() {
    let messages = vec![msg("system", "be \"kind\""), msg("user", "hi\nthere")];
    let body = prompt_body(&messages);
    assert_eq!(
        body,
        "{\"messages\": [{\"role\":\"system\",\"content\":\"be \\\"kind\\\"\"},{\"role\":\"user\",\"content\":\"hi\\nthere\"}]}"
    );
    assert_eq!(prompt_body(&Vec::new()), "{\"messages\": []}");
    let value: serde_json::Value = serde_json::from_str(&body).unwrap();
    let list = value["messages"].as_array().unwrap();
    assert_eq!(list.len(), 2);
    assert_eq!(list[1]["content"].as_str(), Some("hi\nthere"));
}

#[test]
fn a_conversation_without_an_address_goes_to_the_model() {
    let original = vec![msg("user", "hi"), msg("assistant", "hello"), msg("user", "how are you?")];
    let step = run(ResponseFormat::Enveloped, AgentState::Ready, HostEvent::Conversation(original.clone()));
    match step {
        Some((AgentState::AwaitingModel, HostAction::QueryModel { model, request })) => {
            assert_eq!(model, 1);
            assert_eq!(model, MODEL_ID);
            let value: serde_json::Value = serde_json::from_slice(&request).unwrap();
            let list = value["messages"].as_array().unwrap();
            assert_eq!(list.len(), original.len() + 1);
            assert_eq!(list[0]["role"].as_str(), Some("system"));
            assert_eq!(list[0]["content"].as_str(), Some(SYSTEM_PROMPT));
            for (i, m) in original.iter().enumerate() {
                assert_eq!(list[i + 1]["role"].as_str(), Some(m.role.as_str()));
                assert_eq!(list[i + 1]["content"].as_str(), Some(m.content.as_str()));
                assert_eq!(list[i + 1].as_object().unwrap().len(), 2);
            }
        },
        other => panic!("{:?}", other),
    }
}

#[test]
fn an_address_in_the_latest_user_message_asks_for_its_balance() {
    let messages = vec![msg("user", &format!("balance of {}?", ADDRESS))];
    let step = run(ResponseFormat::Plain, AgentState::Ready, HostEvent::Conversation(messages));
    match step {
        Some((AgentState::AwaitingBalance, HostAction::QueryExplorer(request))) => {
            assert_eq!(
                request,
                format!("{{\"action\":\"get_balance\",\"address\":\"{}\"}}", ADDRESS)
            );
        },
        other => panic!("{:?}", other),
    }
}

#[test]
fn an_address_in_an_earlier_message_does_not_count() {
    let messages = vec![
        msg("user", &format!("balance of {}?", ADDRESS)),
        msg("assistant", &format!("{} holds nothing", ADDRESS)),
        msg("user", "thanks"),
    ];
    let (state, action) = begin(messages);
    assert!(matches!(state, AgentState::AwaitingModel));
    assert!(matches!(action, HostAction::QueryModel { .. }));
}

#[test]
fn a_failed_balance_request_gives_the_fetch_apology() {
    let plain = run(
        ResponseFormat::Plain,
        AgentState::AwaitingBalance,
        HostEvent::Balance(BalanceReply::Unavailable),
    );
    assert_eq!(
        response_text(plain),
        "Sorry, I couldn't fetch your balance at the moment. Please try again later."
    );
    let wrapped = run(
        ResponseFormat::Enveloped,
        AgentState::AwaitingBalance,
        HostEvent::Balance(BalanceReply::Unavailable),
    );
    let bytes = response_of(wrapped);
    assert_eq!(
        String::from_utf8(bytes.clone()).unwrap(),
        "{\"response\":\"Sorry, I couldn't fetch your balance at the moment. Please try again later.\",\"time_taken\":0.1,\"tokens_per_second\":10.0,\"total_tokens_generated\":20}"
    );
    assert_eq!(enveloped_text(&bytes), (FETCH_APOLOGY.to_string(), 0.1, 10.0, 20));
}

#[test]
fn an_unreadable_balance_gives_the_parse_apology() {
    let plain = run(
        ResponseFormat::Plain,
        AgentState::AwaitingBalance,
        HostEvent::Balance(BalanceReply::Unreadable),
    );
    assert_eq!(
        response_text(plain),
        "Sorry, I couldn't parse the balance data. Please try again later."
    );
    let (state, action) = on_balance(ResponseFormat::Enveloped, BalanceReply::Unreadable);
    assert!(matches!(state, AgentState::Finished));
    match action {
        HostAction::Respond(bytes) => {
            assert_eq!(enveloped_text(&bytes), (PARSE_APOLOGY.to_string(), 0.1, 10.0, 20));
            assert_eq!(bytes, respond(ResponseFormat::Enveloped, PARSE_APOLOGY, APOLOGY_STATS));
        },
        other => panic!("{:?}", other),
    }
}

#[test]
fn a_balance_asks_for_the_tokens_of_the_hash_it_names() {
    let mut wallet = sample_wallet();
    wallet.hash = "0xde709f2102306220921060314715629080e2fb77".to_string();
    let step = run(
        ResponseFormat::Enveloped,
        AgentState::AwaitingBalance,
        HostEvent::Balance(BalanceReply::Parsed(wallet)),
    );
    match step {
        Some((AgentState::AwaitingTokens(kept), HostAction::QueryExplorer(request))) => {
            assert_eq!(kept.hash, "0xde709f2102306220921060314715629080e2fb77");
            assert_eq!(kept.coin_balance, "1500000000000000000");
            assert_eq!(
                request,
                "{\"action\":\"get_tokens\",\"address\":\"0xde709f2102306220921060314715629080e2fb77\"}"
            );
        },
        other => panic!("{:?}", other),
    }
}

#[test]
fn a_failed_token_request_still_gives_the_report() {
    let step = run(
        ResponseFormat::Plain,
        AgentState::AwaitingTokens(sample_wallet()),
        HostEvent::Tokens(None),
    );
    let text = response_text(step);
    assert_eq!(
        text,
        format!(
            "Wallet Balance for {}:\n\nNative Balance: 1.500000 UOMI\n($3.75 USD)\n\nLast updated at block: 12345",
            ADDRESS
        )
    );
    assert!(!text.contains("Token"));
}

#[test]
fn the_report_with_tokens_in_its_envelope() {
    let step = run(
        ResponseFormat::Enveloped,
        AgentState::AwaitingTokens(sample_wallet()),
        HostEvent::Tokens(Some(vec![uomi_token()])),
    );
    let bytes = response_of(step);
    let (text, time_taken, per_second, total) = enveloped_text(&bytes);
    assert_eq!(
        text,
        format!(
            "Wallet Balance for {}:\n\nNative Balance: 1.500000 UOMI\n($3.75 USD)\n\nToken Balances:\n\u{1F539} UOMI: 1.00 tokens\n\nLast updated at block: 12345",
            ADDRESS
        )
    );
    assert!(!text.contains("No UOMI tokens found"));
    assert_eq!((time_taken, per_second, total), (0.5, 50.0, 100));
    assert_eq!(bytes, respond(ResponseFormat::Enveloped, &text, REPORT_STATS));
    let value: serde_json::Value = serde_json::from_slice(&bytes).unwrap();
    assert_eq!(serde_json::to_vec(&value).unwrap(), bytes);
}

#[test]
fn on_tokens_finishes() {
    let (state, action) = on_tokens(ResponseFormat::Plain, &sample_wallet(), &Some(Vec::new()));
    assert!(matches!(state, AgentState::Finished));
    match action {
        HostAction::Respond(bytes) => {
            let text = String::from_utf8(bytes).unwrap();
            assert!(text.contains("\n\nToken Balances:\n\nNote: No UOMI tokens found in this wallet\n"));
        },
        other => panic!("{:?}", other),
    }
}

#[test]
fn a_json_reply_passes_through_unchanged() {
    let replies: [&[u8]; 5] = [
        b"{\"response\": \"hi\",   \"b\": 1, \"a\": 2}",
        b"  [1, 2,\n 3]  ",
        b"\"just a string\"",
        b"42",
        b"{\"response\":\"x\",\"time_taken\":0.3,\"tokens_per_second\":30.0,\"total_tokens_generated\":50}",
    ];
    for reply in replies {
        let step = run(
            ResponseFormat::Enveloped,
            AgentState::AwaitingModel,
            HostEvent::ModelReply(reply.to_vec()),
        );
        assert_eq!(response_of(step), reply.to_vec());
    }
}

#[test]
fn a_plain_reply_is_trimmed_and_wrapped_once() {
    let step = run(
        ResponseFormat::Enveloped,
        AgentState::AwaitingModel,
        HostEvent::ModelReply(b"  Hello, \"world\"!\n".to_vec()),
    );
    let bytes = response_of(step);
    assert_eq!(
        String::from_utf8(bytes.clone()).unwrap(),
        "{\"response\":\"Hello, \\\"world\\\"!\",\"time_taken\":0.3,\"tokens_per_second\":30.0,\"total_tokens_generated\":50}"
    );
    assert_eq!(enveloped_text(&bytes), ("Hello, \"world\"!".to_string(), 0.3, 30.0, 50));
    let again = relay_reply(ResponseFormat::Enveloped, bytes.clone());
    assert_eq!(again, bytes);
}

#[test]
fn a_reply_that_is_not_utf8_is_wrapped_with_replacement_characters() {
    let out = relay_reply(ResponseFormat::Enveloped, vec![0x68, 0x69, 0xff, 0x20]);
    assert_eq!(enveloped_text(&out).0, "hi\u{fffd}");
}

#[test]
fn an_empty_reply_is_wrapped_as_empty_text() {
    let out = relay_reply(ResponseFormat::Enveloped, Vec::new());
    assert_eq!(enveloped_text(&out), (String::new(), 0.3, 30.0, 50));
}

#[test]
fn the_plain_format_relays_every_reply_as_it_came() {
    for reply in [b"  Hello \n".to_vec(), b"{\"a\":1}".to_vec(), vec![0xff, 0xfe], Vec::new()] {
        let (state, action) = on_model(ResponseFormat::Plain, reply.clone());
        assert!(matches!(state, AgentState::Finished));
        match action {
            HostAction::Respond(bytes) => assert_eq!(bytes, reply),
            other => panic!("{:?}", other),
        }
    }
}

#[test]
fn an_event_that_the_state_does_not_wait_for_gives_none() {
    let events = || {
        vec![
            HostEvent::Conversation(Vec::new()),
            HostEvent::Balance(BalanceReply::Unavailable),
            HostEvent::Tokens(None),
            HostEvent::ModelReply(Vec::new()),
        ]
    };
    let states = || {
        vec![
            AgentState::Ready,
            AgentState::AwaitingBalance,
            AgentState::AwaitingTokens(sample_wallet()),
            AgentState::AwaitingModel,
            AgentState::Finished,
        ]
    };
    for (s, state) in states().into_iter().enumerate() {
        for (e, event) in events().into_iter().enumerate() {
            let step = run(ResponseFormat::Plain, state.clone(), event);
            assert_eq!(step.is_some(), s < 4 && s == e, "state {} event {}", s, e);
        }
    }
}

#[test]
fn a_whole_balance_invocation_ends_with_one_response() {
    let format = ResponseFormat::Plain;
    let mut state = AgentState::Ready;
    let mut events = vec![
        HostEvent::Tokens(Some(vec![uomi_token()])),
        HostEvent::Balance(BalanceReply::Parsed(sample_wallet())),
        HostEvent::Conversation(vec![msg("user", ADDRESS)]),
    ];
    let mut responses = 0;
    let mut steps = 0;
    while let Some(event) = events.pop() {
        let (next, action) = run(format, state, event).unwrap();
        steps += 1;
        if let HostAction::Respond(_) = action {
            responses += 1;
            assert!(matches!(next, AgentState::Finished));
        } else {
            assert!(!matches!(next, AgentState::Finished));
        }
        state = next;
    }
    assert_eq!((steps, responses), (3, 1));
    assert!(run(format, state, HostEvent::ModelReply(Vec::new())).is_none());
}

#[test]
fn what_the_detector_finds_the_explorer_client_accepts() {
    let found = extract_wallet_address(&format!("\u{1F539} {} \u{1F539}", ADDRESS)).unwrap();
    assert!(has_address_format(&found));
}

#[test]
fn prepare_request_gives_the_bytes_of_the_body() {
    assert_eq!(prepare_request("{\"a\":\"\u{e9}\"}"), "{\"a\":\"\u{e9}\"}".as_bytes().to_vec());
}

#[test]
fn respond_plain_is_the_text_itself() {
    assert_eq!(respond(ResponseFormat::Plain, "hi", REPORT_STATS), b"hi".to_vec());
}
