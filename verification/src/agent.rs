//! The agent, one step at a time.
//!
//! An invocation is a short exchange with the host. The host hands over the
//! conversation; the agent asks for one piece of outside work at a time (a
//! call to the blockchain proxy or to the model) and is handed its outcome,
//! until it names the response. `run` is one step of that exchange: from the
//! state and what the host reports to the next state and what the host is to
//! do. `step` is the same as mathematics, and the laws at the end of the
//! file are proved of it.

use crate::address::{detected_address, extract_wallet_address};
use crate::json::{
    envelope, envelope_text, is_json, parses, proxy_request, proxy_request_text, APOLOGY_STATS,
    REPLY_STATS, REPORT_STATS,
};
use crate::message::{
    last_user_content, last_user_text, process_messages, prompt_body, prompt_messages,
    prompt_text, system_message, system_message_view, Message, MessageView, MODEL_ID,
    SYSTEM_PROMPT,
};
use crate::report::{
    balance_report, closing_lines, holdings_view, native_line, report_lines, report_text,
    summary_lines, token_lines, TokenInfo, TokenView, WalletBalance, WalletBalanceView,
};
use crate::text::{encode, from_utf8_lossy, lossy_text, trim, trimmed};
use vstd::prelude::*;
use vstd::string::StringExecFns;
use vstd::utf8::encode_utf8;

verus! {

/// How the response is handed back: as the text itself, or as the text in a
/// JSON envelope with generation statistics.
#[derive(Clone, Copy, Debug)]
pub enum ResponseFormat {
    Plain,
    Enveloped,
}

/// How the first call to the explorer ended.
#[derive(Clone, Debug)]
pub enum BalanceReply {
    /// The call failed, or the explorer refused it.
    Unavailable,
    /// The call succeeded, but what came back could not be decoded.
    Unreadable,
    /// The balance.
    Parsed(WalletBalance),
}

/// What the host reports to the agent.
#[derive(Clone, Debug)]
pub enum HostEvent {
    /// The conversation to answer, oldest message first.
    Conversation(Vec<Message>),
    /// The outcome of the balance request.
    Balance(BalanceReply),
    /// The outcome of the token request: the tokens, or `None` where the call
    /// failed or what came back could not be decoded.
    Tokens(Option<Vec<TokenInfo>>),
    /// The bytes that the model answered with.
    ModelReply(Vec<u8>),
}

/// What the agent asks of the host.
#[derive(Clone, Debug)]
pub enum HostAction {
    /// Send this request to the blockchain proxy and report the outcome.
    QueryExplorer(String),
    /// Send this request to this model and report the reply.
    QueryModel { model: i32, request: Vec<u8> },
    /// Hand these bytes back as the response. Nothing follows.
    Respond(Vec<u8>),
}

/// Where the agent stands in an invocation.
#[derive(Clone, Debug)]
pub enum AgentState {
    /// Nothing has happened yet.
    Ready,
    /// The balance request is out.
    AwaitingBalance,
    /// The token request is out; this is the balance it is for.
    AwaitingTokens(WalletBalance),
    /// The model has been asked.
    AwaitingModel,
    /// The response has been named.
    Finished,
}

/// A `BalanceReply` as plain values.
pub ghost enum BalanceReplyView {
    Unavailable,
    Unreadable,
    Parsed(WalletBalanceView),
}

/// A `HostEvent` as plain values.
pub ghost enum HostEventView {
    Conversation(Seq<MessageView>),
    Balance(BalanceReplyView),
    Tokens(Option<Seq<TokenView>>),
    ModelReply(Seq<u8>),
}

/// A `HostAction` as plain values.
pub ghost enum HostActionView {
    QueryExplorer(Seq<char>),
    QueryModel { model: int, request: Seq<u8> },
    Respond(Seq<u8>),
}

/// An `AgentState` as plain values.
pub ghost enum AgentStateView {
    Ready,
    AwaitingBalance,
    AwaitingTokens(WalletBalanceView),
    AwaitingModel,
    Finished,
}

impl View for BalanceReply {
    type V = BalanceReplyView;

    open spec fn view(&self) -> BalanceReplyView {
        match self {
            BalanceReply::Unavailable => BalanceReplyView::Unavailable,
            BalanceReply::Unreadable => BalanceReplyView::Unreadable,
            BalanceReply::Parsed(balance) => BalanceReplyView::Parsed(balance@),
        }
    }
}

impl View for HostEvent {
    type V = HostEventView;

    open spec fn view(&self) -> HostEventView {
        match self {
            HostEvent::Conversation(messages) => HostEventView::Conversation(messages.deep_view()),
            HostEvent::Balance(reply) => HostEventView::Balance(reply@),
            HostEvent::Tokens(tokens) => HostEventView::Tokens(holdings_view(*tokens)),
            HostEvent::ModelReply(bytes) => HostEventView::ModelReply(bytes@),
        }
    }
}

impl View for HostAction {
    type V = HostActionView;

    open spec fn view(&self) -> HostActionView {
        match self {
            HostAction::QueryExplorer(request) => HostActionView::QueryExplorer(request@),
            HostAction::QueryModel { model, request } => HostActionView::QueryModel {
                model: *model as int,
                request: request@,
            },
            HostAction::Respond(bytes) => HostActionView::Respond(bytes@),
        }
    }
}

impl View for AgentState {
    type V = AgentStateView;

    open spec fn view(&self) -> AgentStateView {
        match self {
            AgentState::Ready => AgentStateView::Ready,
            AgentState::AwaitingBalance => AgentStateView::AwaitingBalance,
            AgentState::AwaitingTokens(balance) => AgentStateView::AwaitingTokens(balance@),
            AgentState::AwaitingModel => AgentStateView::AwaitingModel,
            AgentState::Finished => AgentStateView::Finished,
        }
    }
}

/// What the user is told when the balance could not be fetched.
pub const FETCH_APOLOGY: &'static str =
    "Sorry, I couldn't fetch your balance at the moment. Please try again later.";

/// What the user is told when the balance could not be decoded.
pub const PARSE_APOLOGY: &'static str =
    "Sorry, I couldn't parse the balance data. Please try again later.";

/// The proxy action that asks for a wallet's native balance.
pub const GET_BALANCE: &'static str = "get_balance";

/// The proxy action that asks for a wallet's tokens.
pub const GET_TOKENS: &'static str = "get_tokens";

/// The bytes of a response that says `text`: the text itself, or the text in
/// its envelope with the members `stats`.
pub open spec fn response_bytes(format: ResponseFormat, text: Seq<char>, stats: Seq<char>) -> Seq<
    u8,
> {
    match format {
        ResponseFormat::Plain => encode_utf8(text),
        ResponseFormat::Enveloped => encode_utf8(envelope_text(text, stats)),
    }
}

/// The messages that the model receives for the conversation `messages`.
pub open spec fn model_messages(messages: Seq<MessageView>) -> Seq<MessageView> {
    prompt_messages(system_message_view(SYSTEM_PROMPT@), messages)
}

/// The bytes that answer with the model's reply. A reply that reads as JSON
/// goes out as it came, byte for byte. One that does not is trimmed and put
/// in the envelope, unless the format is plain, where every reply goes out
/// as it came.
pub open spec fn relayed_reply(format: ResponseFormat, reply: Seq<u8>) -> Seq<u8> {
    match format {
        ResponseFormat::Plain => reply,
        ResponseFormat::Enveloped => if is_json(lossy_text(reply)) {
            reply
        } else {
            encode_utf8(envelope_text(trimmed(lossy_text(reply)), REPLY_STATS@))
        },
    }
}

/// The first step: a conversation whose latest user message holds a wallet
/// address asks the proxy for that wallet's balance; any other goes to the
/// model, behind the system message.
pub open spec fn first_step(messages: Seq<MessageView>) -> (AgentStateView, HostActionView) {
    match detected_address(last_user_text(messages)) {
        Some(address) => (
            AgentStateView::AwaitingBalance,
            HostActionView::QueryExplorer(proxy_request_text(GET_BALANCE@, address)),
        ),
        None => (
            AgentStateView::AwaitingModel,
            HostActionView::QueryModel {
                model: MODEL_ID as int,
                request: encode_utf8(prompt_text(model_messages(messages))),
            },
        ),
    }
}

/// The step after the balance request: an apology where it failed, the token
/// request for the hash that the explorer named where it succeeded.
pub open spec fn balance_step(format: ResponseFormat, reply: BalanceReplyView) -> (
    AgentStateView,
    HostActionView,
) {
    match reply {
        BalanceReplyView::Unavailable => (
            AgentStateView::Finished,
            HostActionView::Respond(response_bytes(format, FETCH_APOLOGY@, APOLOGY_STATS@)),
        ),
        BalanceReplyView::Unreadable => (
            AgentStateView::Finished,
            HostActionView::Respond(response_bytes(format, PARSE_APOLOGY@, APOLOGY_STATS@)),
        ),
        BalanceReplyView::Parsed(balance) => (
            AgentStateView::AwaitingTokens(balance),
            HostActionView::QueryExplorer(proxy_request_text(GET_TOKENS@, balance.hash)),
        ),
    }
}

/// The step after the token request: the report, with or without tokens.
pub open spec fn tokens_step(
    format: ResponseFormat,
    balance: WalletBalanceView,
    tokens: Option<Seq<TokenView>>,
) -> (AgentStateView, HostActionView) {
    (
        AgentStateView::Finished,
        HostActionView::Respond(
            response_bytes(format, report_text(balance, tokens), REPORT_STATS@),
        ),
    )
}

/// The step after the model's reply.
pub open spec fn model_step(format: ResponseFormat, reply: Seq<u8>) -> (
    AgentStateView,
    HostActionView,
) {
    (AgentStateView::Finished, HostActionView::Respond(relayed_reply(format, reply)))
}

/// One step of the agent: the next state and what the host is to do, or
/// `None` where the event is not the one that the state waits for.
pub open spec fn step(
    format: ResponseFormat,
    state: AgentStateView,
    event: HostEventView,
) -> Option<(AgentStateView, HostActionView)> {
    match (state, event) {
        (AgentStateView::Ready, HostEventView::Conversation(messages)) => Some(
            first_step(messages),
        ),
        (AgentStateView::AwaitingBalance, HostEventView::Balance(reply)) => Some(
            balance_step(format, reply),
        ),
        (AgentStateView::AwaitingTokens(balance), HostEventView::Tokens(tokens)) => Some(
            tokens_step(format, balance, tokens),
        ),
        (AgentStateView::AwaitingModel, HostEventView::ModelReply(reply)) => Some(
            model_step(format, reply),
        ),
        _ => None,
    }
}

/// How many steps a state is from the end at most.
pub open spec fn steps_left(state: AgentStateView) -> nat {
    match state {
        AgentStateView::Ready => 3,
        AgentStateView::AwaitingBalance => 2,
        AgentStateView::AwaitingTokens(_) => 1,
        AgentStateView::AwaitingModel => 1,
        AgentStateView::Finished => 0,
    }
}

/// The bytes of a response that says `text`.
pub fn respond(format: ResponseFormat, text: &str, stats: &str) -> (out: Vec<u8>)
    ensures
        out@ == response_bytes(format, text@, stats@),
{
    match format {
        ResponseFormat::Plain => encode(text),
        ResponseFormat::Enveloped => {
            let wrapped = envelope(text, stats);
            encode(wrapped.as_str())
        },
    }
}

/// The bytes of a request body.
pub fn prepare_request(body: &str) -> (out: Vec<u8>)
    ensures
        out@ == encode_utf8(body@),
{
    encode(body)
}

/// The first step of an invocation.
pub fn begin(messages: Vec<Message>) -> (next: (AgentState, HostAction))
    ensures
        (next.0@, next.1@) == first_step(messages.deep_view()),
{
    let latest = last_user_content(&messages);
    match extract_wallet_address(latest.as_str()) {
        Some(address) => {
            let request = proxy_request(GET_BALANCE, address.as_str());
            (AgentState::AwaitingBalance, HostAction::QueryExplorer(request))
        },
        None => {
            let system = system_message(String::from_str(SYSTEM_PROMPT));
            let prompt = process_messages(system, messages);
            let body = prompt_body(&prompt);
            let request = prepare_request(body.as_str());
            (AgentState::AwaitingModel, HostAction::QueryModel { model: MODEL_ID, request })
        },
    }
}

/// The step that follows the balance request.
pub fn on_balance(format: ResponseFormat, reply: BalanceReply) -> (next: (AgentState, HostAction))
    ensures
        (next.0@, next.1@) == balance_step(format, reply@),
{
    match reply {
        BalanceReply::Unavailable => (
            AgentState::Finished,
            HostAction::Respond(respond(format, FETCH_APOLOGY, APOLOGY_STATS)),
        ),
        BalanceReply::Unreadable => (
            AgentState::Finished,
            HostAction::Respond(respond(format, PARSE_APOLOGY, APOLOGY_STATS)),
        ),
        BalanceReply::Parsed(balance) => {
            let request = proxy_request(GET_TOKENS, balance.hash.as_str());
            (AgentState::AwaitingTokens(balance), HostAction::QueryExplorer(request))
        },
    }
}

/// The step that follows the token request.
pub fn on_tokens(
    format: ResponseFormat,
    balance: &WalletBalance,
    tokens: &Option<Vec<TokenInfo>>,
) -> (next: (AgentState, HostAction))
    ensures
        (next.0@, next.1@) == tokens_step(format, balance@, holdings_view(*tokens)),
{
    let report = balance_report(balance, tokens);
    (AgentState::Finished, HostAction::Respond(respond(format, report.as_str(), REPORT_STATS)))
}

/// The bytes that answer with the model's reply.
pub fn relay_reply(format: ResponseFormat, reply: Vec<u8>) -> (out: Vec<u8>)
    ensures
        out@ == relayed_reply(format, reply@),
{
    match format {
        ResponseFormat::Plain => reply,
        ResponseFormat::Enveloped => {
            let text = from_utf8_lossy(&reply);
            if parses(text.as_str()) {
                reply
            } else {
                let said = trim(text.as_str());
                let wrapped = envelope(said.as_str(), REPLY_STATS);
                encode(wrapped.as_str())
            }
        },
    }
}

/// The step that follows the model's reply.
pub fn on_model(format: ResponseFormat, reply: Vec<u8>) -> (next: (AgentState, HostAction))
    ensures
        (next.0@, next.1@) == model_step(format, reply@),
{
    (AgentState::Finished, HostAction::Respond(relay_reply(format, reply)))
}

/// One step of the agent.
///
/// Takes the state the agent is in and what the host reports, and gives the
/// state it is in next and what the host is to do. An event that the state
/// does not wait for gives `None`, and the host has made a mistake.
pub fn run(format: ResponseFormat, state: AgentState, event: HostEvent) -> (next: Option<
    (AgentState, HostAction),
>)
    ensures
        match next {
            Some((after, action)) => step(format, state@, event@) == Some((after@, action@)),
            None => step(format, state@, event@) is None,
        },
{
    match (state, event) {
        (AgentState::Ready, HostEvent::Conversation(messages)) => Some(begin(messages)),
        (AgentState::AwaitingBalance, HostEvent::Balance(reply)) => Some(
            on_balance(format, reply),
        ),
        (AgentState::AwaitingTokens(balance), HostEvent::Tokens(tokens)) => Some(
            on_tokens(format, &balance, &tokens),
        ),
        (AgentState::AwaitingModel, HostEvent::ModelReply(reply)) => Some(
            on_model(format, reply),
        ),
        _ => None,
    }
}

/// An invocation ends with exactly one response. Every step that is taken
/// brings the agent closer to the end; the response is named in the step that
/// reaches the end and in no other; and after the end no step is taken.
pub proof fn lemma_one_response(format: ResponseFormat, state: AgentStateView, event: HostEventView)
    ensures
        step(format, state, event) matches Some((after, action)) ==> steps_left(after)
            < steps_left(state) && (action is Respond <==> after is Finished),
        state is Finished ==> step(format, state, event) is None,
{
}

/// A conversation without a wallet address in its latest user message goes to
/// the model, and what the model receives is the system message followed by
/// the conversation: every message in its place, none changed.
pub proof fn lemma_prompt_order(format: ResponseFormat, messages: Seq<MessageView>)
    requires
        detected_address(last_user_text(messages)) is None,
    ensures
        step(format, AgentStateView::Ready, HostEventView::Conversation(messages)) == Some(
            (
                AgentStateView::AwaitingModel,
                HostActionView::QueryModel {
                    model: 1,
                    request: encode_utf8(prompt_text(model_messages(messages))),
                },
            ),
        ),
        model_messages(messages).len() == messages.len() + 1,
        model_messages(messages)[0] == system_message_view(SYSTEM_PROMPT@),
        forall|i: int|
            0 <= i < messages.len() ==> #[trigger] model_messages(messages)[i + 1] == messages[i],
{
}

/// When the balance request fails, the response is the apology for a balance
/// that could not be fetched, and the invocation is over: no token request is
/// made, so nothing that it could bring changes the response.
pub proof fn lemma_fetch_failure(format: ResponseFormat, later: HostEventView)
    ensures
        step(
            format,
            AgentStateView::AwaitingBalance,
            HostEventView::Balance(BalanceReplyView::Unavailable),
        ) == Some(
            (
                AgentStateView::Finished,
                HostActionView::Respond(response_bytes(format, FETCH_APOLOGY@, APOLOGY_STATS@)),
            ),
        ),
        step(format, AgentStateView::Finished, later) is None,
{
}

/// When the balance request succeeds but its answer cannot be decoded, the
/// response is the apology for a balance that could not be parsed, and the
/// invocation is over.
pub proof fn lemma_parse_failure(format: ResponseFormat, later: HostEventView)
    ensures
        step(
            format,
            AgentStateView::AwaitingBalance,
            HostEventView::Balance(BalanceReplyView::Unreadable),
        ) == Some(
            (
                AgentStateView::Finished,
                HostActionView::Respond(response_bytes(format, PARSE_APOLOGY@, APOLOGY_STATS@)),
            ),
        ),
        step(format, AgentStateView::Finished, later) is None,
{
}

/// When the token request fails, the report is still the response. It opens
/// as it always does, with the native balance as its second line, closes as
/// it always does, and has nothing of the token section in between.
pub proof fn lemma_report_without_tokens(format: ResponseFormat, balance: WalletBalanceView)
    ensures
        step(format, AgentStateView::AwaitingTokens(balance), HostEventView::Tokens(None)) == Some(
            (
                AgentStateView::Finished,
                HostActionView::Respond(
                    response_bytes(format, report_text(balance, None), REPORT_STATS@),
                ),
            ),
        ),
        report_lines(balance, None) == summary_lines(balance) + closing_lines(balance),
        report_lines(balance, None)[1] == native_line(balance.coin_balance),
        forall|tokens: Seq<TokenView>|
            report_lines(balance, Some(tokens)) == summary_lines(balance) + #[trigger] token_lines(
                tokens,
            ) + closing_lines(balance),
{
}

/// A reply of the model that reads as JSON is the response, byte for byte. A
/// reply that does not is put in the envelope once: the response is the
/// envelope of the trimmed reply. Where the format is plain, every reply is
/// the response as it came.
pub proof fn lemma_reply_round_trip(format: ResponseFormat, reply: Seq<u8>)
    ensures
        step(format, AgentStateView::AwaitingModel, HostEventView::ModelReply(reply)) == Some(
            (AgentStateView::Finished, HostActionView::Respond(relayed_reply(format, reply))),
        ),
        format is Plain || is_json(lossy_text(reply)) ==> relayed_reply(format, reply) == reply,
        format is Enveloped && !is_json(lossy_text(reply)) ==> relayed_reply(format, reply)
            == encode_utf8(envelope_text(trimmed(lossy_text(reply)), REPLY_STATS@)),
{
}

} // verus!
