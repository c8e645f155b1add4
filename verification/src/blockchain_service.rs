//! The explorer client: which request asks for a wallet's balance, and what
//! the explorer's answer amounts to.
//!
//! The request itself is sent elsewhere. This module says what is sent, and
//! turns what came back into a result: the address is checked before
//! anything else, a transport failure is a `Network` error, a status outside
//! `200..=299` is an `ApiError` with the body as its message, and a body that
//! could not be decoded is a `Json` error.

use crate::address::{
    address_at, detected_address, first_address_index, is_hex_char, lemma_address_detected,
};
use crate::digits::{digits_of_u64, push_natural};
use crate::decimal::natural_text;
use crate::text::chars_of;
use vstd::prelude::*;
use vstd::string::StringExecFns;
use vstd::string::StringSliceAdditionalSpecFns;
use vstd::utf8::{encode_utf8, is_ascii_chars, is_ascii_chars_encode_utf8};

verus! {

/// `serde_json::Value`, a JSON value of any shape. It is carried through as
/// it came; nothing here looks inside.
#[verifier::external_type_specification]
#[verifier::external_body]
pub struct ExJsonValue(serde_json::Value);

/// Why a balance could not be had.
#[derive(Clone, Debug)]
pub enum BlockchainError {
    /// The request did not complete; the text says why.
    Network(String),
    /// The address does not have the form of an address.
    InvalidAddress(String),
    /// The explorer answered with a status that is no success.
    ApiError { status: u16, message: String },
    /// The explorer's answer could not be decoded; the text says why.
    Json(String),
}

/// A `BlockchainError` as plain values.
pub ghost enum BlockchainErrorView {
    Network(Seq<char>),
    InvalidAddress(Seq<char>),
    ApiError { status: nat, message: Seq<char> },
    Json(Seq<char>),
}

impl View for BlockchainError {
    type V = BlockchainErrorView;

    open spec fn view(&self) -> BlockchainErrorView {
        match self {
            BlockchainError::Network(m) => BlockchainErrorView::Network(m@),
            BlockchainError::InvalidAddress(m) => BlockchainErrorView::InvalidAddress(m@),
            BlockchainError::ApiError { status, message } => BlockchainErrorView::ApiError {
                status: *status as nat,
                message: message@,
            },
            BlockchainError::Json(m) => BlockchainErrorView::Json(m@),
        }
    }
}

/// What the explorer reports about an address. `exchange_rate` is the coin's
/// price as decimal text; `metadata` and `token` are JSON of no fixed shape.
#[derive(Clone, Debug)]
pub struct ExplorerResponse {
    pub block_number_balance_updated_at: u64,
    pub coin_balance: String,
    pub creation_transaction_hash: Option<String>,
    pub creator_address_hash: Option<String>,
    pub ens_domain_name: Option<String>,
    pub exchange_rate: Option<String>,
    pub has_beacon_chain_withdrawals: bool,
    pub has_logs: bool,
    pub has_token_transfers: bool,
    pub has_tokens: bool,
    pub has_validated_blocks: bool,
    pub hash: String,
    pub implementations: Vec<String>,
    pub is_contract: bool,
    pub is_scam: bool,
    pub is_verified: bool,
    pub metadata: Option<serde_json::Value>,
    pub name: Option<String>,
    pub private_tags: Vec<String>,
    pub proxy_type: Option<String>,
    pub public_tags: Vec<String>,
    pub token: Option<serde_json::Value>,
    pub watchlist_address_id: Option<String>,
    pub watchlist_names: Vec<String>,
}

/// The request that asks the explorer about an address.
#[derive(Clone, Debug)]
pub struct ExplorerRequest {
    pub url: String,
    pub accept: String,
    pub user_agent: String,
    pub timeout_seconds: u64,
}

/// How the request to the explorer ended.
#[derive(Debug)]
pub enum FetchOutcome {
    /// No answer: the request could not be built or sent, or the answer could
    /// not be read. The text says why.
    Failed(String),
    /// An answer with its status and body. `decoded` is the body read as an
    /// `ExplorerResponse`, or why it could not be; it counts only where the
    /// status is a success.
    Answered { status: u16, body: String, decoded: Result<ExplorerResponse, String> },
}

/// Where the explorer answers for addresses; the address follows.
pub const ADDRESSES_URL: &'static str = "https://explorer.uomi.ai/api/v2/addresses/";

/// The `accept` header of a request to the explorer.
pub const ACCEPT: &'static str = "*/*";

/// The `user-agent` header of a request to the explorer.
pub const USER_AGENT: &'static str = "uomi-agent/1.0";

/// How long a request to the explorer may take, in seconds.
pub const TIMEOUT_SECONDS: u64 = 10;

/// What an `InvalidAddress` error says.
pub const INVALID_ADDRESS: &'static str = "Invalid Ethereum address format";

/// `address` has the form of an address: it starts with `0x` and is 42
/// bytes long. What follows the `0x` is not looked at.
pub open spec fn address_format(address: Seq<char>) -> bool {
    &&& encode_utf8(address).len() == 42
    &&& address.len() >= 2
    &&& address[0] == '0'
    &&& address[1] == 'x'
}

/// `status` is an HTTP success.
pub open spec fn is_success(status: nat) -> bool {
    200 <= status <= 299
}

/// What asking for the balance of `address` comes to, given how the request
/// ended.
pub open spec fn fetch_result(address: Seq<char>, outcome: FetchOutcome) -> Result<
    ExplorerResponse,
    BlockchainErrorView,
> {
    if !address_format(address) {
        Err(BlockchainErrorView::InvalidAddress(INVALID_ADDRESS@))
    } else {
        match outcome {
            FetchOutcome::Failed(why) => Err(BlockchainErrorView::Network(why@)),
            FetchOutcome::Answered { status, body, decoded } => {
                if !is_success(status as nat) {
                    Err(BlockchainErrorView::ApiError { status: status as nat, message: body@ })
                } else {
                    match decoded {
                        Ok(response) => Ok(response),
                        Err(why) => Err(BlockchainErrorView::Json(why@)),
                    }
                }
            },
        }
    }
}

/// What the error says, in one line.
pub open spec fn error_text(e: BlockchainErrorView) -> Seq<char> {
    match e {
        BlockchainErrorView::Network(m) => "Network error: "@ + m,
        BlockchainErrorView::InvalidAddress(m) => "Invalid address format: "@ + m,
        BlockchainErrorView::ApiError { status, message } => "API error: "@ + natural_text(status)
            + ", "@ + message,
        BlockchainErrorView::Json(m) => "JSON parsing error: "@ + m,
    }
}

impl BlockchainError {
    /// What the error says, in one line.
    pub fn message(&self) -> (out: String)
        ensures
            out@ == error_text(self@),
    {
        match self {
            BlockchainError::Network(m) => {
                let mut out = String::from_str("Network error: ");
                out.append(m.as_str());
                out
            },
            BlockchainError::InvalidAddress(m) => {
                let mut out = String::from_str("Invalid address format: ");
                out.append(m.as_str());
                out
            },
            BlockchainError::ApiError { status, message } => {
                let mut out = String::from_str("API error: ");
                let digits = digits_of_u64(*status as u64);
                assert(digits@.subrange(0, digits@.len() as int) =~= digits@);
                push_natural(&mut out, &digits, 0, digits.len());
                out.append(", ");
                out.append(message.as_str());
                out
            },
            BlockchainError::Json(m) => {
                let mut out = String::from_str("JSON parsing error: ");
                out.append(m.as_str());
                out
            },
        }
    }
}

/// Whether `address` has the form of an address.
pub fn has_address_format(address: &str) -> (ok: bool)
    ensures
        ok == address_format(address@),
{
    if address.as_bytes().len() != 42 {
        return false;
    }
    let chars = chars_of(address);
    chars.len() >= 2 && chars[0] == '0' && chars[1] == 'x'
}

/// Whether `status` is an HTTP success.
pub fn success(status: u16) -> (ok: bool)
    ensures
        ok == is_success(status as nat),
{
    200 <= status && status <= 299
}

/// The request that asks the explorer about `address`, or an
/// `InvalidAddress` error where `address` has not the form of one.
pub fn explorer_request(address: &str) -> (out: Result<ExplorerRequest, BlockchainError>)
    ensures
        out is Ok <==> address_format(address@),
        out matches Ok(request) ==> {
            &&& request.url@ == ADDRESSES_URL@ + address@
            &&& request.accept@ == ACCEPT@
            &&& request.user_agent@ == USER_AGENT@
            &&& request.timeout_seconds == TIMEOUT_SECONDS
        },
        out matches Err(e) ==> e@ == BlockchainErrorView::InvalidAddress(INVALID_ADDRESS@),
{
    if !has_address_format(address) {
        return Err(BlockchainError::InvalidAddress(String::from_str(INVALID_ADDRESS)));
    }
    let mut url = String::from_str(ADDRESSES_URL);
    url.append(address);
    Ok(
        ExplorerRequest {
            url,
            accept: String::from_str(ACCEPT),
            user_agent: String::from_str(USER_AGENT),
            timeout_seconds: TIMEOUT_SECONDS,
        },
    )
}

/// The balance of `address`, given how the request for it ended.
///
/// The address is judged first: one that has not the form of an address is
/// an `InvalidAddress` error whatever `outcome` says.
pub fn get_wallet_balance(address: &str, outcome: FetchOutcome) -> (out: Result<
    ExplorerResponse,
    BlockchainError,
>)
    ensures
        match out {
            Ok(response) => fetch_result(address@, outcome) == Ok::<
                ExplorerResponse,
                BlockchainErrorView,
            >(response),
            Err(e) => fetch_result(address@, outcome) == Err::<
                ExplorerResponse,
                BlockchainErrorView,
            >(e@),
        },
{
    if !has_address_format(address) {
        return Err(BlockchainError::InvalidAddress(String::from_str(INVALID_ADDRESS)));
    }
    match outcome {
        FetchOutcome::Failed(why) => Err(BlockchainError::Network(why)),
        FetchOutcome::Answered { status, body, decoded } => {
            if !success(status) {
                Err(BlockchainError::ApiError { status, message: body })
            } else {
                match decoded {
                    Ok(response) => Ok(response),
                    Err(why) => Err(BlockchainError::Json(why)),
                }
            }
        },
    }
}

/// An address that the detector found has the form that the explorer client
/// asks for.
pub proof fn lemma_detected_has_format(text: Seq<char>)
    requires
        detected_address(text) is Some,
    ensures
        address_format(detected_address(text)->0),
{
    let i = choose|i: int| address_at(text, i);
    lemma_address_detected(text, i);
    let at = first_address_index(text);
    let a = text.subrange(at, at + 42);
    assert forall|k: int| 0 <= k < a.len() implies '\0' <= #[trigger] a[k] <= '\u{7f}' by {
        assert(a[k] == text[at + k]);
        if k >= 2 {
            assert(is_hex_char(text[at + k]));
        }
    }
    assert(is_ascii_chars(a));
    is_ascii_chars_encode_utf8(a);
}

} // verus!
