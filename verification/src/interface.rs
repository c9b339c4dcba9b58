use vstd::prelude::*;

use crate::types::RuneId;

verus! {

/// How far chain observation should page when refreshing a pool: until a
/// plain-value target or a rune-balance target is covered.
pub enum TargetType {
    Bitcoin { target: u64 },
    Runic { runeid: RuneId, target: u128 },
}

/// How a caller names an agent.
pub enum AgentBy {
    Id(u128),
    Name(String),
}

/// What a caller withdraws.
pub enum WithdrawalType {
    Bitcoin { amount: u64 },
    Rune { runeid: AgentBy, amount: u128 },
}

/// The request that creates an agent and etches its rune.
pub struct CreateAgentArgs {
    pub name: String,
    pub ticker: Option<u32>,
    pub logo: Option<String>,
    pub description: String,
    pub website: Option<String>,
    pub twitter: Option<String>,
    pub openchat: Option<String>,
    pub discord: Option<String>,
}

/// A buy order against an agent's curve.
pub struct BuyArgs {
    pub id: AgentBy,
    pub buy_exact_in: u64,
    pub amount_out_min: u128,
}

/// A sell order against an agent's curve.
pub struct SellArgs {
    pub id: AgentBy,
    pub token_amount: u128,
    pub amount_collateral_min: u64,
}

/// A guess at an agent's secret phrase.
pub struct LuckyDraw {
    pub id: AgentBy,
    pub message: String,
}

/// One chat turn with an agent.
pub struct ChatArgs {
    pub agent: AgentBy,
    pub session_id: u128,
    pub message: String,
}

/// Who said what in a chat exchange.
pub enum Role {
    System,
    User,
    Assistant,
}

pub struct ChatMessage {
    pub role: Role,
    pub content: String,
}

/// A request handed to the language-model service.
pub struct LlmRequest {
    pub model: String,
    pub messages: Vec<ChatMessage>,
}

/// The stable-memory regions of the service.
pub enum CanisterMemoryIds {
    Config,
    Agent,
    AssociatedAgentSet,
    ChatSession,
    LedgerEntries,
    Bitcoin,
    Runic,
    Queue,
    Commission,
}

/// The stable-memory regions of a deployed agent.
pub enum MemoryIds {
    Config,
    PrizePool,
    MarketMaker,
}

pub struct HeaderField(pub String, pub String);

pub struct HttpRequest {
    pub method: String,
    pub url: String,
    pub headers: Vec<HeaderField>,
    pub body: Vec<u8>,
}

pub struct CreateStrategyArgs {
    pub asset_id: u128,
    pub chunk_index: u32,
    pub chunk_size: u32,
}

pub struct StreamingCallbackToken {
    pub asset_id: u128,
    pub chunk_index: u32,
    pub chunk_size: u32,
    pub content_encoding: String,
}

/// How a large asset continues to stream (the callback endpoint itself is
/// host plumbing and lives outside the library).
pub enum StreamingStrategy {
    Callback { token: StreamingCallbackToken },
}

pub struct HttpResponse {
    pub status_code: u16,
    pub headers: Vec<HeaderField>,
    pub body: Vec<u8>,
    pub streaming_strategy: Option<StreamingStrategy>,
}

pub struct StreamingCallbackHttpResponse {
    pub body: Vec<u8>,
    pub token: Option<StreamingCallbackToken>,
}

} // verus!
