//! Error types of the quoting pipeline and their messages.

use vstd::prelude::*;

verus! {

/// Errors raised while the order book and the exchange streams run.
#[derive(Debug)]
pub enum ErrorHotPath {
    ExchangeWSError(String),
    ExchangeWSReconnectError(String),
    Serialization(String),
    QuoterGRPCError(String),
    QuoteServerSinkError(String),
    ExchangeStreamSnapshot(String),
    ReceivedNonTextMessageFromExchange,
    OrderBook(String),
    OrderBookNegativeLiquidity,
    OrderBookMaxTraversedReached,
    OrderBookDealSendFail,
}

/// The message that describes an `ErrorHotPath`.
pub open spec fn hot_path_message(e: ErrorHotPath) -> Seq<char> {
    match e {
        ErrorHotPath::ExchangeWSError(s) => "Exchange WS Error: "@ + s@,
        ErrorHotPath::ExchangeWSReconnectError(s) => "Exchange WS Reconnect Error: "@ + s@,
        ErrorHotPath::QuoterGRPCError(s) => "Quoter GRPC Error: "@ + s@,
        ErrorHotPath::QuoteServerSinkError(s) => "Quote Server Sink Error: "@ + s@,
        ErrorHotPath::Serialization(s) => "Serialization error: "@ + s@,
        ErrorHotPath::ReceivedNonTextMessageFromExchange => "ReceivedNonTextMessage"@,
        ErrorHotPath::OrderBook(s) => "OrderBookError: "@ + s@,
        ErrorHotPath::ExchangeStreamSnapshot(s) => "HTTPSnapshot error: "@ + s@,
        ErrorHotPath::OrderBookNegativeLiquidity => "NegativeQuantity"@,
        ErrorHotPath::OrderBookMaxTraversedReached => "MaxTraversedReached"@,
        ErrorHotPath::OrderBookDealSendFail => "DealSendFail"@,
    }
}

fn prefixed(prefix: &str, detail: &String) -> (r: String)
    ensures
        r@ == prefix@ + detail@,
{
    String::from_str(prefix).concat(detail.as_str())
}

impl ErrorHotPath {
    /// The human-readable message of this error.
    pub fn message(&self) -> (r: String)
        ensures
            r@ == hot_path_message(*self),
    {
        match self {
            ErrorHotPath::ExchangeWSError(s) => prefixed("Exchange WS Error: ", s),
            ErrorHotPath::ExchangeWSReconnectError(s) => prefixed(
                "Exchange WS Reconnect Error: ",
                s,
            ),
            ErrorHotPath::QuoterGRPCError(s) => prefixed("Quoter GRPC Error: ", s),
            ErrorHotPath::QuoteServerSinkError(s) => prefixed("Quote Server Sink Error: ", s),
            ErrorHotPath::Serialization(s) => prefixed("Serialization error: ", s),
            ErrorHotPath::ReceivedNonTextMessageFromExchange => String::from_str(
                "ReceivedNonTextMessage",
            ),
            ErrorHotPath::OrderBook(s) => prefixed("OrderBookError: ", s),
            ErrorHotPath::ExchangeStreamSnapshot(s) => prefixed("HTTPSnapshot error: ", s),
            ErrorHotPath::OrderBookNegativeLiquidity => String::from_str("NegativeQuantity"),
            ErrorHotPath::OrderBookMaxTraversedReached => String::from_str("MaxTraversedReached"),
            ErrorHotPath::OrderBookDealSendFail => String::from_str("DealSendFail"),
        }
    }
}

/// Errors of the price-level book.
#[derive(Debug)]
pub enum OrderBookError {
    NoLevel,
    NegativeLiquidity,
    MaxTraversedReached,
}

impl OrderBookError {
    /// The human-readable message of this error.
    pub fn message(&self) -> (r: String)
        ensures
            r@ == (match *self {
                OrderBookError::NoLevel => "OrderBook no Level found"@,
                OrderBookError::NegativeLiquidity => "Negative liquidity detected"@,
                OrderBookError::MaxTraversedReached => "Maximum traversal limit reached"@,
            }),
    {
        match self {
            OrderBookError::NoLevel => String::from_str("OrderBook no Level found"),
            OrderBookError::NegativeLiquidity => String::from_str("Negative liquidity detected"),
            OrderBookError::MaxTraversedReached => String::from_str(
                "Maximum traversal limit reached",
            ),
        }
    }
}

/// Errors raised while the exchanges are set up.
#[derive(Debug)]
pub enum ErrorInitialState {
    /// The websocket failed; its error, as text.
    ExchangeWSError(String),
    MessageSerialization(String),
    WSConnection(String),
    Snapshot(String),
    ExchangeController,
}

/// The message that describes an `ErrorInitialState`.
pub open spec fn initial_state_message(e: ErrorInitialState) -> Seq<char> {
    match e {
        ErrorInitialState::ExchangeWSError(s) => "Exchange WS Error: "@ + s@,
        ErrorInitialState::MessageSerialization(s) => "Message Serialization Error: "@ + s@,
        ErrorInitialState::WSConnection(s) => "WS Connection Error: "@ + s@,
        ErrorInitialState::ExchangeController => "Exchange Controller Error"@,
        ErrorInitialState::Snapshot(s) => "Exchange Snapshot error: "@ + s@,
    }
}

impl ErrorInitialState {
    /// The human-readable message of this error.
    pub fn message(&self) -> (r: String)
        ensures
            r@ == initial_state_message(*self),
    {
        match self {
            ErrorInitialState::ExchangeWSError(s) => prefixed("Exchange WS Error: ", s),
            ErrorInitialState::MessageSerialization(s) => prefixed(
                "Message Serialization Error: ",
                s,
            ),
            ErrorInitialState::WSConnection(s) => prefixed("WS Connection Error: ", s),
            ErrorInitialState::ExchangeController => String::from_str("Exchange Controller Error"),
            ErrorInitialState::Snapshot(s) => prefixed("Exchange Snapshot error: ", s),
        }
    }

    /// The set-up error that the stream error `err` becomes: connection,
    /// snapshot and parse errors keep their text; any other error becomes a
    /// connection error that carries its message.
    pub fn from(err: ExchangeStreamError) -> (r: Self)
        ensures
            initial_state_of(err, r),
    {
        match err {
            ExchangeStreamError::ExchangeController => ErrorInitialState::ExchangeController,
            ExchangeStreamError::WSConnection(msg) => ErrorInitialState::WSConnection(msg),
            ExchangeStreamError::Snapshot(msg) => ErrorInitialState::Snapshot(msg),
            ExchangeStreamError::ExchangeNoSnapshot(msg) => ErrorInitialState::Snapshot(msg),
            ExchangeStreamError::ExchangeStreamSnapshot(msg) => ErrorInitialState::Snapshot(msg),
            ExchangeStreamError::Deserialization(msg) => ErrorInitialState::MessageSerialization(
                msg,
            ),
            other => ErrorInitialState::WSConnection(other.message()),
        }
    }
}

/// Errors of an exchange stream.
#[derive(Debug)]
pub enum ExchangeStreamError {
    ExchangeNoSnapshot(String),
    ExchangeWSError(String),
    ExchangeWSReconnectError(String),
    ExchangeStreamSnapshot(String),
    ReceivedNonTextMessageFromExchange,
    WSConnection(String),
    Snapshot(String),
    ExchangeController,
    /// An HTTP request failed; its error, as text.
    HttpRequest(String),
    /// A snapshot did not parse; the parser's error, as text.
    Deserialization(String),
}

/// The message that describes an `ExchangeStreamError`.
pub open spec fn stream_error_message(e: ExchangeStreamError) -> Seq<char> {
    match e {
        ExchangeStreamError::ExchangeNoSnapshot(s) => "Exchange No Snapshot: "@ + s@,
        ExchangeStreamError::ExchangeWSError(s) => "Exchange WS Error: "@ + s@,
        ExchangeStreamError::ExchangeWSReconnectError(s) => "Exchange WS Reconnect Error: "@ + s@,
        ExchangeStreamError::ExchangeStreamSnapshot(s) => "HTTP Snapshot error: "@ + s@,
        ExchangeStreamError::ReceivedNonTextMessageFromExchange =>
            "Received non-text message from exchange"@,
        ExchangeStreamError::WSConnection(s) => "WS Connection Error: "@ + s@,
        ExchangeStreamError::Snapshot(s) => "Exchange Snapshot error: "@ + s@,
        ExchangeStreamError::ExchangeController => "Exchange Controller Error"@,
        ExchangeStreamError::HttpRequest(s) => "HTTP request error: "@ + s@,
        ExchangeStreamError::Deserialization(s) => "Snapshot deserialization error: "@ + s@,
    }
}

impl ExchangeStreamError {
    /// The human-readable message of this error.
    pub fn message(&self) -> (r: String)
        ensures
            r@ == stream_error_message(*self),
    {
        match self {
            ExchangeStreamError::ExchangeNoSnapshot(s) => prefixed("Exchange No Snapshot: ", s),
            ExchangeStreamError::ExchangeWSError(s) => prefixed("Exchange WS Error: ", s),
            ExchangeStreamError::ExchangeWSReconnectError(s) => prefixed(
                "Exchange WS Reconnect Error: ",
                s,
            ),
            ExchangeStreamError::ExchangeStreamSnapshot(s) => prefixed("HTTP Snapshot error: ", s),
            ExchangeStreamError::ReceivedNonTextMessageFromExchange => String::from_str(
                "Received non-text message from exchange",
            ),
            ExchangeStreamError::WSConnection(s) => prefixed("WS Connection Error: ", s),
            ExchangeStreamError::Snapshot(s) => prefixed("Exchange Snapshot error: ", s),
            ExchangeStreamError::ExchangeController => String::from_str(
                "Exchange Controller Error",
            ),
            ExchangeStreamError::HttpRequest(s) => prefixed("HTTP request error: ", s),
            ExchangeStreamError::Deserialization(s) => prefixed(
                "Snapshot deserialization error: ",
                s,
            ),
        }
    }
}

/// `r` is the set-up error that the stream error `err` becomes.
pub open spec fn initial_state_of(err: ExchangeStreamError, r: ErrorInitialState) -> bool {
    match err {
        ExchangeStreamError::ExchangeController => r is ExchangeController,
        ExchangeStreamError::WSConnection(m) => r matches ErrorInitialState::WSConnection(s)
            && s@ == m@,
        ExchangeStreamError::Snapshot(m) => r matches ErrorInitialState::Snapshot(s) && s@ == m@,
        ExchangeStreamError::ExchangeNoSnapshot(m) => r matches ErrorInitialState::Snapshot(s)
            && s@ == m@,
        ExchangeStreamError::ExchangeStreamSnapshot(m) => r matches ErrorInitialState::Snapshot(s)
            && s@ == m@,
        ExchangeStreamError::Deserialization(m) => r matches ErrorInitialState::MessageSerialization(
            s,
        ) && s@ == m@,
        _ => r matches ErrorInitialState::WSConnection(s) && s@ == stream_error_message(err),
    }
}

/// Errors of a book pointer that walks the levels.
#[derive(Debug)]
pub enum PointerError {
    TraverseFailedInvalidLevel,
}

} // verus!
