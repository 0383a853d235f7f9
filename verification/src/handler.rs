//! Per request: from the credential name in the request to the client that
//! serves it, and from what came of the call to the reply.

use crate::app::AppState;
use crate::registry::{resolved, ClientHandle, NotFoundError, Registry};
use vstd::prelude::*;
use vstd::string::StringExecFns;

verus! {

/// A client type that has its registry in the state. One lookup routine
/// serves every type that says where its registry is.
pub trait ClientSelector: Sized {
    /// The registry of this client type in `data`.
    spec fn registry(data: &AppState) -> Registry<Self>;

    /// The registry of this client type in `data`.
    fn get_clients(data: &AppState) -> (clients: &Registry<Self>)
        ensures
            *clients == Self::registry(data),
    ;
}

impl ClientSelector for binance_sdk::derivatives_trading_usds_futures::rest_api::RestApi {
    open spec fn registry(data: &AppState) -> Registry<Self> {
        data.rest_usds_future_clients
    }

    fn get_clients(data: &AppState) -> (clients: &Registry<Self>) {
        &data.rest_usds_future_clients
    }
}

impl ClientSelector for binance_sdk::spot::rest_api::RestApi {
    open spec fn registry(data: &AppState) -> Registry<Self> {
        data.rest_spot_clients
    }

    fn get_clients(data: &AppState) -> (clients: &Registry<Self>) {
        &data.rest_spot_clients
    }
}

/// The client of type `T` that serves the credential `key_name`, or that
/// the registry of `T` holds none under that name.
pub fn get_client_from_state<'a, T: ClientSelector>(data: &'a AppState, key_name: &str) -> (res:
    Result<&'a ClientHandle<T>, NotFoundError>)
    ensures
        match res {
            Ok(handle) => resolved(T::registry(data)@, key_name@) == Ok::<_, Seq<char>>(*handle),
            Err(e) => resolved(T::registry(data)@, key_name@) == Err::<ClientHandle<T>, _>(
                e.key_name@,
            ),
        },
{
    T::get_clients(data).resolve(key_name)
}

/// The status of a reply that carries the exchange's answer.
pub const STATUS_OK: u16 = 200;

/// The status of a reply to a request that named an unknown credential.
pub const STATUS_BAD_REQUEST: u16 = 400;

/// The status of a reply to a request that failed at the exchange or on the
/// way to it.
pub const STATUS_INTERNAL_SERVER_ERROR: u16 = 500;

/// What came of one request.
pub enum Outcome {
    /// The request named a credential that is not served.
    UnknownKey(NotFoundError),
    /// The exchange, or the way to it, failed; the text says how.
    Failed(String),
    /// The exchange answered; the text is the answer as it goes out.
    Answered(String),
}

/// What goes back to the caller.
pub struct Reply {
    pub status: u16,
    pub body: String,
}

pub struct ReplyView {
    pub status: u16,
    pub body: Seq<char>,
}

impl View for Reply {
    type V = ReplyView;

    open spec fn view(&self) -> ReplyView {
        ReplyView { status: self.status, body: self.body@ }
    }
}

/// The reply that an outcome calls for. An unknown credential is the
/// caller's error and is named in the body; a failure at the exchange is
/// the server's and carries the failure's text; an answer goes out as it
/// is.
pub open spec fn reply_of(outcome: Outcome) -> ReplyView {
    match outcome {
        Outcome::UnknownKey(e) => ReplyView {
            status: STATUS_BAD_REQUEST,
            body: "Client not found for key_name: "@ + e.key_name@,
        },
        Outcome::Failed(text) => ReplyView { status: STATUS_INTERNAL_SERVER_ERROR, body: text@ },
        Outcome::Answered(text) => ReplyView { status: STATUS_OK, body: text@ },
    }
}

/// The reply to a request of which `outcome` came.
pub fn reply(outcome: Outcome) -> (res: Reply)
    ensures
        res@ == reply_of(outcome),
{
    match outcome {
        Outcome::UnknownKey(e) => Reply { status: STATUS_BAD_REQUEST, body: e.message() },
        Outcome::Failed(text) => Reply { status: STATUS_INTERNAL_SERVER_ERROR, body: text },
        Outcome::Answered(text) => Reply { status: STATUS_OK, body: text },
    }
}

/// The status alone tells an unknown credential from a failure at the
/// exchange, and both from an answer.
pub proof fn lemma_status_tells_outcomes_apart(outcome: Outcome)
    ensures
        reply_of(outcome).status == STATUS_BAD_REQUEST <==> outcome is UnknownKey,
        reply_of(outcome).status == STATUS_INTERNAL_SERVER_ERROR <==> outcome is Failed,
        reply_of(outcome).status == STATUS_OK <==> outcome is Answered,
{
}

} // verus!
