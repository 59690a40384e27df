//! The request/response protocol spoken with remote execution units:
//! creating a unit, upgrading one, and transferring cycles. The transport
//! that carries a request is an outside collaborator; this module holds the
//! protocol data and every decision made about a response, so the caller's
//! loop only performs the exchange.

use vstd::prelude::*;

verus! {

/// An opaque unit identifier, carried through the protocol untouched.
#[derive(Clone, Debug, PartialEq, Eq)]
pub struct Principal {
    pub bytes: Vec<u8>,
}

/// A protocol failure: the remote side answered with the wrong response
/// variant, which is embedded for diagnostics.
#[derive(Clone, Debug, PartialEq, Eq)]
pub enum RequestError {
    InvalidResponse { response: Response },
}

/// A request to a remote execution unit.
#[derive(Clone, Debug, PartialEq, Eq)]
pub struct Request {
    pub kind: RequestKind,
}

/// What the request asks for.
#[derive(Clone, Debug, PartialEq, Eq)]
pub enum RequestKind {
    CanisterCreate(CanisterCreate),
    CanisterUpgrade(CanisterUpgrade),
    Cycles(Cycles),
}

/// Ask for a new unit running the code at `path`.
#[derive(Clone, Debug, PartialEq, Eq)]
pub struct CanisterCreate {
    pub path: String,
}

/// Ask for the unit `canister_id` to be upgraded to the code at `path`.
#[derive(Clone, Debug, PartialEq, Eq)]
pub struct CanisterUpgrade {
    pub canister_id: Principal,
    pub path: String,
}

/// Ask for a transfer of the given amount of cycles.
#[derive(Clone, Debug, PartialEq, Eq)]
pub struct Cycles {
    pub cycles: u128,
}

/// The remote side's answer, one variant per request kind.
#[derive(Clone, Debug, PartialEq, Eq)]
pub enum Response {
    CanisterCreate(Principal),
    CanisterUpgrade,
    Cycles,
}

impl Request {
    /// Wraps a unit-creation request.
    pub fn new_canister_create(path: String) -> (r: Self)
        ensures
            r.kind == (RequestKind::CanisterCreate(CanisterCreate { path })),
    {
        Self { kind: RequestKind::CanisterCreate(CanisterCreate { path }) }
    }

    /// Wraps a unit-upgrade request.
    pub fn new_canister_upgrade(canister_id: Principal, path: String) -> (r: Self)
        ensures
            r.kind == (RequestKind::CanisterUpgrade(CanisterUpgrade { canister_id, path })),
    {
        Self { kind: RequestKind::CanisterUpgrade(CanisterUpgrade { canister_id, path }) }
    }

    /// Wraps a cycles-transfer request.
    pub fn new_cycles(cycles: u128) -> (r: Self)
        ensures
            r.kind == (RequestKind::Cycles(Cycles { cycles })),
    {
        Self { kind: RequestKind::Cycles(Cycles { cycles }) }
    }
}

/// The amount of cycles a unit should request: when the balance has fallen
/// under the schema's minimum and the schema's initial allowance exceeds the
/// balance, the difference up to that allowance; otherwise nothing.
pub fn cycles_needed(balance: u128, initial_cycles: u128, min_cycles: u128) -> (r: u128)
    ensures
        r == if balance < min_cycles && initial_cycles > balance {
            initial_cycles - balance
        } else {
            0
        },
{
    if balance < min_cycles && initial_cycles > balance {
        initial_cycles - balance
    } else {
        0
    }
}

/// Reads the answer to a unit-creation request: the created unit's
/// identifier on the matching variant, and the invalid-response error
/// embedding the answer on any other.
pub fn check_create_response(response: Response) -> (r: Result<Principal, RequestError>)
    ensures
        match r {
            Ok(id) => response == Response::CanisterCreate(id),
            Err(e) => !(response is CanisterCreate) && e == (RequestError::InvalidResponse {
                response,
            }),
        },
{
    match response {
        Response::CanisterCreate(id) => Ok(id),
        other => Err(RequestError::InvalidResponse { response: other }),
    }
}

/// Reads the answer to a unit-upgrade request: accepted exactly on the
/// matching variant.
pub fn check_upgrade_response(response: Response) -> (r: Result<(), RequestError>)
    ensures
        match r {
            Ok(_) => response is CanisterUpgrade,
            Err(e) => !(response is CanisterUpgrade) && e == (RequestError::InvalidResponse {
                response,
            }),
        },
{
    match response {
        Response::CanisterUpgrade => Ok(()),
        other => Err(RequestError::InvalidResponse { response: other }),
    }
}

/// Reads the answer to a cycles-transfer request: accepted exactly on the
/// matching variant.
pub fn check_cycles_response(response: Response) -> (r: Result<(), RequestError>)
    ensures
        match r {
            Ok(_) => response is Cycles,
            Err(e) => !(response is Cycles) && e == (RequestError::InvalidResponse { response }),
        },
{
    match response {
        Response::Cycles => Ok(()),
        other => Err(RequestError::InvalidResponse { response: other }),
    }
}

} // verus!
