//! Plain data behind the command line: which service a request addresses,
//! which server environment, and what the history querier was asked. The
//! argument parsing itself lives with the binary.

use vstd::prelude::*;
use crate::clock::{date_to_utc_start, date_start_of, date_wf};

verus! {

/// The services a request can address.
#[derive(Debug, Copy, Clone, PartialEq, Eq, PartialOrd, Ord, Structural)]
pub enum ModularService {
    HPI,
    HSI,
    CR,
    CIS,
}

/// The route segment each service answers under.
pub open spec fn spec_service_segment(s: ModularService) -> Seq<char> {
    match s {
        ModularService::HPI => "windmill-service-v1"@,
        ModularService::HSI => "sales-invoice-service-v1"@,
        ModularService::CR => "cloudreader-v1"@,
        ModularService::CIS => "circula-integration-service-v1"@,
    }
}

impl ModularService {
    /// The service's route segment.
    pub fn as_ref(&self) -> (s: &str)
        ensures
            s@ == spec_service_segment(*self),
    {
        match self {
            ModularService::HPI => "windmill-service-v1",
            ModularService::HSI => "sales-invoice-service-v1",
            ModularService::CR => "cloudreader-v1",
            ModularService::CIS => "circula-integration-service-v1",
        }
    }
}

/// The server environments a request can go to.
#[derive(Debug, Copy, Clone, PartialEq, Eq, PartialOrd, Ord, Structural)]
pub enum ServerEnv {
    Dev,
    Test,
    Prod,
}

/// The host segment each environment answers under.
pub open spec fn spec_env_segment(e: ServerEnv) -> Seq<char> {
    match e {
        ServerEnv::Dev => "dev"@,
        ServerEnv::Test => "test"@,
        ServerEnv::Prod => "cloud"@,
    }
}

impl ServerEnv {
    /// The environment's host segment.
    pub fn as_ref(&self) -> (s: &str)
        ensures
            s@ == spec_env_segment(*self),
    {
        match self {
            ServerEnv::Dev => "dev",
            ServerEnv::Test => "test",
            ServerEnv::Prod => "cloud",
        }
    }
}

/// List every request made since a date.
#[derive(Debug, Clone, PartialEq, Eq)]
pub struct ListAllCommand {
    pub time_range: String,
}

/// List the requests made to one service since a date.
#[derive(Debug, Clone, PartialEq, Eq)]
pub struct ListByServiceCommand {
    pub time_range: String,
}

/// What the history querier was asked to list.
#[derive(Debug, Clone, PartialEq, Eq)]
pub enum AskCommand {
    ListAll(ListAllCommand),
    ListByService(ListByServiceCommand),
}

/// The date text a listing command carries.
pub open spec fn spec_time_range(cmd: AskCommand) -> Seq<char> {
    match cmd {
        AskCommand::ListAll(c) => c.time_range@,
        AskCommand::ListByService(c) => c.time_range@,
    }
}

impl AskCommand {
    /// The UTC second the listing starts from: midnight of the command's
    /// date. `None` exactly when the date text is not a `%Y-%m-%d` date.
    pub fn since(&self) -> (r: Option<i64>)
        ensures
            r is Some <==> date_wf(spec_time_range(*self)),
            (r matches Some(t) ==> t == date_start_of(spec_time_range(*self))),
    {
        match self {
            AskCommand::ListAll(c) => date_to_utc_start(c.time_range.as_str()),
            AskCommand::ListByService(c) => date_to_utc_start(c.time_range.as_str()),
        }
    }
}

} // verus!
