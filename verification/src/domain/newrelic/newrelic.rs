//! The upstream query client, without its transport: what is sent to the
//! provider for a metric, and what its answer amounts to.

use crate::configuration::NewrelicConfig;
use crate::domain::newrelic::metric::{query_text, Metric};
use crate::domain::newrelic::model::{NewrelicQueryResult, NewrelicResponseModel};
use crate::error::{AppError, RequestError};
use crate::text::{signed_decimal, signed_decimal_text};
use vstd::prelude::*;
use vstd::string::StringExecFns;

verus! {

/// The seconds allowed for connecting to the provider.
pub const CONNECT_TIMEOUT_SECS: u64 = 5;

/// The provider's credentials, as the client holds them.
#[derive(Debug, Clone)]
pub struct Newrelic {
    api_key: String,
    account_id: i32,
}

/// One call to the provider: a GET of `url` with one header.
#[derive(Debug)]
pub struct UpstreamCall {
    pub url: String,
    pub header_name: String,
    pub header_value: String,
}

/// How the transport to the provider is set up.
#[derive(Debug)]
pub struct ClientSettings {
    pub user_agent: String,
    pub connect_timeout_secs: u64,
    pub http2_adaptive_window: bool,
}

/// The URL of a query: the account in the path, the query text as the
/// `nrql` parameter, put in as it is.
pub open spec fn query_url(account_id: i32, query: Seq<char>) -> Seq<char> {
    "https://insights-api.newrelic.com/v1/accounts/"@ + signed_decimal_text(account_id as int)
        + "/query?nrql="@ + query
}

/// The name of the header that carries the API key.
pub open spec fn key_header() -> Seq<char> {
    "X-Query-Key"@
}

/// What the provider's answer amounts to: the rows of a results envelope,
/// or the failure that an error envelope or the transport stands for.
pub open spec fn conclusion(fetched: Result<NewrelicQueryResult, RequestError>) -> Result<
    NewrelicResponseModel,
    AppError,
> {
    match fetched {
        Ok(NewrelicQueryResult::Results(data)) => Ok(data),
        Ok(NewrelicQueryResult::Failure(error)) => Err(AppError::NewrelicError(error)),
        Err(failure) => Err(AppError::RequestError(failure)),
    }
}

impl Newrelic {
    pub closed spec fn api_key(&self) -> Seq<char> {
        self.api_key@
    }

    pub closed spec fn account_id(&self) -> i32 {
        self.account_id
    }

    /// A client with the credentials of the configuration.
    pub fn new(newrelic_config: NewrelicConfig) -> (client: Self)
        ensures
            client.api_key() == newrelic_config.api_key(),
            client.account_id() == newrelic_config.account_id(),
    {
        Newrelic {
            api_key: String::from_str(newrelic_config.get_api_key()),
            account_id: newrelic_config.get_account_id(),
        }
    }

    /// The settings of the transport, for a user agent made of the name and
    /// the version of the running program.
    pub fn client_settings(package: &str, version: &str) -> (settings: ClientSettings)
        ensures
            settings.user_agent@ == package@ + "/"@ + version@,
            settings.connect_timeout_secs == CONNECT_TIMEOUT_SECS,
            settings.http2_adaptive_window,
    {
        let mut user_agent = String::from_str(package);
        user_agent.append("/");
        user_agent.append(version);
        ClientSettings {
            user_agent,
            connect_timeout_secs: CONNECT_TIMEOUT_SECS,
            http2_adaptive_window: true,
        }
    }

    /// The one call that asks the provider for a metric of an application
    /// over a time window.
    pub fn prepare(
        &self,
        application_name: &str,
        start_time: &str,
        end_time: &str,
        metric: Metric,
    ) -> (call: UpstreamCall)
        ensures
            call.url@ == query_url(
                self.account_id(),
                query_text(metric, application_name@, start_time@, end_time@),
            ),
            call.header_name@ == key_header(),
            call.header_value@ == self.api_key(),
    {
        let query = metric.get_query(application_name, start_time, end_time);
        let mut url = String::from_str("https://insights-api.newrelic.com/v1/accounts/");
        url.append(signed_decimal(self.account_id as i64).as_str());
        url.append("/query?nrql=");
        url.append(query.as_str());
        UpstreamCall {
            url,
            header_name: String::from_str("X-Query-Key"),
            header_value: String::from_str(self.api_key.as_str()),
        }
    }

    /// What the answer to a call amounts to.
    pub fn conclude(fetched: Result<NewrelicQueryResult, RequestError>) -> (answer: Result<
        NewrelicResponseModel,
        AppError,
    >)
        ensures
            answer == conclusion(fetched),
    {
        match fetched {
            Ok(NewrelicQueryResult::Results(data)) => Ok(data),
            Ok(NewrelicQueryResult::Failure(error)) => Err(AppError::from(error)),
            Err(failure) => Err(AppError::from(failure)),
        }
    }
}

} // verus!
