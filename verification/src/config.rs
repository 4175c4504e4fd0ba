use vstd::prelude::*;

use crate::errors::TransferError;

verus! {

/// The four values the transfer pipeline needs to reach the store. The
/// shell reads them from the process environment and hands them in; absent
/// values arrive as `None`.
#[derive(Debug)]
pub struct StoreConfig {
    pub access_key: String,
    pub secret_key: String,
    pub endpoint: String,
    pub region: String,
}

/// Mathematical image of a [`StoreConfig`].
#[verifier::ext_equal]
pub struct StoreConfigView {
    pub access_key: Seq<char>,
    pub secret_key: Seq<char>,
    pub endpoint: Seq<char>,
    pub region: Seq<char>,
}

impl View for StoreConfig {
    type V = StoreConfigView;

    open spec fn view(&self) -> StoreConfigView {
        StoreConfigView {
            access_key: self.access_key@,
            secret_key: self.secret_key@,
            endpoint: self.endpoint@,
            region: self.region@,
        }
    }
}

/// Builds the store configuration from the four environment values, in the
/// order they are read: access key, secret key, endpoint, region. All four
/// are required; with no defaults and no fallback, the first absent one
/// fails the resolution with a `ConfigError` naming its variable, and no
/// transfer is attempted.
pub fn resolve_config(
    access_key: Option<String>,
    secret_key: Option<String>,
    endpoint: Option<String>,
    region: Option<String>,
) -> (r: Result<StoreConfig, TransferError>)
    ensures
        r is Ok <==> access_key is Some && secret_key is Some && endpoint is Some && region
            is Some,
        r matches Ok(c) ==> c@ == (StoreConfigView {
            access_key: access_key->Some_0@,
            secret_key: secret_key->Some_0@,
            endpoint: endpoint->Some_0@,
            region: region->Some_0@,
        }),
        access_key is None ==> (r matches Err(TransferError::ConfigError { variable })
            && variable@ == "YANDEX_ACCESS_KEY_ID"@),
        access_key is Some && secret_key is None ==> (r matches Err(
            TransferError::ConfigError { variable },
        ) && variable@ == "YANDEX_SECRET_ACCESS_KEY_ID"@),
        access_key is Some && secret_key is Some && endpoint is None ==> (r matches Err(
            TransferError::ConfigError { variable },
        ) && variable@ == "AWS_ENDPOINT"@),
        access_key is Some && secret_key is Some && endpoint is Some && region is None ==> (r
            matches Err(TransferError::ConfigError { variable }) && variable@ == "AWS_REGION"@),
{
    let access_key = match access_key {
        Some(v) => v,
        None => {
            return Err(
                TransferError::ConfigError {
                    variable: String::from_str("YANDEX_ACCESS_KEY_ID"),
                },
            );
        },
    };
    let secret_key = match secret_key {
        Some(v) => v,
        None => {
            return Err(
                TransferError::ConfigError {
                    variable: String::from_str("YANDEX_SECRET_ACCESS_KEY_ID"),
                },
            );
        },
    };
    let endpoint = match endpoint {
        Some(v) => v,
        None => {
            return Err(TransferError::ConfigError { variable: String::from_str("AWS_ENDPOINT") });
        },
    };
    let region = match region {
        Some(v) => v,
        None => {
            return Err(TransferError::ConfigError { variable: String::from_str("AWS_REGION") });
        },
    };
    Ok(StoreConfig { access_key, secret_key, endpoint, region })
}

} // verus!
