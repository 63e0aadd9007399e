//! The decisions of device pairing: what is asked for, how each polled
//! status is answered, and the credentials kept afterwards.
use vstd::prelude::*;

use crate::client::api::{
    PairingExchangeRequest, PairingExchangeResponse, PairingMetadata, PairingStartRequest,
    PairingStatusResponse,
};
use crate::config::{Config, Credentials};
use crate::text::{append_text, text_eq, text_from, texts};

verus! {

/// The scopes a pairing asks for.
pub open spec fn requested_scopes() -> Seq<Seq<char>> {
    seq!["registry:read"@, "download"@, "manifest:read"@, "latest:read"@]
}

/// The pairing request of this device: the app "forge-cli", the host as
/// instance, the registry, download, manifest and latest scopes.
pub fn pairing_request(org_slug: String, host: String, platform: String, arch: String) -> (r:
    PairingStartRequest)
    ensures
        r.org_slug == org_slug,
        r.app_id@ == "forge-cli"@,
        r.instance_id == host,
        texts(r.requested_scopes@) == requested_scopes(),
        r.metadata.hostname == host,
        r.metadata.platform == platform,
        r.metadata.arch == arch,
{
    let mut scopes: Vec<String> = Vec::new();
    scopes.push(text_from("registry:read"));
    scopes.push(text_from("download"));
    scopes.push(text_from("manifest:read"));
    scopes.push(text_from("latest:read"));
    assert(texts(scopes@) =~= requested_scopes());
    PairingStartRequest {
        org_slug,
        app_id: text_from("forge-cli"),
        instance_id: host.clone(),
        requested_scopes: scopes,
        metadata: PairingMetadata { hostname: host, platform, arch },
    }
}

/// Why a pairing ended without a token.
pub enum PairingFailure {
    NoExchangeToken,
    Denied,
    Expired,
    AlreadyExchanged,
    Unexpected(String),
}

/// What to do after polling a pairing.
pub enum PollOutcome {
    /// Approved: exchange this token.
    Approved(String),
    /// Still waiting: poll again.
    Pending,
    /// Stop with this failure.
    Failed(PairingFailure),
}

pub open spec fn pairing_failure_message(f: PairingFailure) -> Seq<char> {
    match f {
        PairingFailure::NoExchangeToken => "Approved but no exchange token received"@,
        PairingFailure::Denied => "Pairing was denied."@,
        PairingFailure::Expired => "Pairing code expired. Run `forge login` again."@,
        PairingFailure::AlreadyExchanged => "Pairing code was already exchanged."@,
        PairingFailure::Unexpected(s) => "Unexpected pairing status: "@ + s@,
    }
}

impl PairingFailure {
    /// The text shown for this failure.
    pub fn message(&self) -> (r: String)
        ensures
            r@ == pairing_failure_message(*self),
    {
        match self {
            PairingFailure::NoExchangeToken => text_from("Approved but no exchange token received"),
            PairingFailure::Denied => text_from("Pairing was denied."),
            PairingFailure::Expired => text_from("Pairing code expired. Run `forge login` again."),
            PairingFailure::AlreadyExchanged => text_from("Pairing code was already exchanged."),
            PairingFailure::Unexpected(s) => {
                let mut r = text_from("Unexpected pairing status: ");
                append_text(&mut r, s.as_str());
                r
            },
        }
    }
}

/// What a polled status means: "approved" with a token goes on to the
/// exchange, "pending" waits, anything else stops.
pub fn poll_outcome(status: &PairingStatusResponse) -> (r: PollOutcome)
    ensures
        status.status@ == "approved"@ ==> match status.exchange_token {
            Some(t) => r == PollOutcome::Approved(t),
            None => r matches PollOutcome::Failed(PairingFailure::NoExchangeToken),
        },
        status.status@ == "denied"@ ==> r matches PollOutcome::Failed(PairingFailure::Denied),
        status.status@ == "expired"@ ==> r matches PollOutcome::Failed(PairingFailure::Expired),
        status.status@ == "exchanged"@ ==> r matches PollOutcome::Failed(
            PairingFailure::AlreadyExchanged,
        ),
        status.status@ == "pending"@ ==> r is Pending,
        !(status.status@ == "approved"@ || status.status@ == "denied"@ || status.status@
            == "expired"@ || status.status@ == "exchanged"@ || status.status@ == "pending"@) ==> (
        r matches PollOutcome::Failed(PairingFailure::Unexpected(s)) && s@ == status.status@),
{
    proof {
        reveal_strlit("approved");
        reveal_strlit("denied");
        reveal_strlit("expired");
        reveal_strlit("exchanged");
        reveal_strlit("pending");
        assert("approved"@[0] != "denied"@[0]);
        assert("approved"@[0] != "expired"@[0]);
        assert("approved"@[0] != "exchanged"@[0]);
        assert("approved"@[0] != "pending"@[0]);
        assert("denied"@[0] != "expired"@[0]);
        assert("denied"@[0] != "exchanged"@[0]);
        assert("denied"@[0] != "pending"@[0]);
        assert("expired"@[2] != "exchanged"@[2]);
        assert("expired"@[0] != "pending"@[0]);
        assert("exchanged"@[0] != "pending"@[0]);
    }
    let s = status.status.as_str();
    if text_eq(s, "approved") {
        match &status.exchange_token {
            Some(t) => PollOutcome::Approved(t.clone()),
            None => PollOutcome::Failed(PairingFailure::NoExchangeToken),
        }
    } else if text_eq(s, "denied") {
        PollOutcome::Failed(PairingFailure::Denied)
    } else if text_eq(s, "expired") {
        PollOutcome::Failed(PairingFailure::Expired)
    } else if text_eq(s, "exchanged") {
        PollOutcome::Failed(PairingFailure::AlreadyExchanged)
    } else if text_eq(s, "pending") {
        PollOutcome::Pending
    } else {
        PollOutcome::Failed(PairingFailure::Unexpected(status.status.clone()))
    }
}

/// The exchange request for an approved pairing.
pub fn exchange_request(pairing_code: String, exchange_token: String) -> (r: PairingExchangeRequest)
    ensures
        r.pairing_code == pairing_code,
        r.exchange_token == exchange_token,
{
    PairingExchangeRequest { pairing_code, exchange_token }
}

/// The credentials saved after a successful exchange.
pub fn credentials_from_exchange(resp: PairingExchangeResponse, portal_url: String, org_slug: String) -> (r:
    Credentials)
    ensures
        r.access_token == resp.access_token,
        r.expires_at == Some(resp.expires_at),
        r.scopes == resp.scopes,
        r.portal_url == portal_url,
        r.org_slug == org_slug,
{
    Credentials {
        access_token: resp.access_token,
        expires_at: Some(resp.expires_at),
        scopes: resp.scopes,
        portal_url,
        org_slug,
    }
}

/// The organization offered by default: the configured one, or empty.
pub fn default_org(config: &Config) -> (r: String)
    ensures
        r@ == match config.org_slug {
            Some(o) => o@,
            None => Seq::<char>::empty(),
        },
{
    match &config.org_slug {
        Some(o) => o.clone(),
        None => String::new(),
    }
}

} // verus!
