use vstd::prelude::*;

verus! {

/// Seconds before the recorded expiry at which a token is already treated as expired.
pub const EXPIRY_BUFFER_SECS: i64 = 300;

/// OAuth2 token set, as obtained from a code exchange or a refresh.
#[derive(Debug, Clone)]
pub struct TokenSet {
    pub access_token: String,
    pub refresh_token: String,
    pub token_type: String,
    /// Lifetime in seconds, counted from `issued_at`.
    pub expires_in: i64,
    /// Unix time (seconds) at which the set was obtained.
    pub issued_at: i64,
    pub scope: String,
    pub client_id: String,
}

/// The unix second at which a token set stops being valid, before the safety buffer.
pub open spec fn expiry_of(t: TokenSet) -> int {
    t.issued_at as int + t.expires_in as int
}

/// A token must not be used from `EXPIRY_BUFFER_SECS` seconds before its expiry on.
pub open spec fn expired_at(t: TokenSet, now: int) -> bool {
    expiry_of(t) <= now + 300
}

impl TokenSet {
    /// A copy whose fields equal this set's fields.
    pub fn duplicate(&self) -> (r: TokenSet)
        ensures
            r == *self,
    {
        TokenSet {
            access_token: self.access_token.clone(),
            refresh_token: self.refresh_token.clone(),
            token_type: self.token_type.clone(),
            expires_in: self.expires_in,
            issued_at: self.issued_at,
            scope: self.scope.clone(),
            client_id: self.client_id.clone(),
        }
    }

    /// Whether the token is expired, or will expire within the safety buffer, at time `now`.
    pub fn is_expired(&self, now: i64) -> (r: bool)
        ensures
            r == expired_at(*self, now as int),
            r == (self.issued_at + self.expires_in <= now + 300),
    {
        (self.issued_at as i128) + (self.expires_in as i128) <= (now as i128) + (EXPIRY_BUFFER_SECS
            as i128)
    }

    /// Seconds left until the recorded expiry at time `now` (negative once past it).
    pub fn remaining_secs_at(&self, now: i64) -> (r: i128)
        ensures
            r == expiry_of(*self) - now,
    {
        (self.issued_at as i128) + (self.expires_in as i128) - (now as i128)
    }
}

/// Credentials of a dynamically registered OAuth2 client; one record per site.
#[derive(Debug, Clone)]
pub struct ClientCredentials {
    pub client_id: String,
    pub client_name: String,
    pub redirect_uris: Vec<String>,
    pub registered_at: i64,
    pub site: String,
}

impl ClientCredentials {
    /// A copy whose fields hold the same text as this record's fields.
    pub fn duplicate(&self) -> (r: ClientCredentials)
        ensures
            r.client_id == self.client_id,
            r.client_name == self.client_name,
            r.redirect_uris@ == self.redirect_uris@,
            r.registered_at == self.registered_at,
            r.site == self.site,
    {
        let mut uris: Vec<String> = Vec::new();
        let mut i: usize = 0;
        while i < self.redirect_uris.len()
            invariant
                i <= self.redirect_uris@.len(),
                uris@ == self.redirect_uris@.subrange(0, i as int),
            decreases self.redirect_uris@.len() - i,
        {
            uris.push(self.redirect_uris[i].clone());
            i = i + 1;
        }
        assert(uris@ == self.redirect_uris@);
        ClientCredentials {
            client_id: self.client_id.clone(),
            client_name: self.client_name.clone(),
            redirect_uris: uris,
            registered_at: self.registered_at,
            site: self.site.clone(),
        }
    }
}

/// The token type assumed when a stored token set does not name one.
pub open spec fn bearer() -> Seq<char> {
    seq!['B', 'e', 'a', 'r', 'e', 'r']
}

/// The token type assumed when a stored token set does not name one.
pub fn default_token_type() -> (r: String)
    ensures
        r@ == bearer(),
{
    let r = String::from_str("Bearer");
    proof {
        reveal_strlit("Bearer");
    }
    r
}

/// The OAuth scopes requested at login, in order.
pub open spec fn default_scope_names() -> Seq<Seq<char>> {
    seq![
        "dashboards_read"@,
        "dashboards_write"@,
        "monitors_read"@,
        "monitors_write"@,
        "monitors_downtime"@,
        "apm_read"@,
        "slos_read"@,
        "slos_write"@,
        "slos_corrections"@,
        "incident_read"@,
        "incident_write"@,
        "synthetics_read"@,
        "synthetics_write"@,
        "synthetics_global_variable_read"@,
        "synthetics_global_variable_write"@,
        "synthetics_private_location_read"@,
        "synthetics_private_location_write"@,
        "security_monitoring_signals_read"@,
        "security_monitoring_rules_read"@,
        "security_monitoring_findings_read"@,
        "security_monitoring_suppressions_read"@,
        "security_monitoring_filters_read"@,
        "rum_apps_read"@,
        "rum_apps_write"@,
        "rum_retention_filters_read"@,
        "rum_retention_filters_write"@,
        "hosts_read"@,
        "user_access_read"@,
        "user_self_profile_read"@,
        "cases_read"@,
        "cases_write"@,
        "events_read"@,
        "logs_read_data"@,
        "logs_read_index_data"@,
        "metrics_read"@,
        "timeseries_query"@,
        "usage_read"@,
    ]
}

/// The OAuth scopes requested at login.
pub fn default_scopes() -> (r: Vec<&'static str>)
    ensures
        r@.map_values(|s: &str| s@) == default_scope_names(),
{
    let r = vec![
        "dashboards_read",
        "dashboards_write",
        "monitors_read",
        "monitors_write",
        "monitors_downtime",
        "apm_read",
        "slos_read",
        "slos_write",
        "slos_corrections",
        "incident_read",
        "incident_write",
        "synthetics_read",
        "synthetics_write",
        "synthetics_global_variable_read",
        "synthetics_global_variable_write",
        "synthetics_private_location_read",
        "synthetics_private_location_write",
        "security_monitoring_signals_read",
        "security_monitoring_rules_read",
        "security_monitoring_findings_read",
        "security_monitoring_suppressions_read",
        "security_monitoring_filters_read",
        "rum_apps_read",
        "rum_apps_write",
        "rum_retention_filters_read",
        "rum_retention_filters_write",
        "hosts_read",
        "user_access_read",
        "user_self_profile_read",
        "cases_read",
        "cases_write",
        "events_read",
        "logs_read_data",
        "logs_read_index_data",
        "metrics_read",
        "timeseries_query",
        "usage_read",
    ];
    assert(r@.map_values(|s: &str| s@) =~= default_scope_names());
    r
}

} // verus!
