//! The error a Codex account shows for its credentials: the usage error of
//! its cached status, the last local refresh error, or the error of an
//! expired access token that may not be refreshed.
use vstd::prelude::*;

verus! {

/// The message shown when refresh is disabled and the access token expired.
pub open spec fn expired_auth_error() -> Seq<char> {
    "codex auth refresh disabled and current access token expired"@
}

/// What the error logic reads of an account's cached Codex status.
#[derive(Debug, Clone)]
pub struct CodexStatusErrorView {
    /// The usage error the status recorded, if any.
    pub usage_error_message: Option<String>,
    /// When the status last checked usage, in Unix milliseconds.
    pub last_usage_checked_at: Option<i64>,
}

/// Whether the access token can still be used: it has no known expiry, or
/// it expires after `now_ms`.
pub open spec fn token_usable(expires_at_ms: Option<i64>, now_ms: i64) -> bool {
    match expires_at_ms {
        Some(e) => e > now_ms,
        None => true,
    }
}

/// The expired-token error: only when refresh is disabled and the token is
/// no longer usable.
pub open spec fn disabled_expired_error(auth_refresh_enabled: bool, token_is_usable: bool) -> Option<Seq<char>> {
    if auth_refresh_enabled || token_is_usable {
        None
    } else {
        Some(expired_auth_error())
    }
}

/// The locally known error: the last refresh error while refresh is on;
/// with refresh off, none for a usable token, else the last error or the
/// expired-token error.
pub open spec fn local_auth_error(
    record_last_error: Option<Seq<char>>,
    auth_refresh_enabled: bool,
    token_is_usable: bool,
) -> Option<Seq<char>> {
    if auth_refresh_enabled {
        record_last_error
    } else if token_is_usable {
        None
    } else {
        match record_last_error {
            Some(e) => Some(e),
            None => disabled_expired_error(auth_refresh_enabled, token_is_usable),
        }
    }
}

/// The error shown for an account: the status's usage error; else, when a
/// local refresh is newer than the status check, the local error; else the
/// expired-token error. Without a cached status, the local error.
pub open spec fn cached_auth_error(
    record_last_error: Option<Seq<char>>,
    record_last_refresh_at_ms: Option<i64>,
    auth_refresh_enabled: bool,
    token_is_usable: bool,
    status: Option<CodexStatusErrorView>,
) -> Option<Seq<char>> {
    match status {
        Some(st) => {
            if st.usage_error_message is Some {
                st.usage_error_message.deep_view()
            } else if (match record_last_refresh_at_ms { Some(t) => t, None => 0 }) > (match st.last_usage_checked_at {
                Some(t) => t,
                None => 0,
            }) {
                local_auth_error(record_last_error, auth_refresh_enabled, token_is_usable)
            } else {
                disabled_expired_error(auth_refresh_enabled, token_is_usable)
            }
        },
        None => local_auth_error(record_last_error, auth_refresh_enabled, token_is_usable),
    }
}

fn opt_str_view(value: Option<&str>) -> (r: Option<String>)
    ensures
        r.deep_view() == crate::metrics::opt_str_view(value),
{
    match value {
        Some(v) => Some(v.to_owned()),
        None => None,
    }
}

/// Whether an access token with this expiry is still usable at `now_ms`.
pub fn codex_access_token_is_still_usable(expires_at_ms: Option<i64>, now_ms: i64) -> (r: bool)
    ensures
        r == token_usable(expires_at_ms, now_ms),
{
    match expires_at_ms {
        Some(e) => e > now_ms,
        None => true,
    }
}

/// The expired-token error of an account, if it has one.
pub fn codex_disabled_expired_auth_error(auth_refresh_enabled: bool, token_is_usable: bool) -> (r: Option<String>)
    ensures
        r.deep_view() == disabled_expired_error(auth_refresh_enabled, token_is_usable),
{
    if auth_refresh_enabled || token_is_usable {
        return None;
    }
    proof {
        reveal_strlit("codex auth refresh disabled and current access token expired");
    }
    Some("codex auth refresh disabled and current access token expired".to_owned())
}

/// The locally known credential error of an account.
pub fn codex_local_auth_error_message(
    record_last_error: Option<&str>,
    auth_refresh_enabled: bool,
    token_is_usable: bool,
) -> (r: Option<String>)
    ensures
        r.deep_view() == local_auth_error(crate::metrics::opt_str_view(record_last_error), auth_refresh_enabled, token_is_usable),
{
    if auth_refresh_enabled {
        return opt_str_view(record_last_error);
    }
    if token_is_usable {
        return None;
    }
    match record_last_error {
        Some(e) => Some(e.to_owned()),
        None => codex_disabled_expired_auth_error(auth_refresh_enabled, token_is_usable),
    }
}

/// The credential error shown for an account, from its record and its
/// cached status.
pub fn codex_cached_error_message(
    record_last_error: Option<&str>,
    record_last_refresh_at_ms: Option<i64>,
    auth_refresh_enabled: bool,
    token_is_usable: bool,
    status: Option<&CodexStatusErrorView>,
) -> (r: Option<String>)
    ensures
        r.deep_view() == cached_auth_error(
            crate::metrics::opt_str_view(record_last_error),
            record_last_refresh_at_ms,
            auth_refresh_enabled,
            token_is_usable,
            match status { Some(s) => Some(*s), None => None },
        ),
{
    let local_auth_error = codex_local_auth_error_message(record_last_error, auth_refresh_enabled, token_is_usable);
    match status {
        Some(st) => {
            if let Some(message) = &st.usage_error_message {
                return Some(message.clone());
            }
            let local_refresh = match record_last_refresh_at_ms {
                Some(t) => t,
                None => 0,
            };
            let status_checked_at = match st.last_usage_checked_at {
                Some(t) => t,
                None => 0,
            };
            if local_refresh > status_checked_at {
                local_auth_error
            } else {
                codex_disabled_expired_auth_error(auth_refresh_enabled, token_is_usable)
            }
        },
        None => local_auth_error,
    }
}

/// The error an account shows: a usage error recorded in its cached status
/// always wins; without a cached status it is the local error. The local
/// error is the last refresh error while refresh is on; with refresh off it
/// is none for a usable token, and otherwise the last refresh error or, when
/// there is none, the expired-token message. The expired-token message only
/// ever shows when refresh is off and the token is no longer usable.
pub proof fn lemma_cached_auth_error_precedence(
    record_last_error: Option<Seq<char>>,
    record_last_refresh_at_ms: Option<i64>,
    auth_refresh_enabled: bool,
    token_is_usable: bool,
    status: Option<CodexStatusErrorView>,
)
    ensures
        ({
            let shown = cached_auth_error(record_last_error, record_last_refresh_at_ms, auth_refresh_enabled, token_is_usable, status);
            let local = local_auth_error(record_last_error, auth_refresh_enabled, token_is_usable);
            &&& (status matches Some(st) ==> (st.usage_error_message matches Some(m) ==> shown == Some(m@)))
            &&& (status is None ==> shown == local)
            &&& (auth_refresh_enabled ==> local == record_last_error)
            &&& (!auth_refresh_enabled && token_is_usable ==> local is None)
            &&& (!auth_refresh_enabled && !token_is_usable ==> local == (match record_last_error {
                Some(e) => Some(e),
                None => Some("codex auth refresh disabled and current access token expired"@),
            }))
            &&& (!auth_refresh_enabled && !token_is_usable ==> disabled_expired_error(auth_refresh_enabled, token_is_usable)
                == Some("codex auth refresh disabled and current access token expired"@))
            &&& (auth_refresh_enabled || token_is_usable ==> disabled_expired_error(auth_refresh_enabled, token_is_usable)
                is None)
        }),
{
}

} // verus!
