//! The login form of the desktop client: what it is filled with, and the session that it
//! starts.
use vstd::prelude::*;

use super::auth_profile::AuthProfile;
use super::bridge::SessionConfig;
use super::config::{self, DesktopConfig, DEFAULT_DATA_DIR_ROOT};
use crate::backend_core::types;
use crate::text;

verus! {

/// The address without its scheme: all of it where it has none.
pub open spec fn host_of(address: Seq<char>) -> Seq<char> {
    match text::after_first(address, "://"@) {
        Some(host) => host,
        None => address,
    }
}

/// The URL of the homeserver that was typed: always with the secure scheme.
pub open spec fn secure_url(typed: Seq<char>) -> Seq<char> {
    "https://"@ + host_of(text::trimmed(typed))
}

/// The URL of the homeserver that was typed, with or without a scheme: the connection is
/// secure whatever was typed.
pub fn secure_homeserver_url(typed: &str) -> (url: String)
    ensures
        url@ == secure_url(typed@),
{
    let address = text::trim(typed);
    let host = match text::rest_after(address.as_str(), "://") {
        Some(host) => host,
        None => address,
    };
    let mut url: String = "https://".to_owned();
    url.append(host.as_str());
    url
}

/// A host that was typed without a scheme gets the secure one.
pub proof fn lemma_typed_host_is_secured(host: Seq<char>)
    requires
        text::trimmed(host) == host,
        !text::contains(host, "://"@),
    ensures
        secure_url(host) == "https://"@ + host,
{
}

/// A URL of the form is its own URL: filling the form with it again names the same homeserver.
pub proof fn lemma_secure_url_is_idempotent(typed: Seq<char>)
    ensures
        secure_url(secure_url(typed)) == secure_url(typed),
{
    let address = text::trimmed(typed);
    let host = host_of(address);
    let url = secure_url(typed);
    reveal_strlit("https://");
    reveal_strlit("://");
    text::lemma_trimmed_is_within(typed);
    if text::contains(address, "://"@) {
        text::lemma_first_index_is_first(address, "://"@);
    }
    assert(host.len() > 0 ==> host.last() == address.last());
    assert(!text::is_white_space(url[0]));
    assert(url.last() == if host.len() > 0 { host.last() } else { '/' });
    assert(text::trimmed(url) == url);
    assert(url.subrange(5, 8) =~= "://"@);
    assert forall|earlier: int| 0 <= earlier < 5 implies !text::occurs_at(
        url,
        "://"@,
        earlier,
    ) by {
        assert(url.subrange(earlier, earlier + 3)[0] == url[earlier]);
    }
    text::lemma_first_index(url, "://"@, 5);
    assert(url.skip(8) =~= host);
}

/// The login form.
#[derive(Debug, Clone, PartialEq, Eq)]
pub struct LoginForm {
    /// Homeserver, with or without a scheme.
    pub homeserver: String,
    /// Matrix user ID.
    pub user_id: String,
    /// Password for the user account.
    pub password: String,
    /// Whether the session should be persisted for restore.
    pub remember_password: bool,
}

/// What a [`LoginForm`] holds.
#[verifier::ext_equal]
pub struct LoginFormView {
    pub homeserver: Seq<char>,
    pub user_id: Seq<char>,
    pub password: Seq<char>,
    pub remember_password: bool,
}

impl View for LoginForm {
    type V = LoginFormView;

    open spec fn view(&self) -> LoginFormView {
        LoginFormView {
            homeserver: self.homeserver@,
            user_id: self.user_id@,
            password: self.password@,
            remember_password: self.remember_password,
        }
    }
}

/// The first text that there is, or none.
pub open spec fn first_text(first: Option<Seq<char>>, second: Option<Seq<char>>) -> Seq<char> {
    match (first, second) {
        (Some(text), _) => text,
        (None, Some(text)) => text,
        (None, None) => Seq::empty(),
    }
}

fn first_string(first: &Option<String>, second: Option<String>) -> (text: String)
    ensures
        text@ == first_text(types::opt_chars(*first), types::opt_chars(second)),
{
    match (first, second) {
        (Some(text), _) => text.clone(),
        (None, Some(text)) => text,
        (None, None) => String::new(),
    }
}

impl LoginForm {
    /// The form as it is shown: filled from the configuration, else from the last login. The
    /// user submits it; nothing is sent before.
    pub fn prefilled(config: &DesktopConfig, known: Option<AuthProfile>) -> (form: Self)
        ensures
            form@ == (LoginFormView {
                homeserver: first_text(
                    config@.prefill_homeserver,
                    match known {
                        Some(profile) => Some(profile.homeserver@),
                        None => None,
                    },
                ),
                user_id: first_text(
                    config@.prefill_user_id,
                    match known {
                        Some(profile) => Some(profile.user_id@),
                        None => None,
                    },
                ),
                password: first_text(config@.prefill_password, None),
                remember_password: match known {
                    Some(profile) => profile.remember_password,
                    None => true,
                },
            }),
    {
        let (homeserver, user_id, remember_password) = match known {
            Some(profile) => (
                Some(profile.homeserver),
                Some(profile.user_id),
                profile.remember_password,
            ),
            None => (None, None, true),
        };
        LoginForm {
            homeserver: first_string(&config.prefill_homeserver, homeserver),
            user_id: first_string(&config.prefill_user_id, user_id),
            password: first_string(&config.prefill_password, None),
            remember_password,
        }
    }

    /// The form that restores the session of the last login without being shown, where that
    /// login is remembered: it holds no password.
    pub fn remembered(known: &Option<AuthProfile>) -> (form: Option<Self>)
        ensures
            match known {
                Some(profile) if profile.remember_password => form matches Some(form) && form@ == (
                LoginFormView {
                    homeserver: profile.homeserver@,
                    user_id: profile.user_id@,
                    password: Seq::empty(),
                    remember_password: true,
                }),
                _ => form is None,
            },
    {
        match known {
            Some(profile) if profile.remember_password => Some(
                LoginForm {
                    homeserver: profile.homeserver.clone(),
                    user_id: profile.user_id.clone(),
                    password: String::new(),
                    remember_password: true,
                },
            ),
            _ => None,
        }
    }

    /// What to remember of a submitted form.
    pub fn profile(&self) -> (profile: AuthProfile)
        ensures
            profile.homeserver@ == secure_url(self@.homeserver),
            profile.user_id@ == self@.user_id,
            profile.remember_password == self@.remember_password,
    {
        AuthProfile {
            homeserver: secure_homeserver_url(self.homeserver.as_str()),
            user_id: self.user_id.clone(),
            remember_password: self.remember_password,
        }
    }

    /// The session that a submitted form starts.
    pub fn session(&self, config: &DesktopConfig) -> (session: SessionConfig)
        ensures
            session.homeserver@ == secure_url(self@.homeserver),
            session.user_id@ == self@.user_id,
            session.password@ == self@.password,
            session.remember_password == self@.remember_password,
            session.data_dir@ == match config@.data_dir_override {
                Some(data_dir) => data_dir,
                None => config::account_dir(
                    DEFAULT_DATA_DIR_ROOT@,
                    secure_url(self@.homeserver),
                    self@.user_id,
                ),
            },
            session.init_config == config@.init_config,
            session.timeline_max_items == config@.timeline_max_items,
            session.paginate_limit == config@.paginate_limit,
            session.pagination_cooldown_ms == config@.pagination_cooldown_ms,
    {
        let homeserver = secure_homeserver_url(self.homeserver.as_str());
        let data_dir = config.data_dir_for_account(homeserver.as_str(), self.user_id.as_str());
        SessionConfig {
            homeserver,
            user_id: self.user_id.clone(),
            password: self.password.clone(),
            remember_password: self.remember_password,
            data_dir,
            init_config: config.init_config,
            timeline_max_items: config.timeline_max_items,
            paginate_limit: config.paginate_limit,
            pagination_cooldown_ms: config.pagination_cooldown_ms,
        }
    }
}

} // verus!
