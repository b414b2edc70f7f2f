//! What each setting does, and what a submitted login form leads to.
use vstd::prelude::*;

use super::auth_profile::{self, AuthProfile, FileRemoval, ProfileStep};
use super::bridge::SessionConfig;
use super::config::{self, ConfigError, DesktopConfig, ThresholdReading};
use super::login_form::{self, LoginForm};
use crate::backend_matrix::local_files::{FileRead, FileWrite};
use crate::paths;
use crate::text;
use crate::text_map::TextMap;

verus! {

/// A variable is taken without the white space around it; a blank one counts as not set.
pub proof fn lemma_variables_are_trimmed(vars: Map<Seq<char>, String>, key: Seq<char>)
    ensures
        !vars.dom().contains(key) ==> config::trimmed_value(vars, key) is None,
        vars.dom().contains(key) && text::trimmed(vars[key]@).len() == 0 ==> config::trimmed_value(
            vars,
            key,
        ) is None,
        vars.dom().contains(key) && text::trimmed(vars[key]@).len() > 0 ==> config::trimmed_value(
            vars,
            key,
        ) == Some(text::trimmed(vars[key]@)),
{
}

/// A variable that holds a number gives that number; one that is not set gives none; any other
/// is refused with its name and its value.
pub proof fn lemma_numbers_are_taken_as_written(
    vars: Map<Seq<char>, String>,
    key: Seq<char>,
    number: nat,
    largest: nat,
)
    requires
        number <= largest,
    ensures
        !vars.dom().contains(key) ==> config::number_value(vars, key, largest) == Ok::<
            Option<nat>,
            config::InvalidValueView,
        >(None),
        vars.dom().contains(key) && vars[key]@ == text::decimal(number) ==> config::number_value(
            vars,
            key,
            largest,
        ) == Ok::<Option<nat>, config::InvalidValueView>(Some(number)),
        vars.dom().contains(key) && text::read_number(vars[key]@, largest) is Err
            ==> config::number_value(vars, key, largest) is Err && config::number_value(
            vars,
            key,
            largest,
        )->Err_0.key == key && config::number_value(vars, key, largest)->Err_0.value
            == vars[key]@,
{
    crate::text_laws::lemma_written_number_is_read(number, largest);
}

/// Whether a variable is set to a number.
pub open spec fn is_set_to(
    vars: Map<Seq<char>, String>,
    key: Seq<char>,
    number: nat,
) -> bool {
    vars.dom().contains(key) && vars[key]@ == text::decimal(number)
}

/// Without any variable the client runs with its defaults: nothing is filled in, the backend is
/// not tuned, a timeline keeps 1200 items, a page has 30 events and pages are 750 milliseconds
/// apart.
pub proof fn lemma_defaults_hold_without_variables(
    vars: TextMap<String>,
    result: Result<DesktopConfig, ConfigError>,
)
    requires
        call_ensures(DesktopConfig::from_lookup, (&vars, &ThresholdReading::Unset), result),
        forall|key: Seq<char>| !vars@.dom().contains(key),
    ensures
        result is Ok,
        result->Ok_0.prefill_homeserver is None,
        result->Ok_0.prefill_user_id is None,
        result->Ok_0.prefill_password is None,
        result->Ok_0.data_dir_override is None,
        result->Ok_0.init_config is None,
        result->Ok_0.timeline_max_items == 1200,
        result->Ok_0.paginate_limit == 30,
        result->Ok_0.pagination_cooldown_ms == 750,
        result->Ok_0.pagination_top_threshold_bits == 0x42A0_0000,
{
    let view = result->Ok_0@;
    assert(view.prefill_homeserver is None);
    assert(view.prefill_user_id is None);
    assert(view.prefill_password is None);
    assert(view.data_dir_override is None);
}

/// A configuration that is accepted has every setting as its variable says.
pub proof fn lemma_settings_are_as_set(
    vars: TextMap<String>,
    threshold: ThresholdReading,
    result: Result<DesktopConfig, ConfigError>,
    number: nat,
)
    requires
        call_ensures(DesktopConfig::from_lookup, (&vars, &threshold), result),
        result is Ok,
    ensures
        result->Ok_0@.prefill_homeserver == config::trimmed_value(
            vars@,
            "PIKACHAT_HOMESERVER"@,
        ),
        result->Ok_0@.prefill_user_id == config::trimmed_value(vars@, "PIKACHAT_USER"@),
        result->Ok_0@.prefill_password == config::trimmed_value(vars@, "PIKACHAT_PASSWORD"@),
        result->Ok_0@.data_dir_override == config::trimmed_value(vars@, "PIKACHAT_DATA_DIR"@),
        is_set_to(vars@, "PIKACHAT_DESKTOP_TIMELINE_MAX_ITEMS"@, number) && number <= usize::MAX
            ==> result->Ok_0.timeline_max_items == number,
        is_set_to(vars@, "PIKACHAT_DESKTOP_PAGINATE_LIMIT"@, number) && number <= u16::MAX
            ==> result->Ok_0.paginate_limit == number,
        is_set_to(vars@, "PIKACHAT_DESKTOP_PAGINATION_COOLDOWN_MS"@, number) && number <= u64::MAX
            ==> result->Ok_0.pagination_cooldown_ms == number,
        is_set_to(vars@, "PIKACHAT_SYNC_REQUEST_TIMEOUT_MS"@, number) && number <= u64::MAX
            ==> result->Ok_0.init_config is Some
            && result->Ok_0.init_config->0.sync_request_timeout_ms == Some(number as u64),
        is_set_to(vars@, "PIKACHAT_OPEN_ROOM_LIMIT"@, number) && number <= u16::MAX
            ==> result->Ok_0.init_config is Some
            && result->Ok_0.init_config->0.default_open_room_limit == Some(number as u16),
        is_set_to(vars@, "PIKACHAT_PAGINATION_LIMIT_CAP"@, number) && number <= u16::MAX
            ==> result->Ok_0.init_config is Some
            && result->Ok_0.init_config->0.pagination_limit_cap == Some(number as u16),
        threshold matches ThresholdReading::Positive { bits }
            ==> result->Ok_0.pagination_top_threshold_bits == bits,
        result->Ok_0.timeline_max_items >= 1,
        result->Ok_0.paginate_limit >= 1,
{
    if number <= usize::MAX {
        crate::text_laws::lemma_written_number_is_read(number, usize::MAX as nat);
    }
    if number <= u16::MAX {
        crate::text_laws::lemma_written_number_is_read(number, u16::MAX as nat);
    }
    if number <= u64::MAX {
        crate::text_laws::lemma_written_number_is_read(number, u64::MAX as nat);
    }
}

/// A page or a timeline of nothing is refused, and so is a threshold that is not positive or no
/// number; a variable that is no number is refused too.
pub proof fn lemma_bad_settings_are_refused(
    vars: TextMap<String>,
    threshold: ThresholdReading,
    result: Result<DesktopConfig, ConfigError>,
)
    requires
        call_ensures(DesktopConfig::from_lookup, (&vars, &threshold), result),
    ensures
        is_set_to(vars@, "PIKACHAT_DESKTOP_PAGINATE_LIMIT"@, 0) ==> result is Err,
        is_set_to(vars@, "PIKACHAT_DESKTOP_TIMELINE_MAX_ITEMS"@, 0) ==> result is Err,
        threshold is NotPositive ==> result is Err,
        threshold is Invalid ==> result is Err,
        vars@.dom().contains("PIKACHAT_DESKTOP_PAGINATE_LIMIT"@) && text::read_number(
            vars@["PIKACHAT_DESKTOP_PAGINATE_LIMIT"@]@,
            u16::MAX as nat,
        ) is Err ==> result is Err,
        vars@.dom().contains("PIKACHAT_SYNC_REQUEST_TIMEOUT_MS"@) && text::read_number(
            vars@["PIKACHAT_SYNC_REQUEST_TIMEOUT_MS"@]@,
            u64::MAX as nat,
        ) is Err ==> result is Err && result->Err_0@.key == "PIKACHAT_SYNC_REQUEST_TIMEOUT_MS"@,
{
    crate::text_laws::lemma_written_number_is_read(0, usize::MAX as nat);
    crate::text_laws::lemma_written_number_is_read(0, u16::MAX as nat);
}

/// An error names the variable, its value and the reason.
pub proof fn lemma_config_error_says_what_is_wrong(error: ConfigError, message: String)
    requires
        call_ensures(ConfigError::to_text, (&error,), message),
    ensures
        text::contains(message@, error@.key),
        text::contains(message@, error@.value),
        text::contains(message@, error@.reason),
{
    let key = error@.key;
    let value = error@.value;
    let reason = error@.reason;
    let first = "invalid "@;
    let second = "='"@;
    let third = "': "@;
    assert(message@ =~= first + key + (second + value + third + reason));
    assert(message@ =~= (first + key + second) + value + (third + reason));
    assert(message@ =~= (first + key + second + value + third) + reason + Seq::<char>::empty());
    crate::text_laws::lemma_pattern_within_is_found(first, key, second + value + third + reason);
    crate::text_laws::lemma_pattern_within_is_found(first + key + second, value, third + reason);
    crate::text_laws::lemma_pattern_within_is_found(
        first + key + second + value + third,
        reason,
        Seq::empty(),
    );
}

/// A fixed data directory is used for every account, is where the profile lies, and is what a
/// logout wipes. Without one the accounts have directories of their own below the default one.
pub proof fn lemma_data_directory_is_chosen(
    settings: DesktopConfig,
    homeserver: &str,
    user_id: &str,
    path: String,
    profile: String,
    targets: Vec<String>,
)
    requires
        call_ensures(
            DesktopConfig::data_dir_for_account,
            (&settings, homeserver, user_id),
            path,
        ),
        call_ensures(DesktopConfig::auth_profile_path, (&settings,), profile),
        call_ensures(DesktopConfig::logout_wipe_targets, (&settings,), targets),
    ensures
        targets@.len() == 1,
        settings.data_dir_override matches Some(data_dir) ==> {
            &&& path@ == data_dir@
            &&& profile@ == paths::joined(data_dir@, ".pikachat-login-profile.json"@)
            &&& targets@[0]@ == data_dir@
        },
        settings.data_dir_override is None ==> {
            &&& path@ == config::account_dir("./.pikachat-desktop-store"@, homeserver@, user_id@)
            &&& profile@ == paths::joined(
                "./.pikachat-desktop-store"@,
                ".pikachat-login-profile.json"@,
            )
            &&& targets@[0]@ == "./.pikachat-desktop-store"@
        },
{
}

/// The directory of an account is named by its homeserver and, below that, by its user.
pub proof fn lemma_account_directory_is_named(
    root: Seq<char>,
    homeserver: Seq<char>,
    user_id: Seq<char>,
)
    requires
        root.len() > 0,
        root.last() != '/',
    ensures
        config::account_dir(root, homeserver, user_id) == root + "/hs-"@ + config::slug(
            homeserver,
            64,
        ) + "/user-"@ + config::slug(user_id, 64),
{
    reveal_strlit("/");
    reveal_strlit("hs-");
    reveal_strlit("user-");
    reveal_strlit("/hs-");
    reveal_strlit("/user-");
    let server = "hs-"@ + config::slug(homeserver, 64);
    let user = "user-"@ + config::slug(user_id, 64);
    config::lemma_slug_is_a_directory_name(homeserver, 64);
    let above = root + "/"@ + server;
    assert(server.last() == config::slug(homeserver, 64).last());
    assert(config::slug(homeserver, 64).contains(config::slug(homeserver, 64).last()));
    assert(paths::joined(root, server) == above);
    assert(above.last() == server.last());
    assert(paths::joined(above, user) == above + "/"@ + user);
    assert("/"@ + server =~= "/hs-"@ + config::slug(homeserver, 64));
    assert("/"@ + user =~= "/user-"@ + config::slug(user_id, 64));
    assert(above + "/"@ + user =~= root + "/hs-"@ + config::slug(homeserver, 64) + "/user-"@
        + config::slug(user_id, 64));
}

/// Letters and digits stand for themselves in a slug, in lower case; a text of nothing else is
/// cut at the limit and otherwise kept whole.
pub proof fn lemma_plain_text_is_its_own_slug(input: Seq<char>, max_len: nat)
    requires
        max_len >= 1,
        forall|i: int| 0 <= i < input.len() ==> config::is_slug_letter(#[trigger] input[i]),
    ensures
        input.len() == 0 ==> config::slug(input, max_len) == "default"@,
        input.len() > 0 ==> config::slug(input, max_len) == text::lowered(
            text::at_most(input, max_len),
        ),
{
    lemma_slug_chars_of_letters(input);
    let few = text::at_most(config::slug_chars(input), max_len);
    assert(few =~= text::lowered(text::at_most(input, max_len)));
    if input.len() > 0 {
        assert(few[0] == text::lower(input[0]));
        assert(few.last() == text::lower(input[few.len() - 1]));
        assert(config::no_leading_underscores(few) == few);
        assert(config::no_trailing_underscores(few) == few);
    } else {
        assert(few =~= Seq::<char>::empty());
    }
}

proof fn lemma_slug_chars_of_letters(input: Seq<char>)
    requires
        forall|i: int| 0 <= i < input.len() ==> config::is_slug_letter(#[trigger] input[i]),
    ensures
        config::slug_chars(input) == text::lowered(input),
    decreases input.len(),
{
    if input.len() > 0 {
        let front = input.drop_last();
        assert forall|i: int| 0 <= i < front.len() implies config::is_slug_letter(
            #[trigger] front[i],
        ) by {
            assert(front[i] == input[i]);
        }
        lemma_slug_chars_of_letters(front);
        assert(input.last() == input[input.len() - 1]);
        assert(config::slug_char(input.last()) == text::lower(input.last()));
        assert(config::slug_chars(input) =~= text::lowered(input));
    } else {
        assert(config::slug_chars(input) =~= text::lowered(input));
    }
}

/// Any other character is an underscore between the parts of a slug.
pub proof fn lemma_other_characters_separate(c: char)
    ensures
        !config::is_slug_letter(c) ==> config::slug_char(c) == '_',
        'a' <= c <= 'z' || '0' <= c <= '9' ==> config::slug_char(c) == c,
        'A' <= c <= 'Z' ==> config::slug_char(c) as int == c as int + 32,
        c == ':' || c == '/' || c == '.' || c == '@' || c == '-' ==> config::slug_char(c) == '_',
{
}

/// Whatever scheme was typed, the homeserver is reached by the secure one.
pub proof fn lemma_any_scheme_is_secured(host: Seq<char>)
    requires
        text::trimmed(host) == host,
        host.len() > 0,
        !text::contains(host, "://"@),
    ensures
        login_form::secure_url(host) == "https://"@ + host,
        login_form::secure_url("http://"@ + host) == "https://"@ + host,
        login_form::secure_url("https://"@ + host) == "https://"@ + host,
{
    reveal_strlit("http://");
    reveal_strlit("https://");
    reveal_strlit("://");
    text::lemma_trimmed_is_within(host);
    reveal_strlit("http");
    reveal_strlit("https");
    lemma_scheme_is_cut("http"@, host);
    lemma_scheme_is_cut("https"@, host);
    assert("http"@ + "://"@ + host =~= "http://"@ + host);
    assert("https"@ + "://"@ + host =~= "https://"@ + host);
}

proof fn lemma_scheme_is_cut(scheme: Seq<char>, host: Seq<char>)
    requires
        scheme.len() > 0,
        forall|i: int| 0 <= i < scheme.len() ==> 'a' <= #[trigger] scheme[i] <= 'z',
        text::trimmed(host) == host,
        host.len() > 0,
    ensures
        login_form::secure_url(scheme + "://"@ + host) == "https://"@ + host,
{
    reveal_strlit("://");
    let typed = scheme + "://"@ + host;
    let at = scheme.len() as int;
    text::lemma_trimmed_is_within(host);
    assert(typed[0] == scheme[0]);
    assert(typed.last() == host.last());
    assert(text::trimmed(typed) == typed);
    assert(typed.subrange(at, at + 3) =~= "://"@);
    assert forall|earlier: int| 0 <= earlier < at implies !text::occurs_at(
        typed,
        "://"@,
        earlier,
    ) by {
        assert(typed.subrange(earlier, earlier + 3)[0] == typed[earlier]);
        assert(typed[earlier] == scheme[earlier]);
    }
    text::lemma_first_index(typed, "://"@, at);
    assert(typed.skip(at + 3) =~= host);
}

/// A submitted form starts a session for the account that was typed, with the settings of the
/// configuration; and it is remembered without the password.
pub proof fn lemma_form_starts_its_session(
    form: LoginForm,
    settings: DesktopConfig,
    session: SessionConfig,
    profile: AuthProfile,
)
    requires
        call_ensures(LoginForm::session, (&form, &settings), session),
        call_ensures(LoginForm::profile, (&form,), profile),
    ensures
        session.homeserver@ == login_form::secure_url(form.homeserver@),
        session.user_id@ == form.user_id@,
        session.password@ == form.password@,
        session.remember_password == form.remember_password,
        session.timeline_max_items == settings.timeline_max_items,
        session.paginate_limit == settings.paginate_limit,
        session.pagination_cooldown_ms == settings.pagination_cooldown_ms,
        session.init_config == settings.init_config,
        settings.data_dir_override matches Some(data_dir) ==> session.data_dir@ == data_dir@,
        profile.homeserver@ == session.homeserver@,
        profile.user_id@ == form.user_id@,
        profile.remember_password == form.remember_password,
{
}

/// The form is filled from the configuration first, and else from the last login; a password is
/// filled in from the configuration alone. A remembered login needs no form, and no other login
/// goes without one.
pub proof fn lemma_form_is_filled_in_order(
    settings: DesktopConfig,
    known: Option<AuthProfile>,
    form: LoginForm,
    remembered: Option<LoginForm>,
)
    requires
        call_ensures(LoginForm::prefilled, (&settings, known), form),
        call_ensures(LoginForm::remembered, (&known,), remembered),
    ensures
        settings.prefill_homeserver matches Some(homeserver) ==> form.homeserver@ == homeserver@,
        settings.prefill_user_id matches Some(user_id) ==> form.user_id@ == user_id@,
        settings.prefill_password matches Some(password) ==> form.password@ == password@,
        settings.prefill_password is None ==> form.password@.len() == 0,
        settings.prefill_homeserver is None && known is Some ==> form.homeserver@
            == known->0.homeserver@,
        settings.prefill_user_id is None && known is Some ==> form.user_id@ == known->0.user_id@,
        known is Some ==> form.remember_password == known->0.remember_password,
        known is None ==> form.remember_password,
        settings.prefill_homeserver is None && known is None ==> form.homeserver@.len() == 0,
        remembered is Some <==> known is Some && known->0.remember_password,
        remembered matches Some(silent) ==> silent.homeserver@ == known->0.homeserver@
            && silent.user_id@ == known->0.user_id@ && silent.password@.len() == 0
            && silent.remember_password,
{
}

/// The profile's file is handed out as it is, a missing one is none, and every failure names the
/// file and the reason, and is told from the others.
pub proof fn lemma_profile_failures_are_told(
    step: ProfileStep,
    other: ProfileStep,
    path: Seq<char>,
    reason: Seq<char>,
)
    ensures
        text::contains(auth_profile::step_error(step, path, reason), path),
        text::contains(auth_profile::step_error(step, path, reason), reason),
        auth_profile::step_text(step) == auth_profile::step_text(other) <==> step == other,
{
    let head = auth_profile::step_text(step);
    let message = auth_profile::step_error(step, path, reason);
    assert(message =~= head + path + (": "@ + reason));
    assert(message =~= (head + path + ": "@) + reason + Seq::<char>::empty());
    crate::text_laws::lemma_pattern_within_is_found(head, path, ": "@ + reason);
    crate::text_laws::lemma_pattern_within_is_found(head + path + ": "@, reason, Seq::empty());
    reveal_strlit("failed reading auth profile ");
    reveal_strlit("failed parsing auth profile ");
    reveal_strlit("failed creating auth profile directory ");
    reveal_strlit("failed writing auth profile ");
    reveal_strlit("failed deleting auth profile ");
    assert("failed reading auth profile "@[7] == 'r');
    assert("failed parsing auth profile "@[7] == 'p');
    assert("failed creating auth profile directory "@[7] == 'c');
    assert("failed writing auth profile "@[7] == 'w');
    assert("failed deleting auth profile "@[7] == 'd');
}

/// Loading, saving and clearing a profile succeed exactly where the file did.
pub proof fn lemma_profile_follows_its_file(
    path: &str,
    read: FileRead,
    loaded: Result<Option<String>, String>,
    write: FileWrite,
    saved: Result<(), String>,
    removal: FileRemoval,
    cleared: Result<(), String>,
)
    requires
        call_ensures(auth_profile::load_auth_profile, (path, read), loaded),
        call_ensures(auth_profile::save_auth_profile, (path, write), saved),
        call_ensures(auth_profile::clear_auth_profile, (path, removal), cleared),
    ensures
        read matches FileRead::Text(content) ==> loaded == Ok::<Option<String>, String>(
            Some(content),
        ),
        read is Missing ==> loaded is Ok && loaded->Ok_0 is None,
        read is Failed ==> loaded is Err,
        saved is Ok <==> write is Done,
        cleared is Err <==> removal is Failed,
{
}

/// A page or a timeline of nothing, and a threshold that is not positive, are refused by the
/// name of the variable, with what was given and what is wrong with it.
pub proof fn lemma_refused_settings_are_named(
    vars: TextMap<String>,
    threshold: ThresholdReading,
    result: Result<DesktopConfig, ConfigError>,
)
    requires
        call_ensures(DesktopConfig::from_lookup, (&vars, &threshold), result),
    ensures
        config::first_unreadable(vars@, threshold) is None && is_set_to(
            vars@,
            "PIKACHAT_DESKTOP_PAGINATE_LIMIT"@,
            0,
        ) ==> result is Err && result->Err_0@.key == "PIKACHAT_DESKTOP_PAGINATE_LIMIT"@
            && result->Err_0@.value == "0"@ && result->Err_0@.reason == "must be at least 1"@,
        config::first_unreadable(vars@, threshold) is None && is_set_to(
            vars@,
            "PIKACHAT_DESKTOP_TIMELINE_MAX_ITEMS"@,
            0,
        ) && !is_set_to(vars@, "PIKACHAT_DESKTOP_PAGINATE_LIMIT"@, 0) && (!vars@.dom().contains(
            "PIKACHAT_DESKTOP_PAGINATE_LIMIT"@,
        )) ==> result is Err && result->Err_0@.key == "PIKACHAT_DESKTOP_TIMELINE_MAX_ITEMS"@
            && result->Err_0@.value == "0"@ && result->Err_0@.reason == "must be at least 1"@,
        (forall|key: Seq<char>| !vars@.dom().contains(key)) ==> (threshold
            matches ThresholdReading::NotPositive { value } ==> result is Err
            && result->Err_0@.key == "PIKACHAT_DESKTOP_PAGINATION_TOP_THRESHOLD_PX"@
            && result->Err_0@.value == value@ && result->Err_0@.reason
            == "must be greater than 0"@),
        (forall|key: Seq<char>| !vars@.dom().contains(key)) ==> (threshold
            matches ThresholdReading::Invalid { value, reason } ==> result is Err
            && result->Err_0@.key == "PIKACHAT_DESKTOP_PAGINATION_TOP_THRESHOLD_PX"@
            && result->Err_0@.value == value@ && result->Err_0@.reason == reason@),
{
    crate::text_laws::lemma_written_number_is_read(0, usize::MAX as nat);
    crate::text_laws::lemma_written_number_is_read(0, u16::MAX as nat);
}

} // verus!
