//! What is kept on this machine, under which names, and how it is read, refused and wiped.
use vstd::prelude::*;

use super::errors;
use super::ids;
use super::local_files::{self, FileRead, FileWrite};
use super::persistence::{
    self, PassphraseSource, Removal, StoredSession, WipeStep, WipeStepView,
};
use crate::backend_core::error::BackendError;
use crate::backend_platform::SecretStoreError;
use crate::paths;
use crate::text;
use crate::text_laws;

verus! {

/// Secrets are kept by their kind and their homeserver: those of different homeservers, and of
/// different kinds, never share an account.
pub proof fn lemma_secrets_are_kept_by_homeserver(left: Seq<char>, right: Seq<char>)
    requires
        left != right,
    ensures
        local_files::session_account(left) != local_files::session_account(right),
        local_files::store_passphrase_account(left) != local_files::store_passphrase_account(
            right,
        ),
        local_files::session_account(left) != local_files::store_passphrase_account(right),
        local_files::session_account(left) != local_files::store_passphrase_account(left),
        local_files::session_account(left) == "matrix-session:"@ + left,
        local_files::store_passphrase_account(left) == "store-passphrase:"@ + left,
{
    local_files::lemma_accounts_never_coincide(left, left);
    local_files::lemma_accounts_never_coincide(right, left);
    let session = "matrix-session:"@;
    let store = "store-passphrase:"@;
    if session + left == session + right {
        assert((session + left).skip(session.len() as int) =~= left);
        assert((session + right).skip(session.len() as int) =~= right);
    }
    if store + left == store + right {
        assert((store + left).skip(store.len() as int) =~= left);
        assert((store + right).skip(store.len() as int) =~= right);
    }
}

/// The device ID of the data directory `dir/name` is kept beside it, in a hidden file named
/// after it.
pub proof fn lemma_device_id_lies_beside_its_store(dir: Seq<char>, name: Seq<char>)
    requires
        text_laws::is_plain_name(name),
        dir.len() > 0,
        dir.last() != '/',
        paths::stripped(dir) == dir,
    ensures
        local_files::device_id_hint_path(paths::joined(dir, name)) == dir + "/."@ + name
            + ".device-id-hint"@,
{
    text_laws::lemma_joined_path_is_taken_apart(dir, name);
    reveal_strlit(".");
    reveal_strlit("/");
    reveal_strlit("/.");
    let hint = "."@ + name + ".device-id-hint"@;
    assert(hint[0] == '.');
    assert(paths::joined(dir, hint) == dir + "/"@ + hint);
    assert("/."@ =~= "/"@ + "."@);
    assert(dir + "/"@ + hint =~= dir + "/."@ + name + ".device-id-hint"@);
}

/// A new store passphrase is made of the random text, and different texts make different ones.
pub proof fn lemma_passphrase_holds_the_random_text(
    uuid: &str,
    passphrase: String,
    other: &str,
    another: String,
)
    requires
        call_ensures(persistence::store_passphrase_from, (uuid,), passphrase),
        call_ensures(persistence::store_passphrase_from, (other,), another),
    ensures
        passphrase@ == "pikachat-store-"@ + uuid@,
        uuid@ != other@ ==> passphrase@ != another@,
{
    let head = "pikachat-store-"@;
    if passphrase@ == another@ {
        assert((head + uuid@).skip(head.len() as int) =~= uuid@);
        assert((head + other@).skip(head.len() as int) =~= other@);
    }
}

/// A passphrase is looked for in its file first and in the secret store then; one is made only
/// where the store says that there is none, and a failure is never passed over.
pub proof fn lemma_passphrase_is_looked_for(
    loaded: Result<Option<String>, BackendError>,
    from_file: Result<Option<PassphraseSource>, BackendError>,
    account: &str,
    answer: Result<String, SecretStoreError>,
    from_store: Result<PassphraseSource, BackendError>,
)
    requires
        call_ensures(persistence::passphrase_from_file, (loaded,), from_file),
        call_ensures(persistence::passphrase_from_secret_store, (account, answer), from_store),
    ensures
        loaded is Err ==> from_file is Err,
        loaded is Ok && loaded->Ok_0 is None ==> from_file is Ok && from_file->Ok_0 is None,
        loaded is Ok && loaded->Ok_0 is Some ==> from_file is Ok && from_file->Ok_0 == Some(
            PassphraseSource::File(loaded->Ok_0->0),
        ),
        answer is Ok ==> from_store == Ok::<PassphraseSource, BackendError>(
            PassphraseSource::SecretStore(answer->Ok_0),
        ),
        answer is Err && answer->Err_0 is NotFound ==> from_store is Ok && from_store->Ok_0
            is Generated,
        answer is Err && !(answer->Err_0 is NotFound) ==> from_store is Err,
{
}

/// What a file of a passphrase or a device ID says is its text without the white space around
/// it; an empty passphrase file is an error, an empty device ID file is like none.
pub proof fn lemma_kept_texts_are_trimmed(
    path: &str,
    read: FileRead,
    passphrase: Result<Option<String>, BackendError>,
    device_id: Result<Option<String>, BackendError>,
)
    requires
        call_ensures(local_files::load_store_passphrase_from_file, (path, read), passphrase),
        call_ensures(local_files::load_device_id_hint_from_file, (path, read), device_id),
    ensures
        read is Missing ==> passphrase is Ok && passphrase->Ok_0 is None && device_id is Ok
            && device_id->Ok_0 is None,
        read is Failed ==> passphrase is Err && device_id is Err,
        read matches FileRead::Text(raw) ==> text::trimmed(raw@).len() > 0 ==> {
            &&& passphrase is Ok && passphrase->Ok_0 is Some
            &&& passphrase->Ok_0->0@ == text::trimmed(raw@)
            &&& device_id is Ok && device_id->Ok_0 is Some
            &&& device_id->Ok_0->0@ == text::trimmed(raw@)
        },
        read matches FileRead::Text(raw) ==> text::trimmed(raw@).len() == 0 ==> {
            &&& passphrase is Err
            &&& passphrase->Err_0@.code == "store_passphrase_file_empty"@
            &&& device_id is Ok && device_id->Ok_0 is None
        },
{
}

/// Keeping a passphrase or a device ID succeeds exactly where the file was written, and a
/// failure is one of storage that names what failed.
pub proof fn lemma_kept_exactly_where_written(
    path: &str,
    write: FileWrite,
    passphrase: Result<(), BackendError>,
    device_id: Result<(), BackendError>,
)
    requires
        call_ensures(local_files::persist_store_passphrase_to_file, (path, write), passphrase),
        call_ensures(local_files::persist_device_id_hint_to_file, (path, write), device_id),
    ensures
        passphrase is Ok <==> write is Done,
        device_id is Ok <==> write is Done,
        passphrase is Err ==> passphrase->Err_0@.code == "store_passphrase_file_write_error"@
            && passphrase->Err_0@.category is Storage,
        device_id is Err ==> device_id->Err_0@.code == "device_id_hint_file_write_error"@
            && device_id->Err_0@.category is Storage,
{
}

/// A file error is one of storage, with its code, and names the path and the reason.
pub proof fn lemma_file_errors_name_the_file(
    code: Seq<char>,
    action: Seq<char>,
    path: Seq<char>,
    reason: Seq<char>,
)
    ensures
        ({
            let failure = local_files::file_error(code, action, path, reason);
            &&& failure.category is Storage
            &&& failure.code == code
            &&& failure.retry_after_ms is None
            &&& text::contains(failure.message, path)
            &&& text::contains(failure.message, reason)
            &&& text::occurs_at(failure.message, action, 0)
        }),
{
    let message = action + " "@ + path + ": "@ + reason;
    assert(message =~= (action + " "@) + path + (": "@ + reason));
    assert(message =~= (action + " "@ + path + ": "@) + reason + Seq::<char>::empty());
    text_laws::lemma_pattern_within_is_found(action + " "@, path, ": "@ + reason);
    text_laws::lemma_pattern_within_is_found(action + " "@ + path + ": "@, reason, Seq::empty());
    assert(message.subrange(0, action.len() as int) =~= action);
}

/// A persisted session is handed out with its device ID; one that cannot be read, one that is
/// not there and a store that fails are told apart.
pub proof fn lemma_session_is_loaded(
    account: &str,
    answer: Result<String, SecretStoreError>,
    result: Result<StoredSession, BackendError>,
)
    requires
        call_ensures(persistence::load_session, (account, answer), result),
    ensures
        answer is Ok ==> {
            let outcome = persistence::session_outcome(answer->Ok_0@);
            &&& result is Ok <==> outcome is Ok
            &&& result is Ok ==> result->Ok_0.raw@ == answer->Ok_0@
            &&& result is Ok ==> result->Ok_0.device_id@ == outcome->Ok_0
            &&& result is Err ==> result->Err_0@.code == "session_deserialize_error"@
            &&& result is Err ==> result->Err_0@.message == outcome->Err_0
        },
        answer is Err && answer->Err_0 is NotFound ==> result is Err && result->Err_0@.code
            == "session_not_found"@ && result->Err_0@.category is Auth,
        answer is Err && !(answer->Err_0 is NotFound) ==> result is Err && result->Err_0@
            == errors::secret_error("get_session"@, account@, answer->Err_0),
{
}

/// A session that was read is the text that was kept and the device ID that was found in it.
pub proof fn lemma_session_keeps_its_text(
    raw: String,
    outcome: Result<String, String>,
    result: Result<StoredSession, BackendError>,
)
    requires
        call_ensures(persistence::session_from, (raw, outcome), result),
    ensures
        outcome is Ok ==> result is Ok && result->Ok_0.raw@ == raw@ && result->Ok_0.device_id@
            == outcome->Ok_0@,
        outcome is Err ==> result is Err && result->Err_0@.message == outcome->Err_0@
            && result->Err_0@.category is Serialization,
{
}

/// Keeping a secret succeeds exactly where the store did; forgetting one also where there was
/// none.
pub proof fn lemma_secret_answers_follow_the_store(
    account: &str,
    answer: Result<(), SecretStoreError>,
    passphrase: Result<(), BackendError>,
    session: Result<(), BackendError>,
    cleared: Result<(), BackendError>,
)
    requires
        call_ensures(persistence::passphrase_set_answer, (account, answer), passphrase),
        call_ensures(persistence::session_set_answer, (account, answer), session),
        call_ensures(persistence::clear_persisted_session, (account, answer), cleared),
    ensures
        passphrase is Ok <==> answer is Ok,
        session is Ok <==> answer is Ok,
        cleared is Ok <==> answer is Ok || answer->Err_0 is NotFound,
        session is Err ==> session->Err_0@ == errors::secret_error(
            "set_session"@,
            account@,
            answer->Err_0,
        ),
{
}

/// A wipe removes in this order: the session, the store passphrase, the device ID, the former
/// device ID file, the data directory.
pub proof fn lemma_wipe_goes_in_order(homeserver: Seq<char>, data_dir: Seq<char>)
    ensures
        ({
            let steps = persistence::wipe_steps(homeserver, data_dir);
            &&& steps.len() == 6
            &&& steps[0] == (WipeStepView::Session { account: "matrix-session:"@ + homeserver })
            &&& steps[1] == (WipeStepView::StorePassphrase {
                account: "store-passphrase:"@ + homeserver,
            })
            &&& steps[2] == (WipeStepView::DeviceIdHint {
                path: local_files::device_id_hint_path(data_dir),
            })
            &&& steps[3] == (WipeStepView::LegacyDeviceIdHint {
                path: paths::joined(data_dir, ".pikachat-device-id"@),
            })
            &&& steps[4] == (WipeStepView::DataDir { path: data_dir })
            &&& steps[5] is Done
        }),
{
}

/// What is gone, or was not there, is followed by the next thing; a failure ends the wipe and is
/// reported.
pub proof fn lemma_wipe_goes_on_until_it_fails(
    step: WipeStep,
    removal: Removal,
    homeserver: &str,
    data_dir: &str,
    result: Result<WipeStep, BackendError>,
    first: WipeStep,
)
    requires
        call_ensures(
            persistence::next_wipe_step,
            (&step, removal, homeserver, data_dir),
            result,
        ),
        call_ensures(persistence::first_wipe_step, (homeserver,), first),
    ensures
        first is Session,
        removal is Done || removal is Missing ==> result is Ok,
        result is Ok && step is Session ==> result->Ok_0 is StorePassphrase
            && result->Ok_0->StorePassphrase_account@ == "store-passphrase:"@ + homeserver@,
        result is Ok && step is StorePassphrase ==> result->Ok_0 is DeviceIdHint
            && result->Ok_0->DeviceIdHint_path@ == local_files::device_id_hint_path(data_dir@),
        result is Ok && step is DeviceIdHint ==> result->Ok_0 is LegacyDeviceIdHint,
        result is Ok && step is LegacyDeviceIdHint ==> result->Ok_0 is DataDir
            && result->Ok_0->DataDir_path@ == data_dir@,
        result is Ok && step is DataDir ==> result->Ok_0 is Done,
        result is Ok && step is Done ==> result->Ok_0 is Done,
        removal is FileFailed && (step is DeviceIdHint || step is LegacyDeviceIdHint || step
            is DataDir) ==> result is Err,
        removal is SecretFailed && !(removal->SecretFailed_0 is NotFound) && (step is Session
            || step is StorePassphrase) ==> result is Err,
        removal is SecretFailed && removal->SecretFailed_0 is NotFound ==> result is Ok,
        removal is FileFailed && step is DataDir ==> result->Err_0@.code
            == "store_reset_failed"@,
{
}

/// A value that can be read is returned as it was read; one that cannot is refused with its
/// code, and the message names the value and the reason.
pub proof fn lemma_values_are_checked(
    text_read: Seq<char>,
    reason: Seq<char>,
    code: Seq<char>,
    noun: Seq<char>,
    value: Seq<char>,
)
    ensures
        ids::checked_value(Ok(text_read), code, noun, value) == Ok::<
            Seq<char>,
            crate::backend_core::error::BackendErrorView,
        >(text_read),
        ids::checked_value(Err(reason), code, noun, value) is Err,
        ids::checked_value(Err(reason), code, noun, value)->Err_0.code == code,
        ids::checked_value(Err(reason), code, noun, value)->Err_0.category is Config,
        text::contains(ids::checked_value(Err(reason), code, noun, value)->Err_0.message, value),
        text::contains(ids::checked_value(Err(reason), code, noun, value)->Err_0.message, reason),
        text::contains(ids::checked_value(Err(reason), code, noun, value)->Err_0.message, noun),
{
    let message = "invalid "@ + noun + " '"@ + value + "': "@ + reason;
    let to_noun = "invalid "@;
    let to_value = "invalid "@ + noun + " '"@;
    let to_reason = "invalid "@ + noun + " '"@ + value + "': "@;
    assert(message =~= to_noun + noun + (" '"@ + value + "': "@ + reason));
    assert(message =~= to_value + value + ("': "@ + reason));
    assert(message =~= to_reason + reason + Seq::<char>::empty());
    text_laws::lemma_pattern_within_is_found(to_noun, noun, " '"@ + value + "': "@ + reason);
    text_laws::lemma_pattern_within_is_found(to_value, value, "': "@ + reason);
    text_laws::lemma_pattern_within_is_found(to_reason, reason, Seq::empty());
}

/// Room, event and user IDs are accepted exactly where they can be read as such, and refused
/// with codes of their own.
pub proof fn lemma_identifiers_are_read_as_what_they_are(
    value: &str,
    room: Result<String, BackendError>,
    event: Result<String, BackendError>,
    user: Result<String, BackendError>,
    content_type: Result<String, BackendError>,
)
    requires
        call_ensures(ids::parse_room_id, (value,), room),
        call_ensures(ids::parse_event_id, (value,), event),
        call_ensures(ids::parse_user_id, (value,), user),
        call_ensures(ids::parse_media_content_type, (value,), content_type),
    ensures
        room is Ok <==> ids::room_id_outcome(value@) is Ok,
        event is Ok <==> ids::event_id_outcome(value@) is Ok,
        user is Ok <==> ids::user_id_outcome(value@) is Ok,
        content_type is Ok <==> ids::content_type_outcome(value@) is Ok,
        room is Ok ==> room->Ok_0@ == value@,
        event is Ok ==> event->Ok_0@ == value@,
        user is Ok ==> user->Ok_0@ == value@,
        content_type is Ok ==> Ok::<Seq<char>, Seq<char>>(content_type->Ok_0@)
            == ids::content_type_outcome(value@),
        room is Err ==> room->Err_0@.code == "invalid_room_id"@,
        event is Err ==> event->Err_0@.code == "invalid_event_id"@,
        user is Err ==> user->Err_0@.code == "invalid_user_id"@,
        content_type is Err ==> content_type->Err_0@.code == "invalid_media_content_type"@,
{
}

/// A content URI is accepted exactly where it is valid and its server name's length is
/// supported.
pub proof fn lemma_content_uris_are_checked(value: &str, uri: Result<String, BackendError>)
    requires
        call_ensures(ids::parse_mxc_uri, (value,), uri),
    ensures
        uri is Ok <==> ids::mxc_uri_outcome(value@) is Ok && !ids::has_unsupported_length(value@),
        uri is Ok ==> uri->Ok_0@ == value@,
        uri is Err ==> uri->Err_0@.code == "invalid_mxc_uri"@,
{
}

/// A content URI has an unsupported length exactly where the slash behind its server name stands
/// at a multiple of 256; text that is no content URI has none.
pub proof fn lemma_unsupported_lengths_are_known(
    server: Seq<char>,
    media_id: Seq<char>,
    other: Seq<char>,
)
    requires
        !server.contains('/'),
        ids::server_name_outcome(server) is Ok,
        forall|i: int|
            0 <= i < media_id.len() ==> 'a' <= #[trigger] media_id[i] <= 'z' || '0' <= media_id[i]
                <= '9' || 'A' <= media_id[i] <= 'Z' || media_id[i] == '-' || media_id[i] == '_',
    ensures
        ids::has_unsupported_length("mxc://"@ + server + "/"@ + media_id) <==> (server.len() + 6)
            % 256 == 0,
        !text::occurs_at(other, "mxc://"@, 0) ==> !ids::has_unsupported_length(other),
        forall|rest: Seq<char>|
            rest.len() > 0 && rest[0] == '.' ==> !(#[trigger] ids::has_unsupported_length(
                "mxc://"@ + server + "/"@ + rest,
            )),
{
    reveal_strlit("mxc://");
    reveal_strlit("/");
    lemma_uri_is_taken_apart(server, media_id);
    assert forall|rest: Seq<char>| rest.len() > 0 && rest[0] == '.' implies !(
    #[trigger] ids::has_unsupported_length("mxc://"@ + server + "/"@ + rest)) by {
        lemma_uri_is_taken_apart(server, rest);
        assert(!ids::is_media_id_char(rest[0]));
    }
}

proof fn lemma_uri_is_taken_apart(server: Seq<char>, media_id: Seq<char>)
    requires
        !server.contains('/'),
    ensures
        ({
            let value = "mxc://"@ + server + "/"@ + media_id;
            &&& text::occurs_at(value, "mxc://"@, 0)
            &&& text::contains(value.skip(6), "/"@)
            &&& text::before_first(value.skip(6), "/"@) == server
            &&& text::after_first(value.skip(6), "/"@) == Some(media_id)
        }),
{
    reveal_strlit("mxc://");
    reveal_strlit("/");
    let value = "mxc://"@ + server + "/"@ + media_id;
    let rest = server + "/"@ + media_id;
    assert(value.subrange(0, 6) =~= "mxc://"@);
    assert(value.skip(6) =~= rest);
    let at = server.len() as int;
    assert(rest.subrange(at, at + 1) =~= "/"@);
    assert forall|earlier: int| 0 <= earlier < at implies !text::occurs_at(
        rest,
        "/"@,
        earlier,
    ) by {
        assert(rest.subrange(earlier, earlier + 1)[0] == server[earlier]);
        assert(server.contains(server[earlier]));
    }
    text::lemma_first_index(rest, "/"@, at);
    assert(rest.take(at) =~= server);
    assert(rest.skip(at + 1) =~= media_id);
}

/// A content URI that is refused for its length says so.
pub proof fn lemma_unsupported_length_is_told(value: Seq<char>, outcome: Result<Seq<char>, Seq<char>>)
    requires
        ids::has_unsupported_length(value),
    ensures
        ids::checked_mxc_uri(value, outcome) is Err,
        text::contains(
            ids::checked_mxc_uri(value, outcome)->Err_0.message,
            "the server name has an unsupported length"@,
        ),
{
    lemma_values_are_checked(
        Seq::empty(),
        "the server name has an unsupported length"@,
        "invalid_mxc_uri"@,
        "mxc uri"@,
        value,
    );
}

/// Failed writes say which file could not be written and why.
pub proof fn lemma_failed_writes_say_what_failed(
    code: Seq<char>,
    noun: Seq<char>,
    path: Seq<char>,
    reason: String,
    dir: String,
)
    ensures
        ({
            let failed = local_files::write_answer(
                code,
                noun,
                path,
                FileWrite::Failed { reason },
            );
            let no_dir = local_files::write_answer(
                code,
                noun,
                path,
                FileWrite::DirectoryFailed { dir, reason },
            );
            &&& local_files::write_answer(code, noun, path, FileWrite::Done) is Ok
            &&& failed is Err
            &&& failed->Err_0.message == "failed writing "@ + noun + " file"@ + " "@ + path + ": "@
                + reason@
            &&& no_dir is Err
            &&& no_dir->Err_0.message == "failed creating data dir"@ + " "@ + dir@ + ": "@
                + reason@
        }),
{
}

/// A random UUID has its hyphens, its version and its variant where they belong.
pub proof fn lemma_random_uuids_have_their_form(uuid: Seq<char>)
    requires
        persistence::is_random_uuid(uuid),
    ensures
        uuid.len() == 36,
        uuid[8] == '-' && uuid[13] == '-' && uuid[18] == '-' && uuid[23] == '-',
        uuid[14] == '4',
        forall|i: int|
            0 <= i < 36 && i != 8 && i != 13 && i != 18 && i != 23 ==> '0' <= #[trigger] uuid[i]
                <= '9' || 'a' <= uuid[i] <= 'f',
{
}

/// A wipe that fails says what could not be removed.
pub proof fn lemma_failed_wipes_say_what_failed(path: Seq<char>, reason: String)
    ensures
        ({
            let removal = Removal::FileFailed(reason);
            let hint = persistence::removal_error(WipeStepView::DeviceIdHint { path }, removal);
            let former = persistence::removal_error(
                WipeStepView::LegacyDeviceIdHint { path },
                removal,
            );
            let store = persistence::removal_error(WipeStepView::DataDir { path }, removal);
            let told = " "@ + path + ": "@ + reason@;
            &&& hint is Some
            &&& hint->0.message == "failed deleting device-id hint file"@ + told
            &&& hint->0.code == "device_id_hint_file_delete_error"@
            &&& former is Some
            &&& former->0.message == "failed deleting legacy device-id hint file"@ + told
            &&& store is Some
            &&& store->0.message == "failed clearing matrix data dir"@ + told
            &&& store->0.code == "store_reset_failed"@
        }),
{
    let told = " "@ + path + ": "@ + reason@;
    let first = "failed deleting device-id hint file"@;
    let second = "failed deleting legacy device-id hint file"@;
    let third = "failed clearing matrix data dir"@;
    assert(first + " "@ + path + ": "@ + reason@ =~= first + told);
    assert(second + " "@ + path + ": "@ + reason@ =~= second + told);
    assert(third + " "@ + path + ": "@ + reason@ =~= third + told);
}

} // verus!
