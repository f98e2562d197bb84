//! Laws of views: what the contracts see of actions, answers and records is what these hold.

use vstd::prelude::*;
use crate::assets::Asset;
use crate::gate::Caller;
use crate::json::json_tree;
use crate::protocol::{
    Action, ActionView, Answer, AnswerView, Next, NextView, SessionEntry, ShareFile, UserStats,
};
use crate::session::UserSession;
use crate::storage::CompletedPart;
use crate::wire::HeaderLine;

verus! {

/// What is seen of an action is every part of it.
pub proof fn actions_are_seen_as_they_are(x: Action)
    ensures
        match x {
            Action::Get { key } => x@ matches ActionView::Get { key: v_key } && v_key == key@,
            Action::GetSessions { key } => {
                x@ matches ActionView::GetSessions { key: v_key }
                    && v_key == key@
            },
            Action::Put { key, content_type, body } => {
                x@ matches ActionView::Put {
                    key: v_key,
                    content_type: v_content_type,
                    body: v_body,
                }
                    && v_key == key@
                    && v_content_type == content_type@
                    && v_body == body@
            },
            Action::PutInBackground { key, content_type, body } => {
                x@ matches ActionView::PutInBackground {
                    key: v_key,
                    content_type: v_content_type,
                    body: v_body,
                }
                    && v_key == key@
                    && v_content_type == content_type@
                    && v_body == body@
            },
            Action::PutSessions { key, sessions } => {
                x@ matches ActionView::PutSessions { key: v_key, sessions: v_sessions }
                    && v_key == key@
                    && v_sessions.len() == sessions@.len()
                    && (forall|i: int|
                        0 <= i < sessions@.len()
                            ==> #[trigger] v_sessions[i] == sessions@[i]@)
            },
            Action::Head { key } => x@ matches ActionView::Head { key: v_key } && v_key == key@,
            Action::Delete { key } => x@ matches ActionView::Delete { key: v_key } && v_key == key@,
            Action::DeleteBatch { keys } => {
                x@ matches ActionView::DeleteBatch { keys: v_keys }
                    && v_keys.len() == keys@.len()
                    && (forall|i: int|
                        0 <= i < keys@.len()
                            ==> #[trigger] v_keys[i] == keys@[i]@)
            },
            Action::ListAll { prefix } => {
                x@ matches ActionView::ListAll { prefix: v_prefix }
                    && v_prefix == prefix@
            },
            Action::ListPage { prefix } => {
                x@ matches ActionView::ListPage { prefix: v_prefix }
                    && v_prefix == prefix@
            },
            Action::ListUploads { prefix } => {
                x@ matches ActionView::ListUploads { prefix: v_prefix }
                    && v_prefix == prefix@
            },
            Action::CreateUpload { key, content_type } => {
                x@ matches ActionView::CreateUpload { key: v_key, content_type: v_content_type }
                    && v_key == key@
                    && v_content_type == content_type@
            },
            Action::UploadPart { key, upload_id, part_number } => {
                x@ matches ActionView::UploadPart {
                    key: v_key,
                    upload_id: v_upload_id,
                    part_number: v_part_number,
                }
                    && v_key == key@
                    && v_upload_id == upload_id@
                    && v_part_number == part_number as int
            },
            Action::CompleteUpload { key, upload_id, parts } => {
                x@ matches ActionView::CompleteUpload {
                    key: v_key,
                    upload_id: v_upload_id,
                    parts: v_parts,
                }
                    && v_key == key@
                    && v_upload_id == upload_id@
                    && v_parts.len() == parts@.len()
                    && (forall|i: int|
                        0 <= i < parts@.len()
                            ==> #[trigger] v_parts[i] == parts@[i]@)
            },
            Action::AbortUpload { key, upload_id } => {
                x@ matches ActionView::AbortUpload { key: v_key, upload_id: v_upload_id }
                    && v_key == key@
                    && v_upload_id == upload_id@
            },
            Action::NextField => x@ is NextField,
            Action::StoreField { key, content_type } => {
                x@ matches ActionView::StoreField { key: v_key, content_type: v_content_type }
                    && v_key == key@
                    && v_content_type == content_type@
            },
            Action::Fetch { key, range } => {
                x@ matches ActionView::Fetch { key: v_key, range: v_range }
                    && v_key == key@
                    && v_range == (match range {
                        Some(t) => Some(t@),
                        None => None,
                    })
            },
            Action::FreshId => x@ is FreshId,
            Action::FreshSecret => x@ is FreshSecret,
            Action::Clock => x@ is Clock,
        },
{
}

/// What is seen of an answer is every part of it.
pub proof fn answers_are_seen_as_they_are(x: Answer)
    ensures
        match x {
            Answer::Refused { status, message } => {
                x@ matches AnswerView::Refused { status: v_status, message: v_message }
                    && v_status == status as int
                    && v_message == message@
            },
            Answer::Success => x@ is Success,
            Answer::Status { status } => {
                x@ matches AnswerView::Status { status: v_status }
                    && v_status == status@
            },
            Answer::ShareUploaded { uuid, files } => {
                x@ matches AnswerView::ShareUploaded { uuid: v_uuid, files: v_files }
                    && v_uuid == uuid@
                    && v_files.len() == files@.len()
                    && (forall|i: int|
                        0 <= i < files@.len()
                            ==> #[trigger] v_files[i] == files@[i]@)
            },
            Answer::ShareBegun { uuid } => {
                x@ matches AnswerView::ShareBegun { uuid: v_uuid }
                    && v_uuid == uuid@
            },
            Answer::FilesStored { files } => {
                x@ matches AnswerView::FilesStored { files: v_files }
                    && v_files.len() == files@.len()
                    && (forall|i: int|
                        0 <= i < files@.len()
                            ==> #[trigger] v_files[i] == files@[i]@)
            },
            Answer::UploadBegun { upload_id } => {
                x@ matches AnswerView::UploadBegun { upload_id: v_upload_id }
                    && v_upload_id == upload_id@
            },
            Answer::PartStored { part_number, e_tag } => {
                x@ matches AnswerView::PartStored { part_number: v_part_number, e_tag: v_e_tag }
                    && v_part_number == part_number as int
                    && v_e_tag == e_tag@
            },
            Answer::Share { uuid, upload_time, expires_at, files, owner } => {
                x@ matches AnswerView::Share {
                    uuid: v_uuid,
                    upload_time: v_upload_time,
                    expires_at: v_expires_at,
                    files: v_files,
                    owner: v_owner,
                }
                    && v_uuid == uuid@
                    && v_upload_time == upload_time
                    && v_expires_at == expires_at
                    && v_files.len() == files@.len()
                    && (forall|i: int|
                        0 <= i < files@.len()
                            ==> #[trigger] v_files[i] == files@[i]@)
                    && v_owner == owner@
            },
            Answer::File {
                status,
                content_type,
                content_length,
                content_range,
                content_disposition,
            } => {
                x@ matches AnswerView::File {
                    status: v_status,
                    content_type: v_content_type,
                    content_length: v_content_length,
                    content_range: v_content_range,
                    content_disposition: v_content_disposition,
                }
                    && v_status == status as int
                    && v_content_type == content_type@
                    && v_content_length == content_length
                    && v_content_range == (match content_range {
                        Some(t) => Some(t@),
                        None => None,
                    })
                    && v_content_disposition == content_disposition@
            },
            Answer::FileMissing => x@ is FileMissing,
            Answer::SharesText { shares_enc } => {
                x@ matches AnswerView::SharesText { shares_enc: v_shares_enc }
                    && v_shares_enc == shares_enc@
            },
            Answer::LoggedIn { token, pfp_enc } => {
                x@ matches AnswerView::LoggedIn { token: v_token, pfp_enc: v_pfp_enc }
                    && v_token == token@
                    && v_pfp_enc == pfp_enc@
            },
            Answer::AdminLoggedIn { token } => {
                x@ matches AnswerView::AdminLoggedIn { token: v_token }
                    && v_token == token@
            },
            Answer::Profile { username, pfp_enc } => {
                x@ matches AnswerView::Profile { username: v_username, pfp_enc: v_pfp_enc }
                    && v_username == username@
                    && v_pfp_enc == pfp_enc@
            },
            Answer::Sessions { sessions } => {
                x@ matches AnswerView::Sessions { sessions: v_sessions }
                    && v_sessions.len() == sessions@.len()
                    && (forall|i: int|
                        0 <= i < sessions@.len()
                            ==> #[trigger] v_sessions[i] == sessions@[i]@)
            },
            Answer::Stats { users } => {
                x@ matches AnswerView::Stats { users: v_users }
                    && v_users.len() == users@.len()
                    && (forall|i: int|
                        0 <= i < users@.len()
                            ==> #[trigger] v_users[i] == users@[i]@)
            },
            Answer::Secret { secret } => {
                x@ matches AnswerView::Secret { secret: v_secret }
                    && v_secret == secret@
            },
            Answer::SweepFailed { message } => {
                x@ matches AnswerView::SweepFailed { message: v_message }
                    && v_message == message@
            },
        },
{
}

/// What is seen of the next step is the action, the answer, or that there is none.
pub proof fn steps_are_seen_as_they_are(x: Next)
    ensures
        match x {
            Next::Perform(a) => x@ == NextView::Perform(a@),
            Next::Done(a) => x@ == NextView::Done(a@),
            Next::Crash => x@ == NextView::Crash,
            Next::Misheard => x@ == NextView::Misheard,
        },
{
}

/// What is seen of the records of the library is every part of them.
pub proof fn records_are_seen_as_they_are(
    session: UserSession,
    entry: SessionEntry,
    user: UserStats,
    file: ShareFile,
    part: CompletedPart,
    line: HeaderLine,
    asset: Asset,
    caller: Caller,
)
    ensures
        session@.id == session.id@,
        session@.created_at == session.created_at,
        session@.user_agent == session.user_agent@,
        session@.ip == session.ip@,
        session@.expires_at == session.expires_at,
        session.name is None ==> session@.name is None,
        session.name matches Some(name) ==> session@.name == Some(name@),
        entry@.session == entry.session@,
        entry@.is_current == entry.is_current,
        user@.username == user.username@,
        user@.total_size == user.total_size,
        user@.shares.len() == user.shares@.len(),
        forall|i: int|
            0 <= i < user.shares@.len() ==> #[trigger] user@.shares[i] == json_tree(
                user.shares@[i],
            ),
        file@.name == file.name@,
        file@.size == file.size,
        part@.e_tag == part.e_tag@,
        part@.part_number == part.part_number,
        line@.name == line.name@,
        line@.value == line.value@,
        asset@.file == asset.file@,
        asset@.content_type == asset.content_type@,
        asset.cache_control is None ==> asset@.cache_control is None,
        asset.cache_control matches Some(t) ==> asset@.cache_control == Some(t@),
        asset.worker_scope is None ==> asset@.worker_scope is None,
        asset.worker_scope matches Some(t) ==> asset@.worker_scope == Some(t@),
        caller@.username == caller.username@,
        caller@.session_id == caller.session_id@,
{
}

} // verus!
