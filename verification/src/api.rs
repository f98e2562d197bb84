//! The requests that the server answers.

use vstd::prelude::*;
use crate::account::{login_user, login_user_next, register_user, register_user_next};
use crate::admin::{
    admin_delete_share, admin_delete_share_next, admin_delete_user, admin_delete_user_next,
    admin_get_stats, admin_get_stats_next, admin_login, admin_login_next,
};
use crate::devices::{
    admin_get_sessions, admin_get_sessions_next, admin_get_user_sessions,
    admin_get_user_sessions_next, admin_rename_session, admin_rename_session_next,
    admin_revoke_session, admin_revoke_session_next, admin_revoke_user_session,
    admin_revoke_user_session_next, get_user_sessions, get_user_sessions_next, rename_user_session,
    rename_user_session_next, revoke_user_session, revoke_user_session_next,
};
use crate::gate::{Headers, Site};
use crate::profile::{
    change_password_next, delete_account_next, get_user_profile, get_user_profile_next,
    get_user_shares, get_user_shares_next, save_user_profile, save_user_profile_next,
    save_user_shares, save_user_shares_next, user_change_password, user_delete_account,
    ChangePasswordRequest,
};
use crate::protocol::{readable, Next, NextView, Reply};
use crate::sharing::{
    delete_share, delete_share_next, download_file, download_file_next, get_share, get_share_next,
};
use crate::storage::CompletedPart;
use crate::uploads::{
    upload_abort, upload_abort_next, upload_chunk_or_file, upload_chunk_or_file_next, upload_files,
    upload_files_next, upload_finish, upload_finish_next, upload_init, upload_init_next,
    upload_multipart_complete, upload_multipart_complete_next, upload_multipart_init,
    upload_multipart_init_next, upload_multipart_part, upload_multipart_part_next, upload_ping,
    upload_ping_next, UploadFinishReq,
};

verus! {

/// A request.
pub enum Request {
    /// Uploads a share in one request.
    UploadFiles,
    /// Begins a share.
    UploadInit,
    /// Renews the marker of a share under way.
    UploadPing { uuid: String },
    /// Stores files of a share.
    UploadFile { uuid: String },
    /// Ends a share.
    UploadFinish { uuid: String, req: UploadFinishReq },
    /// Gives a share up.
    UploadAbort { uuid: String },
    /// Begins a file in parts.
    MultipartInit { uuid: String, file_name: String },
    /// Stores a part of a file.
    MultipartPart { uuid: String, upload_id: String, part_number: i32, file_name: String },
    /// Ends a file in parts.
    MultipartComplete {
        uuid: String,
        upload_id: String,
        file_name: String,
        parts: Vec<CompletedPart>,
    },
    /// Looks at a share.
    GetShare { uuid: String },
    /// Fetches a file of a share.
    Download { uuid: String, filename: String },
    /// Removes a share.
    DeleteShare { uuid: String },
    /// Makes an account.
    Register { username: String, auth_key: String },
    /// Logs a user in.
    Login { username: String, auth_key: String },
    /// Gives the encrypted list of shares.
    GetShares,
    /// Replaces the encrypted list of shares.
    SaveShares { shares_enc: String },
    /// Gives the profile.
    GetProfile,
    /// Replaces the profile picture.
    SaveProfile { pfp_enc: String, pfp: String },
    /// Changes the password.
    ChangePassword { req: ChangePasswordRequest },
    /// Removes the account.
    DeleteAccount,
    /// Shows the sessions.
    GetSessions,
    /// Ends a session.
    RevokeSession { session_id: String },
    /// Names a session.
    RenameSession { session_id: String, name: String },
    /// Gives the administrator a session.
    AdminLogin,
    /// Shows all users.
    AdminStats,
    /// Removes any share.
    AdminDeleteShare { uuid: String },
    /// Removes a user.
    AdminDeleteUser { username: String },
    /// Shows the sessions of a user.
    AdminUserSessions { username: String },
    /// Ends a session of a user.
    AdminRevokeUserSession { username: String, session_id: String },
    /// Shows the sessions of the administrator.
    AdminSessions,
    /// Ends a session of the administrator.
    AdminRevokeSession { session_id: String },
    /// Names a session of the administrator.
    AdminRenameSession { session_id: String, name: String },
}

/// What a request does next, after what it has heard.
pub open spec fn answer_next(
    site: Site,
    headers: Headers,
    request: Request,
    heard: Seq<Reply>,
) -> NextView {
    match request {
        Request::UploadFiles => upload_files_next(site, headers, heard),
        Request::UploadInit => upload_init_next(site, headers, heard),
        Request::UploadPing { uuid } => upload_ping_next(site, headers, uuid@, heard),
        Request::UploadFile { uuid } => upload_chunk_or_file_next(site, headers, uuid@, heard),
        Request::UploadFinish { uuid, req } => upload_finish_next(site, headers, uuid@, req, heard),
        Request::UploadAbort { uuid } => upload_abort_next(site, headers, uuid@, heard),
        Request::MultipartInit { uuid, file_name } => upload_multipart_init_next(
            site,
            headers,
            uuid@,
            file_name@,
            heard,
        ),
        Request::MultipartPart { uuid, upload_id, part_number, file_name } => upload_multipart_part_next(
            site,
            headers,
            uuid@,
            upload_id@,
            part_number as int,
            file_name@,
            heard,
        ),
        Request::MultipartComplete { uuid, upload_id, file_name, parts } => upload_multipart_complete_next(
            site,
            headers,
            uuid@,
            upload_id@,
            file_name@,
            parts@,
            heard,
        ),
        Request::GetShare { uuid } => get_share_next(uuid@, heard),
        Request::Download { uuid, filename } => download_file_next(
            headers,
            uuid@,
            filename@,
            heard,
        ),
        Request::DeleteShare { uuid } => delete_share_next(site, headers, uuid@, heard),
        Request::Register { username, auth_key } => register_user_next(username@, auth_key@, heard),
        Request::Login { username, auth_key } => login_user_next(
            site,
            headers,
            username@,
            auth_key@,
            heard,
        ),
        Request::GetShares => get_user_shares_next(site, headers, heard),
        Request::SaveShares { shares_enc } => save_user_shares_next(
            site,
            headers,
            shares_enc@,
            heard,
        ),
        Request::GetProfile => get_user_profile_next(site, headers, heard),
        Request::SaveProfile { pfp_enc, pfp } => save_user_profile_next(
            site,
            headers,
            pfp_enc@,
            pfp@,
            heard,
        ),
        Request::ChangePassword { req } => change_password_next(site, headers, req, heard),
        Request::DeleteAccount => delete_account_next(site, headers, heard),
        Request::GetSessions => get_user_sessions_next(site, headers, heard),
        Request::RevokeSession { session_id } => revoke_user_session_next(
            site,
            headers,
            session_id@,
            heard,
        ),
        Request::RenameSession { session_id, name } => rename_user_session_next(
            site,
            headers,
            session_id@,
            name@,
            heard,
        ),
        Request::AdminLogin => admin_login_next(site, headers, heard),
        Request::AdminStats => admin_get_stats_next(site, headers, heard),
        Request::AdminDeleteShare { uuid } => admin_delete_share_next(site, headers, uuid@, heard),
        Request::AdminDeleteUser { username } => admin_delete_user_next(
            site,
            headers,
            username@,
            heard,
        ),
        Request::AdminUserSessions { username } => admin_get_user_sessions_next(
            site,
            headers,
            username@,
            heard,
        ),
        Request::AdminRevokeUserSession { username, session_id } => admin_revoke_user_session_next(
            site,
            headers,
            username@,
            session_id@,
            heard,
        ),
        Request::AdminSessions => admin_get_sessions_next(site, headers, heard),
        Request::AdminRevokeSession { session_id } => admin_revoke_session_next(
            site,
            headers,
            session_id@,
            heard,
        ),
        Request::AdminRenameSession { session_id, name } => admin_rename_session_next(
            site,
            headers,
            session_id@,
            name@,
            heard,
        ),
    }
}

/// What a request does next, after what it has heard.
pub fn answer(site: &Site, headers: &Headers, request: &Request, heard: &Vec<Reply>) -> (r: Next)
    ensures
        r@ == answer_next(*site, *headers, *request, heard@),
        readable(r@),
{
    match request {
        Request::UploadFiles => upload_files(site, headers, heard),
        Request::UploadInit => upload_init(site, headers, heard),
        Request::UploadPing { uuid } => upload_ping(site, headers, uuid.as_str(), heard),
        Request::UploadFile { uuid } => upload_chunk_or_file(site, headers, uuid.as_str(), heard),
        Request::UploadFinish { uuid, req } => upload_finish(
            site,
            headers,
            uuid.as_str(),
            req,
            heard,
        ),
        Request::UploadAbort { uuid } => upload_abort(site, headers, uuid.as_str(), heard),
        Request::MultipartInit { uuid, file_name } => upload_multipart_init(
            site,
            headers,
            uuid.as_str(),
            file_name.as_str(),
            heard,
        ),
        Request::MultipartPart { uuid, upload_id, part_number, file_name } => upload_multipart_part(
            site,
            headers,
            uuid.as_str(),
            upload_id.as_str(),
            *part_number,
            file_name.as_str(),
            heard,
        ),
        Request::MultipartComplete { uuid, upload_id, file_name, parts } => upload_multipart_complete(
            site,
            headers,
            uuid.as_str(),
            upload_id.as_str(),
            file_name.as_str(),
            parts,
            heard,
        ),
        Request::GetShare { uuid } => get_share(uuid.as_str(), heard),
        Request::Download { uuid, filename } => download_file(
            headers,
            uuid.as_str(),
            filename.as_str(),
            heard,
        ),
        Request::DeleteShare { uuid } => delete_share(site, headers, uuid.as_str(), heard),
        Request::Register { username, auth_key } => register_user(
            username.as_str(),
            auth_key.as_str(),
            heard,
        ),
        Request::Login { username, auth_key } => login_user(
            site,
            headers,
            username.as_str(),
            auth_key.as_str(),
            heard,
        ),
        Request::GetShares => get_user_shares(site, headers, heard),
        Request::SaveShares { shares_enc } => save_user_shares(
            site,
            headers,
            shares_enc.as_str(),
            heard,
        ),
        Request::GetProfile => get_user_profile(site, headers, heard),
        Request::SaveProfile { pfp_enc, pfp } => save_user_profile(
            site,
            headers,
            pfp_enc.as_str(),
            pfp.as_str(),
            heard,
        ),
        Request::ChangePassword { req } => user_change_password(site, headers, req, heard),
        Request::DeleteAccount => user_delete_account(site, headers, heard),
        Request::GetSessions => get_user_sessions(site, headers, heard),
        Request::RevokeSession { session_id } => revoke_user_session(
            site,
            headers,
            session_id.as_str(),
            heard,
        ),
        Request::RenameSession { session_id, name } => rename_user_session(
            site,
            headers,
            session_id.as_str(),
            name.as_str(),
            heard,
        ),
        Request::AdminLogin => admin_login(site, headers, heard),
        Request::AdminStats => admin_get_stats(site, headers, heard),
        Request::AdminDeleteShare { uuid } => admin_delete_share(
            site,
            headers,
            uuid.as_str(),
            heard,
        ),
        Request::AdminDeleteUser { username } => admin_delete_user(
            site,
            headers,
            username.as_str(),
            heard,
        ),
        Request::AdminUserSessions { username } => admin_get_user_sessions(
            site,
            headers,
            username.as_str(),
            heard,
        ),
        Request::AdminRevokeUserSession { username, session_id } => admin_revoke_user_session(
            site,
            headers,
            username.as_str(),
            session_id.as_str(),
            heard,
        ),
        Request::AdminSessions => admin_get_sessions(site, headers, heard),
        Request::AdminRevokeSession { session_id } => admin_revoke_session(
            site,
            headers,
            session_id.as_str(),
            heard,
        ),
        Request::AdminRenameSession { session_id, name } => admin_rename_session(
            site,
            headers,
            session_id.as_str(),
            name.as_str(),
            heard,
        ),
    }
}

/// Whether a request is for users with a session.
pub open spec fn for_users(request: Request) -> bool {
    match request {
        Request::UploadFiles => true,
        Request::UploadInit => true,
        Request::UploadPing { .. } => true,
        Request::UploadFile { .. } => true,
        Request::UploadFinish { .. } => true,
        Request::UploadAbort { .. } => true,
        Request::MultipartInit { .. } => true,
        Request::MultipartPart { .. } => true,
        Request::MultipartComplete { .. } => true,
        Request::DeleteShare { .. } => true,
        Request::GetShares => true,
        Request::SaveShares { .. } => true,
        Request::GetProfile => true,
        Request::SaveProfile { .. } => true,
        Request::ChangePassword { .. } => true,
        Request::DeleteAccount => true,
        Request::GetSessions => true,
        Request::RevokeSession { .. } => true,
        Request::RenameSession { .. } => true,
        _ => false,
    }
}

/// Whether a request is for the administrator.
pub open spec fn for_admin(request: Request) -> bool {
    match request {
        Request::AdminStats => true,
        Request::AdminDeleteShare { .. } => true,
        Request::AdminDeleteUser { .. } => true,
        Request::AdminUserSessions { .. } => true,
        Request::AdminRevokeUserSession { .. } => true,
        Request::AdminSessions => true,
        Request::AdminRevokeSession { .. } => true,
        Request::AdminRenameSession { .. } => true,
        _ => false,
    }
}

} // verus!
