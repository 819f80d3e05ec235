//! The tools by which a client uploads attachments piece by piece.
use super::dto::{
    ToolResponse, UploadAbortResult, UploadFinishResult, UploadInitParams, UploadInitResult,
    UploadStatusParams, UploadStatusResult,
};
use super::requests::{
    find_session, missing_param, parse_requested_session, position_of_session, requested_session,
    require_param,
};
use crate::model::SolutionSession;
use crate::text::{decimal, print_u64};
use vstd::prelude::*;
use vstd::string::*;

verus! {

/// What the name of a finished upload starts with.
pub const HANDLE_SCHEME: &'static str = "spk-upload://";

/// What is said where uploads have not been set up.
pub const NO_MANAGER: &'static str = "upload manager not initialised";

/// Announces an upload.
#[derive(Clone)]
pub struct UploadInitTool;

/// What is wrong with the announcement of an upload, if anything.
pub open spec fn upload_fault(
    input: UploadInitParams,
    sessions: Seq<SolutionSession>,
) -> Option<Seq<char>> {
    if input.session_id@.len() == 0 {
        Some(missing_param("session_id"@))
    } else if input.mime@.len() == 0 {
        Some(missing_param("mime"@))
    } else if input.display_name@.len() == 0 {
        Some(missing_param("display_name"@))
    } else if input.total_size == 0 {
        Some("invalid_params: total_size must be > 0"@)
    } else {
        match requested_session(input.session_id@) {
            Err(message) => Some(message),
            Ok(id) => match find_session(sessions, id) {
                Some(_) => None,
                None => Some("unknown_session: "@ + input.session_id@),
            },
        }
    }
}

impl UploadInitTool {
    pub const NAME: &'static str = "solution_agent.upload_init";

    /// Whether the upload may start: it has to be for a session that is there.
    pub fn run(&self, input: &UploadInitParams, sessions: &Vec<SolutionSession>) -> (r: Result<
        (),
        String,
    >)
        ensures
            match upload_fault(*input, sessions@) {
                Some(message) => r is Err && r->Err_0@ == message,
                None => r is Ok,
            },
    {
        if let Err(message) = require_param(input.session_id.as_str(), "session_id") {
            return Err(message);
        }
        if let Err(message) = require_param(input.mime.as_str(), "mime") {
            return Err(message);
        }
        if let Err(message) = require_param(input.display_name.as_str(), "display_name") {
            return Err(message);
        }
        if input.total_size == 0 {
            return Err("invalid_params: total_size must be > 0".to_owned());
        }
        let session_id = match parse_requested_session(input.session_id.as_str()) {
            Ok(id) => id,
            Err(message) => {
                return Err(message);
            },
        };
        if position_of_session(sessions, &session_id).is_none() {
            let mut message = "unknown_session: ".to_owned();
            message.append(input.session_id.as_str());
            return Err(message);
        }
        Ok(())
    }

    /// The answer, given what the manager of uploads said, if there is one.
    pub fn respond(&self, started: Option<Result<u64, String>>) -> (r: Result<
        ToolResponse<UploadInitResult>,
        String,
    >)
        ensures
            match started {
                None => r is Err && r->Err_0@ == NO_MANAGER@,
                Some(Err(message)) => r is Err && r->Err_0@ == message@,
                Some(Ok(upload_id)) => {
                    &&& r is Ok
                    &&& r->Ok_0.text@ == "upload_id="@ + decimal(upload_id as nat)
                    &&& r->Ok_0.result.upload_id == upload_id
                },
            },
    {
        match started {
            None => Err(NO_MANAGER.to_owned()),
            Some(Err(message)) => Err(message),
            Some(Ok(upload_id)) => {
                let mut text = "upload_id=".to_owned();
                let number = print_u64(upload_id);
                text.append(number.as_str());
                Ok(ToolResponse { text, result: UploadInitResult { upload_id } })
            },
        }
    }
}

/// Tells how far an upload has come.
#[derive(Clone)]
pub struct UploadStatusTool;

impl UploadStatusTool {
    pub const NAME: &'static str = "solution_agent.upload_status";

    /// The answer, given what the manager of uploads knows of the upload: the
    /// bytes received and the bytes in all.
    pub fn run(&self, input: &UploadStatusParams, status: Option<Option<(u64, u64)>>) -> (r: Result<
        ToolResponse<UploadStatusResult>,
        String,
    >)
        ensures
            match status {
                None => r is Err && r->Err_0@ == NO_MANAGER@,
                Some(None) => r is Err && r->Err_0@ == "unknown_upload_id: "@ + decimal(
                    input.upload_id as nat,
                ),
                Some(Some((received_bytes, total_size))) => {
                    &&& r is Ok
                    &&& r->Ok_0.text@ == decimal(received_bytes as nat) + "/"@ + decimal(
                        total_size as nat,
                    )
                    &&& r->Ok_0.result.received_bytes == received_bytes
                    &&& r->Ok_0.result.total_size == total_size
                },
            },
    {
        match status {
            None => Err(NO_MANAGER.to_owned()),
            Some(None) => {
                let mut message = "unknown_upload_id: ".to_owned();
                let number = print_u64(input.upload_id);
                message.append(number.as_str());
                Err(message)
            },
            Some(Some((received_bytes, total_size))) => {
                let mut text = print_u64(received_bytes);
                text.append("/");
                let total = print_u64(total_size);
                text.append(total.as_str());
                Ok(ToolResponse { text, result: UploadStatusResult { received_bytes, total_size } })
            },
        }
    }
}

/// Completes an upload.
#[derive(Clone)]
pub struct UploadFinishTool;

impl UploadFinishTool {
    pub const NAME: &'static str = "solution_agent.upload_finish";

    /// The answer, given the id under which the manager of uploads keeps it: a
    /// handle that can be sent in place of the attachment.
    pub fn respond(&self, finished: Option<Result<u64, String>>) -> (r: Result<
        ToolResponse<UploadFinishResult>,
        String,
    >)
        ensures
            match finished {
                None => r is Err && r->Err_0@ == NO_MANAGER@,
                Some(Err(message)) => r is Err && r->Err_0@ == message@,
                Some(Ok(id)) => {
                    &&& r is Ok
                    &&& r->Ok_0.text@ == HANDLE_SCHEME@ + decimal(id as nat)
                    &&& r->Ok_0.result.handle@ == HANDLE_SCHEME@ + decimal(id as nat)
                },
            },
    {
        match finished {
            None => Err(NO_MANAGER.to_owned()),
            Some(Err(message)) => Err(message),
            Some(Ok(id)) => {
                let mut handle = HANDLE_SCHEME.to_owned();
                let number = print_u64(id);
                handle.append(number.as_str());
                Ok(ToolResponse { text: handle.clone(), result: UploadFinishResult { handle } })
            },
        }
    }
}

/// Gives an upload up.
#[derive(Clone)]
pub struct UploadAbortTool;

impl UploadAbortTool {
    pub const NAME: &'static str = "solution_agent.upload_abort";

    /// The answer, given what the manager of uploads said, if there is one.
    pub fn respond(&self, aborted: Option<Result<(), String>>) -> (r: Result<
        ToolResponse<UploadAbortResult>,
        String,
    >)
        ensures
            match aborted {
                None => r is Err && r->Err_0@ == NO_MANAGER@,
                Some(Err(message)) => r is Err && r->Err_0@ == message@,
                Some(Ok(_)) => r is Ok && r->Ok_0.text@ == "aborted"@,
            },
    {
        match aborted {
            None => Err(NO_MANAGER.to_owned()),
            Some(Err(message)) => Err(message),
            Some(Ok(_)) => Ok(
                ToolResponse { text: "aborted".to_owned(), result: UploadAbortResult {  } },
            ),
        }
    }
}

} // verus!
