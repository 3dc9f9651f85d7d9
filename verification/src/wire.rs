//! The messages as they travel between the services: the same fields as the
//! typed requests, with addresses as raw bytes.

use vstd::prelude::*;

verus! {

/// The message of a question about a file.
#[derive(Debug)]
pub struct AuthorizeDataRequest {
    pub subject_user_id: String,
    pub object_data_id: String,
}

/// The message of an answer about a file.
#[derive(Debug)]
pub struct AuthorizeDataResponse {
    pub accept: bool,
}

/// The message of a question about a function.
#[derive(Debug)]
pub struct AuthorizeFunctionRequest {
    pub subject_user_id: String,
    pub object_function_id: String,
}

/// The message of an answer about a function.
#[derive(Debug)]
pub struct AuthorizeFunctionResponse {
    pub accept: bool,
}

/// The message of a question about a task.
#[derive(Debug)]
pub struct AuthorizeTaskRequest {
    pub subject_user_id: String,
    pub object_task_id: String,
}

/// The message of an answer about a task.
#[derive(Debug)]
pub struct AuthorizeTaskResponse {
    pub accept: bool,
}

/// The message of a question about a staged task.
#[derive(Debug)]
pub struct AuthorizeStagedTaskRequest {
    pub subject_task_id: String,
    pub object_function_id: String,
    pub object_input_data_id_list: Vec<String>,
    pub object_output_data_id_list: Vec<String>,
}

/// The message of an answer about a staged task.
#[derive(Debug)]
pub struct AuthorizeStagedTaskResponse {
    pub accept: bool,
}

/// The message of one audit entry; the address travels as bytes.
#[derive(Debug)]
pub struct Entry {
    pub microsecond: i64,
    pub ip: Vec<u8>,
    pub user: String,
    pub message: String,
    pub result: bool,
}

/// The message that hands audit entries to the management service.
#[derive(Debug)]
pub struct SaveLogsRequest {
    pub logs: Vec<Entry>,
}

/// The message that acknowledges saved audit entries.
#[derive(Debug)]
pub struct SaveLogsResponse {
}

} // verus!
