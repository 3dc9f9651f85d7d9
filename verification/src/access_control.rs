//! The questions put to the access-control service and its answers. The
//! service itself is an oracle to this library: it answers, the engine obeys.

use crate::error::ErrorKind;
use crate::wire;
use vstd::prelude::*;
use vstd::string::*;

verus! {

/// Asks whether a user may use a file.
#[derive(Debug)]
pub struct AuthorizeDataRequest {
    pub subject_user_id: String,
    pub object_data_id: String,
}

impl AuthorizeDataRequest {
    /// The question whether `subject_user_id` may use `object_data_id`.
    pub fn new(subject_user_id: &str, object_data_id: &str) -> (request: Self)
        ensures
            request.subject_user_id@ == subject_user_id@,
            request.object_data_id@ == object_data_id@,
    {
        AuthorizeDataRequest {
            subject_user_id: String::from_str(subject_user_id),
            object_data_id: String::from_str(object_data_id),
        }
    }

    /// The request that the message `message` carries.
    pub fn try_from(message: wire::AuthorizeDataRequest) -> (request: Result<Self, ErrorKind>)
        ensures
            request is Ok,
            request.unwrap().subject_user_id == message.subject_user_id,
            request.unwrap().object_data_id == message.object_data_id,
    {
        Ok(AuthorizeDataRequest {
            subject_user_id: message.subject_user_id,
            object_data_id: message.object_data_id,
        })
    }

    /// The message that carries this request.
    pub fn into_message(self) -> (message: wire::AuthorizeDataRequest)
        ensures
            message.subject_user_id == self.subject_user_id,
            message.object_data_id == self.object_data_id,
    {
        wire::AuthorizeDataRequest {
            subject_user_id: self.subject_user_id,
            object_data_id: self.object_data_id,
        }
    }
}

/// The answer to the question about a file.
#[derive(Debug)]
pub struct AuthorizeDataResponse {
    pub accept: bool,
}

impl AuthorizeDataResponse {
    /// The answer `accept`.
    pub fn new(accept: bool) -> (response: Self)
        ensures
            response.accept == accept,
    {
        AuthorizeDataResponse { accept }
    }

    /// The response that the message `message` carries.
    pub fn try_from(message: wire::AuthorizeDataResponse) -> (response: Result<Self, ErrorKind>)
        ensures
            response is Ok,
            response.unwrap().accept == message.accept,
    {
        Ok(AuthorizeDataResponse { accept: message.accept })
    }

    /// The message that carries this response.
    pub fn into_message(self) -> (message: wire::AuthorizeDataResponse)
        ensures
            message.accept == self.accept,
    {
        wire::AuthorizeDataResponse { accept: self.accept }
    }
}

/// Asks whether a user may use a function.
#[derive(Debug)]
pub struct AuthorizeFunctionRequest {
    pub subject_user_id: String,
    pub object_function_id: String,
}

impl AuthorizeFunctionRequest {
    /// The question whether `subject_user_id` may use `object_function_id`.
    pub fn new(subject_user_id: &str, object_function_id: &str) -> (request: Self)
        ensures
            request.subject_user_id@ == subject_user_id@,
            request.object_function_id@ == object_function_id@,
    {
        AuthorizeFunctionRequest {
            subject_user_id: String::from_str(subject_user_id),
            object_function_id: String::from_str(object_function_id),
        }
    }

    /// The request that the message `message` carries.
    pub fn try_from(message: wire::AuthorizeFunctionRequest) -> (request: Result<Self, ErrorKind>)
        ensures
            request is Ok,
            request.unwrap().subject_user_id == message.subject_user_id,
            request.unwrap().object_function_id == message.object_function_id,
    {
        Ok(AuthorizeFunctionRequest {
            subject_user_id: message.subject_user_id,
            object_function_id: message.object_function_id,
        })
    }

    /// The message that carries this request.
    pub fn into_message(self) -> (message: wire::AuthorizeFunctionRequest)
        ensures
            message.subject_user_id == self.subject_user_id,
            message.object_function_id == self.object_function_id,
    {
        wire::AuthorizeFunctionRequest {
            subject_user_id: self.subject_user_id,
            object_function_id: self.object_function_id,
        }
    }
}

/// The answer to the question about a function.
#[derive(Debug)]
pub struct AuthorizeFunctionResponse {
    pub accept: bool,
}

impl AuthorizeFunctionResponse {
    /// The answer `accept`.
    pub fn new(accept: bool) -> (response: Self)
        ensures
            response.accept == accept,
    {
        AuthorizeFunctionResponse { accept }
    }

    /// The response that the message `message` carries.
    pub fn try_from(message: wire::AuthorizeFunctionResponse) -> (response: Result<Self, ErrorKind>)
        ensures
            response is Ok,
            response.unwrap().accept == message.accept,
    {
        Ok(AuthorizeFunctionResponse { accept: message.accept })
    }

    /// The message that carries this response.
    pub fn into_message(self) -> (message: wire::AuthorizeFunctionResponse)
        ensures
            message.accept == self.accept,
    {
        wire::AuthorizeFunctionResponse { accept: self.accept }
    }
}

/// Asks whether a user may use a task.
#[derive(Debug)]
pub struct AuthorizeTaskRequest {
    pub subject_user_id: String,
    pub object_task_id: String,
}

impl AuthorizeTaskRequest {
    /// The question whether `subject_user_id` may use `object_task_id`.
    pub fn new(subject_user_id: &str, object_task_id: &str) -> (request: Self)
        ensures
            request.subject_user_id@ == subject_user_id@,
            request.object_task_id@ == object_task_id@,
    {
        AuthorizeTaskRequest {
            subject_user_id: String::from_str(subject_user_id),
            object_task_id: String::from_str(object_task_id),
        }
    }

    /// The request that the message `message` carries.
    pub fn try_from(message: wire::AuthorizeTaskRequest) -> (request: Result<Self, ErrorKind>)
        ensures
            request is Ok,
            request.unwrap().subject_user_id == message.subject_user_id,
            request.unwrap().object_task_id == message.object_task_id,
    {
        Ok(AuthorizeTaskRequest {
            subject_user_id: message.subject_user_id,
            object_task_id: message.object_task_id,
        })
    }

    /// The message that carries this request.
    pub fn into_message(self) -> (message: wire::AuthorizeTaskRequest)
        ensures
            message.subject_user_id == self.subject_user_id,
            message.object_task_id == self.object_task_id,
    {
        wire::AuthorizeTaskRequest {
            subject_user_id: self.subject_user_id,
            object_task_id: self.object_task_id,
        }
    }
}

/// The answer to the question about a task.
#[derive(Debug)]
pub struct AuthorizeTaskResponse {
    pub accept: bool,
}

impl AuthorizeTaskResponse {
    /// The answer `accept`.
    pub fn new(accept: bool) -> (response: Self)
        ensures
            response.accept == accept,
    {
        AuthorizeTaskResponse { accept }
    }

    /// The response that the message `message` carries.
    pub fn try_from(message: wire::AuthorizeTaskResponse) -> (response: Result<Self, ErrorKind>)
        ensures
            response is Ok,
            response.unwrap().accept == message.accept,
    {
        Ok(AuthorizeTaskResponse { accept: message.accept })
    }

    /// The message that carries this response.
    pub fn into_message(self) -> (message: wire::AuthorizeTaskResponse)
        ensures
            message.accept == self.accept,
    {
        wire::AuthorizeTaskResponse { accept: self.accept }
    }
}

/// Asks whether a staged task may run its function on its files.
#[derive(Debug)]
pub struct AuthorizeStagedTaskRequest {
    pub subject_task_id: String,
    pub object_function_id: String,
    pub object_input_data_id_list: Vec<String>,
    pub object_output_data_id_list: Vec<String>,
}

impl AuthorizeStagedTaskRequest {
    /// The request that the message `message` carries.
    pub fn try_from(message: wire::AuthorizeStagedTaskRequest) -> (request: Result<
        Self,
        ErrorKind,
    >)
        ensures
            request is Ok,
            request.unwrap().subject_task_id == message.subject_task_id,
            request.unwrap().object_function_id == message.object_function_id,
            request.unwrap().object_input_data_id_list == message.object_input_data_id_list,
            request.unwrap().object_output_data_id_list == message.object_output_data_id_list,
    {
        Ok(
            AuthorizeStagedTaskRequest {
                subject_task_id: message.subject_task_id,
                object_function_id: message.object_function_id,
                object_input_data_id_list: message.object_input_data_id_list,
                object_output_data_id_list: message.object_output_data_id_list,
            },
        )
    }

    /// The message that carries this request.
    pub fn into_message(self) -> (message: wire::AuthorizeStagedTaskRequest)
        ensures
            message.subject_task_id == self.subject_task_id,
            message.object_function_id == self.object_function_id,
            message.object_input_data_id_list == self.object_input_data_id_list,
            message.object_output_data_id_list == self.object_output_data_id_list,
    {
        wire::AuthorizeStagedTaskRequest {
            subject_task_id: self.subject_task_id,
            object_function_id: self.object_function_id,
            object_input_data_id_list: self.object_input_data_id_list,
            object_output_data_id_list: self.object_output_data_id_list,
        }
    }
}

/// The answer to the question about a staged task.
#[derive(Debug)]
pub struct AuthorizeStagedTaskResponse {
    pub accept: bool,
}

impl AuthorizeStagedTaskResponse {
    /// The answer `accept`.
    pub fn new(accept: bool) -> (response: Self)
        ensures
            response.accept == accept,
    {
        AuthorizeStagedTaskResponse { accept }
    }

    /// The response that the message `message` carries.
    pub fn try_from(message: wire::AuthorizeStagedTaskResponse) -> (response: Result<Self, ErrorKind>)
        ensures
            response is Ok,
            response.unwrap().accept == message.accept,
    {
        Ok(AuthorizeStagedTaskResponse { accept: message.accept })
    }

    /// The message that carries this response.
    pub fn into_message(self) -> (message: wire::AuthorizeStagedTaskResponse)
        ensures
            message.accept == self.accept,
    {
        wire::AuthorizeStagedTaskResponse { accept: self.accept }
    }
}

} // verus!
