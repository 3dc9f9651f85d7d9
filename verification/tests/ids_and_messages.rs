use teaclave_lifecycle::access_control::{
    AuthorizeDataRequest, AuthorizeDataResponse, AuthorizeFunctionRequest,
    AuthorizeFunctionResponse, AuthorizeStagedTaskRequest, AuthorizeStagedTaskResponse,
    AuthorizeTaskRequest, AuthorizeTaskResponse,
};
use teaclave_lifecycle::address::{Ipv4Addr, Ipv6Addr};
use teaclave_lifecycle::audit::entry::{Entry, EntryBuilder};
use teaclave_lifecycle::audit::messages::{
    entry_from_message, entry_into_message, MessageError, SaveLogsRequest, SaveLogsResponse,
};
use teaclave_lifecycle::error::{SchedulerServiceError, ServiceResponseError};
use teaclave_lifecycle::files::FileAuthTag;
use teaclave_lifecycle::ids::{ExternalID, IdError, IdKind};
use teaclave_lifecycle::wire;

#[test]
fn identifier_is_read_from_prefix_and_uuid() {
    let id = ExternalID::try_from("function-00000000-0000-0000-0000-000000000001").unwrap();
    assert_eq!(id, ExternalID::new(IdKind::Function, 1));
    let id = ExternalID::try_from("task-a1a2a3a4-b1b2-c1c2-d1d2-d3d4d5d6d7d8").unwrap();
    assert_eq!(id.kind, IdKind::Task);
    assert_eq!(id.uuid, 0xa1a2a3a4b1b2c1c2d1d2d3d4d5d6d7d8);
    for (text, kind) in [
        ("input", IdKind::Input),
        ("output", IdKind::Output),
        ("function", IdKind::Function),
        ("task", IdKind::Task),
        ("fusion", IdKind::Fusion),
    ] {
        let full = format!("{}-00000000-0000-0000-0000-00000000000a", text);
        assert_eq!(ExternalID::try_from(&full), Ok(ExternalID::new(kind, 10)));
        assert_eq!(kind.as_str(), text);
        assert_eq!(IdKind::from_prefix(text), Some(kind));
        assert!(ExternalID::new(kind, 10).is_kind(kind));
    }
    assert!(!ExternalID::new(IdKind::Task, 1).is_kind(IdKind::Input));
}

#[test]
fn identifier_errors_name_the_part_that_is_wrong() {
    assert_eq!(ExternalID::try_from("task"), Err(IdError::MissingSeparator));
    assert_eq!(ExternalID::try_from(""), Err(IdError::MissingSeparator));
    assert_eq!(
        ExternalID::try_from("job-00000000-0000-0000-0000-000000000001"),
        Err(IdError::UnknownPrefix)
    );
    assert_eq!(
        ExternalID::try_from("-00000000-0000-0000-0000-000000000001"),
        Err(IdError::UnknownPrefix)
    );
    assert_eq!(
        ExternalID::try_from("Task-00000000-0000-0000-0000-000000000001"),
        Err(IdError::UnknownPrefix)
    );
    assert_eq!(ExternalID::try_from("task-"), Err(IdError::MalformedUuid));
    assert_eq!(ExternalID::try_from("task-xyz"), Err(IdError::MalformedUuid));
    assert_eq!(ExternalID::try_from("täsk-1"), Err(IdError::UnknownPrefix));
    assert_eq!(ExternalID::from_parts("job", None), Err(IdError::UnknownPrefix));
    assert_eq!(ExternalID::from_parts("task", None), Err(IdError::MalformedUuid));
    assert_eq!(ExternalID::from_parts("input", Some(5)), Ok(ExternalID::new(IdKind::Input, 5)));
}

#[test]
fn identifier_text_round_trips() {
    let id = ExternalID::new(IdKind::Output, 0xa1a2a3a4b1b2c1c2d1d2d3d4d5d6d7d8);
    assert_eq!(id.to_string(), "output-a1a2a3a4-b1b2-c1c2-d1d2-d3d4d5d6d7d8");
    assert_eq!(ExternalID::try_from(&id.to_string()), Ok(id));
    assert_eq!(
        ExternalID::new(IdKind::Fusion, 1).to_string(),
        "fusion-00000000-0000-0000-0000-000000000001"
    );
    assert_eq!(id.storage_key(), "output/a1a2a3a4-b1b2-c1c2-d1d2-d3d4d5d6d7d8");
    assert_eq!(
        ExternalID::new(IdKind::Task, 2).storage_key(),
        "task/00000000-0000-0000-0000-000000000002"
    );
}

#[test]
fn minted_identifiers_are_of_the_kind_and_differ() {
    let a = ExternalID::mint(IdKind::Task);
    let b = ExternalID::mint(IdKind::Task);
    assert_eq!(a.kind, IdKind::Task);
    assert_ne!(a.uuid, b.uuid);
    // Version 4, variant 1.
    assert_eq!((a.uuid >> 76) & 0xf, 4);
    assert_eq!((a.uuid >> 62) & 0x3, 2);
}

#[test]
fn test_authorize_requests_keep_their_fields() {
    let request = AuthorizeDataRequest::new("mock_user_a", "mock_data");
    assert_eq!(request.subject_user_id, "mock_user_a");
    assert_eq!(request.object_data_id, "mock_data");
    let message = request.into_message();
    assert_eq!(message.subject_user_id, "mock_user_a");
    let back = AuthorizeDataRequest::try_from(message).unwrap();
    assert_eq!(back.object_data_id, "mock_data");

    let request =
        AuthorizeFunctionRequest::new("mock_public_function_owner", "mock_public_function");
    assert_eq!(request.subject_user_id, "mock_public_function_owner");
    assert_eq!(request.object_function_id, "mock_public_function");
    let back = AuthorizeFunctionRequest::try_from(request.into_message()).unwrap();
    assert_eq!(back.object_function_id, "mock_public_function");

    let request = AuthorizeTaskRequest::new("mock_participant_a", "mock_task");
    assert_eq!(request.subject_user_id, "mock_participant_a");
    assert_eq!(request.object_task_id, "mock_task");
    let back = AuthorizeTaskRequest::try_from(request.into_message()).unwrap();
    assert_eq!(back.subject_user_id, "mock_participant_a");

    let request = AuthorizeStagedTaskRequest {
        subject_task_id: "mock_staged_task".to_string(),
        object_function_id: "mock_staged_allowed_private_function".to_string(),
        object_input_data_id_list: vec![
            "mock_staged_allowed_data1".to_string(),
            "mock_staged_allowed_data2".to_string(),
        ],
        object_output_data_id_list: vec!["mock_staged_allowed_data3".to_string()],
    };
    let message = request.into_message();
    assert_eq!(message.object_input_data_id_list.len(), 2);
    let back = AuthorizeStagedTaskRequest::try_from(message).unwrap();
    assert_eq!(back.subject_task_id, "mock_staged_task");
    assert_eq!(back.object_function_id, "mock_staged_allowed_private_function");
    assert_eq!(back.object_input_data_id_list[1], "mock_staged_allowed_data2");
    assert_eq!(back.object_output_data_id_list, vec!["mock_staged_allowed_data3".to_string()]);
}

#[test]
fn test_authorize_responses_keep_the_answer() {
    for accept in [true, false] {
        assert_eq!(AuthorizeDataResponse::new(accept).accept, accept);
        assert_eq!(AuthorizeFunctionResponse::new(accept).accept, accept);
        assert_eq!(AuthorizeTaskResponse::new(accept).accept, accept);
        assert_eq!(AuthorizeStagedTaskResponse::new(accept).accept, accept);
        assert_eq!(AuthorizeDataResponse::new(accept).into_message().accept, accept);
        assert_eq!(
            AuthorizeDataResponse::try_from(wire::AuthorizeDataResponse { accept }).unwrap().accept,
            accept
        );
        assert_eq!(
            AuthorizeFunctionResponse::try_from(AuthorizeFunctionResponse::new(accept).into_message())
                .unwrap()
                .accept,
            accept
        );
        assert_eq!(
            AuthorizeTaskResponse::try_from(AuthorizeTaskResponse::new(accept).into_message())
                .unwrap()
                .accept,
            accept
        );
        assert_eq!(
            AuthorizeStagedTaskResponse::try_from(
                AuthorizeStagedTaskResponse::new(accept).into_message()
            )
            .unwrap()
            .accept,
            accept
        );
    }
}

#[test]
fn entry_builder_sets_fields_and_defaults() {
    let entry = EntryBuilder::new()
        .microsecond(1_234)
        .ip(Ipv4Addr::new(10, 0, 0, 9))
        .user("alice".to_string())
        .message("create_task".to_string())
        .result(true)
        .build();
    assert_eq!(entry.microsecond(), 1_234);
    assert_eq!(entry.ip(), Ipv4Addr::new(10, 0, 0, 9));
    assert_eq!(entry.user(), "alice");
    assert_eq!(entry.message(), "create_task");
    assert!(entry.result());
    let bare = EntryBuilder::new().microsecond(-1).build();
    assert_eq!(bare.microsecond(), -1);
    assert_eq!(bare.ip(), Ipv4Addr::unspecified());
    assert_eq!(bare.user(), "");
    assert_eq!(bare.message(), "");
    assert!(!bare.result());
    assert!(Entry::default().same_as(&EntryBuilder::new().build_at(0)));
    assert!(!Entry::default().same_as(&EntryBuilder::new().build_at(1)));
    assert!(entry.clone().same_as(&entry));
    let later = EntryBuilder::new().microsecond(1).microsecond(2).build();
    assert_eq!(later.microsecond(), 2);
    let default_builder: EntryBuilder = Default::default();
    assert_eq!(default_builder.build_at(77).microsecond(), 77);
    // Without a time the clock is read: some time after the year 2020.
    let stamped = EntryBuilder::new().build();
    assert!(stamped.microsecond() > 1_577_836_800_000_000);
}

#[test]
fn entry_message_wants_four_address_bytes() {
    let message = wire::Entry {
        microsecond: 99,
        ip: vec![172, 16, 254, 1],
        user: "bob".to_string(),
        message: "approve_task".to_string(),
        result: false,
    };
    let entry = entry_from_message(&message).unwrap();
    assert_eq!(entry.microsecond(), 99);
    assert_eq!(entry.ip(), Ipv4Addr::new(172, 16, 254, 1));
    assert_eq!(entry.user(), "bob");
    assert_eq!(entry.message(), "approve_task");
    assert!(!entry.result());
    let back = entry_into_message(&entry);
    assert_eq!(back.ip, vec![172, 16, 254, 1]);
    assert_eq!(back.microsecond, 99);
    assert_eq!(back.user, "bob");
    assert_eq!(back.message, "approve_task");
    assert!(!back.result);
    for bad in [vec![], vec![1, 2, 3], vec![1, 2, 3, 4, 5], vec![0; 16]] {
        let length = bad.len();
        let message = wire::Entry {
            microsecond: 0,
            ip: bad,
            user: String::new(),
            message: String::new(),
            result: true,
        };
        assert_eq!(
            entry_from_message(&message).err(),
            Some(MessageError::InvalidIpLength { length })
        );
    }
}

#[test]
fn save_logs_request_fails_on_the_first_bad_entry() {
    let entry = |ip: Vec<u8>, n: i64| wire::Entry {
        microsecond: n,
        ip,
        user: "u".to_string(),
        message: "m".to_string(),
        result: true,
    };
    let good = wire::SaveLogsRequest { logs: vec![entry(vec![1, 2, 3, 4], 1), entry(vec![5, 6, 7, 8], 2)] };
    let request = SaveLogsRequest::try_from(good).unwrap();
    assert_eq!(request.logs.len(), 2);
    assert_eq!(request.logs[1].ip(), Ipv4Addr::new(5, 6, 7, 8));
    assert_eq!(request.logs[0].microsecond(), 1);
    let message = request.into_message();
    assert_eq!(message.logs.len(), 2);
    assert_eq!(message.logs[0].ip, vec![1, 2, 3, 4]);
    assert_eq!(message.logs[1].microsecond, 2);
    let bad = wire::SaveLogsRequest {
        logs: vec![entry(vec![1, 2, 3, 4], 1), entry(vec![1, 2], 2), entry(vec![], 3)],
    };
    assert_eq!(
        SaveLogsRequest::try_from(bad).err(),
        Some(MessageError::InvalidIpLength { length: 2 })
    );
    assert_eq!(SaveLogsRequest::default().logs.len(), 0);
    assert_eq!(SaveLogsRequest::try_from(wire::SaveLogsRequest { logs: vec![] }).unwrap().logs.len(), 0);
    assert!(SaveLogsResponse::try_from(wire::SaveLogsResponse {}).is_ok());
    let _: wire::SaveLogsResponse = SaveLogsResponse {}.into_message();
}

#[test]
fn addresses_convert() {
    let v4 = Ipv4Addr::new(192, 168, 0, 1);
    assert_eq!(v4.octets(), [192, 168, 0, 1]);
    assert_eq!(v4.to_vec(), vec![192, 168, 0, 1]);
    assert_eq!(
        v4.to_ipv6_compatible().octets,
        [0, 0, 0, 0, 0, 0, 0, 0, 0, 0, 0, 0, 192, 168, 0, 1]
    );
    assert_eq!(Ipv4Addr::from_bytes(&[1, 2, 3, 4]), Some(Ipv4Addr::new(1, 2, 3, 4)));
    assert_eq!(Ipv4Addr::from_bytes(&[1, 2, 3]), None);
    assert_eq!(Ipv4Addr::from_bytes(&[1, 2, 3, 4, 5]), None);
    assert_eq!(Ipv4Addr::unspecified().octets(), [0, 0, 0, 0]);
    assert_eq!(Ipv6Addr::unspecified().octets, [0u8; 16]);
    let bytes: Vec<u8> = (1..=16).collect();
    let v6 = Ipv6Addr::from_bytes(&bytes).unwrap();
    assert_eq!(v6.to_vec(), bytes);
    assert!(Ipv6Addr::from_bytes(&bytes[..15]).is_none());
}

#[test]
fn file_tags_have_sixteen_bytes() {
    let bytes: Vec<u8> = (0..16).collect();
    let tag = FileAuthTag::from_bytes(&bytes).unwrap();
    assert_eq!(tag.to_bytes(), bytes);
    assert!(tag.same_as(&FileAuthTag { tag: tag.tag }));
    let mut other = tag.tag;
    other[15] = 0xff;
    assert!(!tag.same_as(&FileAuthTag { tag: other }));
    assert!(FileAuthTag::from_bytes(&bytes[..15]).is_none());
    assert!(FileAuthTag::from_bytes(&[0u8; 17]).is_none());
    assert!(FileAuthTag::from_bytes(&[]).is_none());
}

#[test]
fn scheduler_errors_are_worded() {
    let cases = [
        (SchedulerServiceError::Service("disk full".to_string()), "service internal error"),
        (SchedulerServiceError::TaskCanceled, "task to pull has been canceled"),
        (SchedulerServiceError::TaskQueueEmpty, "task queue is empty"),
        (SchedulerServiceError::StorageError, "storage service error"),
    ];
    for (error, text) in cases {
        assert_eq!(error.to_string(), text);
        match error.into_response() {
            ServiceResponseError::RequestError(message) => assert_eq!(message, text),
        }
    }
}
