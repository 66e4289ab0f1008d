use kafka_broker::api::{
    AbortedTransaction, ApiKeys, ApiVersionsRequest, ApiVersionsResponse, CompactRecord,
    DescribeTopicPartitionsRequest, DescribeTopicPartitionsResponse, Encoder, ErrorCode,
    FetchRequest, FetchRequestPartition, FetchRequestTopic, FetchResponse,
    FetchResponsePartition, FetchResponseResponse, ForgottenTopicsData, KCursor, Parser,
    Partition, Topic,
};
use kafka_broker::primitives::Uuid;
use kafka_broker::reader::{DecodeError, Reader};

fn id(byte: u8) -> Uuid {
    Uuid { uuid: [byte; 16] }
}

#[test]
fn error_codes_have_their_wire_numbers() {
    assert_eq!(ErrorCode::NoError.code(), 0);
    assert_eq!(ErrorCode::UnknownTopicOrPartition.code(), 3);
    assert_eq!(ErrorCode::UnsupportedVersion.code(), 35);
    assert_eq!(ErrorCode::UnknownTopic.code(), 100);
    assert_eq!(ErrorCode::NoError.encode(), vec![0, 0]);
    assert_eq!(ErrorCode::UnknownTopicOrPartition.encode(), vec![0, 3]);
    assert_eq!(ErrorCode::UnsupportedVersion.encode(), vec![0, 35]);
    assert_eq!(ErrorCode::UnknownTopic.encode(), vec![0, 100]);
}

#[test]
fn error_code_decodes_known_numbers_only() {
    assert_eq!(ErrorCode::parse(&mut Reader::new(vec![0, 0])), Ok(ErrorCode::NoError));
    assert_eq!(
        ErrorCode::parse(&mut Reader::new(vec![0, 3])),
        Ok(ErrorCode::UnknownTopicOrPartition)
    );
    assert_eq!(ErrorCode::parse(&mut Reader::new(vec![0, 35])), Ok(ErrorCode::UnsupportedVersion));
    assert_eq!(ErrorCode::parse(&mut Reader::new(vec![0, 100])), Ok(ErrorCode::UnknownTopic));
    assert_eq!(ErrorCode::parse(&mut Reader::new(vec![0, 1])), Err(DecodeError::InvalidData));
    assert_eq!(ErrorCode::parse(&mut Reader::new(vec![0xff, 0xff])), Err(DecodeError::InvalidData));
    assert_eq!(ErrorCode::parse(&mut Reader::new(vec![0])), Err(DecodeError::UnexpectedEof));
    for code in [
        ErrorCode::NoError,
        ErrorCode::UnknownTopicOrPartition,
        ErrorCode::UnsupportedVersion,
        ErrorCode::UnknownTopic,
    ] {
        assert_eq!(ErrorCode::parse(&mut Reader::new(code.encode())), Ok(code));
    }
}

#[test]
fn cursor_is_a_name_and_an_index() {
    let cursor = KCursor { topic_name: String::from("foo"), partition_index: 2 };
    assert_eq!(cursor.encode(), vec![4, b'f', b'o', b'o', 0, 0, 0, 2]);
    let mut r = Reader::new(vec![4, b'f', b'o', b'o', 0, 0, 0, 2, 0xee]);
    let back = KCursor::parse(&mut r).ok().unwrap();
    assert_eq!(back.topic_name, "foo");
    assert_eq!(back.partition_index, 2);
    assert_eq!(r.len(), 1);
    assert_eq!(
        KCursor::parse(&mut Reader::new(vec![4, b'f', b'o', b'o', 0, 0])).err(),
        Some(DecodeError::UnexpectedEof)
    );
    assert_eq!(KCursor::parse(&mut Reader::new(vec![0])).err(), Some(DecodeError::InvalidData));
}

#[test]
fn api_versions_request_is_two_strings_and_a_tag_buffer() {
    let mut r = Reader::new(vec![4, b'k', b'c', b'l', 3, b'1', b'0', 0, 0xaa]);
    let req = ApiVersionsRequest::parse(&mut r).ok().unwrap();
    assert_eq!(req.client_software_name, "kcl");
    assert_eq!(req.client_software_version, "10");
    assert_eq!(r.len(), 1);
    let req = ApiVersionsRequest::parse(&mut Reader::new(vec![1, 1, 0])).ok().unwrap();
    assert_eq!(req.client_software_name, "");
    assert_eq!(req.client_software_version, "");
    assert_eq!(
        ApiVersionsRequest::parse(&mut Reader::new(vec![1, 1])).err(),
        Some(DecodeError::UnexpectedEof)
    );
    assert_eq!(
        ApiVersionsRequest::parse(&mut Reader::new(vec![1, 0, 0])).err(),
        Some(DecodeError::InvalidData)
    );
}

#[test]
fn api_versions_response_lists_its_keys() {
    let response = ApiVersionsResponse {
        error_code: 0,
        api_keys: vec![
            ApiKeys { api_key: 1, min_version: 0, max_version: 16 },
            ApiKeys { api_key: 18, min_version: 0, max_version: 4 },
        ],
        throttle_time_ms: 5,
    };
    assert_eq!(
        response.encode(),
        vec![0, 0, 3, 0, 1, 0, 0, 0, 16, 0, 0, 18, 0, 0, 0, 4, 0, 0, 0, 0, 5, 0]
    );
    let empty = ApiVersionsResponse { error_code: 35, api_keys: vec![], throttle_time_ms: 0 };
    assert_eq!(empty.encode(), vec![0, 35, 0, 0, 0, 0, 0, 0]);
    assert_eq!(
        ApiKeys { api_key: 75, min_version: -1, max_version: 258 }.encode(),
        vec![0, 75, 0xff, 0xff, 1, 2, 0]
    );
}

#[test]
fn describe_request_is_names_limit_and_cursor() {
    let bytes = vec![
        3, 4, b'f', b'o', b'o', 0, 4, b'b', b'a', b'r', 0, 0, 0, 0, 100, 0xff, 0x55,
    ];
    let mut r = Reader::new(bytes);
    let req = DescribeTopicPartitionsRequest::parse(&mut r).ok().unwrap();
    assert_eq!(req.topics, vec![String::from("foo"), String::from("bar")]);
    assert_eq!(req.response_partition_limit, 100);
    assert!(req.cursor.is_none());
    assert_eq!(r.len(), 1);

    let bytes = vec![2, 2, b'x', 0, 0, 0, 0, 1, 0, 2, b'x', 0, 0, 0, 9];
    let req = DescribeTopicPartitionsRequest::parse(&mut Reader::new(bytes)).ok().unwrap();
    assert_eq!(req.topics, vec![String::from("x")]);
    assert_eq!(req.response_partition_limit, 1);
    let cursor = req.cursor.unwrap();
    assert_eq!(cursor.topic_name, "x");
    assert_eq!(cursor.partition_index, 9);

    let req = DescribeTopicPartitionsRequest::parse(&mut Reader::new(vec![0, 0, 0, 0, 1, 0xff]))
        .ok()
        .unwrap();
    assert!(req.topics.is_empty());
}

#[test]
fn describe_request_fails_where_a_field_fails() {
    assert_eq!(
        DescribeTopicPartitionsRequest::parse(&mut Reader::new(vec![2, 2, b'x'])).err(),
        Some(DecodeError::UnexpectedEof)
    );
    assert_eq!(
        DescribeTopicPartitionsRequest::parse(&mut Reader::new(vec![2, 0, 0])).err(),
        Some(DecodeError::InvalidData)
    );
    assert_eq!(
        DescribeTopicPartitionsRequest::parse(&mut Reader::new(vec![1, 0, 0, 0, 1])).err(),
        Some(DecodeError::UnexpectedEof)
    );
    assert_eq!(
        DescribeTopicPartitionsRequest::parse(&mut Reader::new(vec![1, 0, 0, 0, 1, 0, 0])).err(),
        Some(DecodeError::InvalidData)
    );
}

fn sample_partition() -> Partition {
    Partition {
        error_code: ErrorCode::NoError,
        partition_index: 1,
        leader_id: 2,
        leader_epoch: 3,
        replica_nodes: vec![1, 2],
        isr_nodes: vec![1],
        eligible_leader_replicas: vec![],
        last_known_elr: vec![],
        offline_replicas: vec![],
    }
}

fn sample_partition_bytes() -> Vec<u8> {
    vec![
        0, 0, 0, 0, 0, 1, 0, 0, 0, 2, 0, 0, 0, 3, 3, 0, 0, 0, 1, 0, 0, 0, 2, 2, 0, 0, 0, 1, 0, 0,
        0, 0,
    ]
}

#[test]
fn partition_encodes_its_fields_in_order() {
    assert_eq!(sample_partition().encode(), sample_partition_bytes());
}

#[test]
fn partition_decodes_its_fields_in_order() {
    let mut bytes = sample_partition_bytes();
    bytes.pop();
    bytes.push(0x99);
    let mut r = Reader::new(bytes);
    let p = Partition::parse(&mut r).ok().unwrap();
    assert_eq!(p.error_code, ErrorCode::NoError);
    assert_eq!(p.partition_index, 1);
    assert_eq!(p.leader_id, 2);
    assert_eq!(p.leader_epoch, 3);
    assert_eq!(p.replica_nodes, vec![1, 2]);
    assert_eq!(p.isr_nodes, vec![1]);
    assert!(p.eligible_leader_replicas.is_empty());
    assert!(p.last_known_elr.is_empty());
    assert!(p.offline_replicas.is_empty());
    assert_eq!(r.len(), 1);
    assert_eq!(
        Partition::parse(&mut Reader::new(vec![0, 9, 0, 0])).err(),
        Some(DecodeError::InvalidData)
    );
    assert_eq!(
        Partition::parse(&mut Reader::new(vec![0, 0, 0, 0])).err(),
        Some(DecodeError::UnexpectedEof)
    );
}

#[test]
fn topic_encodes_its_fields_in_order() {
    let topic = Topic {
        error_code: ErrorCode::UnknownTopicOrPartition,
        name: Some(String::from("nope")),
        topic_id: Uuid::new(),
        is_internal: false,
        partitions: vec![],
        topic_authorized_operations: 0,
    };
    let mut expected = vec![0, 3, 5, b'n', b'o', b'p', b'e'];
    expected.extend(vec![0u8; 16]);
    expected.extend(vec![0, 0, 0, 0, 0, 0, 0]);
    assert_eq!(topic.encode(), expected);

    let topic = Topic {
        error_code: ErrorCode::NoError,
        name: None,
        topic_id: id(7),
        is_internal: true,
        partitions: vec![sample_partition()],
        topic_authorized_operations: 0x0df8,
    };
    let mut expected = vec![0, 0, 0];
    expected.extend(vec![7u8; 16]);
    expected.push(1);
    expected.push(2);
    expected.extend(sample_partition_bytes());
    expected.extend(vec![0, 0, 0x0d, 0xf8, 0]);
    assert_eq!(topic.encode(), expected);
}

#[test]
fn topic_decodes_its_fields_in_order() {
    let mut bytes = vec![0, 0, 4, b'f', b'o', b'o'];
    bytes.extend(vec![7u8; 16]);
    bytes.push(1);
    bytes.push(2);
    let mut partition = sample_partition_bytes();
    partition.pop();
    bytes.extend(partition);
    bytes.extend(vec![0, 0, 0, 5]);
    let mut r = Reader::new(bytes);
    let topic = Topic::parse(&mut r).ok().unwrap();
    assert!(r.is_empty());
    assert_eq!(topic.error_code, ErrorCode::NoError);
    assert_eq!(topic.name, Some(String::from("foo")));
    assert_eq!(topic.topic_id, id(7));
    assert!(topic.is_internal);
    assert_eq!(topic.partitions.len(), 1);
    assert_eq!(topic.partitions[0].replica_nodes, vec![1, 2]);
    assert_eq!(topic.topic_authorized_operations, 5);
    assert_eq!(Topic::parse(&mut Reader::new(vec![0, 0, 0])).err(), Some(DecodeError::InvalidData));
}

#[test]
fn describe_response_encodes_its_fields_in_order() {
    let response = DescribeTopicPartitionsResponse {
        throttle_time_ms: 0,
        topics: vec![],
        next_cursor: None,
    };
    assert_eq!(response.encode(), vec![0, 0, 0, 0, 0, 0xff, 0]);
    let response = DescribeTopicPartitionsResponse {
        throttle_time_ms: 1,
        topics: vec![],
        next_cursor: Some(KCursor { topic_name: String::from("a"), partition_index: 3 }),
    };
    assert_eq!(response.encode(), vec![0, 0, 0, 1, 0, 0, 2, b'a', 0, 0, 0, 3, 0]);
}

fn fetch_partition_bytes(partition: u8) -> Vec<u8> {
    let mut b = vec![0, 0, 0, partition];
    b.extend(vec![0, 0, 0, 1]);
    b.extend(vec![0, 0, 0, 0, 0, 0, 0, 2]);
    b.extend(vec![0, 0, 0, 3]);
    b.extend(vec![0, 0, 0, 0, 0, 0, 0, 4]);
    b.extend(vec![0, 0, 0, 5]);
    b.push(0);
    b
}

#[test]
fn fetch_request_partition_is_six_numbers_and_a_tag_buffer() {
    let mut bytes = fetch_partition_bytes(9);
    bytes.push(0x33);
    let mut r = Reader::new(bytes);
    let p = FetchRequestPartition::parse(&mut r).ok().unwrap();
    assert_eq!(p.partition, 9);
    assert_eq!(p.current_leader_epoch, 1);
    assert_eq!(p.fetch_offset, 2);
    assert_eq!(p.last_fetched_epoch, 3);
    assert_eq!(p.log_start_offset, 4);
    assert_eq!(p.partition_max_bytes, 5);
    assert_eq!(r.len(), 1);
    let mut short = fetch_partition_bytes(9);
    short.pop();
    assert_eq!(
        FetchRequestPartition::parse(&mut Reader::new(short)).err(),
        Some(DecodeError::UnexpectedEof)
    );
}

#[test]
fn fetch_request_topic_is_an_id_and_partitions() {
    let mut bytes = vec![4u8; 16];
    bytes.push(3);
    bytes.extend(fetch_partition_bytes(0));
    bytes.extend(fetch_partition_bytes(1));
    bytes.push(0);
    let mut r = Reader::new(bytes);
    let t = FetchRequestTopic::parse(&mut r).ok().unwrap();
    assert!(r.is_empty());
    assert_eq!(t.topic_id, id(4));
    assert_eq!(t.partitions.len(), 2);
    assert_eq!(t.partitions[0].partition, 0);
    assert_eq!(t.partitions[1].partition, 1);
}

#[test]
fn forgotten_topics_data_is_an_id_and_partition_numbers() {
    let mut bytes = vec![5u8; 16];
    bytes.extend(vec![3, 0, 0, 0, 1, 0, 0, 0, 2, 0]);
    let mut r = Reader::new(bytes);
    let f = ForgottenTopicsData::parse(&mut r).ok().unwrap();
    assert!(r.is_empty());
    assert_eq!(f.topic_id, id(5));
    assert_eq!(f.partitions, vec![1, 2]);
}

fn fetch_request_bytes(topics: &[u8]) -> Vec<u8> {
    let mut bytes = vec![0, 0, 1, 0xf4];
    bytes.extend(vec![0, 0, 0, 1]);
    bytes.extend(vec![0x03, 0x20, 0, 0]);
    bytes.push(1);
    bytes.extend(vec![0, 0, 0, 0]);
    bytes.extend(vec![0xff, 0xff, 0xff, 0xff]);
    bytes.push(topics.len() as u8 + 1);
    for t in topics {
        bytes.extend(vec![*t; 16]);
        bytes.push(2);
        bytes.extend(fetch_partition_bytes(0));
        bytes.push(0);
    }
    bytes.push(1);
    bytes.extend(vec![3, b'r', b'1']);
    bytes.push(0);
    bytes
}

#[test]
fn fetch_request_decodes_its_fields_in_order() {
    let mut r = Reader::new(fetch_request_bytes(&[8, 9]));
    let req = FetchRequest::parse(&mut r).ok().unwrap();
    assert!(r.is_empty());
    assert_eq!(req.max_wait_ms, 500);
    assert_eq!(req.min_bytes, 1);
    assert_eq!(req.max_bytes, 0x03200000);
    assert_eq!(req.isolation_level, 1);
    assert_eq!(req.session_id, 0);
    assert_eq!(req.session_epoch, -1);
    assert_eq!(req.topics.len(), 2);
    assert_eq!(req.topics[0].topic_id, id(8));
    assert_eq!(req.topics[1].topic_id, id(9));
    assert_eq!(req.topics[0].partitions.len(), 1);
    assert!(req.forgotten_topics_data.is_empty());
    assert_eq!(req.rack_id, "r1");
}

#[test]
fn fetch_request_needs_every_field() {
    let full = fetch_request_bytes(&[8]);
    for cut in [0, 3, 12, 13, 21, 22, 30, full.len() - 1] {
        let r = FetchRequest::parse(&mut Reader::new(full[..cut].to_vec()));
        assert_eq!(r.err(), Some(DecodeError::UnexpectedEof));
    }
    assert!(FetchRequest::parse(&mut Reader::new(full)).is_ok());
}

#[test]
fn fetch_response_encodes_its_fields_in_order() {
    let empty = FetchResponse {
        throttle_time_ms: 0,
        error_code: ErrorCode::NoError,
        session_id: 0,
        responses: vec![],
    };
    assert_eq!(empty.encode(), vec![0, 0, 0, 0, 0, 0, 0, 0, 0, 0, 0, 0]);

    let partition = FetchResponsePartition {
        partition_index: 0,
        error_code: ErrorCode::UnknownTopic,
        high_watermark: 1,
        last_stable_offset: 2,
        log_start_offset: 3,
        aborted_transactions: vec![],
        preferred_read_replica: 4,
        records: vec![0xaa, 0xbb],
    };
    let mut partition_bytes = vec![0, 0, 0, 0, 0, 100];
    partition_bytes.extend(1i64.to_be_bytes());
    partition_bytes.extend(2i64.to_be_bytes());
    partition_bytes.extend(3i64.to_be_bytes());
    partition_bytes.push(0);
    partition_bytes.extend(vec![0, 0, 0, 4]);
    partition_bytes.extend(vec![3, 0xaa, 0xbb]);
    partition_bytes.push(0);
    assert_eq!(partition.encode(), partition_bytes);

    let topic = FetchResponseResponse { topic_id: id(6), partitions: vec![partition] };
    let mut topic_bytes = vec![6u8; 16];
    topic_bytes.push(2);
    topic_bytes.extend(partition_bytes);
    topic_bytes.push(0);
    assert_eq!(topic.encode(), topic_bytes);

    let response = FetchResponse {
        throttle_time_ms: 7,
        error_code: ErrorCode::NoError,
        session_id: 8,
        responses: vec![topic],
    };
    let mut expected = vec![0, 0, 0, 7, 0, 0, 0, 0, 0, 8, 2];
    expected.extend(topic_bytes);
    expected.push(0);
    assert_eq!(response.encode(), expected);
}

#[test]
fn placeholders_take_no_bytes() {
    assert_eq!(AbortedTransaction {}.encode(), Vec::<u8>::new());
    assert_eq!(CompactRecord {}.encode(), Vec::<u8>::new());
    let partition = FetchResponsePartition {
        partition_index: 0,
        error_code: ErrorCode::NoError,
        high_watermark: 0,
        last_stable_offset: 0,
        log_start_offset: 0,
        aborted_transactions: vec![AbortedTransaction {}, AbortedTransaction {}],
        preferred_read_replica: 0,
        records: vec![],
    };
    let bytes = partition.encode();
    assert_eq!(bytes[30], 3);
    assert_eq!(bytes.len(), 4 + 2 + 24 + 1 + 4 + 1 + 1);
}
