use kafka_broker::api::{
    ApiVersionsRequest, DescribeTopicPartitionsRequest, ErrorCode, FetchRequest,
    FetchRequestTopic,
};
use kafka_broker::metadata_log::ClusterMetadataLog;
use kafka_broker::primitives::Uuid;
use kafka_broker::reader::{DecodeError, Reader};
use kafka_broker::server::{
    fetch_source, frame, frame_response, frame_size, handle_apiversions,
    handle_describe_topic_partitions, handle_fetch, handle_request, parse_request,
    parse_request_header, ApiKey, Request, RequestBody, RequestError, RequestHeader, Response,
    ResponseBody, ResponseHeader,
};

fn id(byte: u8) -> Uuid {
    Uuid { uuid: [byte; 16] }
}

fn header(api_key: i16, api_version: i16, correlation_id: i32, client_id: &str) -> Vec<u8> {
    let mut b = api_key.to_be_bytes().to_vec();
    b.extend(api_version.to_be_bytes());
    b.extend(correlation_id.to_be_bytes());
    b.extend((client_id.len() as i16).to_be_bytes());
    b.extend(client_id.as_bytes());
    b.push(0);
    b
}

fn compact_string(text: &str) -> Vec<u8> {
    let mut b = vec![text.len() as u8 + 1];
    b.extend(text.as_bytes());
    b
}

fn compact_ints(items: &[i32]) -> Vec<u8> {
    let mut b = vec![items.len() as u8 + 1];
    for i in items {
        b.extend(i.to_be_bytes());
    }
    b
}

fn topic_record(name: &str, uuid: u8) -> Vec<u8> {
    let mut v = vec![1, 2, 0];
    v.extend(compact_string(name));
    v.extend(vec![uuid; 16]);
    v.push(0);
    record(v)
}

fn partition_record(partition: i32, topic: u8, replicas: &[i32], isr: &[i32]) -> Vec<u8> {
    let mut v = vec![1, 3, 1];
    v.extend(partition.to_be_bytes());
    v.extend(vec![topic; 16]);
    v.extend(compact_ints(replicas));
    v.extend(compact_ints(isr));
    v.extend(compact_ints(&[]));
    v.extend(compact_ints(&[]));
    v.extend(7i32.to_be_bytes());
    v.extend(8i32.to_be_bytes());
    v.extend(9i32.to_be_bytes());
    v.push(1);
    v.push(0);
    record(v)
}

fn record(value: Vec<u8>) -> Vec<u8> {
    let mut b = vec![0x10, 0, 0, 0, 1];
    b.push(value.len() as u8);
    b.extend(value);
    b.push(0);
    b
}

fn batch(records: &[Vec<u8>]) -> Vec<u8> {
    let mut b = vec![0u8; 57];
    b.extend((records.len() as i32).to_be_bytes());
    for r in records {
        b.extend(r);
    }
    b
}

fn log_of(records: &[Vec<u8>]) -> ClusterMetadataLog {
    let mut log = ClusterMetadataLog::new("meta.log");
    log.load(batch(records)).unwrap();
    log
}

fn describe_request(correlation_id: i32, names: &[&str]) -> Vec<u8> {
    let mut b = header(75, 0, correlation_id, "cli");
    b.push(names.len() as u8 + 1);
    for n in names {
        b.extend(compact_string(n));
        b.push(0);
    }
    b.extend(100i32.to_be_bytes());
    b.push(0xff);
    b.push(0);
    b
}

fn fetch_request(correlation_id: i32, topics: &[u8]) -> Vec<u8> {
    let mut b = header(1, 16, correlation_id, "cli");
    b.extend(500i32.to_be_bytes());
    b.extend(1i32.to_be_bytes());
    b.extend(1024i32.to_be_bytes());
    b.push(0);
    b.extend(0i32.to_be_bytes());
    b.extend(0i32.to_be_bytes());
    b.push(topics.len() as u8 + 1);
    for t in topics {
        b.extend(vec![*t; 16]);
        b.push(2);
        b.extend(0i32.to_be_bytes());
        b.extend(0i32.to_be_bytes());
        b.extend(0i64.to_be_bytes());
        b.extend(0i32.to_be_bytes());
        b.extend(0i64.to_be_bytes());
        b.extend(1024i32.to_be_bytes());
        b.push(0);
        b.push(0);
    }
    b.push(1);
    b.push(1);
    b.push(0);
    b
}

fn answer(message: &[u8], log: &ClusterMetadataLog, data: Option<Vec<u8>>) -> Vec<u8> {
    let request = parse_request(message).ok().unwrap();
    let response = handle_request(&request, log, data);
    frame_response(&response).unwrap()
}

#[test]
fn api_keys_have_their_wire_numbers() {
    assert_eq!(ApiKey::Fetch.code(), 1);
    assert_eq!(ApiKey::ApiVersions.code(), 18);
    assert_eq!(ApiKey::DescribeTopicPartitions.code(), 75);
    assert_eq!(ApiKey::from_code(1), Some(ApiKey::Fetch));
    assert_eq!(ApiKey::from_code(18), Some(ApiKey::ApiVersions));
    assert_eq!(ApiKey::from_code(75), Some(ApiKey::DescribeTopicPartitions));
    assert_eq!(ApiKey::from_code(0), None);
    assert_eq!(ApiKey::from_code(3), None);
    assert_eq!(ApiKey::from_code(-1), None);
}

#[test]
fn request_header_decodes_its_fields_in_order() {
    let mut bytes = header(18, 4, 0x01020304, "kafka-cli");
    bytes.push(0x77);
    let mut r = Reader::new(bytes);
    let h = parse_request_header(&mut r).unwrap();
    assert_eq!(h.request_api_key, 18);
    assert_eq!(h.request_api_version, 4);
    assert_eq!(h.correlation_id, 0x01020304);
    assert_eq!(h.client_id, "kafka-cli");
    assert_eq!(r.len(), 1);
}

#[test]
fn request_header_takes_a_null_client_id() {
    let bytes = vec![0, 1, 0, 16, 0, 0, 0, 9, 0xff, 0xff, 0];
    let h = parse_request_header(&mut Reader::new(bytes)).unwrap();
    assert_eq!(h.request_api_key, 1);
    assert_eq!(h.request_api_version, 16);
    assert_eq!(h.correlation_id, 9);
    assert_eq!(h.client_id, "");
}

#[test]
fn request_header_needs_every_field() {
    let full = header(18, 4, 7, "abc");
    for cut in [0, 1, 3, 7, 9, 11, full.len() - 1] {
        let r = parse_request_header(&mut Reader::new(full[..cut].to_vec()));
        assert_eq!(r.err(), Some(DecodeError::UnexpectedEof));
    }
    let bad = vec![0, 18, 0, 4, 0, 0, 0, 7, 0xff, 0xf0, 0];
    assert_eq!(parse_request_header(&mut Reader::new(bad)).err(), Some(DecodeError::InvalidData));
}

#[test]
fn request_of_an_unknown_api_is_refused() {
    let mut message = header(3, 0, 7, "");
    message.extend(vec![1, 1, 0]);
    assert_eq!(parse_request(&message).err(), Some(RequestError::UnknownApiKey(3)));
    let message = header(-5, 0, 7, "");
    assert_eq!(parse_request(&message).err(), Some(RequestError::UnknownApiKey(-5)));
}

#[test]
fn malformed_request_is_refused() {
    assert_eq!(
        parse_request(&[]).err(),
        Some(RequestError::Malformed(DecodeError::UnexpectedEof))
    );
    assert_eq!(
        parse_request(&[0, 3, 0]).err(),
        Some(RequestError::Malformed(DecodeError::UnexpectedEof))
    );
    let mut message = header(18, 4, 7, "");
    message.extend(vec![1, 0, 0]);
    assert_eq!(
        parse_request(&message).err(),
        Some(RequestError::Malformed(DecodeError::InvalidData))
    );
    let message = header(18, 4, 7, "");
    assert_eq!(
        parse_request(&message).err(),
        Some(RequestError::Malformed(DecodeError::UnexpectedEof))
    );
    let message = header(1, 16, 7, "");
    assert_eq!(
        parse_request(&message).err(),
        Some(RequestError::Malformed(DecodeError::UnexpectedEof))
    );
    let message = header(75, 0, 7, "");
    assert_eq!(
        parse_request(&message).err(),
        Some(RequestError::Malformed(DecodeError::UnexpectedEof))
    );
}

#[test]
fn request_body_follows_the_api_key() {
    let mut message = header(18, 4, 7, "");
    message.extend(vec![2, b'a', 2, b'b', 0]);
    let request = parse_request(&message).ok().unwrap();
    assert_eq!(request.header.correlation_id, 7);
    match request.body {
        RequestBody::ApiVersions(b) => {
            assert_eq!(b.client_software_name, "a");
            assert_eq!(b.client_software_version, "b");
        }
        _ => panic!("not ApiVersions"),
    }
    let request = parse_request(&describe_request(8, &["foo"])).ok().unwrap();
    match request.body {
        RequestBody::DescribeTopicPartitions(b) => {
            assert_eq!(b.topics, vec![String::from("foo")]);
            assert_eq!(b.response_partition_limit, 100);
        }
        _ => panic!("not DescribeTopicPartitions"),
    }
    let request = parse_request(&fetch_request(9, &[3])).ok().unwrap();
    match request.body {
        RequestBody::Fetch(b) => {
            assert_eq!(b.max_wait_ms, 500);
            assert_eq!(b.topics.len(), 1);
            assert_eq!(b.topics[0].topic_id, id(3));
        }
        _ => panic!("not Fetch"),
    }
}

#[test]
fn api_versions_v4_happy_path() {
    let mut message = header(18, 4, 7, "");
    message.extend(vec![1, 1, 0]);
    let log = ClusterMetadataLog::new("meta.log");
    let bytes = answer(&message, &log, None);
    let mut expected = vec![0, 0, 0, 33];
    expected.extend(vec![0, 0, 0, 7]);
    expected.extend(vec![0, 0]);
    expected.push(4);
    expected.extend(vec![0, 1, 0, 0, 0, 16, 0]);
    expected.extend(vec![0, 18, 0, 0, 0, 4, 0]);
    expected.extend(vec![0, 75, 0, 0, 0, 0, 0]);
    expected.extend(vec![0, 0, 0, 0]);
    expected.push(0);
    assert_eq!(bytes, expected);
}

#[test]
fn api_versions_v99_unsupported() {
    let mut message = header(18, 99, 7, "");
    message.extend(vec![1, 1, 0]);
    let log = ClusterMetadataLog::new("meta.log");
    let bytes = answer(&message, &log, None);
    let mut expected = vec![0, 0, 0, 33];
    expected.extend(vec![0, 0, 0, 7]);
    expected.extend(vec![0, 35]);
    expected.push(4);
    expected.extend(vec![0, 1, 0, 0, 0, 16, 0]);
    expected.extend(vec![0, 18, 0, 0, 0, 4, 0]);
    expected.extend(vec![0, 75, 0, 0, 0, 0, 0]);
    expected.extend(vec![0, 0, 0, 0]);
    expected.push(0);
    assert_eq!(bytes, expected);
    assert!(!log.is_loaded());
}

#[test]
fn api_versions_error_follows_the_version() {
    let body = ApiVersionsRequest {
        client_software_name: String::new(),
        client_software_version: String::new(),
    };
    for (version, code) in
        [(0, 0), (1, 0), (4, 0), (5, 35), (-1, 35), (99, 35), (i16::MAX, 35), (i16::MIN, 35)]
    {
        let h = RequestHeader {
            request_api_key: 18,
            request_api_version: version,
            correlation_id: 1,
            client_id: String::new(),
        };
        let response = handle_apiversions(&h, &body);
        assert_eq!(response.error_code, code);
        assert_eq!(response.throttle_time_ms, 0);
        assert_eq!(response.api_keys.len(), 3);
        assert_eq!(response.api_keys[0].api_key, 1);
        assert_eq!(response.api_keys[0].min_version, 0);
        assert_eq!(response.api_keys[0].max_version, 16);
        assert_eq!(response.api_keys[1].api_key, 18);
        assert_eq!(response.api_keys[1].min_version, 0);
        assert_eq!(response.api_keys[1].max_version, 4);
        assert_eq!(response.api_keys[2].api_key, 75);
        assert_eq!(response.api_keys[2].min_version, 0);
        assert_eq!(response.api_keys[2].max_version, 0);
    }
}

#[test]
fn describe_topic_partitions_unknown_topic() {
    let log = log_of(&[topic_record("foo", 0xa1), partition_record(0, 0xa1, &[1], &[1])]);
    let bytes = answer(&describe_request(11, &["nope"]), &log, None);
    let mut payload = vec![0, 0, 0, 11];
    payload.push(0);
    payload.extend(vec![0, 0, 0, 0]);
    payload.push(2);
    payload.extend(vec![0, 3]);
    payload.extend(compact_string("nope"));
    payload.extend(vec![0u8; 16]);
    payload.push(0);
    payload.push(0);
    payload.extend(vec![0, 0, 0, 0]);
    payload.push(0);
    payload.push(0xff);
    payload.push(0);
    let mut expected = (payload.len() as i32).to_be_bytes().to_vec();
    expected.extend(payload);
    assert_eq!(bytes, expected);
}

#[test]
fn describe_topic_partitions_unknown_topic_in_an_empty_log() {
    let log = ClusterMetadataLog::new("meta.log");
    let h = RequestHeader {
        request_api_key: 75,
        request_api_version: 0,
        correlation_id: 1,
        client_id: String::new(),
    };
    let request = DescribeTopicPartitionsRequest {
        topics: vec![String::from("nope"), String::from("other")],
        response_partition_limit: 1,
        cursor: None,
    };
    let response = handle_describe_topic_partitions(&h, &request, &log);
    assert_eq!(response.throttle_time_ms, 0);
    assert!(response.next_cursor.is_none());
    assert_eq!(response.topics.len(), 1);
    assert_eq!(response.topics[0].error_code, ErrorCode::UnknownTopicOrPartition);
    assert_eq!(response.topics[0].name, Some(String::from("nope")));
    assert_eq!(response.topics[0].topic_id, Uuid::new());
    assert!(!response.topics[0].is_internal);
    assert!(response.topics[0].partitions.is_empty());
    assert_eq!(response.topics[0].topic_authorized_operations, 0);
}

#[test]
fn describe_topic_partitions_found_topic_with_two_partitions() {
    let log = log_of(&[
        topic_record("foo", 0xa1),
        partition_record(0, 0xa1, &[1, 2], &[1]),
        partition_record(1, 0xa1, &[2, 3], &[2, 3]),
    ]);
    let request = parse_request(&describe_request(12, &["foo"])).ok().unwrap();
    let response = handle_request(&request, &log, None);
    assert_eq!(response.header.correlation_id, 12);
    assert!(response.header.include_tag_buffer);
    let body = match response.body {
        ResponseBody::DescribeTopicPartitions(b) => b,
        _ => panic!("not DescribeTopicPartitions"),
    };
    assert_eq!(body.throttle_time_ms, 0);
    assert!(body.next_cursor.is_none());
    assert_eq!(body.topics.len(), 1);
    let topic = &body.topics[0];
    assert_eq!(topic.error_code, ErrorCode::NoError);
    assert_eq!(topic.name, Some(String::from("foo")));
    assert_eq!(topic.topic_id, id(0xa1));
    assert!(!topic.is_internal);
    assert_eq!(topic.topic_authorized_operations, 0);
    assert_eq!(topic.partitions.len(), 2);
    assert_eq!(topic.partitions[0].error_code, ErrorCode::NoError);
    assert_eq!(topic.partitions[0].partition_index, 0);
    assert_eq!(topic.partitions[0].leader_id, 7);
    assert_eq!(topic.partitions[0].leader_epoch, 8);
    assert_eq!(topic.partitions[0].replica_nodes, vec![1, 2]);
    assert_eq!(topic.partitions[0].isr_nodes, vec![1]);
    assert!(topic.partitions[0].eligible_leader_replicas.is_empty());
    assert!(topic.partitions[0].last_known_elr.is_empty());
    assert!(topic.partitions[0].offline_replicas.is_empty());
    assert_eq!(topic.partitions[1].error_code, ErrorCode::NoError);
    assert_eq!(topic.partitions[1].partition_index, 1);
    assert_eq!(topic.partitions[1].replica_nodes, vec![2, 3]);
    assert_eq!(topic.partitions[1].isr_nodes, vec![2, 3]);
}

#[test]
fn describe_topic_partitions_lists_topics_in_log_order() {
    let log = log_of(&[
        topic_record("b", 2),
        partition_record(0, 2, &[1], &[1]),
        topic_record("skipped", 9),
        partition_record(0, 9, &[5], &[5]),
        partition_record(1, 2, &[2], &[2]),
        topic_record("a", 1),
        partition_record(0, 1, &[3], &[3]),
        partition_record(2, 2, &[4], &[4]),
    ]);
    let h = RequestHeader {
        request_api_key: 75,
        request_api_version: 0,
        correlation_id: 1,
        client_id: String::new(),
    };
    let request = DescribeTopicPartitionsRequest {
        topics: vec![String::from("a"), String::from("b")],
        response_partition_limit: 10,
        cursor: None,
    };
    let response = handle_describe_topic_partitions(&h, &request, &log);
    assert_eq!(response.topics.len(), 2);
    assert_eq!(response.topics[0].name, Some(String::from("b")));
    assert_eq!(response.topics[0].topic_id, id(2));
    assert_eq!(response.topics[0].partitions.len(), 2);
    assert_eq!(response.topics[0].partitions[0].partition_index, 0);
    assert_eq!(response.topics[0].partitions[1].partition_index, 1);
    assert_eq!(response.topics[1].name, Some(String::from("a")));
    assert_eq!(response.topics[1].topic_id, id(1));
    assert_eq!(response.topics[1].partitions.len(), 1);
    assert_eq!(response.topics[1].partitions[0].replica_nodes, vec![3]);
}

#[test]
fn describe_topic_partitions_skips_partitions_before_any_topic() {
    let log = log_of(&[
        partition_record(0, 0, &[1], &[1]),
        partition_record(0, 5, &[1], &[1]),
        topic_record("foo", 5),
    ]);
    let h = RequestHeader {
        request_api_key: 75,
        request_api_version: 0,
        correlation_id: 1,
        client_id: String::new(),
    };
    let request = DescribeTopicPartitionsRequest {
        topics: vec![String::from("foo")],
        response_partition_limit: 10,
        cursor: None,
    };
    let response = handle_describe_topic_partitions(&h, &request, &log);
    assert_eq!(response.topics.len(), 1);
    assert_eq!(response.topics[0].error_code, ErrorCode::NoError);
    assert!(response.topics[0].partitions.is_empty());
}

#[test]
fn describe_topic_partitions_without_names_lists_nothing() {
    let log = log_of(&[topic_record("foo", 5)]);
    let h = RequestHeader {
        request_api_key: 75,
        request_api_version: 0,
        correlation_id: 1,
        client_id: String::new(),
    };
    let request = DescribeTopicPartitionsRequest {
        topics: vec![],
        response_partition_limit: 10,
        cursor: None,
    };
    let response = handle_describe_topic_partitions(&h, &request, &log);
    assert!(response.topics.is_empty());
    assert!(response.next_cursor.is_none());
}

#[test]
fn fetch_for_known_topic_with_non_empty_log() {
    let log = log_of(&[topic_record("foo", 0xa1)]);
    let request = parse_request(&fetch_request(21, &[0xa1])).ok().unwrap();
    assert_eq!(
        fetch_source(&request, &log),
        Some(String::from("/tmp/kraft-combined-logs/foo-0/00000000000000000000.log"))
    );
    let file = vec![0xde, 0xad, 0xbe, 0xef, 0x01];
    let response = handle_request(&request, &log, Some(file.clone()));
    assert_eq!(response.header.correlation_id, 21);
    assert!(response.header.include_tag_buffer);
    let body = match &response.body {
        ResponseBody::Fetch(b) => b,
        _ => panic!("not Fetch"),
    };
    assert_eq!(body.throttle_time_ms, 0);
    assert_eq!(body.error_code, ErrorCode::NoError);
    assert_eq!(body.session_id, 0);
    assert_eq!(body.responses.len(), 1);
    assert_eq!(body.responses[0].topic_id, id(0xa1));
    assert_eq!(body.responses[0].partitions.len(), 1);
    let partition = &body.responses[0].partitions[0];
    assert_eq!(partition.partition_index, 0);
    assert_eq!(partition.error_code, ErrorCode::NoError);
    assert_eq!(partition.high_watermark, 0);
    assert_eq!(partition.last_stable_offset, 0);
    assert_eq!(partition.log_start_offset, 0);
    assert!(partition.aborted_transactions.is_empty());
    assert_eq!(partition.preferred_read_replica, 0);
    assert_eq!(partition.records, file);

    let mut payload = vec![0, 0, 0, 21, 0];
    payload.extend(vec![0, 0, 0, 0, 0, 0, 0, 0, 0, 0]);
    payload.push(2);
    payload.extend(vec![0xa1; 16]);
    payload.push(2);
    payload.extend(vec![0, 0, 0, 0, 0, 0]);
    payload.extend(vec![0u8; 24]);
    payload.push(0);
    payload.extend(vec![0, 0, 0, 0]);
    payload.push(6);
    payload.extend(file);
    payload.push(0);
    payload.push(0);
    payload.push(0);
    let mut expected = (payload.len() as i32).to_be_bytes().to_vec();
    expected.extend(payload);
    assert_eq!(frame_response(&response), Some(expected));
}

#[test]
fn fetch_for_unknown_topic_id() {
    let log = log_of(&[topic_record("foo", 0xa1)]);
    let request = parse_request(&fetch_request(22, &[0xb2])).ok().unwrap();
    assert_eq!(fetch_source(&request, &log), None);
    let response = handle_request(&request, &log, None);
    let body = match &response.body {
        ResponseBody::Fetch(b) => b,
        _ => panic!("not Fetch"),
    };
    assert_eq!(body.error_code, ErrorCode::NoError);
    assert_eq!(body.responses.len(), 1);
    assert_eq!(body.responses[0].topic_id, id(0xb2));
    assert_eq!(body.responses[0].partitions.len(), 1);
    assert!(body.responses[0].partitions[0].records.is_empty());
    assert_eq!(body.responses[0].partitions[0].error_code, ErrorCode::UnknownTopic);
    assert_eq!(body.responses[0].partitions[0].error_code.code(), 100);
}

#[test]
fn fetch_without_topics_answers_no_topic() {
    let log = log_of(&[topic_record("foo", 0xa1)]);
    let request = parse_request(&fetch_request(23, &[])).ok().unwrap();
    assert_eq!(fetch_source(&request, &log), None);
    let bytes = frame_response(&handle_request(&request, &log, None)).unwrap();
    assert_eq!(bytes, vec![0, 0, 0, 17, 0, 0, 0, 23, 0, 0, 0, 0, 0, 0, 0, 0, 0, 0, 0, 0, 0]);
}

#[test]
fn fetch_answers_the_first_topic_only() {
    let h = RequestHeader {
        request_api_key: 1,
        request_api_version: 16,
        correlation_id: 1,
        client_id: String::new(),
    };
    let request = FetchRequest {
        max_wait_ms: 0,
        min_bytes: 0,
        max_bytes: 0,
        isolation_level: 0,
        session_id: 5,
        session_epoch: 6,
        topics: vec![
            FetchRequestTopic { topic_id: id(1), partitions: vec![] },
            FetchRequestTopic { topic_id: id(2), partitions: vec![] },
        ],
        forgotten_topics_data: vec![],
        rack_id: String::new(),
    };
    let response = handle_fetch(&h, &request, Some(vec![]));
    assert_eq!(response.session_id, 0);
    assert_eq!(response.responses.len(), 1);
    assert_eq!(response.responses[0].topic_id, id(1));
    assert_eq!(response.responses[0].partitions[0].error_code, ErrorCode::NoError);
    assert!(response.responses[0].partitions[0].records.is_empty());
}

#[test]
fn fetch_source_is_none_for_other_apis() {
    let log = log_of(&[topic_record("foo", 0xa1)]);
    let request = parse_request(&describe_request(1, &["foo"])).ok().unwrap();
    assert_eq!(fetch_source(&request, &log), None);
    let mut message = header(18, 4, 7, "");
    message.extend(vec![1, 1, 0]);
    let request = parse_request(&message).ok().unwrap();
    assert_eq!(fetch_source(&request, &log), None);
}

#[test]
fn response_carries_the_correlation_id_of_its_request() {
    let log = log_of(&[topic_record("foo", 0xa1)]);
    for correlation_id in [0, 1, -1, i32::MAX, i32::MIN, 0x01020304] {
        let bytes = answer(&describe_request(correlation_id, &["foo"]), &log, None);
        assert_eq!(&bytes[4..8], &correlation_id.to_be_bytes());
        let bytes = answer(&fetch_request(correlation_id, &[1]), &log, None);
        assert_eq!(&bytes[4..8], &correlation_id.to_be_bytes());
        let mut message = header(18, 4, correlation_id, "");
        message.extend(vec![1, 1, 0]);
        let bytes = answer(&message, &log, None);
        assert_eq!(&bytes[4..8], &correlation_id.to_be_bytes());
    }
}

#[test]
fn response_header_has_a_tag_buffer_unless_api_versions() {
    let body = ApiVersionsRequest {
        client_software_name: String::new(),
        client_software_version: String::new(),
    };
    let h = RequestHeader {
        request_api_key: 18,
        request_api_version: 4,
        correlation_id: 3,
        client_id: String::new(),
    };
    let with = Response {
        header: ResponseHeader { correlation_id: 3, include_tag_buffer: true },
        body: ResponseBody::ApiVersions(handle_apiversions(&h, &body)),
    };
    let without = Response {
        header: ResponseHeader { correlation_id: 3, include_tag_buffer: false },
        body: ResponseBody::ApiVersions(handle_apiversions(&h, &body)),
    };
    let a = with.encode();
    let b = without.encode();
    assert_eq!(a.len(), b.len() + 1);
    assert_eq!(&a[..5], &[0, 0, 0, 3, 0]);
    assert_eq!(&b[..4], &[0, 0, 0, 3]);
    assert_eq!(&a[5..], &b[4..]);
    let request = Request { header: h, body: RequestBody::ApiVersions(body) };
    let response = handle_request(&request, &ClusterMetadataLog::new("x"), None);
    assert!(!response.header.include_tag_buffer);
    assert_eq!(response.encode(), b);
}

#[test]
fn frame_is_the_length_and_the_payload() {
    assert_eq!(frame(vec![]), Some(vec![0, 0, 0, 0]));
    assert_eq!(frame(vec![9]), Some(vec![0, 0, 0, 1, 9]));
    assert_eq!(frame(vec![1, 2, 3]), Some(vec![0, 0, 0, 3, 1, 2, 3]));
    let payload = vec![0x5a; 300];
    let framed = frame(payload.clone()).unwrap();
    assert_eq!(&framed[..4], &[0, 0, 1, 0x2c]);
    assert_eq!(&framed[4..], &payload[..]);
    let payload = vec![1u8; 70000];
    let framed = frame(payload.clone()).unwrap();
    assert_eq!(&framed[..4], &70000i32.to_be_bytes());
    assert_eq!(framed.len(), 70004);
}

#[test]
fn frame_size_is_a_big_endian_int32() {
    assert_eq!(frame_size([0, 0, 0, 0]), Ok(0));
    assert_eq!(frame_size([0, 0, 0, 35]), Ok(35));
    assert_eq!(frame_size([0, 0, 1, 0]), Ok(256));
    assert_eq!(frame_size([0x7f, 0xff, 0xff, 0xff]), Ok(i32::MAX as usize));
    assert_eq!(frame_size([0xff, 0xff, 0xff, 0xff]), Err(DecodeError::InvalidData));
    assert_eq!(frame_size([0x80, 0, 0, 0]), Err(DecodeError::InvalidData));
}

#[test]
fn frame_size_reads_what_frame_wrote() {
    for n in [0usize, 1, 255, 256, 65536] {
        let framed = frame(vec![0; n]).unwrap();
        assert_eq!(frame_size([framed[0], framed[1], framed[2], framed[3]]), Ok(n));
    }
}
