//! What the broker does with one request: decode it, answer it from the
//! metadata log, and frame the answer. Nothing here touches a socket or a
//! file; the caller reads the frame, reads the topic log that
//! [`fetch_source`] names, and writes what [`frame_response`] returns.

use crate::api::{
    put, ApiKeys, ApiVersionsRequest, ApiVersionsRequestModel, ApiVersionsResponse,
    DescribeTopicPartitionsRequest, DescribeTopicPartitionsRequestModel,
    DescribeTopicPartitionsResponse, Encoder, ErrorCode, FetchRequest, FetchRequestModel,
    FetchResponse, FetchResponsePartition, FetchResponseResponse, Parser, Partition,
    PartitionModel, Topic, TopicModel,
};
use crate::metadata_log::{
    copy_ints, spec_message_path, spec_records, spec_topic_name, spec_topics, ClusterMetadataLog,
    PartitionRecord, PartitionRecordModel, RecordBody, RecordBodyModel, TopicRecordModel,
};
use crate::primitives::{
    encode_tag_buffer, parse_int16, parse_int32, parse_nullable_string, parse_tag_buffer,
    spec_encode_int32, spec_encode_tag_buffer, spec_parse_int16, spec_parse_int32,
    spec_parse_nullable_string, spec_parse_tag_buffer, zero_uuid, Uuid,
};
use crate::reader::{
    decoded, failure_of, rest_of, value_of, DecodeError, ParseResult, Reader,
};
use vstd::prelude::*;
use vstd::slice::slice_to_vec;

verus! {

/// The APIs that the broker answers.
#[derive(Clone, Copy, Debug, PartialEq, Eq, Structural)]
pub enum ApiKey {
    Fetch,
    ApiVersions,
    DescribeTopicPartitions,
}

impl ApiKey {
    /// The INT16 that names this API on the wire.
    pub open spec fn spec_code(self) -> i16 {
        match self {
            ApiKey::Fetch => 1,
            ApiKey::ApiVersions => 18,
            ApiKey::DescribeTopicPartitions => 75,
        }
    }

    /// The API that the INT16 `code` names, if the broker answers it.
    pub open spec fn spec_from_code(code: i16) -> Option<ApiKey> {
        if code == 1 {
            Some(ApiKey::Fetch)
        } else if code == 18 {
            Some(ApiKey::ApiVersions)
        } else if code == 75 {
            Some(ApiKey::DescribeTopicPartitions)
        } else {
            None
        }
    }

    /// The INT16 that names this API on the wire.
    pub fn code(self) -> (c: i16)
        ensures
            c == self.spec_code(),
    {
        match self {
            ApiKey::Fetch => 1,
            ApiKey::ApiVersions => 18,
            ApiKey::DescribeTopicPartitions => 75,
        }
    }

    /// The API that the INT16 `code` names, if the broker answers it.
    pub fn from_code(code: i16) -> (key: Option<ApiKey>)
        ensures
            key == ApiKey::spec_from_code(code),
    {
        if code == 1 {
            Some(ApiKey::Fetch)
        } else if code == 18 {
            Some(ApiKey::ApiVersions)
        } else if code == 75 {
            Some(ApiKey::DescribeTopicPartitions)
        } else {
            None
        }
    }
}

/// Why a request could not be taken.
#[derive(Clone, Copy, Debug, PartialEq, Eq, Structural)]
pub enum RequestError {
    /// The header or the body did not decode.
    Malformed(DecodeError),
    /// The header names an API that the broker does not answer.
    UnknownApiKey(i16),
}

/// The header in front of every request.
#[derive(Debug)]
pub struct RequestHeader {
    pub request_api_key: i16,
    pub request_api_version: i16,
    pub correlation_id: i32,
    pub client_id: String,
}

/// The model of a [`RequestHeader`].
pub struct RequestHeaderModel {
    pub request_api_key: i16,
    pub request_api_version: i16,
    pub correlation_id: i32,
    pub client_id: Seq<char>,
}

impl DeepView for RequestHeader {
    type V = RequestHeaderModel;

    open spec fn deep_view(&self) -> RequestHeaderModel {
        RequestHeaderModel {
            request_api_key: self.request_api_key,
            request_api_version: self.request_api_version,
            correlation_id: self.correlation_id,
            client_id: self.client_id@,
        }
    }
}

/// The request header: API key and version as INT16, the correlation id as
/// INT32, the client id as a nullable string, and a tag buffer.
pub open spec fn spec_parse_request_header(s: Seq<u8>) -> ParseResult<RequestHeaderModel> {
    let api_key = spec_parse_int16(s);
    let api_version = spec_parse_int16(rest_of(api_key));
    let correlation_id = spec_parse_int32(rest_of(api_version));
    let client_id = spec_parse_nullable_string(rest_of(correlation_id));
    let tags = spec_parse_tag_buffer(rest_of(client_id));
    if api_key is Err {
        failure_of(api_key)
    } else if api_version is Err {
        failure_of(api_version)
    } else if correlation_id is Err {
        failure_of(correlation_id)
    } else if client_id is Err {
        failure_of(client_id)
    } else if tags is Err {
        failure_of(tags)
    } else {
        Ok(
            (
                RequestHeaderModel {
                    request_api_key: value_of(api_key),
                    request_api_version: value_of(api_version),
                    correlation_id: value_of(correlation_id),
                    client_id: value_of(client_id),
                },
                rest_of(tags),
            ),
        )
    }
}

/// Decodes a request header.
pub fn parse_request_header(message: &mut Reader) -> (r: Result<RequestHeader, DecodeError>)
    ensures
        decoded(
            spec_parse_request_header(old(message).remaining()),
            r,
            final(message).remaining(),
        ),
{
    let request_api_key: i16 = parse_int16(message)?;
    let request_api_version: i16 = parse_int16(message)?;
    let correlation_id: i32 = parse_int32(message)?;
    let client_id = parse_nullable_string(message)?;
    let _ = parse_tag_buffer(message)?;
    Ok(RequestHeader { request_api_key, request_api_version, correlation_id, client_id })
}

/// The body of a request, by API.
pub enum RequestBody {
    Fetch(FetchRequest),
    ApiVersions(ApiVersionsRequest),
    DescribeTopicPartitions(DescribeTopicPartitionsRequest),
}

/// The model of a [`RequestBody`].
pub enum RequestBodyModel {
    Fetch(FetchRequestModel),
    ApiVersions(ApiVersionsRequestModel),
    DescribeTopicPartitions(DescribeTopicPartitionsRequestModel),
}

impl DeepView for RequestBody {
    type V = RequestBodyModel;

    open spec fn deep_view(&self) -> RequestBodyModel {
        match self {
            RequestBody::Fetch(b) => RequestBodyModel::Fetch(b.deep_view()),
            RequestBody::ApiVersions(b) => RequestBodyModel::ApiVersions(b.deep_view()),
            RequestBody::DescribeTopicPartitions(b) => RequestBodyModel::DescribeTopicPartitions(
                b.deep_view(),
            ),
        }
    }
}

/// A decoded request.
pub struct Request {
    pub header: RequestHeader,
    pub body: RequestBody,
}

/// The model of a [`Request`].
pub struct RequestModel {
    pub header: RequestHeaderModel,
    pub body: RequestBodyModel,
}

impl DeepView for Request {
    type V = RequestModel;

    open spec fn deep_view(&self) -> RequestModel {
        RequestModel { header: self.header.deep_view(), body: self.body.deep_view() }
    }
}

/// The body that follows a header for the API `key`.
pub open spec fn spec_parse_request_body(s: Seq<u8>, key: ApiKey) -> Result<
    RequestBodyModel,
    DecodeError,
> {
    match key {
        ApiKey::Fetch => match <FetchRequest as Parser<FetchRequest>>::spec_parse(s) {
            Ok((b, _)) => Ok(RequestBodyModel::Fetch(b)),
            Err(e) => Err(e),
        },
        ApiKey::ApiVersions => match <ApiVersionsRequest as Parser<
            ApiVersionsRequest,
        >>::spec_parse(s) {
            Ok((b, _)) => Ok(RequestBodyModel::ApiVersions(b)),
            Err(e) => Err(e),
        },
        ApiKey::DescribeTopicPartitions => match <DescribeTopicPartitionsRequest as Parser<
            DescribeTopicPartitionsRequest,
        >>::spec_parse(s) {
            Ok((b, _)) => Ok(RequestBodyModel::DescribeTopicPartitions(b)),
            Err(e) => Err(e),
        },
    }
}

/// The request that the bytes of one frame hold: the header, then the body
/// of the API that the header names. A header that does not decode comes
/// before an unknown API key, and that before a body that does not decode.
/// Bytes after the body are not looked at.
pub open spec fn spec_parse_request(s: Seq<u8>) -> Result<RequestModel, RequestError> {
    match spec_parse_request_header(s) {
        Err(e) => Err(RequestError::Malformed(e)),
        Ok((header, rest)) => match ApiKey::spec_from_code(header.request_api_key) {
            None => Err(RequestError::UnknownApiKey(header.request_api_key)),
            Some(key) => match spec_parse_request_body(rest, key) {
                Err(e) => Err(RequestError::Malformed(e)),
                Ok(body) => Ok(RequestModel { header, body }),
            },
        },
    }
}

/// Decodes the request in the bytes of one frame.
pub fn parse_request(message: &[u8]) -> (r: Result<Request, RequestError>)
    ensures
        match spec_parse_request(message@) {
            Ok(request) => r is Ok && r->Ok_0.deep_view() == request,
            Err(e) => r == Err::<Request, RequestError>(e),
        },
{
    let mut cursor = Reader::new(slice_to_vec(message));
    let header = match parse_request_header(&mut cursor) {
        Ok(h) => h,
        Err(e) => {
            return Err(RequestError::Malformed(e));
        },
    };
    let key = match ApiKey::from_code(header.request_api_key) {
        Some(k) => k,
        None => {
            return Err(RequestError::UnknownApiKey(header.request_api_key));
        },
    };
    let body = match key {
        ApiKey::Fetch => match FetchRequest::parse(&mut cursor) {
            Ok(req) => RequestBody::Fetch(req),
            Err(e) => {
                return Err(RequestError::Malformed(e));
            },
        },
        ApiKey::ApiVersions => match ApiVersionsRequest::parse(&mut cursor) {
            Ok(req) => RequestBody::ApiVersions(req),
            Err(e) => {
                return Err(RequestError::Malformed(e));
            },
        },
        ApiKey::DescribeTopicPartitions => match DescribeTopicPartitionsRequest::parse(
            &mut cursor,
        ) {
            Ok(req) => RequestBody::DescribeTopicPartitions(req),
            Err(e) => {
                return Err(RequestError::Malformed(e));
            },
        },
    };
    Ok(Request { header, body })
}

/// The APIs that the broker advertises, in the order it lists them: Fetch
/// 0 to 16, ApiVersions 0 to 4, DescribeTopicPartitions 0 to 0.
pub open spec fn supported_apis() -> Seq<ApiKeys> {
    seq![
        ApiKeys { api_key: 1, min_version: 0, max_version: 16 },
        ApiKeys { api_key: 18, min_version: 0, max_version: 4 },
        ApiKeys { api_key: 75, min_version: 0, max_version: 0 },
    ]
}

/// The error code of an ApiVersions response to a request of the version
/// `api_version`: none for the versions 0 to 4, unsupported version for any
/// other.
pub open spec fn spec_apiversions_error(api_version: i16) -> ErrorCode {
    if 0 <= api_version <= 4 {
        ErrorCode::NoError
    } else {
        ErrorCode::UnsupportedVersion
    }
}

/// Answers an ApiVersions request: the supported APIs are listed whatever
/// the version asked for, and the error code says whether that version is
/// one the broker speaks.
pub fn handle_apiversions(header: &RequestHeader, _body: &ApiVersionsRequest) -> (response:
    ApiVersionsResponse)
    ensures
        response.error_code == spec_apiversions_error(header.request_api_version).spec_code(),
        response.api_keys@ == supported_apis(),
        response.throttle_time_ms == 0,
{
    let error_code = if header.request_api_version >= 0 && header.request_api_version <= 4 {
        ErrorCode::NoError
    } else {
        ErrorCode::UnsupportedVersion
    };
    let mut api_keys: Vec<ApiKeys> = Vec::new();
    api_keys.push(ApiKeys { api_key: ApiKey::Fetch.code(), min_version: 0, max_version: 16 });
    api_keys.push(ApiKeys { api_key: ApiKey::ApiVersions.code(), min_version: 0, max_version: 4 });
    api_keys.push(
        ApiKeys { api_key: ApiKey::DescribeTopicPartitions.code(), min_version: 0, max_version: 0 },
    );
    assert(api_keys@ =~= supported_apis());
    ApiVersionsResponse { error_code: error_code.code(), api_keys, throttle_time_ms: 0 }
}

/// Whether `partition` is what a Fetch response says of partition 0 of a
/// topic whose log was read as `message_data`: the bytes of the log and no
/// error if it was read, no bytes and an unknown topic if it was not; every
/// offset zero and no aborted transaction.
pub open spec fn is_fetched_partition(
    message_data: Option<Vec<u8>>,
    partition: FetchResponsePartition,
) -> bool {
    &&& partition.partition_index == 0
    &&& partition.high_watermark == 0
    &&& partition.last_stable_offset == 0
    &&& partition.log_start_offset == 0
    &&& partition.aborted_transactions@.len() == 0
    &&& partition.preferred_read_replica == 0
    &&& match message_data {
        Some(data) => partition.error_code == ErrorCode::NoError && partition.records@ == data@,
        None => partition.error_code == ErrorCode::UnknownTopic && partition.records@.len() == 0,
    }
}

/// Whether `response` answers the Fetch `request`, given what was read of
/// the log of the first topic asked for. Only that topic is answered, with
/// its partition 0; a request without topics gets no topic back. The
/// response's own error code is always none.
pub open spec fn is_fetch_response(
    request: FetchRequest,
    message_data: Option<Vec<u8>>,
    response: FetchResponse,
) -> bool {
    &&& response.throttle_time_ms == 0
    &&& response.error_code == ErrorCode::NoError
    &&& response.session_id == 0
    &&& if request.topics@.len() == 0 {
        response.responses@.len() == 0
    } else {
        &&& response.responses@.len() == 1
        &&& response.responses@[0].topic_id == request.topics@[0].topic_id
        &&& response.responses@[0].partitions@.len() == 1
        &&& is_fetched_partition(message_data, response.responses@[0].partitions@[0])
    }
}

/// Answers a Fetch request. `message_data` is what the caller read of the
/// partition-0 log of the first topic asked for: `None` if there is no such
/// log or it could not be read.
pub fn handle_fetch(
    _header: &RequestHeader,
    request: &FetchRequest,
    message_data: Option<Vec<u8>>,
) -> (response: FetchResponse)
    ensures
        is_fetch_response(*request, message_data, response),
{
    let mut responses: Vec<FetchResponseResponse> = Vec::new();
    if request.topics.len() > 0 {
        let topic_id = request.topics[0].topic_id;
        let (error_code, records) = match message_data {
            Some(r) => (ErrorCode::NoError, r),
            None => (ErrorCode::UnknownTopic, Vec::new()),
        };
        let mut partitions: Vec<FetchResponsePartition> = Vec::new();
        partitions.push(
            FetchResponsePartition {
                partition_index: 0,
                error_code,
                high_watermark: 0,
                last_stable_offset: 0,
                log_start_offset: 0,
                aborted_transactions: Vec::new(),
                preferred_read_replica: 0,
                records,
            },
        );
        responses.push(FetchResponseResponse { topic_id, partitions });
    }
    FetchResponse {
        throttle_time_ms: 0,
        error_code: ErrorCode::NoError,
        session_id: 0,
        responses,
    }
}

/// The log file that the answer to `request` needs: for a Fetch with at
/// least one topic, the partition-0 log of the first topic, if the metadata
/// log knows a topic of that id; for anything else none.
pub open spec fn spec_fetch_source(request: RequestModel, log: ClusterMetadataLog) -> Option<
    Seq<char>,
> {
    match request.body {
        RequestBodyModel::Fetch(fetch) => if fetch.topics.len() == 0 {
            None
        } else {
            match spec_topic_name(
                spec_topics(spec_records(log.spec_batches())),
                fetch.topics[0].topic_id,
            ) {
                Some(name) => Some(spec_message_path(name)),
                None => None,
            }
        },
        _ => None,
    }
}

/// The path of the file whose bytes the caller reads and hands to
/// [`handle_request`], if the request needs one.
pub fn fetch_source(request: &Request, log: &ClusterMetadataLog) -> (path: Option<String>)
    ensures
        path.deep_view() == spec_fetch_source(request.deep_view(), *log),
{
    match &request.body {
        RequestBody::Fetch(fetch) => {
            if fetch.topics.len() == 0 {
                None
            } else {
                log.message_path(&fetch.topics[0].topic_id)
            }
        },
        _ => None,
    }
}

/// What the pass over the log has gathered so far: the topics found, and the
/// id of the topic found last.
pub struct DescribeState {
    pub topics: Seq<TopicModel>,
    pub current: Seq<u8>,
}

/// The response entry of a topic found in the log, before any partition is
/// added to it.
pub open spec fn found_topic(record: TopicRecordModel) -> TopicModel {
    TopicModel {
        error_code: ErrorCode::NoError,
        name: Some(record.topic_name),
        topic_id: record.topic_uuid,
        is_internal: false,
        partitions: Seq::empty(),
        topic_authorized_operations: 0,
    }
}

/// The response entry for a requested topic that the log does not know.
pub open spec fn unknown_topic(name: Seq<char>) -> TopicModel {
    TopicModel {
        error_code: ErrorCode::UnknownTopicOrPartition,
        name: Some(name),
        topic_id: zero_uuid(),
        is_internal: false,
        partitions: Seq::empty(),
        topic_authorized_operations: 0,
    }
}

/// The response entry of a partition record: its index, leader, leader epoch,
/// replicas and in-sync replicas; no error, and the other lists empty.
pub open spec fn described_partition(record: PartitionRecordModel) -> PartitionModel {
    PartitionModel {
        error_code: ErrorCode::NoError,
        partition_index: record.partition_id,
        leader_id: record.leader,
        leader_epoch: record.leader_epoch,
        replica_nodes: record.replicas,
        isr_nodes: record.isr,
        eligible_leader_replicas: Seq::empty(),
        last_known_elr: Seq::empty(),
        offline_replicas: Seq::empty(),
    }
}

/// `topic` with `partition` added at the end of its partitions.
pub open spec fn with_partition(topic: TopicModel, partition: PartitionModel) -> TopicModel {
    TopicModel { partitions: topic.partitions.push(partition), ..topic }
}

/// What one record adds to the pass. A topic record whose name was asked for
/// becomes a new entry and the current topic. A partition record of the
/// current topic is added to the entry found last, if there is one. Any
/// other record changes nothing.
pub open spec fn describe_step(
    state: DescribeState,
    record: RecordBodyModel,
    names: Seq<Seq<char>>,
) -> DescribeState {
    match record {
        RecordBodyModel::Topic(t) => if names.contains(t.topic_name) {
            DescribeState { topics: state.topics.push(found_topic(t)), current: t.topic_uuid }
        } else {
            state
        },
        RecordBodyModel::Partition(p) => if p.topic_id == state.current && state.topics.len()
            > 0 {
            DescribeState {
                topics: state.topics.update(
                    state.topics.len() - 1,
                    with_partition(state.topics.last(), described_partition(p)),
                ),
                current: state.current,
            }
        } else {
            state
        },
        RecordBodyModel::FeatureLevel(_) => state,
    }
}

/// The pass over `records` in order, from no topic and the zero id.
pub open spec fn describe_scan(
    records: Seq<RecordBodyModel>,
    names: Seq<Seq<char>>,
) -> DescribeState
    decreases records.len(),
{
    if records.len() == 0 {
        DescribeState { topics: Seq::empty(), current: zero_uuid() }
    } else {
        describe_step(describe_scan(records.drop_last(), names), records.last(), names)
    }
}

/// The topics of a DescribeTopicPartitions response: those that the pass
/// over the log found, in log order; if it found none, one entry that
/// reports the first requested name as unknown; nothing if no name was
/// requested either.
pub open spec fn spec_describe(records: Seq<RecordBodyModel>, names: Seq<Seq<char>>) -> Seq<
    TopicModel,
> {
    let found = describe_scan(records, names).topics;
    if found.len() > 0 {
        found
    } else if names.len() > 0 {
        seq![unknown_topic(names[0])]
    } else {
        Seq::empty()
    }
}

/// Whether `topic` reports a topic that the log knows and that was asked
/// for: it carries no error, and its name and id are those of a topic record
/// of `records` whose name is among `names`.
pub open spec fn is_found_entry(
    topic: TopicModel,
    records: Seq<RecordBodyModel>,
    names: Seq<Seq<char>>,
) -> bool {
    &&& topic.error_code == ErrorCode::NoError
    &&& topic.name is Some
    &&& names.contains(topic.name->Some_0)
    &&& records.contains(
        RecordBodyModel::Topic(
            TopicRecordModel { topic_name: topic.name->Some_0, topic_uuid: topic.topic_id },
        ),
    )
}

/// Every topic that the pass gathers is a found entry.
proof fn lemma_scan_gathers_found_entries(records: Seq<RecordBodyModel>, names: Seq<Seq<char>>)
    ensures
        forall|i: int|
            0 <= i < describe_scan(records, names).topics.len() ==> is_found_entry(
                #[trigger] describe_scan(records, names).topics[i],
                records,
                names,
            ),
    decreases records.len(),
{
    if records.len() > 0 {
        let before = describe_scan(records.drop_last(), names);
        let after = describe_scan(records, names);
        lemma_scan_gathers_found_entries(records.drop_last(), names);
        assert forall|i: int| 0 <= i < after.topics.len() implies is_found_entry(
            #[trigger] after.topics[i],
            records,
            names,
        ) by {
            if i < before.topics.len() {
                let old_entry = before.topics[i];
                assert(is_found_entry(old_entry, records.drop_last(), names));
                let witness = RecordBodyModel::Topic(
                    TopicRecordModel {
                        topic_name: old_entry.name->Some_0,
                        topic_uuid: old_entry.topic_id,
                    },
                );
                let j = choose|j: int|
                    0 <= j < records.drop_last().len() && records.drop_last()[j] == witness;
                assert(records[j] == witness);
            } else {
                assert(records[records.len() - 1] == records.last());
            }
        }
    }
}

/// A request that names a topic is answered with at least one topic.
pub proof fn described_topics_are_never_missing(
    records: Seq<RecordBodyModel>,
    names: Seq<Seq<char>>,
)
    requires
        names.len() > 0,
    ensures
        spec_describe(records, names).len() > 0,
{
}

/// Every topic of an answer is of one of two kinds. Either it carries no
/// error and is a found entry; or it carries the unknown-topic error, the
/// zero id and no partition, names the first requested topic, and is the
/// only topic of the answer.
pub proof fn described_topics_are_found_or_unknown(
    records: Seq<RecordBodyModel>,
    names: Seq<Seq<char>>,
    i: int,
)
    requires
        0 <= i < spec_describe(records, names).len(),
    ensures
        ({
            let topic = spec_describe(records, names)[i];
            if topic.error_code == ErrorCode::NoError {
                is_found_entry(topic, records, names)
            } else {
                &&& topic == unknown_topic(names[0])
                &&& topic.topic_id == zero_uuid()
                &&& spec_describe(records, names).len() == 1
            }
        }),
{
    lemma_scan_gathers_found_entries(records, names);
}

/// Whether `name` is one of `names`.
fn contains_name(names: &Vec<String>, name: &String) -> (b: bool)
    ensures
        b == names.deep_view().contains(name@),
{
    let mut i: usize = 0;
    while i < names.len()
        invariant
            i <= names.len(),
            forall|j: int| 0 <= j < i ==> names.deep_view()[j] != name@,
        decreases names.len() - i,
    {
        if names[i] == *name {
            assert(names.deep_view()[i as int] == name@);
            return true;
        }
        i = i + 1;
    }
    false
}

/// The response entry of a partition record.
fn describe_partition(record: &PartitionRecord) -> (partition: Partition)
    ensures
        partition.deep_view() == described_partition(record.deep_view()),
{
    let partition = Partition {
        error_code: ErrorCode::NoError,
        partition_index: record.partition_id,
        leader_id: record.leader,
        leader_epoch: record.leader_epoch,
        replica_nodes: copy_ints(&record.replicas),
        isr_nodes: copy_ints(&record.isr),
        eligible_leader_replicas: Vec::new(),
        last_known_elr: Vec::new(),
        offline_replicas: Vec::new(),
    };
    assert(partition.replica_nodes.deep_view() =~= record.replicas.deep_view());
    assert(partition.isr_nodes.deep_view() =~= record.isr.deep_view());
    assert(partition.eligible_leader_replicas.deep_view() =~= Seq::<i32>::empty());
    assert(partition.last_known_elr.deep_view() =~= Seq::<i32>::empty());
    assert(partition.offline_replicas.deep_view() =~= Seq::<i32>::empty());
    partition
}

/// Answers a DescribeTopicPartitions request from the metadata log.
pub fn handle_describe_topic_partitions(
    _header: &RequestHeader,
    request: &DescribeTopicPartitionsRequest,
    metadata_log: &ClusterMetadataLog,
) -> (response: DescribeTopicPartitionsResponse)
    ensures
        response.throttle_time_ms == 0,
        response.next_cursor is None,
        response.topics.deep_view() == spec_describe(
            spec_records(metadata_log.spec_batches()),
            request.topics.deep_view(),
        ),
{
    let records = metadata_log.records();
    let ghost all = records.deep_view();
    let ghost names = request.topics.deep_view();
    let mut topics: Vec<Topic> = Vec::new();
    let mut topic_id = Uuid::new();
    let mut i: usize = 0;
    assert(topics.deep_view() =~= Seq::<TopicModel>::empty());
    while i < records.len()
        invariant
            i <= records.len(),
            all == records.deep_view(),
            names == request.topics.deep_view(),
            describe_scan(all.take(i as int), names) == (DescribeState {
                topics: topics.deep_view(),
                current: topic_id.deep_view(),
            }),
        decreases records.len() - i,
    {
        let ghost before = topics.deep_view();
        assert(all.take(i + 1).drop_last() =~= all.take(i as int));
        assert(all.take(i + 1).last() == records[i as int].deep_view());
        match &records[i] {
            RecordBody::Topic(topic) => {
                if contains_name(&request.topics, &topic.topic_name) {
                    topic_id = topic.topic_uuid;
                    let found = Topic {
                        error_code: ErrorCode::NoError,
                        name: Some(topic.topic_name.clone()),
                        topic_id,
                        is_internal: false,
                        partitions: Vec::new(),
                        topic_authorized_operations: 0,
                    };
                    assert(found.partitions.deep_view() =~= Seq::<PartitionModel>::empty());
                    topics.push(found);
                    assert(topics.deep_view() =~= before.push(found_topic(topic.deep_view())));
                }
            },
            RecordBody::Partition(partition) => {
                if partition.topic_id.same(&topic_id) && topics.len() > 0 {
                    let described = describe_partition(partition);
                    let mut last = topics.pop().unwrap();
                    let ghost old_partitions = last.partitions.deep_view();
                    let ghost old_last = last.deep_view();
                    assert(old_last == before.last());
                    last.partitions.push(described);
                    assert(last.partitions.deep_view() =~= old_partitions.push(
                        described.deep_view(),
                    ));
                    topics.push(last);
                    assert(topics.deep_view() =~= before.update(
                        before.len() - 1,
                        with_partition(before.last(), described_partition(partition.deep_view())),
                    ));
                }
            },
            RecordBody::FeatureLevel(_) => {},
        }
        i = i + 1;
    }
    assert(all.take(i as int) =~= all);
    if topics.len() == 0 && request.topics.len() > 0 {
        let stub = Topic {
            error_code: ErrorCode::UnknownTopicOrPartition,
            name: Some(request.topics[0].clone()),
            topic_id: Uuid::new(),
            is_internal: false,
            partitions: Vec::new(),
            topic_authorized_operations: 0,
        };
        assert(stub.partitions.deep_view() =~= Seq::<PartitionModel>::empty());
        assert(stub.deep_view() == unknown_topic(names[0]));
        topics.push(stub);
        assert(topics.deep_view() =~= seq![unknown_topic(names[0])]);
    }
    DescribeTopicPartitionsResponse { throttle_time_ms: 0, topics, next_cursor: None }
}

/// The header in front of every response.
pub struct ResponseHeader {
    pub correlation_id: i32,
    pub include_tag_buffer: bool,
}

/// The body of a response, by API.
pub enum ResponseBody {
    Fetch(FetchResponse),
    ApiVersions(ApiVersionsResponse),
    DescribeTopicPartitions(DescribeTopicPartitionsResponse),
}

/// A response, ready to be encoded.
pub struct Response {
    pub header: ResponseHeader,
    pub body: ResponseBody,
}

/// Whether `response` answers `request`: it carries the request's
/// correlation id, its body is the answer of the request's API, and its
/// header has a tag buffer unless the API is ApiVersions.
pub open spec fn is_response(
    request: Request,
    log: ClusterMetadataLog,
    message_data: Option<Vec<u8>>,
    response: Response,
) -> bool {
    &&& response.header.correlation_id == request.header.correlation_id
    &&& match request.body {
        RequestBody::Fetch(body) => {
            &&& response.header.include_tag_buffer
            &&& response.body is Fetch
            &&& is_fetch_response(body, message_data, response.body->Fetch_0)
        },
        RequestBody::ApiVersions(body) => {
            &&& !response.header.include_tag_buffer
            &&& response.body is ApiVersions
            &&& response.body->ApiVersions_0.error_code == spec_apiversions_error(
                request.header.request_api_version,
            ).spec_code()
            &&& response.body->ApiVersions_0.api_keys@ == supported_apis()
            &&& response.body->ApiVersions_0.throttle_time_ms == 0
        },
        RequestBody::DescribeTopicPartitions(body) => {
            &&& response.header.include_tag_buffer
            &&& response.body is DescribeTopicPartitions
            &&& response.body->DescribeTopicPartitions_0.throttle_time_ms == 0
            &&& response.body->DescribeTopicPartitions_0.next_cursor is None
            &&& response.body->DescribeTopicPartitions_0.topics.deep_view() == spec_describe(
                spec_records(log.spec_batches()),
                body.topics.deep_view(),
            )
        },
    }
}

/// Answers a request. `message_data` is what the caller read of the file
/// that [`fetch_source`] named for this request, `None` if it named none or
/// the file could not be read.
pub fn handle_request(
    request: &Request,
    metadata_log: &ClusterMetadataLog,
    message_data: Option<Vec<u8>>,
) -> (response: Response)
    ensures
        is_response(*request, *metadata_log, message_data, response),
{
    let mut include_tag_buffer = true;
    let resp_body = match &request.body {
        RequestBody::Fetch(body) => {
            let resp = handle_fetch(&request.header, body, message_data);
            ResponseBody::Fetch(resp)
        },
        RequestBody::ApiVersions(body) => {
            include_tag_buffer = false;
            let resp = handle_apiversions(&request.header, body);
            ResponseBody::ApiVersions(resp)
        },
        RequestBody::DescribeTopicPartitions(body) => {
            let resp = handle_describe_topic_partitions(&request.header, body, metadata_log);
            ResponseBody::DescribeTopicPartitions(resp)
        },
    };
    Response {
        header: ResponseHeader {
            correlation_id: request.header.correlation_id,
            include_tag_buffer,
        },
        body: resp_body,
    }
}

impl ResponseBody {
    /// The bytes of the body on the wire.
    pub open spec fn spec_encode(&self) -> Seq<u8> {
        match self {
            ResponseBody::Fetch(r) => r.spec_encode(),
            ResponseBody::ApiVersions(r) => r.spec_encode(),
            ResponseBody::DescribeTopicPartitions(r) => r.spec_encode(),
        }
    }
}

impl Response {
    /// The payload of the response: the correlation id, the empty tag buffer
    /// if the header has one, and the body.
    pub open spec fn spec_encode(&self) -> Seq<u8> {
        spec_encode_int32(self.header.correlation_id) + (if self.header.include_tag_buffer {
            spec_encode_tag_buffer()
        } else {
            Seq::empty()
        }) + self.body.spec_encode()
    }

    /// Encodes the payload of the response.
    pub fn encode(&self) -> (out: Vec<u8>)
        ensures
            out@ == self.spec_encode(),
    {
        let mut msg = self.header.correlation_id.encode();
        if self.header.include_tag_buffer {
            put(&mut msg, encode_tag_buffer());
        } else {
            assert(msg@ + Seq::<u8>::empty() =~= msg@);
        }
        let body = match &self.body {
            ResponseBody::Fetch(r) => r.encode(),
            ResponseBody::ApiVersions(r) => r.encode(),
            ResponseBody::DescribeTopicPartitions(r) => r.encode(),
        };
        put(&mut msg, body);
        msg
    }
}

/// The largest payload that a frame can hold: its length is an INT32.
pub const MAX_FRAME_PAYLOAD: usize = 0x7fff_ffff;

/// A frame: the length of the payload as an INT32, then the payload.
pub open spec fn spec_frame(payload: Seq<u8>) -> Seq<u8>
    recommends
        payload.len() <= MAX_FRAME_PAYLOAD,
{
    spec_encode_int32(payload.len() as i32) + payload
}

/// Frames `payload`: exactly its length as a big-endian INT32 and then the
/// payload itself. A payload whose length does not fit an INT32 cannot be
/// framed.
pub fn frame(payload: Vec<u8>) -> (out: Option<Vec<u8>>)
    ensures
        payload@.len() <= MAX_FRAME_PAYLOAD ==> out is Some && out->Some_0@ == spec_frame(
            payload@,
        ),
        payload@.len() > MAX_FRAME_PAYLOAD ==> out is None,
{
    if payload.len() > MAX_FRAME_PAYLOAD {
        return None;
    }
    let mut out = (payload.len() as i32).encode();
    put(&mut out, payload);
    Some(out)
}

/// The frame of `response`, as it goes to the client.
pub fn frame_response(response: &Response) -> (out: Option<Vec<u8>>)
    ensures
        response.spec_encode().len() <= MAX_FRAME_PAYLOAD ==> out is Some && out->Some_0@
            == spec_frame(response.spec_encode()),
        response.spec_encode().len() > MAX_FRAME_PAYLOAD ==> out is None,
{
    frame(response.encode())
}

/// The number of payload bytes that follow a length prefix: the prefix read
/// as a big-endian INT32. A negative length is `InvalidData`.
pub open spec fn spec_frame_size(prefix: Seq<u8>) -> Result<usize, DecodeError>
    recommends
        prefix.len() == 4,
{
    let size = value_of(spec_parse_int32(prefix));
    if size < 0 {
        Err(DecodeError::InvalidData)
    } else {
        Ok(size as usize)
    }
}

/// Reads the four bytes in front of a frame.
pub fn frame_size(prefix: [u8; 4]) -> (r: Result<usize, DecodeError>)
    ensures
        r == spec_frame_size(prefix@),
{
    let mut bytes: Vec<u8> = Vec::new();
    bytes.push(prefix[0]);
    bytes.push(prefix[1]);
    bytes.push(prefix[2]);
    bytes.push(prefix[3]);
    assert(bytes@ =~= prefix@);
    let mut reader = Reader::new(bytes);
    match parse_int32(&mut reader) {
        Ok(size) => if size < 0 {
            Err(DecodeError::InvalidData)
        } else {
            Ok(size as usize)
        },
        Err(e) => Err(e),
    }
}

} // verus!
