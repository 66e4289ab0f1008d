//! The request and response schemas, and the two traits every wire type
//! implements.

use crate::primitives::{
    encode_bool, encode_compact_array, encode_compact_nullable_string, encode_compact_string,
    encode_nullable_field, encode_tag_buffer, parse_bool, parse_compact_array,
    parse_compact_array_with_tag_buffer, parse_compact_string, parse_int16, parse_int32,
    parse_int64, parse_int8, parse_nullable_field, parse_tag_buffer, spec_encode_bool,
    spec_encode_compact_array, spec_encode_compact_nullable_string, spec_encode_compact_string,
    spec_encode_int16, spec_encode_int32, spec_encode_int64, spec_encode_nullable_field,
    spec_encode_tag_buffer, spec_parse_bool, spec_parse_compact_array,
    spec_parse_compact_string, spec_parse_int16, spec_parse_int32, spec_parse_int64,
    spec_parse_int8, spec_parse_nullable_field, spec_parse_tag_buffer, spec_parse_uuid,
    CompactString, Uuid,
};
use crate::reader::{
    decoded, failure_of, rest_of, value_of, DecodeError, ParseResult, Reader,
};
use vstd::prelude::*;

verus! {

/// A type that can be decoded from the wire. `spec_parse` is the format:
/// what a byte sequence decodes to, and what is left after it.
pub trait Parser<T: DeepView> {
    /// What the bytes `s` decode to.
    spec fn spec_parse(s: Seq<u8>) -> ParseResult<T::V>;

    /// Decodes one value from the front of what `reader` has left.
    fn parse(reader: &mut Reader) -> (r: Result<T, DecodeError>)
        ensures
            decoded(Self::spec_parse(old(reader).remaining()), r, final(reader).remaining()),
    ;
}

/// A type that can be encoded for the wire. `spec_encode` is the format.
pub trait Encoder {
    /// The bytes of `self` on the wire.
    spec fn spec_encode(&self) -> Seq<u8>;

    /// Encodes `self`.
    fn encode(&self) -> (out: Vec<u8>)
        ensures
            out@ == self.spec_encode(),
    ;
}

/// Appends `part` to `buf`.
pub(crate) fn put(buf: &mut Vec<u8>, part: Vec<u8>)
    ensures
        final(buf)@ == old(buf)@ + part@,
{
    let mut part = part;
    buf.append(&mut part);
}

/// The error codes this broker puts on the wire.
#[derive(Clone, Copy, Debug, PartialEq, Eq, Structural)]
pub enum ErrorCode {
    NoError,
    UnknownTopicOrPartition,
    UnsupportedVersion,
    UnknownTopic,
}

impl DeepView for ErrorCode {
    type V = ErrorCode;

    open spec fn deep_view(&self) -> ErrorCode {
        *self
    }
}

impl ErrorCode {
    /// The INT16 that stands for this code on the wire.
    pub open spec fn spec_code(self) -> i16 {
        match self {
            ErrorCode::NoError => 0,
            ErrorCode::UnknownTopicOrPartition => 3,
            ErrorCode::UnsupportedVersion => 35,
            ErrorCode::UnknownTopic => 100,
        }
    }

    /// The code that the INT16 `code` stands for, if any.
    pub open spec fn spec_from_code(code: i16) -> Option<ErrorCode> {
        if code == 0 {
            Some(ErrorCode::NoError)
        } else if code == 3 {
            Some(ErrorCode::UnknownTopicOrPartition)
        } else if code == 35 {
            Some(ErrorCode::UnsupportedVersion)
        } else if code == 100 {
            Some(ErrorCode::UnknownTopic)
        } else {
            None
        }
    }

    /// The INT16 that stands for this code on the wire.
    pub fn code(self) -> (c: i16)
        ensures
            c == self.spec_code(),
    {
        match self {
            ErrorCode::NoError => 0,
            ErrorCode::UnknownTopicOrPartition => 3,
            ErrorCode::UnsupportedVersion => 35,
            ErrorCode::UnknownTopic => 100,
        }
    }
}

impl Parser<ErrorCode> for ErrorCode {
    /// An INT16 that is one of the known codes; any other is `InvalidData`.
    open spec fn spec_parse(s: Seq<u8>) -> ParseResult<ErrorCode> {
        let code = spec_parse_int16(s);
        if code is Err {
            failure_of(code)
        } else {
            match ErrorCode::spec_from_code(value_of(code)) {
                Some(e) => Ok((e, rest_of(code))),
                None => Err(DecodeError::InvalidData),
            }
        }
    }

    fn parse(reader: &mut Reader) -> (r: Result<ErrorCode, DecodeError>)
        ensures
            decoded(
                <ErrorCode as Parser<ErrorCode>>::spec_parse(old(reader).remaining()),
                r,
                final(reader).remaining(),
            ),
    {
        let code: i16 = parse_int16(reader)?;
        if code == 0 {
            Ok(ErrorCode::NoError)
        } else if code == 3 {
            Ok(ErrorCode::UnknownTopicOrPartition)
        } else if code == 35 {
            Ok(ErrorCode::UnsupportedVersion)
        } else if code == 100 {
            Ok(ErrorCode::UnknownTopic)
        } else {
            Err(DecodeError::InvalidData)
        }
    }
}

impl Encoder for ErrorCode {
    open spec fn spec_encode(&self) -> Seq<u8> {
        spec_encode_int16(self.spec_code())
    }

    fn encode(&self) -> (out: Vec<u8>)
        ensures
            out@ == self.spec_encode(),
    {
        self.code().encode()
    }
}

/// Where a paged DescribeTopicPartitions listing goes on.
pub struct KCursor {
    pub topic_name: String,
    pub partition_index: i32,
}

/// The model of a [`KCursor`].
pub struct KCursorModel {
    pub topic_name: Seq<char>,
    pub partition_index: i32,
}

impl DeepView for KCursor {
    type V = KCursorModel;

    open spec fn deep_view(&self) -> KCursorModel {
        KCursorModel { topic_name: self.topic_name@, partition_index: self.partition_index }
    }
}

impl Parser<KCursor> for KCursor {
    /// A compact string, then an INT32.
    open spec fn spec_parse(s: Seq<u8>) -> ParseResult<KCursorModel> {
        let topic_name = spec_parse_compact_string(s);
        let partition_index = spec_parse_int32(rest_of(topic_name));
        if topic_name is Err {
            failure_of(topic_name)
        } else if partition_index is Err {
            failure_of(partition_index)
        } else {
            Ok(
                (
                    KCursorModel {
                        topic_name: value_of(topic_name),
                        partition_index: value_of(partition_index),
                    },
                    rest_of(partition_index),
                ),
            )
        }
    }

    fn parse(reader: &mut Reader) -> (r: Result<KCursor, DecodeError>)
        ensures
            decoded(
                <KCursor as Parser<KCursor>>::spec_parse(old(reader).remaining()),
                r,
                final(reader).remaining(),
            ),
    {
        let topic_name = parse_compact_string(reader)?;
        let partition_index: i32 = parse_int32(reader)?;
        Ok(KCursor { topic_name, partition_index })
    }
}

impl Encoder for KCursor {
    open spec fn spec_encode(&self) -> Seq<u8> {
        spec_encode_compact_string(self.topic_name@) + spec_encode_int32(self.partition_index)
    }

    fn encode(&self) -> (out: Vec<u8>)
        ensures
            out@ == self.spec_encode(),
    {
        let mut buf = encode_compact_string(&self.topic_name);
        put(&mut buf, self.partition_index.encode());
        buf
    }
}

/// One partition of a topic in a DescribeTopicPartitions response.
pub struct Partition {
    pub error_code: ErrorCode,
    pub partition_index: i32,
    pub leader_id: i32,
    pub leader_epoch: i32,
    pub replica_nodes: Vec<i32>,
    pub isr_nodes: Vec<i32>,
    pub eligible_leader_replicas: Vec<i32>,
    pub last_known_elr: Vec<i32>,
    pub offline_replicas: Vec<i32>,
}

/// The model of a [`Partition`].
pub struct PartitionModel {
    pub error_code: ErrorCode,
    pub partition_index: i32,
    pub leader_id: i32,
    pub leader_epoch: i32,
    pub replica_nodes: Seq<i32>,
    pub isr_nodes: Seq<i32>,
    pub eligible_leader_replicas: Seq<i32>,
    pub last_known_elr: Seq<i32>,
    pub offline_replicas: Seq<i32>,
}

impl DeepView for Partition {
    type V = PartitionModel;

    open spec fn deep_view(&self) -> PartitionModel {
        PartitionModel {
            error_code: self.error_code,
            partition_index: self.partition_index,
            leader_id: self.leader_id,
            leader_epoch: self.leader_epoch,
            replica_nodes: self.replica_nodes.deep_view(),
            isr_nodes: self.isr_nodes.deep_view(),
            eligible_leader_replicas: self.eligible_leader_replicas.deep_view(),
            last_known_elr: self.last_known_elr.deep_view(),
            offline_replicas: self.offline_replicas.deep_view(),
        }
    }
}

impl Parser<Partition> for Partition {
    /// The fields in order, every list a compact array of INT32; no tag
    /// buffer is read.
    open spec fn spec_parse(s: Seq<u8>) -> ParseResult<PartitionModel> {
        let error_code = <ErrorCode as Parser<ErrorCode>>::spec_parse(s);
        let partition_index = spec_parse_int32(rest_of(error_code));
        let leader_id = spec_parse_int32(rest_of(partition_index));
        let leader_epoch = spec_parse_int32(rest_of(leader_id));
        let replica_nodes = spec_parse_compact_array::<i32>(rest_of(leader_epoch), false);
        let isr_nodes = spec_parse_compact_array::<i32>(rest_of(replica_nodes), false);
        let eligible = spec_parse_compact_array::<i32>(rest_of(isr_nodes), false);
        let last_known_elr = spec_parse_compact_array::<i32>(rest_of(eligible), false);
        let offline_replicas = spec_parse_compact_array::<i32>(rest_of(last_known_elr), false);
        if error_code is Err {
            failure_of(error_code)
        } else if partition_index is Err {
            failure_of(partition_index)
        } else if leader_id is Err {
            failure_of(leader_id)
        } else if leader_epoch is Err {
            failure_of(leader_epoch)
        } else if replica_nodes is Err {
            failure_of(replica_nodes)
        } else if isr_nodes is Err {
            failure_of(isr_nodes)
        } else if eligible is Err {
            failure_of(eligible)
        } else if last_known_elr is Err {
            failure_of(last_known_elr)
        } else if offline_replicas is Err {
            failure_of(offline_replicas)
        } else {
            Ok(
                (
                    PartitionModel {
                        error_code: value_of(error_code),
                        partition_index: value_of(partition_index),
                        leader_id: value_of(leader_id),
                        leader_epoch: value_of(leader_epoch),
                        replica_nodes: value_of(replica_nodes),
                        isr_nodes: value_of(isr_nodes),
                        eligible_leader_replicas: value_of(eligible),
                        last_known_elr: value_of(last_known_elr),
                        offline_replicas: value_of(offline_replicas),
                    },
                    rest_of(offline_replicas),
                ),
            )
        }
    }

    fn parse(reader: &mut Reader) -> (r: Result<Partition, DecodeError>)
        ensures
            decoded(
                <Partition as Parser<Partition>>::spec_parse(old(reader).remaining()),
                r,
                final(reader).remaining(),
            ),
    {
        let error_code = ErrorCode::parse(reader)?;
        let partition_index: i32 = parse_int32(reader)?;
        let leader_id: i32 = parse_int32(reader)?;
        let leader_epoch: i32 = parse_int32(reader)?;
        let replica_nodes = parse_compact_array::<i32>(reader)?;
        let isr_nodes = parse_compact_array::<i32>(reader)?;
        let eligible_leader_replicas = parse_compact_array::<i32>(reader)?;
        let last_known_elr = parse_compact_array::<i32>(reader)?;
        let offline_replicas = parse_compact_array::<i32>(reader)?;
        Ok(
            Partition {
                error_code,
                partition_index,
                leader_id,
                leader_epoch,
                replica_nodes,
                isr_nodes,
                eligible_leader_replicas,
                last_known_elr,
                offline_replicas,
            },
        )
    }
}

impl Encoder for Partition {
    /// The fields in order, then the empty tag buffer.
    open spec fn spec_encode(&self) -> Seq<u8> {
        self.error_code.spec_encode() + spec_encode_int32(self.partition_index)
            + spec_encode_int32(self.leader_id) + spec_encode_int32(self.leader_epoch)
            + spec_encode_compact_array(self.replica_nodes@) + spec_encode_compact_array(
            self.isr_nodes@,
        ) + spec_encode_compact_array(self.eligible_leader_replicas@) + spec_encode_compact_array(
            self.last_known_elr@,
        ) + spec_encode_compact_array(self.offline_replicas@) + spec_encode_tag_buffer()
    }

    fn encode(&self) -> (out: Vec<u8>)
        ensures
            out@ == self.spec_encode(),
    {
        let mut buf = self.error_code.encode();
        put(&mut buf, self.partition_index.encode());
        put(&mut buf, self.leader_id.encode());
        put(&mut buf, self.leader_epoch.encode());
        put(&mut buf, encode_compact_array(&self.replica_nodes));
        put(&mut buf, encode_compact_array(&self.isr_nodes));
        put(&mut buf, encode_compact_array(&self.eligible_leader_replicas));
        put(&mut buf, encode_compact_array(&self.last_known_elr));
        put(&mut buf, encode_compact_array(&self.offline_replicas));
        put(&mut buf, encode_tag_buffer());
        buf
    }
}

/// One topic in a DescribeTopicPartitions response.
pub struct Topic {
    pub error_code: ErrorCode,
    pub name: Option<String>,
    pub topic_id: Uuid,
    pub is_internal: bool,
    pub partitions: Vec<Partition>,
    pub topic_authorized_operations: i32,
}

/// The model of a [`Topic`].
pub struct TopicModel {
    pub error_code: ErrorCode,
    pub name: Option<Seq<char>>,
    pub topic_id: Seq<u8>,
    pub is_internal: bool,
    pub partitions: Seq<PartitionModel>,
    pub topic_authorized_operations: i32,
}

impl DeepView for Topic {
    type V = TopicModel;

    open spec fn deep_view(&self) -> TopicModel {
        TopicModel {
            error_code: self.error_code,
            name: self.name.deep_view(),
            topic_id: self.topic_id.deep_view(),
            is_internal: self.is_internal,
            partitions: self.partitions.deep_view(),
            topic_authorized_operations: self.topic_authorized_operations,
        }
    }
}

impl Parser<Topic> for Topic {
    /// The fields in order, the name a compact string that is never null;
    /// no tag buffer is read.
    open spec fn spec_parse(s: Seq<u8>) -> ParseResult<TopicModel> {
        let error_code = <ErrorCode as Parser<ErrorCode>>::spec_parse(s);
        let name = spec_parse_compact_string(rest_of(error_code));
        let topic_id = spec_parse_uuid(rest_of(name));
        let is_internal = spec_parse_bool(rest_of(topic_id));
        let partitions = spec_parse_compact_array::<Partition>(rest_of(is_internal), false);
        let operations = spec_parse_int32(rest_of(partitions));
        if error_code is Err {
            failure_of(error_code)
        } else if name is Err {
            failure_of(name)
        } else if topic_id is Err {
            failure_of(topic_id)
        } else if is_internal is Err {
            failure_of(is_internal)
        } else if partitions is Err {
            failure_of(partitions)
        } else if operations is Err {
            failure_of(operations)
        } else {
            Ok(
                (
                    TopicModel {
                        error_code: value_of(error_code),
                        name: Some(value_of(name)),
                        topic_id: value_of(topic_id),
                        is_internal: value_of(is_internal),
                        partitions: value_of(partitions),
                        topic_authorized_operations: value_of(operations),
                    },
                    rest_of(operations),
                ),
            )
        }
    }

    fn parse(reader: &mut Reader) -> (r: Result<Topic, DecodeError>)
        ensures
            decoded(
                <Topic as Parser<Topic>>::spec_parse(old(reader).remaining()),
                r,
                final(reader).remaining(),
            ),
    {
        let error_code = ErrorCode::parse(reader)?;
        let name = parse_compact_string(reader)?;
        let topic_id = Uuid::parse(reader)?;
        let is_internal = parse_bool(reader)?;
        let partitions = parse_compact_array::<Partition>(reader)?;
        let topic_authorized_operations: i32 = parse_int32(reader)?;
        Ok(
            Topic {
                error_code,
                name: Some(name),
                topic_id,
                is_internal,
                partitions,
                topic_authorized_operations,
            },
        )
    }
}

impl Encoder for Topic {
    /// The fields in order, the name a compact nullable string, then the
    /// empty tag buffer.
    open spec fn spec_encode(&self) -> Seq<u8> {
        self.error_code.spec_encode() + spec_encode_compact_nullable_string(self.name.deep_view())
            + self.topic_id.spec_encode() + spec_encode_bool(self.is_internal)
            + spec_encode_compact_array(self.partitions@) + spec_encode_int32(
            self.topic_authorized_operations,
        ) + spec_encode_tag_buffer()
    }

    fn encode(&self) -> (out: Vec<u8>)
        ensures
            out@ == self.spec_encode(),
    {
        let mut buf = self.error_code.encode();
        put(&mut buf, encode_compact_nullable_string(&self.name));
        put(&mut buf, self.topic_id.encode());
        put(&mut buf, encode_bool(self.is_internal));
        put(&mut buf, encode_compact_array(&self.partitions));
        put(&mut buf, self.topic_authorized_operations.encode());
        put(&mut buf, encode_tag_buffer());
        buf
    }
}

/// The body of a DescribeTopicPartitions request.
pub struct DescribeTopicPartitionsRequest {
    pub topics: Vec<String>,
    pub response_partition_limit: i32,
    pub cursor: Option<KCursor>,
}

/// The model of a [`DescribeTopicPartitionsRequest`].
pub struct DescribeTopicPartitionsRequestModel {
    pub topics: Seq<Seq<char>>,
    pub response_partition_limit: i32,
    pub cursor: Option<KCursorModel>,
}

impl DeepView for DescribeTopicPartitionsRequest {
    type V = DescribeTopicPartitionsRequestModel;

    open spec fn deep_view(&self) -> DescribeTopicPartitionsRequestModel {
        DescribeTopicPartitionsRequestModel {
            topics: self.topics.deep_view(),
            response_partition_limit: self.response_partition_limit,
            cursor: self.cursor.deep_view(),
        }
    }
}

/// The strings inside `names`, in order.
fn unwrap_names(names: Vec<CompactString>) -> (out: Vec<String>)
    ensures
        out.deep_view() == names.deep_view(),
{
    let mut out: Vec<String> = Vec::new();
    let mut i: usize = 0;
    while i < names.len()
        invariant
            i <= names.len(),
            out.len() == i,
            forall|j: int| 0 <= j < i ==> out[j]@ == names[j].0@,
        decreases names.len() - i,
    {
        out.push(names[i].0.clone());
        i = i + 1;
    }
    assert(out.deep_view() =~= names.deep_view());
    out
}

impl Parser<DescribeTopicPartitionsRequest> for DescribeTopicPartitionsRequest {
    /// A compact array of topic names, each a compact string followed by a
    /// tag buffer; the INT32 partition limit; the nullable cursor.
    open spec fn spec_parse(s: Seq<u8>) -> ParseResult<DescribeTopicPartitionsRequestModel> {
        let topics = spec_parse_compact_array::<CompactString>(s, true);
        let limit = spec_parse_int32(rest_of(topics));
        let cursor = spec_parse_nullable_field::<KCursor>(rest_of(limit));
        if topics is Err {
            failure_of(topics)
        } else if limit is Err {
            failure_of(limit)
        } else if cursor is Err {
            failure_of(cursor)
        } else {
            Ok(
                (
                    DescribeTopicPartitionsRequestModel {
                        topics: value_of(topics),
                        response_partition_limit: value_of(limit),
                        cursor: value_of(cursor),
                    },
                    rest_of(cursor),
                ),
            )
        }
    }

    fn parse(reader: &mut Reader) -> (r: Result<DescribeTopicPartitionsRequest, DecodeError>)
        ensures
            decoded(
                <DescribeTopicPartitionsRequest as Parser<
                    DescribeTopicPartitionsRequest,
                >>::spec_parse(old(reader).remaining()),
                r,
                final(reader).remaining(),
            ),
    {
        let names = parse_compact_array_with_tag_buffer::<CompactString>(reader)?;
        let topics = unwrap_names(names);
        let response_partition_limit: i32 = parse_int32(reader)?;
        let cursor = parse_nullable_field::<KCursor>(reader)?;
        Ok(DescribeTopicPartitionsRequest { topics, response_partition_limit, cursor })
    }
}

/// The body of a DescribeTopicPartitions response.
pub struct DescribeTopicPartitionsResponse {
    pub throttle_time_ms: i32,
    pub topics: Vec<Topic>,
    pub next_cursor: Option<KCursor>,
}

impl DescribeTopicPartitionsResponse {
    /// The throttle time, the compact array of topics, the nullable cursor
    /// and the empty tag buffer.
    pub open spec fn spec_encode(&self) -> Seq<u8> {
        spec_encode_int32(self.throttle_time_ms) + spec_encode_compact_array(self.topics@)
            + spec_encode_nullable_field(self.next_cursor) + spec_encode_tag_buffer()
    }

    /// Encodes the response body.
    pub fn encode(&self) -> (out: Vec<u8>)
        ensures
            out@ == self.spec_encode(),
    {
        let mut buf = self.throttle_time_ms.encode();
        put(&mut buf, encode_compact_array(&self.topics));
        put(&mut buf, encode_nullable_field(&self.next_cursor));
        put(&mut buf, encode_tag_buffer());
        buf
    }
}

/// The body of an ApiVersions request.
pub struct ApiVersionsRequest {
    pub client_software_name: String,
    pub client_software_version: String,
}

/// The model of an [`ApiVersionsRequest`].
pub struct ApiVersionsRequestModel {
    pub client_software_name: Seq<char>,
    pub client_software_version: Seq<char>,
}

impl DeepView for ApiVersionsRequest {
    type V = ApiVersionsRequestModel;

    open spec fn deep_view(&self) -> ApiVersionsRequestModel {
        ApiVersionsRequestModel {
            client_software_name: self.client_software_name@,
            client_software_version: self.client_software_version@,
        }
    }
}

impl Parser<ApiVersionsRequest> for ApiVersionsRequest {
    /// Two compact strings and a tag buffer.
    open spec fn spec_parse(s: Seq<u8>) -> ParseResult<ApiVersionsRequestModel> {
        let name = spec_parse_compact_string(s);
        let version = spec_parse_compact_string(rest_of(name));
        let tags = spec_parse_tag_buffer(rest_of(version));
        if name is Err {
            failure_of(name)
        } else if version is Err {
            failure_of(version)
        } else if tags is Err {
            failure_of(tags)
        } else {
            Ok(
                (
                    ApiVersionsRequestModel {
                        client_software_name: value_of(name),
                        client_software_version: value_of(version),
                    },
                    rest_of(tags),
                ),
            )
        }
    }

    fn parse(reader: &mut Reader) -> (r: Result<ApiVersionsRequest, DecodeError>)
        ensures
            decoded(
                <ApiVersionsRequest as Parser<
                    ApiVersionsRequest,
                >>::spec_parse(old(reader).remaining()),
                r,
                final(reader).remaining(),
            ),
    {
        let client_software_name = parse_compact_string(reader)?;
        let client_software_version = parse_compact_string(reader)?;
        let _ = parse_tag_buffer(reader)?;
        Ok(ApiVersionsRequest { client_software_name, client_software_version })
    }
}

/// One supported API and the versions of it that the broker speaks.
pub struct ApiKeys {
    pub api_key: i16,
    pub min_version: i16,
    pub max_version: i16,
}

impl Encoder for ApiKeys {
    /// Three INT16 and the empty tag buffer.
    open spec fn spec_encode(&self) -> Seq<u8> {
        spec_encode_int16(self.api_key) + spec_encode_int16(self.min_version) + spec_encode_int16(
            self.max_version,
        ) + spec_encode_tag_buffer()
    }

    fn encode(&self) -> (out: Vec<u8>)
        ensures
            out@ == self.spec_encode(),
    {
        let mut buf = self.api_key.encode();
        put(&mut buf, self.min_version.encode());
        put(&mut buf, self.max_version.encode());
        put(&mut buf, encode_tag_buffer());
        buf
    }
}

/// The body of an ApiVersions response.
pub struct ApiVersionsResponse {
    pub error_code: i16,
    pub api_keys: Vec<ApiKeys>,
    pub throttle_time_ms: i32,
}

impl ApiVersionsResponse {
    /// The error code, the compact array of supported APIs, the throttle
    /// time and the empty tag buffer.
    pub open spec fn spec_encode(&self) -> Seq<u8> {
        spec_encode_int16(self.error_code) + spec_encode_compact_array(self.api_keys@)
            + spec_encode_int32(self.throttle_time_ms) + spec_encode_tag_buffer()
    }

    /// Encodes the response body.
    pub fn encode(&self) -> (out: Vec<u8>)
        ensures
            out@ == self.spec_encode(),
    {
        let mut buf = self.error_code.encode();
        put(&mut buf, encode_compact_array(&self.api_keys));
        put(&mut buf, self.throttle_time_ms.encode());
        put(&mut buf, encode_tag_buffer());
        buf
    }
}

/// One partition asked for in a Fetch request.
pub struct FetchRequestPartition {
    pub partition: i32,
    pub current_leader_epoch: i32,
    pub fetch_offset: i64,
    pub last_fetched_epoch: i32,
    pub log_start_offset: i64,
    pub partition_max_bytes: i32,
}

impl DeepView for FetchRequestPartition {
    type V = FetchRequestPartition;

    open spec fn deep_view(&self) -> FetchRequestPartition {
        *self
    }
}

impl Parser<FetchRequestPartition> for FetchRequestPartition {
    /// The six fields in order, then a tag buffer.
    open spec fn spec_parse(s: Seq<u8>) -> ParseResult<FetchRequestPartition> {
        let partition = spec_parse_int32(s);
        let current_leader_epoch = spec_parse_int32(rest_of(partition));
        let fetch_offset = spec_parse_int64(rest_of(current_leader_epoch));
        let last_fetched_epoch = spec_parse_int32(rest_of(fetch_offset));
        let log_start_offset = spec_parse_int64(rest_of(last_fetched_epoch));
        let partition_max_bytes = spec_parse_int32(rest_of(log_start_offset));
        let tags = spec_parse_tag_buffer(rest_of(partition_max_bytes));
        if partition is Err {
            failure_of(partition)
        } else if current_leader_epoch is Err {
            failure_of(current_leader_epoch)
        } else if fetch_offset is Err {
            failure_of(fetch_offset)
        } else if last_fetched_epoch is Err {
            failure_of(last_fetched_epoch)
        } else if log_start_offset is Err {
            failure_of(log_start_offset)
        } else if partition_max_bytes is Err {
            failure_of(partition_max_bytes)
        } else if tags is Err {
            failure_of(tags)
        } else {
            Ok(
                (
                    FetchRequestPartition {
                        partition: value_of(partition),
                        current_leader_epoch: value_of(current_leader_epoch),
                        fetch_offset: value_of(fetch_offset),
                        last_fetched_epoch: value_of(last_fetched_epoch),
                        log_start_offset: value_of(log_start_offset),
                        partition_max_bytes: value_of(partition_max_bytes),
                    },
                    rest_of(tags),
                ),
            )
        }
    }

    fn parse(reader: &mut Reader) -> (r: Result<FetchRequestPartition, DecodeError>)
        ensures
            decoded(
                <FetchRequestPartition as Parser<
                    FetchRequestPartition,
                >>::spec_parse(old(reader).remaining()),
                r,
                final(reader).remaining(),
            ),
    {
        let partition: i32 = parse_int32(reader)?;
        let current_leader_epoch: i32 = parse_int32(reader)?;
        let fetch_offset: i64 = parse_int64(reader)?;
        let last_fetched_epoch: i32 = parse_int32(reader)?;
        let log_start_offset: i64 = parse_int64(reader)?;
        let partition_max_bytes: i32 = parse_int32(reader)?;
        let _ = parse_tag_buffer(reader)?;
        Ok(
            FetchRequestPartition {
                partition,
                current_leader_epoch,
                fetch_offset,
                last_fetched_epoch,
                log_start_offset,
                partition_max_bytes,
            },
        )
    }
}

/// One topic asked for in a Fetch request.
pub struct FetchRequestTopic {
    pub topic_id: Uuid,
    pub partitions: Vec<FetchRequestPartition>,
}

/// The model of a [`FetchRequestTopic`].
pub struct FetchRequestTopicModel {
    pub topic_id: Seq<u8>,
    pub partitions: Seq<FetchRequestPartition>,
}

impl DeepView for FetchRequestTopic {
    type V = FetchRequestTopicModel;

    open spec fn deep_view(&self) -> FetchRequestTopicModel {
        FetchRequestTopicModel {
            topic_id: self.topic_id.deep_view(),
            partitions: self.partitions.deep_view(),
        }
    }
}

impl Parser<FetchRequestTopic> for FetchRequestTopic {
    /// The topic id, the compact array of partitions, then a tag buffer.
    open spec fn spec_parse(s: Seq<u8>) -> ParseResult<FetchRequestTopicModel> {
        let topic_id = spec_parse_uuid(s);
        let partitions = spec_parse_compact_array::<FetchRequestPartition>(
            rest_of(topic_id),
            false,
        );
        let tags = spec_parse_tag_buffer(rest_of(partitions));
        if topic_id is Err {
            failure_of(topic_id)
        } else if partitions is Err {
            failure_of(partitions)
        } else if tags is Err {
            failure_of(tags)
        } else {
            Ok(
                (
                    FetchRequestTopicModel {
                        topic_id: value_of(topic_id),
                        partitions: value_of(partitions),
                    },
                    rest_of(tags),
                ),
            )
        }
    }

    fn parse(reader: &mut Reader) -> (r: Result<FetchRequestTopic, DecodeError>)
        ensures
            decoded(
                <FetchRequestTopic as Parser<
                    FetchRequestTopic,
                >>::spec_parse(old(reader).remaining()),
                r,
                final(reader).remaining(),
            ),
    {
        let topic_id = Uuid::parse(reader)?;
        let partitions = parse_compact_array::<FetchRequestPartition>(reader)?;
        let _ = parse_tag_buffer(reader)?;
        Ok(FetchRequestTopic { topic_id, partitions })
    }
}

/// Partitions that a fetch session no longer wants.
pub struct ForgottenTopicsData {
    pub topic_id: Uuid,
    pub partitions: Vec<i32>,
}

/// The model of a [`ForgottenTopicsData`].
pub struct ForgottenTopicsDataModel {
    pub topic_id: Seq<u8>,
    pub partitions: Seq<i32>,
}

impl DeepView for ForgottenTopicsData {
    type V = ForgottenTopicsDataModel;

    open spec fn deep_view(&self) -> ForgottenTopicsDataModel {
        ForgottenTopicsDataModel {
            topic_id: self.topic_id.deep_view(),
            partitions: self.partitions.deep_view(),
        }
    }
}

impl Parser<ForgottenTopicsData> for ForgottenTopicsData {
    /// The topic id, the compact array of partition numbers, then a tag
    /// buffer.
    open spec fn spec_parse(s: Seq<u8>) -> ParseResult<ForgottenTopicsDataModel> {
        let topic_id = spec_parse_uuid(s);
        let partitions = spec_parse_compact_array::<i32>(rest_of(topic_id), false);
        let tags = spec_parse_tag_buffer(rest_of(partitions));
        if topic_id is Err {
            failure_of(topic_id)
        } else if partitions is Err {
            failure_of(partitions)
        } else if tags is Err {
            failure_of(tags)
        } else {
            Ok(
                (
                    ForgottenTopicsDataModel {
                        topic_id: value_of(topic_id),
                        partitions: value_of(partitions),
                    },
                    rest_of(tags),
                ),
            )
        }
    }

    fn parse(reader: &mut Reader) -> (r: Result<ForgottenTopicsData, DecodeError>)
        ensures
            decoded(
                <ForgottenTopicsData as Parser<
                    ForgottenTopicsData,
                >>::spec_parse(old(reader).remaining()),
                r,
                final(reader).remaining(),
            ),
    {
        let topic_id = Uuid::parse(reader)?;
        let partitions = parse_compact_array::<i32>(reader)?;
        let _ = parse_tag_buffer(reader)?;
        Ok(ForgottenTopicsData { topic_id, partitions })
    }
}

/// The body of a Fetch request.
pub struct FetchRequest {
    pub max_wait_ms: i32,
    pub min_bytes: i32,
    pub max_bytes: i32,
    pub isolation_level: i8,
    pub session_id: i32,
    pub session_epoch: i32,
    pub topics: Vec<FetchRequestTopic>,
    pub forgotten_topics_data: Vec<ForgottenTopicsData>,
    pub rack_id: String,
}

/// The model of a [`FetchRequest`].
pub struct FetchRequestModel {
    pub max_wait_ms: i32,
    pub min_bytes: i32,
    pub max_bytes: i32,
    pub isolation_level: i8,
    pub session_id: i32,
    pub session_epoch: i32,
    pub topics: Seq<FetchRequestTopicModel>,
    pub forgotten_topics_data: Seq<ForgottenTopicsDataModel>,
    pub rack_id: Seq<char>,
}

impl DeepView for FetchRequest {
    type V = FetchRequestModel;

    open spec fn deep_view(&self) -> FetchRequestModel {
        FetchRequestModel {
            max_wait_ms: self.max_wait_ms,
            min_bytes: self.min_bytes,
            max_bytes: self.max_bytes,
            isolation_level: self.isolation_level,
            session_id: self.session_id,
            session_epoch: self.session_epoch,
            topics: self.topics.deep_view(),
            forgotten_topics_data: self.forgotten_topics_data.deep_view(),
            rack_id: self.rack_id@,
        }
    }
}

impl Parser<FetchRequest> for FetchRequest {
    /// The nine fields in order, then a tag buffer.
    open spec fn spec_parse(s: Seq<u8>) -> ParseResult<FetchRequestModel> {
        let max_wait_ms = spec_parse_int32(s);
        let min_bytes = spec_parse_int32(rest_of(max_wait_ms));
        let max_bytes = spec_parse_int32(rest_of(min_bytes));
        let isolation_level = spec_parse_int8(rest_of(max_bytes));
        let session_id = spec_parse_int32(rest_of(isolation_level));
        let session_epoch = spec_parse_int32(rest_of(session_id));
        let topics = spec_parse_compact_array::<FetchRequestTopic>(rest_of(session_epoch), false);
        let forgotten = spec_parse_compact_array::<ForgottenTopicsData>(rest_of(topics), false);
        let rack_id = spec_parse_compact_string(rest_of(forgotten));
        let tags = spec_parse_tag_buffer(rest_of(rack_id));
        if max_wait_ms is Err {
            failure_of(max_wait_ms)
        } else if min_bytes is Err {
            failure_of(min_bytes)
        } else if max_bytes is Err {
            failure_of(max_bytes)
        } else if isolation_level is Err {
            failure_of(isolation_level)
        } else if session_id is Err {
            failure_of(session_id)
        } else if session_epoch is Err {
            failure_of(session_epoch)
        } else if topics is Err {
            failure_of(topics)
        } else if forgotten is Err {
            failure_of(forgotten)
        } else if rack_id is Err {
            failure_of(rack_id)
        } else if tags is Err {
            failure_of(tags)
        } else {
            Ok(
                (
                    FetchRequestModel {
                        max_wait_ms: value_of(max_wait_ms),
                        min_bytes: value_of(min_bytes),
                        max_bytes: value_of(max_bytes),
                        isolation_level: value_of(isolation_level),
                        session_id: value_of(session_id),
                        session_epoch: value_of(session_epoch),
                        topics: value_of(topics),
                        forgotten_topics_data: value_of(forgotten),
                        rack_id: value_of(rack_id),
                    },
                    rest_of(tags),
                ),
            )
        }
    }

    fn parse(reader: &mut Reader) -> (r: Result<FetchRequest, DecodeError>)
        ensures
            decoded(
                <FetchRequest as Parser<FetchRequest>>::spec_parse(old(reader).remaining()),
                r,
                final(reader).remaining(),
            ),
    {
        let max_wait_ms: i32 = parse_int32(reader)?;
        let min_bytes: i32 = parse_int32(reader)?;
        let max_bytes: i32 = parse_int32(reader)?;
        let isolation_level: i8 = parse_int8(reader)?;
        let session_id: i32 = parse_int32(reader)?;
        let session_epoch: i32 = parse_int32(reader)?;
        let topics = parse_compact_array::<FetchRequestTopic>(reader)?;
        let forgotten_topics_data = parse_compact_array::<ForgottenTopicsData>(reader)?;
        let rack_id = parse_compact_string(reader)?;
        let _ = parse_tag_buffer(reader)?;
        Ok(
            FetchRequest {
                max_wait_ms,
                min_bytes,
                max_bytes,
                isolation_level,
                session_id,
                session_epoch,
                topics,
                forgotten_topics_data,
                rack_id,
            },
        )
    }
}

/// A transaction that was aborted; this broker never reports one, and it
/// takes no bytes on the wire.
pub struct AbortedTransaction {}

impl Encoder for AbortedTransaction {
    open spec fn spec_encode(&self) -> Seq<u8> {
        Seq::empty()
    }

    fn encode(&self) -> (out: Vec<u8>)
        ensures
            out@ == self.spec_encode(),
    {
        Vec::new()
    }
}

/// A record in compact form; it takes no bytes on the wire.
pub struct CompactRecord {}

impl Encoder for CompactRecord {
    open spec fn spec_encode(&self) -> Seq<u8> {
        Seq::empty()
    }

    fn encode(&self) -> (out: Vec<u8>)
        ensures
            out@ == self.spec_encode(),
    {
        Vec::new()
    }
}

/// One partition of a topic in a Fetch response. `records` holds the record
/// batches as they lie in the partition's log.
pub struct FetchResponsePartition {
    pub partition_index: i32,
    pub error_code: ErrorCode,
    pub high_watermark: i64,
    pub last_stable_offset: i64,
    pub log_start_offset: i64,
    pub aborted_transactions: Vec<AbortedTransaction>,
    pub preferred_read_replica: i32,
    pub records: Vec<u8>,
}

impl Encoder for FetchResponsePartition {
    /// The fields in order, the records a compact array of bytes, then the
    /// empty tag buffer.
    open spec fn spec_encode(&self) -> Seq<u8> {
        spec_encode_int32(self.partition_index) + self.error_code.spec_encode()
            + spec_encode_int64(self.high_watermark) + spec_encode_int64(self.last_stable_offset)
            + spec_encode_int64(self.log_start_offset) + spec_encode_compact_array(
            self.aborted_transactions@,
        ) + spec_encode_int32(self.preferred_read_replica) + spec_encode_compact_array(
            self.records@,
        ) + spec_encode_tag_buffer()
    }

    fn encode(&self) -> (out: Vec<u8>)
        ensures
            out@ == self.spec_encode(),
    {
        let mut buf = self.partition_index.encode();
        put(&mut buf, self.error_code.encode());
        put(&mut buf, self.high_watermark.encode());
        put(&mut buf, self.last_stable_offset.encode());
        put(&mut buf, self.log_start_offset.encode());
        put(&mut buf, encode_compact_array(&self.aborted_transactions));
        put(&mut buf, self.preferred_read_replica.encode());
        put(&mut buf, encode_compact_array(&self.records));
        put(&mut buf, encode_tag_buffer());
        buf
    }
}

/// One topic in a Fetch response.
pub struct FetchResponseResponse {
    pub topic_id: Uuid,
    pub partitions: Vec<FetchResponsePartition>,
}

impl Encoder for FetchResponseResponse {
    /// The topic id, the compact array of partitions, then the empty tag
    /// buffer.
    open spec fn spec_encode(&self) -> Seq<u8> {
        self.topic_id.spec_encode() + spec_encode_compact_array(self.partitions@)
            + spec_encode_tag_buffer()
    }

    fn encode(&self) -> (out: Vec<u8>)
        ensures
            out@ == self.spec_encode(),
    {
        let mut buf = self.topic_id.encode();
        put(&mut buf, encode_compact_array(&self.partitions));
        put(&mut buf, encode_tag_buffer());
        buf
    }
}

/// The body of a Fetch response.
pub struct FetchResponse {
    pub throttle_time_ms: i32,
    pub error_code: ErrorCode,
    pub session_id: i32,
    pub responses: Vec<FetchResponseResponse>,
}

impl Encoder for FetchResponse {
    /// The throttle time, the error code, the session id, the compact array
    /// of topics, then the empty tag buffer.
    open spec fn spec_encode(&self) -> Seq<u8> {
        spec_encode_int32(self.throttle_time_ms) + self.error_code.spec_encode()
            + spec_encode_int32(self.session_id) + spec_encode_compact_array(self.responses@)
            + spec_encode_tag_buffer()
    }

    fn encode(&self) -> (out: Vec<u8>)
        ensures
            out@ == self.spec_encode(),
    {
        let mut buf = self.throttle_time_ms.encode();
        put(&mut buf, self.error_code.encode());
        put(&mut buf, self.session_id.encode());
        put(&mut buf, encode_compact_array(&self.responses));
        put(&mut buf, encode_tag_buffer());
        buf
    }
}

} // verus!
