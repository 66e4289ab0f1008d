//! The cluster metadata log: record batches as they lie on disk, the typed
//! records inside them, and the queries that the handlers ask.

use crate::api::Parser;
use crate::primitives::{
    lemma_compact_array_reads_forward, lemma_compact_string_reads_forward,
    lemma_elements_read_forward, lemma_varint_reads_forward, parse_compact_array,
    parse_compact_string, parse_elements, parse_int16, parse_int32, parse_int64, parse_int8,
    parse_unsigned_varint, parse_unsigned_varlong, parse_varint, reads_forward,
    spec_parse_compact_array, spec_parse_compact_string, spec_parse_elements, spec_parse_int16,
    spec_parse_int32, spec_parse_int64, spec_parse_int8, spec_parse_unsigned_varint,
    spec_parse_unsigned_varlong, spec_parse_uuid, spec_parse_varint, u32_of_i32, Uuid,
    MAX_VARINT_BYTES,
};
use crate::reader::{
    decoded, failure_of, rest_of, value_of, DecodeError, ParseResult, Reader,
};
use vstd::prelude::*;
use vstd::string::StringExecFns;

verus! {

/// A copy of a list of integers.
pub(crate) fn copy_ints(v: &Vec<i32>) -> (out: Vec<i32>)
    ensures
        out@ == v@,
{
    let mut out: Vec<i32> = Vec::new();
    let mut i: usize = 0;
    while i < v.len()
        invariant
            i <= v.len(),
            out@ == v@.take(i as int),
        decreases v.len() - i,
    {
        out.push(v[i]);
        i = i + 1;
        assert(out@ =~= v@.take(i as int));
    }
    assert(v@.take(v.len() as int) =~= v@);
    out
}

/// A copy of a list of identifiers.
fn copy_ids(v: &Vec<Uuid>) -> (out: Vec<Uuid>)
    ensures
        out@ == v@,
{
    let mut out: Vec<Uuid> = Vec::new();
    let mut i: usize = 0;
    while i < v.len()
        invariant
            i <= v.len(),
            out@ == v@.take(i as int),
        decreases v.len() - i,
    {
        out.push(v[i]);
        i = i + 1;
        assert(out@ =~= v@.take(i as int));
    }
    assert(v@.take(v.len() as int) =~= v@);
    out
}

/// A record that names a topic and gives its id.
#[derive(Debug)]
pub struct TopicRecord {
    pub topic_name: String,
    pub topic_uuid: Uuid,
}

/// The model of a [`TopicRecord`].
pub struct TopicRecordModel {
    pub topic_name: Seq<char>,
    pub topic_uuid: Seq<u8>,
}

impl DeepView for TopicRecord {
    type V = TopicRecordModel;

    open spec fn deep_view(&self) -> TopicRecordModel {
        TopicRecordModel { topic_name: self.topic_name@, topic_uuid: self.topic_uuid.deep_view() }
    }
}

impl Clone for TopicRecord {
    fn clone(&self) -> (r: Self)
        ensures
            r.deep_view() == self.deep_view(),
    {
        TopicRecord { topic_name: self.topic_name.clone(), topic_uuid: self.topic_uuid }
    }
}

impl TopicRecord {
    /// A compact string and a UUID.
    pub open spec fn spec_parse(s: Seq<u8>) -> ParseResult<TopicRecordModel> {
        let topic_name = spec_parse_compact_string(s);
        let topic_uuid = spec_parse_uuid(rest_of(topic_name));
        if topic_name is Err {
            failure_of(topic_name)
        } else if topic_uuid is Err {
            failure_of(topic_uuid)
        } else {
            Ok(
                (
                    TopicRecordModel {
                        topic_name: value_of(topic_name),
                        topic_uuid: value_of(topic_uuid),
                    },
                    rest_of(topic_uuid),
                ),
            )
        }
    }

    /// Decodes a topic record.
    pub fn parse(reader: &mut Reader) -> (r: Result<TopicRecord, DecodeError>)
        ensures
            decoded(Self::spec_parse(old(reader).remaining()), r, final(reader).remaining()),
    {
        let topic_name = parse_compact_string(reader)?;
        let topic_uuid = Uuid::parse(reader)?;
        Ok(TopicRecord { topic_name, topic_uuid })
    }
}

/// A record that describes one partition of a topic.
#[derive(Debug)]
pub struct PartitionRecord {
    pub partition_id: i32,
    pub topic_id: Uuid,
    pub replicas: Vec<i32>,
    pub isr: Vec<i32>,
    pub removing_replicas: Vec<i32>,
    pub adding_replicas: Vec<i32>,
    pub leader: i32,
    pub leader_epoch: i32,
    pub partition_epoch: i32,
    pub directories: Vec<Uuid>,
}

/// The model of a [`PartitionRecord`].
pub struct PartitionRecordModel {
    pub partition_id: i32,
    pub topic_id: Seq<u8>,
    pub replicas: Seq<i32>,
    pub isr: Seq<i32>,
    pub removing_replicas: Seq<i32>,
    pub adding_replicas: Seq<i32>,
    pub leader: i32,
    pub leader_epoch: i32,
    pub partition_epoch: i32,
    pub directories: Seq<Seq<u8>>,
}

impl DeepView for PartitionRecord {
    type V = PartitionRecordModel;

    open spec fn deep_view(&self) -> PartitionRecordModel {
        PartitionRecordModel {
            partition_id: self.partition_id,
            topic_id: self.topic_id.deep_view(),
            replicas: self.replicas.deep_view(),
            isr: self.isr.deep_view(),
            removing_replicas: self.removing_replicas.deep_view(),
            adding_replicas: self.adding_replicas.deep_view(),
            leader: self.leader,
            leader_epoch: self.leader_epoch,
            partition_epoch: self.partition_epoch,
            directories: self.directories.deep_view(),
        }
    }
}

impl Clone for PartitionRecord {
    fn clone(&self) -> (r: Self)
        ensures
            r.deep_view() == self.deep_view(),
    {
        let r = PartitionRecord {
            partition_id: self.partition_id,
            topic_id: self.topic_id,
            replicas: copy_ints(&self.replicas),
            isr: copy_ints(&self.isr),
            removing_replicas: copy_ints(&self.removing_replicas),
            adding_replicas: copy_ints(&self.adding_replicas),
            leader: self.leader,
            leader_epoch: self.leader_epoch,
            partition_epoch: self.partition_epoch,
            directories: copy_ids(&self.directories),
        };
        assert(r.replicas.deep_view() =~= self.replicas.deep_view());
        assert(r.isr.deep_view() =~= self.isr.deep_view());
        assert(r.removing_replicas.deep_view() =~= self.removing_replicas.deep_view());
        assert(r.adding_replicas.deep_view() =~= self.adding_replicas.deep_view());
        assert(r.directories.deep_view() =~= self.directories.deep_view());
        r
    }
}

impl PartitionRecord {
    /// The ten fields in order, every list a compact array.
    pub open spec fn spec_parse(s: Seq<u8>) -> ParseResult<PartitionRecordModel> {
        let partition_id = spec_parse_int32(s);
        let topic_id = spec_parse_uuid(rest_of(partition_id));
        let replicas = spec_parse_compact_array::<i32>(rest_of(topic_id), false);
        let isr = spec_parse_compact_array::<i32>(rest_of(replicas), false);
        let removing = spec_parse_compact_array::<i32>(rest_of(isr), false);
        let adding = spec_parse_compact_array::<i32>(rest_of(removing), false);
        let leader = spec_parse_int32(rest_of(adding));
        let leader_epoch = spec_parse_int32(rest_of(leader));
        let partition_epoch = spec_parse_int32(rest_of(leader_epoch));
        let directories = spec_parse_compact_array::<Uuid>(rest_of(partition_epoch), false);
        if partition_id is Err {
            failure_of(partition_id)
        } else if topic_id is Err {
            failure_of(topic_id)
        } else if replicas is Err {
            failure_of(replicas)
        } else if isr is Err {
            failure_of(isr)
        } else if removing is Err {
            failure_of(removing)
        } else if adding is Err {
            failure_of(adding)
        } else if leader is Err {
            failure_of(leader)
        } else if leader_epoch is Err {
            failure_of(leader_epoch)
        } else if partition_epoch is Err {
            failure_of(partition_epoch)
        } else if directories is Err {
            failure_of(directories)
        } else {
            Ok(
                (
                    PartitionRecordModel {
                        partition_id: value_of(partition_id),
                        topic_id: value_of(topic_id),
                        replicas: value_of(replicas),
                        isr: value_of(isr),
                        removing_replicas: value_of(removing),
                        adding_replicas: value_of(adding),
                        leader: value_of(leader),
                        leader_epoch: value_of(leader_epoch),
                        partition_epoch: value_of(partition_epoch),
                        directories: value_of(directories),
                    },
                    rest_of(directories),
                ),
            )
        }
    }

    /// Decodes a partition record.
    pub fn parse(reader: &mut Reader) -> (r: Result<PartitionRecord, DecodeError>)
        ensures
            decoded(Self::spec_parse(old(reader).remaining()), r, final(reader).remaining()),
    {
        let partition_id: i32 = parse_int32(reader)?;
        let topic_id = Uuid::parse(reader)?;
        let replicas = parse_compact_array::<i32>(reader)?;
        let isr = parse_compact_array::<i32>(reader)?;
        let removing_replicas = parse_compact_array::<i32>(reader)?;
        let adding_replicas = parse_compact_array::<i32>(reader)?;
        let leader: i32 = parse_int32(reader)?;
        let leader_epoch: i32 = parse_int32(reader)?;
        let partition_epoch: i32 = parse_int32(reader)?;
        let directories = parse_compact_array::<Uuid>(reader)?;
        Ok(
            PartitionRecord {
                partition_id,
                topic_id,
                replicas,
                isr,
                removing_replicas,
                adding_replicas,
                leader,
                leader_epoch,
                partition_epoch,
                directories,
            },
        )
    }
}

/// A record that sets the level of a cluster feature.
#[derive(Debug)]
pub struct FeatureLevelRecord {
    pub name: String,
    pub feature_level: i16,
}

/// The model of a [`FeatureLevelRecord`].
pub struct FeatureLevelRecordModel {
    pub name: Seq<char>,
    pub feature_level: i16,
}

impl DeepView for FeatureLevelRecord {
    type V = FeatureLevelRecordModel;

    open spec fn deep_view(&self) -> FeatureLevelRecordModel {
        FeatureLevelRecordModel { name: self.name@, feature_level: self.feature_level }
    }
}

impl Clone for FeatureLevelRecord {
    fn clone(&self) -> (r: Self)
        ensures
            r.deep_view() == self.deep_view(),
    {
        FeatureLevelRecord { name: self.name.clone(), feature_level: self.feature_level }
    }
}

impl FeatureLevelRecord {
    /// A compact string and an INT16.
    pub open spec fn spec_parse(s: Seq<u8>) -> ParseResult<FeatureLevelRecordModel> {
        let name = spec_parse_compact_string(s);
        let feature_level = spec_parse_int16(rest_of(name));
        if name is Err {
            failure_of(name)
        } else if feature_level is Err {
            failure_of(feature_level)
        } else {
            Ok(
                (
                    FeatureLevelRecordModel {
                        name: value_of(name),
                        feature_level: value_of(feature_level),
                    },
                    rest_of(feature_level),
                ),
            )
        }
    }

    /// Decodes a feature-level record.
    pub fn parse(reader: &mut Reader) -> (r: Result<FeatureLevelRecord, DecodeError>)
        ensures
            decoded(Self::spec_parse(old(reader).remaining()), r, final(reader).remaining()),
    {
        let name = parse_compact_string(reader)?;
        let feature_level: i16 = parse_int16(reader)?;
        Ok(FeatureLevelRecord { name, feature_level })
    }
}

/// The kinds of record that the log may hold.
#[derive(Debug, Clone, Copy, PartialEq, Eq, Structural)]
pub enum RecordType {
    Topic,
    Partition,
    FeatureLevel,
}

impl DeepView for RecordType {
    type V = RecordType;

    open spec fn deep_view(&self) -> RecordType {
        *self
    }
}

impl RecordType {
    /// The kind that the type byte `b` stands for, if any: 2 is a topic, 3 a
    /// partition, 12 a feature level.
    pub open spec fn spec_from_byte(b: i8) -> Option<RecordType> {
        if b == 2 {
            Some(RecordType::Topic)
        } else if b == 3 {
            Some(RecordType::Partition)
        } else if b == 12 {
            Some(RecordType::FeatureLevel)
        } else {
            None
        }
    }

    /// An INT8 that names a known kind; any other is `InvalidData`.
    pub open spec fn spec_parse(s: Seq<u8>) -> ParseResult<RecordType> {
        let b = spec_parse_int8(s);
        if b is Err {
            failure_of(b)
        } else {
            match RecordType::spec_from_byte(value_of(b)) {
                Some(t) => Ok((t, rest_of(b))),
                None => Err(DecodeError::InvalidData),
            }
        }
    }

    /// Decodes the type byte of a record.
    pub fn parse(reader: &mut Reader) -> (r: Result<RecordType, DecodeError>)
        ensures
            decoded(Self::spec_parse(old(reader).remaining()), r, final(reader).remaining()),
    {
        let rtype: i8 = parse_int8(reader)?;
        if rtype == 2 {
            Ok(RecordType::Topic)
        } else if rtype == 3 {
            Ok(RecordType::Partition)
        } else if rtype == 12 {
            Ok(RecordType::FeatureLevel)
        } else {
            Err(DecodeError::InvalidData)
        }
    }
}

/// The three bytes in front of every record value.
#[derive(Debug, Clone, Copy)]
pub struct RecordHeader {
    pub frame_version: i8,
    pub rtype: RecordType,
    pub version: i8,
}

impl DeepView for RecordHeader {
    type V = RecordHeader;

    open spec fn deep_view(&self) -> RecordHeader {
        *self
    }
}

impl RecordHeader {
    /// Frame version, record type and version, one byte each.
    pub open spec fn spec_parse(s: Seq<u8>) -> ParseResult<RecordHeader> {
        let frame_version = spec_parse_int8(s);
        let rtype = RecordType::spec_parse(rest_of(frame_version));
        let version = spec_parse_int8(rest_of(rtype));
        if frame_version is Err {
            failure_of(frame_version)
        } else if rtype is Err {
            failure_of(rtype)
        } else if version is Err {
            failure_of(version)
        } else {
            Ok(
                (
                    RecordHeader {
                        frame_version: value_of(frame_version),
                        rtype: value_of(rtype),
                        version: value_of(version),
                    },
                    rest_of(version),
                ),
            )
        }
    }

    /// Decodes a record header.
    pub fn parse(reader: &mut Reader) -> (r: Result<RecordHeader, DecodeError>)
        ensures
            decoded(Self::spec_parse(old(reader).remaining()), r, final(reader).remaining()),
    {
        let frame_version: i8 = parse_int8(reader)?;
        let rtype = RecordType::parse(reader)?;
        let version: i8 = parse_int8(reader)?;
        Ok(RecordHeader { frame_version, rtype, version })
    }
}

/// What a record says: one of the three kinds of body.
#[derive(Debug)]
pub enum RecordBody {
    Topic(TopicRecord),
    Partition(PartitionRecord),
    FeatureLevel(FeatureLevelRecord),
}

/// The model of a [`RecordBody`].
pub enum RecordBodyModel {
    Topic(TopicRecordModel),
    Partition(PartitionRecordModel),
    FeatureLevel(FeatureLevelRecordModel),
}

impl DeepView for RecordBody {
    type V = RecordBodyModel;

    open spec fn deep_view(&self) -> RecordBodyModel {
        match self {
            RecordBody::Topic(t) => RecordBodyModel::Topic(t.deep_view()),
            RecordBody::Partition(p) => RecordBodyModel::Partition(p.deep_view()),
            RecordBody::FeatureLevel(f) => RecordBodyModel::FeatureLevel(f.deep_view()),
        }
    }
}

impl Clone for RecordBody {
    fn clone(&self) -> (r: Self)
        ensures
            r.deep_view() == self.deep_view(),
    {
        match self {
            RecordBody::Topic(t) => RecordBody::Topic(t.clone()),
            RecordBody::Partition(p) => RecordBody::Partition(p.clone()),
            RecordBody::FeatureLevel(f) => RecordBody::FeatureLevel(f.clone()),
        }
    }
}

impl RecordBody {
    /// The body of the kind that the header names.
    pub open spec fn spec_parse(s: Seq<u8>, rtype: RecordType) -> ParseResult<RecordBodyModel> {
        match rtype {
            RecordType::Topic => {
                let t = TopicRecord::spec_parse(s);
                if t is Err {
                    failure_of(t)
                } else {
                    Ok((RecordBodyModel::Topic(value_of(t)), rest_of(t)))
                }
            },
            RecordType::Partition => {
                let p = PartitionRecord::spec_parse(s);
                if p is Err {
                    failure_of(p)
                } else {
                    Ok((RecordBodyModel::Partition(value_of(p)), rest_of(p)))
                }
            },
            RecordType::FeatureLevel => {
                let f = FeatureLevelRecord::spec_parse(s);
                if f is Err {
                    failure_of(f)
                } else {
                    Ok((RecordBodyModel::FeatureLevel(value_of(f)), rest_of(f)))
                }
            },
        }
    }
}

/// The value of a record: its header, its body, and the count of tagged
/// fields that follows the body.
#[derive(Debug)]
pub struct RecordValue {
    pub header: RecordHeader,
    pub body: RecordBody,
    pub tagged_fields_count: u32,
}

/// The model of a [`RecordValue`].
pub struct RecordValueModel {
    pub header: RecordHeader,
    pub body: RecordBodyModel,
    pub tagged_fields_count: u32,
}

impl DeepView for RecordValue {
    type V = RecordValueModel;

    open spec fn deep_view(&self) -> RecordValueModel {
        RecordValueModel {
            header: self.header,
            body: self.body.deep_view(),
            tagged_fields_count: self.tagged_fields_count,
        }
    }
}

impl RecordValue {
    /// The header, the body that the header's type byte calls for, and an
    /// unsigned varint.
    pub open spec fn spec_parse(s: Seq<u8>) -> ParseResult<RecordValueModel> {
        let header = RecordHeader::spec_parse(s);
        let body = RecordBody::spec_parse(rest_of(header), value_of(header).rtype);
        let count = spec_parse_unsigned_varint(rest_of(body));
        if header is Err {
            failure_of(header)
        } else if body is Err {
            failure_of(body)
        } else if count is Err {
            failure_of(count)
        } else {
            Ok(
                (
                    RecordValueModel {
                        header: value_of(header),
                        body: value_of(body),
                        tagged_fields_count: value_of(count),
                    },
                    rest_of(count),
                ),
            )
        }
    }

    /// Decodes a record value.
    pub fn parse(reader: &mut Reader) -> (r: Result<RecordValue, DecodeError>)
        ensures
            decoded(Self::spec_parse(old(reader).remaining()), r, final(reader).remaining()),
    {
        let header = RecordHeader::parse(reader)?;
        let body = match header.rtype {
            RecordType::Topic => RecordBody::Topic(TopicRecord::parse(reader)?),
            RecordType::Partition => RecordBody::Partition(PartitionRecord::parse(reader)?),
            RecordType::FeatureLevel => RecordBody::FeatureLevel(
                FeatureLevelRecord::parse(reader)?,
            ),
        };
        let tagged_fields_count: u32 = parse_unsigned_varint(reader)?;
        Ok(RecordValue { header, body, tagged_fields_count })
    }
}

/// The signed 64-bit integer with the two's-complement pattern of `v`.
pub open spec fn i64_of_u64(v: u64) -> i64 {
    if v < 0x8000_0000_0000_0000 {
        v as i64
    } else {
        (v - 0x1_0000_0000_0000_0000) as i64
    }
}

/// One record of a batch.
#[derive(Debug)]
pub struct Record {
    pub length: i32,
    pub attributes: i8,
    pub timestamp_delta: i64,
    pub offset_delta: i32,
    pub key: Option<String>,
    pub value_length: i32,
    pub value: RecordValue,
    pub headers_array_count: u32,
}

/// The model of a [`Record`].
pub struct RecordModel {
    pub length: i32,
    pub attributes: i8,
    pub timestamp_delta: i64,
    pub offset_delta: i32,
    pub key: Option<Seq<char>>,
    pub value_length: i32,
    pub value: RecordValueModel,
    pub headers_array_count: u32,
}

impl DeepView for Record {
    type V = RecordModel;

    open spec fn deep_view(&self) -> RecordModel {
        RecordModel {
            length: self.length,
            attributes: self.attributes,
            timestamp_delta: self.timestamp_delta,
            offset_delta: self.offset_delta,
            key: self.key.deep_view(),
            value_length: self.value_length,
            value: self.value.deep_view(),
            headers_array_count: self.headers_array_count,
        }
    }
}

impl Record {
    /// The fields in order. The two lengths are kept as they were written
    /// and bound nothing: every field is read where the one before it ended.
    /// The key is a compact string.
    pub open spec fn spec_parse(s: Seq<u8>) -> ParseResult<RecordModel> {
        let length = spec_parse_varint(s);
        let attributes = spec_parse_int8(rest_of(length));
        let timestamp_delta = spec_parse_unsigned_varlong(rest_of(attributes));
        let offset_delta = spec_parse_varint(rest_of(timestamp_delta));
        let key = spec_parse_compact_string(rest_of(offset_delta));
        let value_length = spec_parse_varint(rest_of(key));
        let value = RecordValue::spec_parse(rest_of(value_length));
        let headers = spec_parse_unsigned_varint(rest_of(value));
        if length is Err {
            failure_of(length)
        } else if attributes is Err {
            failure_of(attributes)
        } else if timestamp_delta is Err {
            failure_of(timestamp_delta)
        } else if offset_delta is Err {
            failure_of(offset_delta)
        } else if key is Err {
            failure_of(key)
        } else if value_length is Err {
            failure_of(value_length)
        } else if value is Err {
            failure_of(value)
        } else if headers is Err {
            failure_of(headers)
        } else {
            Ok(
                (
                    RecordModel {
                        length: value_of(length),
                        attributes: value_of(attributes),
                        timestamp_delta: i64_of_u64(value_of(timestamp_delta)),
                        offset_delta: value_of(offset_delta),
                        key: Some(value_of(key)),
                        value_length: value_of(value_length),
                        value: value_of(value),
                        headers_array_count: value_of(headers),
                    },
                    rest_of(headers),
                ),
            )
        }
    }

    /// Decodes a record.
    pub fn parse(reader: &mut Reader) -> (r: Result<Record, DecodeError>)
        ensures
            decoded(Self::spec_parse(old(reader).remaining()), r, final(reader).remaining()),
    {
        let length: i32 = parse_varint(reader)?;
        let attributes: i8 = parse_int8(reader)?;
        let raw_delta: u64 = parse_unsigned_varlong(reader)?;
        let timestamp_delta: i64 = if raw_delta < 0x8000_0000_0000_0000 {
            raw_delta as i64
        } else {
            (raw_delta as i128 - 0x1_0000_0000_0000_0000) as i64
        };
        let offset_delta: i32 = parse_varint(reader)?;
        let key = parse_compact_string(reader)?;
        let value_length: i32 = parse_varint(reader)?;
        let value = RecordValue::parse(reader)?;
        let headers_array_count: u32 = parse_unsigned_varint(reader)?;
        Ok(
            Record {
                length,
                attributes,
                timestamp_delta,
                offset_delta,
                key: Some(key),
                value_length,
                value,
                headers_array_count,
            },
        )
    }
}

impl Parser<Record> for Record {
    open spec fn spec_parse(s: Seq<u8>) -> ParseResult<RecordModel> {
        Record::spec_parse(s)
    }

    fn parse(reader: &mut Reader) -> (r: Result<Record, DecodeError>)
        ensures
            decoded(
                <Record as Parser<Record>>::spec_parse(old(reader).remaining()),
                r,
                final(reader).remaining(),
            ),
    {
        Record::parse(reader)
    }
}

/// A record batch: the fixed header and the records it holds.
#[derive(Debug)]
pub struct Batch {
    pub base_offset: i64,
    pub base_length: i32,
    pub partition_leader_epoch: i32,
    pub magic_byte: i8,
    pub crc: u32,
    pub attributes: i16,
    pub last_offset_delta: i32,
    pub base_timestamp: i64,
    pub max_timestamp: i64,
    pub producer_id: i64,
    pub producer_epoch: i16,
    pub base_sequence: i32,
    pub records: Vec<Record>,
}

/// The model of a [`Batch`].
pub struct BatchModel {
    pub base_offset: i64,
    pub base_length: i32,
    pub partition_leader_epoch: i32,
    pub magic_byte: i8,
    pub crc: u32,
    pub attributes: i16,
    pub last_offset_delta: i32,
    pub base_timestamp: i64,
    pub max_timestamp: i64,
    pub producer_id: i64,
    pub producer_epoch: i16,
    pub base_sequence: i32,
    pub records: Seq<RecordModel>,
}

impl DeepView for Batch {
    type V = BatchModel;

    open spec fn deep_view(&self) -> BatchModel {
        BatchModel {
            base_offset: self.base_offset,
            base_length: self.base_length,
            partition_leader_epoch: self.partition_leader_epoch,
            magic_byte: self.magic_byte,
            crc: self.crc,
            attributes: self.attributes,
            last_offset_delta: self.last_offset_delta,
            base_timestamp: self.base_timestamp,
            max_timestamp: self.max_timestamp,
            producer_id: self.producer_id,
            producer_epoch: self.producer_epoch,
            base_sequence: self.base_sequence,
            records: self.records.deep_view(),
        }
    }
}

/// How many records a batch with the record count `count` holds: none if the
/// count is negative.
pub open spec fn record_count(count: i32) -> nat {
    if count < 0 {
        0
    } else {
        count as nat
    }
}

impl Batch {
    /// The twelve header fields, the INT32 record count, and that many
    /// records. The checksum is the unsigned reading of its four bytes.
    pub open spec fn spec_parse(s: Seq<u8>) -> ParseResult<BatchModel> {
        let base_offset = spec_parse_int64(s);
        let base_length = spec_parse_int32(rest_of(base_offset));
        let leader_epoch = spec_parse_int32(rest_of(base_length));
        let magic_byte = spec_parse_int8(rest_of(leader_epoch));
        let crc = spec_parse_int32(rest_of(magic_byte));
        let attributes = spec_parse_int16(rest_of(crc));
        let last_offset_delta = spec_parse_int32(rest_of(attributes));
        let base_timestamp = spec_parse_int64(rest_of(last_offset_delta));
        let max_timestamp = spec_parse_int64(rest_of(base_timestamp));
        let producer_id = spec_parse_int64(rest_of(max_timestamp));
        let producer_epoch = spec_parse_int16(rest_of(producer_id));
        let base_sequence = spec_parse_int32(rest_of(producer_epoch));
        let count = spec_parse_int32(rest_of(base_sequence));
        let records = spec_parse_elements::<Record>(
            rest_of(count),
            record_count(value_of(count)),
            false,
        );
        if base_offset is Err {
            failure_of(base_offset)
        } else if base_length is Err {
            failure_of(base_length)
        } else if leader_epoch is Err {
            failure_of(leader_epoch)
        } else if magic_byte is Err {
            failure_of(magic_byte)
        } else if crc is Err {
            failure_of(crc)
        } else if attributes is Err {
            failure_of(attributes)
        } else if last_offset_delta is Err {
            failure_of(last_offset_delta)
        } else if base_timestamp is Err {
            failure_of(base_timestamp)
        } else if max_timestamp is Err {
            failure_of(max_timestamp)
        } else if producer_id is Err {
            failure_of(producer_id)
        } else if producer_epoch is Err {
            failure_of(producer_epoch)
        } else if base_sequence is Err {
            failure_of(base_sequence)
        } else if count is Err {
            failure_of(count)
        } else if records is Err {
            failure_of(records)
        } else {
            Ok(
                (
                    BatchModel {
                        base_offset: value_of(base_offset),
                        base_length: value_of(base_length),
                        partition_leader_epoch: value_of(leader_epoch),
                        magic_byte: value_of(magic_byte),
                        crc: u32_of_i32(value_of(crc)) as u32,
                        attributes: value_of(attributes),
                        last_offset_delta: value_of(last_offset_delta),
                        base_timestamp: value_of(base_timestamp),
                        max_timestamp: value_of(max_timestamp),
                        producer_id: value_of(producer_id),
                        producer_epoch: value_of(producer_epoch),
                        base_sequence: value_of(base_sequence),
                        records: value_of(records),
                    },
                    rest_of(records),
                ),
            )
        }
    }

    /// Decodes a record batch.
    pub fn parse(reader: &mut Reader) -> (r: Result<Batch, DecodeError>)
        ensures
            decoded(Self::spec_parse(old(reader).remaining()), r, final(reader).remaining()),
    {
        let base_offset: i64 = parse_int64(reader)?;
        let base_length: i32 = parse_int32(reader)?;
        let partition_leader_epoch: i32 = parse_int32(reader)?;
        let magic_byte: i8 = parse_int8(reader)?;
        let raw_crc: i32 = parse_int32(reader)?;
        let crc: u32 = if raw_crc < 0 {
            (raw_crc as i64 + 0x1_0000_0000) as u32
        } else {
            raw_crc as u32
        };
        let attributes: i16 = parse_int16(reader)?;
        let last_offset_delta: i32 = parse_int32(reader)?;
        let base_timestamp: i64 = parse_int64(reader)?;
        let max_timestamp: i64 = parse_int64(reader)?;
        let producer_id: i64 = parse_int64(reader)?;
        let producer_epoch: i16 = parse_int16(reader)?;
        let base_sequence: i32 = parse_int32(reader)?;
        let count: i32 = parse_int32(reader)?;
        let wanted: u64 = if count < 0 {
            0
        } else {
            count as u64
        };
        let records = parse_elements::<Record>(reader, wanted, false)?;
        Ok(
            Batch {
                base_offset,
                base_length,
                partition_leader_epoch,
                magic_byte,
                crc,
                attributes,
                last_offset_delta,
                base_timestamp,
                max_timestamp,
                producer_id,
                producer_epoch,
                base_sequence,
                records,
            },
        )
    }
}

/// A record value leaves fewer bytes than it was given.
proof fn lemma_record_value_reads_forward(s: Seq<u8>)
    ensures
        RecordValue::spec_parse(s) is Ok ==> rest_of(RecordValue::spec_parse(s)).len() < s.len(),
{
    let header = RecordHeader::spec_parse(s);
    if header is Ok {
        let t = rest_of(header);
        assert(reads_forward::<i32>());
        assert(reads_forward::<Uuid>());
        match value_of(header).rtype {
            RecordType::Topic => {
                lemma_compact_string_reads_forward(t);
            },
            RecordType::Partition => {
                let partition_id = spec_parse_int32(t);
                let topic_id = spec_parse_uuid(rest_of(partition_id));
                let replicas = spec_parse_compact_array::<i32>(rest_of(topic_id), false);
                let isr = spec_parse_compact_array::<i32>(rest_of(replicas), false);
                let removing = spec_parse_compact_array::<i32>(rest_of(isr), false);
                let adding = spec_parse_compact_array::<i32>(rest_of(removing), false);
                let leader = spec_parse_int32(rest_of(adding));
                let leader_epoch = spec_parse_int32(rest_of(leader));
                let partition_epoch = spec_parse_int32(rest_of(leader_epoch));
                lemma_compact_array_reads_forward::<i32>(rest_of(topic_id), false);
                lemma_compact_array_reads_forward::<i32>(rest_of(replicas), false);
                lemma_compact_array_reads_forward::<i32>(rest_of(isr), false);
                lemma_compact_array_reads_forward::<i32>(rest_of(removing), false);
                lemma_compact_array_reads_forward::<Uuid>(rest_of(partition_epoch), false);
            },
            RecordType::FeatureLevel => {
                lemma_compact_string_reads_forward(t);
            },
        }
        let body = RecordBody::spec_parse(t, value_of(header).rtype);
        if body is Ok {
            lemma_varint_reads_forward(rest_of(body), MAX_VARINT_BYTES as nat);
        }
    }
}

/// A record leaves fewer bytes than it was given.
proof fn lemma_record_reads_forward(s: Seq<u8>)
    ensures
        Record::spec_parse(s) is Ok ==> rest_of(Record::spec_parse(s)).len() < s.len(),
{
    let length = spec_parse_varint(s);
    let attributes = spec_parse_int8(rest_of(length));
    let timestamp_delta = spec_parse_unsigned_varlong(rest_of(attributes));
    let offset_delta = spec_parse_varint(rest_of(timestamp_delta));
    let key = spec_parse_compact_string(rest_of(offset_delta));
    let value_length = spec_parse_varint(rest_of(key));
    let value = RecordValue::spec_parse(rest_of(value_length));
    lemma_varint_reads_forward(s, MAX_VARINT_BYTES as nat);
    lemma_varint_reads_forward(rest_of(attributes), MAX_VARINT_BYTES as nat);
    lemma_varint_reads_forward(rest_of(timestamp_delta), MAX_VARINT_BYTES as nat);
    lemma_compact_string_reads_forward(rest_of(offset_delta));
    lemma_varint_reads_forward(rest_of(key), MAX_VARINT_BYTES as nat);
    lemma_record_value_reads_forward(rest_of(value_length));
    lemma_varint_reads_forward(rest_of(value), MAX_VARINT_BYTES as nat);
}

/// A batch leaves fewer bytes than it was given.
pub proof fn lemma_batch_reads_forward(s: Seq<u8>)
    ensures
        Batch::spec_parse(s) is Ok ==> rest_of(Batch::spec_parse(s)).len() < s.len(),
{
    assert(reads_forward::<Record>()) by {
        assert forall|t: Seq<u8>| (#[trigger] <Record as Parser<Record>>::spec_parse(t)) is Ok
            implies rest_of(<Record as Parser<Record>>::spec_parse(t)).len() <= t.len() by {
            lemma_record_reads_forward(t);
        }
    }
    if Batch::spec_parse(s) is Ok {
        let base_offset = spec_parse_int64(s);
        let base_length = spec_parse_int32(rest_of(base_offset));
        let leader_epoch = spec_parse_int32(rest_of(base_length));
        let magic_byte = spec_parse_int8(rest_of(leader_epoch));
        let crc = spec_parse_int32(rest_of(magic_byte));
        let attributes = spec_parse_int16(rest_of(crc));
        let last_offset_delta = spec_parse_int32(rest_of(attributes));
        let base_timestamp = spec_parse_int64(rest_of(last_offset_delta));
        let max_timestamp = spec_parse_int64(rest_of(base_timestamp));
        let producer_id = spec_parse_int64(rest_of(max_timestamp));
        let producer_epoch = spec_parse_int16(rest_of(producer_id));
        let base_sequence = spec_parse_int32(rest_of(producer_epoch));
        let count = spec_parse_int32(rest_of(base_sequence));
        lemma_elements_read_forward::<Record>(
            rest_of(count),
            record_count(value_of(count)),
            false,
        );
    }
}

/// The batches that the bytes of a log hold: one batch after the other until
/// the bytes end. A batch that does not decode fails the whole log.
#[verifier::opaque]
pub open spec fn spec_parse_batches(s: Seq<u8>) -> Result<Seq<BatchModel>, DecodeError>
    decreases s.len(),
    via spec_parse_batches_decreases
{
    if s.len() == 0 {
        Ok(Seq::empty())
    } else {
        let first = Batch::spec_parse(s);
        if first is Err {
            Err(first->Err_0)
        } else {
            match spec_parse_batches(rest_of(first)) {
                Ok(more) => Ok(seq![value_of(first)] + more),
                Err(e) => Err(e),
            }
        }
    }
}

#[via_fn]
proof fn spec_parse_batches_decreases(s: Seq<u8>) {
    lemma_batch_reads_forward(s);
}

/// The bodies of `records`, in order.
pub open spec fn bodies_of(records: Seq<RecordModel>) -> Seq<RecordBodyModel> {
    Seq::new(records.len(), |i: int| records[i].value.body)
}

/// The bodies of all records of `batches`: batch after batch, and within a
/// batch record after record.
pub open spec fn spec_records(batches: Seq<BatchModel>) -> Seq<RecordBodyModel>
    decreases batches.len(),
{
    if batches.len() == 0 {
        Seq::empty()
    } else {
        spec_records(batches.drop_last()) + bodies_of(batches.last().records)
    }
}

/// The topic records among `bodies`, in order.
pub open spec fn spec_topics(bodies: Seq<RecordBodyModel>) -> Seq<TopicRecordModel>
    decreases bodies.len(),
{
    if bodies.len() == 0 {
        Seq::empty()
    } else {
        let before = spec_topics(bodies.drop_last());
        match bodies.last() {
            RecordBodyModel::Topic(t) => before.push(t),
            _ => before,
        }
    }
}

/// The name of the first of `topics` whose id is `id`, if there is one.
pub open spec fn spec_topic_name(topics: Seq<TopicRecordModel>, id: Seq<u8>) -> Option<Seq<char>>
    decreases topics.len(),
{
    if topics.len() == 0 {
        None
    } else if topics[0].topic_uuid == id {
        Some(topics[0].topic_name)
    } else {
        spec_topic_name(topics.skip(1), id)
    }
}

/// The directory under which every log of the cluster lies.
pub open spec fn spec_log_root() -> Seq<char> {
    "/tmp/kraft-combined-logs/"@
}

/// What follows a topic's name in the path of its partition-0 log.
pub open spec fn spec_log_suffix() -> Seq<char> {
    "-0/00000000000000000000.log"@
}

/// The path of the partition-0 log of the topic called `name`.
pub open spec fn spec_message_path(name: Seq<char>) -> Seq<char> {
    spec_log_root() + name + spec_log_suffix()
}

/// Decodes batches until `reader` has nothing left.
fn parse_batches(reader: &mut Reader) -> (r: Result<Vec<Batch>, DecodeError>)
    ensures
        match spec_parse_batches(old(reader).remaining()) {
            Ok(batches) => r is Ok && r->Ok_0.deep_view() == batches,
            Err(e) => r == Err::<Vec<Batch>, DecodeError>(e),
        },
{
    let ghost input = reader.remaining();
    let mut batches: Vec<Batch> = Vec::new();
    reveal(spec_parse_batches);
    assert(batches.deep_view() =~= Seq::<BatchModel>::empty());
    assert(after_batches(Seq::empty(), spec_parse_batches(input)) == spec_parse_batches(input))
        by {
        if let Ok(more) = spec_parse_batches(input) {
            assert(Seq::<BatchModel>::empty() + more =~= more);
        }
    }
    while !reader.is_empty()
        invariant
            input == old(reader).remaining(),
            spec_parse_batches(input) == after_batches(
                batches.deep_view(),
                spec_parse_batches(reader.remaining()),
            ),
        decreases reader.remaining().len(),
    {
        let ghost front = batches.deep_view();
        let ghost here = reader.remaining();
        proof {
            reveal(spec_parse_batches);
            lemma_batch_reads_forward(here);
        }
        let batch = Batch::parse(reader)?;
        proof {
            lemma_after_batches_step(
                front,
                batch.deep_view(),
                spec_parse_batches(reader.remaining()),
            );
        }
        batches.push(batch);
        assert(batches.deep_view() =~= front.push(batch.deep_view()));
    }
    assert(batches.deep_view() + Seq::<BatchModel>::empty() =~= batches.deep_view());
    Ok(batches)
}

proof fn lemma_after_batches_step(
    front: Seq<BatchModel>,
    batch: BatchModel,
    back: Result<Seq<BatchModel>, DecodeError>,
)
    ensures
        after_batches(front, after_batches(seq![batch], back)) == after_batches(
            front.push(batch),
            back,
        ),
{
    if let Ok(more) = back {
        assert(front + (seq![batch] + more) =~= front.push(batch) + more);
    }
}

/// The cluster metadata log: where it lies, whether it has been read, and
/// the batches it held when it was.
#[derive(Debug)]
pub struct ClusterMetadataLog {
    logfile: String,
    loaded: bool,
    batches: Vec<Batch>,
}

impl ClusterMetadataLog {
    /// A log that has not been read holds no batch.
    #[verifier::type_invariant]
    spec fn inv(self) -> bool {
        !self.loaded ==> self.batches@.len() == 0
    }

    /// The batches that the log holds.
    pub closed spec fn spec_batches(&self) -> Seq<BatchModel> {
        self.batches.deep_view()
    }

    /// The path that the log was created with.
    pub closed spec fn spec_logfile(&self) -> Seq<char> {
        self.logfile@
    }

    /// Whether the log has been read.
    pub closed spec fn spec_loaded(&self) -> bool {
        self.loaded
    }

    /// A log at `logfile` that has not been read yet and holds no batch.
    pub fn new(logfile: &str) -> (log: ClusterMetadataLog)
        ensures
            log.spec_logfile() == logfile@,
            !log.spec_loaded(),
            log.spec_batches() == Seq::<BatchModel>::empty(),
    {
        let log = ClusterMetadataLog {
            logfile: logfile.to_owned(),
            batches: Vec::new(),
            loaded: false,
        };
        assert(log.spec_batches() =~= Seq::<BatchModel>::empty());
        log
    }

    /// The batches that the log holds.
    pub fn batches(&self) -> (batches: &Vec<Batch>)
        ensures
            batches.deep_view() == self.spec_batches(),
    {
        &self.batches
    }

    /// The path that the log was created with.
    pub fn logfile(&self) -> (path: &String)
        ensures
            path@ == self.spec_logfile(),
    {
        &self.logfile
    }

    /// Whether the log has been read.
    pub fn is_loaded(&self) -> (b: bool)
        ensures
            b == self.spec_loaded(),
    {
        self.loaded
    }

    /// Reads the log from `bytes`, the contents of its file. A log that has
    /// been read already stays as it is, whatever `bytes` holds. If the bytes
    /// do not decode, the log stays unread and unchanged.
    pub fn load(&mut self, bytes: Vec<u8>) -> (r: Result<(), DecodeError>)
        ensures
            old(self).spec_loaded() ==> r is Ok && *final(self) == *old(self),
            !old(self).spec_loaded() ==> match spec_parse_batches(bytes@) {
                Ok(batches) => {
                    &&& r is Ok
                    &&& final(self).spec_loaded()
                    &&& final(self).spec_batches() == batches
                    &&& final(self).spec_logfile() == old(self).spec_logfile()
                },
                Err(e) => r == Err::<(), DecodeError>(e) && *final(self) == *old(self),
            },
    {
        if self.loaded {
            return Ok(());
        }
        let mut reader = Reader::new(bytes);
        let batches = parse_batches(&mut reader)?;
        self.loaded = true;
        self.batches = batches;
        Ok(())
    }

    /// The bodies of all records of the log, in the order of the file.
    pub fn records(&self) -> (out: Vec<RecordBody>)
        ensures
            out.deep_view() == spec_records(self.spec_batches()),
    {
        let mut out: Vec<RecordBody> = Vec::new();
        let ghost all = self.batches.deep_view();
        let mut b: usize = 0;
        assert(out.deep_view() =~= spec_records(all.take(0)));
        while b < self.batches.len()
            invariant
                b <= self.batches.len(),
                all == self.batches.deep_view(),
                out.deep_view() == spec_records(all.take(b as int)),
            decreases self.batches.len() - b,
        {
            let batch = &self.batches[b];
            let ghost before = out.deep_view();
            let mut i: usize = 0;
            assert(all.take(b + 1).drop_last() =~= all.take(b as int));
            assert(all.take(b + 1).last() == batch.deep_view());
            while i < batch.records.len()
                invariant
                    i <= batch.records.len(),
                    out.deep_view() == before + bodies_of(batch.deep_view().records).take(
                        i as int,
                    ),
                decreases batch.records.len() - i,
            {
                let ghost so_far = out.deep_view();
                let body = batch.records[i].value.body.clone();
                out.push(body);
                i = i + 1;
                assert(out.deep_view() =~= so_far.push(body.deep_view()));
                assert(out.deep_view() =~= before + bodies_of(batch.deep_view().records).take(
                    i as int,
                ));
            }
            assert(bodies_of(batch.deep_view().records).take(i as int) =~= bodies_of(
                batch.deep_view().records,
            ));
            b = b + 1;
        }
        assert(all.take(b as int) =~= all);
        out
    }

    /// The topic records of the log, in the order of the file.
    pub fn topics(&self) -> (out: Vec<TopicRecord>)
        ensures
            out.deep_view() == spec_topics(spec_records(self.spec_batches())),
    {
        let records = self.records();
        let ghost all = records.deep_view();
        let mut out: Vec<TopicRecord> = Vec::new();
        let mut i: usize = 0;
        assert(out.deep_view() =~= spec_topics(all.take(0)));
        while i < records.len()
            invariant
                i <= records.len(),
                all == records.deep_view(),
                out.deep_view() == spec_topics(all.take(i as int)),
            decreases records.len() - i,
        {
            let ghost before = out.deep_view();
            assert(all.take(i + 1).drop_last() =~= all.take(i as int));
            assert(all.take(i + 1).last() == records[i as int].deep_view());
            if let RecordBody::Topic(topic) = &records[i] {
                let copy = topic.clone();
                out.push(copy);
                assert(out.deep_view() =~= before.push(copy.deep_view()));
            }
            i = i + 1;
        }
        assert(all.take(i as int) =~= all);
        out
    }

    /// The path of the partition-0 log of the topic with the id `topic_id`:
    /// the log root, the name that the first topic record with that id
    /// gives, and the fixed suffix. `None` if the log holds no such record.
    pub fn message_path(&self, topic_id: &Uuid) -> (path: Option<String>)
        ensures
            path.deep_view() == match spec_topic_name(
                spec_topics(spec_records(self.spec_batches())),
                topic_id.deep_view(),
            ) {
                Some(name) => Some(spec_message_path(name)),
                None => None,
            },
    {
        let topics = self.topics();
        let ghost all = topics.deep_view();
        let mut i: usize = 0;
        assert(all.skip(0) =~= all);
        while i < topics.len()
            invariant
                i <= topics.len(),
                all == topics.deep_view(),
                all == spec_topics(spec_records(self.spec_batches())),
                spec_topic_name(all, topic_id.deep_view()) == spec_topic_name(
                    all.skip(i as int),
                    topic_id.deep_view(),
                ),
            decreases topics.len() - i,
        {
            assert(all.skip(i as int)[0] == topics[i as int].deep_view());
            if topics[i].topic_uuid.same(topic_id) {
                let root = String::from_str("/tmp/kraft-combined-logs/");
                let path = root.concat(topics[i].topic_name.as_str()).concat(
                    "-0/00000000000000000000.log",
                );
                return Some(path);
            }
            assert(all.skip(i as int).skip(1) =~= all.skip(i + 1));
            i = i + 1;
        }
        None
    }
}

/// Puts the batches `front` before a decoded run of batches; an error passes
/// through.
pub open spec fn after_batches(
    front: Seq<BatchModel>,
    back: Result<Seq<BatchModel>, DecodeError>,
) -> Result<Seq<BatchModel>, DecodeError> {
    match back {
        Ok(more) => Ok(front + more),
        Err(e) => Err(e),
    }
}

} // verus!
