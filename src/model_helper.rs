//! Mapping between wire messages and rows: id derivation, creation stamps and
//! the JSON encoding of free-form fields.
use vstd::prelude::*;

use crate::clock::{from_timestamp, instant_of, now, timestamp_readable, to_primtive_time, WallClock};
use crate::entity::{EventRow, ExperimentRow, FileRow, MetadataRow, MetricRow, ModelRow, ModelVersionRow};
use crate::error::InvalidRequestError;
use crate::identity::{
    artifact_id_spec, experiment_id_spec, file_id_spec, hash_three, hash_two, id_of, metadata_id_spec,
    model_id_spec, model_version_id_spec, opt_timestamp_bytes, utf8, IdHasher,
};
use crate::json::{
    decode_object, decode_string, decode_strings, encode_object, encode_string, encode_strings,
    json_of_object, json_of_string, json_of_strings, object_of_json, string_of_json, strings_of_json,
};
use crate::wire::{
    CreateExperimentRequest, CreateModelRequest, CreateModelVersionRequest, Event, EventSource,
    Experiment, FileMetadata, FileType, LogEventRequest, LogEventResponse, LogMetricsRequest,
    Metadata, MetricValue, MetricsValue, MlFramework, Model, ModelVersion, Timestamp,
    UpdateMetadataRequest, UploadFileMetadata,
};

verus! {

/// String pairs as plain values.
pub type Entries = Seq<(Seq<char>, Seq<char>)>;

/// The wire timestamp of an instant.
pub open spec fn wire_time(w: WallClock) -> Option<Timestamp> {
    Some(Timestamp { seconds: w.unix_seconds, nanos: w.nanosecond as i32 })
}

/// Index of the first entry under `key`, when there is one.
pub open spec fn is_first_index(es: Entries, key: Seq<char>, i: int) -> bool {
    &&& 0 <= i < es.len()
    &&& es[i].0 == key
    &&& forall|m: int| 0 <= m < i ==> es[m].0 != key
}

/// Whether some entry is under `key`.
pub open spec fn has_key(es: Entries, key: Seq<char>) -> bool {
    exists|i: int| 0 <= i < es.len() && es[i].0 == key
}

/// The value of the first entry under `key`.
pub open spec fn lookup(es: Entries, key: Seq<char>) -> Option<Seq<char>> {
    if has_key(es, key) {
        Some(es[choose|i: int| is_first_index(es, key, i)].1)
    } else {
        None
    }
}

/// `es` with the value under `key` replaced by `value`, or with the pair
/// appended when `key` is new.
pub open spec fn put(es: Entries, key: Seq<char>, value: Seq<char>) -> Entries {
    if has_key(es, key) {
        es.update(choose|i: int| is_first_index(es, key, i), (key, value))
    } else {
        es.push((key, value))
    }
}

proof fn lemma_first_index_unique(es: Entries, key: Seq<char>, i: int)
    requires
        is_first_index(es, key, i),
    ensures
        has_key(es, key),
        (choose|j: int| is_first_index(es, key, j)) == i,
{
    assert(is_first_index(es, key, i));
    let j = choose|j: int| is_first_index(es, key, j);
    assert(j == i) by {
        if j < i {
            assert(es[j].0 != key);
        } else if i < j {
            assert(es[i].0 != key);
        }
    }
}

/// Position of the first pair under `key`, if any.
fn find_key(entries: &Vec<(String, String)>, key: &String) -> (r: Option<usize>)
    ensures
        match r {
            Some(i) => is_first_index(entries.deep_view(), key@, i as int),
            None => !has_key(entries.deep_view(), key@),
        },
{
    let ghost es = entries.deep_view();
    let mut i: usize = 0;
    while i < entries.len()
        invariant
            i <= entries.len(),
            es == entries.deep_view(),
            es.len() == entries.len(),
            forall|m: int| 0 <= m < i ==> es[m].0 != key@,
        decreases entries.len() - i,
    {
        assert(es[i as int] == entries@[i as int].deep_view());
        if entries[i].0 == *key {
            return Some(i);
        }
        i = i + 1;
    }
    None
}

/// The value of the first pair under `key`, if any.
pub fn find_value(entries: &Vec<(String, String)>, key: &String) -> (r: Option<String>)
    ensures
        match r {
            Some(v) => lookup(entries.deep_view(), key@) == Some(v@),
            None => lookup(entries.deep_view(), key@) is None,
        },
{
    match find_key(entries, key) {
        Some(i) => {
            proof {
                lemma_first_index_unique(entries.deep_view(), key@, i as int);
            }
            Some(entries[i].1.clone())
        },
        None => None,
    }
}

/// Sets `key` to `value`: replaces the value of the pair under `key`, or
/// appends the pair when `key` is new.
pub fn put_entry(entries: &mut Vec<(String, String)>, key: String, value: String)
    ensures
        final(entries).deep_view() == put(old(entries).deep_view(), key@, value@),
{
    match find_key(entries, &key) {
        Some(i) => {
            proof {
                lemma_first_index_unique(old(entries).deep_view(), key@, i as int);
            }
            entries.set(i, (key, value));
            proof {
                assert(entries.deep_view() =~= put(old(entries).deep_view(), key@, value@));
            }
        },
        None => {
            entries.push((key, value));
            proof {
                assert(entries.deep_view() =~= put(old(entries).deep_view(), key@, value@));
            }
        },
    }
}

impl CreateExperimentRequest {
    /// Id of the experiment: from its name, owner and namespace.
    pub fn generate_id(&self) -> (r: String)
        ensures
            r@ == experiment_id_spec(self.name@, self.owner@, self.namespace@),
    {
        hash_three(self.name.as_str(), self.owner.as_str(), self.namespace.as_str())
    }

    /// The row that registers the experiment, stamped with the current time.
    pub fn into_model(self) -> (r: ExperimentRow)
        ensures
            r.id@ == experiment_id_spec(self.name@, self.owner@, self.namespace@),
            r.name == self.name,
            r.external_id == self.external_id,
            r.owner == self.owner,
            r.namespace == self.namespace,
            r.ml_framework == MlFramework::normalized(self.framework),
            r.created_at.wf(),
            r.updated_at == r.created_at,
    {
        let id = self.generate_id();
        let t = now();
        ExperimentRow {
            id,
            name: self.name,
            external_id: self.external_id,
            owner: self.owner,
            namespace: self.namespace,
            ml_framework: MlFramework::from_i32(self.framework).to_i32(),
            created_at: t,
            updated_at: t,
        }
    }
}

impl CreateModelRequest {
    /// Id of the model: from its name and namespace.
    pub fn generate_id(&self) -> (r: String)
        ensures
            r@ == model_id_spec(self.name@, self.namespace@),
    {
        hash_two(self.name.as_str(), self.namespace.as_str())
    }

    /// The row that registers the model, stamped with the current time.
    pub fn into_model(self) -> (r: ModelRow)
        ensures
            r.id@ == model_id_spec(self.name@, self.namespace@),
            r.name == self.name,
            r.owner == self.owner,
            r.namespace == self.namespace,
            r.task == self.task,
            r.description == self.description,
            r.created_at.wf(),
            r.updated_at == r.created_at,
    {
        let id = self.generate_id();
        let t = now();
        ModelRow {
            id,
            name: self.name,
            owner: self.owner,
            namespace: self.namespace,
            task: self.task,
            description: self.description,
            created_at: t,
            updated_at: t,
        }
    }
}

impl CreateModelVersionRequest {
    /// Id of the model version: from its model id and version.
    pub fn generate_id(&self) -> (r: String)
        ensures
            r@ == model_version_id_spec(self.model@, self.version@),
    {
        hash_two(self.model.as_str(), self.version.as_str())
    }

    /// The row that registers the version, with its tags as a JSON array and
    /// an empty experiment id; fails when the tags do not encode.
    pub fn into_model_version(self) -> (r: Result<ModelVersionRow, InvalidRequestError>)
        ensures
            r is Ok <==> json_of_strings(self.unique_tags.deep_view()) is Some,
            r matches Err(e) ==> e == InvalidRequestError::DeserializationError,
            r matches Ok(row) ==> {
                &&& row.id@ == model_version_id_spec(self.model@, self.version@)
                &&& row.name == self.name
                &&& row.model_id == self.model
                &&& row.experiment_id@ == Seq::<char>::empty()
                &&& row.namespace == self.namespace
                &&& row.version == self.version
                &&& row.description == self.description
                &&& row.ml_framework == MlFramework::normalized(self.framework)
                &&& Some(row.unique_tags@) == json_of_strings(self.unique_tags.deep_view())
                &&& row.created_at.wf()
                &&& row.updated_at == row.created_at
            },
    {
        let tags = match encode_strings(&self.unique_tags) {
            Ok(t) => t,
            Err(_) => {
                return Err(InvalidRequestError::DeserializationError);
            },
        };
        let id = self.generate_id();
        let t = now();
        Ok(ModelVersionRow {
            id,
            name: self.name,
            model_id: self.model,
            experiment_id: String::new(),
            version: self.version,
            namespace: self.namespace,
            description: self.description,
            ml_framework: MlFramework::from_i32(self.framework).to_i32(),
            unique_tags: tags,
            created_at: t,
            updated_at: t,
        })
    }
}

/// Whether `row` is the metadata row for `key` set to `value` under `parent`.
pub open spec fn metadata_row_for(row: MetadataRow, parent: Seq<char>, key: Seq<char>, value: Seq<char>) -> bool {
    &&& row.id@ == metadata_id_spec(key, parent)
    &&& row.parent_id@ == parent
    &&& row.name@ == key
    &&& json_of_string(value) == Some(row.meta@)
    &&& row.created_at.wf()
    &&& row.updated_at == row.created_at
}

/// The pairs of an optional map; none when absent.
pub open spec fn entries_of(m: Option<Metadata>) -> Entries {
    match m {
        Some(md) => md.metadata.deep_view(),
        None => Seq::empty(),
    }
}

impl UpdateMetadataRequest {
    /// Id of the metadata entry under `key`: from the key and the parent id.
    pub fn generate_id(&self, key: &str) -> (r: String)
        ensures
            r@ == metadata_id_spec(key@, self.parent_id@),
    {
        hash_two(key, self.parent_id.as_str())
    }

    /// One row per key, each value as JSON; a key given twice keeps its
    /// later value. Fails when a value does not encode.
    pub fn into_metadata_model(self) -> (r: Result<Vec<MetadataRow>, InvalidRequestError>)
        ensures
            r is Ok <==> forall|i: int| 0 <= i < metadata_pairs(self.metadata).len()
                ==> json_of_string(#[trigger] metadata_pairs(self.metadata)[i].1) is Some,
            r matches Err(e) ==> e == InvalidRequestError::DeserializationError,
            r matches Ok(rows) ==> {
                &&& rows@.len() == metadata_pairs(self.metadata).len()
                &&& forall|i: int| 0 <= i < rows@.len() ==> metadata_row_for(#[trigger] rows@[i],
                    self.parent_id@, metadata_pairs(self.metadata)[i].0, metadata_pairs(self.metadata)[i].1)
                &&& forall|i: int, j: int| 0 <= i < j < rows@.len() ==> rows@[i].name@ != rows@[j].name@
            },
    {
        let mut pairs: Vec<(String, String)> = Vec::new();
        match &self.metadata {
            Some(meta) => {
                let ghost given = meta.metadata.deep_view();
                let mut i: usize = 0;
                proof {
                    assert(given.take(0) == Seq::<(Seq<char>, Seq<char>)>::empty());
                    assert(pairs.deep_view() =~= Seq::<(Seq<char>, Seq<char>)>::empty());
                }
                while i < meta.metadata.len()
                    invariant
                        given == meta.metadata.deep_view(),
                        given.len() == meta.metadata.len(),
                        i <= meta.metadata.len(),
                        pairs.deep_view() == unique_entries(given.take(i as int)),
                    decreases meta.metadata.len() - i,
                {
                    assert(given[i as int] == meta.metadata@[i as int].deep_view());
                    proof {
                        assert(given.take(i + 1).drop_last() == given.take(i as int));
                        assert(given.take(i + 1).last() == given[i as int]);
                    }
                    put_entry(&mut pairs, meta.metadata[i].0.clone(), meta.metadata[i].1.clone());
                    i = i + 1;
                }
                proof {
                    assert(given.take(given.len() as int) == given);
                }
            },
            None => {},
        }
        let ghost es = pairs.deep_view();
        proof {
            assert(es == metadata_pairs(self.metadata));
            lemma_unique_entries_distinct(entries_of(self.metadata));
        }
        let mut models: Vec<MetadataRow> = Vec::new();
        let mut i: usize = 0;
        while i < pairs.len()
            invariant
                es == pairs.deep_view(),
                es == metadata_pairs(self.metadata),
                keys_distinct(es),
                es.len() == pairs.len(),
                i <= pairs.len(),
                models@.len() == i,
                forall|j: int| 0 <= j < i ==> json_of_string(#[trigger] es[j].1) is Some,
                forall|j: int| 0 <= j < i ==> metadata_row_for(#[trigger] models@[j],
                    self.parent_id@, es[j].0, es[j].1),
            decreases pairs.len() - i,
        {
            assert(es[i as int] == pairs@[i as int].deep_view());
            let k = &pairs[i].0;
            let v = &pairs[i].1;
            let json = match encode_string(v) {
                Ok(j) => j,
                Err(_) => {
                    assert(json_of_string(es[i as int].1) is None);
                    return Err(InvalidRequestError::DeserializationError);
                },
            };
            let t = now();
            let row = MetadataRow {
                id: self.generate_id(k.as_str()),
                parent_id: self.parent_id.clone(),
                name: k.clone(),
                meta: json,
                created_at: t,
                updated_at: t,
            };
            models.push(row);
            i = i + 1;
        }
        proof {
            assert forall|a: int, b: int| 0 <= a < b < models@.len() implies models@[a].name@
                != models@[b].name@ by {
                assert(metadata_row_for(models@[a], self.parent_id@, es[a].0, es[a].1));
                assert(metadata_row_for(models@[b], self.parent_id@, es[b].0, es[b].1));
            }
        }
        Ok(models)
    }
}

/// The pairs in order, a key given again replacing its earlier value in
/// place.
pub open spec fn unique_entries(es: Entries) -> Entries
    decreases es.len(),
{
    if es.len() == 0 {
        Seq::empty()
    } else {
        put(unique_entries(es.drop_last()), es.last().0, es.last().1)
    }
}

/// The pairs of an optional map, each key once.
pub open spec fn metadata_pairs(m: Option<Metadata>) -> Entries {
    unique_entries(entries_of(m))
}

/// No two pairs share a key.
pub open spec fn keys_distinct(es: Entries) -> bool {
    forall|i: int, j: int| 0 <= i < j < es.len() ==> es[i].0 != es[j].0
}

/// Setting a key keeps keys distinct.
pub proof fn lemma_put_distinct(es: Entries, key: Seq<char>, value: Seq<char>)
    requires
        keys_distinct(es),
    ensures
        keys_distinct(put(es, key, value)),
{
    let p = put(es, key, value);
    if has_key(es, key) {
        let k = choose|i: int| is_first_index(es, key, i);
        let w = choose|i: int| 0 <= i < es.len() && es[i].0 == key;
        assert(is_first_index(es, key, w)) by {
            assert forall|m: int| 0 <= m < w implies es[m].0 != key by {
                if es[m].0 == key {
                    assert(es[m].0 == es[w].0);
                }
            }
        }
        assert forall|i: int| 0 <= i < p.len() implies p[i].0 == es[i].0 by {}
    } else {
        assert forall|i: int, j: int| 0 <= i < j < p.len() implies p[i].0 != p[j].0 by {
            if j == es.len() {
                assert(p[i] == es[i]);
            }
        }
    }
}

/// De-duplicated pairs have distinct keys.
pub proof fn lemma_unique_entries_distinct(es: Entries)
    ensures
        keys_distinct(unique_entries(es)),
    decreases es.len(),
{
    if es.len() > 0 {
        lemma_unique_entries_distinct(es.drop_last());
        lemma_put_distinct(unique_entries(es.drop_last()), es.last().0, es.last().1);
    }
}

/// The entries of the JSON object stored with a file: its checksum.
pub open spec fn checksum_entries(checksum: Seq<char>) -> Entries {
    seq![("checksum"@, checksum)]
}

/// The stored name of a wire file-type code; unknown codes read as
/// `Undefined`.
pub open spec fn file_type_name(code: i32) -> Seq<char> {
    if 0 <= code <= 6 {
        (choose|t: FileType| t.code() == code).stored_name()
    } else {
        FileType::Undefined.stored_name()
    }
}

/// Whether `row` is the file row that `f` describes within the artifact
/// `artifact_name`, before any upload path is assigned by an upload.
pub open spec fn file_row_for(row: FileRow, f: FileMetadata, artifact_name: Seq<char>) -> bool {
    &&& row.id@ == file_id_spec(f.parent_id@, f.src_path@, f.checksum@, file_type_name(f.file_type),
        f.created_at, f.updated_at)
    &&& row.parent_id == f.parent_id
    &&& row.src_path == f.src_path
    &&& row.upload_path == Some(f.upload_path)
    &&& row.file_type@ == file_type_name(f.file_type)
    &&& json_of_object(checksum_entries(f.checksum@)) == Some(row.metadata@)
    &&& row.artifact_name@ == artifact_name
    &&& row.artifact_id@ == artifact_id_spec(f.parent_id@, artifact_name)
    &&& row.created_at.wf()
    &&& row.updated_at == row.created_at
}

/// The checksum held in a file row's JSON metadata; empty when it holds none.
pub open spec fn checksum_of(metadata: Entries) -> Seq<char> {
    match lookup(metadata, "checksum"@) {
        Some(c) => c,
        None => Seq::empty(),
    }
}

/// Whether `out` is what clients see of the stored file `row`.
pub open spec fn file_meta_of_row(out: FileMetadata, row: FileRow) -> bool {
    &&& out.id == row.id
    &&& out.parent_id == row.parent_id
    &&& object_of_json(row.metadata@) is Some
    &&& out.checksum@ == checksum_of(object_of_json(row.metadata@)->Some_0)
    &&& out.src_path == row.src_path
    &&& out.upload_path@ == match row.upload_path {
        Some(p) => p@,
        None => Seq::<char>::empty(),
    }
    &&& out.file_type == FileType::kind_of_stored(row.file_type@).code()
    &&& out.created_at == wire_time(row.created_at)
    &&& out.updated_at == wire_time(row.updated_at)
}

fn file_type_string(code: i32) -> (r: String)
    ensures
        r@ == file_type_name(code),
{
    let t = FileType::from_i32_or_default(code);
    proof {
        if 0 <= code <= 6 {
            assert(t.code() == code);
            let c = choose|u: FileType| u.code() == code;
            assert(c.code() == code);
            assert(c == t);
        }
    }
    t.as_string()
}

impl FileMetadata {
    /// Id of the file: from its parent id, source path, checksum, file type and
    /// the given creation and update times.
    pub fn generate_id(&self) -> (r: String)
        ensures
            r@ == file_id_spec(self.parent_id@, self.src_path@, self.checksum@,
                file_type_name(self.file_type), self.created_at, self.updated_at),
    {
        let kind_name = file_type_string(self.file_type);
        let mut h = IdHasher::new();
        h.write_str(self.parent_id.as_str());
        h.write_str(self.src_path.as_str());
        h.write_str(self.checksum.as_str());
        h.write_str(kind_name.as_str());
        h.write_opt_timestamp(&self.created_at);
        h.write_opt_timestamp(&self.updated_at);
        proof {
            assert(Seq::<u8>::empty() + utf8(self.parent_id@) == utf8(self.parent_id@));
        }
        h.finish()
    }

    /// Id of the artifact group named `artifact_name` under this file's parent.
    pub fn generate_artifact_id(&self, artifact_name: String) -> (r: String)
        ensures
            r@ == artifact_id_spec(self.parent_id@, artifact_name@),
    {
        hash_two(self.parent_id.as_str(), artifact_name.as_str())
    }

    /// The file row for this description within the artifact `artifact_name`;
    /// fails when the checksum does not encode.
    pub fn into_file_metadata_model(&self, artifact_name: String) -> (r: Result<FileRow, InvalidRequestError>)
        ensures
            r is Ok <==> json_of_object(checksum_entries(self.checksum@)) is Some,
            r matches Err(e) ==> e == InvalidRequestError::DeserializationError,
            r matches Ok(row) ==> file_row_for(row, *self, artifact_name@),
    {
        let mut meta: Vec<(String, String)> = Vec::new();
        meta.push(("checksum".to_owned(), self.checksum.clone()));
        proof {
            assert(meta.deep_view() =~= checksum_entries(self.checksum@));
        }
        let json = match encode_object(&meta) {
            Ok(j) => j,
            Err(_) => {
                return Err(InvalidRequestError::DeserializationError);
            },
        };
        let t = now();
        Ok(FileRow {
            id: self.generate_id(),
            parent_id: self.parent_id.clone(),
            src_path: self.src_path.clone(),
            upload_path: Some(self.upload_path.clone()),
            file_type: file_type_string(self.file_type),
            metadata: json,
            artifact_id: self.generate_artifact_id(artifact_name.clone()),
            artifact_name,
            created_at: t,
            updated_at: t,
        })
    }

    /// What clients see of one stored file; fails when its JSON metadata does
    /// not decode.
    pub fn from_model(m: &FileRow) -> (r: Result<FileMetadata, InvalidRequestError>)
        ensures
            r is Ok <==> object_of_json(m.metadata@) is Some,
            r matches Err(e) ==> e == InvalidRequestError::DeserializationError,
            r matches Ok(out) ==> file_meta_of_row(out, *m),
    {
        let value = match decode_object(m.metadata.as_str()) {
            Ok(v) => v,
            Err(_) => {
                return Err(InvalidRequestError::DeserializationError);
            },
        };
        let key = "checksum".to_owned();
        let checksum = match find_value(&value, &key) {
            Some(c) => c,
            None => String::new(),
        };
        let upload_path = match &m.upload_path {
            Some(p) => p.clone(),
            None => String::new(),
        };
        Ok(FileMetadata {
            id: m.id.clone(),
            parent_id: m.parent_id.clone(),
            checksum,
            src_path: m.src_path.clone(),
            upload_path,
            file_type: FileType::to_file_meta(m.file_type.as_str()).to_i32(),
            created_at: from_timestamp(m.created_at),
            updated_at: from_timestamp(m.updated_at),
        })
    }

    /// What clients see of stored files, in order; fails on the first whose
    /// JSON metadata does not decode.
    pub fn from_models(model: Vec<FileRow>) -> (r: Result<Vec<FileMetadata>, InvalidRequestError>)
        ensures
            r is Ok <==> forall|i: int| 0 <= i < model@.len() ==> object_of_json(
                #[trigger] model@[i].metadata@) is Some,
            r matches Err(e) ==> e == InvalidRequestError::DeserializationError,
            r matches Ok(out) ==> {
                &&& out@.len() == model@.len()
                &&& forall|i: int| 0 <= i < out@.len() ==> file_meta_of_row(#[trigger] out@[i], model@[i])
            },
    {
        let mut meta: Vec<FileMetadata> = Vec::new();
        let mut i: usize = 0;
        while i < model.len()
            invariant
                i <= model@.len(),
                meta@.len() == i,
                forall|j: int| 0 <= j < i ==> object_of_json(#[trigger] model@[j].metadata@) is Some,
                forall|j: int| 0 <= j < i ==> file_meta_of_row(#[trigger] meta@[j], model@[j]),
            decreases model@.len() - i,
        {
            match FileMetadata::from_model(&model[i]) {
                Ok(f) => meta.push(f),
                Err(e) => {
                    return Err(e);
                },
            }
            i = i + 1;
        }
        Ok(meta)
    }
}

impl UploadFileMetadata {
    /// The file row that an upload's first frame describes; fails when the
    /// frame has no file description or its checksum does not encode.
    pub fn file_model(&self) -> (r: Result<FileRow, InvalidRequestError>)
        ensures
            self.metadata is None ==> (r matches Err(InvalidRequestError::MissingField { field })
                && field@ == "metadata"@),
            self.metadata matches Some(f) ==> {
                &&& (r is Ok <==> json_of_object(checksum_entries(f.checksum@)) is Some)
                &&& r matches Err(e) ==> e == InvalidRequestError::DeserializationError
                &&& r matches Ok(row) ==> file_row_for(row, f, self.artifact_name@)
            },
    {
        match &self.metadata {
            Some(m) => m.into_file_metadata_model(self.artifact_name.clone()),
            None => Err(InvalidRequestError::MissingField { field: "metadata".to_owned() }),
        }
    }
}

/// The bytes that an event contributes to its id: its name, its wall-clock
/// time when given, and its source's name when given.
pub open spec fn event_id_bytes(e: Event) -> Seq<u8> {
    utf8(e.name@) + opt_timestamp_bytes(e.wallclock_time) + match e.source {
        Some(s) => utf8(s.name@),
        None => Seq::empty(),
    }
}

/// Id of an event under `parent_id`.
pub open spec fn event_id_spec(parent_id: Seq<char>, event: Option<Event>) -> Seq<char> {
    id_of(utf8(parent_id) + match event {
        Some(e) => event_id_bytes(e),
        None => Seq::empty(),
    })
}

/// Pairs of an event's metadata; none when the event or its metadata is absent.
pub open spec fn event_entries(event: Option<Event>) -> Entries {
    match event {
        Some(e) => entries_of(e.metadata),
        None => Seq::empty(),
    }
}

/// Whether `row` is the event row that `request` records: its id, parent,
/// event name and source name (empty when absent), its metadata as a JSON
/// object, and a valid wall-clock time that is the given one when given.
pub open spec fn event_row_for(row: EventRow, request: LogEventRequest) -> bool {
    &&& row.id@ == event_id_spec(request.parent_id@, request.event)
    &&& row.parent_id == request.parent_id
    &&& row.name@ == match request.event {
        Some(e) => e.name@,
        None => Seq::<char>::empty(),
    }
    &&& row.source@ == match request.event {
        Some(e) => match e.source {
            Some(s) => s.name@,
            None => Seq::<char>::empty(),
        },
        None => Seq::<char>::empty(),
    }
    &&& json_of_object(event_entries(request.event)) == Some(row.metadata@)
    &&& row.source_wall_clock.wf()
    &&& (request.event is Some && request.event->Some_0.wallclock_time is Some
        ==> row.source_wall_clock.total_nanos() == instant_of(
        request.event->Some_0.wallclock_time->Some_0))
}

impl LogEventRequest {
    /// Id of the event: from the parent id and the event's name, wall-clock
    /// time and source name.
    pub fn generate_id(&self) -> (r: String)
        ensures
            r@ == event_id_spec(self.parent_id@, self.event),
    {
        let mut h = IdHasher::new();
        h.write_str(self.parent_id.as_str());
        proof {
            assert(Seq::<u8>::empty() + utf8(self.parent_id@) == utf8(self.parent_id@));
        }
        let ghost base = h@;
        match &self.event {
            Some(e) => {
                h.write_str(e.name.as_str());
                h.write_opt_timestamp(&e.wallclock_time);
                match &e.source {
                    Some(s) => {
                        h.write_str(s.name.as_str());
                    },
                    None => {},
                }
                proof {
                    assert(h@ =~= base + event_id_bytes(*e));
                }
            },
            None => {
                proof {
                    assert(h@ =~= base + Seq::<u8>::empty());
                }
            },
        }
        h.finish()
    }

    /// The event row: metadata as a JSON object, and the event's wall-clock
    /// time, or the current time when none is given. Fails when the metadata
    /// does not encode, or else when the given time is not readable.
    pub fn into_log_event_model(self) -> (r: Result<EventRow, InvalidRequestError>)
        ensures
            json_of_object(event_entries(self.event)) is None ==> r == Err::<EventRow, _>(
                InvalidRequestError::DeserializationError),
            json_of_object(event_entries(self.event)) is Some ==> match self.event {
                Some(e) => match e.wallclock_time {
                    Some(ts) => (r is Ok <==> timestamp_readable(ts)) && (r matches Err(err)
                        ==> err == InvalidRequestError::InvalidTime),
                    None => r is Ok,
                },
                None => r is Ok,
            },
            r matches Ok(row) ==> event_row_for(row, self),
    {
        let id = self.generate_id();
        let ghost ev = self.event;
        let event = match self.event {
            Some(e) => e,
            None => Event { name: String::new(), source: None, wallclock_time: None, metadata: None },
        };
        let source_name = match event.source {
            Some(s) => s.name,
            None => String::new(),
        };
        let entries = match event.metadata {
            Some(m) => m.metadata,
            None => Vec::new(),
        };
        proof {
            assert(entries.deep_view() =~= event_entries(ev));
        }
        let json = match encode_object(&entries) {
            Ok(j) => j,
            Err(_) => {
                return Err(InvalidRequestError::DeserializationError);
            },
        };
        let event_ts = match event.wallclock_time {
            Some(ts) => ts,
            None => {
                let n = now();
                proof {
                    crate::clock::lemma_timestamp_round_trip(n);
                }
                Timestamp { seconds: n.unix_seconds, nanos: n.nanosecond as i32 }
            },
        };
        let w_clock = match to_primtive_time(event_ts) {
            Ok(w) => w,
            Err(e) => {
                return Err(e);
            },
        };
        Ok(EventRow {
            id,
            parent_id: self.parent_id,
            name: event.name,
            source: source_name,
            metadata: json,
            source_wall_clock: w_clock,
        })
    }
}

/// Whether `out` is what clients see of the stored experiment `row`.
pub open spec fn experiment_of_row(out: Experiment, row: ExperimentRow) -> bool {
    &&& out.id == row.id
    &&& out.name == row.name
    &&& out.external_id == row.external_id
    &&& out.owner == row.owner
    &&& out.namespace == row.namespace
    &&& out.framework == row.ml_framework
    &&& out.created_at == wire_time(row.created_at)
    &&& out.updated_at == wire_time(row.updated_at)
}

/// Whether `out` is what clients see of the stored model `row`.
pub open spec fn model_of_row(out: Model, row: ModelRow) -> bool {
    &&& out.id == row.id
    &&& out.name == row.name
    &&& out.owner == row.owner
    &&& out.namespace == row.namespace
    &&& out.description == row.description
    &&& out.task == row.task
    &&& out.created_at == wire_time(row.created_at)
    &&& out.updated_at == wire_time(row.updated_at)
}

/// Whether `out` is what clients see of the stored event `row`; metadata
/// that does not decode reads as empty.
pub open spec fn event_of_row(out: Event, row: EventRow) -> bool {
    &&& out.name == row.name
    &&& out.source == Some(EventSource { name: row.source })
    &&& out.wallclock_time == wire_time(row.source_wall_clock)
    &&& out.metadata is Some
    &&& out.metadata->Some_0.metadata.deep_view() == match object_of_json(row.metadata@) {
        Some(es) => es,
        None => Seq::empty(),
    }
}

impl Event {
    /// What clients see of a stored event; metadata that does not decode reads
    /// as empty.
    pub fn from_model(model: EventRow) -> (r: Event)
        ensures
            event_of_row(r, model),
    {
        let entries = match decode_object(model.metadata.as_str()) {
            Ok(v) => v,
            Err(_) => Vec::new(),
        };
        proof {
            if object_of_json(model.metadata@) is None {
                assert(entries.deep_view() =~= Seq::<(Seq<char>, Seq<char>)>::empty());
            }
        }
        Event {
            name: model.name,
            source: Some(EventSource { name: model.source }),
            wallclock_time: from_timestamp(model.source_wall_clock),
            metadata: Some(Metadata { metadata: entries }),
        }
    }
}

impl LogEventResponse {
    /// A reply stamped with the current time.
    pub fn new() -> (r: Self)
        ensures
            r.created_at is Some,
            crate::clock::UNIX_MIN <= r.created_at->Some_0.seconds <= crate::clock::UNIX_MAX,
            0 <= r.created_at->Some_0.nanos < 1000000000,
    {
        LogEventResponse { created_at: from_timestamp(now()) }
    }
}

/// Whether `r` is the sample that `request` records: its object and name, its
/// value in `tensor` or `float_value` by kind, its step, no wall-clock time,
/// and a valid creation time.
pub open spec fn metric_row_for(r: MetricRow, request: LogMetricsRequest) -> bool {
    &&& r.object_id == request.parent_id
    &&& r.name == request.key
    &&& r.tensor == match request.value {
        Some(v) => match v.value {
            Some(MetricValue::STensor(t)) => Some(t),
            _ => None,
        },
        None => None,
    }
    &&& r.float_value == match request.value {
        Some(v) => match v.value {
            Some(MetricValue::FVal(f)) => Some(f),
            _ => None,
        },
        None => None::<u32>,
    }
    &&& r.step == match request.value {
        Some(v) => Some(v.step as i64),
        None => None,
    }
    &&& r.wall_clock is None
    &&& r.created_at.wf()
}

impl LogMetricsRequest {
    /// The metric row for one sample, stamped with the current time. The
    /// sample's value goes to `tensor` or `float_value` by its kind.
    pub fn into_metric_model(self) -> (r: MetricRow)
        ensures
            r.id == 0,
            metric_row_for(r, self),
    {
        let (tensor, float_value, step) = match self.value {
            Some(v) => {
                let step = Some(v.step as i64);
                match v.value {
                    Some(MetricValue::STensor(t)) => (Some(t), None, step),
                    Some(MetricValue::FVal(f)) => (None, Some(f), step),
                    None => (None, None, step),
                }
            },
            None => (None, None, None),
        };
        MetricRow {
            id: 0,
            object_id: self.parent_id,
            name: self.key,
            tensor,
            float_value,
            step,
            wall_clock: None,
            created_at: now(),
        }
    }
}

/// What clients see of a stored sample.
pub open spec fn metrics_value_of(m: MetricRow) -> MetricsValue {
    MetricsValue {
        step: match m.step {
            Some(s) => s as u64,
            None => 0,
        },
        wallclock_time: 0,
        value: match m.tensor {
            Some(t) => Some(MetricValue::STensor(t)),
            None => Some(MetricValue::FVal(match m.float_value {
                Some(f) => f,
                None => 0,
            })),
        },
    }
}

impl MetricsValue {
    /// What clients see of a stored sample: its step (zero when absent), and
    /// its tensor, or else its float value (zero bits when absent).
    pub fn from_metrics(m: MetricRow) -> (r: MetricsValue)
        ensures
            r == metrics_value_of(m),
    {
        let step: u64 = match m.step {
            Some(s) => s as u64,
            None => 0,
        };
        let value = match m.tensor {
            Some(t) => MetricValue::STensor(t),
            None => MetricValue::FVal(
                match m.float_value {
                    Some(f) => f,
                    None => 0,
                },
            ),
        };
        MetricsValue { step, wallclock_time: 0, value: Some(value) }
    }
}

impl Experiment {
    /// What clients see of a stored experiment.
    pub fn from_model(model: ExperimentRow) -> (r: Self)
        ensures
            experiment_of_row(r, model),
    {
        Self {
            id: model.id,
            name: model.name,
            external_id: model.external_id,
            owner: model.owner,
            namespace: model.namespace,
            framework: model.ml_framework,
            created_at: from_timestamp(model.created_at),
            updated_at: from_timestamp(model.updated_at),
        }
    }
}

impl Model {
    /// What clients see of a stored model.
    pub fn from_model(model: ModelRow) -> (r: Self)
        ensures
            model_of_row(r, model),
    {
        Self {
            id: model.id,
            name: model.name,
            owner: model.owner,
            namespace: model.namespace,
            description: model.description,
            task: model.task,
            created_at: from_timestamp(model.created_at),
            updated_at: from_timestamp(model.updated_at),
        }
    }
}

/// Whether `out` is what clients see of the stored model version `row`.
pub open spec fn model_version_of_row(out: ModelVersion, row: ModelVersionRow) -> bool {
    &&& out.id == row.id
    &&& out.name == row.name
    &&& out.model_id == row.model_id
    &&& out.version == row.version
    &&& out.description == row.description
    &&& out.framework == row.ml_framework
    &&& strings_of_json(row.unique_tags@) == Some(out.unique_tags.deep_view())
    &&& out.created_at == wire_time(row.created_at)
    &&& out.updated_at == wire_time(row.updated_at)
}

impl ModelVersion {
    /// What clients see of a stored model version; fails when its tags do
    /// not decode.
    pub fn from_model(model: ModelVersionRow) -> (r: Result<Self, InvalidRequestError>)
        ensures
            r is Ok <==> strings_of_json(model.unique_tags@) is Some,
            r matches Err(e) ==> e == InvalidRequestError::DeserializationError,
            r matches Ok(v) ==> model_version_of_row(v, model),
    {
        let tags = match decode_strings(model.unique_tags.as_str()) {
            Ok(t) => t,
            Err(_) => {
                return Err(InvalidRequestError::DeserializationError);
            },
        };
        Ok(Self {
            id: model.id,
            name: model.name,
            model_id: model.model_id,
            version: model.version,
            description: model.description,
            framework: model.ml_framework,
            unique_tags: tags,
            created_at: from_timestamp(model.created_at),
            updated_at: from_timestamp(model.updated_at),
        })
    }
}

/// The pairs that stored metadata rows read as: each row's name with its
/// decoded value, a later row replacing an earlier one under the same name.
pub open spec fn metadata_entries(rows: Seq<MetadataRow>) -> Entries
    decreases rows.len(),
{
    if rows.len() == 0 {
        Seq::empty()
    } else {
        put(metadata_entries(rows.drop_last()), rows.last().name@,
            string_of_json(rows.last().meta@)->Some_0)
    }
}

impl Metadata {
    /// The map that stored metadata rows read as; fails when a value does not
    /// decode.
    pub fn from_model(model: Vec<MetadataRow>) -> (r: Result<Self, InvalidRequestError>)
        ensures
            r is Ok <==> forall|i: int| 0 <= i < model@.len() ==> string_of_json(
                #[trigger] model@[i].meta@) is Some,
            r matches Err(e) ==> e == InvalidRequestError::DeserializationError,
            r matches Ok(m) ==> m.metadata.deep_view() == metadata_entries(model@),
    {
        let mut meta: Vec<(String, String)> = Vec::new();
        let mut i: usize = 0;
        while i < model.len()
            invariant
                i <= model@.len(),
                forall|j: int| 0 <= j < i ==> string_of_json(#[trigger] model@[j].meta@) is Some,
                meta.deep_view() == metadata_entries(model@.take(i as int)),
            decreases model@.len() - i,
        {
            let value = match decode_string(model[i].meta.as_str()) {
                Ok(v) => v,
                Err(_) => {
                    return Err(InvalidRequestError::DeserializationError);
                },
            };
            put_entry(&mut meta, model[i].name.clone(), value);
            proof {
                assert(model@.take(i + 1).drop_last() == model@.take(i as int));
            }
            i = i + 1;
        }
        proof {
            assert(model@.take(model@.len() as int) == model@);
        }
        Ok(Metadata { metadata: meta })
    }
}


/// Two experiment requests that agree on name, owner and namespace get the
/// same id.
pub proof fn law_experiment_id_deterministic(a: CreateExperimentRequest, b: CreateExperimentRequest)
    requires
        a.name@ == b.name@,
        a.owner@ == b.owner@,
        a.namespace@ == b.namespace@,
    ensures
        experiment_id_spec(a.name@, a.owner@, a.namespace@) == experiment_id_spec(b.name@, b.owner@, b.namespace@),
{
}

/// Two model requests that agree on name and namespace get the same id.
pub proof fn law_model_id_deterministic(a: CreateModelRequest, b: CreateModelRequest)
    requires
        a.name@ == b.name@,
        a.namespace@ == b.namespace@,
    ensures
        model_id_spec(a.name@, a.namespace@) == model_id_spec(b.name@, b.namespace@),
{
}

/// Two model-version requests that agree on model and version get the same
/// id.
pub proof fn law_model_version_id_deterministic(a: CreateModelVersionRequest, b: CreateModelVersionRequest)
    requires
        a.model@ == b.model@,
        a.version@ == b.version@,
    ensures
        model_version_id_spec(a.model@, a.version@) == model_version_id_spec(b.model@, b.version@),
{
}

/// Two metadata requests with the same parent give one key the same id.
pub proof fn law_metadata_id_deterministic(a: UpdateMetadataRequest, b: UpdateMetadataRequest, key: Seq<char>)
    requires
        a.parent_id@ == b.parent_id@,
    ensures
        metadata_id_spec(key, a.parent_id@) == metadata_id_spec(key, b.parent_id@),
{
}

/// Two file descriptions that agree on parent, source path, checksum, file
/// type and times get the same file id, and the same artifact id for one
/// artifact name.
pub proof fn law_file_id_deterministic(a: FileMetadata, b: FileMetadata, artifact_name: Seq<char>)
    requires
        a.parent_id@ == b.parent_id@,
        a.src_path@ == b.src_path@,
        a.checksum@ == b.checksum@,
        a.file_type == b.file_type,
        a.created_at == b.created_at,
        a.updated_at == b.updated_at,
    ensures
        file_id_spec(a.parent_id@, a.src_path@, a.checksum@, file_type_name(a.file_type), a.created_at,
            a.updated_at) == file_id_spec(b.parent_id@, b.src_path@, b.checksum@, file_type_name(
            b.file_type), b.created_at, b.updated_at),
        artifact_id_spec(a.parent_id@, artifact_name) == artifact_id_spec(b.parent_id@, artifact_name),
{
}

/// Two event requests that agree on parent, event name, wall-clock time and
/// source name get the same id.
pub proof fn law_event_id_deterministic(a: LogEventRequest, b: LogEventRequest)
    requires
        a.parent_id@ == b.parent_id@,
        a.event is Some <==> b.event is Some,
        a.event is Some ==> {
            let (x, y) = (a.event->Some_0, b.event->Some_0);
            &&& x.name@ == y.name@
            &&& x.wallclock_time == y.wallclock_time
            &&& (x.source is Some <==> y.source is Some)
            &&& (x.source is Some ==> x.source->Some_0.name@ == y.source->Some_0.name@)
        },
    ensures
        event_id_spec(a.parent_id@, a.event) == event_id_spec(b.parent_id@, b.event),
{
    if a.event is Some {
        assert(event_id_bytes(a.event->Some_0) == event_id_bytes(b.event->Some_0));
    }
}

} // verus!
