//! Request handling: validation, orchestration of the repository and the
//! upload protocol, and the mapping of failures onto client-facing status
//! kinds.
use vstd::prelude::*;

use crate::aggregate::{bucket_metrics, bucketed, group_files, grouped};
use crate::clock::{from_timestamp, timestamp_readable};
use crate::entity::{ExperimentRow, FileRow, MetricRow, ModelRow, ModelVersionRow};
use crate::error::{DatastoreError, Status};
use crate::identity::{
    artifact_id_spec, experiment_id_spec, file_id_spec, model_id_spec, model_version_id_spec,
};
use crate::json::{json_of_object, json_of_string, json_of_strings, object_of_json, string_of_json, strings_of_json};
use crate::model_helper::{
    checksum_entries, event_entries, event_row_for, metadata_pairs, metric_row_for, model_version_of_row, event_id_spec, event_of_row, experiment_of_row, file_meta_of_row, file_type_name, model_of_row,
    wire_time,
};
use crate::repository::{
    experiment_create_outcome, experiment_payload, has_row, model_payload, model_version_payload, in_scope, keys_unique, model_create_outcome,
    model_version_create_outcome, upsert_all_files, upsert_file, with_files, Repository, RowId,
};
use crate::upload::{artifact_path, artifact_path_of, chunks_of, upload_step, UploadAction};
use crate::wire::{
    Artifact, CreateExperimentRequest, CreateExperimentResponse, CreateModelRequest,
    CreateModelResponse, CreateModelVersionRequest, CreateModelVersionResponse, Event, Experiment,
    FileMetadata, LogEventRequest, LogEventResponse, LogMetricsRequest, Metadata, Metrics, Model,
    MlFramework, ModelVersion, StreamFrame, TrackArtifactsRequest, UpdateMetadataRequest, UploadFileRequest,
    UploadFileResponse,
};

verus! {

/// Where an upload goes, once its first frame has been accepted.
#[derive(Debug, PartialEq, Eq)]
pub struct UploadTarget {
    pub file_id: String,
    pub artifact_id: String,
    pub path: String,
}

fn invalid_argument(message: &str) -> (r: Status)
    ensures
        r is InvalidArgument,
{
    Status::InvalidArgument { message: message.to_owned() }
}

fn internal(e: DatastoreError) -> (r: Status)
    ensures
        r is Internal,
{
    match e {
        DatastoreError::DatabaseError => Status::Internal { message: "data store error".to_owned() },
        DatastoreError::JsonError => Status::Internal { message: "serde json error".to_owned() },
    }
}

/// Whether `e` is an experiment row that `request` registers: its id derived
/// from name, owner and namespace, its fields copied, its framework
/// normalized, and its creation and update times one valid instant.
pub open spec fn experiment_row_for(e: ExperimentRow, request: CreateExperimentRequest) -> bool {
    &&& e.id@ == experiment_id_spec(request.name@, request.owner@, request.namespace@)
    &&& e.name == request.name
    &&& e.owner == request.owner
    &&& e.namespace == request.namespace
    &&& e.external_id == request.external_id
    &&& e.ml_framework == MlFramework::normalized(request.framework)
    &&& e.created_at.wf()
    &&& e.updated_at == e.created_at
}

/// Whether `m` is a model row that `request` registers.
pub open spec fn model_row_for(m: ModelRow, request: CreateModelRequest) -> bool {
    &&& m.id@ == model_id_spec(request.name@, request.namespace@)
    &&& m.name == request.name
    &&& m.owner == request.owner
    &&& m.namespace == request.namespace
    &&& m.task == request.task
    &&& m.description == request.description
    &&& m.created_at.wf()
    &&& m.updated_at == m.created_at
}

/// Whether `v` is a model-version row that `request` registers, its tags
/// encoded as a JSON array and its experiment id empty.
pub open spec fn model_version_row_for(v: ModelVersionRow, request: CreateModelVersionRequest) -> bool {
    &&& v.id@ == model_version_id_spec(request.model@, request.version@)
    &&& v.name == request.name
    &&& v.model_id == request.model
    &&& v.experiment_id@ == Seq::<char>::empty()
    &&& v.namespace == request.namespace
    &&& v.version == request.version
    &&& v.description == request.description
    &&& v.ml_framework == MlFramework::normalized(request.framework)
    &&& Some(v.unique_tags@) == json_of_strings(request.unique_tags.deep_view())
    &&& v.created_at.wf()
    &&& v.updated_at == v.created_at
}

/// Whether an event request can be turned into a row: its metadata encodes,
/// and its wall-clock time, when given, can be read.
pub open spec fn event_readable(request: LogEventRequest) -> bool {
    &&& json_of_object(event_entries(request.event)) is Some
    &&& match request.event {
        Some(e) => match e.wallclock_time {
            Some(ts) => timestamp_readable(ts),
            None => true,
        },
        None => true,
    }
}

/// Whether `t` is where the file described by the first frame `m` goes.
pub open spec fn upload_target_for(t: UploadTarget, m: crate::wire::UploadFileMetadata) -> bool {
    &&& m.metadata is Some
    &&& t.file_id@ == file_id_spec(
        m.metadata->Some_0.parent_id@,
        m.metadata->Some_0.src_path@,
        m.metadata->Some_0.checksum@,
        file_type_name(m.metadata->Some_0.file_type),
        m.metadata->Some_0.created_at,
        m.metadata->Some_0.updated_at,
    )
    &&& t.artifact_id@ == artifact_id_spec(m.metadata->Some_0.parent_id@, m.artifact_name@)
    &&& t.path@ == artifact_path(m.metadata->Some_0.parent_id@, t.file_id@)
}

/// After upserting `row`, a row with its id holds its upload path.
pub proof fn lemma_upsert_file_holds(table: Seq<FileRow>, row: FileRow) -> (i: int)
    requires
        keys_unique(table),
    ensures
        0 <= i < upsert_file(table, row).len(),
        upsert_file(table, row)[i].id@ == row.id@,
        upsert_file(table, row)[i].upload_path == row.upload_path,
{
    if has_row(table, row.id@) {
        choose|i: int| 0 <= i < table.len() && table[i].key() == row.id@
    } else {
        table.len() as int
    }
}

/// The service: request handlers over the repository.
pub struct ModelBoxService {
    pub repository: Repository,
}

impl ModelBoxService {
    pub open spec fn wf(&self) -> bool {
        self.repository.wf()
    }

    /// A service over an empty repository.
    pub fn new() -> (r: Self)
        ensures
            r.wf(),
            r.repository@.experiments.len() == 0,
            r.repository@.mutations.len() == 0,
            r.repository@.files.len() == 0,
    {
        ModelBoxService { repository: Repository::new() }
    }

    /// Registers an experiment under the id derived from its name, owner and
    /// namespace; a repeated registration reports the experiment as existing.
    pub fn create_experiment(&mut self, request: CreateExperimentRequest) -> (r: Result<CreateExperimentResponse, Status>)
        requires
            old(self).wf(),
        ensures
            final(self).wf(),
            r matches Err(s) ==> s is Internal && final(self).repository@ == old(self).repository@,
            r is Err ==> old(self).repository@.next_mutation_id == u64::MAX || exists|e: ExperimentRow|
                experiment_row_for(e, request) && #[trigger] json_of_object(experiment_payload(e)) is None,
            has_row(old(self).repository@.experiments, experiment_id_spec(request.name@, request.owner@,
                request.namespace@)) ==> (r matches Ok(resp) && resp.experiment_exists),
            r matches Ok(resp) ==> exists|e: ExperimentRow| {
                &&& #[trigger] experiment_row_for(e, request)
                &&& experiment_create_outcome(old(self).repository@, e, final(self).repository@,
                    resp.experiment_exists)
                &&& resp.experiment_id == e.id
                &&& resp.created_at == wire_time(e.created_at)
                &&& resp.updated_at == wire_time(e.updated_at)
            },
    {
        let experiment = request.into_model();
        let created_at = from_timestamp(experiment.created_at);
        let updated_at = from_timestamp(experiment.updated_at);
        let ghost e = experiment;
        assert(experiment_row_for(e, request));
        match self.repository.create_exeperiment(experiment) {
            Ok(result) => {
                Ok(CreateExperimentResponse {
                    experiment_id: result.id,
                    experiment_exists: result.exists,
                    created_at,
                    updated_at,
                })
            },
            Err(err) => Err(internal(err)),
        }
    }

    /// The experiments of a namespace, in registration order.
    pub fn list_experiments(&self, namespace: String) -> (r: Vec<Experiment>)
        ensures
            r@.len() == in_scope(self.repository@.experiments, namespace@).len(),
            forall|i: int| 0 <= i < r@.len() ==> experiment_of_row(
                #[trigger] r@[i],
                in_scope(self.repository@.experiments, namespace@)[i],
            ),
    {
        let rows = self.repository.list_experiments(namespace);
        let mut out: Vec<Experiment> = Vec::new();
        let mut i: usize = 0;
        while i < rows.len()
            invariant
                i <= rows@.len(),
                out@.len() == i,
                forall|j: int| 0 <= j < i ==> experiment_of_row(#[trigger] out@[j], rows@[j]),
            decreases rows@.len() - i,
        {
            out.push(Experiment::from_model(rows[i].copy()));
            i = i + 1;
        }
        out
    }

    /// The experiment with id `id`, or `NotFound`.
    pub fn get_experiment(&self, id: String) -> (r: Result<Experiment, Status>)
        ensures
            r is Err <==> !has_row(self.repository@.experiments, id@),
            r matches Err(s) ==> s is NotFound,
            r matches Ok(e) ==> e.id@ == id@ && exists|i: int| 0 <= i < self.repository@.experiments.len()
                && experiment_of_row(e, #[trigger] self.repository@.experiments[i]),
    {
        match self.repository.get_experiment(id.as_str()) {
            Some(ex) => {
                let ghost row = ex;
                let out = Experiment::from_model(ex);
                proof {
                    let i = choose|i: int| 0 <= i < self.repository@.experiments.len()
                        && self.repository@.experiments[i] == row;
                    assert(experiment_of_row(out, self.repository@.experiments[i]));
                }
                Ok(out)
            },
            None => Err(Status::NotFound { message: "Experiment not found".to_owned() }),
        }
    }

    /// Registers a model under the id derived from its name and namespace; a
    /// repeated registration reports the model as existing.
    pub fn create_model(&mut self, request: CreateModelRequest) -> (r: Result<CreateModelResponse, Status>)
        requires
            old(self).wf(),
        ensures
            final(self).wf(),
            r matches Err(s) ==> s is Internal && final(self).repository@ == old(self).repository@,
            r is Err ==> old(self).repository@.next_mutation_id == u64::MAX || exists|m: ModelRow|
                model_row_for(m, request) && #[trigger] json_of_object(model_payload(m)) is None,
            has_row(old(self).repository@.models, model_id_spec(request.name@, request.namespace@))
                ==> (r matches Ok(resp) && resp.exists),
            r matches Ok(resp) ==> exists|m: ModelRow| {
                &&& #[trigger] model_row_for(m, request)
                &&& model_create_outcome(old(self).repository@, m, final(self).repository@, resp.exists)
                &&& resp.id == m.id
                &&& resp.created_at == wire_time(m.created_at)
                &&& resp.updated_at == wire_time(m.updated_at)
            },
    {
        let model = request.into_model();
        let created_at = from_timestamp(model.created_at);
        let updated_at = from_timestamp(model.updated_at);
        let ghost m = model;
        assert(model_row_for(m, request));
        match self.repository.create_model(model) {
            Ok(result) => Ok(CreateModelResponse { id: result.id, exists: result.exists, created_at, updated_at }),
            Err(err) => Err(internal(err)),
        }
    }

    /// The models of a namespace, in registration order.
    pub fn list_models(&self, namespace: String) -> (r: Vec<Model>)
        ensures
            r@.len() == in_scope(self.repository@.models, namespace@).len(),
            forall|i: int| 0 <= i < r@.len() ==> model_of_row(
                #[trigger] r@[i],
                in_scope(self.repository@.models, namespace@)[i],
            ),
    {
        let rows = self.repository.models_by_namespace(namespace);
        let mut out: Vec<Model> = Vec::new();
        let mut i: usize = 0;
        while i < rows.len()
            invariant
                i <= rows@.len(),
                out@.len() == i,
                forall|j: int| 0 <= j < i ==> model_of_row(#[trigger] out@[j], rows@[j]),
            decreases rows@.len() - i,
        {
            out.push(Model::from_model(rows[i].copy()));
            i = i + 1;
        }
        out
    }

    /// Registers a model version under the id derived from its model and
    /// version; tags that do not encode are an invalid argument, and a
    /// repeated registration reports the version as existing.
    pub fn create_model_version(&mut self, request: CreateModelVersionRequest) -> (r: Result<CreateModelVersionResponse, Status>)
        requires
            old(self).wf(),
        ensures
            final(self).wf(),
            json_of_strings(request.unique_tags.deep_view()) is None ==> (r matches Err(s)
                && s is InvalidArgument),
            r matches Err(s) ==> (s is InvalidArgument || s is Internal) && final(self).repository@ == old(
            self).repository@,
            r matches Err(s) && s is InvalidArgument ==> json_of_strings(request.unique_tags.deep_view()) is None,
            r matches Err(s) && s is Internal ==> old(self).repository@.next_mutation_id == u64::MAX
                || exists|v: ModelVersionRow| model_version_row_for(v, request) && #[trigger] json_of_object(
                model_version_payload(v)) is None,
            json_of_strings(request.unique_tags.deep_view()) is Some && has_row(
                old(self).repository@.model_versions,
                model_version_id_spec(request.model@, request.version@),
            ) ==> (r matches Ok(resp) && resp.exists),
            r matches Ok(resp) ==> exists|v: ModelVersionRow| {
                &&& #[trigger] model_version_row_for(v, request)
                &&& model_version_create_outcome(old(self).repository@, v, final(self).repository@,
                    resp.exists)
                &&& resp.model_version == v.id
                &&& resp.created_at == wire_time(v.created_at)
                &&& resp.updated_at == wire_time(v.updated_at)
            },
    {
        let model_version = match request.into_model_version() {
            Ok(v) => v,
            Err(_) => {
                return Err(invalid_argument("invalid unique tags"));
            },
        };
        let created_at = from_timestamp(model_version.created_at);
        let updated_at = from_timestamp(model_version.updated_at);
        let ghost v = model_version;
        assert(model_version_row_for(v, request));
        match self.repository.create_model_version(model_version) {
            Ok(result) => {
                Ok(CreateModelVersionResponse {
                    model_version: result.id,
                    exists: result.exists,
                    created_at,
                    updated_at,
                })
            },
            Err(err) => Err(internal(err)),
        }
    }

    /// The versions of a model, in registration order. Fails, as an internal
    /// error, exactly when a stored tag list does not decode.
    pub fn list_model_versions(&self, model_id: String) -> (r: Result<Vec<ModelVersion>, Status>)
        ensures
            r is Ok <==> forall|i: int| 0 <= i < in_scope(self.repository@.model_versions, model_id@).len()
                ==> strings_of_json(
                #[trigger] in_scope(self.repository@.model_versions, model_id@)[i].unique_tags@,
            ) is Some,
            r matches Err(s) ==> s is Internal,
            r matches Ok(vs) ==> {
                &&& vs@.len() == in_scope(self.repository@.model_versions, model_id@).len()
                &&& forall|i: int| 0 <= i < vs@.len() ==> model_version_of_row(
                    #[trigger] vs@[i],
                    in_scope(self.repository@.model_versions, model_id@)[i],
                )
            },
    {
        let rows = self.repository.model_versions_for_model(model_id);
        let mut out: Vec<ModelVersion> = Vec::new();
        let mut i: usize = 0;
        while i < rows.len()
            invariant
                i <= rows@.len(),
                out@.len() == i,
                rows@ == in_scope(self.repository@.model_versions, model_id@),
                forall|j: int| 0 <= j < i ==> model_version_of_row(#[trigger] out@[j], rows@[j]),
                forall|j: int| 0 <= j < i ==> strings_of_json(#[trigger] rows@[j].unique_tags@) is Some,
            decreases rows@.len() - i,
        {
            match ModelVersion::from_model(rows[i].copy()) {
                Ok(v) => out.push(v),
                Err(_) => {
                    assert(strings_of_json(rows@[i as int].unique_tags@) is None);
                    return Err(Status::Internal { message: "invalid unique tags".to_owned() });
                },
            }
            i = i + 1;
        }
        Ok(out)
    }

    /// Sets metadata keys on an object: each key's value replaces any earlier
    /// value under the same key. Values that do not encode are an invalid
    /// argument, and nothing is written.
    pub fn update_metadata(&mut self, request: UpdateMetadataRequest) -> (r: Result<(), Status>)
        requires
            old(self).wf(),
        ensures
            final(self).wf(),
            r is Ok <==> forall|i: int| 0 <= i < metadata_pairs(request.metadata).len() ==> json_of_string(
                #[trigger] metadata_pairs(request.metadata)[i].1,
            ) is Some,
            r matches Err(s) ==> s is InvalidArgument && final(self).repository@ == old(self).repository@,
            r is Ok ==> exists|rows: Seq<crate::entity::MetadataRow>| {
                &&& rows.len() == metadata_pairs(request.metadata).len()
                &&& forall|i: int| 0 <= i < rows.len() ==> crate::model_helper::metadata_row_for(
                    #[trigger] rows[i],
                    request.parent_id@,
                    metadata_pairs(request.metadata)[i].0,
                    metadata_pairs(request.metadata)[i].1,
                )
                &&& final(self).repository@ == crate::repository::with_metadata(
                    old(self).repository@,
                    crate::repository::upsert_all_metadata(old(self).repository@.metadata, rows),
                )
            },
    {
        let ghost md = request.metadata;
        let ghost pid = request.parent_id;
        match request.into_metadata_model() {
            Ok(rows) => {
                let ghost rs = rows@;
                self.repository.update_metadata(rows);
                assert(rs.len() == metadata_pairs(md).len());
                assert(forall|i: int| 0 <= i < rs.len() ==> crate::model_helper::metadata_row_for(
                    #[trigger] rs[i], pid@, metadata_pairs(md)[i].0, metadata_pairs(md)[i].1));
                Ok(())
            },
            Err(_) => Err(invalid_argument("invalid metadata value")),
        }
    }

    /// The metadata of an object as a map, a later entry under a key
    /// replacing an earlier one. Fails, as an internal error, exactly when a
    /// stored value does not decode.
    pub fn list_metadata(&self, parent_id: String) -> (r: Result<Metadata, Status>)
        ensures
            r is Ok <==> forall|i: int| 0 <= i < in_scope(self.repository@.metadata, parent_id@).len()
                ==> string_of_json(#[trigger] in_scope(self.repository@.metadata, parent_id@)[i].meta@) is Some,
            r matches Err(s) ==> s is Internal,
            r matches Ok(m) ==> m.metadata.deep_view() == crate::model_helper::metadata_entries(
                in_scope(self.repository@.metadata, parent_id@),
            ),
    {
        let rows = self.repository.get_metadata(parent_id);
        match Metadata::from_model(rows) {
            Ok(m) => Ok(m),
            Err(_) => Err(Status::Internal { message: "invalid metadata value".to_owned() }),
        }
    }

    /// Records files as the artifact `request.name`. A checksum that does not
    /// encode is an invalid argument, and nothing is written. The reply's id
    /// is empty.
    pub fn track_artifacts(&mut self, request: TrackArtifactsRequest) -> (r: Result<String, Status>)
        requires
            old(self).wf(),
        ensures
            final(self).wf(),
            r matches Err(s) ==> s is InvalidArgument && final(self).repository@ == old(self).repository@,
            r is Ok <==> forall|i: int| 0 <= i < request.files@.len() ==> json_of_object(
                checksum_entries((#[trigger] request.files@[i]).checksum@),
            ) is Some,
            r matches Ok(id) ==> id@ == Seq::<char>::empty() && exists|rows: Seq<FileRow>| {
                &&& rows.len() == request.files@.len()
                &&& forall|i: int| 0 <= i < rows.len() ==> crate::model_helper::file_row_for(
                    #[trigger] rows[i],
                    request.files@[i],
                    request.name@,
                )
                &&& final(self).repository@ == with_files(
                    old(self).repository@,
                    upsert_all_files(old(self).repository@.files, rows),
                )
            },
    {
        let mut rows: Vec<FileRow> = Vec::new();
        let mut i: usize = 0;
        while i < request.files.len()
            invariant
                i <= request.files@.len(),
                rows@.len() == i,
                self.wf(),
                self.repository@ == old(self).repository@,
                forall|j: int| 0 <= j < i ==> json_of_object(
                    checksum_entries((#[trigger] request.files@[j]).checksum@),
                ) is Some,
                forall|j: int| 0 <= j < i ==> crate::model_helper::file_row_for(
                    #[trigger] rows@[j],
                    request.files@[j],
                    request.name@,
                ),
            decreases request.files@.len() - i,
        {
            match request.files[i].into_file_metadata_model(request.name.clone()) {
                Ok(row) => rows.push(row),
                Err(_) => {
                    return Err(invalid_argument("invalid file metadata"));
                },
            }
            i = i + 1;
        }
        self.repository.create_files(rows);
        Ok(String::new())
    }

    /// The artifacts of an object: its files grouped by artifact id, name and
    /// parent. A stored file whose metadata does not decode is an internal
    /// error.
    pub fn list_artifacts(&self, object_id: String) -> (r: Result<Vec<Artifact>, Status>)
        ensures
            r is Ok <==> forall|i: int| 0 <= i < in_scope(self.repository@.files, object_id@).len()
                ==> object_of_json(#[trigger] in_scope(self.repository@.files, object_id@)[i].metadata@) is Some,
            r matches Err(s) ==> s is Internal,
            r matches Ok(arts) ==> exists|groups: Seq<crate::aggregate::FileGroup>| {
                &&& grouped(in_scope(self.repository@.files, object_id@), groups)
                &&& arts@.len() == groups.len()
                &&& forall|g: int| 0 <= g < arts@.len() ==> {
                    &&& (#[trigger] arts@[g]).id == groups[g].artifact_id
                    &&& arts@[g].name == groups[g].artifact_name
                    &&& arts@[g].object_id == groups[g].parent_id
                    &&& arts@[g].files@.len() == groups[g].files@.len()
                    &&& forall|k: int| 0 <= k < arts@[g].files@.len() ==> file_meta_of_row(
                        #[trigger] arts@[g].files@[k],
                        groups[g].files@[k],
                    )
                }
            },
    {
        let rows = self.repository.get_files(object_id);
        let mut i: usize = 0;
        while i < rows.len()
            invariant
                i <= rows@.len(),
                rows@ == in_scope(self.repository@.files, object_id@),
                forall|j: int| 0 <= j < i ==> object_of_json(#[trigger] rows@[j].metadata@) is Some,
            decreases rows@.len() - i,
        {
            if FileMetadata::from_model(&rows[i]).is_err() {
                return Err(Status::Internal { message: "Error while parsing assets".to_owned() });
            }
            i = i + 1;
        }
        let mut groups = group_files(&rows);
        let ghost gs = groups@;
        let mut out: Vec<Artifact> = Vec::new();
        // Take the groups apart from the back, then restore their order.
        let mut rev: Vec<Artifact> = Vec::new();
        let n = groups.len();
        while groups.len() > 0
            invariant
                n == gs.len(),
                groups@ == gs.take(groups@.len() as int),
                rev@.len() == n - groups@.len(),
                grouped(rows@, gs),
                rows@ == in_scope(self.repository@.files, object_id@),
                forall|j: int| 0 <= j < rows@.len() ==> object_of_json(#[trigger] rows@[j].metadata@) is Some,
                forall|j: int| 0 <= j < rev@.len() ==> {
                    let g = gs[n - 1 - j];
                    &&& (#[trigger] rev@[j]).id == g.artifact_id
                    &&& rev@[j].name == g.artifact_name
                    &&& rev@[j].object_id == g.parent_id
                    &&& rev@[j].files@.len() == g.files@.len()
                    &&& forall|k: int| 0 <= k < rev@[j].files@.len() ==> file_meta_of_row(
                        #[trigger] rev@[j].files@[k],
                        g.files@[k],
                    )
                },
            decreases groups@.len(),
        {
            let group = groups.pop().unwrap();
            proof {
                assert(groups@ == gs.take(groups@.len() as int));
            }
            match FileMetadata::from_models(group.files) {
                Ok(files) => {
                    rev.push(Artifact {
                        id: group.artifact_id,
                        name: group.artifact_name,
                        object_id: group.parent_id,
                        files,
                    });
                },
                Err(_) => {
                    proof {
                        let g = gs[groups@.len() as int];
                        assert(g.files@ == crate::aggregate::files_under(rows@, g.key()));
                        let k = choose|k: int| 0 <= k < g.files@.len() && object_of_json(
                            #[trigger] g.files@[k].metadata@) is None;
                        crate::aggregate::lemma_files_under_member(rows@, g.key(), k);
                    }
                    return Err(Status::Internal { message: "Error while parsing assets".to_owned() });
                },
            }
        }
        while rev.len() > 0
            invariant
                n == gs.len(),
                rev@.len() + out@.len() == n,
                forall|j: int| 0 <= j < rev@.len() ==> {
                    let g = gs[n - 1 - j];
                    &&& (#[trigger] rev@[j]).id == g.artifact_id
                    &&& rev@[j].name == g.artifact_name
                    &&& rev@[j].object_id == g.parent_id
                    &&& rev@[j].files@.len() == g.files@.len()
                    &&& forall|k: int| 0 <= k < rev@[j].files@.len() ==> file_meta_of_row(
                        #[trigger] rev@[j].files@[k],
                        g.files@[k],
                    )
                },
                forall|j: int| 0 <= j < out@.len() ==> {
                    let g = gs[j];
                    &&& (#[trigger] out@[j]).id == g.artifact_id
                    &&& out@[j].name == g.artifact_name
                    &&& out@[j].object_id == g.parent_id
                    &&& out@[j].files@.len() == g.files@.len()
                    &&& forall|k: int| 0 <= k < out@[j].files@.len() ==> file_meta_of_row(
                        #[trigger] out@[j].files@[k],
                        g.files@[k],
                    )
                },
            decreases rev@.len(),
        {
            let a = rev.pop().unwrap();
            out.push(a);
        }
        Ok(out)
    }

    /// Records one metric sample; an exhausted sample numbering is an
    /// internal error.
    pub fn log_metrics(&mut self, request: LogMetricsRequest) -> (r: Result<(), Status>)
        requires
            old(self).wf(),
        ensures
            final(self).wf(),
            r is Ok <==> old(self).repository@.next_metric_id < u64::MAX,
            r matches Err(s) ==> s is Internal && final(self).repository@ == old(self).repository@,
            r is Ok ==> exists|m: MetricRow| {
                &&& #[trigger] metric_row_for(m, request)
                &&& final(self).repository@ == crate::repository::with_metrics(
                    old(self).repository@,
                    old(self).repository@.metrics.push(
                        crate::repository::numbered(m, old(self).repository@.next_metric_id),
                    ),
                    (old(self).repository@.next_metric_id + 1) as u64,
                )
            },
    {
        let ghost req = request;
        let metric = request.into_metric_model();
        let ghost m = metric;
        let mut batch: Vec<MetricRow> = Vec::new();
        batch.push(metric);
        let ghost pre = self.repository@;
        match self.repository.log_metrics(batch) {
            Ok(()) => {
                assert(self.repository@.metrics[pre.metrics.len() as int + 0] == crate::repository::numbered(
                    batch@[0], (pre.next_metric_id + 0) as u64));
                assert(self.repository@.metrics =~= pre.metrics.push(
                    crate::repository::numbered(m, pre.next_metric_id)));
                assert(metric_row_for(m, req));
                Ok(())
            },
            Err(e) => Err(internal(e)),
        }
    }

    /// The metric series of an object, one per metric name.
    pub fn get_metrics(&self, parent_id: String) -> (r: Vec<Metrics>)
        ensures
            bucketed(in_scope(self.repository@.metrics, parent_id@), r@),
    {
        let rows = self.repository.metrics(parent_id);
        bucket_metrics(&rows)
    }

    /// Records an event. Metadata that does not encode, or a wall-clock time
    /// that cannot be read, is an invalid argument; an id that is already
    /// stored is an internal error. Nothing is written on failure.
    pub fn log_event(&mut self, request: LogEventRequest) -> (r: Result<LogEventResponse, Status>)
        requires
            old(self).wf(),
        ensures
            final(self).wf(),
            r matches Err(s) ==> final(self).repository@ == old(self).repository@,
            !event_readable(request) ==> (r matches Err(s) && s is InvalidArgument),
            event_readable(request) && !has_row(old(self).repository@.events, event_id_spec(
                request.parent_id@,
                request.event,
            )) ==> r is Ok,
            event_readable(request) && has_row(old(self).repository@.events, event_id_spec(
                request.parent_id@,
                request.event,
            )) ==> (r matches Err(s) && s is Internal),
            r is Ok ==> exists|row: crate::entity::EventRow| {
                &&& #[trigger] event_row_for(row, request)
                &&& final(self).repository@ == crate::repository::with_events(
                    old(self).repository@,
                    old(self).repository@.events.push(row),
                )
            },
    {
        let ghost req = request;
        let event = match request.into_log_event_model() {
            Ok(e) => e,
            Err(_) => {
                return Err(invalid_argument("invalid event"));
            },
        };
        assert(event_row_for(event, req));
        match self.store_event(event) {
            Ok(()) => Ok(LogEventResponse::new()),
            Err(e) => Err(e),
        }
    }

    /// Appends one event row unless its id is already stored.
    fn store_event(&mut self, row: crate::entity::EventRow) -> (r: Result<(), Status>)
        requires
            old(self).wf(),
        ensures
            final(self).wf(),
            r is Ok <==> !has_row(old(self).repository@.events, row.id@),
            r matches Err(s) ==> s is Internal && final(self).repository@ == old(self).repository@,
            r is Ok ==> final(self).repository@ == crate::repository::with_events(
                old(self).repository@,
                old(self).repository@.events.push(row),
            ),
    {
        let ghost pre = self.repository@;
        let ghost stored = row;
        proof {
            self.repository.lemma_keys_unique();
        }
        let mut batch: Vec<crate::entity::EventRow> = Vec::new();
        batch.push(row);
        proof {
            assert(pre.events + batch@ == pre.events.push(stored));
            if !has_row(pre.events, stored.id@) {
                crate::repository::lemma_push_unique(pre.events, stored);
            } else {
                let k = choose|k: int| 0 <= k < pre.events.len() && pre.events[k].key() == stored.id@;
                let all = pre.events.push(stored);
                assert(all[k].key() == all[pre.events.len() as int].key());
            }
        }
        match self.repository.create_events(batch) {
            Ok(()) => Ok(()),
            Err(e) => Err(internal(e)),
        }
    }

    /// The events of an object, in the order they were recorded.
    pub fn list_events(&self, parent_id: String) -> (r: Vec<Event>)
        ensures
            r@.len() == in_scope(self.repository@.events, parent_id@).len(),
            forall|i: int| 0 <= i < r@.len() ==> event_of_row(
                #[trigger] r@[i],
                in_scope(self.repository@.events, parent_id@)[i],
            ),
    {
        let rows = self.repository.events_for_object(parent_id);
        let mut out: Vec<Event> = Vec::new();
        let mut i: usize = 0;
        while i < rows.len()
            invariant
                i <= rows@.len(),
                out@.len() == i,
                forall|j: int| 0 <= j < i ==> event_of_row(#[trigger] out@[j], rows@[j]),
            decreases rows@.len() - i,
        {
            out.push(Event::from_model(rows[i].copy()));
            i = i + 1;
        }
        out
    }

    /// Downloads are not served.
    pub fn download_file(&self, file_id: String) -> (r: Result<Vec<u8>, Status>)
        ensures
            r == Err::<Vec<u8>, Status>(Status::Unimplemented),
    {
        Err(Status::Unimplemented)
    }

    /// Namespace change streams are not served.
    pub fn watch_namespace(&self, namespace: String) -> (r: Result<(), Status>)
        ensures
            r == Err::<(), Status>(Status::Unimplemented),
    {
        Err(Status::Unimplemented)
    }

    /// Upserts one file row; afterwards a row with its id holds its upload
    /// path.
    fn store_file(&mut self, row: FileRow)
        requires
            old(self).wf(),
        ensures
            final(self).wf(),
            exists|i: int| 0 <= i < final(self).repository@.files.len()
                && (#[trigger] final(self).repository@.files[i]).id@ == row.id@
                && final(self).repository@.files[i].upload_path == row.upload_path,
    {
        let ghost pre = self.repository@;
        let ghost stored = row;
        proof {
            self.repository.lemma_keys_unique();
        }
        let mut batch: Vec<FileRow> = Vec::new();
        batch.push(row);
        self.repository.create_files(batch);
        proof {
            assert(batch@ == seq![stored]);
            assert(seq![stored].drop_last() == Seq::<FileRow>::empty());
            assert(upsert_all_files(pre.files, Seq::<FileRow>::empty()) == pre.files);
            assert(upsert_all_files(pre.files, seq![stored]) == upsert_file(pre.files, stored));
            let i = lemma_upsert_file_holds(pre.files, stored);
            assert(self.repository@.files[i].id@ == stored.id@);
        }
    }

    /// Accepts the first message of an upload: it must be a metadata frame
    /// that describes the file. The file row is stored with its blob path,
    /// `modelbox/artifacts/{parent_id}/{file_id}`, and the target is returned
    /// for the blob to be written. Anything else is an invalid argument, and
    /// nothing is written.
    #[verifier::rlimit(80)]
    pub fn upload_file_start(&mut self, first: Option<UploadFileRequest>) -> (r: Result<UploadTarget, Status>)
        requires
            old(self).wf(),
        ensures
            final(self).wf(),
            r matches Err(s) ==> s is InvalidArgument && final(self).repository@ == old(self).repository@,
            !(first matches Some(UploadFileRequest { stream_frame: Some(StreamFrame::Metadata(_)) }))
                ==> r is Err,
            first matches Some(UploadFileRequest { stream_frame: Some(StreamFrame::Metadata(m)) }) ==> {
                &&& (r is Ok <==> (m.metadata is Some && json_of_object(
                    checksum_entries(m.metadata->Some_0.checksum@),
                ) is Some))
                &&& r matches Ok(t) ==> {
                    &&& upload_target_for(t, m)
                    &&& exists|i: int| 0 <= i < final(self).repository@.files.len()
                        && (#[trigger] final(self).repository@.files[i]).id@ == t.file_id@
                        && final(self).repository@.files[i].upload_path == Some(t.path)
                }
            },
    {
        let req = match first {
            Some(req) => req,
            None => {
                return Err(invalid_argument("No metadata provided"));
            },
        };
        let metadata = match req.stream_frame {
            Some(StreamFrame::Metadata(m)) => m,
            Some(StreamFrame::Chunks(_)) => {
                return Err(invalid_argument("No metadata provided"));
            },
            None => {
                return Err(invalid_argument("No metadata frame provided"));
            },
        };
        let mut row = match metadata.file_model() {
            Ok(r) => r,
            Err(_) => {
                return Err(invalid_argument("Invalid metadata provided"));
            },
        };
        let path = artifact_path_of(row.parent_id.as_str(), row.id.as_str());
        row.upload_path = Some(path.clone());
        let file_id = row.id.clone();
        let artifact_id = row.artifact_id.clone();
        self.store_file(row);
        Ok(UploadTarget { file_id, artifact_id, path })
    }

    /// Runs an upload over a whole stream of messages: the first must be a
    /// metadata frame (see `upload_file_start`), the chunks of the rest are
    /// concatenated into the blob, and the end of the stream finalizes it.
    /// Returns the reply and the blob's bytes, to be stored at the target
    /// path.
    #[verifier::loop_isolation(false)]
    pub fn upload_file(&mut self, stream: Vec<UploadFileRequest>) -> (r: Result<(UploadFileResponse, Vec<u8>), Status>)
        requires
            old(self).wf(),
        ensures
            final(self).wf(),
            r matches Err(s) ==> s is InvalidArgument && final(self).repository@ == old(self).repository@,
            stream@.len() == 0 ==> r is Err,
            stream@.len() > 0 ==> !(stream@[0] matches UploadFileRequest {
                stream_frame: Some(StreamFrame::Metadata(_)),
            }) ==> r is Err,
            stream@.len() > 0 ==> (stream@[0].stream_frame matches Some(StreamFrame::Metadata(m))
                ==> (r is Ok <==> (m.metadata is Some && json_of_object(
                checksum_entries(m.metadata->Some_0.checksum@),
            ) is Some))),
            r matches Ok((resp, blob)) ==> {
                &&& stream@.len() > 0
                &&& stream@[0].stream_frame matches Some(StreamFrame::Metadata(m))
                &&& exists|t: UploadTarget| {
                    &&& #[trigger] upload_target_for(t, m)
                    &&& resp.file_id == t.file_id
                    &&& resp.artifact_id == t.artifact_id
                    &&& exists|i: int| 0 <= i < final(self).repository@.files.len()
                        && (#[trigger] final(self).repository@.files[i]).id@ == t.file_id@
                        && final(self).repository@.files[i].upload_path == Some(t.path)
                }
                &&& blob@ == chunks_of(stream@.drop_first())
            },
    {
        let ghost orig = stream@;
        let mut stream = stream;
        let first = if stream.len() > 0 {
            Some(stream.remove(0))
        } else {
            None
        };
        let target = match self.upload_file_start(first) {
            Ok(t) => t,
            Err(e) => {
                return Err(e);
            },
        };
        let ghost rest = orig.drop_first();
        assert(stream@ == rest);
        let mut blob: Vec<u8> = Vec::new();
        let mut k: usize = 0;
        proof {
            assert(rest.take(0) == Seq::<UploadFileRequest>::empty());
        }
        loop
            invariant
                k <= rest.len(),
                stream@ == rest.skip(k as int),
                blob@ == chunks_of(rest.take(k as int)),
            decreases rest.len() - k,
        {
            let next = if stream.len() > 0 {
                Some(stream.remove(0))
            } else {
                None
            };
            match upload_step(next) {
                UploadAction::Write(data) => {
                    assert(k < rest.len());
                    proof {
                        assert(rest.take(k + 1).drop_last() == rest.take(k as int));
                        assert(rest.take(k + 1).last() == rest[k as int]);
                    }
                    let mut d = data;
                    blob.append(&mut d);
                    k = k + 1;
                    proof {
                        assert(stream@ =~= rest.skip(k as int));
                    }
                },
                UploadAction::Skip => {
                    assert(k < rest.len());
                    proof {
                        assert(rest.take(k + 1).drop_last() == rest.take(k as int));
                        assert(rest.take(k + 1).last() == rest[k as int]);
                        assert(blob@ =~= chunks_of(rest.take(k as int)) + Seq::<u8>::empty());
                    }
                    k = k + 1;
                    proof {
                        assert(stream@ =~= rest.skip(k as int));
                    }
                },
                UploadAction::Finalize => {
                    proof {
                        assert(k == rest.len());
                        assert(rest.take(k as int) == rest);
                    }
                    return Ok((UploadFileResponse { file_id: target.file_id, artifact_id: target.artifact_id }, blob));
                },
            }
        }
    }
}

} // verus!
