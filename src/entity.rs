//! Rows of the relational store, one type per table.
use vstd::prelude::*;

use crate::clock::WallClock;

verus! {

/// A row of `experiments`.
#[derive(Debug, PartialEq, Eq)]
pub struct ExperimentRow {
    pub id: String,
    pub name: String,
    pub external_id: String,
    pub owner: String,
    pub namespace: String,
    pub ml_framework: i32,
    pub created_at: WallClock,
    pub updated_at: WallClock,
}

/// A row of `models`.
#[derive(Debug, PartialEq, Eq)]
pub struct ModelRow {
    pub id: String,
    pub name: String,
    pub owner: String,
    pub namespace: String,
    pub task: String,
    pub description: String,
    pub created_at: WallClock,
    pub updated_at: WallClock,
}

/// A row of `model_versions`. `unique_tags` holds a JSON array of strings.
#[derive(Debug, PartialEq, Eq)]
pub struct ModelVersionRow {
    pub id: String,
    pub name: String,
    pub model_id: String,
    pub experiment_id: String,
    pub namespace: String,
    pub version: String,
    pub description: String,
    pub ml_framework: i32,
    pub unique_tags: String,
    pub created_at: WallClock,
    pub updated_at: WallClock,
}

/// A row of `metadata`. `meta` holds a JSON value.
#[derive(Debug, PartialEq, Eq)]
pub struct MetadataRow {
    pub id: String,
    pub parent_id: String,
    pub name: String,
    pub meta: String,
    pub created_at: WallClock,
    pub updated_at: WallClock,
}

/// A row of `files`. `metadata` holds a JSON object with the checksum.
#[derive(Debug, PartialEq, Eq)]
pub struct FileRow {
    pub id: String,
    pub parent_id: String,
    pub src_path: String,
    pub upload_path: Option<String>,
    pub file_type: String,
    pub metadata: String,
    pub artifact_name: String,
    pub artifact_id: String,
    pub created_at: WallClock,
    pub updated_at: WallClock,
}

/// A row of `events`. `metadata` holds a JSON object.
#[derive(Debug, PartialEq, Eq)]
pub struct EventRow {
    pub id: String,
    pub parent_id: String,
    pub name: String,
    pub source: String,
    pub metadata: String,
    pub source_wall_clock: WallClock,
}

/// A row of `metrics`. A float sample is held as its IEEE-754 single bits.
#[derive(Debug, PartialEq, Eq)]
pub struct MetricRow {
    pub id: u64,
    pub object_id: String,
    pub name: String,
    pub tensor: Option<String>,
    pub float_value: Option<u32>,
    pub step: Option<i64>,
    pub wall_clock: Option<WallClock>,
    pub created_at: WallClock,
}

/// A row of `mutations`, the change log. Exactly one payload is set.
#[derive(Debug, PartialEq, Eq)]
pub struct MutationRow {
    pub id: u64,
    pub object_id: String,
    pub object_type: i16,
    pub mutation_type: i16,
    pub namespace: String,
    pub experiment_payload: Option<String>,
    pub model_payload: Option<String>,
    pub model_version_payload: Option<String>,
    pub created_at: WallClock,
    pub processed_at: Option<WallClock>,
}

/// A copy of an optional string.
pub fn copy_opt_string(s: &Option<String>) -> (r: Option<String>)
    ensures
        r == *s,
{
    match s {
        Some(v) => Some(v.clone()),
        None => None,
    }
}

impl ExperimentRow {
    /// A field-for-field copy.
    pub fn copy(&self) -> (r: Self)
        ensures
            r == *self,
    {
        ExperimentRow {
            id: self.id.clone(),
            name: self.name.clone(),
            external_id: self.external_id.clone(),
            owner: self.owner.clone(),
            namespace: self.namespace.clone(),
            ml_framework: self.ml_framework,
            created_at: self.created_at,
            updated_at: self.updated_at,
        }
    }
}

impl ModelRow {
    /// A field-for-field copy.
    pub fn copy(&self) -> (r: Self)
        ensures
            r == *self,
    {
        ModelRow {
            id: self.id.clone(),
            name: self.name.clone(),
            owner: self.owner.clone(),
            namespace: self.namespace.clone(),
            task: self.task.clone(),
            description: self.description.clone(),
            created_at: self.created_at,
            updated_at: self.updated_at,
        }
    }
}

impl ModelVersionRow {
    /// A field-for-field copy.
    pub fn copy(&self) -> (r: Self)
        ensures
            r == *self,
    {
        ModelVersionRow {
            id: self.id.clone(),
            name: self.name.clone(),
            model_id: self.model_id.clone(),
            experiment_id: self.experiment_id.clone(),
            namespace: self.namespace.clone(),
            version: self.version.clone(),
            description: self.description.clone(),
            ml_framework: self.ml_framework,
            unique_tags: self.unique_tags.clone(),
            created_at: self.created_at,
            updated_at: self.updated_at,
        }
    }
}

impl MetadataRow {
    /// A field-for-field copy.
    pub fn copy(&self) -> (r: Self)
        ensures
            r == *self,
    {
        MetadataRow {
            id: self.id.clone(),
            parent_id: self.parent_id.clone(),
            name: self.name.clone(),
            meta: self.meta.clone(),
            created_at: self.created_at,
            updated_at: self.updated_at,
        }
    }
}

impl FileRow {
    /// A field-for-field copy.
    pub fn copy(&self) -> (r: Self)
        ensures
            r == *self,
    {
        FileRow {
            id: self.id.clone(),
            parent_id: self.parent_id.clone(),
            src_path: self.src_path.clone(),
            upload_path: copy_opt_string(&self.upload_path),
            file_type: self.file_type.clone(),
            metadata: self.metadata.clone(),
            artifact_name: self.artifact_name.clone(),
            artifact_id: self.artifact_id.clone(),
            created_at: self.created_at,
            updated_at: self.updated_at,
        }
    }
}

impl EventRow {
    /// A field-for-field copy.
    pub fn copy(&self) -> (r: Self)
        ensures
            r == *self,
    {
        EventRow {
            id: self.id.clone(),
            parent_id: self.parent_id.clone(),
            name: self.name.clone(),
            source: self.source.clone(),
            metadata: self.metadata.clone(),
            source_wall_clock: self.source_wall_clock,
        }
    }
}

impl MetricRow {
    /// A field-for-field copy.
    pub fn copy(&self) -> (r: Self)
        ensures
            r == *self,
    {
        MetricRow {
            id: self.id,
            object_id: self.object_id.clone(),
            name: self.name.clone(),
            tensor: copy_opt_string(&self.tensor),
            float_value: self.float_value,
            step: self.step,
            wall_clock: self.wall_clock,
            created_at: self.created_at,
        }
    }
}

impl MutationRow {
    /// A field-for-field copy.
    pub fn copy(&self) -> (r: Self)
        ensures
            r == *self,
    {
        MutationRow {
            id: self.id,
            object_id: self.object_id.clone(),
            object_type: self.object_type,
            mutation_type: self.mutation_type,
            namespace: self.namespace.clone(),
            experiment_payload: copy_opt_string(&self.experiment_payload),
            model_payload: copy_opt_string(&self.model_payload),
            model_version_payload: copy_opt_string(&self.model_version_payload),
            created_at: self.created_at,
            processed_at: self.processed_at,
        }
    }
}

} // verus!
