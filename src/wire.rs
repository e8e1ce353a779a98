//! Wire shapes of the `modelbox.ModelStore` service: enum codings and the
//! plain messages that the handlers read and build.
use vstd::prelude::*;

verus! {

/// A wire timestamp: Unix seconds and a nanosecond part.
#[derive(Clone, Copy, Debug, PartialEq, Eq, Structural)]
pub struct Timestamp {
    pub seconds: i64,
    pub nanos: i32,
}

/// Kind of a stored file. Wire codes: Undefined 0, Model 1, Checkpoint 2,
/// Text 3, Image 4, Audio 5, Video 6.
#[derive(Clone, Copy, Debug, PartialEq, Eq, Structural)]
pub enum FileType {
    Undefined,
    Model,
    Checkpoint,
    Text,
    Image,
    Audio,
    Video,
}

/// Training framework. Wire codes: Unknown 0, Pytorch 1, Keras 2.
#[derive(Clone, Copy, Debug, PartialEq, Eq, Structural)]
pub enum MlFramework {
    Unknown,
    Pytorch,
    Keras,
}

/// Kind of a namespace change. Wire codes: Undefined 0, ObjectCreated 1,
/// ObjectUpdated 2.
#[derive(Clone, Copy, Debug, PartialEq, Eq, Structural)]
pub enum ChangeEvent {
    Undefined,
    ObjectCreated,
    ObjectUpdated,
}

impl FileType {
    pub open spec fn code(self) -> i32 {
        match self {
            FileType::Undefined => 0,
            FileType::Model => 1,
            FileType::Checkpoint => 2,
            FileType::Text => 3,
            FileType::Image => 4,
            FileType::Audio => 5,
            FileType::Video => 6,
        }
    }

    /// The wire code of the variant.
    pub fn to_i32(&self) -> (r: i32)
        ensures
            r == self.code(),
    {
        match self {
            FileType::Undefined => 0,
            FileType::Model => 1,
            FileType::Checkpoint => 2,
            FileType::Text => 3,
            FileType::Image => 4,
            FileType::Audio => 5,
            FileType::Video => 6,
        }
    }

    /// The variant of a wire code; `None` for a code outside the enum.
    pub fn from_i32(v: i32) -> (r: Option<FileType>)
        ensures
            r matches Some(t) ==> t.code() == v,
            r is None <==> !(0 <= v <= 6),
    {
        if v == 0 { Some(FileType::Undefined) }
        else if v == 1 { Some(FileType::Model) }
        else if v == 2 { Some(FileType::Checkpoint) }
        else if v == 3 { Some(FileType::Text) }
        else if v == 4 { Some(FileType::Image) }
        else if v == 5 { Some(FileType::Audio) }
        else if v == 6 { Some(FileType::Video) }
        else { None }
    }

    /// The variant of a wire code, `Undefined` for a code outside the enum.
    pub fn from_i32_or_default(v: i32) -> (r: FileType)
        ensures
            0 <= v <= 6 ==> r.code() == v,
            !(0 <= v <= 6) ==> r == FileType::Undefined,
    {
        match FileType::from_i32(v) {
            Some(t) => t,
            None => FileType::Undefined,
        }
    }

    pub open spec fn str_name(self) -> Seq<char> {
        match self {
            FileType::Undefined => "UNDEFINED"@,
            FileType::Model => "MODEL"@,
            FileType::Checkpoint => "CHECKPOINT"@,
            FileType::Text => "TEXT"@,
            FileType::Image => "IMAGE"@,
            FileType::Audio => "AUDIO"@,
            FileType::Video => "VIDEO"@,
        }
    }

    /// The name of the variant in the schema.
    pub fn as_str_name(&self) -> (r: &'static str)
        ensures
            r@ == self.str_name(),
    {
        match self {
            FileType::Undefined => "UNDEFINED",
            FileType::Model => "MODEL",
            FileType::Checkpoint => "CHECKPOINT",
            FileType::Text => "TEXT",
            FileType::Image => "IMAGE",
            FileType::Audio => "AUDIO",
            FileType::Video => "VIDEO",
        }
    }

    /// The variant whose schema name is `s`, if any.
    pub fn from_str_name(s: &str) -> (r: Option<FileType>)
        ensures
            r matches Some(t) ==> t.str_name() == s@,
            r is None ==> forall|t: FileType| t.str_name() != s@,
    {
        let st = s.to_owned();
        if st == "UNDEFINED".to_owned() { Some(FileType::Undefined) }
        else if st == "MODEL".to_owned() { Some(FileType::Model) }
        else if st == "CHECKPOINT".to_owned() { Some(FileType::Checkpoint) }
        else if st == "TEXT".to_owned() { Some(FileType::Text) }
        else if st == "IMAGE".to_owned() { Some(FileType::Image) }
        else if st == "AUDIO".to_owned() { Some(FileType::Audio) }
        else if st == "VIDEO".to_owned() { Some(FileType::Video) }
        else { None }
    }

    /// The lower-case name under which a file's kind is stored.
    pub open spec fn stored_name(self) -> Seq<char> {
        match self {
            FileType::Undefined => "undefined"@,
            FileType::Model => "model"@,
            FileType::Checkpoint => "checkpoint"@,
            FileType::Text => "text"@,
            FileType::Image => "image"@,
            FileType::Audio => "audio"@,
            FileType::Video => "video"@,
        }
    }

    /// The lower-case name under which a file's kind is stored.
    pub fn as_string(&self) -> (r: String)
        ensures
            r@ == self.stored_name(),
    {
        let s = match self {
            FileType::Undefined => "undefined",
            FileType::Model => "model",
            FileType::Checkpoint => "checkpoint",
            FileType::Text => "text",
            FileType::Image => "image",
            FileType::Audio => "audio",
            FileType::Video => "video",
        };
        s.to_owned()
    }

    /// The kind whose stored name is `s`; `Undefined` for any other string.
    pub open spec fn kind_of_stored(s: Seq<char>) -> FileType {
        if s == "checkpoint"@ { FileType::Checkpoint }
        else if s == "model"@ { FileType::Model }
        else if s == "text"@ { FileType::Text }
        else if s == "image"@ { FileType::Image }
        else if s == "video"@ { FileType::Video }
        else if s == "audio"@ { FileType::Audio }
        else { FileType::Undefined }
    }

    /// The kind whose stored name is `s`; `Undefined` for any other string.
    pub fn to_file_meta(s: &str) -> (r: FileType)
        ensures
            r == FileType::kind_of_stored(s@),
    {
        let st = s.to_owned();
        if st == "checkpoint".to_owned() { FileType::Checkpoint }
        else if st == "model".to_owned() { FileType::Model }
        else if st == "text".to_owned() { FileType::Text }
        else if st == "image".to_owned() { FileType::Image }
        else if st == "video".to_owned() { FileType::Video }
        else if st == "audio".to_owned() { FileType::Audio }
        else { FileType::Undefined }
    }
}

impl MlFramework {
    pub open spec fn code(self) -> i32 {
        match self {
            MlFramework::Unknown => 0,
            MlFramework::Pytorch => 1,
            MlFramework::Keras => 2,
        }
    }

    /// The wire code of the variant.
    pub fn to_i32(&self) -> (r: i32)
        ensures
            r == self.code(),
    {
        match self {
            MlFramework::Unknown => 0,
            MlFramework::Pytorch => 1,
            MlFramework::Keras => 2,
        }
    }

    /// The code that an incoming framework value is stored under: itself when
    /// it names a variant, else the code of `Unknown`.
    pub open spec fn normalized(v: i32) -> i32 {
        if 0 <= v <= 2 { v } else { 0 }
    }

    /// The variant of any integer: codes outside the enum read as `Unknown`.
    pub fn from_i32(v: i32) -> (r: MlFramework)
        ensures
            0 <= v <= 2 ==> r.code() == v,
            !(0 <= v <= 2) ==> r == MlFramework::Unknown,
    {
        if v == 1 { MlFramework::Pytorch }
        else if v == 2 { MlFramework::Keras }
        else { MlFramework::Unknown }
    }

    pub open spec fn str_name(self) -> Seq<char> {
        match self {
            MlFramework::Unknown => "UNKNOWN"@,
            MlFramework::Pytorch => "PYTORCH"@,
            MlFramework::Keras => "KERAS"@,
        }
    }

    /// The name of the variant in the schema.
    pub fn as_str_name(&self) -> (r: &'static str)
        ensures
            r@ == self.str_name(),
    {
        match self {
            MlFramework::Unknown => "UNKNOWN",
            MlFramework::Pytorch => "PYTORCH",
            MlFramework::Keras => "KERAS",
        }
    }

    /// The variant whose schema name is `s`, if any.
    pub fn from_str_name(s: &str) -> (r: Option<MlFramework>)
        ensures
            r matches Some(t) ==> t.str_name() == s@,
            r is None ==> forall|t: MlFramework| t.str_name() != s@,
    {
        let st = s.to_owned();
        if st == "UNKNOWN".to_owned() { Some(MlFramework::Unknown) }
        else if st == "PYTORCH".to_owned() { Some(MlFramework::Pytorch) }
        else if st == "KERAS".to_owned() { Some(MlFramework::Keras) }
        else { None }
    }
}

impl ChangeEvent {
    pub open spec fn code(self) -> i32 {
        match self {
            ChangeEvent::Undefined => 0,
            ChangeEvent::ObjectCreated => 1,
            ChangeEvent::ObjectUpdated => 2,
        }
    }

    /// The wire code of the variant.
    pub fn to_i32(&self) -> (r: i32)
        ensures
            r == self.code(),
    {
        match self {
            ChangeEvent::Undefined => 0,
            ChangeEvent::ObjectCreated => 1,
            ChangeEvent::ObjectUpdated => 2,
        }
    }

    pub open spec fn str_name(self) -> Seq<char> {
        match self {
            ChangeEvent::Undefined => "UNDEFINED"@,
            ChangeEvent::ObjectCreated => "OBJECT_CREATED"@,
            ChangeEvent::ObjectUpdated => "OBJECT_UPDATED"@,
        }
    }

    /// The name of the variant in the schema.
    pub fn as_str_name(&self) -> (r: &'static str)
        ensures
            r@ == self.str_name(),
    {
        match self {
            ChangeEvent::Undefined => "UNDEFINED",
            ChangeEvent::ObjectCreated => "OBJECT_CREATED",
            ChangeEvent::ObjectUpdated => "OBJECT_UPDATED",
        }
    }

    /// The variant whose schema name is `s`, if any.
    pub fn from_str_name(s: &str) -> (r: Option<ChangeEvent>)
        ensures
            r matches Some(t) ==> t.str_name() == s@,
            r is None ==> forall|t: ChangeEvent| t.str_name() != s@,
    {
        let st = s.to_owned();
        if st == "UNDEFINED".to_owned() { Some(ChangeEvent::Undefined) }
        else if st == "OBJECT_CREATED".to_owned() { Some(ChangeEvent::ObjectCreated) }
        else if st == "OBJECT_UPDATED".to_owned() { Some(ChangeEvent::ObjectUpdated) }
        else { None }
    }
}


/// Request to register an experiment.
#[derive(Clone, Debug, PartialEq, Eq)]
pub struct CreateExperimentRequest {
    pub name: String,
    pub owner: String,
    pub namespace: String,
    pub framework: i32,
    pub task: String,
    pub external_id: String,
}

/// Reply to an experiment registration.
#[derive(Clone, Debug, PartialEq, Eq)]
pub struct CreateExperimentResponse {
    pub experiment_id: String,
    pub experiment_exists: bool,
    pub created_at: Option<Timestamp>,
    pub updated_at: Option<Timestamp>,
}

/// An experiment as clients see it.
#[derive(Clone, Debug, PartialEq, Eq)]
pub struct Experiment {
    pub id: String,
    pub name: String,
    pub namespace: String,
    pub owner: String,
    pub framework: i32,
    pub external_id: String,
    pub created_at: Option<Timestamp>,
    pub updated_at: Option<Timestamp>,
}

/// Request to register a model.
#[derive(Clone, Debug, PartialEq, Eq)]
pub struct CreateModelRequest {
    pub name: String,
    pub owner: String,
    pub namespace: String,
    pub task: String,
    pub description: String,
}

/// Reply to a model registration.
#[derive(Clone, Debug, PartialEq, Eq)]
pub struct CreateModelResponse {
    pub id: String,
    pub exists: bool,
    pub created_at: Option<Timestamp>,
    pub updated_at: Option<Timestamp>,
}

/// A model as clients see it.
#[derive(Clone, Debug, PartialEq, Eq)]
pub struct Model {
    pub id: String,
    pub name: String,
    pub owner: String,
    pub namespace: String,
    pub description: String,
    pub task: String,
    pub created_at: Option<Timestamp>,
    pub updated_at: Option<Timestamp>,
}

/// Request to register a version of a model.
#[derive(Clone, Debug, PartialEq, Eq)]
pub struct CreateModelVersionRequest {
    pub model: String,
    pub name: String,
    pub version: String,
    pub description: String,
    pub namespace: String,
    pub framework: i32,
    pub unique_tags: Vec<String>,
}

/// Reply to a model-version registration.
#[derive(Clone, Debug, PartialEq, Eq)]
pub struct CreateModelVersionResponse {
    pub model_version: String,
    pub exists: bool,
    pub created_at: Option<Timestamp>,
    pub updated_at: Option<Timestamp>,
}

/// A model version as clients see it.
#[derive(Clone, Debug, PartialEq, Eq)]
pub struct ModelVersion {
    pub id: String,
    pub model_id: String,
    pub name: String,
    pub version: String,
    pub description: String,
    pub framework: i32,
    pub unique_tags: Vec<String>,
    pub created_at: Option<Timestamp>,
    pub updated_at: Option<Timestamp>,
}

/// A string-to-string map, as key and value pairs.
#[derive(Clone, Debug, PartialEq, Eq)]
pub struct Metadata {
    pub metadata: Vec<(String, String)>,
}

/// Request to set metadata keys on an object.
#[derive(Clone, Debug, PartialEq, Eq)]
pub struct UpdateMetadataRequest {
    pub parent_id: String,
    pub metadata: Option<Metadata>,
}

/// Description of a file that belongs to an object.
#[derive(Clone, Debug, PartialEq, Eq)]
pub struct FileMetadata {
    pub id: String,
    pub parent_id: String,
    pub file_type: i32,
    pub checksum: String,
    pub src_path: String,
    pub upload_path: String,
    pub created_at: Option<Timestamp>,
    pub updated_at: Option<Timestamp>,
}

/// First frame of an upload: where the file belongs and what it is.
#[derive(Clone, Debug, PartialEq, Eq)]
pub struct UploadFileMetadata {
    pub object_id: String,
    pub artifact_name: String,
    pub metadata: Option<FileMetadata>,
}

/// One frame of an upload stream.
#[derive(Clone, Debug, PartialEq, Eq)]
pub enum StreamFrame {
    Metadata(UploadFileMetadata),
    Chunks(Vec<u8>),
}

/// One message of an upload stream.
#[derive(Clone, Debug, PartialEq, Eq)]
pub struct UploadFileRequest {
    pub stream_frame: Option<StreamFrame>,
}

/// Reply to a finished upload.
#[derive(Clone, Debug, PartialEq, Eq)]
pub struct UploadFileResponse {
    pub file_id: String,
    pub artifact_id: String,
}

/// Request to record a named group of files.
#[derive(Clone, Debug, PartialEq, Eq)]
pub struct TrackArtifactsRequest {
    pub name: String,
    pub files: Vec<FileMetadata>,
}

/// A named group of files under one object.
#[derive(Clone, Debug, PartialEq, Eq)]
pub struct Artifact {
    pub id: String,
    pub name: String,
    pub object_id: String,
    pub files: Vec<FileMetadata>,
}

/// Who reported an event.
#[derive(Clone, Debug, PartialEq, Eq)]
pub struct EventSource {
    pub name: String,
}

/// A timestamped, labelled record on an object.
#[derive(Clone, Debug, PartialEq, Eq)]
pub struct Event {
    pub name: String,
    pub source: Option<EventSource>,
    pub wallclock_time: Option<Timestamp>,
    pub metadata: Option<Metadata>,
}

/// Request to record an event.
#[derive(Clone, Debug, PartialEq, Eq)]
pub struct LogEventRequest {
    pub parent_id: String,
    pub event: Option<Event>,
}

/// Reply to a recorded event.
#[derive(Clone, Debug, PartialEq, Eq)]
pub struct LogEventResponse {
    pub created_at: Option<Timestamp>,
}

/// The value of a metric sample. A float is carried as its IEEE-754 bits.
#[derive(Clone, Debug, PartialEq, Eq)]
pub enum MetricValue {
    FVal(u32),
    STensor(String),
}

/// One sample of a metric.
#[derive(Clone, Debug, PartialEq, Eq)]
pub struct MetricsValue {
    pub step: u64,
    pub wallclock_time: u64,
    pub value: Option<MetricValue>,
}

/// Request to record a metric sample.
#[derive(Clone, Debug, PartialEq, Eq)]
pub struct LogMetricsRequest {
    pub parent_id: String,
    pub key: String,
    pub value: Option<MetricsValue>,
}

/// The samples of one metric, in the order they were recorded.
#[derive(Clone, Debug, PartialEq, Eq)]
pub struct Metrics {
    pub key: String,
    pub values: Vec<MetricsValue>,
}

} // verus!
