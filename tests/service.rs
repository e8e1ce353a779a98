use modelbox::clock::{from_timestamp, to_primtive_time, WallClock};
use modelbox::entity::{ExperimentRow, FileRow, MetricRow, ModelVersionRow};
use modelbox::error::{InvalidRequestError, Status};
use modelbox::grpc_server::ModelBoxService;
use modelbox::identity::{hash_two, u64_to_decimal, i64_to_decimal, IdHasher};
use modelbox::repository::Repository;
use modelbox::upload::{artifact_path_of, upload_step, UploadAction};
use modelbox::wire::{
    CreateExperimentRequest, CreateModelRequest, CreateModelVersionRequest, Event, EventSource,
    FileMetadata, FileType, LogEventRequest, LogMetricsRequest, Metadata, MetricValue,
    MetricsValue, MlFramework, ModelVersion, StreamFrame, Timestamp, TrackArtifactsRequest,
    UpdateMetadataRequest, UploadFileMetadata, UploadFileRequest,
};

fn s(x: &str) -> String {
    x.to_string()
}

fn clock(secs: i64) -> WallClock {
    WallClock { unix_seconds: secs, nanosecond: 0 }
}

fn gpt2_request() -> CreateExperimentRequest {
    CreateExperimentRequest {
        name: s("gpt2"),
        owner: s("a@x"),
        namespace: s("ns1"),
        framework: 1,
        task: s("lm"),
        external_id: s("e1"),
    }
}

fn file_meta(parent: &str, src: &str, checksum: &str, file_type: i32) -> FileMetadata {
    FileMetadata {
        id: s(""),
        parent_id: s(parent),
        file_type,
        checksum: s(checksum),
        src_path: s(src),
        upload_path: s(""),
        created_at: None,
        updated_at: None,
    }
}

fn metadata_frame(parent: &str, src: &str, checksum: &str, artifact: &str) -> UploadFileRequest {
    UploadFileRequest {
        stream_frame: Some(StreamFrame::Metadata(UploadFileMetadata {
            object_id: s(parent),
            artifact_name: s(artifact),
            metadata: Some(file_meta(parent, src, checksum, 1)),
        })),
    }
}

fn chunk(bytes: &[u8]) -> UploadFileRequest {
    UploadFileRequest { stream_frame: Some(StreamFrame::Chunks(bytes.to_vec())) }
}

#[test]
fn it_works() {
    let result = 2 + 2;
    assert_eq!(result, 4);
}

#[test]
fn invalid_yaml() {}

#[test]
fn test_uniqu_tags() {
    let row = ModelVersionRow {
        id: s("v"),
        name: s("v1"),
        model_id: s("m"),
        experiment_id: s(""),
        namespace: s("ns"),
        version: s("1.0"),
        description: s(""),
        ml_framework: 1,
        unique_tags: s(r#"["a", "b", "c"]"#),
        created_at: clock(0),
        updated_at: clock(0),
    };
    let v = ModelVersion::from_model(row).unwrap();
    assert_eq!(vec!["a", "b", "c"], v.unique_tags);
}

#[test]
fn test_create_example() {
    let mut repository = Repository::new();
    let experiment = ExperimentRow {
        id: s("abcd"),
        name: s("gpt2"),
        external_id: s("ext_1"),
        owner: s("diptanu@tensorland.ai"),
        namespace: s("langtech"),
        ml_framework: 1,
        created_at: clock(1700000000),
        updated_at: clock(1700000000),
    };
    repository.create_exeperiment(experiment.copy()).unwrap();
    let maybe_experiment_out = repository.get_experiment("abcd");
    assert!(maybe_experiment_out.is_some());
    let experiment_out = maybe_experiment_out.unwrap();
    assert_eq!(experiment_out, experiment);
}

#[test]
fn fnv1a_known_values() {
    let h = IdHasher::new();
    assert_eq!(h.finish(), "14695981039346656037");
    let mut h = IdHasher::new();
    h.write(b"a");
    assert_eq!(h.finish(), "12638187200555641996");
}

#[test]
fn decimal_notation() {
    assert_eq!(u64_to_decimal(0), "0");
    assert_eq!(u64_to_decimal(1234567890), "1234567890");
    assert_eq!(u64_to_decimal(u64::MAX), "18446744073709551615");
    assert_eq!(i64_to_decimal(-42), "-42");
    assert_eq!(i64_to_decimal(i64::MIN), "-9223372036854775808");
}

#[test]
fn ids_are_deterministic_and_field_sensitive() {
    let a = gpt2_request();
    let b = gpt2_request();
    assert_eq!(a.generate_id(), b.generate_id());
    let mut c = gpt2_request();
    c.owner = s("b@x");
    assert_ne!(a.generate_id(), c.generate_id());
    // Fields are hashed as one byte string, in order.
    assert_eq!(hash_two("ab", "c"), hash_two("a", "bc"));
    let m1 = CreateModelRequest { name: s("m"), owner: s("x"), namespace: s("ns1"), task: s("t"), description: s("d") };
    let m2 = CreateModelRequest { name: s("m"), owner: s("y"), namespace: s("ns1"), task: s("u"), description: s("e") };
    assert_eq!(m1.generate_id(), m2.generate_id());
    let f1 = file_meta("p", "a.bin", "abc", 1);
    let f2 = file_meta("p", "a.bin", "abd", 1);
    assert_ne!(f1.generate_id(), f2.generate_id());
    assert_eq!(f1.generate_artifact_id(s("w")), f2.generate_artifact_id(s("w")));
}

#[test]
fn create_get_and_list_experiment() {
    let mut svc = ModelBoxService::new();
    let first = svc.create_experiment(gpt2_request()).unwrap();
    assert!(!first.experiment_exists);
    assert_eq!(first.experiment_id, gpt2_request().generate_id());
    let got = svc.get_experiment(first.experiment_id.clone()).unwrap();
    assert_eq!(got.name, "gpt2");
    assert_eq!(got.owner, "a@x");
    assert_eq!(got.namespace, "ns1");
    assert_eq!(got.external_id, "e1");
    assert_eq!(got.framework, 1);
    let second = svc.create_experiment(gpt2_request()).unwrap();
    assert!(second.experiment_exists);
    assert_eq!(second.experiment_id, first.experiment_id);
    let listed = svc.list_experiments(s("ns1"));
    assert_eq!(listed.len(), 1);
    assert_eq!(listed[0].id, first.experiment_id);
    assert!(svc.list_experiments(s("other")).is_empty());
    // One change-log row, for the experiment's creation.
    let log = svc.repository.mutations();
    assert_eq!(log.len(), 1);
    assert_eq!(log[0].object_id, first.experiment_id);
    assert_eq!(log[0].object_type, 1);
    assert_eq!(log[0].mutation_type, 1);
    assert!(log[0].experiment_payload.is_some());
    assert!(log[0].model_payload.is_none());
    assert!(log[0].processed_at.is_none());
}

#[test]
fn get_unknown_experiment_is_not_found() {
    let svc = ModelBoxService::new();
    assert!(matches!(svc.get_experiment(s("nope")), Err(Status::NotFound { .. })));
}

#[test]
fn unknown_framework_is_stored_as_unknown() {
    let mut svc = ModelBoxService::new();
    let mut req = gpt2_request();
    req.framework = 42;
    let r = svc.create_experiment(req).unwrap();
    assert_eq!(svc.get_experiment(r.experiment_id).unwrap().framework, 0);
    assert_eq!(MlFramework::from_i32(42), MlFramework::Unknown);
}

#[test]
fn model_and_version_registration() {
    let mut svc = ModelBoxService::new();
    let model = svc
        .create_model(CreateModelRequest { name: s("m"), namespace: s("ns1"), owner: s("a@x"), task: s("t"), description: s("d") })
        .unwrap();
    assert!(!model.exists);
    let again = svc
        .create_model(CreateModelRequest { name: s("m"), namespace: s("ns1"), owner: s("a@x"), task: s("t"), description: s("d") })
        .unwrap();
    assert!(again.exists);
    assert_eq!(svc.list_models(s("ns1")).len(), 1);
    let version = svc
        .create_model_version(CreateModelVersionRequest {
            model: model.id.clone(),
            name: s("v1"),
            version: s("1.0"),
            description: s(""),
            namespace: s("ns1"),
            framework: 1,
            unique_tags: vec![s("a"), s("b")],
        })
        .unwrap();
    assert!(!version.exists);
    let versions = svc.list_model_versions(model.id.clone()).unwrap();
    assert_eq!(versions.len(), 1);
    assert_eq!(versions[0].unique_tags, vec![s("a"), s("b")]);
    assert_eq!(versions[0].id, version.model_version);
    // Two creates, two change-log rows: one per object kind.
    let log = svc.repository.mutations();
    assert_eq!(log.len(), 2);
    assert_eq!(log[0].object_type, 2);
    assert_eq!(log[1].object_type, 3);
    assert!(log[1].model_version_payload.is_some());
}

#[test]
fn metadata_later_value_wins() {
    let mut svc = ModelBoxService::new();
    let req = |v: &str| UpdateMetadataRequest {
        parent_id: s("p"),
        metadata: Some(Metadata { metadata: vec![(s("k"), s(v))] }),
    };
    svc.update_metadata(req("v1")).unwrap();
    svc.update_metadata(req("v2")).unwrap();
    let listed = svc.list_metadata(s("p")).unwrap();
    assert_eq!(listed.metadata, vec![(s("k"), s("v2"))]);
    assert_eq!(svc.repository.get_metadata(s("p")).len(), 1);
    assert_eq!(svc.repository.get_metadata(s("p"))[0].meta, "\"v2\"");
}

#[test]
fn upload_stores_file_and_blob() {
    let mut svc = ModelBoxService::new();
    let stream = vec![
        metadata_frame("p", "a.bin", "abc", "weights"),
        chunk(b"AA"),
        chunk(b"BB"),
        chunk(b"CC"),
    ];
    let (resp, blob) = svc.upload_file(stream).unwrap();
    assert_eq!(blob, b"AABBCC".to_vec());
    assert_eq!(resp.file_id, file_meta("p", "a.bin", "abc", 1).generate_id());
    assert_eq!(resp.artifact_id, hash_two("p", "weights"));
    let files = svc.repository.get_files(s("p"));
    assert_eq!(files.len(), 1);
    let expected_path = format!("modelbox/artifacts/p/{}", resp.file_id);
    assert_eq!(files[0].upload_path, Some(expected_path.clone()));
    assert_eq!(artifact_path_of("p", &resp.file_id), expected_path);
    let artifacts = svc.list_artifacts(s("p")).unwrap();
    assert_eq!(artifacts.len(), 1);
    assert_eq!(artifacts[0].name, "weights");
    assert_eq!(artifacts[0].id, resp.artifact_id);
    assert_eq!(artifacts[0].files.len(), 1);
    assert_eq!(artifacts[0].files[0].checksum, "abc");
    assert_eq!(artifacts[0].files[0].upload_path, expected_path);
    assert_eq!(artifacts[0].files[0].file_type, 1);
}

#[test]
fn upload_retry_reuses_the_file_row() {
    let mut svc = ModelBoxService::new();
    let a = svc.upload_file(vec![metadata_frame("p", "a.bin", "abc", "w"), chunk(b"x")]).unwrap();
    let b = svc.upload_file(vec![metadata_frame("p", "a.bin", "abc", "w"), chunk(b"y")]).unwrap();
    assert_eq!(a.0.file_id, b.0.file_id);
    assert_eq!(svc.repository.get_files(s("p")).len(), 1);
}

#[test]
fn upload_without_metadata_is_rejected() {
    let mut svc = ModelBoxService::new();
    let r = svc.upload_file(vec![chunk(b"AA"), chunk(b"BB")]);
    assert!(matches!(r, Err(Status::InvalidArgument { .. })));
    assert!(svc.repository.get_files(s("p")).is_empty());
    let r = svc.upload_file(vec![]);
    assert!(matches!(r, Err(Status::InvalidArgument { .. })));
    let r = svc.upload_file(vec![UploadFileRequest { stream_frame: None }]);
    assert!(matches!(r, Err(Status::InvalidArgument { .. })));
    let no_file = UploadFileRequest {
        stream_frame: Some(StreamFrame::Metadata(UploadFileMetadata {
            object_id: s("p"),
            artifact_name: s("w"),
            metadata: None,
        })),
    };
    let r = svc.upload_file(vec![no_file]);
    assert!(matches!(r, Err(Status::InvalidArgument { .. })));
    assert!(svc.repository.get_files(s("p")).is_empty());
}

#[test]
fn upload_steps() {
    assert_eq!(upload_step(Some(chunk(b"AB"))), UploadAction::Write(b"AB".to_vec()));
    assert_eq!(upload_step(Some(UploadFileRequest { stream_frame: None })), UploadAction::Skip);
    assert_eq!(upload_step(None), UploadAction::Finalize);
}

#[test]
fn artifact_grouping_by_name() {
    let mut svc = ModelBoxService::new();
    let files = vec![
        file_meta("P", "a", "1", 2),
        file_meta("P", "b", "2", 3),
        file_meta("P", "c", "3", 4),
    ];
    let id = svc.track_artifacts(TrackArtifactsRequest { name: s("A"), files }).unwrap();
    assert_eq!(id, "");
    svc.track_artifacts(TrackArtifactsRequest { name: s("B"), files: vec![file_meta("P", "d", "4", 5)] })
        .unwrap();
    let artifacts = svc.list_artifacts(s("P")).unwrap();
    assert_eq!(artifacts.len(), 2);
    assert_eq!(artifacts[0].name, "A");
    assert_eq!(artifacts[0].id, hash_two("P", "A"));
    assert_eq!(artifacts[0].object_id, "P");
    let mut paths: Vec<String> = artifacts[0].files.iter().map(|f| f.src_path.clone()).collect();
    paths.sort();
    assert_eq!(paths, vec![s("a"), s("b"), s("c")]);
    assert_eq!(artifacts[1].name, "B");
    assert_eq!(artifacts[1].files.len(), 1);
}

#[test]
fn metrics_bucketed_by_name() {
    let mut svc = ModelBoxService::new();
    let sample = |step: u64, f: f32| LogMetricsRequest {
        parent_id: s("p"),
        key: s("loss"),
        value: Some(MetricsValue { step, wallclock_time: 0, value: Some(MetricValue::FVal(f.to_bits())) }),
    };
    svc.log_metrics(sample(0, 0.9)).unwrap();
    svc.log_metrics(sample(1, 0.8)).unwrap();
    svc.log_metrics(LogMetricsRequest {
        parent_id: s("p"),
        key: s("acc"),
        value: Some(MetricsValue { step: 0, wallclock_time: 0, value: Some(MetricValue::STensor(s("t"))) }),
    })
    .unwrap();
    let metrics = svc.get_metrics(s("p"));
    assert_eq!(metrics.len(), 2);
    assert_eq!(metrics[0].key, "loss");
    assert_eq!(metrics[0].values.len(), 2);
    assert_eq!(metrics[0].values[0].step, 0);
    assert_eq!(metrics[0].values[0].value, Some(MetricValue::FVal(0.9f32.to_bits())));
    assert_eq!(metrics[0].values[1].step, 1);
    assert_eq!(metrics[0].values[1].value, Some(MetricValue::FVal(0.8f32.to_bits())));
    assert_eq!(metrics[1].key, "acc");
    assert_eq!(metrics[1].values[0].value, Some(MetricValue::STensor(s("t"))));
    assert!(svc.get_metrics(s("q")).is_empty());
    let rows = svc.repository.metrics(s("p"));
    assert_eq!(rows[0].id, 1);
    assert_eq!(rows[2].id, 3);
}

#[test]
fn event_logged_and_listed() {
    let mut svc = ModelBoxService::new();
    let req = LogEventRequest {
        parent_id: s("p"),
        event: Some(Event {
            name: s("training_started"),
            source: Some(EventSource { name: s("worker-3") }),
            wallclock_time: Some(Timestamp { seconds: 1700000000, nanos: 0 }),
            metadata: Some(Metadata { metadata: vec![(s("host"), s("h"))] }),
        }),
    };
    let resp = svc.log_event(req.clone()).unwrap();
    assert!(resp.created_at.is_some());
    let events = svc.list_events(s("p"));
    assert_eq!(events.len(), 1);
    assert_eq!(events[0].name, "training_started");
    assert_eq!(events[0].source, Some(EventSource { name: s("worker-3") }));
    assert_eq!(events[0].wallclock_time, Some(Timestamp { seconds: 1700000000, nanos: 0 }));
    assert_eq!(events[0].metadata, Some(Metadata { metadata: vec![(s("host"), s("h"))] }));
    // The same event again has the same id, which the store refuses.
    assert!(matches!(svc.log_event(req), Err(Status::Internal { .. })));
    assert_eq!(svc.list_events(s("p")).len(), 1);
}

#[test]
fn event_with_unreadable_time_is_rejected() {
    let req = LogEventRequest {
        parent_id: s("p"),
        event: Some(Event {
            name: s("e"),
            source: None,
            wallclock_time: Some(Timestamp { seconds: i64::MAX, nanos: 0 }),
            metadata: None,
        }),
    };
    assert!(matches!(req.clone().into_log_event_model(), Err(InvalidRequestError::InvalidTime)));
    let mut svc = ModelBoxService::new();
    assert!(matches!(svc.log_event(req), Err(Status::InvalidArgument { .. })));
}

#[test]
fn timestamp_conversion() {
    let w = to_primtive_time(Timestamp { seconds: 1, nanos: 1_500_000_000 }).unwrap();
    assert_eq!(w, WallClock { unix_seconds: 2, nanosecond: 500_000_000 });
    let w = to_primtive_time(Timestamp { seconds: 0, nanos: -1 }).unwrap();
    assert_eq!(w, WallClock { unix_seconds: -1, nanosecond: 999_999_999 });
    assert_eq!(from_timestamp(w), Some(Timestamp { seconds: -1, nanos: 999_999_999 }));
    assert!(matches!(to_primtive_time(Timestamp { seconds: 253402300800, nanos: 0 }), Err(InvalidRequestError::InvalidTime)));
    assert!(to_primtive_time(Timestamp { seconds: 253402300799, nanos: 999_999_999 }).is_ok());
    assert!(to_primtive_time(Timestamp { seconds: 253402300799, nanos: 1_000_000_000 }).is_err());
    assert!(to_primtive_time(Timestamp { seconds: -377705116800, nanos: 0 }).is_ok());
    assert!(to_primtive_time(Timestamp { seconds: -377705116801, nanos: 0 }).is_err());
}

#[test]
fn enum_codings() {
    assert_eq!(FileType::from_i32(6), Some(FileType::Video));
    assert_eq!(FileType::from_i32(7), None);
    assert_eq!(FileType::Checkpoint.to_i32(), 2);
    assert_eq!(FileType::Checkpoint.as_str_name(), "CHECKPOINT");
    assert_eq!(FileType::from_str_name("AUDIO"), Some(FileType::Audio));
    assert_eq!(FileType::from_str_name("nope"), None);
    assert_eq!(FileType::Image.as_string(), "image");
    assert_eq!(FileType::to_file_meta("video"), FileType::Video);
    assert_eq!(FileType::to_file_meta("bogus"), FileType::Undefined);
    assert_eq!(MlFramework::Keras.as_str_name(), "KERAS");
    assert_eq!(MlFramework::from_str_name("PYTORCH"), Some(MlFramework::Pytorch));
    assert_eq!(modelbox::wire::ChangeEvent::ObjectUpdated.to_i32(), 2);
    assert_eq!(modelbox::wire::ChangeEvent::from_str_name("OBJECT_CREATED"), Some(modelbox::wire::ChangeEvent::ObjectCreated));
}

#[test]
fn bad_json_columns_are_errors() {
    let row = FileRow {
        id: s("f"),
        parent_id: s("p"),
        src_path: s("a"),
        upload_path: None,
        file_type: s("model"),
        metadata: s("not json"),
        artifact_name: s("w"),
        artifact_id: s("x"),
        created_at: clock(0),
        updated_at: clock(0),
    };
    assert!(matches!(FileMetadata::from_models(vec![row]), Err(InvalidRequestError::DeserializationError)));
    let mut r = Repository::new();
    r.update_metadata(vec![modelbox::entity::MetadataRow {
        id: s("i"),
        parent_id: s("p"),
        name: s("k"),
        meta: s("{oops"),
        created_at: clock(0),
        updated_at: clock(0),
    }]);
    let svc = ModelBoxService { repository: r };
    assert!(matches!(svc.list_metadata(s("p")), Err(Status::Internal { .. })));
    let missing = UploadFileMetadata { object_id: s("p"), artifact_name: s("w"), metadata: None };
    assert!(matches!(missing.file_model(), Err(InvalidRequestError::MissingField { .. })));
}

#[test]
fn stubs_are_unimplemented() {
    let svc = ModelBoxService::new();
    assert_eq!(svc.download_file(s("f")), Err(Status::Unimplemented));
    assert_eq!(svc.watch_namespace(s("ns")), Err(Status::Unimplemented));
}

#[test]
fn metric_rows_are_numbered_in_order() {
    let mut r = Repository::new();
    let row = MetricRow {
        id: 0,
        object_id: s("p"),
        name: s("m"),
        tensor: None,
        float_value: Some(0),
        step: Some(0),
        wall_clock: None,
        created_at: clock(0),
    };
    r.log_metrics(vec![row.copy(), row.copy()]).unwrap();
    let rows = r.metrics(s("p"));
    assert_eq!(rows.len(), 2);
    assert_eq!(rows[0].id, 1);
    assert_eq!(rows[1].id, 2);
}

#[test]
fn model_version_tags_round_trip_through_json() {
    let mut svc = ModelBoxService::new();
    let tags = vec![s("z"), s("a"), s("\"quoted\"")];
    svc.create_model_version(CreateModelVersionRequest {
        model: s("m"),
        name: s("v"),
        version: s("2"),
        description: s(""),
        namespace: s("ns"),
        framework: 2,
        unique_tags: tags.clone(),
    })
    .unwrap();
    let got = svc.list_model_versions(s("m")).unwrap();
    assert_eq!(got[0].unique_tags, tags);
    assert_eq!(svc.repository.model_versions_for_model(s("m"))[0].unique_tags, r#"["z","a","\"quoted\""]"#);
}

#[test]
fn stored_json_columns() {
    let row = file_meta("p", "a.bin", "abc", 1).into_file_metadata_model(s("w")).unwrap();
    assert_eq!(row.metadata, r#"{"checksum":"abc"}"#);
    assert_eq!(row.file_type, "model");
    assert_eq!(row.artifact_id, hash_two("p", "w"));
    let event = LogEventRequest {
        parent_id: s("p"),
        event: Some(Event {
            name: s("e"),
            source: None,
            wallclock_time: None,
            metadata: Some(Metadata { metadata: vec![(s("z"), s("1")), (s("a"), s("2"))] }),
        }),
    }
    .into_log_event_model()
    .unwrap();
    assert_eq!(event.metadata, r#"{"a":"2","z":"1"}"#);
    assert_eq!(event.source, "");
}

#[test]
fn creation_times_come_from_the_clock() {
    let row = gpt2_request().into_model();
    // 2020-01-01T00:00:00Z
    assert!(row.created_at.unix_seconds >= 1577836800);
    assert!(row.created_at.nanosecond < 1_000_000_000);
    assert_eq!(row.created_at, row.updated_at);
}

#[test]
fn upload_path_uses_the_files_parent() {
    let mut svc = ModelBoxService::new();
    let first = UploadFileRequest {
        stream_frame: Some(StreamFrame::Metadata(UploadFileMetadata {
            object_id: s("other"),
            artifact_name: s("w"),
            metadata: Some(file_meta("p", "a.bin", "abc", 1)),
        })),
    };
    let (resp, blob) = svc.upload_file(vec![first, chunk(b"Z")]).unwrap();
    assert_eq!(blob, b"Z".to_vec());
    let files = svc.repository.get_files(s("p"));
    assert_eq!(files[0].upload_path, Some(format!("modelbox/artifacts/p/{}", resp.file_id)));
}

#[test]
fn repeated_metadata_key_gives_one_row() {
    let req = UpdateMetadataRequest {
        parent_id: s("p"),
        metadata: Some(Metadata { metadata: vec![(s("k"), s("v1")), (s("j"), s("x")), (s("k"), s("v2"))] }),
    };
    let rows = req.into_metadata_model().unwrap();
    assert_eq!(rows.len(), 2);
    assert_eq!(rows[0].name, "k");
    assert_eq!(rows[0].meta, "\"v2\"");
    assert_eq!(rows[1].name, "j");
}

#[test]
fn duplicate_create_leaves_the_log_alone() {
    let mut svc = ModelBoxService::new();
    let m = CreateModelRequest { name: s("m"), owner: s("o"), namespace: s("n"), task: s("t"), description: s("d") };
    let a = svc.create_model(m.clone()).unwrap();
    let b = svc.create_model(m).unwrap();
    assert!(!a.exists && b.exists);
    assert_eq!(a.id, b.id);
    assert_eq!(svc.repository.mutations().len(), 1);
    assert_eq!(svc.repository.mutations()[0].id, 1);
}
