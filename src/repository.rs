//! The repository: the relational state of the service, and the rules by
//! which each operation changes it.
//!
//! Every create of an experiment, model or model version is one transaction
//! that writes a change-log row and then the entity row; a duplicate id
//! leaves the store as it was, as a rolled-back transaction does, and reports
//! the object as existing.
use vstd::prelude::*;

use crate::clock::{now, WallClock};
use crate::entity::{
    copy_opt_string, EventRow, ExperimentRow, FileRow, MetadataRow, MetricRow, ModelRow, ModelVersionRow, MutationRow,
};
use crate::error::DatastoreError;
use crate::identity::{decimal, i64_to_decimal, signed_decimal, u64_to_decimal};
use crate::json::{encode_object, json_of_object};
use crate::model_helper::Entries;

verus! {

/// Kind of object that a change-log row refers to.
#[derive(Clone, Copy, Debug, PartialEq, Eq, Structural)]
pub enum MutationObject {
    Unknown,
    Experiment,
    Model,
    ModelVersion,
}

impl MutationObject {
    pub open spec fn code(self) -> i16 {
        match self {
            MutationObject::Unknown => 0,
            MutationObject::Experiment => 1,
            MutationObject::Model => 2,
            MutationObject::ModelVersion => 3,
        }
    }

    /// The code stored in `object_type`.
    pub fn to_i16(&self) -> (r: i16)
        ensures
            r == self.code(),
    {
        match self {
            MutationObject::Unknown => 0,
            MutationObject::Experiment => 1,
            MutationObject::Model => 2,
            MutationObject::ModelVersion => 3,
        }
    }
}

/// Kind of change that a change-log row records.
#[derive(Clone, Copy, Debug, PartialEq, Eq, Structural)]
pub enum MutationType {
    Unknown,
    Create,
    Modify,
    Update,
    Delete,
}

impl MutationType {
    pub open spec fn code(self) -> i16 {
        match self {
            MutationType::Unknown => 0,
            MutationType::Create => 1,
            MutationType::Modify => 2,
            MutationType::Update => 3,
            MutationType::Delete => 4,
        }
    }

    /// The code stored in `mutation_type`.
    pub fn to_i16(&self) -> (r: i16)
        ensures
            r == self.code(),
    {
        match self {
            MutationType::Unknown => 0,
            MutationType::Create => 1,
            MutationType::Modify => 2,
            MutationType::Update => 3,
            MutationType::Delete => 4,
        }
    }
}

/// Outcome of an experiment create: its id, and whether it already existed.
pub struct CreateExperimentResult {
    pub exists: bool,
    pub id: String,
}

/// Outcome of a model create: its id, and whether it already existed.
pub struct CreateModelResult {
    pub exists: bool,
    pub id: String,
}

/// Outcome of a model-version create: its id, and whether it already existed.
#[derive(Debug, Default)]
pub struct CreateModelVersionResult {
    pub exists: bool,
    pub id: String,
}

/// A row with a string primary key.
pub trait RowId {
    spec fn key(&self) -> Seq<char>;

    fn row_id(&self) -> (r: &String)
        ensures
            r@ == self.key(),
    ;
}

impl RowId for ExperimentRow {
    open spec fn key(&self) -> Seq<char> {
        self.id@
    }

    fn row_id(&self) -> (r: &String) {
        &self.id
    }
}

impl RowId for ModelRow {
    open spec fn key(&self) -> Seq<char> {
        self.id@
    }

    fn row_id(&self) -> (r: &String) {
        &self.id
    }
}

impl RowId for ModelVersionRow {
    open spec fn key(&self) -> Seq<char> {
        self.id@
    }

    fn row_id(&self) -> (r: &String) {
        &self.id
    }
}

impl RowId for MetadataRow {
    open spec fn key(&self) -> Seq<char> {
        self.id@
    }

    fn row_id(&self) -> (r: &String) {
        &self.id
    }
}

impl RowId for FileRow {
    open spec fn key(&self) -> Seq<char> {
        self.id@
    }

    fn row_id(&self) -> (r: &String) {
        &self.id
    }
}

impl RowId for EventRow {
    open spec fn key(&self) -> Seq<char> {
        self.id@
    }

    fn row_id(&self) -> (r: &String) {
        &self.id
    }
}

/// Whether some row has primary key `id`.
pub open spec fn has_row<T: RowId>(rows: Seq<T>, id: Seq<char>) -> bool {
    exists|i: int| 0 <= i < rows.len() && rows[i].key() == id
}

/// No two rows share a primary key.
pub open spec fn keys_unique<T: RowId>(rows: Seq<T>) -> bool {
    forall|i: int, j: int| 0 <= i < rows.len() && 0 <= j < rows.len() && i != j ==> rows[i].key()
        != rows[j].key()
}

/// Number of rows with primary key `id`.
pub open spec fn count_key<T: RowId>(rows: Seq<T>, id: Seq<char>) -> nat
    decreases rows.len(),
{
    if rows.len() == 0 {
        0
    } else {
        count_key(rows.drop_last(), id) + if rows.last().key() == id { 1nat } else { 0nat }
    }
}

/// Position of the row with primary key `id`, if any.
pub fn find_row<T: RowId>(rows: &Vec<T>, id: &String) -> (r: Option<usize>)
    ensures
        match r {
            Some(i) => i < rows@.len() && rows@[i as int].key() == id@,
            None => !has_row(rows@, id@),
        },
{
    let mut i: usize = 0;
    while i < rows.len()
        invariant
            i <= rows@.len(),
            forall|m: int| 0 <= m < i ==> rows@[m].key() != id@,
        decreases rows@.len() - i,
    {
        if *rows[i].row_id() == *id {
            return Some(i);
        }
        i = i + 1;
    }
    None
}

/// A row that belongs to a scope: a namespace, a model, or a parent object.
pub trait Scoped: Sized {
    spec fn scope(&self) -> Seq<char>;

    fn scope_field(&self) -> (r: &String)
        ensures
            r@ == self.scope(),
    ;

    fn duplicate(&self) -> (r: Self)
        ensures
            r == *self,
    ;
}

impl Scoped for ExperimentRow {
    open spec fn scope(&self) -> Seq<char> {
        self.namespace@
    }

    fn scope_field(&self) -> (r: &String) {
        &self.namespace
    }

    fn duplicate(&self) -> (r: Self) {
        self.copy()
    }
}

impl Scoped for ModelRow {
    open spec fn scope(&self) -> Seq<char> {
        self.namespace@
    }

    fn scope_field(&self) -> (r: &String) {
        &self.namespace
    }

    fn duplicate(&self) -> (r: Self) {
        self.copy()
    }
}

impl Scoped for ModelVersionRow {
    open spec fn scope(&self) -> Seq<char> {
        self.model_id@
    }

    fn scope_field(&self) -> (r: &String) {
        &self.model_id
    }

    fn duplicate(&self) -> (r: Self) {
        self.copy()
    }
}

impl Scoped for MetadataRow {
    open spec fn scope(&self) -> Seq<char> {
        self.parent_id@
    }

    fn scope_field(&self) -> (r: &String) {
        &self.parent_id
    }

    fn duplicate(&self) -> (r: Self) {
        self.copy()
    }
}

impl Scoped for FileRow {
    open spec fn scope(&self) -> Seq<char> {
        self.parent_id@
    }

    fn scope_field(&self) -> (r: &String) {
        &self.parent_id
    }

    fn duplicate(&self) -> (r: Self) {
        self.copy()
    }
}

impl Scoped for EventRow {
    open spec fn scope(&self) -> Seq<char> {
        self.parent_id@
    }

    fn scope_field(&self) -> (r: &String) {
        &self.parent_id
    }

    fn duplicate(&self) -> (r: Self) {
        self.copy()
    }
}

impl Scoped for MetricRow {
    open spec fn scope(&self) -> Seq<char> {
        self.object_id@
    }

    fn scope_field(&self) -> (r: &String) {
        &self.object_id
    }

    fn duplicate(&self) -> (r: Self) {
        self.copy()
    }
}

/// The rows of `rows` in scope `scope`, in table order.
pub open spec fn in_scope<T: Scoped>(rows: Seq<T>, scope: Seq<char>) -> Seq<T> {
    rows.filter(|t: T| t.scope() == scope)
}

proof fn lemma_in_scope_step<T: Scoped>(rows: Seq<T>, scope: Seq<char>, i: int)
    requires
        0 <= i < rows.len(),
    ensures
        in_scope(rows.take(i + 1), scope) == if rows[i].scope() == scope {
            in_scope(rows.take(i), scope).push(rows[i])
        } else {
            in_scope(rows.take(i), scope)
        },
{
    reveal(Seq::filter);
    assert(rows.take(i + 1).drop_last() == rows.take(i));
    assert(rows.take(i + 1).last() == rows[i]);
}

/// Every row in scope `scope` has that scope.
pub proof fn lemma_in_scope_member<T: Scoped>(rows: Seq<T>, scope: Seq<char>, i: int)
    requires
        0 <= i < in_scope(rows, scope).len(),
    ensures
        in_scope(rows, scope)[i].scope() == scope,
    decreases rows.len(),
{
    reveal(Seq::filter);
    if rows.len() > 0 {
        let d = rows.drop_last();
        if i < in_scope(d, scope).len() {
            lemma_in_scope_member(d, scope, i);
        }
    }
}

/// Copies of the rows in scope `scope`, in table order.
pub fn rows_in_scope<T: Scoped>(rows: &Vec<T>, scope: &String) -> (r: Vec<T>)
    ensures
        r@ == in_scope(rows@, scope@),
{
    let mut out: Vec<T> = Vec::new();
    let mut i: usize = 0;
    proof {
        reveal(Seq::filter);
        assert(rows@.take(0) == Seq::<T>::empty());
    }
    while i < rows.len()
        invariant
            i <= rows@.len(),
            out@ == in_scope(rows@.take(i as int), scope@),
        decreases rows@.len() - i,
    {
        proof {
            lemma_in_scope_step(rows@, scope@, i as int);
        }
        if *rows[i].scope_field() == *scope {
            out.push(rows[i].duplicate());
        }
        i = i + 1;
    }
    proof {
        assert(rows@.take(rows@.len() as int) == rows@);
    }
    out
}

/// Appending a row with a new key keeps the keys unique.
pub proof fn lemma_push_unique<T: RowId>(rows: Seq<T>, x: T)
    requires
        keys_unique(rows),
        !has_row(rows, x.key()),
    ensures
        keys_unique(rows.push(x)),
{
    let p = rows.push(x);
    assert forall|i: int, j: int| 0 <= i < p.len() && 0 <= j < p.len() && i != j implies p[i].key()
        != p[j].key() by {
        if i == rows.len() {
            assert(p[j] == rows[j]);
        } else if j == rows.len() {
            assert(p[i] == rows[i]);
        } else {
            assert(p[i] == rows[i] && p[j] == rows[j]);
        }
    }
}

/// In a table with unique keys, the row with a present key is the one that
/// any choice of a row with that key picks.
pub proof fn lemma_unique_choice<T: RowId>(rows: Seq<T>, i: int)
    requires
        keys_unique(rows),
        0 <= i < rows.len(),
    ensures
        has_row(rows, rows[i].key()),
        (choose|j: int| 0 <= j < rows.len() && rows[j].key() == rows[i].key()) == i,
{
    assert(0 <= i < rows.len() && rows[i].key() == rows[i].key());
}

/// Replacing a row by one with the same key keeps the keys unique.
pub proof fn lemma_update_unique<T: RowId>(rows: Seq<T>, i: int, x: T)
    requires
        keys_unique(rows),
        0 <= i < rows.len(),
        x.key() == rows[i].key(),
    ensures
        keys_unique(rows.update(i, x)),
{
    let p = rows.update(i, x);
    assert forall|a: int, b: int| 0 <= a < p.len() && 0 <= b < p.len() && a != b implies p[a].key()
        != p[b].key() by {
        assert(p[a].key() == rows[a].key());
        assert(p[b].key() == rows[b].key());
    }
}

/// In a table with unique keys, a key that is present occurs once and at
/// one position.
pub proof fn lemma_unique_key_count<T: RowId>(rows: Seq<T>, i: int)
    requires
        keys_unique(rows),
        0 <= i < rows.len(),
    ensures
        count_key(rows, rows[i].key()) == 1,
    decreases rows.len(),
{
    let id = rows[i].key();
    if i == rows.len() - 1 {
        lemma_absent_key_count(rows.drop_last(), id);
    } else {
        lemma_unique_key_count(rows.drop_last(), i);
    }
}

/// A key that no row has occurs zero times.
pub proof fn lemma_absent_key_count<T: RowId>(rows: Seq<T>, id: Seq<char>)
    requires
        !has_row(rows, id),
    ensures
        count_key(rows, id) == 0,
    decreases rows.len(),
{
    if rows.len() > 0 {
        assert(!has_row(rows.drop_last(), id)) by {
            if has_row(rows.drop_last(), id) {
                let k = choose|k: int| 0 <= k < rows.drop_last().len() && rows.drop_last()[k].key() == id;
                assert(rows[k].key() == id);
            }
        }
        assert(rows.last().key() != id) by {
            if rows.last().key() == id {
                assert(rows[rows.len() - 1].key() == id);
            }
        }
        lemma_absent_key_count(rows.drop_last(), id);
    }
}

/// The relational state as plain values: each table in row order.
pub struct RepositoryView {
    pub experiments: Seq<ExperimentRow>,
    pub models: Seq<ModelRow>,
    pub model_versions: Seq<ModelVersionRow>,
    pub metadata: Seq<MetadataRow>,
    pub files: Seq<FileRow>,
    pub events: Seq<EventRow>,
    pub metrics: Seq<MetricRow>,
    pub mutations: Seq<MutationRow>,
    pub next_metric_id: u64,
    pub next_mutation_id: u64,
}

/// The service's relational state.
pub struct Repository {
    experiments: Vec<ExperimentRow>,
    models: Vec<ModelRow>,
    model_versions: Vec<ModelVersionRow>,
    metadata: Vec<MetadataRow>,
    files: Vec<FileRow>,
    events: Vec<EventRow>,
    metrics: Vec<MetricRow>,
    mutations: Vec<MutationRow>,
    next_metric_id: u64,
    next_mutation_id: u64,
}

impl View for Repository {
    type V = RepositoryView;

    closed spec fn view(&self) -> RepositoryView {
        RepositoryView {
            experiments: self.experiments@,
            models: self.models@,
            model_versions: self.model_versions@,
            metadata: self.metadata@,
            files: self.files@,
            events: self.events@,
            metrics: self.metrics@,
            mutations: self.mutations@,
            next_metric_id: self.next_metric_id,
            next_mutation_id: self.next_mutation_id,
        }
    }
}

/// Name-value pairs of an instant in a change-log payload.
pub open spec fn clock_entries(name: Seq<char>, nanos_name: Seq<char>, w: WallClock) -> Entries {
    seq![(name, signed_decimal(w.unix_seconds as int)), (nanos_name, decimal(w.nanosecond as nat))]
}

/// The fields of an experiment row, as serialized into its change-log row.
pub open spec fn experiment_payload(e: ExperimentRow) -> Entries {
    seq![
        ("id"@, e.id@),
        ("name"@, e.name@),
        ("external_id"@, e.external_id@),
        ("owner"@, e.owner@),
        ("namespace"@, e.namespace@),
        ("ml_framework"@, signed_decimal(e.ml_framework as int)),
    ] + clock_entries("created_at"@, "created_at_nanos"@, e.created_at) + clock_entries(
        "updated_at"@,
        "updated_at_nanos"@,
        e.updated_at,
    )
}

/// The fields of a model row, as serialized into its change-log row.
pub open spec fn model_payload(m: ModelRow) -> Entries {
    seq![
        ("id"@, m.id@),
        ("name"@, m.name@),
        ("owner"@, m.owner@),
        ("namespace"@, m.namespace@),
        ("task"@, m.task@),
        ("description"@, m.description@),
    ] + clock_entries("created_at"@, "created_at_nanos"@, m.created_at) + clock_entries(
        "updated_at"@,
        "updated_at_nanos"@,
        m.updated_at,
    )
}

/// The fields of a model-version row, as serialized into its change-log row.
pub open spec fn model_version_payload(v: ModelVersionRow) -> Entries {
    seq![
        ("id"@, v.id@),
        ("name"@, v.name@),
        ("model_id"@, v.model_id@),
        ("experiment_id"@, v.experiment_id@),
        ("namespace"@, v.namespace@),
        ("version"@, v.version@),
        ("description"@, v.description@),
        ("ml_framework"@, signed_decimal(v.ml_framework as int)),
        ("unique_tags"@, v.unique_tags@),
    ] + clock_entries("created_at"@, "created_at_nanos"@, v.created_at) + clock_entries(
        "updated_at"@,
        "updated_at_nanos"@,
        v.updated_at,
    )
}

/// Whether `m` is the change-log row, numbered `id`, of the creation of the
/// object `object_id` of kind `kind` in `namespace`: unprocessed, stamped with
/// a valid time. Which payload it carries is stated by each caller.
pub open spec fn is_create_mutation(
    m: MutationRow,
    id: u64,
    object_id: Seq<char>,
    kind: MutationObject,
    namespace: Seq<char>,
) -> bool {
    &&& m.id == id
    &&& m.object_id@ == object_id
    &&& m.object_type == kind.code()
    &&& m.mutation_type == MutationType::Create.code()
    &&& m.namespace@ == namespace
    &&& m.created_at.wf()
    &&& m.processed_at is None
}

/// Whether `post` is `pre` with one creation row appended to the change log,
/// numbered by the log's counter, for the object `object_id` of kind `kind` in
/// `namespace`; every other table is unchanged.
pub open spec fn logged(
    pre: RepositoryView,
    post: RepositoryView,
    object_id: Seq<char>,
    kind: MutationObject,
    namespace: Seq<char>,
) -> bool {
    &&& post.mutations.len() == pre.mutations.len() + 1
    &&& post.mutations.drop_last() == pre.mutations
    &&& is_create_mutation(post.mutations.last(), pre.next_mutation_id, object_id, kind, namespace)
    &&& post.next_mutation_id == pre.next_mutation_id + 1
    &&& post.experiments == pre.experiments
    &&& post.models == pre.models
    &&& post.model_versions == pre.model_versions
    &&& post.metadata == pre.metadata
    &&& post.files == pre.files
    &&& post.events == pre.events
    &&& post.metrics == pre.metrics
    &&& post.next_metric_id == pre.next_metric_id
}

/// `v` with its metadata table replaced.
pub open spec fn with_metadata(v: RepositoryView, t: Seq<MetadataRow>) -> RepositoryView {
    RepositoryView { metadata: t, ..v }
}

/// `v` with its files table replaced.
pub open spec fn with_files(v: RepositoryView, t: Seq<FileRow>) -> RepositoryView {
    RepositoryView { files: t, ..v }
}

/// `v` with its events table replaced.
pub open spec fn with_events(v: RepositoryView, t: Seq<EventRow>) -> RepositoryView {
    RepositoryView { events: t, ..v }
}

/// `v` with its metrics table and counter replaced.
pub open spec fn with_metrics(v: RepositoryView, t: Seq<MetricRow>, next: u64) -> RepositoryView {
    RepositoryView { metrics: t, next_metric_id: next, ..v }
}

/// `v` with its experiments table replaced.
pub open spec fn with_experiments(v: RepositoryView, t: Seq<ExperimentRow>) -> RepositoryView {
    RepositoryView { experiments: t, ..v }
}

/// `v` with its models table replaced.
pub open spec fn with_models(v: RepositoryView, t: Seq<ModelRow>) -> RepositoryView {
    RepositoryView { models: t, ..v }
}

/// `v` with its model-versions table replaced.
pub open spec fn with_model_versions(v: RepositoryView, t: Seq<ModelVersionRow>) -> RepositoryView {
    RepositoryView { model_versions: t, ..v }
}

/// A metric sample under the number `id`.
pub open spec fn numbered(m: MetricRow, id: u64) -> MetricRow {
    MetricRow { id, ..m }
}

/// What a create of an experiment does to the state: with its id taken,
/// nothing, and it reports the experiment as existing; else the row is
/// appended, with one change-log row carrying its serialized fields.
pub open spec fn experiment_create_outcome(pre: RepositoryView, e: ExperimentRow, post: RepositoryView, exists: bool) -> bool {
    if has_row(pre.experiments, e.id@) {
        exists && post == pre
    } else {
        &&& !exists
        &&& post.experiments == pre.experiments.push(e)
        &&& logged(pre, with_experiments(post, pre.experiments), e.id@, MutationObject::Experiment, e.namespace@)
        &&& opt_view(post.mutations.last().experiment_payload) == json_of_object(experiment_payload(e))
        &&& post.mutations.last().model_payload is None
        &&& post.mutations.last().model_version_payload is None
    }
}

/// What a create of a model does to the state: with its id taken, nothing,
/// and it reports the model as existing; else the row is appended, with one
/// change-log row carrying its serialized fields.
pub open spec fn model_create_outcome(pre: RepositoryView, m: ModelRow, post: RepositoryView, exists: bool) -> bool {
    if has_row(pre.models, m.id@) {
        exists && post == pre
    } else {
        &&& !exists
        &&& post.models == pre.models.push(m)
        &&& logged(pre, with_models(post, pre.models), m.id@, MutationObject::Model, m.namespace@)
        &&& opt_view(post.mutations.last().model_payload) == json_of_object(model_payload(m))
        &&& post.mutations.last().experiment_payload is None
        &&& post.mutations.last().model_version_payload is None
    }
}

/// What a create of a model version does to the state: with its id taken,
/// nothing, and it reports the version as existing; else the row is
/// appended, with one change-log row carrying its serialized fields.
pub open spec fn model_version_create_outcome(pre: RepositoryView, v: ModelVersionRow, post: RepositoryView, exists: bool) -> bool {
    if has_row(pre.model_versions, v.id@) {
        exists && post == pre
    } else {
        &&& !exists
        &&& post.model_versions == pre.model_versions.push(v)
        &&& logged(pre, with_model_versions(post, pre.model_versions), v.id@, MutationObject::ModelVersion, v.namespace@)
        &&& opt_view(post.mutations.last().model_version_payload) == json_of_object(model_version_payload(v))
        &&& post.mutations.last().experiment_payload is None
        &&& post.mutations.last().model_payload is None
    }
}

/// Number of change-log rows that record the creation of the object `id` of
/// kind `kind`.
pub open spec fn creations_logged(log: Seq<MutationRow>, id: Seq<char>, kind: MutationObject) -> nat
    decreases log.len(),
{
    if log.len() == 0 {
        0
    } else {
        creations_logged(log.drop_last(), id, kind) + if log.last().object_id@ == id
            && log.last().object_type == kind.code() && log.last().mutation_type
            == MutationType::Create.code() {
            1nat
        } else {
            0nat
        }
    }
}

/// Every metric id is below `next`.
pub open spec fn ids_below(rows: Seq<MetricRow>, next: u64) -> bool {
    forall|i: int| 0 <= i < rows.len() ==> (#[trigger] rows[i]).id < next
}

/// Every change-log id is below `next`.
pub open spec fn log_ids_below(rows: Seq<MutationRow>, next: u64) -> bool {
    forall|i: int| 0 <= i < rows.len() ==> (#[trigger] rows[i]).id < next
}

/// A view of an optional string.
pub open spec fn opt_view(s: Option<String>) -> Option<Seq<char>> {
    match s {
        Some(v) => Some(v@),
        None => None,
    }
}

/// `table` after upserting the metadata row `row`: the row under its id has
/// its value replaced, or the row is appended when its id is new.
pub open spec fn upsert_metadata(table: Seq<MetadataRow>, row: MetadataRow) -> Seq<MetadataRow> {
    if has_row(table, row.id@) {
        let i = choose|i: int| 0 <= i < table.len() && table[i].key() == row.id@;
        table.update(i, MetadataRow { meta: row.meta, ..table[i] })
    } else {
        table.push(row)
    }
}

/// `table` after upserting each of `rows` in order.
pub open spec fn upsert_all_metadata(table: Seq<MetadataRow>, rows: Seq<MetadataRow>) -> Seq<MetadataRow>
    decreases rows.len(),
{
    if rows.len() == 0 {
        table
    } else {
        upsert_metadata(upsert_all_metadata(table, rows.drop_last()), rows.last())
    }
}

/// `table` after upserting the file row `row`: the row under its id has its
/// upload path, metadata and update time replaced, or the row is appended
/// when its id is new.
pub open spec fn upsert_file(table: Seq<FileRow>, row: FileRow) -> Seq<FileRow> {
    if has_row(table, row.id@) {
        let i = choose|i: int| 0 <= i < table.len() && table[i].key() == row.id@;
        table.update(
            i,
            FileRow {
                upload_path: row.upload_path,
                metadata: row.metadata,
                updated_at: row.updated_at,
                ..table[i]
            },
        )
    } else {
        table.push(row)
    }
}

/// `table` after upserting each of `rows` in order.
pub open spec fn upsert_all_files(table: Seq<FileRow>, rows: Seq<FileRow>) -> Seq<FileRow>
    decreases rows.len(),
{
    if rows.len() == 0 {
        table
    } else {
        upsert_file(upsert_all_files(table, rows.drop_last()), rows.last())
    }
}

fn push_pair(entries: &mut Vec<(String, String)>, key: &str, value: String)
    ensures
        final(entries).deep_view() == old(entries).deep_view().push((key@, value@)),
{
    entries.push((key.to_owned(), value));
    proof {
        assert(final(entries).deep_view() =~= old(entries).deep_view().push((key@, value@)));
    }
}

fn push_clock(entries: &mut Vec<(String, String)>, name: &str, nanos_name: &str, w: WallClock)
    ensures
        final(entries).deep_view() == old(entries).deep_view() + clock_entries(name@, nanos_name@, w),
{
    push_pair(entries, name, i64_to_decimal(w.unix_seconds));
    push_pair(entries, nanos_name, u64_to_decimal(w.nanosecond as u64));
    proof {
        assert(final(entries).deep_view() =~= old(entries).deep_view() + clock_entries(name@, nanos_name@, w));
    }
}

impl Repository {
    /// No table holds two rows with one primary key.
    pub closed spec fn wf(&self) -> bool {
        &&& keys_unique(self@.experiments)
        &&& keys_unique(self@.models)
        &&& keys_unique(self@.model_versions)
        &&& keys_unique(self@.metadata)
        &&& keys_unique(self@.files)
        &&& keys_unique(self@.events)
        &&& ids_below(self@.metrics, self@.next_metric_id)
        &&& log_ids_below(self@.mutations, self@.next_mutation_id)
    }

    /// Every stored metric and change-log id of a well-formed store is below
    /// its table's counter, so the next number handed out is fresh.
    pub proof fn lemma_ids_fresh(&self)
        requires
            self.wf(),
        ensures
            ids_below(self@.metrics, self@.next_metric_id),
            log_ids_below(self@.mutations, self@.next_mutation_id),
    {
    }

    /// Each table of a well-formed store has unique primary keys.
    pub proof fn lemma_keys_unique(&self)
        requires
            self.wf(),
        ensures
            keys_unique(self@.experiments),
            keys_unique(self@.models),
            keys_unique(self@.model_versions),
            keys_unique(self@.metadata),
            keys_unique(self@.files),
            keys_unique(self@.events),
    {
    }

    /// An empty store.
    pub fn new() -> (r: Self)
        ensures
            r.wf(),
            r@.experiments.len() == 0,
            r@.models.len() == 0,
            r@.model_versions.len() == 0,
            r@.metadata.len() == 0,
            r@.files.len() == 0,
            r@.events.len() == 0,
            r@.metrics.len() == 0,
            r@.mutations.len() == 0,
            r@.next_metric_id == 1,
            r@.next_mutation_id == 1,
    {
        Repository {
            experiments: Vec::new(),
            models: Vec::new(),
            model_versions: Vec::new(),
            metadata: Vec::new(),
            files: Vec::new(),
            events: Vec::new(),
            metrics: Vec::new(),
            mutations: Vec::new(),
            next_metric_id: 1,
            next_mutation_id: 1,
        }
    }

    /// The change log, in the order it was written.
    pub fn mutations(&self) -> (r: &Vec<MutationRow>)
        ensures
            r@ == self@.mutations,
    {
        &self.mutations
    }

    fn append_mutation(
        &mut self,
        object_id: &String,
        kind: MutationObject,
        namespace: &String,
        experiment_payload: Option<String>,
        model_payload: Option<String>,
        model_version_payload: Option<String>,
    ) -> (r: Result<(), DatastoreError>)
        requires
            old(self).wf(),
        ensures
            final(self).wf(),
            old(self)@.next_mutation_id == u64::MAX ==> r is Err && final(self)@ == old(self)@,
            old(self)@.next_mutation_id < u64::MAX ==> {
                &&& r is Ok
                &&& logged(old(self)@, final(self)@, object_id@, kind, namespace@)
                &&& final(self)@.mutations.last().experiment_payload == experiment_payload
                &&& final(self)@.mutations.last().model_payload == model_payload
                &&& final(self)@.mutations.last().model_version_payload == model_version_payload
            },
            r is Err ==> r == Err::<(), _>(DatastoreError::DatabaseError),
    {
        if self.next_mutation_id == u64::MAX {
            return Err(DatastoreError::DatabaseError);
        }
        let row = MutationRow {
            id: self.next_mutation_id,
            object_id: object_id.clone(),
            object_type: kind.to_i16(),
            mutation_type: MutationType::Create.to_i16(),
            namespace: namespace.clone(),
            experiment_payload,
            model_payload,
            model_version_payload,
            created_at: now(),
            processed_at: None,
        };
        self.mutations.push(row);
        self.next_mutation_id = self.next_mutation_id + 1;
        proof {
            assert(self@.mutations.drop_last() == old(self)@.mutations);
        }
        Ok(())
    }

    /// Writes the change-log row for the creation of `experiment`, its fields
    /// serialized into the experiment payload. Fails, changing nothing, when
    /// the payload does not encode or the log's numbering is exhausted.
    pub fn create_experiment_mutation_event(&mut self, experiment: &ExperimentRow) -> (r: Result<(), DatastoreError>)
        requires
            old(self).wf(),
        ensures
            final(self).wf(),
            json_of_object(experiment_payload(*experiment)) is None ==> r == Err::<(), _>(
                DatastoreError::JsonError) && final(self)@ == old(self)@,
            json_of_object(experiment_payload(*experiment)) is Some && old(self)@.next_mutation_id
                == u64::MAX ==> r == Err::<(), _>(DatastoreError::DatabaseError) && final(self)@
                == old(self)@,
            json_of_object(experiment_payload(*experiment)) is Some && old(self)@.next_mutation_id
                < u64::MAX ==> {
                &&& r is Ok
                &&& logged(old(self)@, final(self)@, experiment.id@, MutationObject::Experiment,
                    experiment.namespace@)
                &&& opt_view(final(self)@.mutations.last().experiment_payload) == json_of_object(
                    experiment_payload(*experiment))
                &&& final(self)@.mutations.last().model_payload is None
                &&& final(self)@.mutations.last().model_version_payload is None
            },
    {
        let mut p: Vec<(String, String)> = Vec::new();
        push_pair(&mut p, "id", experiment.id.clone());
        push_pair(&mut p, "name", experiment.name.clone());
        push_pair(&mut p, "external_id", experiment.external_id.clone());
        push_pair(&mut p, "owner", experiment.owner.clone());
        push_pair(&mut p, "namespace", experiment.namespace.clone());
        push_pair(&mut p, "ml_framework", i64_to_decimal(experiment.ml_framework as i64));
        push_clock(&mut p, "created_at", "created_at_nanos", experiment.created_at);
        push_clock(&mut p, "updated_at", "updated_at_nanos", experiment.updated_at);
        proof {
            assert(p.deep_view() =~= experiment_payload(*experiment));
        }
        let payload = match encode_object(&p) {
            Ok(s) => s,
            Err(_) => {
                return Err(DatastoreError::JsonError);
            },
        };
        self.append_mutation(&experiment.id, MutationObject::Experiment, &experiment.namespace,
            Some(payload), None, None)
    }

    /// Writes the change-log row for the creation of `model`, its fields
    /// serialized into the model payload. Fails, changing nothing, when the
    /// payload does not encode or the log's numbering is exhausted.
    pub fn create_model_mutation_event(&mut self, model: &ModelRow) -> (r: Result<(), DatastoreError>)
        requires
            old(self).wf(),
        ensures
            final(self).wf(),
            json_of_object(model_payload(*model)) is None ==> r == Err::<(), _>(
                DatastoreError::JsonError) && final(self)@ == old(self)@,
            json_of_object(model_payload(*model)) is Some && old(self)@.next_mutation_id
                == u64::MAX ==> r == Err::<(), _>(DatastoreError::DatabaseError) && final(self)@
                == old(self)@,
            json_of_object(model_payload(*model)) is Some && old(self)@.next_mutation_id
                < u64::MAX ==> {
                &&& r is Ok
                &&& logged(old(self)@, final(self)@, model.id@, MutationObject::Model, model.namespace@)
                &&& opt_view(final(self)@.mutations.last().model_payload) == json_of_object(
                    model_payload(*model))
                &&& final(self)@.mutations.last().experiment_payload is None
                &&& final(self)@.mutations.last().model_version_payload is None
            },
    {
        let mut p: Vec<(String, String)> = Vec::new();
        push_pair(&mut p, "id", model.id.clone());
        push_pair(&mut p, "name", model.name.clone());
        push_pair(&mut p, "owner", model.owner.clone());
        push_pair(&mut p, "namespace", model.namespace.clone());
        push_pair(&mut p, "task", model.task.clone());
        push_pair(&mut p, "description", model.description.clone());
        push_clock(&mut p, "created_at", "created_at_nanos", model.created_at);
        push_clock(&mut p, "updated_at", "updated_at_nanos", model.updated_at);
        proof {
            assert(p.deep_view() =~= model_payload(*model));
        }
        let payload = match encode_object(&p) {
            Ok(s) => s,
            Err(_) => {
                return Err(DatastoreError::JsonError);
            },
        };
        self.append_mutation(&model.id, MutationObject::Model, &model.namespace, None, Some(payload), None)
    }

    /// Writes the change-log row for the creation of `model_version`, its
    /// fields serialized into the model-version payload. Fails, changing
    /// nothing, when the payload does not encode or the log's numbering is
    /// exhausted.
    pub fn create_model_version_mutation_event(&mut self, model_version: &ModelVersionRow) -> (r: Result<(), DatastoreError>)
        requires
            old(self).wf(),
        ensures
            final(self).wf(),
            json_of_object(model_version_payload(*model_version)) is None ==> r == Err::<(), _>(
                DatastoreError::JsonError) && final(self)@ == old(self)@,
            json_of_object(model_version_payload(*model_version)) is Some && old(self)@.next_mutation_id
                == u64::MAX ==> r == Err::<(), _>(DatastoreError::DatabaseError) && final(self)@
                == old(self)@,
            json_of_object(model_version_payload(*model_version)) is Some && old(self)@.next_mutation_id
                < u64::MAX ==> {
                &&& r is Ok
                &&& logged(old(self)@, final(self)@, model_version.id@, MutationObject::ModelVersion,
                    model_version.namespace@)
                &&& opt_view(final(self)@.mutations.last().model_version_payload) == json_of_object(
                    model_version_payload(*model_version))
                &&& final(self)@.mutations.last().experiment_payload is None
                &&& final(self)@.mutations.last().model_payload is None
            },
    {
        let v = model_version;
        let mut p: Vec<(String, String)> = Vec::new();
        push_pair(&mut p, "id", v.id.clone());
        push_pair(&mut p, "name", v.name.clone());
        push_pair(&mut p, "model_id", v.model_id.clone());
        push_pair(&mut p, "experiment_id", v.experiment_id.clone());
        push_pair(&mut p, "namespace", v.namespace.clone());
        push_pair(&mut p, "version", v.version.clone());
        push_pair(&mut p, "description", v.description.clone());
        push_pair(&mut p, "ml_framework", i64_to_decimal(v.ml_framework as i64));
        push_pair(&mut p, "unique_tags", v.unique_tags.clone());
        push_clock(&mut p, "created_at", "created_at_nanos", v.created_at);
        push_clock(&mut p, "updated_at", "updated_at_nanos", v.updated_at);
        proof {
            assert(p.deep_view() =~= model_version_payload(*v));
        }
        let payload = match encode_object(&p) {
            Ok(s) => s,
            Err(_) => {
                return Err(DatastoreError::JsonError);
            },
        };
        self.append_mutation(&v.id, MutationObject::ModelVersion, &v.namespace, None, None, Some(payload))
    }

    /// Creates an experiment in one transaction: writes its change-log row,
    /// then inserts the row. A taken id leaves the store as it was and
    /// reports the experiment as existing.
    pub fn create_exeperiment(&mut self, experiment: ExperimentRow) -> (r: Result<CreateExperimentResult, DatastoreError>)
        requires
            old(self).wf(),
        ensures
            final(self).wf(),
            !has_row(old(self)@.experiments, experiment.id@) && json_of_object(experiment_payload(experiment)) is None ==> (r matches Err(DatastoreError::JsonError)
                && final(self)@ == old(self)@),
            !has_row(old(self)@.experiments, experiment.id@) && json_of_object(experiment_payload(experiment)) is Some && old(self)@.next_mutation_id
                == u64::MAX ==> (r matches Err(DatastoreError::DatabaseError)
                && final(self)@ == old(self)@),
            !has_row(old(self)@.experiments, experiment.id@) && json_of_object(experiment_payload(experiment)) is Some && old(self)@.next_mutation_id
                < u64::MAX ==> (r matches Ok(res) && res.id == experiment.id && experiment_create_outcome(old(self)@, experiment, final(self)@, res.exists)),
            has_row(old(self)@.experiments, experiment.id@) ==> (r matches Ok(res) && res.exists && res.id == experiment.id
                && final(self)@ == old(self)@),
    {
        let existing = find_row(&self.experiments, &experiment.id);
        if existing.is_some() {
            // The entity insert would conflict and the transaction roll back
            // whole: the state stays as it was.
            return Ok(CreateExperimentResult { exists: true, id: experiment.id.clone() });
        }
        match self.create_experiment_mutation_event(&experiment) {
            Ok(()) => {},
            Err(e) => {
                return Err(e);
            },
        }
        let experiment_id = experiment.id.clone();
        proof {
            lemma_push_unique(self@.experiments, experiment);
        }
        self.experiments.push(experiment);
        Ok(CreateExperimentResult { exists: false, id: experiment_id })
    }

    /// Creates a model in one transaction: writes its change-log row, then
    /// inserts the row. A taken id leaves the store as it was and reports
    /// the model as existing.
    pub fn create_model(&mut self, model: ModelRow) -> (r: Result<CreateModelResult, DatastoreError>)
        requires
            old(self).wf(),
        ensures
            final(self).wf(),
            !has_row(old(self)@.models, model.id@) && json_of_object(model_payload(model)) is None ==> (r matches Err(DatastoreError::JsonError)
                && final(self)@ == old(self)@),
            !has_row(old(self)@.models, model.id@) && json_of_object(model_payload(model)) is Some && old(self)@.next_mutation_id
                == u64::MAX ==> (r matches Err(DatastoreError::DatabaseError)
                && final(self)@ == old(self)@),
            !has_row(old(self)@.models, model.id@) && json_of_object(model_payload(model)) is Some && old(self)@.next_mutation_id
                < u64::MAX ==> (r matches Ok(res) && res.id == model.id && model_create_outcome(old(self)@, model, final(self)@, res.exists)),
            has_row(old(self)@.models, model.id@) ==> (r matches Ok(res) && res.exists && res.id == model.id
                && final(self)@ == old(self)@),
    {
        let existing = find_row(&self.models, &model.id);
        if existing.is_some() {
            // The entity insert would conflict and the transaction roll back
            // whole: the state stays as it was.
            return Ok(CreateModelResult { exists: true, id: model.id.clone() });
        }
        match self.create_model_mutation_event(&model) {
            Ok(()) => {},
            Err(e) => {
                return Err(e);
            },
        }
        let model_id = model.id.clone();
        proof {
            lemma_push_unique(self@.models, model);
        }
        self.models.push(model);
        Ok(CreateModelResult { exists: false, id: model_id })
    }

    /// Creates a model version in one transaction: writes its change-log row,
    /// then inserts the row. A taken id leaves the store as it was and
    /// reports the version as existing.
    pub fn create_model_version(&mut self, model_version: ModelVersionRow) -> (r: Result<CreateModelVersionResult, DatastoreError>)
        requires
            old(self).wf(),
        ensures
            final(self).wf(),
            !has_row(old(self)@.model_versions, model_version.id@) && json_of_object(model_version_payload(model_version)) is None ==> (r matches Err(DatastoreError::JsonError)
                && final(self)@ == old(self)@),
            !has_row(old(self)@.model_versions, model_version.id@) && json_of_object(model_version_payload(model_version)) is Some && old(self)@.next_mutation_id
                == u64::MAX ==> (r matches Err(DatastoreError::DatabaseError)
                && final(self)@ == old(self)@),
            !has_row(old(self)@.model_versions, model_version.id@) && json_of_object(model_version_payload(model_version)) is Some && old(self)@.next_mutation_id
                < u64::MAX ==> (r matches Ok(res) && res.id == model_version.id && model_version_create_outcome(old(self)@, model_version, final(self)@, res.exists)),
            has_row(old(self)@.model_versions, model_version.id@) ==> (r matches Ok(res) && res.exists && res.id == model_version.id
                && final(self)@ == old(self)@),
    {
        let existing = find_row(&self.model_versions, &model_version.id);
        if existing.is_some() {
            // The entity insert would conflict and the transaction roll back
            // whole: the state stays as it was.
            return Ok(CreateModelVersionResult { exists: true, id: model_version.id.clone() });
        }
        match self.create_model_version_mutation_event(&model_version) {
            Ok(()) => {},
            Err(e) => {
                return Err(e);
            },
        }
        let result = CreateModelVersionResult { exists: false, id: model_version.id.clone() };
        proof {
            lemma_push_unique(self@.model_versions, model_version);
        }
        self.model_versions.push(model_version);
        Ok(result)
    }

    /// The experiment with id `id`, if any.
    pub fn get_experiment(&self, id: &str) -> (r: Option<ExperimentRow>)
        ensures
            match r {
                Some(e) => e.id@ == id@ && self@.experiments.contains(e),
                None => !has_row(self@.experiments, id@),
            },
    {
        let key = id.to_owned();
        match find_row(&self.experiments, &key) {
            Some(i) => Some(self.experiments[i].copy()),
            None => None,
        }
    }

    /// The experiments of a namespace, in insertion order.
    pub fn list_experiments(&self, namespace: String) -> (r: Vec<ExperimentRow>)
        ensures
            r@ == in_scope(self@.experiments, namespace@),
    {
        rows_in_scope(&self.experiments, &namespace)
    }

    /// The models of a namespace, in insertion order.
    pub fn models_by_namespace(&self, namespace: String) -> (r: Vec<ModelRow>)
        ensures
            r@ == in_scope(self@.models, namespace@),
    {
        rows_in_scope(&self.models, &namespace)
    }

    /// The versions of a model, in insertion order.
    pub fn model_versions_for_model(&self, model_id: String) -> (r: Vec<ModelVersionRow>)
        ensures
            r@ == in_scope(self@.model_versions, model_id@),
    {
        rows_in_scope(&self.model_versions, &model_id)
    }

    /// The metadata rows of an object, in insertion order.
    pub fn get_metadata(&self, parent_id: String) -> (r: Vec<MetadataRow>)
        ensures
            r@ == in_scope(self@.metadata, parent_id@),
    {
        rows_in_scope(&self.metadata, &parent_id)
    }

    /// The file rows of an object, in insertion order.
    pub fn get_files(&self, parent_id: String) -> (r: Vec<FileRow>)
        ensures
            r@ == in_scope(self@.files, parent_id@),
    {
        rows_in_scope(&self.files, &parent_id)
    }

    /// The events of an object, in insertion order.
    pub fn events_for_object(&self, parent_id: String) -> (r: Vec<EventRow>)
        ensures
            r@ == in_scope(self@.events, parent_id@),
    {
        rows_in_scope(&self.events, &parent_id)
    }

    /// The metric samples of an object, in insertion order.
    pub fn metrics(&self, object_id: String) -> (r: Vec<MetricRow>)
        ensures
            r@ == in_scope(self@.metrics, object_id@),
    {
        rows_in_scope(&self.metrics, &object_id)
    }

    /// Upserts metadata rows in order: a row whose id is present replaces only
    /// the stored value; a row with a new id is appended.
    pub fn update_metadata(&mut self, meta: Vec<MetadataRow>)
        requires
            old(self).wf(),
        ensures
            final(self).wf(),
            final(self)@ == with_metadata(old(self)@, upsert_all_metadata(old(self)@.metadata, meta@)),
    {
        let ghost pre = self@;
        let mut i: usize = 0;
        while i < meta.len()
            invariant
                self.wf(),
                i <= meta@.len(),
                self@ == with_metadata(pre, upsert_all_metadata(pre.metadata, meta@.take(i as int))),
            decreases meta@.len() - i,
        {
            let m = &meta[i];
            let ghost table = self@.metadata;
            match find_row(&self.metadata, &m.id) {
                Some(j) => {
                    proof {
                        lemma_unique_choice(table, j as int);
                    }
                    let cur = &self.metadata[j];
                    let row = MetadataRow {
                        id: cur.id.clone(),
                        parent_id: cur.parent_id.clone(),
                        name: cur.name.clone(),
                        meta: m.meta.clone(),
                        created_at: cur.created_at,
                        updated_at: cur.updated_at,
                    };
                    proof {
                        lemma_update_unique(table, j as int, row);
                    }
                    self.metadata.set(j, row);
                },
                None => {
                    let row = m.copy();
                    proof {
                        lemma_push_unique(table, row);
                    }
                    self.metadata.push(row);
                },
            }
            proof {
                assert(meta@.take(i + 1).drop_last() == meta@.take(i as int));
                assert(meta@.take(i + 1).last() == meta@[i as int]);
            }
            i = i + 1;
        }
        proof {
            assert(meta@.take(meta@.len() as int) == meta@);
        }
    }

    /// Upserts file rows in order: a row whose id is present replaces the
    /// stored upload path, metadata and update time; a row with a new id is
    /// appended.
    pub fn create_files(&mut self, files: Vec<FileRow>)
        requires
            old(self).wf(),
        ensures
            final(self).wf(),
            final(self)@ == with_files(old(self)@, upsert_all_files(old(self)@.files, files@)),
    {
        let ghost pre = self@;
        let mut i: usize = 0;
        while i < files.len()
            invariant
                self.wf(),
                i <= files@.len(),
                self@ == with_files(pre, upsert_all_files(pre.files, files@.take(i as int))),
            decreases files@.len() - i,
        {
            let f = &files[i];
            let ghost table = self@.files;
            match find_row(&self.files, &f.id) {
                Some(j) => {
                    proof {
                        lemma_unique_choice(table, j as int);
                    }
                    let cur = &self.files[j];
                    let row = FileRow {
                        id: cur.id.clone(),
                        parent_id: cur.parent_id.clone(),
                        src_path: cur.src_path.clone(),
                        upload_path: copy_opt_string(&f.upload_path),
                        file_type: cur.file_type.clone(),
                        metadata: f.metadata.clone(),
                        artifact_name: cur.artifact_name.clone(),
                        artifact_id: cur.artifact_id.clone(),
                        created_at: cur.created_at,
                        updated_at: f.updated_at,
                    };
                    proof {
                        lemma_update_unique(table, j as int, row);
                    }
                    self.files.set(j, row);
                },
                None => {
                    let row = f.copy();
                    proof {
                        lemma_push_unique(table, row);
                    }
                    self.files.push(row);
                },
            }
            proof {
                assert(files@.take(i + 1).drop_last() == files@.take(i as int));
                assert(files@.take(i + 1).last() == files@[i as int]);
            }
            i = i + 1;
        }
        proof {
            assert(files@.take(files@.len() as int) == files@);
        }
    }

    /// Inserts event rows. Like an insert without a conflict policy, the
    /// batch is refused whole when an id is already stored or repeats within
    /// the batch.
    pub fn create_events(&mut self, events: Vec<EventRow>) -> (r: Result<(), DatastoreError>)
        requires
            old(self).wf(),
        ensures
            final(self).wf(),
            r is Ok <==> keys_unique(old(self)@.events + events@),
            r is Ok ==> final(self)@ == with_events(old(self)@, old(self)@.events + events@),
            r is Err ==> r == Err::<(), _>(DatastoreError::DatabaseError) && final(self)@ == old(self)@,
    {
        let mut combined: Vec<EventRow> = Vec::new();
        let mut k: usize = 0;
        while k < self.events.len()
            invariant
                k <= self@.events.len(),
                combined@ == self@.events.take(k as int),
            decreases self@.events.len() - k,
        {
            combined.push(self.events[k].copy());
            proof {
                assert(self@.events.take(k + 1) == self@.events.take(k as int).push(self@.events[k as int]));
            }
            k = k + 1;
        }
        proof {
            assert(self@.events.take(self@.events.len() as int) == self@.events);
        }
        let ghost base = self@.events;
        let mut i: usize = 0;
        while i < events.len()
            invariant
                i <= events@.len(),
                combined@ == base + events@.take(i as int),
                keys_unique(combined@),
                base == old(self)@.events,
                self@ == old(self)@,
                self.wf(),
            decreases events@.len() - i,
        {
            let e = &events[i];
            match find_row(&combined, &e.id) {
                Some(j) => {
                    proof {
                        let all = base + events@;
                        assert(combined@[j as int] == all[j as int]);
                        assert(all[base.len() + i] == events@[i as int]);
                        assert(j < base.len() + i);
                        assert(all[j as int].key() == all[base.len() + i].key());
                        assert(!keys_unique(all));
                    }
                    return Err(DatastoreError::DatabaseError);
                },
                None => {
                    proof {
                        lemma_push_unique(combined@, *e);
                    }
                    combined.push(e.copy());
                    proof {
                        assert(base + events@.take(i + 1) == (base + events@.take(i as int)).push(events@[i as int]));
                    }
                },
            }
            i = i + 1;
        }
        proof {
            assert(events@.take(events@.len() as int) == events@);
        }
        self.events = combined;
        Ok(())
    }

    /// Appends metric samples, numbering them from the table's counter. Fails,
    /// changing nothing, when the numbering would overflow.
    pub fn log_metrics(&mut self, metrics: Vec<MetricRow>) -> (r: Result<(), DatastoreError>)
        requires
            old(self).wf(),
        ensures
            final(self).wf(),
            r is Ok <==> old(self)@.next_metric_id + metrics@.len() <= u64::MAX,
            r is Err ==> r == Err::<(), _>(DatastoreError::DatabaseError) && final(self)@ == old(self)@,
            r is Ok ==> {
                &&& final(self)@ == with_metrics(old(self)@, final(self)@.metrics,
                    (old(self)@.next_metric_id + metrics@.len()) as u64)
                &&& final(self)@.metrics.len() == old(self)@.metrics.len() + metrics@.len()
                &&& final(self)@.metrics.take(old(self)@.metrics.len() as int) == old(self)@.metrics
                &&& forall|k: int| 0 <= k < metrics@.len() ==> #[trigger] final(self)@.metrics[old(
                    self)@.metrics.len() + k] == numbered(metrics@[k], (old(self)@.next_metric_id + k) as u64)
            },
    {
        if self.next_metric_id > u64::MAX - (metrics.len() as u64) {
            return Err(DatastoreError::DatabaseError);
        }
        let ghost pre = self@;
        let mut i: usize = 0;
        while i < metrics.len()
            invariant
                self.wf(),
                i <= metrics@.len(),
                pre.next_metric_id + metrics@.len() <= u64::MAX,
                self@ == with_metrics(pre, self@.metrics, (pre.next_metric_id + i) as u64),
                self@.metrics.len() == pre.metrics.len() + i,
                self@.metrics.take(pre.metrics.len() as int) == pre.metrics,
                forall|k: int| 0 <= k < i ==> #[trigger] self@.metrics[pre.metrics.len() + k] == numbered(
                    metrics@[k], (pre.next_metric_id + k) as u64),
            decreases metrics@.len() - i,
        {
            let m = &metrics[i];
            let row = MetricRow {
                id: self.next_metric_id,
                object_id: m.object_id.clone(),
                name: m.name.clone(),
                tensor: copy_opt_string(&m.tensor),
                float_value: m.float_value,
                step: m.step,
                wall_clock: m.wall_clock,
                created_at: m.created_at,
            };
            let ghost before = self@.metrics;
            self.metrics.push(row);
            self.next_metric_id = self.next_metric_id + 1;
            proof {
                assert(self@.metrics.take(pre.metrics.len() as int) == pre.metrics);
                assert forall|j: int| 0 <= j < self@.metrics.len() implies (#[trigger] self@.metrics[j]).id
                    < self@.next_metric_id by {
                    if j < before.len() {
                        assert(self@.metrics[j] == before[j]);
                    }
                }
            }
            i = i + 1;
        }
        Ok(())
    }
}


/// Creating the same experiment twice from a state without it: the first
/// create inserts it and reports it new, the second changes nothing and
/// reports it existing; one row holds its id, and exactly one change-log row
/// records its creation beyond those there before.
pub proof fn law_idempotent_experiment_create(
    s0: RepositoryView,
    e: ExperimentRow,
    s1: RepositoryView,
    x1: bool,
    s2: RepositoryView,
    x2: bool,
)
    requires
        keys_unique(s0.experiments),
        !has_row(s0.experiments, e.id@),
        experiment_create_outcome(s0, e, s1, x1),
        experiment_create_outcome(s1, e, s2, x2),
    ensures
        !x1,
        x2,
        s2 == s1,
        count_key(s2.experiments, e.id@) == 1,
        creations_logged(s2.mutations, e.id@, MutationObject::Experiment) == creations_logged(
            s0.mutations, e.id@, MutationObject::Experiment) + 1,
{
    lemma_push_unique(s0.experiments, e);
    assert(s1.experiments.last() == e);
    assert(has_row(s1.experiments, e.id@)) by {
        assert(s1.experiments[s1.experiments.len() - 1].key() == e.id@);
    }
    lemma_unique_key_count(s1.experiments, s1.experiments.len() - 1);
}

/// Creating the same model twice from a state without it: the first create
/// inserts it and reports it new, the second changes nothing and reports it
/// existing; one row holds its id, and exactly one change-log row records its
/// creation beyond those there before.
pub proof fn law_idempotent_model_create(
    s0: RepositoryView,
    m: ModelRow,
    s1: RepositoryView,
    x1: bool,
    s2: RepositoryView,
    x2: bool,
)
    requires
        keys_unique(s0.models),
        !has_row(s0.models, m.id@),
        model_create_outcome(s0, m, s1, x1),
        model_create_outcome(s1, m, s2, x2),
    ensures
        !x1,
        x2,
        s2 == s1,
        count_key(s2.models, m.id@) == 1,
        creations_logged(s2.mutations, m.id@, MutationObject::Model) == creations_logged(
            s0.mutations, m.id@, MutationObject::Model) + 1,
{
    lemma_push_unique(s0.models, m);
    assert(s1.models.last() == m);
    assert(has_row(s1.models, m.id@)) by {
        assert(s1.models[s1.models.len() - 1].key() == m.id@);
    }
    lemma_unique_key_count(s1.models, s1.models.len() - 1);
}

/// Creating the same model version twice from a state without it: the first
/// create inserts it and reports it new, the second changes nothing and
/// reports it existing; one row holds its id, and exactly one change-log row
/// records its creation beyond those there before.
pub proof fn law_idempotent_model_version_create(
    s0: RepositoryView,
    v: ModelVersionRow,
    s1: RepositoryView,
    x1: bool,
    s2: RepositoryView,
    x2: bool,
)
    requires
        keys_unique(s0.model_versions),
        !has_row(s0.model_versions, v.id@),
        model_version_create_outcome(s0, v, s1, x1),
        model_version_create_outcome(s1, v, s2, x2),
    ensures
        !x1,
        x2,
        s2 == s1,
        count_key(s2.model_versions, v.id@) == 1,
        creations_logged(s2.mutations, v.id@, MutationObject::ModelVersion) == creations_logged(
            s0.mutations, v.id@, MutationObject::ModelVersion) + 1,
{
    lemma_push_unique(s0.model_versions, v);
    assert(s1.model_versions.last() == v);
    assert(has_row(s1.model_versions, v.id@)) by {
        assert(s1.model_versions[s1.model_versions.len() - 1].key() == v.id@);
    }
    lemma_unique_key_count(s1.model_versions, s1.model_versions.len() - 1);
}

/// Two metadata upserts under one id leave exactly one row with that id,
/// holding the second value.
pub proof fn law_metadata_upsert(table: Seq<MetadataRow>, first: MetadataRow, second: MetadataRow)
    requires
        keys_unique(table),
        first.id@ == second.id@,
    ensures
        ({
            let t = upsert_all_metadata(table, seq![first, second]);
            &&& keys_unique(t)
            &&& count_key(t, second.id@) == 1
            &&& exists|i: int| 0 <= i < t.len() && t[i].id@ == second.id@ && t[i].meta == second.meta
        }),
{
    let s = seq![first, second];
    assert(s.drop_last() == seq![first]);
    assert(seq![first].drop_last() == Seq::<MetadataRow>::empty());
    assert(upsert_all_metadata(table, Seq::<MetadataRow>::empty()) == table);
    assert(seq![first].last() == first);
    assert(s.last() == second);
    let t1 = upsert_all_metadata(table, seq![first]);
    assert(t1 == upsert_metadata(upsert_all_metadata(table, seq![first].drop_last()), first));
    assert(t1 == upsert_metadata(table, first));
    lemma_upsert_metadata_keeps(table, first);
    let t = upsert_metadata(t1, second);
    assert(upsert_all_metadata(table, s) == t);
    lemma_upsert_metadata_keeps(t1, second);
    let i = lemma_upsert_metadata_holds(t1, second);
    lemma_unique_key_count(t, i);
}

proof fn lemma_upsert_metadata_keeps(table: Seq<MetadataRow>, row: MetadataRow)
    requires
        keys_unique(table),
    ensures
        keys_unique(upsert_metadata(table, row)),
        has_row(upsert_metadata(table, row), row.id@),
{
    if has_row(table, row.id@) {
        let i = choose|i: int| 0 <= i < table.len() && table[i].key() == row.id@;
        let nr = MetadataRow { meta: row.meta, ..table[i] };
        lemma_update_unique(table, i, nr);
        assert(upsert_metadata(table, row)[i].key() == row.id@);
    } else {
        lemma_push_unique(table, row);
        assert(upsert_metadata(table, row)[table.len() as int].key() == row.id@);
    }
}

proof fn lemma_upsert_metadata_holds(table: Seq<MetadataRow>, row: MetadataRow) -> (i: int)
    requires
        keys_unique(table),
    ensures
        0 <= i < upsert_metadata(table, row).len(),
        upsert_metadata(table, row)[i].id@ == row.id@,
        upsert_metadata(table, row)[i].meta == row.meta,
{
    if has_row(table, row.id@) {
        choose|i: int| 0 <= i < table.len() && table[i].key() == row.id@
    } else {
        table.len() as int
    }
}

} // verus!
