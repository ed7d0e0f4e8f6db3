//! The machine protocol of the commands for backend plugins: each event is one JSON
//! object with the version of the protocol and the name of the event.

use vstd::prelude::*;

use crate::json;
use crate::json::{Json, JsonNumber, JsonView};
use crate::text;

verus! {

/// The makers of backends.
#[derive(Clone, Copy, Debug, PartialEq, Eq, Structural)]
pub enum BackendVendor {
    Cuda,
    Hip,
    Vulkan,
}

/// The name of a maker.
pub open spec fn vendor_text(vendor: BackendVendor) -> Seq<char> {
    match vendor {
        BackendVendor::Cuda => "cuda"@,
        BackendVendor::Hip => "hip"@,
        BackendVendor::Vulkan => "vulkan"@,
    }
}

/// Reads the name of a maker.
pub fn provider_vendor(provider: &str) -> (vendor: BackendVendor)
    requires
        provider@ == "cuda"@ || provider@ == "hip"@ || provider@ == "vulkan"@,
    ensures
        vendor_text(vendor) == provider@,
{
    if text::same_text(provider, "cuda") {
        BackendVendor::Cuda
    } else if text::same_text(provider, "hip") {
        BackendVendor::Hip
    } else {
        BackendVendor::Vulkan
    }
}

/// A command for backend plugins.
#[derive(Clone, Copy, Debug, PartialEq, Eq, Structural)]
pub enum BackendPluginCommand {
    Status,
    DescribeProvider,
    PrepareProvider,
    Install,
    Activate,
    InstallActivate,
    InstallActivateProvider,
    PrepareQualification,
    ClearQualification,
    Deactivate,
    Gc,
    List,
    Uninstall,
    Import,
}

/// How a command for backend plugins is carried out.
#[derive(Clone, Copy, Debug, PartialEq, Eq, Structural)]
pub struct PluginPlan {
    /// Whether the catalog is read first.
    pub reads_catalog: bool,
    /// Whether progress is reported on the way.
    pub reports_progress: bool,
    /// Whether a failure is an event of the protocol as well.
    pub reports_failure: bool,
}

/// How a command for backend plugins is carried out.
pub open spec fn plugin_plan(command: BackendPluginCommand) -> PluginPlan {
    let provider = command == BackendPluginCommand::PrepareProvider || command
        == BackendPluginCommand::InstallActivateProvider || command == BackendPluginCommand::Import;
    PluginPlan {
        reads_catalog: provider || command == BackendPluginCommand::DescribeProvider || command
            == BackendPluginCommand::Install || command == BackendPluginCommand::Activate || command
            == BackendPluginCommand::InstallActivate || command
            == BackendPluginCommand::PrepareQualification,
        reports_progress: provider || command == BackendPluginCommand::Install || command
            == BackendPluginCommand::InstallActivate || command
            == BackendPluginCommand::PrepareQualification,
        reports_failure: provider,
    }
}

/// Decides how a command for backend plugins is carried out.
pub fn backend_plugin_command(command: BackendPluginCommand) -> (plan: PluginPlan)
    ensures
        plan == plugin_plan(command),
{
    match command {
        BackendPluginCommand::PrepareProvider
        | BackendPluginCommand::InstallActivateProvider
        | BackendPluginCommand::Import => PluginPlan {
            reads_catalog: true,
            reports_progress: true,
            reports_failure: true,
        },
        BackendPluginCommand::Install
        | BackendPluginCommand::InstallActivate
        | BackendPluginCommand::PrepareQualification => PluginPlan {
            reads_catalog: true,
            reports_progress: true,
            reports_failure: false,
        },
        BackendPluginCommand::DescribeProvider | BackendPluginCommand::Activate => PluginPlan {
            reads_catalog: true,
            reports_progress: false,
            reports_failure: false,
        },
        _ => PluginPlan { reads_catalog: false, reports_progress: false, reports_failure: false },
    }
}

/// Decides for which device a pack is installed: for the one it is made for, or for
/// none in particular where the maker's packs serve all. Nothing is installed
/// otherwise.
pub fn install_target(vendor: BackendVendor, targets: &Vec<String>) -> (result: Result<
    Option<String>,
    String,
>)
    ensures
        match result {
            Ok(Some(target)) => targets@.len() == 1 && target@ == targets@[0]@,
            Ok(None) => targets@.len() == 0 && vendor == BackendVendor::Vulkan,
            Err(message) => {
                &&& targets@.len() > 1 || (targets@.len() == 0 && vendor != BackendVendor::Vulkan)
                &&& message@
                    == "install-only requires one target-scoped pack or one generic Vulkan pack"@
            },
        },
{
    if targets.len() == 1 {
        return Ok(Some(targets[0].as_str().to_owned()));
    }
    if targets.len() == 0 && vendor == BackendVendor::Vulkan {
        return Ok(None);
    }
    Err("install-only requires one target-scoped pack or one generic Vulkan pack".to_owned())
}

/// The fields of an object, as plain values.
pub open spec fn fields_of(fields: Seq<(String, Json)>) -> Seq<(Seq<char>, JsonView)> {
    fields.map_values(|field: (String, Json)| (field.0@, field.1@))
}

proof fn lemma_object(fields: Vec<(String, Json)>)
    ensures
        json::json_view(Json::Object(fields)) == JsonView::Object(fields_of(fields@)),
{
    let viewed = json::json_view(Json::Object(fields));
    assert(viewed is Object);
    assert(viewed->Object_0 =~= fields_of(fields@));
}

/// The place of the first field with a name, or the number of fields.
pub open spec fn place_of(fields: Seq<(Seq<char>, JsonView)>, name: Seq<char>) -> int {
    JsonView::field_position(fields, name, 0)
}

/// Fields with one of them given a value: in its place if it is there, and at the
/// end if not.
pub open spec fn with_field(
    fields: Seq<(Seq<char>, JsonView)>,
    name: Seq<char>,
    value: JsonView,
) -> Seq<(Seq<char>, JsonView)> {
    if place_of(fields, name) < fields.len() {
        fields.update(place_of(fields, name), (name, value))
    } else {
        fields.push((name, value))
    }
}

proof fn lemma_place(fields: Seq<(Seq<char>, JsonView)>, name: Seq<char>, from: int, at: int)
    requires
        0 <= from <= at <= fields.len(),
        forall|k: int| from <= k < at ==> (#[trigger] fields[k]).0 != name,
        at < fields.len() ==> fields[at].0 == name,
    ensures
        JsonView::field_position(fields, name, from) == at,
    decreases at - from,
{
    if from < at {
        lemma_place(fields, name, from + 1, at);
    }
}

proof fn lemma_first_place(fields: Seq<(Seq<char>, JsonView)>, name: Seq<char>, from: int)
    requires
        0 <= from <= fields.len(),
    ensures
        ({
            let at = JsonView::field_position(fields, name, from);
            &&& from <= at <= fields.len()
            &&& at < fields.len() ==> fields[at].0 == name
            &&& forall|k: int| from <= k < at ==> (#[trigger] fields[k]).0 != name
        }),
    decreases fields.len() - from,
{
    if from < fields.len() && fields[from].0 != name {
        lemma_first_place(fields, name, from + 1);
    }
}

/// Giving a field a value sets that field and no other.
pub proof fn law_one_field_is_set(
    fields: Seq<(Seq<char>, JsonView)>,
    name: Seq<char>,
    value: JsonView,
    other: Seq<char>,
)
    ensures
        JsonView::Object(with_field(fields, name, value)).field(name) == Some(value),
        other != name ==> JsonView::Object(with_field(fields, name, value)).field(other)
            == JsonView::Object(fields).field(other),
{
    let after = with_field(fields, name, value);
    let at = place_of(fields, name);
    lemma_first_place(fields, name, 0);
    assert forall|k: int| 0 <= k < at implies (#[trigger] after[k]).0 != name by {
        assert(after[k] == fields[k]);
    }
    lemma_place(after, name, 0, at);
    if other != name {
        let there = place_of(fields, other);
        lemma_first_place(fields, other, 0);
        assert forall|k: int| 0 <= k < there implies (#[trigger] after[k]).0 != other by {
            if k != at {
                assert(after[k] == fields[k]);
            }
        }
        if there < fields.len() {
            assert(after[there] == fields[there]);
            lemma_place(after, other, 0, there);
        } else {
            assert forall|k: int| 0 <= k < after.len() implies (#[trigger] after[k]).0 != other by {
                if k < fields.len() && k != at {
                    assert(after[k] == fields[k]);
                    assert(fields[k].0 != other);
                }
            }
            lemma_place(after, other, 0, after.len() as int);
        }
    }
}

fn set_field(fields: &mut Vec<(String, Json)>, name: &str, value: Json)
    ensures
        fields_of(final(fields)@) == with_field(fields_of(old(fields)@), name@, value@),
{
    let ghost before = fields_of(fields@);
    let mut at: usize = 0;
    while at < fields.len() && !text::same_text(fields[at].0.as_str(), name)
        invariant
            fields@ == old(fields)@,
            before == fields_of(fields@),
            at <= fields@.len(),
            forall|k: int| 0 <= k < at ==> (#[trigger] before[k]).0 != name@,
        decreases fields@.len() - at,
    {
        assert(before[at as int].0 == fields@[at as int].0@);
        at += 1;
    }
    proof {
        if at < fields@.len() {
            assert(before[at as int].0 == fields@[at as int].0@);
        }
        lemma_place(before, name@, 0, at as int);
    }
    let ghost shown = value@;
    if at < fields.len() {
        fields.set(at, (name.to_owned(), value));
        assert(fields_of(fields@) =~= before.update(at as int, (name@, shown)));
    } else {
        fields.push((name.to_owned(), value));
        assert(fields_of(fields@) =~= before.push((name@, shown)));
    }
}

fn number(value: u64) -> (json: Json)
    ensures
        json@ == JsonView::Number(JsonNumber::Unsigned(value)),
{
    Json::Number(JsonNumber::Unsigned(value))
}

fn string(value: &str) -> (json: Json)
    ensures
        json@ == JsonView::Text(value@),
{
    Json::Text(value.to_owned())
}

/// The number that stands for the version of the protocol.
pub open spec fn version() -> JsonView {
    JsonView::Number(JsonNumber::Unsigned(1))
}

/// The fields of a value, if it is an object.
pub open spec fn object_fields(value: JsonView) -> Seq<(Seq<char>, JsonView)> {
    match value {
        JsonView::Object(fields) => fields,
        _ => seq![],
    }
}

/// The last event of a command: what the command came to, with the version of the
/// protocol and the name of the event, which nothing in it can stand in for.
pub open spec fn terminal_view(event: Seq<char>, value: JsonView) -> JsonView {
    JsonView::Object(
        with_field(
            with_field(object_fields(value), "schema_version"@, version()),
            "event"@,
            JsonView::Text(event),
        ),
    )
}

/// Renders the last event of a command.
pub fn terminal_record(event: &str, value: Json) -> (record: Json)
    ensures
        record@ == terminal_view(event@, value@),
{
    let mut fields: Vec<(String, Json)> = match value {
        Json::Object(fields) => {
            proof {
                lemma_object(fields);
            }
            fields
        },
        _ => {
            let empty: Vec<(String, Json)> = Vec::new();
            assert(fields_of(empty@) =~= seq![]);
            empty
        },
    };
    set_field(&mut fields, "schema_version", number(1));
    set_field(&mut fields, "event", string(event));
    proof {
        lemma_object(fields);
    }
    Json::Object(fields)
}

/// Every last event has the version of the protocol and its own name, whatever the
/// command came to, and keeps every other field.
pub proof fn law_terminal_records_carry_the_envelope(
    event: Seq<char>,
    value: JsonView,
    name: Seq<char>,
)
    ensures
        terminal_view(event, value).field("schema_version"@) == Some(version()),
        terminal_view(event, value).field("event"@) == Some(JsonView::Text(event)),
        name != "schema_version"@ && name != "event"@ ==> terminal_view(event, value).field(name)
            == JsonView::Object(object_fields(value)).field(name),
{
    reveal_strlit("schema_version");
    reveal_strlit("event");
    assert("schema_version"@.len() != "event"@.len());
    let fields = object_fields(value);
    let versioned = with_field(fields, "schema_version"@, version());
    law_one_field_is_set(fields, "schema_version"@, version(), name);
    law_one_field_is_set(versioned, "event"@, JsonView::Text(event), "schema_version"@);
    law_one_field_is_set(versioned, "event"@, JsonView::Text(event), name);
}

/// How far the download of a pack has come.
#[allow(inconsistent_fields)]
pub enum PullProgress {
    UsingInstalled,
    DownloadStarted { bytes_total: Option<u64>, resume_from: u64 },
    Downloading { bytes_done: u64, bytes_total: Option<u64> },
    Verifying { bytes_done: u64 },
    Installed,
}

/// A number, or that there is none.
pub open spec fn optional_number(value: Option<u64>) -> JsonView {
    match value {
        Some(value) => JsonView::Number(JsonNumber::Unsigned(value)),
        None => JsonView::Null,
    }
}

fn optional(value: Option<u64>) -> (json: Json)
    ensures
        json@ == optional_number(value),
{
    match value {
        Some(value) => number(value),
        None => Json::Null,
    }
}

/// The event for how far a download has come.
pub open spec fn progress_fields(progress: PullProgress) -> Seq<(Seq<char>, JsonView)> {
    match progress {
        PullProgress::UsingInstalled => seq![("event"@, JsonView::Text("using_installed"@))],
        PullProgress::DownloadStarted { bytes_total, resume_from } => seq![
            ("event"@, JsonView::Text("download_started"@)),
            ("bytes_total"@, optional_number(bytes_total)),
            ("resume_from"@, JsonView::Number(JsonNumber::Unsigned(resume_from))),
        ],
        PullProgress::Downloading { bytes_done, bytes_total } => seq![
            ("event"@, JsonView::Text("downloading"@)),
            ("bytes_done"@, JsonView::Number(JsonNumber::Unsigned(bytes_done))),
            ("bytes_total"@, optional_number(bytes_total)),
        ],
        PullProgress::Verifying { bytes_done } => seq![
            ("event"@, JsonView::Text("verifying"@)),
            ("bytes_done"@, JsonView::Number(JsonNumber::Unsigned(bytes_done))),
        ],
        PullProgress::Installed => seq![("event"@, JsonView::Text("installed_bytes"@))],
    }
}

fn push_field(fields: &mut Vec<(String, Json)>, name: &str, value: Json)
    ensures
        fields_of(final(fields)@) == fields_of(old(fields)@).push((name@, value@)),
{
    let ghost shown = value@;
    fields.push((name.to_owned(), value));
    assert(fields_of(fields@) =~= fields_of(old(fields)@).push((name@, shown)));
}

fn no_fields() -> (fields: Vec<(String, Json)>)
    ensures
        fields_of(fields@) == Seq::<(Seq<char>, JsonView)>::empty(),
{
    let fields: Vec<(String, Json)> = Vec::new();
    assert(fields_of(fields@) =~= Seq::<(Seq<char>, JsonView)>::empty());
    fields
}

/// Renders the event for how far a download has come.
pub fn progress_record(progress: PullProgress) -> (record: Json)
    ensures
        record@ == JsonView::Object(
            with_field(progress_fields(progress), "schema_version"@, version()),
        ),
{
    let mut fields = no_fields();
    match progress {
        PullProgress::UsingInstalled => {
            push_field(&mut fields, "event", string("using_installed"));
        },
        PullProgress::DownloadStarted { bytes_total, resume_from } => {
            push_field(&mut fields, "event", string("download_started"));
            push_field(&mut fields, "bytes_total", optional(bytes_total));
            push_field(&mut fields, "resume_from", number(resume_from));
        },
        PullProgress::Downloading { bytes_done, bytes_total } => {
            push_field(&mut fields, "event", string("downloading"));
            push_field(&mut fields, "bytes_done", number(bytes_done));
            push_field(&mut fields, "bytes_total", optional(bytes_total));
        },
        PullProgress::Verifying { bytes_done } => {
            push_field(&mut fields, "event", string("verifying"));
            push_field(&mut fields, "bytes_done", number(bytes_done));
        },
        PullProgress::Installed => {
            push_field(&mut fields, "event", string("installed_bytes"));
        },
    }
    assert(fields_of(fields@) =~= progress_fields(progress));
    set_field(&mut fields, "schema_version", number(1));
    proof {
        lemma_object(fields);
    }
    Json::Object(fields)
}

/// The event for a command of a provider that failed.
pub fn failure_record(class: &str, code: &str, message: &str) -> (record: Json)
    ensures
        record@ == JsonView::Object(
            seq![
                ("schema_version"@, version()),
                ("event"@, JsonView::Text("failed"@)),
                ("class"@, JsonView::Text(class@)),
                ("code"@, JsonView::Text(code@)),
                ("message"@, JsonView::Text(message@)),
            ],
        ),
{
    let mut fields = no_fields();
    push_field(&mut fields, "schema_version", number(1));
    push_field(&mut fields, "event", string("failed"));
    push_field(&mut fields, "class", string(class));
    push_field(&mut fields, "code", string(code));
    push_field(&mut fields, "message", string(message));
    assert(fields_of(fields@) =~= seq![
        ("schema_version"@, version()),
        ("event"@, JsonView::Text("failed"@)),
        ("class"@, JsonView::Text(class@)),
        ("code"@, JsonView::Text(code@)),
        ("message"@, JsonView::Text(message@)),
    ]);
    proof {
        lemma_object(fields);
    }
    Json::Object(fields)
}

/// An event that says no more than its name.
pub fn plain_record(event: &str) -> (record: Json)
    ensures
        record@ == JsonView::Object(
            seq![("schema_version"@, version()), ("event"@, JsonView::Text(event@))],
        ),
{
    let mut fields = no_fields();
    push_field(&mut fields, "schema_version", number(1));
    push_field(&mut fields, "event", string(event));
    assert(fields_of(fields@) =~= seq![
        ("schema_version"@, version()),
        ("event"@, JsonView::Text(event@)),
    ]);
    proof {
        lemma_object(fields);
    }
    Json::Object(fields)
}

/// The event for the packs of a provider that were removed.
pub fn uninstalled_record(provider: &str, removed: u64, reclaimed: u64) -> (record: Json)
    ensures
        record@ == JsonView::Object(
            seq![
                ("schema_version"@, version()),
                ("event"@, JsonView::Text("uninstalled"@)),
                ("provider"@, JsonView::Text(provider@)),
                ("removed_pack_directories"@, JsonView::Number(JsonNumber::Unsigned(removed))),
                ("reclaimed_bytes"@, JsonView::Number(JsonNumber::Unsigned(reclaimed))),
            ],
        ),
{
    let mut fields = no_fields();
    push_field(&mut fields, "schema_version", number(1));
    push_field(&mut fields, "event", string("uninstalled"));
    push_field(&mut fields, "provider", string(provider));
    push_field(&mut fields, "removed_pack_directories", number(removed));
    push_field(&mut fields, "reclaimed_bytes", number(reclaimed));
    assert(fields_of(fields@) =~= seq![
        ("schema_version"@, version()),
        ("event"@, JsonView::Text("uninstalled"@)),
        ("provider"@, JsonView::Text(provider@)),
        ("removed_pack_directories"@, JsonView::Number(JsonNumber::Unsigned(removed))),
        ("reclaimed_bytes"@, JsonView::Number(JsonNumber::Unsigned(reclaimed))),
    ]);
    proof {
        lemma_object(fields);
    }
    Json::Object(fields)
}

/// The bytes of files in all.
pub open spec fn total_bytes(sizes: Seq<u64>) -> int
    decreases sizes.len(),
{
    if sizes.len() == 0 {
        0
    } else {
        total_bytes(sizes.drop_last()) + sizes.last()
    }
}

proof fn lemma_total_grows(sizes: Seq<u64>, count: int)
    requires
        0 <= count <= sizes.len(),
    ensures
        0 <= total_bytes(sizes.take(count)) <= total_bytes(sizes),
    decreases sizes.len(),
{
    if count == sizes.len() {
        assert(sizes.take(count) =~= sizes);
        if sizes.len() > 0 {
            lemma_total_grows(sizes.drop_last(), sizes.len() - 1);
            assert(sizes.drop_last().take(sizes.len() - 1) =~= sizes.drop_last());
        }
    } else {
        lemma_total_grows(sizes.drop_last(), count);
        assert(sizes.drop_last().take(count) =~= sizes.take(count));
    }
}

/// Adds up the bytes of files.
pub fn sum_bytes(sizes: &Vec<u64>) -> (total: u64)
    requires
        total_bytes(sizes@) <= u64::MAX,
    ensures
        total == total_bytes(sizes@),
{
    let mut total: u64 = 0;
    let mut i: usize = 0;
    assert(sizes@.take(0) =~= seq![]);
    while i < sizes.len()
        invariant
            i <= sizes@.len(),
            total_bytes(sizes@) <= u64::MAX,
            total == total_bytes(sizes@.take(i as int)),
        decreases sizes@.len() - i,
    {
        proof {
            lemma_total_grows(sizes@, i + 1);
            assert(sizes@.take(i + 1).drop_last() =~= sizes@.take(i as int));
        }
        total = total + sizes[i];
        i += 1;
    }
    assert(sizes@.take(i as int) =~= sizes@);
    total
}

/// A pack that is installed, as the protocol tells of it.
pub struct InstalledBackend {
    pub backend_id: String,
    pub vendor: BackendVendor,
    pub version: String,
    pub artifact_fingerprint: String,
    pub host_abi_fingerprint: String,
    pub file_sizes: Vec<u64>,
}

/// The fields that tell of a pack.
pub open spec fn pack_fields(pack: InstalledBackend) -> Seq<(Seq<char>, JsonView)> {
    seq![
        ("backend_id"@, JsonView::Text(pack.backend_id@)),
        ("vendor"@, JsonView::Text(vendor_text(pack.vendor))),
        ("version"@, JsonView::Text(pack.version@)),
        ("artifact_fingerprint"@, JsonView::Text(pack.artifact_fingerprint@)),
        ("host_abi_fingerprint"@, JsonView::Text(pack.host_abi_fingerprint@)),
    ]
}

fn vendor_name(vendor: BackendVendor) -> (name: &'static str)
    ensures
        name@ == vendor_text(vendor),
{
    match vendor {
        BackendVendor::Cuda => "cuda",
        BackendVendor::Hip => "hip",
        BackendVendor::Vulkan => "vulkan",
    }
}

fn push_pack(fields: &mut Vec<(String, Json)>, pack: &InstalledBackend)
    ensures
        fields_of(final(fields)@) == fields_of(old(fields)@) + pack_fields(*pack),
{
    push_field(fields, "backend_id", string(pack.backend_id.as_str()));
    push_field(fields, "vendor", string(vendor_name(pack.vendor)));
    push_field(fields, "version", string(pack.version.as_str()));
    push_field(fields, "artifact_fingerprint", string(pack.artifact_fingerprint.as_str()));
    push_field(fields, "host_abi_fingerprint", string(pack.host_abi_fingerprint.as_str()));
    assert(fields_of(fields@) =~= fields_of(old(fields)@) + pack_fields(*pack));
}

/// What is told of a pack in a list.
pub open spec fn pack_view(pack: InstalledBackend) -> JsonView {
    JsonView::Object(
        pack_fields(pack).push(
            (
                "size_bytes"@,
                JsonView::Number(JsonNumber::Unsigned(total_bytes(pack.file_sizes@) as u64)),
            ),
        ),
    )
}

fn pack_record(pack: &InstalledBackend) -> (record: Json)
    requires
        total_bytes(pack.file_sizes@) <= u64::MAX,
    ensures
        record@ == pack_view(*pack),
{
    let mut fields = no_fields();
    push_pack(&mut fields, pack);
    push_field(&mut fields, "size_bytes", number(sum_bytes(&pack.file_sizes)));
    proof {
        lemma_object(fields);
        assert(fields_of(fields@) =~= pack_fields(*pack).push(
            (
                "size_bytes"@,
                JsonView::Number(JsonNumber::Unsigned(total_bytes(pack.file_sizes@) as u64)),
            ),
        ));
    }
    Json::Object(fields)
}

/// The views of a list of values.
pub open spec fn values_of(items: Seq<Json>) -> Seq<JsonView> {
    items.map_values(|item: Json| item@)
}

/// The event that lists the packs that are installed.
pub fn listed_record(packs: &Vec<InstalledBackend>) -> (record: Json)
    requires
        forall|i: int|
            0 <= i < packs@.len() ==> total_bytes((#[trigger] packs@[i]).file_sizes@) <= u64::MAX,
    ensures
        record@ == JsonView::Object(
            seq![
                ("schema_version"@, version()),
                ("event"@, JsonView::Text("listed"@)),
                (
                    "packs"@,
                    JsonView::Array(
                        packs@.map_values(|pack: InstalledBackend| pack_view(pack)),
                    ),
                ),
            ],
        ),
{
    let mut items: Vec<Json> = Vec::new();
    let ghost all = packs@.map_values(|pack: InstalledBackend| pack_view(pack));
    let mut i: usize = 0;
    while i < packs.len()
        invariant
            all == packs@.map_values(|pack: InstalledBackend| pack_view(pack)),
            forall|k: int|
                0 <= k < packs@.len() ==> total_bytes((#[trigger] packs@[k]).file_sizes@)
                    <= u64::MAX,
            i <= packs@.len(),
            values_of(items@) == all.take(i as int),
        decreases packs@.len() - i,
    {
        let ghost before = values_of(items@);
        let record = pack_record(&packs[i]);
        items.push(record);
        assert(values_of(items@) =~= before.push(all[i as int]));
        assert(all.take(i + 1) =~= all.take(i as int).push(all[i as int]));
        i += 1;
    }
    assert(all.take(i as int) =~= all);
    let ghost shown = values_of(items@);
    let list = Json::Array(items);
    assert(list@ is Array);
    assert(list@->Array_0 =~= shown);
    let mut fields = no_fields();
    push_field(&mut fields, "schema_version", number(1));
    push_field(&mut fields, "event", string("listed"));
    push_field(&mut fields, "packs", list);
    proof {
        lemma_object(fields);
        assert(fields_of(fields@) =~= seq![
            ("schema_version"@, version()),
            ("event"@, JsonView::Text("listed"@)),
            ("packs"@, JsonView::Array(all)),
        ]);
    }
    Json::Object(fields)
}

/// A text, or that there is none.
pub open spec fn optional_text(value: Option<Seq<char>>) -> JsonView {
    match value {
        Some(value) => JsonView::Text(value),
        None => JsonView::Null,
    }
}

/// The event for a pack that was installed.
pub fn installed_record(
    pack: &InstalledBackend,
    device_target: Option<&str>,
    protected_bytes: u64,
) -> (record: Json)
    requires
        total_bytes(pack.file_sizes@) <= u64::MAX,
    ensures
        record@ == JsonView::Object(
            seq![("schema_version"@, version()), ("event"@, JsonView::Text("installed"@))]
                + pack_fields(*pack) + seq![
                ("device_target"@, optional_text(text::opt_str(device_target))),
                (
                    "size_bytes"@,
                    JsonView::Number(JsonNumber::Unsigned(total_bytes(pack.file_sizes@) as u64)),
                ),
                ("protected_bytes"@, JsonView::Number(JsonNumber::Unsigned(protected_bytes))),
            ],
        ),
{
    let mut fields = no_fields();
    push_field(&mut fields, "schema_version", number(1));
    push_field(&mut fields, "event", string("installed"));
    push_pack(&mut fields, pack);
    let target = match device_target {
        Some(target) => string(target),
        None => Json::Null,
    };
    push_field(&mut fields, "device_target", target);
    push_field(&mut fields, "size_bytes", number(sum_bytes(&pack.file_sizes)));
    push_field(&mut fields, "protected_bytes", number(protected_bytes));
    proof {
        lemma_object(fields);
        assert(fields_of(fields@) =~= seq![
            ("schema_version"@, version()),
            ("event"@, JsonView::Text("installed"@)),
        ] + pack_fields(*pack) + seq![
            ("device_target"@, optional_text(text::opt_str(device_target))),
            (
                "size_bytes"@,
                JsonView::Number(JsonNumber::Unsigned(total_bytes(pack.file_sizes@) as u64)),
            ),
            ("protected_bytes"@, JsonView::Number(JsonNumber::Unsigned(protected_bytes))),
        ]);
    }
    Json::Object(fields)
}

/// Which commands for plugins read the catalog, report progress and report failures as
/// events; the makers have these names.
pub proof fn law_plugin_commands_are_carried_out(command: BackendPluginCommand)
    ensures
        plugin_plan(command).reports_failure <==> command is PrepareProvider
            || command is InstallActivateProvider || command is Import,
        plugin_plan(command).reports_progress <==> command is PrepareProvider
            || command is InstallActivateProvider || command is Import || command is Install
            || command is InstallActivate || command is PrepareQualification,
        plugin_plan(command).reads_catalog <==> command is PrepareProvider
            || command is InstallActivateProvider || command is Import || command is Install
            || command is InstallActivate || command is PrepareQualification
            || command is DescribeProvider || command is Activate,
        vendor_text(BackendVendor::Cuda) == "cuda"@,
        vendor_text(BackendVendor::Hip) == "hip"@,
        vendor_text(BackendVendor::Vulkan) == "vulkan"@,
{
}

/// What is told of a download: under the name of its event, the bytes that are done, that
/// there are in all, where that is known, and from which it goes on.
pub proof fn law_progress_tells_the_bytes(
    bytes_total: Option<u64>,
    bytes_done: u64,
    resume_from: u64,
)
    ensures
        ({
            let total = if bytes_total is Some {
                JsonView::Number(JsonNumber::Unsigned(bytes_total->Some_0))
            } else {
                JsonView::Null
            };
            let number = |value: u64| JsonView::Number(JsonNumber::Unsigned(value));
            &&& progress_fields(PullProgress::UsingInstalled) == seq![
                ("event"@, JsonView::Text("using_installed"@)),
            ]
            &&& progress_fields(PullProgress::DownloadStarted { bytes_total, resume_from }) == seq![
                ("event"@, JsonView::Text("download_started"@)),
                ("bytes_total"@, total),
                ("resume_from"@, number(resume_from)),
            ]
            &&& progress_fields(PullProgress::Downloading { bytes_done, bytes_total }) == seq![
                ("event"@, JsonView::Text("downloading"@)),
                ("bytes_done"@, number(bytes_done)),
                ("bytes_total"@, total),
            ]
            &&& progress_fields(PullProgress::Verifying { bytes_done }) == seq![
                ("event"@, JsonView::Text("verifying"@)),
                ("bytes_done"@, number(bytes_done)),
            ]
            &&& progress_fields(PullProgress::Installed) == seq![
                ("event"@, JsonView::Text("installed_bytes"@)),
            ]
        }),
        version() == JsonView::Number(JsonNumber::Unsigned(1)),
{
}

/// The bytes of files add up: those of two lists are those of both, and those of one file
/// are its own.
pub proof fn law_file_sizes_add_up(left: Seq<u64>, right: Seq<u64>, size: u64)
    ensures
        total_bytes(left + right) == total_bytes(left) + total_bytes(right),
        total_bytes(seq![size]) == size,
        total_bytes(seq![]) == 0,
    decreases right.len(),
{
    assert(seq![size].drop_last() =~= seq![]);
    reveal_with_fuel(total_bytes, 2);
    if right.len() == 0 {
        assert(left + right =~= left);
    } else {
        law_file_sizes_add_up(left, right.drop_last(), size);
        assert((left + right).drop_last() =~= left + right.drop_last());
    }
}

/// What is told of a pack: its id, its maker, its version, its two fingerprints and, in a
/// list, the bytes of all of its files.
pub proof fn law_pack_is_told_in_full(pack: InstalledBackend)
    requires
        total_bytes(pack.file_sizes@) <= u64::MAX,
    ensures
        pack_fields(pack).len() == 5,
        pack_fields(pack)[0] == ("backend_id"@, JsonView::Text(pack.backend_id@)),
        pack_fields(pack)[1] == ("vendor"@, JsonView::Text(vendor_text(pack.vendor))),
        pack_fields(pack)[2] == ("version"@, JsonView::Text(pack.version@)),
        pack_fields(pack)[3] == (
            "artifact_fingerprint"@,
            JsonView::Text(pack.artifact_fingerprint@),
        ),
        pack_fields(pack)[4] == (
            "host_abi_fingerprint"@,
            JsonView::Text(pack.host_abi_fingerprint@),
        ),
        pack_view(pack) is Object && pack_view(pack)->Object_0.len() == 6,
        pack_view(pack)->Object_0.take(5) == pack_fields(pack),
        pack_view(pack)->Object_0[5].0 == "size_bytes"@,
        pack_view(pack)->Object_0[5].1.natural() matches Some(bytes) && bytes == total_bytes(
            pack.file_sizes@,
        ),
        optional_text(None) == JsonView::Null,
        forall|value: Seq<char>| #[trigger]
            optional_text(Some(value)) == JsonView::Text(value),
{
    lemma_total_grows(pack.file_sizes@, 0);
    assert(pack_view(pack)->Object_0.take(5) =~= pack_fields(pack));
}

/// The last event of a command has no field but those of what it came to, the version and
/// the name; what is no object adds none.
pub proof fn law_terminal_record_adds_two_fields(event: Seq<char>, value: JsonView)
    ensures
        object_fields(value).len() <= terminal_view(event, value)->Object_0.len()
            <= object_fields(value).len() + 2,
        !(value is Object) ==> terminal_view(event, value) == JsonView::Object(
            seq![("schema_version"@, version()), ("event"@, JsonView::Text(event))],
        ),
        value matches JsonView::Object(fields) ==> object_fields(value) == fields,
{
    let before = object_fields(value);
    lemma_first_place(before, "schema_version"@, 0);
    lemma_first_place(with_field(before, "schema_version"@, version()), "event"@, 0);
    if !(value is Object) {
        reveal_strlit("schema_version");
        reveal_strlit("event");
        assert("schema_version"@.len() != "event"@.len());
        let fields = object_fields(value);
        lemma_first_place(fields, "schema_version"@, 0);
        let versioned = with_field(fields, "schema_version"@, version());
        assert(versioned =~= seq![("schema_version"@, version())]);
        lemma_first_place(versioned, "event"@, 0);
        assert(with_field(versioned, "event"@, JsonView::Text(event)) =~= seq![
            ("schema_version"@, version()),
            ("event"@, JsonView::Text(event)),
        ]);
    }
}

} // verus!
