//! Which model, model pack and tools a run uses.

use vstd::prelude::*;

use crate::backend;
use crate::backend::BackendKind;
use crate::text;

verus! {

/// The model that is used where none was asked for.
pub open spec fn default_model_text() -> Seq<char> {
    "qwen3-asr-0.6b"@
}

/// The model that is used where none was asked for.
pub fn default_model_id() -> (id: &'static str)
    ensures
        id@ == default_model_text(),
{
    "qwen3-asr-0.6b"
}

/// The model that a run is about: the one that was asked for, or else the one that
/// was saved, or else the default.
pub open spec fn selected_model(asked: Option<Seq<char>>, saved: Option<Seq<char>>) -> Seq<char> {
    match asked {
        Some(model) => model,
        None => match saved {
            Some(model) => model,
            None => default_model_text(),
        },
    }
}

/// Decides which model a run is about. The saved one is looked at only if none was
/// asked for.
pub fn selected_model_ref(asked: Option<&str>, saved: Result<Option<String>, String>) -> (result:
    Result<String, String>)
    ensures
        match asked {
            Some(model) => result matches Ok(chosen) && chosen@ == model@,
            None => match saved {
                Ok(saved) => result matches Ok(chosen) && chosen@ == selected_model(
                    None,
                    text::opt_string(saved),
                ),
                Err(error) => result == Err::<String, String>(error),
            },
        },
{
    if let Some(model) = asked {
        return Ok(model.to_owned());
    }
    match saved {
        Ok(Some(model)) => Ok(model),
        Ok(None) => Ok(default_model_id().to_owned()),
        Err(error) => Err(error),
    }
}

/// The model that a run uses, and the pack that holds it.
pub struct ResolvedModelSource {
    pub model_id: String,
    pub model_pack_path: Option<String>,
}

/// What the catalog says of the model that was asked for.
pub enum RuntimeResolution {
    /// It is known, under this name.
    Known(String),
    /// It is not known.
    Unknown,
    /// The catalog could not be asked.
    Failed(String),
}

/// Decides what a model is called: as the catalog has it, or as the registry has it
/// where there is no catalog or the catalog does not know the model.
pub fn find_runtime_model_id(
    catalog: Option<RuntimeResolution>,
    registry: Result<String, String>,
) -> (result: Result<String, String>)
    ensures
        result == match catalog {
            Some(RuntimeResolution::Known(id)) => Ok::<String, String>(id),
            Some(RuntimeResolution::Failed(error)) => Err::<String, String>(error),
            Some(RuntimeResolution::Unknown) => registry,
            None => registry,
        },
{
    match catalog {
        Some(RuntimeResolution::Known(id)) => Ok(id),
        Some(RuntimeResolution::Failed(error)) => Err(error),
        Some(RuntimeResolution::Unknown) | None => registry,
    }
}

/// What became of the model that was saved as the default.
pub enum DefaultModelResolution {
    /// Its pack is here.
    Installed(String),
    /// Its pack is missing.
    NotInstalled,
    /// No model was saved.
    Unset,
}

/// Where the pack of a model is.
pub enum PackLookup {
    /// Here.
    Found(String),
    /// Nowhere.
    Missing,
    /// Wherever the store keeps the model of this name.
    Named(String),
}

/// Decides where the pack of a model is. A model that was asked for is looked up by
/// its name. Where none was asked for, the saved default has its pack or has none,
/// and if no default was saved, the default model is looked up.
pub fn resolve_installed_native_pack_opt(
    asked: Option<&str>,
    saved: Result<DefaultModelResolution, String>,
) -> (result: Result<PackLookup, String>)
    ensures
        match asked {
            Some(model) => result matches Ok(PackLookup::Named(name)) && name@ == model@,
            None => match saved {
                Err(error) => result == Err::<PackLookup, String>(error),
                Ok(DefaultModelResolution::Installed(path)) => result == Ok::<PackLookup, String>(
                    PackLookup::Found(path),
                ),
                Ok(DefaultModelResolution::NotInstalled) => result == Ok::<PackLookup, String>(
                    PackLookup::Missing,
                ),
                Ok(DefaultModelResolution::Unset) => result matches Ok(PackLookup::Named(name))
                    && name@ == default_model_text(),
            },
        },
{
    if let Some(model) = asked {
        return Ok(PackLookup::Named(model.to_owned()));
    }
    match saved {
        Err(error) => Err(error),
        Ok(DefaultModelResolution::Installed(path)) => Ok(PackLookup::Found(path)),
        Ok(DefaultModelResolution::NotInstalled) => Ok(PackLookup::Missing),
        Ok(DefaultModelResolution::Unset) => Ok(PackLookup::Named(default_model_id().to_owned())),
    }
}

/// What was found out about the model that was asked for.
pub struct SourceFacts {
    /// The name of the selected model in the registry.
    pub registry_id: Result<String, String>,
    /// The pack that was given, checked.
    pub given_pack: Result<String, String>,
    /// The pack that is installed for the model, if there is one.
    pub installed_pack: Result<Option<String>, String>,
    /// The model that the run is about.
    pub selected: Result<String, String>,
    /// What is wrong with the name that was asked for.
    pub name_error: Option<String>,
    /// What the catalog says of the name that was asked for.
    pub resolution: RuntimeResolution,
    /// The name that stands for whatever model a pack holds.
    pub auto_model_id: String,
}

/// Why no model can be had.
#[derive(Debug)]
pub enum SourceError {
    PackNeedsNative,
    PackRejected(String),
    NotInstalled(String),
    InvalidModelName { model: String, command: String, error: String },
    NoModelConflict,
    NoModelNeedsNative,
    Other(String),
}

/// The message shown where no model can be had.
pub open spec fn source_message(fault: SourceError) -> Seq<char> {
    match fault {
        SourceError::PackNeedsNative => "--model-pack is only supported with --backend native.\nUse --backend native, or remove --model-pack."@,
        SourceError::PackRejected(error) => "Native model-pack path rejected: "@ + error@,
        SourceError::NotInstalled(model) => "Model '"@ + model@ + "' is not installed.\nRun: openasr pull "@ + model@ + "\n(Or pass --model-pack <local.oasr> to run a specific local pack file.)"@,
        SourceError::InvalidModelName { model, command, error } => "Model '"@ + model@ + "' is not a valid model id for native GGUF local-source "@ + command@ + ": "@ + error@,
        SourceError::NoModelConflict => "--no-model cannot be combined with --model or --model-pack"@,
        SourceError::NoModelNeedsNative => "--no-model is only supported with the native backend"@,
        SourceError::Other(error) => error@,
    }
}

impl SourceError {
    /// The message shown for the error.
    pub fn message(&self) -> (text: String)
        ensures
            text@ == source_message(*self),
    {
        match self {
            SourceError::PackNeedsNative => "--model-pack is only supported with --backend native.\nUse --backend native, or remove --model-pack.".to_owned(),
            SourceError::PackRejected(error) => {
                let mut out = "Native model-pack path rejected: ".to_owned();
                out.append(error.as_str());
                out
            },
            SourceError::NotInstalled(model) => {
                let mut out = "Model '".to_owned();
                out.append(model.as_str());
                out.append("' is not installed.\nRun: openasr pull ");
                out.append(model.as_str());
                out.append("\n(Or pass --model-pack <local.oasr> to run a specific local pack file.)");
                out
            },
            SourceError::InvalidModelName { model, command, error } => {
                let mut out = "Model '".to_owned();
                out.append(model.as_str());
                out.append("' is not a valid model id for native GGUF local-source ");
                out.append(command.as_str());
                out.append(": ");
                out.append(error.as_str());
                out
            },
            SourceError::NoModelConflict => "--no-model cannot be combined with --model or --model-pack".to_owned(),
            SourceError::NoModelNeedsNative => "--no-model is only supported with the native backend".to_owned(),
            SourceError::Other(error) => {
                let mut out = (error.as_str()).to_owned();
                out
            },
        }
    }
}

/// Whether a source is the one with a name and a pack.
pub open spec fn is_source(
    source: ResolvedModelSource,
    model_id: Seq<char>,
    pack: Option<Seq<char>>,
) -> bool {
    source.model_id@ == model_id && text::opt_string(source.model_pack_path) == pack
}

/// Whether the name of a native model comes out as told, or the error that keeps it
/// from coming out.
pub open spec fn native_name(
    asked: Option<Seq<char>>,
    facts: SourceFacts,
    command: Seq<char>,
    result: Result<Seq<char>, SourceError>,
) -> bool {
    match asked {
        None => result == Ok::<Seq<char>, SourceError>(facts.auto_model_id@),
        Some(model) => if facts.name_error is Some {
            result matches Err(SourceError::InvalidModelName { model: shown, command: label, error })
                && shown@ == model && label@ == command && error == facts.name_error->Some_0
        } else {
            match facts.resolution {
                RuntimeResolution::Known(id) => result == Ok::<Seq<char>, SourceError>(id@),
                RuntimeResolution::Unknown => result == Ok::<Seq<char>, SourceError>(
                    text::trimmed(model),
                ),
                RuntimeResolution::Failed(error) => result matches Err(SourceError::Other(shown))
                    && shown == error,
            }
        },
    }
}

/// The view of a name or error.
pub open spec fn name_view(result: Result<String, SourceError>) -> Result<Seq<char>, SourceError> {
    match result {
        Ok(name) => Ok(name@),
        Err(error) => Err(error),
    }
}

fn copy_text(value: &String) -> (copy: String)
    ensures
        copy == *value,
{
    value.clone()
}

fn resolve_native_name(model: Option<&str>, facts: &SourceFacts, command: &str) -> (result: Result<
    String,
    SourceError,
>)
    ensures
        native_name(text::opt_str(model), *facts, command@, name_view(result)),
{
    match model {
        None => Ok(copy_text(&facts.auto_model_id)),
        Some(model) => {
            if let Some(error) = &facts.name_error {
                return Err(
                    SourceError::InvalidModelName {
                        model: model.to_owned(),
                        command: command.to_owned(),
                        error: copy_text(error),
                    },
                );
            }
            match &facts.resolution {
                RuntimeResolution::Known(id) => Ok(copy_text(id)),
                RuntimeResolution::Unknown => Ok(text::trim_text(model)),
                RuntimeResolution::Failed(error) => Err(SourceError::Other(copy_text(error))),
            }
        },
    }
}

/// Whether the installed pack of a model comes out as told, or the error that keeps
/// it from coming out.
pub open spec fn installed_pack(facts: SourceFacts, result: Result<String, SourceError>) -> bool {
    match facts.selected {
        Err(error) => result == Err::<String, SourceError>(SourceError::Other(error)),
        Ok(model) => match facts.installed_pack {
            Err(error) => result == Err::<String, SourceError>(SourceError::Other(error)),
            Ok(Some(path)) => result == Ok::<String, SourceError>(path),
            Ok(None) => result == Err::<String, SourceError>(SourceError::NotInstalled(model)),
        },
    }
}

/// Decides which installed pack a run uses. A model that is not installed is an
/// error: nothing is downloaded here.
pub fn resolve_installed_native_pack(facts: &SourceFacts) -> (result: Result<String, SourceError>)
    ensures
        installed_pack(*facts, result),
{
    match &facts.selected {
        Err(error) => Err(SourceError::Other(copy_text(error))),
        Ok(model) => match &facts.installed_pack {
            Err(error) => Err(SourceError::Other(copy_text(error))),
            Ok(Some(path)) => Ok(copy_text(path)),
            Ok(None) => Err(SourceError::NotInstalled(copy_text(model))),
        },
    }
}

/// Whether the pack of a native run comes out as told, or the error that keeps it
/// from coming out.
pub open spec fn native_pack(
    has_pack: bool,
    facts: SourceFacts,
    result: Result<String, SourceError>,
) -> bool {
    if has_pack {
        match facts.given_pack {
            Ok(path) => result == Ok::<String, SourceError>(path),
            Err(error) => result == Err::<String, SourceError>(SourceError::PackRejected(error)),
        }
    } else {
        installed_pack(facts, result)
    }
}

fn resolve_native_pack(has_pack: bool, facts: &SourceFacts) -> (result: Result<String, SourceError>)
    ensures
        native_pack(has_pack, *facts, result),
{
    if has_pack {
        match &facts.given_pack {
            Ok(path) => Ok(copy_text(path)),
            Err(error) => Err(SourceError::PackRejected(copy_text(error))),
        }
    } else {
        resolve_installed_native_pack(facts)
    }
}

/// Whether the model of a run comes out as told, or the error that keeps it from
/// coming out. Only the native backend takes a pack; it takes the one that was
/// given, or else the installed one, and what is wrong with the pack counts before
/// what is wrong with the name.
pub open spec fn source_for_backend(
    command: Seq<char>,
    asked: Option<Seq<char>>,
    kind: BackendKind,
    has_pack: bool,
    facts: SourceFacts,
    result: Result<ResolvedModelSource, SourceError>,
) -> bool {
    if kind != BackendKind::Native {
        if has_pack {
            result == Err::<ResolvedModelSource, SourceError>(SourceError::PackNeedsNative)
        } else {
            match facts.registry_id {
                Ok(id) => result matches Ok(source) && is_source(source, id@, None),
                Err(error) => result == Err::<ResolvedModelSource, SourceError>(
                    SourceError::Other(error),
                ),
            }
        }
    } else {
        exists|pack: Result<String, SourceError>, name: Result<Seq<char>, SourceError>|
            #![trigger native_pack(has_pack, facts, pack), native_name(asked, facts, command, name)]
            native_pack(has_pack, facts, pack) && native_name(asked, facts, command, name) && (
            match pack {
                Err(error) => result == Err::<ResolvedModelSource, SourceError>(error),
                Ok(path) => match name {
                    Err(error) => result == Err::<ResolvedModelSource, SourceError>(error),
                    Ok(name) => result matches Ok(source) && is_source(source, name, Some(path@)),
                },
            })
    }
}

/// Decides which model a run uses.
pub fn resolve_model_source_for_backend(
    command_label: &str,
    model: Option<&str>,
    kind: BackendKind,
    has_pack: bool,
    facts: &SourceFacts,
) -> (result: Result<ResolvedModelSource, SourceError>)
    ensures
        source_for_backend(
            command_label@,
            text::opt_str(model),
            kind,
            has_pack,
            *facts,
            result,
        ),
{
    if kind != BackendKind::Native {
        if has_pack {
            return Err(SourceError::PackNeedsNative);
        }
        return match &facts.registry_id {
            Ok(id) => Ok(ResolvedModelSource { model_id: copy_text(id), model_pack_path: None }),
            Err(error) => Err(SourceError::Other(copy_text(error))),
        };
    }
    let pack = resolve_native_pack(has_pack, facts);
    let name = resolve_native_name(model, facts, command_label);
    assert(native_pack(has_pack, *facts, pack));
    assert(native_name(text::opt_str(model), *facts, command_label@, name_view(name)));
    match pack {
        Err(error) => Err(error),
        Ok(path) => match name {
            Err(error) => Err(error),
            Ok(name) => Ok(ResolvedModelSource { model_id: name, model_pack_path: Some(path) }),
        },
    }
}

/// Whether the model that a server starts with comes out as told, or the error that
/// keeps it from coming out. A server also starts without a model: if it is told
/// to, and if none is installed.
pub open spec fn source_for_server(
    asked: Option<Seq<char>>,
    kind: BackendKind,
    has_pack: bool,
    no_model: bool,
    facts: SourceFacts,
    result: Result<ResolvedModelSource, SourceError>,
) -> bool {
    if no_model {
        if asked is Some || has_pack {
            result == Err::<ResolvedModelSource, SourceError>(SourceError::NoModelConflict)
        } else if kind != BackendKind::Native {
            result == Err::<ResolvedModelSource, SourceError>(SourceError::NoModelNeedsNative)
        } else {
            result matches Ok(source) && is_source(source, facts.auto_model_id@, None)
        }
    } else if kind != BackendKind::Native || has_pack {
        source_for_backend("serve"@, asked, kind, has_pack, facts, result)
    } else {
        match facts.installed_pack {
            Err(error) => result == Err::<ResolvedModelSource, SourceError>(
                SourceError::Other(error),
            ),
            Ok(None) => result matches Ok(source) && is_source(
                source,
                match asked {
                    Some(model) => model,
                    None => facts.auto_model_id@,
                },
                None,
            ),
            Ok(Some(path)) => exists|name: Result<Seq<char>, SourceError>|
                #![trigger native_name(asked, facts, "serve"@, name)]
                native_name(asked, facts, "serve"@, name) && match name {
                    Err(error) => result == Err::<ResolvedModelSource, SourceError>(error),
                    Ok(name) => result matches Ok(source) && is_source(source, name, Some(path@)),
                },
        }
    }
}

/// Decides which model a server starts with.
pub fn resolve_serve_model_source(
    model: Option<&str>,
    kind: BackendKind,
    has_pack: bool,
    no_model: bool,
    facts: &SourceFacts,
) -> (result: Result<ResolvedModelSource, SourceError>)
    ensures
        source_for_server(text::opt_str(model), kind, has_pack, no_model, *facts, result),
{
    if no_model {
        if model.is_some() || has_pack {
            return Err(SourceError::NoModelConflict);
        }
        if kind != BackendKind::Native {
            return Err(SourceError::NoModelNeedsNative);
        }
        return Ok(
            ResolvedModelSource {
                model_id: copy_text(&facts.auto_model_id),
                model_pack_path: None,
            },
        );
    }
    if kind != BackendKind::Native || has_pack {
        return resolve_model_source_for_backend("serve", model, kind, has_pack, facts);
    }
    match &facts.installed_pack {
        Err(error) => Err(SourceError::Other(copy_text(error))),
        Ok(None) => {
            let model_id = match model {
                Some(model) => model.to_owned(),
                None => copy_text(&facts.auto_model_id),
            };
            Ok(ResolvedModelSource { model_id, model_pack_path: None })
        },
        Ok(Some(path)) => {
            let name = resolve_native_name(model, facts, "serve");
            assert(native_name(text::opt_str(model), *facts, "serve"@, name_view(name)));
            match name {
                Err(error) => Err(error),
                Ok(name) => Ok(
                    ResolvedModelSource { model_id: name, model_pack_path: Some(copy_text(path)) },
                ),
            }
        },
    }
}

/// A server starts though nothing is installed, bound to no model, under the name
/// that was asked for.
pub proof fn law_server_starts_without_a_model(
    asked: Option<Seq<char>>,
    facts: SourceFacts,
    result: Result<ResolvedModelSource, SourceError>,
)
    requires
        facts.installed_pack == Ok::<Option<String>, String>(None),
        source_for_server(asked, BackendKind::Native, false, false, facts, result),
    ensures
        result is Ok,
        result->Ok_0.model_pack_path is None,
        asked is Some ==> result->Ok_0.model_id@ == asked->Some_0,
{
}

/// A run never goes on without the pack it needs: on the native backend it either
/// has one or fails.
pub proof fn law_native_run_has_a_pack(
    command: Seq<char>,
    asked: Option<Seq<char>>,
    has_pack: bool,
    facts: SourceFacts,
    result: Result<ResolvedModelSource, SourceError>,
)
    requires
        source_for_backend(command, asked, BackendKind::Native, has_pack, facts, result),
        result is Ok,
    ensures
        result->Ok_0.model_pack_path is Some,
        has_pack ==> facts.given_pack is Ok && result->Ok_0.model_pack_path->Some_0@
            == facts.given_pack->Ok_0@,
        !has_pack ==> facts.installed_pack is Ok && facts.installed_pack->Ok_0 is Some,
{
}

/// Where ffmpeg is, if it was chosen: by the command, the environment or the
/// configuration, in this order.
pub open spec fn chosen_tool(
    asked: Option<Seq<char>>,
    environment: Option<Seq<char>>,
    configured: Option<Seq<char>>,
) -> Option<Seq<char>> {
    if asked is Some {
        asked
    } else if environment is Some {
        environment
    } else {
        configured
    }
}

/// Decides where ffmpeg is, if it was chosen.
pub fn resolve_explicit_ffmpeg_bin(
    asked: Option<String>,
    environment: Option<String>,
    configured: Option<String>,
) -> (path: Option<String>)
    ensures
        text::opt_string(path) == chosen_tool(
            text::opt_string(asked),
            text::opt_string(environment),
            text::opt_string(configured),
        ),
{
    match asked {
        Some(path) => Some(path),
        None => match environment {
            Some(path) => Some(path),
            None => configured,
        },
    }
}

/// Decides where ffmpeg is: where it was chosen to be, or else where it was found.
pub fn resolve_ffmpeg_bin(
    asked: Option<String>,
    environment: Option<String>,
    configured: Option<String>,
    found: Option<String>,
) -> (path: Option<String>)
    ensures
        text::opt_string(path) == ({
            let chosen = chosen_tool(
                text::opt_string(asked),
                text::opt_string(environment),
                text::opt_string(configured),
            );
            if chosen is Some {
                chosen
            } else {
                text::opt_string(found)
            }
        }),
{
    match resolve_explicit_ffmpeg_bin(asked, environment, configured) {
        Some(path) => Some(path),
        None => found,
    }
}

/// How audio is made ready for a backend.
pub struct AudioPreparation {
    pub backend: BackendKind,
    pub ffmpeg_bin: Option<String>,
    /// Whether ffmpeg was chosen rather than found.
    pub ffmpeg_bin_explicit: bool,
    /// Whether audio that is not WAV is converted.
    pub converts: bool,
}

/// Decides how audio is made ready for a backend: only the native one has audio
/// converted.
pub fn audio_preparation_options(
    kind: BackendKind,
    ffmpeg_bin: Option<String>,
    ffmpeg_bin_explicit: bool,
) -> (options: AudioPreparation)
    ensures
        options.backend == kind,
        options.ffmpeg_bin == ffmpeg_bin,
        options.ffmpeg_bin_explicit == ffmpeg_bin_explicit,
        options.converts == (kind == BackendKind::Native),
{
    AudioPreparation {
        backend: kind,
        ffmpeg_bin,
        ffmpeg_bin_explicit,
        converts: kind == BackendKind::Native,
    }
}

/// The note on audio with an extension that is not known.
pub open spec fn extension_note(extension: Seq<char>) -> Seq<char> {
    "Note: unrecognized audio extension \"."@ + extension
        + "\"; OpenASR will pass the file to the selected backend."@
}

/// Notes the extensions of audio files that are not known.
pub fn print_audio_input_notes(extensions: &Vec<String>) -> (notes: Vec<String>)
    ensures
        notes@.len() == extensions@.len(),
        forall|i: int|
            0 <= i < notes@.len() ==> (#[trigger] notes@[i])@ == extension_note(extensions@[i]@),
{
    let mut notes: Vec<String> = Vec::new();
    let mut i: usize = 0;
    while i < extensions.len()
        invariant
            i <= extensions@.len(),
            notes@.len() == i,
            forall|k: int|
                0 <= k < i ==> (#[trigger] notes@[k])@ == extension_note(extensions@[k]@),
        decreases extensions@.len() - i,
    {
        let mut note = "Note: unrecognized audio extension \".".to_owned();
        note.append(extensions[i].as_str());
        note.append("\"; OpenASR will pass the file to the selected backend.");
        notes.push(note);
        i += 1;
    }
    notes
}

/// The note on how audio was made ready, if something was done to it.
pub open spec fn preparation_note(path: Seq<char>, in_memory: bool, converted: bool) -> Option<
    Seq<char>,
> {
    if in_memory {
        Some(
            "Note: decoded "@ + path + " to 16 kHz mono in memory for the selected backend."@,
        )
    } else if converted {
        Some(
            "Note: prepared "@ + path
                + " as temporary 16 kHz mono PCM WAV for the selected backend."@,
        )
    } else {
        None
    }
}

/// Notes how audio was made ready: decoded in memory, or else converted to a file.
pub fn print_audio_preparation_notes(path: &str, in_memory: bool, converted: bool) -> (note: Option<
    String,
>)
    ensures
        text::opt_string(note) == preparation_note(path@, in_memory, converted),
{
    if in_memory {
        let mut note = "Note: decoded ".to_owned();
        note.append(path);
        note.append(" to 16 kHz mono in memory for the selected backend.");
        return Some(note);
    }
    if converted {
        let mut note = "Note: prepared ".to_owned();
        note.append(path);
        note.append(" as temporary 16 kHz mono PCM WAV for the selected backend.");
        return Some(note);
    }
    None
}

/// What a run uses.
pub struct PreparedBackendRun {
    pub backend_kind: BackendKind,
    pub model_source: ResolvedModelSource,
    pub ffmpeg_bin: Option<String>,
    /// Whether ffmpeg was chosen rather than found.
    pub ffmpeg_bin_explicit: bool,
}

/// Where ffmpeg may be.
pub struct ToolPlaces {
    pub asked: Option<String>,
    pub environment: Option<String>,
    pub configured: Option<String>,
    pub found: Option<String>,
}

/// Where ffmpeg was chosen to be.
pub open spec fn chosen_place(places: ToolPlaces) -> Option<Seq<char>> {
    chosen_tool(
        text::opt_string(places.asked),
        text::opt_string(places.environment),
        text::opt_string(places.configured),
    )
}

/// What a run is asked for.
pub struct RunRequest<'a> {
    pub command_label: &'a str,
    pub model: Option<&'a str>,
    pub backend: Option<BackendKind>,
    pub configured_backend: Option<&'a str>,
    pub default_backend: &'a str,
    pub has_pack: bool,
}

/// Decides what a run uses: the backend first, then the model, then the tools.
pub fn prepare_backend_run(request: &RunRequest<'_>, facts: &SourceFacts, places: ToolPlaces) -> (result:
    Result<PreparedBackendRun, SourceError>)
    ensures
        match result {
            Ok(run) => {
                &&& request.backend is Some ==> run.backend_kind == request.backend->Some_0
                &&& request.backend is None ==> backend::backend_text(run.backend_kind)
                    == backend::configured_backend(
                    text::opt_str(request.configured_backend),
                    request.default_backend@,
                )
                &&& source_for_backend(
                    request.command_label@,
                    text::opt_str(request.model),
                    run.backend_kind,
                    request.has_pack,
                    *facts,
                    Ok(run.model_source),
                )
                &&& run.ffmpeg_bin_explicit == (chosen_place(places) is Some)
                &&& text::opt_string(run.ffmpeg_bin) == (if chosen_place(places) is Some {
                    chosen_place(places)
                } else {
                    text::opt_string(places.found)
                })
            },
            Err(error) => {
                let name = backend::configured_backend(
                    text::opt_str(request.configured_backend),
                    request.default_backend@,
                );
                if request.backend is None && name != "mock"@ && name != "native"@ {
                    error matches SourceError::Other(shown) && backend::tells_no_backend(shown@, name)
                } else {
                    exists|kind: BackendKind|
                        (if request.backend is Some {
                            kind == request.backend->Some_0
                        } else {
                            backend::backend_text(kind) == name
                        }) && #[trigger] source_for_backend(
                            request.command_label@,
                            text::opt_str(request.model),
                            kind,
                            request.has_pack,
                            *facts,
                            Err(error),
                        )
                }
            },
        },
{
    let kind = match backend::resolve_backend(
        request.backend,
        request.configured_backend,
        request.default_backend,
    ) {
        Ok(kind) => kind,
        Err(message) => {
            return Err(SourceError::Other(message));
        },
    };
    let model_source = match resolve_model_source_for_backend(
        request.command_label,
        request.model,
        kind,
        request.has_pack,
        facts,
    ) {
        Ok(source) => source,
        Err(error) => {
            return Err(error);
        },
    };
    let chosen = resolve_explicit_ffmpeg_bin(places.asked, places.environment, places.configured);
    let ffmpeg_bin_explicit = chosen.is_some();
    let ffmpeg_bin = match chosen {
        Some(path) => Some(path),
        None => places.found,
    };
    Ok(PreparedBackendRun { backend_kind: kind, model_source, ffmpeg_bin, ffmpeg_bin_explicit })
}

/// The number of threads that the engine is given: as many as there are, but no
/// more than five, unless the environment says.
pub fn native_thread_count(environment_decides: bool, available: Option<usize>) -> (count: Option<
    usize,
>)
    ensures
        count == (if environment_decides {
            None
        } else {
            match available {
                None => None,
                Some(threads) => Some(
                    if threads < 5 {
                        threads
                    } else {
                        5usize
                    },
                ),
            }
        }),
{
    if environment_decides {
        return None;
    }
    match available {
        None => None,
        Some(threads) => Some(
            if threads < 5 {
                threads
            } else {
                5
            },
        ),
    }
}

/// A native run has a model exactly if its pack can be had, the given one or else the
/// installed one of the selected model, and its name is in order. It is called as the
/// catalog calls it, or by the name that was asked for where the catalog does not know
/// it, or by the name that stands for any where none was asked for.
pub proof fn law_native_run_uses_its_pack(
    command: Seq<char>,
    asked: Option<Seq<char>>,
    has_pack: bool,
    facts: SourceFacts,
    result: Result<ResolvedModelSource, SourceError>,
)
    requires
        source_for_backend(command, asked, BackendKind::Native, has_pack, facts, result),
    ensures
        ({
            let pack = if has_pack {
                if facts.given_pack is Ok {
                    Some(facts.given_pack->Ok_0)
                } else {
                    None
                }
            } else if facts.selected is Ok && facts.installed_pack is Ok {
                facts.installed_pack->Ok_0
            } else {
                None
            };
            let name_is_in_order = asked is None || (facts.name_error is None && !(
            facts.resolution is Failed));
            &&& result is Ok <==> pack is Some && name_is_in_order
            &&& result matches Ok(source) ==> {
                &&& text::opt_string(source.model_pack_path) == Some(pack->Some_0@)
                &&& asked is None ==> source.model_id@ == facts.auto_model_id@
                &&& asked is Some && facts.resolution is Known ==> source.model_id@
                    == facts.resolution->Known_0@
                &&& asked is Some && facts.resolution is Unknown ==> source.model_id@
                    == text::trimmed(asked->Some_0)
            }
            &&& has_pack && facts.given_pack is Err ==> result == Err::<
                ResolvedModelSource,
                SourceError,
            >(SourceError::PackRejected(facts.given_pack->Err_0))
            &&& !has_pack && facts.selected is Ok && facts.installed_pack is Ok
                && facts.installed_pack->Ok_0 is None ==> result == Err::<
                ResolvedModelSource,
                SourceError,
            >(SourceError::NotInstalled(facts.selected->Ok_0))
        }),
{
}

/// A run on another backend takes no pack, and uses the model as the registry has it.
pub proof fn law_other_run_uses_the_registry(
    command: Seq<char>,
    asked: Option<Seq<char>>,
    kind: BackendKind,
    has_pack: bool,
    facts: SourceFacts,
    result: Result<ResolvedModelSource, SourceError>,
)
    requires
        kind != BackendKind::Native,
        source_for_backend(command, asked, kind, has_pack, facts, result),
    ensures
        has_pack ==> result == Err::<ResolvedModelSource, SourceError>(
            SourceError::PackNeedsNative,
        ),
        !has_pack ==> (result is Ok <==> facts.registry_id is Ok),
        !has_pack && result is Ok ==> result->Ok_0.model_id@ == facts.registry_id->Ok_0@
            && result->Ok_0.model_pack_path is None,
        !has_pack && result is Err ==> result->Err_0 == SourceError::Other(
            facts.registry_id->Err_0,
        ),
{
}

/// The model that a server starts with: none if it is told so, and then only on the
/// native backend and with no model or pack asked for; the given pack if there is one;
/// and else the installed one, or none where nothing is installed.
pub proof fn law_server_starts_with_its_model(
    asked: Option<Seq<char>>,
    kind: BackendKind,
    has_pack: bool,
    no_model: bool,
    facts: SourceFacts,
    result: Result<ResolvedModelSource, SourceError>,
)
    requires
        source_for_server(asked, kind, has_pack, no_model, facts, result),
    ensures
        no_model ==> (result is Ok <==> asked is None && !has_pack && kind == BackendKind::Native),
        no_model && result is Ok ==> result->Ok_0.model_pack_path is None
            && result->Ok_0.model_id@ == facts.auto_model_id@,
        no_model && (asked is Some || has_pack) ==> result->Err_0 == SourceError::NoModelConflict,
        !no_model && (kind != BackendKind::Native || has_pack) ==> source_for_backend(
            "serve"@,
            asked,
            kind,
            has_pack,
            facts,
            result,
        ),
        !no_model && kind == BackendKind::Native && !has_pack ==> {
            let installed = facts.installed_pack;
            let name_is_in_order = asked is None || (facts.name_error is None && !(
            facts.resolution is Failed));
            &&& result is Ok <==> installed is Ok && (installed->Ok_0 is Some ==> name_is_in_order)
            &&& result is Ok ==> {
                &&& text::opt_string(result->Ok_0.model_pack_path) == text::opt_string(
                    installed->Ok_0,
                )
                &&& asked is None ==> result->Ok_0.model_id@ == facts.auto_model_id@
                &&& asked is Some && installed->Ok_0 is Some && facts.resolution is Known
                    ==> result->Ok_0.model_id@ == facts.resolution->Known_0@
                &&& asked is Some && installed->Ok_0 is Some && facts.resolution is Unknown
                    ==> result->Ok_0.model_id@ == text::trimmed(asked->Some_0)
                &&& asked is Some && installed->Ok_0 is None ==> result->Ok_0.model_id@
                    == asked->Some_0
            }
        },
{
}

/// A tool is where the command says, or else the environment, or else the configuration;
/// one that none of them names was not chosen.
pub proof fn law_tool_is_chosen_in_order(
    asked: Option<Seq<char>>,
    environment: Option<Seq<char>>,
    configured: Option<Seq<char>>,
)
    ensures
        asked is Some ==> chosen_tool(asked, environment, configured) == asked,
        asked is None && environment is Some ==> chosen_tool(asked, environment, configured)
            == environment,
        asked is None && environment is None ==> chosen_tool(asked, environment, configured)
            == configured,
{
}

/// A model that is asked for is the selected one, and else the one that was saved, and
/// else the default.
pub proof fn law_model_is_selected_in_order(asked: Option<Seq<char>>, saved: Option<Seq<char>>)
    ensures
        asked is Some ==> selected_model(asked, saved) == asked->Some_0,
        asked is None && saved is Some ==> selected_model(asked, saved) == saved->Some_0,
        asked is None && saved is None ==> selected_model(asked, saved) == default_model_text(),
{
}

/// Something is told of audio exactly if it was decoded in memory or converted, and what
/// is told names the file.
pub proof fn law_preparation_is_told(path: Seq<char>, in_memory: bool, converted: bool)
    ensures
        preparation_note(path, in_memory, converted) is Some <==> in_memory || converted,
        preparation_note(path, in_memory, converted) matches Some(note) ==> text::occurs(
            note,
            path,
        ),
        preparation_note(path, true, converted) == preparation_note(path, true, !converted),
        preparation_note(path, true, converted) == Some(
            "Note: decoded "@ + path + " to 16 kHz mono in memory for the selected backend."@,
        ),
        preparation_note(path, false, true) == Some(
            "Note: prepared "@ + path
                + " as temporary 16 kHz mono PCM WAV for the selected backend."@,
        ),
{
    text::lemma_occurs_between(
        "Note: decoded "@,
        path,
        " to 16 kHz mono in memory for the selected backend."@,
    );
    text::lemma_occurs_between(
        "Note: prepared "@,
        path,
        " as temporary 16 kHz mono PCM WAV for the selected backend."@,
    );
}

/// A message names the model, the command and the reason that it is about.
pub proof fn law_source_messages_name_their_subject(
    model: String,
    command: String,
    error: String,
    extension: Seq<char>,
)
    ensures
        text::occurs(source_message(SourceError::PackRejected(error)), error@),
        source_message(SourceError::Other(error)) == error@,
        text::occurs(
            source_message(SourceError::NotInstalled(model)),
            "Run: openasr pull "@ + model@,
        ),
        ({
            let message = source_message(SourceError::InvalidModelName { model, command, error });
            &&& text::occurs(message, model@)
            &&& text::occurs(message, command@)
            &&& text::occurs(message, error@)
        }),
        text::occurs(extension_note(extension), "\"."@ + extension + "\""@),
{
    text::lemma_occurs_behind("Native model-pack path rejected: "@, error@);
    let missing = source_message(SourceError::NotInstalled(model));
    let first = "Model '"@ + model@ + "' is not installed.\n"@;
    let asked = "Run: openasr pull "@ + model@;
    let last = "\n(Or pass --model-pack <local.oasr> to run a specific local pack file.)"@;
    reveal_strlit("' is not installed.\nRun: openasr pull ");
    reveal_strlit("' is not installed.\n");
    reveal_strlit("Run: openasr pull ");
    assert("' is not installed.\nRun: openasr pull "@ =~= "' is not installed.\n"@
        + "Run: openasr pull "@);
    text::lemma_occurs_between(first, asked, last);
    assert(missing =~= first + asked + last);
    let named = "Model '"@ + model@;
    let command_part = named + "' is not a valid model id for native GGUF local-source "@
        + command@;
    let rest = ": "@ + error@;
    text::lemma_occurs_behind("Model '"@, model@);
    text::lemma_occurs_further(
        named,
        model@,
        "' is not a valid model id for native GGUF local-source "@ + command@ + rest,
    );
    text::lemma_occurs_behind(
        named + "' is not a valid model id for native GGUF local-source "@,
        command@,
    );
    text::lemma_occurs_further(command_part, command@, rest);
    text::lemma_occurs_behind(command_part + ": "@, error@);
    let message = source_message(SourceError::InvalidModelName { model, command, error });
    assert(message =~= named + ("' is not a valid model id for native GGUF local-source "@
        + command@ + rest));
    assert(message =~= command_part + rest);
    assert(message =~= command_part + ": "@ + error@);
    let note = extension_note(extension);
    reveal_strlit("Note: unrecognized audio extension \".");
    reveal_strlit("\"; OpenASR will pass the file to the selected backend.");
    reveal_strlit("Note: unrecognized audio extension ");
    reveal_strlit("; OpenASR will pass the file to the selected backend.");
    reveal_strlit("\".");
    reveal_strlit("\"");
    assert("Note: unrecognized audio extension \"."@ =~= "Note: unrecognized audio extension "@
        + "\"."@);
    assert("\"; OpenASR will pass the file to the selected backend."@ =~= "\""@
        + "; OpenASR will pass the file to the selected backend."@);
    text::lemma_occurs_between(
        "Note: unrecognized audio extension "@,
        "\"."@ + extension + "\""@,
        "; OpenASR will pass the file to the selected backend."@,
    );
    assert(note =~= "Note: unrecognized audio extension "@ + ("\"."@ + extension + "\""@)
        + "; OpenASR will pass the file to the selected backend."@);
}

} // verus!
