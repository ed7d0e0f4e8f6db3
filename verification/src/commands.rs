//! The commands of the program: in what order they are carried out, and what the
//! short ones show.

use vstd::prelude::*;

use crate::text;

verus! {

/// The commands.
#[derive(Clone, Copy, Debug, PartialEq, Eq, Structural)]
pub enum CommandKind {
    List,
    Search,
    Pull,
    Rm,
    Config,
    Doctor,
    Verify,
    Show,
    ModelPack,
    BackendPlugin,
    MemoryPressureHelper,
    ValidateOwnershipEvidence,
    GgufCParserProbe,
    SignCatalogManifest,
    CatalogFingerprint,
    SignQualificationManifest,
    VerifyQualificationManifest,
    QualifyBackend,
    QualificationChild,
    Transcribe,
    Apikey,
    BenchSuite,
    BenchReceipt,
    Live,
    Serve,
}

/// Whether a command looks at the models that are installed.
pub open spec fn reads_store(command: CommandKind) -> bool {
    match command {
        CommandKind::List => true,
        CommandKind::Pull => true,
        CommandKind::Rm => true,
        CommandKind::Doctor => true,
        CommandKind::Show => true,
        CommandKind::ModelPack => true,
        CommandKind::Transcribe => true,
        CommandKind::BenchSuite => true,
        CommandKind::BenchReceipt => true,
        CommandKind::Live => true,
        CommandKind::Serve => true,
        _ => false,
    }
}

/// Whether a command looks at the models that are installed.
pub fn command_reads_the_model_store(command: CommandKind) -> (yes: bool)
    ensures
        yes == reads_store(command),
{
    match command {
        CommandKind::List
        | CommandKind::Pull
        | CommandKind::Rm
        | CommandKind::Doctor
        | CommandKind::Show
        | CommandKind::ModelPack
        | CommandKind::Transcribe
        | CommandKind::BenchSuite
        | CommandKind::BenchReceipt
        | CommandKind::Live
        | CommandKind::Serve => true,
        _ => false,
    }
}

/// Whether a command is carried out before the engine is set up.
pub open spec fn comes_first(command: CommandKind) -> bool {
    match command {
        CommandKind::MemoryPressureHelper => true,
        CommandKind::ValidateOwnershipEvidence => true,
        CommandKind::SignQualificationManifest => true,
        CommandKind::VerifyQualificationManifest => true,
        CommandKind::QualifyBackend => true,
        CommandKind::QualificationChild => true,
        CommandKind::BackendPlugin => true,
        _ => false,
    }
}

/// Whether a command runs on a thread that may block.
pub open spec fn blocks(command: CommandKind) -> bool {
    match command {
        CommandKind::QualifyBackend => true,
        CommandKind::QualificationChild => true,
        CommandKind::BackendPlugin => true,
        CommandKind::Pull => true,
        CommandKind::Transcribe => true,
        _ => false,
    }
}

/// How a command is carried out.
#[derive(Clone, Copy, Debug, PartialEq, Eq, Structural)]
pub struct CommandPlan {
    /// Whether the engine is set up first.
    pub needs_engine: bool,
    /// Whether a panic is logged.
    pub logs_panics: bool,
    /// Whether the models on disk are brought into their present layout first.
    pub converts_store: bool,
    /// Whether the command runs on a thread that may block.
    pub blocking: bool,
}

/// How a command is carried out.
pub open spec fn command_plan(command: CommandKind) -> CommandPlan {
    CommandPlan {
        needs_engine: !comes_first(command),
        logs_panics: command == CommandKind::Serve,
        converts_store: reads_store(command),
        blocking: blocks(command),
    }
}

/// Decides how a command is carried out.
pub fn run(command: CommandKind) -> (plan: CommandPlan)
    ensures
        plan == command_plan(command),
{
    let needs_engine = match command {
        CommandKind::MemoryPressureHelper
        | CommandKind::ValidateOwnershipEvidence
        | CommandKind::SignQualificationManifest
        | CommandKind::VerifyQualificationManifest
        | CommandKind::QualifyBackend
        | CommandKind::QualificationChild
        | CommandKind::BackendPlugin => false,
        _ => true,
    };
    let blocking = match command {
        CommandKind::QualifyBackend
        | CommandKind::QualificationChild
        | CommandKind::BackendPlugin
        | CommandKind::Pull
        | CommandKind::Transcribe => true,
        _ => false,
    };
    CommandPlan {
        needs_engine,
        logs_panics: command == CommandKind::Serve,
        converts_store: command_reads_the_model_store(command),
        blocking,
    }
}

/// A command that comes before the engine neither touches the models on disk nor
/// logs its panics.
pub proof fn law_early_commands_leave_the_store_alone(command: CommandKind)
    ensures
        !command_plan(command).needs_engine ==> !command_plan(command).converts_store
            && !command_plan(command).logs_panics,
{
}

/// What bringing the models on disk into their present layout came to.
pub struct MigrationReport {
    pub migrated: usize,
    pub reclaimed_bytes: u64,
    pub failures: Vec<(String, String)>,
}

/// The warning for a model that could not be brought into the present layout.
pub open spec fn migration_failure_text(failure: (Seq<char>, Seq<char>)) -> Seq<char> {
    "warning: '"@ + failure.0 + "' could not be converted and is not listed: "@ + failure.1
}

/// The views of a list of pairs.
pub open spec fn pairs_of(pairs: Seq<(String, String)>) -> Seq<(Seq<char>, Seq<char>)> {
    pairs.map_values(|pair: (String, String)| (pair.0@, pair.1@))
}

/// The lines that tell what bringing the models on disk into their present layout
/// came to: nothing where nothing was done, and one for each model that was left.
pub open spec fn migration_lines(report: MigrationReport) -> Seq<Seq<char>> {
    (if report.migrated > 0 {
        seq![
            "Converted "@ + text::decimal(report.migrated as nat)
                + " model pack(s) to content-addressed storage."@,
        ]
    } else {
        seq![]
    }) + (if report.reclaimed_bytes > 0 {
        seq![
            "Reclaimed "@ + text::decimal(report.reclaimed_bytes as nat)
                + " bytes of superseded model copies."@,
        ]
    } else {
        seq![]
    }) + pairs_of(report.failures@).map_values(
        |failure: (Seq<char>, Seq<char>)| migration_failure_text(failure),
    )
}

/// Tells what bringing the models on disk into their present layout came to.
pub fn migrate_model_store_once(report: &MigrationReport) -> (lines: Vec<String>)
    ensures
        text::texts(lines@) == migration_lines(*report),
{
    let mut lines: Vec<String> = Vec::new();
    if report.migrated > 0 {
        let mut line = "Converted ".to_owned();
        line.append(text::decimal_text(report.migrated as u64).as_str());
        line.append(" model pack(s) to content-addressed storage.");
        lines.push(line);
    }
    if report.reclaimed_bytes > 0 {
        let mut line = "Reclaimed ".to_owned();
        line.append(text::decimal_text(report.reclaimed_bytes).as_str());
        line.append(" bytes of superseded model copies.");
        lines.push(line);
    }
    let ghost head = text::texts(lines@);
    let ghost tail = pairs_of(report.failures@).map_values(
        |failure: (Seq<char>, Seq<char>)| migration_failure_text(failure),
    );
    let mut i: usize = 0;
    assert(tail.take(0) =~= seq![]);
    assert(head + tail.take(0) =~= head);
    while i < report.failures.len()
        invariant
            i <= report.failures@.len(),
            tail == pairs_of(report.failures@).map_values(
                |failure: (Seq<char>, Seq<char>)| migration_failure_text(failure),
            ),
            text::texts(lines@) == head + tail.take(i as int),
        decreases report.failures@.len() - i,
    {
        let ghost before = text::texts(lines@);
        let mut line = "warning: '".to_owned();
        line.append(report.failures[i].0.as_str());
        line.append("' could not be converted and is not listed: ");
        line.append(report.failures[i].1.as_str());
        assert(line@ == tail[i as int]);
        lines.push(line);
        assert(text::texts(lines@) =~= before.push(tail[i as int]));
        assert(tail.take(i + 1) =~= tail.take(i as int).push(tail[i as int]));
        i += 1;
    }
    assert(tail.take(i as int) =~= tail);
    assert(head + tail =~= migration_lines(*report));
    lines
}

/// No model that was left where it was goes untold.
pub proof fn law_every_failed_migration_is_told(report: MigrationReport, at: int)
    requires
        0 <= at < report.failures@.len(),
    ensures
        migration_lines(report).contains(
            migration_failure_text((report.failures@[at].0@, report.failures@[at].1@)),
        ),
{
    let lines = migration_lines(report);
    let count = report.failures@.len();
    let place = lines.len() - count + at;
    assert(lines[place] == migration_failure_text(
        (report.failures@[at].0@, report.failures@[at].1@),
    ));
}

/// The lines that tell of an error: what it is, and what caused it.
pub open spec fn error_lines(chain: Seq<Seq<char>>) -> Seq<Seq<char>> {
    Seq::new(
        chain.len(),
        |i: int|
            if i == 0 {
                "Error: "@ + chain[i]
            } else {
                "Caused by: "@ + chain[i]
            },
    )
}

/// Tells of an error.
pub fn exit_with_error(chain: &Vec<String>) -> (lines: Vec<String>)
    ensures
        text::texts(lines@) == error_lines(text::texts(chain@)),
{
    let mut lines: Vec<String> = Vec::new();
    let ghost all = error_lines(text::texts(chain@));
    let mut i: usize = 0;
    while i < chain.len()
        invariant
            all == error_lines(text::texts(chain@)),
            i <= chain@.len(),
            text::texts(lines@) == all.take(i as int),
        decreases chain@.len() - i,
    {
        let ghost before = text::texts(lines@);
        let mut line = if i == 0 {
            "Error: ".to_owned()
        } else {
            "Caused by: ".to_owned()
        };
        line.append(chain[i].as_str());
        lines.push(line);
        assert(text::texts(lines@) =~= before.push(all[i as int]));
        assert(all.take(i + 1) =~= all.take(i as int).push(all[i as int]));
        i += 1;
    }
    assert(all.take(i as int) =~= all);
    lines
}

/// A text filled with spaces to a width.
pub open spec fn widened(value: Seq<char>, width: nat) -> Seq<char> {
    if value.len() >= width {
        value
    } else {
        value + Seq::new((width - value.len()) as nat, |i: int| ' ')
    }
}

fn widen(value: &str, width: usize) -> (out: String)
    ensures
        out@ == widened(value@, width as nat),
{
    let mut out = value.to_owned();
    let length: usize = text::chars_of(value).len();
    let mut count: usize = length;
    assert(out@ =~= value@ + Seq::new(0, |i: int| ' '));
    while count < width
        invariant
            length == value@.len(),
            length <= count,
            count <= width || count == length,
            out@ == value@ + Seq::new((count - length) as nat, |i: int| ' '),
        decreases width - count,
    {
        text::push_char(&mut out, ' ');
        count += 1;
        assert(out@ =~= value@ + Seq::new((count - length) as nat, |i: int| ' '));
    }
    assert(out@ =~= widened(value@, width as nat));
    out
}

/// A model in the list of all.
pub struct ModelCard {
    pub id: String,
    pub family: String,
    pub tag: Option<String>,
    pub is_default: bool,
    pub backend: String,
    pub format: Option<String>,
    pub quantization: Option<String>,
    pub size: String,
    pub quality_profile: String,
    pub display_name: String,
}

/// What a search looks through.
pub open spec fn searched_text(card: ModelCard) -> Seq<char> {
    text::lowered(card.id@ + " "@ + card.family@ + " "@ + card.display_name@)
}

/// Whether a search finds a model: its name, its family or the name it is shown
/// under has what was asked for in it, whatever the case.
pub open spec fn finds(query: Option<Seq<char>>, card: ModelCard) -> bool {
    match query {
        Some(query) => text::occurs(searched_text(card), text::lowered(query)),
        None => true,
    }
}

/// Whether a search finds a model.
pub fn search_matches(query: Option<&str>, card: &ModelCard) -> (found: bool)
    ensures
        found == finds(text::opt_str(query), *card),
{
    match query {
        None => true,
        Some(query) => {
            let mut hay = card.id.as_str().to_owned();
            hay.append(" ");
            hay.append(card.family.as_str());
            hay.append(" ");
            hay.append(card.display_name.as_str());
            text::contains_text(
                text::lower_text(hay.as_str()).as_str(),
                text::lower_text(query).as_str(),
            )
        },
    }
}

/// A value, or a dash.
pub open spec fn or_dash(value: Option<Seq<char>>) -> Seq<char> {
    match value {
        Some(value) => value,
        None => "-"@,
    }
}

fn shown_or_dash(value: &Option<String>) -> (out: String)
    ensures
        out@ == or_dash(text::opt_string(*value)),
{
    match value {
        Some(value) => value.as_str().to_owned(),
        None => "-".to_owned(),
    }
}

/// The columns of a line in the list of models, before the last.
pub open spec fn table_text(
    id: Seq<char>,
    family: Seq<char>,
    tag: Seq<char>,
    default: Seq<char>,
    backend: Seq<char>,
    format: Seq<char>,
    quant: Seq<char>,
    size: Seq<char>,
    quality: Seq<char>,
    display_name: Seq<char>,
) -> Seq<char> {
    widened(id, 30) + " "@ + widened(family, 24) + " "@ + widened(tag, 10) + " "@ + widened(
        default,
        7,
    ) + " "@ + widened(backend, 14) + " "@ + widened(format, 10) + " "@ + widened(quant, 10)
        + " "@ + widened(size, 14) + " "@ + widened(quality, 28) + " "@ + display_name
}

/// The line of a model.
pub open spec fn card_text(card: ModelCard) -> Seq<char> {
    table_text(
        card.id@,
        card.family@,
        or_dash(text::opt_string(card.tag)),
        if card.is_default {
            "yes"@
        } else {
            "-"@
        },
        card.backend@,
        or_dash(text::opt_string(card.format)),
        or_dash(text::opt_string(card.quantization)),
        card.size@,
        card.quality_profile@,
        card.display_name@,
    )
}

/// Shows a model.
pub fn card_line(card: &ModelCard) -> (out: String)
    ensures
        out@ == card_text(*card),
{
    let mut out = widen(card.id.as_str(), 30);
    out.append(" ");
    out.append(widen(card.family.as_str(), 24).as_str());
    out.append(" ");
    out.append(widen(shown_or_dash(&card.tag).as_str(), 10).as_str());
    out.append(" ");
    out.append(
        widen(
            if card.is_default {
                "yes"
            } else {
                "-"
            },
            7,
        ).as_str(),
    );
    out.append(" ");
    out.append(widen(card.backend.as_str(), 14).as_str());
    out.append(" ");
    out.append(widen(shown_or_dash(&card.format).as_str(), 10).as_str());
    out.append(" ");
    out.append(widen(shown_or_dash(&card.quantization).as_str(), 10).as_str());
    out.append(" ");
    out.append(widen(card.size.as_str(), 14).as_str());
    out.append(" ");
    out.append(widen(card.quality_profile.as_str(), 28).as_str());
    out.append(" ");
    out.append(card.display_name.as_str());
    out
}

/// The line above the models.
pub fn card_header() -> (out: String)
    ensures
        out@ == table_text(
            "ID"@,
            "FAMILY"@,
            "TAG"@,
            "DEFAULT"@,
            "BACKEND"@,
            "FORMAT"@,
            "QUANT"@,
            "SIZE"@,
            "QUALITY"@,
            "DISPLAY NAME"@,
        ),
{
    let mut out = widen("ID", 30);
    out.append(" ");
    out.append(widen("FAMILY", 24).as_str());
    out.append(" ");
    out.append(widen("TAG", 10).as_str());
    out.append(" ");
    out.append(widen("DEFAULT", 7).as_str());
    out.append(" ");
    out.append(widen("BACKEND", 14).as_str());
    out.append(" ");
    out.append(widen("FORMAT", 10).as_str());
    out.append(" ");
    out.append(widen("QUANT", 10).as_str());
    out.append(" ");
    out.append(widen("SIZE", 14).as_str());
    out.append(" ");
    out.append(widen("QUALITY", 28).as_str());
    out.append(" ");
    out.append("DISPLAY NAME");
    out
}

/// The lines of the models that a search finds, in their order.
pub open spec fn found_lines(query: Option<Seq<char>>, cards: Seq<ModelCard>) -> Seq<Seq<char>>
    decreases cards.len(),
{
    if cards.len() == 0 {
        seq![]
    } else if finds(query, cards.last()) {
        found_lines(query, cards.drop_last()).push(card_text(cards.last()))
    } else {
        found_lines(query, cards.drop_last())
    }
}

/// Shows the models that a search finds.
pub fn search_models(query: Option<&str>, cards: &Vec<ModelCard>) -> (lines: Vec<String>)
    ensures
        text::texts(lines@) == found_lines(text::opt_str(query), cards@),
{
    let mut lines: Vec<String> = Vec::new();
    let mut i: usize = 0;
    assert(cards@.take(0) =~= seq![]);
    assert(text::texts(lines@) =~= seq![]);
    while i < cards.len()
        invariant
            i <= cards@.len(),
            text::texts(lines@) == found_lines(text::opt_str(query), cards@.take(i as int)),
        decreases cards@.len() - i,
    {
        let ghost before = text::texts(lines@);
        proof {
            assert(cards@.take(i + 1).drop_last() =~= cards@.take(i as int));
        }
        if search_matches(query, &cards[i]) {
            lines.push(card_line(&cards[i]));
            assert(text::texts(lines@) =~= before.push(card_text(cards@[i as int])));
        }
        i += 1;
    }
    assert(cards@.take(i as int) =~= cards@);
    lines
}

/// What a model's details are shown of.
#[derive(Clone, Copy, Debug, PartialEq, Eq, Structural)]
pub enum ShowTarget {
    /// The pack in a file.
    Pack,
    /// A model in the catalog.
    Catalog,
}

/// Decides what a model's details are shown of: of the pack in a file, if the target
/// is a file with the extension of packs, and else of a model in the catalog.
pub fn show_model(is_file: bool, extension: Option<&str>) -> (target: ShowTarget)
    ensures
        target == (if is_file && text::opt_str(extension) == Some("oasr"@) {
            ShowTarget::Pack
        } else {
            ShowTarget::Catalog
        }),
{
    if is_file && text::is_text(extension, "oasr") {
        ShowTarget::Pack
    } else {
        ShowTarget::Catalog
    }
}

/// The settings.
#[derive(Clone, Copy, Debug, PartialEq, Eq, Structural)]
pub enum ConfigKey {
    DefaultModel,
    DefaultBackend,
    MediaFfmpegBin,
    DownloadSource,
}

/// A command on the settings.
#[derive(Clone, Copy, Debug, PartialEq, Eq, Structural)]
pub enum ConfigCommand {
    List,
    Get(ConfigKey),
    Change(ConfigKey),
    Clear(ConfigKey),
    RecoverDefault,
}

/// What is done with the settings.
#[derive(Clone, Copy, Debug, PartialEq, Eq, Structural)]
pub enum ConfigStep {
    /// The selection of the default model is mended, without the settings.
    Recover,
    /// All settings are shown.
    ShowAll,
    /// A setting is shown.
    Show(ConfigKey),
    /// The default model is shown as the selection has it.
    ShowDefaultModel,
    /// A setting is changed and the settings are saved.
    Change(ConfigKey),
}

/// The message for the setting that is not changed here.
pub open spec fn default_model_message() -> Seq<char> {
    "default_model is managed by the default-selection authority; use the daemon's /v1/models/default endpoint or the desktop default-model activation surface instead."@
}

/// Checks that a setting may be changed: the default model is not a setting that is
/// changed here.
pub fn reject_legacy_default_model_mutation(key: ConfigKey) -> (result: Result<(), String>)
    ensures
        match result {
            Ok(_) => key != ConfigKey::DefaultModel,
            Err(message) => key == ConfigKey::DefaultModel && message@ == default_model_message(),
        },
{
    if key == ConfigKey::DefaultModel {
        Err(
            "default_model is managed by the default-selection authority; use the daemon's /v1/models/default endpoint or the desktop default-model activation surface instead.".to_owned(),
        )
    } else {
        Ok(())
    }
}

/// Decides what is done with the settings.
pub fn config_command(command: ConfigCommand) -> (result: Result<ConfigStep, String>)
    ensures
        match command {
            ConfigCommand::RecoverDefault => result == Ok::<ConfigStep, String>(
                ConfigStep::Recover,
            ),
            ConfigCommand::List => result == Ok::<ConfigStep, String>(ConfigStep::ShowAll),
            ConfigCommand::Get(key) => result == Ok::<ConfigStep, String>(
                if key == ConfigKey::DefaultModel {
                    ConfigStep::ShowDefaultModel
                } else {
                    ConfigStep::Show(key)
                },
            ),
            ConfigCommand::Change(key) => if key == ConfigKey::DefaultModel {
                result matches Err(message) && message@ == default_model_message()
            } else {
                result == Ok::<ConfigStep, String>(ConfigStep::Change(key))
            },
            ConfigCommand::Clear(key) => if key == ConfigKey::DefaultModel {
                result matches Err(message) && message@ == default_model_message()
            } else {
                result == Ok::<ConfigStep, String>(ConfigStep::Change(key))
            },
        },
{
    match command {
        ConfigCommand::RecoverDefault => Ok(ConfigStep::Recover),
        ConfigCommand::List => Ok(ConfigStep::ShowAll),
        ConfigCommand::Get(key) => if key == ConfigKey::DefaultModel {
            Ok(ConfigStep::ShowDefaultModel)
        } else {
            Ok(ConfigStep::Show(key))
        },
        ConfigCommand::Change(key) | ConfigCommand::Clear(key) => {
            match reject_legacy_default_model_mutation(key) {
                Ok(()) => Ok(ConfigStep::Change(key)),
                Err(message) => Err(message),
            }
        },
    }
}

/// How a setting is shown.
pub open spec fn setting_text(value: Option<Seq<char>>) -> Seq<char> {
    match value {
        Some(value) => value,
        None => "<unset>"@,
    }
}

/// Shows a setting.
pub fn setting_value(value: Option<&str>) -> (out: String)
    ensures
        out@ == setting_text(text::opt_str(value)),
{
    match value {
        Some(value) => value.to_owned(),
        None => "<unset>".to_owned(),
    }
}

/// Shows a setting with its name.
pub fn setting_line(name: &str, value: Option<&str>) -> (out: String)
    ensures
        out@ == name@ + "="@ + setting_text(text::opt_str(value)),
{
    let mut out = name.to_owned();
    out.append("=");
    out.append(setting_value(value).as_str());
    out
}

/// Which keys a signature is checked against after it is made.
#[derive(Clone, Copy, Debug, PartialEq, Eq, Structural)]
pub enum TrustRoots {
    Production,
    Local,
}

/// Decides which keys a catalog's signature is checked against: the one of releases
/// against its own alone, and any other against the local ones.
pub fn signature_roots(key_id: &str, production_key_id: &str) -> (roots: TrustRoots)
    ensures
        roots == (if key_id@ == production_key_id@ {
            TrustRoots::Production
        } else {
            TrustRoots::Local
        }),
{
    if text::same_text(key_id, production_key_id) {
        TrustRoots::Production
    } else {
        TrustRoots::Local
    }
}

/// What signing a manifest does next, and at last what came of it.
#[derive(Clone, Copy, Debug, PartialEq, Eq, Structural)]
pub enum SignStep {
    /// Read the seed of the signing key.
    ReadSeed,
    /// Show the public key that belongs to the seed.
    ShowPublicKey,
    /// Read what is to be signed.
    ReadContents,
    /// Read from the contents where they are published.
    FindAddress,
    /// Sign the contents.
    Sign,
    /// Check the signature against these keys.
    Verify(TrustRoots),
    /// Make the directory of the output, if it is in one.
    MakeDirectory,
    /// Write the signature.
    Write,
    End(SignEnd),
}

/// What signing a manifest came to.
#[derive(Clone, Copy, Debug, PartialEq, Eq, Structural)]
pub enum SignEnd {
    KeyShown,
    Written,
    Failed,
}

/// How a manifest is to be signed.
#[derive(Clone, Copy, Debug, PartialEq, Eq, Structural)]
pub struct SignRequest {
    /// Whether only the public key is asked for.
    pub print_public_key: bool,
    /// Whether the contents say where they are published.
    pub finds_address: bool,
    /// The keys that the signature is checked against before it is written.
    pub roots: Option<TrustRoots>,
}

/// What signing a manifest does after a step that succeeded or failed.
pub open spec fn next_sign_step(step: SignStep, ok: bool, request: SignRequest) -> SignStep {
    if step is End {
        step
    } else if !ok {
        SignStep::End(SignEnd::Failed)
    } else {
        match step {
            SignStep::ReadSeed => if request.print_public_key {
                SignStep::ShowPublicKey
            } else {
                SignStep::ReadContents
            },
            SignStep::ShowPublicKey => SignStep::End(SignEnd::KeyShown),
            SignStep::ReadContents => if request.finds_address {
                SignStep::FindAddress
            } else {
                SignStep::Sign
            },
            SignStep::FindAddress => SignStep::Sign,
            SignStep::Sign => match request.roots {
                Some(roots) => SignStep::Verify(roots),
                None => SignStep::MakeDirectory,
            },
            SignStep::Verify(_) => SignStep::MakeDirectory,
            SignStep::MakeDirectory => SignStep::Write,
            SignStep::Write => SignStep::End(SignEnd::Written),
            SignStep::End(_) => step,
        }
    }
}

/// Decides what signing a manifest does after a step that succeeded or failed.
fn go_on_signing(step: SignStep, ok: bool, request: SignRequest) -> (next: SignStep)
    ensures
        next == next_sign_step(step, ok, request),
{
    if !ok {
        return match step {
            SignStep::End(_) => step,
            _ => SignStep::End(SignEnd::Failed),
        };
    }
    match step {
        SignStep::ReadSeed => if request.print_public_key {
            SignStep::ShowPublicKey
        } else {
            SignStep::ReadContents
        },
        SignStep::ShowPublicKey => SignStep::End(SignEnd::KeyShown),
        SignStep::ReadContents => if request.finds_address {
            SignStep::FindAddress
        } else {
            SignStep::Sign
        },
        SignStep::FindAddress => SignStep::Sign,
        SignStep::Sign => match request.roots {
            Some(roots) => SignStep::Verify(roots),
            None => SignStep::MakeDirectory,
        },
        SignStep::Verify(_) => SignStep::MakeDirectory,
        SignStep::MakeDirectory => SignStep::Write,
        SignStep::Write => SignStep::End(SignEnd::Written),
        SignStep::End(_) => step,
    }
}

/// How a catalog is signed: its signature is checked against the keys that go with
/// the key's name, and its address comes from the catalog unless it was given.
pub open spec fn catalog_signing(
    print_public_key: bool,
    has_address: bool,
    key_id: Seq<char>,
    production_key_id: Seq<char>,
) -> SignRequest {
    SignRequest {
        print_public_key,
        finds_address: !has_address,
        roots: Some(
            if key_id == production_key_id {
                TrustRoots::Production
            } else {
                TrustRoots::Local
            },
        ),
    }
}

/// Decides what signing a catalog does after a step that succeeded or failed.
pub fn sign_catalog_manifest_command(
    step: SignStep,
    ok: bool,
    print_public_key: bool,
    has_address: bool,
    key_id: &str,
    production_key_id: &str,
) -> (next: SignStep)
    ensures
        next == next_sign_step(
            step,
            ok,
            catalog_signing(print_public_key, has_address, key_id@, production_key_id@),
        ),
{
    let roots = signature_roots(key_id, production_key_id);
    go_on_signing(
        step,
        ok,
        SignRequest { print_public_key, finds_address: !has_address, roots: Some(roots) },
    )
}

/// How a qualification manifest is signed: its address is given, and whoever signs it
/// validates it.
pub open spec fn qualification_signing(print_public_key: bool) -> SignRequest {
    SignRequest { print_public_key, finds_address: false, roots: None }
}

/// Decides what signing a qualification manifest does after a step that succeeded or
/// failed.
pub fn sign_qualification_manifest_command(step: SignStep, ok: bool, print_public_key: bool) -> (next:
    SignStep)
    ensures
        next == next_sign_step(step, ok, qualification_signing(print_public_key)),
{
    go_on_signing(step, ok, SignRequest { print_public_key, finds_address: false, roots: None })
}

/// Where signing stands after so many steps, if each succeeded as told.
pub open spec fn signing_after(
    outcomes: spec_fn(SignStep) -> bool,
    steps: nat,
    request: SignRequest,
) -> SignStep
    decreases steps,
{
    if steps == 0 {
        SignStep::ReadSeed
    } else {
        let step = signing_after(outcomes, (steps - 1) as nat, request);
        next_sign_step(step, outcomes(step), request)
    }
}

/// A signature that is to be checked is written only after it was found to verify.
pub proof fn law_only_verified_signatures_are_written(
    outcomes: spec_fn(SignStep) -> bool,
    steps: nat,
    request: SignRequest,
)
    requires
        request.roots is Some,
        signing_after(outcomes, steps, request) == SignStep::Write,
    ensures
        outcomes(SignStep::Verify(request.roots->Some_0)),
{
    lemma_signing_progress(outcomes, steps, request);
}

/// Whoever asks for the public key alone gets nothing signed and nothing written.
pub proof fn law_showing_the_key_signs_nothing(
    outcomes: spec_fn(SignStep) -> bool,
    steps: nat,
    request: SignRequest,
)
    requires
        request.print_public_key,
    ensures
        ({
            let step = signing_after(outcomes, steps, request);
            step != SignStep::Sign && step != SignStep::MakeDirectory && step != SignStep::Write
                && step != SignStep::End(SignEnd::Written)
        }),
{
    lemma_signing_progress(outcomes, steps, request);
}

proof fn lemma_signing_progress(
    outcomes: spec_fn(SignStep) -> bool,
    steps: nat,
    request: SignRequest,
)
    ensures
        ({
            let step = signing_after(outcomes, steps, request);
            let later = step == SignStep::MakeDirectory || step == SignStep::Write || step
                == SignStep::End(SignEnd::Written);
            &&& later && request.roots is Some ==> outcomes(
                SignStep::Verify(request.roots->Some_0),
            )
            &&& step is Verify ==> request.roots == Some(step->Verify_0)
            &&& request.print_public_key ==> step == SignStep::ReadSeed || step
                == SignStep::ShowPublicKey || step == SignStep::End(SignEnd::KeyShown) || step
                == SignStep::End(SignEnd::Failed)
        }),
    decreases steps,
{
    if steps > 0 {
        lemma_signing_progress(outcomes, (steps - 1) as nat, request);
    }
}

/// A key for the server, as it is shown.
pub struct ApiKeyRow {
    pub id: String,
    pub name: Option<String>,
    pub created_at: String,
    pub token_preview: String,
}

/// What a command on the keys for the server came to.
#[allow(inconsistent_fields)]
pub enum ApiKeyOutcome {
    Created { id: String, name: Option<String>, token: String },
    Listed(Vec<ApiKeyRow>),
    Revoked { id: String, found: bool, remaining: usize },
}

/// What is shown of a key that was made.
pub open spec fn key_created_text(id: Seq<char>, name: Option<Seq<char>>, token: Seq<char>) -> Seq<
    char,
> {
    "Created API key "@ + id + " ("@ + match name {
        Some(name) => name,
        None => "unnamed"@,
    } + ").\nThis is the ONLY time the full key is shown -- store it now:\n\n  "@ + token
        + "\n\nOnce any key exists, `openasr serve` requires it (Authorization: Bearer <key>) even on 127.0.0.1. Run `openasr apikey revoke "@
        + id + "` to remove it."@
}

/// The line of a key.
pub open spec fn key_row_text(
    id: Seq<char>,
    name: Seq<char>,
    created_at: Seq<char>,
    preview: Seq<char>,
) -> Seq<char> {
    widened(id, 22) + " "@ + widened(name, 20) + " "@ + widened(created_at, 26) + " "@ + preview
}

/// The lines of keys.
pub open spec fn key_lines(keys: Seq<ApiKeyRow>) -> Seq<Seq<char>> {
    if keys.len() == 0 {
        seq![
            "No API keys configured; `openasr serve` trusts every loopback (127.0.0.1) caller. Run `openasr apikey create` to require one."@,
        ]
    } else {
        seq![key_row_text("ID"@, "NAME"@, "CREATED AT"@, "PREVIEW"@)] + keys.map_values(
            |key: ApiKeyRow|
                key_row_text(
                    key.id@,
                    or_dash(text::opt_string(key.name)),
                    key.created_at@,
                    key.token_preview@,
                ),
        )
    }
}

/// The message for a key that is not there.
pub open spec fn key_missing_text(id: Seq<char>) -> Seq<char> {
    "No API key with id '"@ + id + "'. Run `openasr apikey list` to see current keys."@
}

/// What is shown of a key that was revoked.
pub open spec fn key_revoked_text(id: Seq<char>, remaining: usize) -> Seq<char> {
    if remaining == 0 {
        "Revoked API key "@ + id
            + ". No keys remain; `openasr serve` now trusts every loopback caller again."@
    } else {
        "Revoked API key "@ + id + "."@
    }
}

fn key_row(id: &str, name: &str, created_at: &str, preview: &str) -> (out: String)
    ensures
        out@ == key_row_text(id@, name@, created_at@, preview@),
{
    let mut out = widen(id, 22);
    out.append(" ");
    out.append(widen(name, 20).as_str());
    out.append(" ");
    out.append(widen(created_at, 26).as_str());
    out.append(" ");
    out.append(preview);
    out
}

fn apikey_list(keys: &Vec<ApiKeyRow>) -> (lines: Vec<String>)
    ensures
        text::texts(lines@) == key_lines(keys@),
{
    let mut lines: Vec<String> = Vec::new();
    if keys.len() == 0 {
        lines.push(
            "No API keys configured; `openasr serve` trusts every loopback (127.0.0.1) caller. Run `openasr apikey create` to require one.".to_owned(),
        );
        assert(text::texts(lines@) =~= key_lines(keys@));
        return lines;
    }
    lines.push(key_row("ID", "NAME", "CREATED AT", "PREVIEW"));
    let ghost all = key_lines(keys@);
    let mut i: usize = 0;
    assert(text::texts(lines@) =~= all.take(1));
    while i < keys.len()
        invariant
            keys@.len() > 0,
            all == key_lines(keys@),
            i <= keys@.len(),
            text::texts(lines@) == all.take(i + 1),
        decreases keys@.len() - i,
    {
        let ghost before = text::texts(lines@);
        let key = &keys[i];
        lines.push(
            key_row(
                key.id.as_str(),
                shown_or_dash(&key.name).as_str(),
                key.created_at.as_str(),
                key.token_preview.as_str(),
            ),
        );
        assert(text::texts(lines@) =~= before.push(all[i + 1]));
        assert(all.take(i + 2) =~= all.take(i + 1).push(all[i + 1]));
        i += 1;
    }
    assert(all.take(i + 1) =~= all);
    lines
}

/// Shows what a command on the keys for the server came to.
pub fn apikey_command(outcome: &ApiKeyOutcome) -> (result: Result<Vec<String>, String>)
    ensures
        match *outcome {
            ApiKeyOutcome::Created { id, name, token } => result matches Ok(lines) && text::texts(
                lines@,
            ) == seq![key_created_text(id@, text::opt_string(name), token@)],
            ApiKeyOutcome::Listed(keys) => result matches Ok(lines) && text::texts(lines@)
                == key_lines(keys@),
            ApiKeyOutcome::Revoked { id, found, remaining } => if found {
                result matches Ok(lines) && text::texts(lines@) == seq![
                    key_revoked_text(id@, remaining),
                ]
            } else {
                result matches Err(message) && message@ == key_missing_text(id@)
            },
        },
{
    let mut lines: Vec<String> = Vec::new();
    match outcome {
        ApiKeyOutcome::Created { id, name, token } => {
            let mut out = "Created API key ".to_owned();
            out.append(id.as_str());
            out.append(" (");
            match name {
                Some(name) => {
                    out.append(name.as_str());
                },
                None => {
                    out.append("unnamed");
                },
            }
            out.append(").\nThis is the ONLY time the full key is shown -- store it now:\n\n  ");
            out.append(token.as_str());
            out.append(
                "\n\nOnce any key exists, `openasr serve` requires it (Authorization: Bearer <key>) even on 127.0.0.1. Run `openasr apikey revoke ",
            );
            out.append(id.as_str());
            out.append("` to remove it.");
            lines.push(out);
            assert(text::texts(lines@) =~= seq![
                key_created_text(id@, text::opt_string(*name), token@),
            ]);
            Ok(lines)
        },
        ApiKeyOutcome::Listed(keys) => Ok(apikey_list(keys)),
        ApiKeyOutcome::Revoked { id, found, remaining } => {
            if !*found {
                let mut message = "No API key with id '".to_owned();
                message.append(id.as_str());
                message.append("'. Run `openasr apikey list` to see current keys.");
                return Err(message);
            }
            let mut out = "Revoked API key ".to_owned();
            out.append(id.as_str());
            if *remaining == 0 {
                out.append(
                    ". No keys remain; `openasr serve` now trusts every loopback caller again.",
                );
            } else {
                out.append(".");
            }
            lines.push(out);
            assert(text::texts(lines@) =~= seq![key_revoked_text(id@, *remaining)]);
            Ok(lines)
        },
    }
}

/// The line that tells of the models that are known: how many, and whether the
/// catalog they come from is the best there is.
pub open spec fn registry_text(count: nat, degraded: Option<(Seq<char>, Seq<char>)>) -> Seq<char> {
    match degraded {
        Some((tier, reason)) => "Model registry: degraded, serving the "@ + tier + " catalog ("@
            + text::decimal(count) + " models) -- "@ + reason,
        None => "Model registry: ok ("@ + text::decimal(count) + " models)"@,
    }
}

/// Tells of the models that are known.
pub fn registry_line(count: usize, degraded: Option<(&str, &str)>) -> (out: String)
    ensures
        out@ == registry_text(
            count as nat,
            match degraded {
                Some((tier, reason)) => Some((tier@, reason@)),
                None => None,
            },
        ),
{
    match degraded {
        Some((tier, reason)) => {
            let mut out = "Model registry: degraded, serving the ".to_owned();
            out.append(tier);
            out.append(" catalog (");
            out.append(text::decimal_text(count as u64).as_str());
            out.append(" models) -- ");
            out.append(reason);
            out
        },
        None => {
            let mut out = "Model registry: ok (".to_owned();
            out.append(text::decimal_text(count as u64).as_str());
            out.append(" models)");
            out
        },
    }
}

/// The precisions of packs.
#[derive(Clone, Copy, Debug, PartialEq, Eq, Structural)]
#[allow(non_camel_case_types)]
pub enum PackQuant {
    Fp16,
    Q8_0,
    Q3_K,
    Q4_K,
}

/// The precision that a pack is checked for.
#[derive(Clone, Copy, Debug, PartialEq, Eq, Structural)]
#[allow(non_camel_case_types)]
pub enum AuditQuantTier {
    Fp16,
    Q8_0,
    Q3_K,
    Q4_K,
}

impl AuditQuantTier {
    /// The precision of packs that a check is for.
    pub fn to_pack_quant(self) -> (quant: PackQuant)
        ensures
            match self {
                AuditQuantTier::Fp16 => quant == PackQuant::Fp16,
                AuditQuantTier::Q8_0 => quant == PackQuant::Q8_0,
                AuditQuantTier::Q3_K => quant == PackQuant::Q3_K,
                AuditQuantTier::Q4_K => quant == PackQuant::Q4_K,
            },
    {
        match self {
            AuditQuantTier::Fp16 => PackQuant::Fp16,
            AuditQuantTier::Q8_0 => PackQuant::Q8_0,
            AuditQuantTier::Q3_K => PackQuant::Q3_K,
            AuditQuantTier::Q4_K => PackQuant::Q4_K,
        }
    }
}

/// Which commands look at the installed models, come before the engine and may block, and
/// that the server alone logs its panics.
pub proof fn law_commands_are_carried_out(command: CommandKind)
    ensures
        command_plan(command).converts_store <==> command is List || command is Pull
            || command is Rm || command is Doctor || command is Show || command is ModelPack
            || command is Transcribe || command is BenchSuite || command is BenchReceipt
            || command is Live || command is Serve,
        !command_plan(command).needs_engine <==> command is MemoryPressureHelper
            || command is ValidateOwnershipEvidence || command is SignQualificationManifest
            || command is VerifyQualificationManifest || command is QualifyBackend
            || command is QualificationChild || command is BackendPlugin,
        command_plan(command).blocking <==> command is QualifyBackend
            || command is QualificationChild || command is BackendPlugin || command is Pull
            || command is Transcribe,
        command_plan(command).logs_panics <==> command is Serve,
{
}

/// What is told of converted models: how many were converted and how many bytes were
/// reclaimed, each only if there were any, and every model that was left, in its order,
/// with its reason.
pub proof fn law_conversion_is_told(report: MigrationReport, at: int)
    ensures
        ({
            let lines = migration_lines(report);
            let first = if report.migrated > 0 {
                1int
            } else {
                0
            };
            let second = if report.reclaimed_bytes > 0 {
                1int
            } else {
                0
            };
            &&& lines.len() == first + second + report.failures@.len()
            &&& report.migrated > 0 ==> lines[0] == "Converted "@ + text::decimal(
                report.migrated as nat,
            ) + " model pack(s) to content-addressed storage."@
            &&& report.reclaimed_bytes > 0 ==> lines[first] == "Reclaimed "@ + text::decimal(
                report.reclaimed_bytes as nat,
            ) + " bytes of superseded model copies."@
            &&& 0 <= at < report.failures@.len() ==> lines[first + second + at] == "warning: '"@
                + report.failures@[at].0@ + "' could not be converted and is not listed: "@
                + report.failures@[at].1@
        }),
{
}

/// An error is told with everything that caused it, in order.
pub proof fn law_every_cause_is_told(chain: Seq<Seq<char>>, at: int)
    ensures
        error_lines(chain).len() == chain.len(),
        chain.len() > 0 ==> error_lines(chain)[0] == "Error: "@ + chain[0],
        0 < at < chain.len() ==> error_lines(chain)[at] == "Caused by: "@ + chain[at],
{
}

/// A column begins with its value, in full, and is filled with spaces to its width.
pub proof fn law_columns_keep_their_values(value: Seq<char>, width: nat)
    ensures
        widened(value, width).take(value.len() as int) == value,
        widened(value, width).len() == if value.len() >= width {
            value.len()
        } else {
            width
        },
        forall|i: int|
            value.len() <= i < widened(value, width).len() ==> #[trigger] widened(value, width)[i]
                == ' ',
{
    assert(widened(value, width).take(value.len() as int) =~= value);
}

/// A search without a query finds every model; one with a query finds exactly those that
/// have it in their name, their family and the name they are shown under, with spaces
/// between, whatever the case.
pub proof fn law_search_finds_what_was_asked_for(query: Seq<char>, card: ModelCard)
    ensures
        finds(None, card),
        finds(Some(query), card) <==> text::occurs(
            text::lowered(card.id@ + " "@ + card.family@ + " "@ + card.display_name@),
            text::lowered(query),
        ),
        finds(Some(query), card) == finds(Some(text::lowered(query)), card),
{
    assert(text::lowered(text::lowered(query)) =~= text::lowered(query)) by {
        if query.len() > 0 {
            text::law_lowering_goes_by_characters(query, 0);
        }
    }
}

/// A search shows the line of each model that it finds, in their order, and of no other.
pub proof fn law_found_models_are_shown(
    query: Option<Seq<char>>,
    left: Seq<ModelCard>,
    right: Seq<ModelCard>,
    card: ModelCard,
)
    ensures
        found_lines(query, left + right) == found_lines(query, left) + found_lines(query, right),
        finds(query, card) ==> found_lines(query, seq![card]) == seq![card_text(card)],
        !finds(query, card) ==> found_lines(query, seq![card]).len() == 0,
        found_lines(query, seq![]).len() == 0,
    decreases right.len(),
{
    assert(seq![card].drop_last() =~= seq![]);
    reveal_with_fuel(found_lines, 2);
    if finds(query, card) {
        assert(found_lines(query, seq![card]) =~= seq![card_text(card)]);
    }
    if right.len() == 0 {
        assert(left + right =~= left);
        assert(found_lines(query, left) + found_lines(query, right) =~= found_lines(query, left));
    } else {
        law_found_models_are_shown(query, left, right.drop_last(), card);
        assert((left + right).drop_last() =~= left + right.drop_last());
        assert(found_lines(query, left + right) =~= found_lines(query, left) + found_lines(
            query,
            right,
        ));
    }
}

/// The line of a model has its values in their columns, a dash for what is not known, and
/// says which is the default.
pub proof fn law_model_line_shows_the_model(card: ModelCard)
    ensures
        card_text(card) == widened(card.id@, 30) + " "@ + widened(card.family@, 24) + " "@
            + widened(
            if card.tag is Some {
                card.tag->Some_0@
            } else {
                "-"@
            },
            10,
        ) + " "@ + widened(
            if card.is_default {
                "yes"@
            } else {
                "-"@
            },
            7,
        ) + " "@ + widened(card.backend@, 14) + " "@ + widened(
            if card.format is Some {
                card.format->Some_0@
            } else {
                "-"@
            },
            10,
        ) + " "@ + widened(
            if card.quantization is Some {
                card.quantization->Some_0@
            } else {
                "-"@
            },
            10,
        ) + " "@ + widened(card.size@, 14) + " "@ + widened(card.quality_profile@, 28) + " "@
            + card.display_name@,
{
}

/// Signing goes through its steps in order, and a failure ends it as failed. A catalog's
/// signature is verified against the production roots exactly if it was made with the
/// production key, and a qualification's is not.
pub proof fn law_signing_goes_through_its_steps(
    request: SignRequest,
    step: SignStep,
    print_public_key: bool,
    has_address: bool,
    key_id: Seq<char>,
    production_key_id: Seq<char>,
)
    ensures
        !(step is End) ==> next_sign_step(step, false, request) == SignStep::End(SignEnd::Failed),
        ({
            let after = |step: SignStep| next_sign_step(step, true, request);
            &&& after(SignStep::ReadSeed) == if request.print_public_key {
                SignStep::ShowPublicKey
            } else {
                SignStep::ReadContents
            }
            &&& after(SignStep::ShowPublicKey) == SignStep::End(SignEnd::KeyShown)
            &&& after(SignStep::ReadContents) == if request.finds_address {
                SignStep::FindAddress
            } else {
                SignStep::Sign
            }
            &&& after(SignStep::FindAddress) == SignStep::Sign
            &&& request.roots matches Some(roots) ==> after(SignStep::Sign) == SignStep::Verify(
                roots,
            ) && after(SignStep::Verify(roots)) == SignStep::MakeDirectory
            &&& request.roots is None ==> after(SignStep::Sign) == SignStep::MakeDirectory
            &&& after(SignStep::MakeDirectory) == SignStep::Write
            &&& after(SignStep::Write) == SignStep::End(SignEnd::Written)
        }),
        ({
            let signing = catalog_signing(print_public_key, has_address, key_id, production_key_id);
            &&& signing.print_public_key == print_public_key
            &&& signing.finds_address == !has_address
            &&& signing.roots == Some(TrustRoots::Production) <==> key_id == production_key_id
            &&& signing.roots == Some(TrustRoots::Local) <==> key_id != production_key_id
        }),
        qualification_signing(print_public_key).print_public_key == print_public_key,
        !qualification_signing(print_public_key).finds_address,
        qualification_signing(print_public_key).roots is None,
{
}

/// What is shown of keys: a new key with its token and how to remove it; a line for each
/// key under a heading, in their order, with no token; and that none is left where none
/// is.
pub proof fn law_keys_are_shown(
    keys: Seq<ApiKeyRow>,
    at: int,
    id: Seq<char>,
    name: Option<Seq<char>>,
    token: Seq<char>,
    remaining: usize,
)
    ensures
        text::occurs(key_created_text(id, name, token), token),
        text::begins(key_created_text(id, name, token), "Created API key "@ + id),
        keys.len() == 0 ==> key_lines(keys).len() == 1,
        keys.len() > 0 ==> key_lines(keys).len() == keys.len() + 1 && key_lines(keys)[0]
            == widened("ID"@, 22) + " "@ + widened("NAME"@, 20) + " "@ + widened(
            "CREATED AT"@,
            26,
        ) + " "@ + "PREVIEW"@,
        0 <= at < keys.len() ==> key_lines(keys)[at + 1] == widened(keys[at].id@, 22) + " "@
            + widened(
            if keys[at].name is Some {
                keys[at].name->Some_0@
            } else {
                "-"@
            },
            20,
        ) + " "@ + widened(keys[at].created_at@, 26) + " "@ + keys[at].token_preview@,
        remaining > 0 ==> key_revoked_text(id, remaining) == "Revoked API key "@ + id + "."@,
        remaining == 0 ==> key_revoked_text(id, remaining) == "Revoked API key "@ + id
            + ". No keys remain; `openasr serve` now trusts every loopback caller again."@,
        text::occurs(key_missing_text(id), id),
{
    let before = "Created API key "@ + id + " ("@ + match name {
        Some(name) => name,
        None => "unnamed"@,
    } + ").\nThis is the ONLY time the full key is shown -- store it now:\n\n  "@;
    let after =
        "\n\nOnce any key exists, `openasr serve` requires it (Authorization: Bearer <key>) even on 127.0.0.1. Run `openasr apikey revoke "@
        + id + "` to remove it."@;
    text::lemma_occurs_between(before, token, after);
    let whole = key_created_text(id, name, token);
    assert(whole =~= before + token + after);
    let head = "Created API key "@ + id;
    assert(whole.subrange(0, head.len() as int) =~= head);
    text::lemma_occurs_between(
        "No API key with id '"@,
        id,
        "'. Run `openasr apikey list` to see current keys."@,
    );
}

/// What is told of the registry: how many models there are, and, where the catalog is not
/// the best there is, which it is and why. A setting that has no value is shown as unset.
pub proof fn law_registry_and_settings_are_told(
    count: nat,
    tier: Seq<char>,
    reason: Seq<char>,
    value: Seq<char>,
)
    ensures
        registry_text(count, None) == "Model registry: ok ("@ + text::decimal(count)
            + " models)"@,
        registry_text(count, Some((tier, reason))) == "Model registry: degraded, serving the "@
            + tier + " catalog ("@ + text::decimal(count) + " models) -- "@ + reason,
        setting_text(Some(value)) == value,
        setting_text(None) == "<unset>"@,
        or_dash(Some(value)) == value,
        or_dash(None) == "-"@,
{
}

} // verus!
