//! What the server is started with: its certificate, its keys and its model.

use vstd::prelude::*;

use crate::backend::BackendKind;
use crate::text;

verus! {

/// The address that a server listens on, as far as it decides anything.
#[derive(Debug)]
pub struct ListenAddress {
    /// The address without the port, as text.
    pub ip: String,
    pub is_unspecified: bool,
    pub is_loopback: bool,
}

/// The names among the ones that are configured: those that are not blank, without
/// the white space around them.
pub open spec fn kept_names(configured: Seq<Seq<char>>) -> Seq<Seq<char>>
    decreases configured.len(),
{
    if configured.len() == 0 {
        seq![]
    } else {
        let name = text::trimmed(configured.last());
        if name.len() == 0 {
            kept_names(configured.drop_last())
        } else {
            kept_names(configured.drop_last()).push(name)
        }
    }
}

/// Names with one more, unless it is there already.
pub open spec fn with_name(names: Seq<Seq<char>>, name: Seq<char>, wanted: bool) -> Seq<Seq<char>> {
    if wanted && !names.contains(name) {
        names.push(name)
    } else {
        names
    }
}

/// The names that a certificate is made out to: those that are configured, the
/// address unless it stands for all, and the local host if the address is local.
pub open spec fn certificate_names(
    ip: Seq<char>,
    is_unspecified: bool,
    is_loopback: bool,
    configured: Seq<Seq<char>>,
) -> Seq<Seq<char>> {
    with_name(
        with_name(kept_names(configured), ip, !is_unspecified),
        "localhost"@,
        is_loopback,
    )
}

fn has_name(names: &Vec<String>, name: &str) -> (found: bool)
    ensures
        found == text::texts(names@).contains(name@),
{
    let mut i: usize = 0;
    while i < names.len()
        invariant
            i <= names@.len(),
            forall|k: int| 0 <= k < i ==> text::texts(names@)[k] != name@,
        decreases names@.len() - i,
    {
        if text::same_text(names[i].as_str(), name) {
            assert(text::texts(names@)[i as int] == name@);
            return true;
        }
        i += 1;
    }
    false
}

fn push_name(names: &mut Vec<String>, name: &str, wanted: bool)
    ensures
        text::texts(final(names)@) == with_name(text::texts(old(names)@), name@, wanted),
{
    if wanted && !has_name(names, name) {
        names.push(name.to_owned());
        assert(text::texts(names@) =~= text::texts(old(names)@).push(name@));
    }
}

/// Lists the names that a certificate is made out to.
pub fn default_tls_subject_alt_names(address: &ListenAddress, configured: &Vec<String>) -> (names: Vec<
    String,
>)
    ensures
        text::texts(names@) == certificate_names(
            address.ip@,
            address.is_unspecified,
            address.is_loopback,
            text::texts(configured@),
        ),
{
    let mut names: Vec<String> = Vec::new();
    let ghost all = text::texts(configured@);
    let mut i: usize = 0;
    assert(all.take(0) =~= seq![]);
    assert(text::texts(names@) =~= kept_names(all.take(0)));
    while i < configured.len()
        invariant
            all == text::texts(configured@),
            i <= configured@.len(),
            text::texts(names@) == kept_names(all.take(i as int)),
        decreases configured@.len() - i,
    {
        let ghost before = text::texts(names@);
        let name = text::trim_text(configured[i].as_str());
        proof {
            let taken = all.take(i + 1);
            assert(taken.drop_last() =~= all.take(i as int));
            assert(taken.last() == configured@[i as int]@);
        }
        if text::chars_of(name.as_str()).len() > 0 {
            let ghost shown = name@;
            names.push(name);
            assert(text::texts(names@) =~= before.push(shown));
        }
        i += 1;
    }
    assert(all.take(i as int) =~= all);
    push_name(&mut names, address.ip.as_str(), !address.is_unspecified);
    push_name(&mut names, "localhost", address.is_loopback);
    names
}

/// A certificate is good for the address that the server listens on, unless that
/// stands for all addresses, and for the local host if the address is local.
pub proof fn law_certificate_covers_the_address(
    ip: Seq<char>,
    is_unspecified: bool,
    is_loopback: bool,
    configured: Seq<Seq<char>>,
)
    ensures
        !is_unspecified ==> certificate_names(
            ip,
            is_unspecified,
            is_loopback,
            configured,
        ).contains(ip),
        is_loopback ==> certificate_names(
            ip,
            is_unspecified,
            is_loopback,
            configured,
        ).contains("localhost"@),
{
    let kept = kept_names(configured);
    let with_ip = with_name(kept, ip, !is_unspecified);
    let all = certificate_names(ip, is_unspecified, is_loopback, configured);
    if !is_unspecified {
        if kept.contains(ip) {
            assert(with_ip.contains(ip));
        } else {
            assert(with_ip[kept.len() as int] == ip);
        }
        let k = choose|k: int| 0 <= k < with_ip.len() && with_ip[k] == ip;
        assert(all[k] == ip);
    }
    if is_loopback && !with_ip.contains("localhost"@) {
        assert(all[with_ip.len() as int] == "localhost"@);
    }
}

/// How callers of the server are told apart.
#[derive(Debug)]
pub enum ServerAuth {
    /// By pairing; the administrator has this token.
    Pairing(String),
    /// By one of the local keys.
    Keys,
    /// Not at all.
    Disabled,
}

/// Why a server cannot be started.
#[derive(Debug)]
pub enum ServeError {
    TokenUnreadable(String),
    TokenEmpty(String),
    AdapterUnknown(String),
    ModelMismatch { local: String, asked: String, resolved: String },
    PackNotInstalled,
    SelectionElsewhere,
    SelectionMissing,
    /// The reason is the cause that the message is shown with.
    SelectionUnreadable(String),
}

/// The message shown where a server cannot be started.
pub open spec fn serve_message(fault: ServeError) -> Seq<char> {
    match fault {
        ServeError::TokenUnreadable(name) => "Could not read pairing administrator token from $"@ + name@,
        ServeError::TokenEmpty(name) => "Pairing administrator token in $"@ + name@ + " must not be empty."@,
        ServeError::AdapterUnknown(path) => "could not verify and select a native model adapter from local source '"@ + path@ + "'"@,
        ServeError::ModelMismatch { local, asked, resolved } => "Native GGUF local-source serve mode requires --model to match local source id '"@ + local@ + "', got '"@ + asked@ + "' (resolved '"@ + resolved@ + "').\nUse --model "@ + local@ + " or omit --model."@,
        ServeError::PackNotInstalled => "Native serve --model-pack must be an already installed content-addressed pack under OPENASR_HOME/models (objects/sha256/<sha>/content).\nLoose .oasr files are not a second runtime. Install with `openasr pull <id> --from <file>` so catalog sha256/size match, persist the V2 default selection, then serve."@,
        ServeError::SelectionElsewhere => "Native serve --model-pack requires the durable V2 default-selection to request this installed pack before the listener binds.\nSet the default after pull; serve will not listen with an empty active runtime."@,
        ServeError::SelectionMissing => "Native serve --model-pack requires a durable V2 default-selection for this installed pack before the listener binds.\nSet the default after pull; serve will not listen with an empty active runtime."@,
        ServeError::SelectionUnreadable(_) => "Could not read durable V2 default-selection"@,
    }
}

impl ServeError {
    /// The message shown for the error.
    pub fn message(&self) -> (text: String)
        ensures
            text@ == serve_message(*self),
    {
        match self {
            ServeError::TokenUnreadable(name) => {
                let mut out = "Could not read pairing administrator token from $".to_owned();
                out.append(name.as_str());
                out
            },
            ServeError::TokenEmpty(name) => {
                let mut out = "Pairing administrator token in $".to_owned();
                out.append(name.as_str());
                out.append(" must not be empty.");
                out
            },
            ServeError::AdapterUnknown(path) => {
                let mut out = "could not verify and select a native model adapter from local source '".to_owned();
                out.append(path.as_str());
                out.append("'");
                out
            },
            ServeError::ModelMismatch { local, asked, resolved } => {
                let mut out = "Native GGUF local-source serve mode requires --model to match local source id '".to_owned();
                out.append(local.as_str());
                out.append("', got '");
                out.append(asked.as_str());
                out.append("' (resolved '");
                out.append(resolved.as_str());
                out.append("').\nUse --model ");
                out.append(local.as_str());
                out.append(" or omit --model.");
                out
            },
            ServeError::PackNotInstalled => "Native serve --model-pack must be an already installed content-addressed pack under OPENASR_HOME/models (objects/sha256/<sha>/content).\nLoose .oasr files are not a second runtime. Install with `openasr pull <id> --from <file>` so catalog sha256/size match, persist the V2 default selection, then serve.".to_owned(),
            ServeError::SelectionElsewhere => "Native serve --model-pack requires the durable V2 default-selection to request this installed pack before the listener binds.\nSet the default after pull; serve will not listen with an empty active runtime.".to_owned(),
            ServeError::SelectionMissing => "Native serve --model-pack requires a durable V2 default-selection for this installed pack before the listener binds.\nSet the default after pull; serve will not listen with an empty active runtime.".to_owned(),
            ServeError::SelectionUnreadable(_) => "Could not read durable V2 default-selection".to_owned(),
        }
    }
}

/// The name of the variable that holds the administrator's token, if one is meant.
pub open spec fn token_variable(name: Option<Seq<char>>) -> Option<Seq<char>> {
    match name {
        Some(name) => if text::trimmed(name).len() > 0 {
            Some(text::trimmed(name))
        } else {
            None
        },
        None => None,
    }
}

/// Reads the name of the variable that holds the administrator's token, if one is
/// meant.
pub fn pairing_variable(name: Option<&str>) -> (variable: Option<String>)
    ensures
        text::opt_string(variable) == token_variable(text::opt_str(name)),
{
    match name {
        Some(name) => {
            let trimmed = text::trim_text(name);
            if text::chars_of(trimmed.as_str()).len() > 0 {
                Some(trimmed)
            } else {
                None
            }
        },
        None => None,
    }
}

/// How callers are told apart, or why that cannot be decided.
pub enum AuthOutcome {
    Pairing(Seq<char>),
    Keys,
    Disabled,
    TokenUnreadable(Seq<char>),
    TokenEmpty(Seq<char>),
    OtherFailure,
}

/// How callers are told apart, or why that cannot be decided, as plain values.
pub open spec fn outcome(result: Result<ServerAuth, ServeError>) -> AuthOutcome {
    match result {
        Ok(ServerAuth::Pairing(token)) => AuthOutcome::Pairing(token@),
        Ok(ServerAuth::Keys) => AuthOutcome::Keys,
        Ok(ServerAuth::Disabled) => AuthOutcome::Disabled,
        Err(ServeError::TokenUnreadable(name)) => AuthOutcome::TokenUnreadable(name@),
        Err(ServeError::TokenEmpty(name)) => AuthOutcome::TokenEmpty(name@),
        Err(_) => AuthOutcome::OtherFailure,
    }
}

/// How callers are told apart: by pairing if a variable for the administrator's
/// token is named, which then must hold one, and else by the local keys, which
/// count on a local address alone.
pub open spec fn launch_outcome(
    is_loopback: bool,
    variable: Option<Seq<char>>,
    token: Option<Seq<char>>,
) -> AuthOutcome {
    match token_variable(variable) {
        None => if is_loopback {
            AuthOutcome::Keys
        } else {
            AuthOutcome::Disabled
        },
        Some(name) => match token {
            None => AuthOutcome::TokenUnreadable(name),
            Some(token) => if text::trimmed(token).len() == 0 {
                AuthOutcome::TokenEmpty(name)
            } else {
                AuthOutcome::Pairing(text::trimmed(token))
            },
        },
    }
}

/// Decides how callers of the server are told apart: by pairing if the
/// administrator's token is in the environment, and else by the local keys, which
/// count on a local address alone.
pub fn serve_launch_options(
    is_loopback: bool,
    token_variable_name: Option<&str>,
    token: Option<&str>,
) -> (result: Result<ServerAuth, ServeError>)
    ensures
        outcome(result) == launch_outcome(
            is_loopback,
            text::opt_str(token_variable_name),
            text::opt_str(token),
        ),
{
    match pairing_variable(token_variable_name) {
        Some(name) => match token {
            None => Err(ServeError::TokenUnreadable(name)),
            Some(token) => {
                let trimmed = text::trim_text(token);
                if text::chars_of(trimmed.as_str()).len() == 0 {
                    Err(ServeError::TokenEmpty(name))
                } else {
                    Ok(ServerAuth::Pairing(trimmed))
                }
            },
        },
        None => if is_loopback {
            Ok(ServerAuth::Keys)
        } else {
            Ok(ServerAuth::Disabled)
        },
    }
}

/// Whether a server was started by the desktop, which sets a token for it.
pub fn supervised_daemon_launch(instance_token: Option<&str>) -> (yes: bool)
    ensures
        yes == (instance_token is Some && text::trimmed(instance_token->Some_0@).len() > 0),
{
    match instance_token {
        Some(token) => text::chars_of(text::trim_text(token).as_str()).len() > 0,
        None => false,
    }
}

/// What a server does about its model before it listens.
#[derive(Clone, Copy, Debug, PartialEq, Eq, Structural)]
pub enum ServeModelStep {
    /// The pack is checked against the name that was asked for, and against the
    /// saved selection if it was given.
    CheckPack { check_selection: bool },
    /// It is said that no model was wanted.
    NoModelWanted,
    /// It is said that no model is installed.
    NoneInstalled,
    /// There is nothing to check.
    Nothing,
}

/// What a server does about its model before it listens.
pub open spec fn serve_model_step(
    kind: BackendKind,
    has_pack: bool,
    pack_given: bool,
    no_model: bool,
) -> ServeModelStep {
    if kind != BackendKind::Native {
        ServeModelStep::Nothing
    } else if has_pack {
        ServeModelStep::CheckPack { check_selection: pack_given }
    } else if no_model {
        ServeModelStep::NoModelWanted
    } else {
        ServeModelStep::NoneInstalled
    }
}

/// Decides what a server does about its model before it listens.
pub fn serve(kind: BackendKind, has_pack: bool, pack_given: bool, no_model: bool) -> (step:
    ServeModelStep)
    ensures
        step == serve_model_step(kind, has_pack, pack_given, no_model),
{
    if kind == BackendKind::Native && has_pack {
        ServeModelStep::CheckPack { check_selection: pack_given }
    } else if kind == BackendKind::Native && no_model {
        ServeModelStep::NoModelWanted
    } else if kind == BackendKind::Native {
        ServeModelStep::NoneInstalled
    } else {
        ServeModelStep::Nothing
    }
}

/// Checks that a pack is the one of the model that was asked for.
pub fn check_served_model(asked: Option<&str>, matches_pack: bool, local: &str, resolved: &str) -> (result:
    Result<(), ServeError>)
    ensures
        match result {
            Ok(_) => asked is None || matches_pack,
            Err(error) => {
                &&& asked is Some
                &&& !matches_pack
                &&& error matches ServeError::ModelMismatch {
                    local: shown_local,
                    asked: shown_asked,
                    resolved: shown_resolved,
                }
                &&& shown_local@ == local@
                &&& shown_asked@ == asked->Some_0@
                &&& shown_resolved@ == resolved@
            },
        },
{
    match asked {
        Some(model) => if matches_pack {
            Ok(())
        } else {
            Err(
                ServeError::ModelMismatch {
                    local: local.to_owned(),
                    asked: model.to_owned(),
                    resolved: resolved.to_owned(),
                },
            )
        },
        None => Ok(()),
    }
}

/// A pack that is installed.
pub struct StoredPack {
    pub path: String,
    /// The path as the file system resolves it, if it does.
    pub resolved_path: Option<String>,
    pub sha256: String,
}

/// What the saved selection says.
pub struct SavedSelection {
    pub is_installed: bool,
    /// The digest of the pack that is selected.
    pub expected_sha256: Option<String>,
}

/// Whether a pack is the one at a resolved path.
pub open spec fn lies_at(pack: StoredPack, wanted: Seq<char>) -> bool {
    pack.resolved_path is Some && pack.resolved_path->Some_0@ == wanted
}

/// Whether a selection is for a pack.
pub open spec fn selects(selection: SavedSelection, pack: StoredPack) -> bool {
    selection.is_installed && selection.expected_sha256 is Some
        && selection.expected_sha256->Some_0@ == pack.sha256@
}

/// The first pack at a resolved path.
pub open spec fn is_first_at(packs: Seq<StoredPack>, wanted: Seq<char>, at: int) -> bool {
    &&& 0 <= at < packs.len()
    &&& lies_at(packs[at], wanted)
    &&& forall|k: int| 0 <= k < at ==> !lies_at(#[trigger] packs[k], wanted)
}

/// Checks that a pack that a server is to run is installed, and that it is the one
/// that is selected: nothing else is run by a server.
pub fn require_installed_durable_pack_for_serve(
    wanted: &str,
    packs: &Vec<StoredPack>,
    selection: &Result<Option<SavedSelection>, String>,
) -> (result: Result<usize, ServeError>)
    ensures
        match result {
            Ok(at) => {
                &&& is_first_at(packs@, wanted@, at as int)
                &&& *selection matches Ok(Some(selection))
                &&& selects(selection, packs@[at as int])
            },
            Err(ServeError::PackNotInstalled) => forall|k: int|
                0 <= k < packs@.len() ==> !lies_at(#[trigger] packs@[k], wanted@),
            Err(error) => exists|at: int| #[trigger]
                is_first_at(packs@, wanted@, at) && match *selection {
                    Ok(Some(selection)) => error == ServeError::SelectionElsewhere && !selects(
                        selection,
                        packs@[at],
                    ),
                    Ok(None) => error == ServeError::SelectionMissing,
                    Err(reason) => error == ServeError::SelectionUnreadable(reason),
                },
        },
{
    let mut at: usize = 0;
    while at < packs.len()
        invariant
            at <= packs@.len(),
            forall|k: int| 0 <= k < at ==> !lies_at(#[trigger] packs@[k], wanted@),
        decreases packs@.len() - at,
    {
        let found = match &packs[at].resolved_path {
            Some(path) => text::same_text(path.as_str(), wanted),
            None => false,
        };
        if found {
            assert(is_first_at(packs@, wanted@, at as int));
            return match selection {
                Ok(Some(selection)) => {
                    let selected = match &selection.expected_sha256 {
                        Some(digest) => selection.is_installed && text::same_text(
                            digest.as_str(),
                            packs[at].sha256.as_str(),
                        ),
                        None => false,
                    };
                    if selected {
                        Ok(at)
                    } else {
                        Err(ServeError::SelectionElsewhere)
                    }
                },
                Ok(None) => Err(ServeError::SelectionMissing),
                Err(reason) => Err(ServeError::SelectionUnreadable(reason.clone())),
            };
        }
        at += 1;
    }
    Err(ServeError::PackNotInstalled)
}

/// The local keys never stand in for pairing: they count on a local address alone.
/// And a variable that is named for the administrator's token is never passed over.
pub proof fn law_local_keys_never_replace_pairing(
    is_loopback: bool,
    variable: Option<Seq<char>>,
    token: Option<Seq<char>>,
)
    ensures
        launch_outcome(is_loopback, variable, token) == AuthOutcome::Keys ==> is_loopback,
        token_variable(variable) is Some ==> launch_outcome(is_loopback, variable, token)
            != AuthOutcome::Keys && launch_outcome(is_loopback, variable, token)
            != AuthOutcome::Disabled,
{
}

/// The configured names are kept one after the other, each without the white space around
/// it; a blank one is left out.
pub proof fn law_configured_names_are_kept(
    left: Seq<Seq<char>>,
    right: Seq<Seq<char>>,
    name: Seq<char>,
)
    ensures
        kept_names(left + right) == kept_names(left) + kept_names(right),
        kept_names(seq![name]) == if text::trimmed(name).len() == 0 {
            seq![]
        } else {
            seq![text::trimmed(name)]
        },
        kept_names(seq![]).len() == 0,
    decreases right.len(),
{
    assert(seq![name].drop_last() =~= seq![]);
    reveal_with_fuel(kept_names, 2);
    assert(kept_names(seq![name]) =~= if text::trimmed(name).len() == 0 {
        seq![]
    } else {
        seq![text::trimmed(name)]
    });
    if right.len() == 0 {
        assert(left + right =~= left);
        assert(kept_names(left) + kept_names(right) =~= kept_names(left));
    } else {
        law_configured_names_are_kept(left, right.drop_last(), name);
        assert((left + right).drop_last() =~= left + right.drop_last());
        assert(kept_names(left + right) =~= kept_names(left) + kept_names(right));
    }
}

/// A certificate is made out to the configured names, first and in their order, and
/// besides to nothing but the address and the local host, each at most once.
pub proof fn law_certificate_names_no_other(
    ip: Seq<char>,
    is_unspecified: bool,
    is_loopback: bool,
    configured: Seq<Seq<char>>,
)
    ensures
        ({
            let names = certificate_names(ip, is_unspecified, is_loopback, configured);
            let kept = kept_names(configured);
            let adds_ip = !is_unspecified && !kept.contains(ip);
            let adds_host = is_loopback && !kept.contains("localhost"@) && !(adds_ip && ip
                == "localhost"@);
            &&& names.len() == kept.len() + (if adds_ip {
                1int
            } else {
                0
            }) + (if adds_host {
                1int
            } else {
                0
            })
            &&& names.take(kept.len() as int) == kept
            &&& adds_ip ==> names[kept.len() as int] == ip
            &&& adds_host ==> names.last() == "localhost"@
        }),
{
    let kept = kept_names(configured);
    let with_ip = with_name(kept, ip, !is_unspecified);
    let names = certificate_names(ip, is_unspecified, is_loopback, configured);
    assert(names.take(kept.len() as int) =~= kept);
    if !is_unspecified && !kept.contains(ip) {
        assert(with_ip == kept.push(ip));
        assert(with_ip.contains("localhost"@) <==> (kept.contains("localhost"@) || ip
            == "localhost"@)) by {
            if kept.contains("localhost"@) {
                let k = choose|k: int| 0 <= k < kept.len() && kept[k] == "localhost"@;
                assert(with_ip[k] == "localhost"@);
            }
            if ip == "localhost"@ {
                assert(with_ip[kept.len() as int] == "localhost"@);
            }
            if with_ip.contains("localhost"@) {
                let k = choose|k: int| 0 <= k < with_ip.len() && with_ip[k] == "localhost"@;
                if k < kept.len() {
                    assert(kept[k] == "localhost"@);
                }
            }
        }
    }
}

/// How callers are told apart: with a variable that is not blank by the token in it, and
/// then never in another way; without one by the local keys on a local address, and not
/// at all on another.
pub proof fn law_callers_are_told_apart(
    is_loopback: bool,
    variable: Option<Seq<char>>,
    token: Option<Seq<char>>,
)
    ensures
        ({
            let named = variable is Some && text::trimmed(variable->Some_0).len() > 0;
            let chosen = launch_outcome(is_loopback, variable, token);
            &&& !named && is_loopback ==> chosen == AuthOutcome::Keys
            &&& !named && !is_loopback ==> chosen == AuthOutcome::Disabled
            &&& named && token is None ==> chosen == AuthOutcome::TokenUnreadable(
                text::trimmed(variable->Some_0),
            )
            &&& named && token is Some && text::trimmed(token->Some_0).len() == 0 ==> chosen
                == AuthOutcome::TokenEmpty(text::trimmed(variable->Some_0))
            &&& named && token is Some && text::trimmed(token->Some_0).len() > 0 ==> chosen
                == AuthOutcome::Pairing(text::trimmed(token->Some_0))
        }),
{
}

/// Before it listens a native server checks the pack that it has, against the selection
/// exactly if the pack was given, and says why it has none otherwise; another backend has
/// nothing to check.
pub proof fn law_native_server_checks_its_pack(
    kind: BackendKind,
    has_pack: bool,
    pack_given: bool,
    no_model: bool,
)
    ensures
        ({
            let step = serve_model_step(kind, has_pack, pack_given, no_model);
            &&& step == ServeModelStep::Nothing <==> kind != BackendKind::Native
            &&& step is CheckPack <==> kind == BackendKind::Native && has_pack
            &&& step is CheckPack ==> step == (ServeModelStep::CheckPack {
                check_selection: pack_given,
            })
            &&& step == ServeModelStep::NoModelWanted <==> kind == BackendKind::Native && !has_pack
                && no_model
            &&& step == ServeModelStep::NoneInstalled <==> kind == BackendKind::Native && !has_pack
                && !no_model
        }),
{
}

/// A selection is for a pack exactly if what it selects is installed and has the pack's
/// digest; a pack lies at a path exactly if the file system resolves it to that path, and
/// there is one first pack at a path at most.
pub proof fn law_selection_goes_by_the_digest(
    selection: SavedSelection,
    packs: Seq<StoredPack>,
    wanted: Seq<char>,
    one: int,
    other: int,
)
    requires
        0 <= one < packs.len(),
    ensures
        selects(selection, packs[one]) <==> selection.is_installed && text::opt_string(
            selection.expected_sha256,
        ) == Some(packs[one].sha256@),
        lies_at(packs[one], wanted) <==> text::opt_string(packs[one].resolved_path) == Some(wanted),
        is_first_at(packs, wanted, one) && is_first_at(packs, wanted, other) ==> one == other,
        is_first_at(packs, wanted, one) ==> 0 <= one < packs.len() && lies_at(packs[one], wanted),
        lies_at(packs[one], wanted) && (forall|k: int|
            0 <= k < one ==> text::opt_string((#[trigger] packs[k]).resolved_path) != Some(wanted))
            ==> is_first_at(packs, wanted, one),
{
}

/// A message names the variable, the path and the models that it is about.
pub proof fn law_serve_messages_name_their_subject(
    name: String,
    path: String,
    local: String,
    asked: String,
    resolved: String,
)
    ensures
        text::occurs(serve_message(ServeError::TokenUnreadable(name)), name@),
        text::occurs(serve_message(ServeError::TokenEmpty(name)), name@),
        text::occurs(serve_message(ServeError::AdapterUnknown(path)), path@),
        ({
            let message = serve_message(ServeError::ModelMismatch { local, asked, resolved });
            &&& text::occurs(message, local@)
            &&& text::occurs(message, asked@)
            &&& text::occurs(message, resolved@)
        }),
{
    text::lemma_occurs_behind("Could not read pairing administrator token from $"@, name@);
    text::lemma_occurs_between(
        "Pairing administrator token in $"@,
        name@,
        " must not be empty."@,
    );
    text::lemma_occurs_between(
        "could not verify and select a native model adapter from local source '"@,
        path@,
        "'"@,
    );
    let first =
        "Native GGUF local-source serve mode requires --model to match local source id '"@;
    let second = first + local@ + "', got '"@;
    let third = second + asked@ + "' (resolved '"@;
    let last = "').\nUse --model "@ + local@ + " or omit --model."@;
    let message = serve_message(ServeError::ModelMismatch { local, asked, resolved });
    text::lemma_occurs_between(
        first,
        local@,
        "', got '"@ + asked@ + "' (resolved '"@ + resolved@ + last,
    );
    assert(message =~= first + local@ + ("', got '"@ + asked@ + "' (resolved '"@ + resolved@
        + last));
    text::lemma_occurs_between(second, asked@, "' (resolved '"@ + resolved@ + last);
    assert(message =~= second + asked@ + ("' (resolved '"@ + resolved@ + last));
    text::lemma_occurs_between(third, resolved@, last);
    assert(message =~= third + resolved@ + last);
}

} // verus!
