//! The transcription backends.

use vstd::prelude::*;

use crate::text;

verus! {

/// What transcribes: the engine or a stand-in for it.
#[derive(Clone, Copy, Debug, PartialEq, Eq, Structural)]
pub enum BackendKind {
    Mock,
    Native,
}

/// The name of a backend.
pub open spec fn backend_text(kind: BackendKind) -> Seq<char> {
    match kind {
        BackendKind::Mock => "mock"@,
        BackendKind::Native => "native"@,
    }
}

/// The name of a backend.
pub fn backend_name(kind: BackendKind) -> (name: &'static str)
    ensures
        name@ == backend_text(kind),
{
    match kind {
        BackendKind::Mock => "mock",
        BackendKind::Native => "native",
    }
}

/// Whether a message tells that a backend is not known.
pub open spec fn tells_unknown_backend(message: Seq<char>, value: Seq<char>) -> bool {
    text::occurs(message, "Unsupported backend '"@ + value + "'"@)
}

/// Reads the name of a backend.
pub fn parse_backend_kind(value: &str) -> (result: Result<BackendKind, String>)
    ensures
        match result {
            Ok(kind) => value@ == backend_text(kind),
            Err(message) => tells_unknown_backend(message@, value@),
        },
        result is Ok <==> value@ == "mock"@ || value@ == "native"@,
{
    if text::same_text(value, "mock") {
        Ok(BackendKind::Mock)
    } else if text::same_text(value, "native") {
        Ok(BackendKind::Native)
    } else {
        let mut message = "Unsupported backend '".to_owned();
        message.append(value);
        message.append("'");
        proof {
            text::lemma_occurs_between(seq![], message@, seq![]);
            assert(Seq::<char>::empty() + message@ + Seq::<char>::empty() =~= message@);
        }
        Err(message)
    }
}

/// Whether a name was that of a backend once.
pub open spec fn retired(value: Seq<char>) -> bool {
    value == "whisper.cpp"@ || value == "sensevoice-onnx"@ || value == "sensevoice.cpp"@ || value
        == "transcribe-rs"@ || value == "sherpa-onnx"@
}

/// Whether a name was that of a backend once.
pub fn is_retired_backend_id(value: &str) -> (yes: bool)
    ensures
        yes == retired(value@),
{
    text::same_text(value, "whisper.cpp") || text::same_text(value, "sensevoice-onnx")
        || text::same_text(value, "sensevoice.cpp") || text::same_text(value, "transcribe-rs")
        || text::same_text(value, "sherpa-onnx")
}

/// The message for a saved backend that was retired.
pub open spec fn retired_backend_message(value: Seq<char>) -> Seq<char> {
    "Saved default backend '"@ + value
        + "' is retired and no longer executable.\nRun `openasr config set default_backend mock` to migrate your persisted config, or pass `--backend mock` explicitly."@
}

/// Whether a message tells why a name stands for no backend: it was retired, or it
/// is not known.
pub open spec fn tells_no_backend(message: Seq<char>, name: Seq<char>) -> bool {
    if retired(name) {
        message == retired_backend_message(name)
    } else {
        tells_unknown_backend(message, name)
    }
}

/// The backend that is configured, or the one that holds otherwise.
pub open spec fn configured_backend(configured: Option<Seq<char>>, otherwise: Seq<char>) -> Seq<char> {
    match configured {
        Some(name) => name,
        None => otherwise,
    }
}

/// Decides which backend is used: the one that was asked for, or else the one that
/// is configured, or else the one that holds by default.
pub fn resolve_backend(asked: Option<BackendKind>, configured: Option<&str>, otherwise: &str) -> (result:
    Result<BackendKind, String>)
    ensures
        match asked {
            Some(kind) => result == Ok::<BackendKind, String>(kind),
            None => {
                let name = configured_backend(text::opt_str(configured), otherwise@);
                match result {
                    Ok(kind) => name == backend_text(kind),
                    Err(message) => name != "mock"@ && name != "native"@ && tells_no_backend(
                        message@,
                        name,
                    ),
                }
            },
        },
{
    if let Some(kind) = asked {
        return Ok(kind);
    }
    let name = match configured {
        Some(name) => name,
        None => otherwise,
    };
    match parse_backend_kind(name) {
        Ok(kind) => Ok(kind),
        Err(message) => if is_retired_backend_id(name) {
            let mut shown = "Saved default backend '".to_owned();
            shown.append(name);
            shown.append(
                "' is retired and no longer executable.\nRun `openasr config set default_backend mock` to migrate your persisted config, or pass `--backend mock` explicitly.",
            );
            Err(shown)
        } else {
            Err(message)
        },
    }
}

/// A backend is known by its own name, and by no other.
pub proof fn law_backend_names_are_distinct(left: BackendKind, right: BackendKind)
    ensures
        backend_text(left) == backend_text(right) <==> left == right,
        !retired(backend_text(left)),
{
    reveal_strlit("mock");
    reveal_strlit("native");
    reveal_strlit("whisper.cpp");
    reveal_strlit("sensevoice-onnx");
    reveal_strlit("sensevoice.cpp");
    reveal_strlit("transcribe-rs");
    reveal_strlit("sherpa-onnx");
    assert("mock"@.len() != "native"@.len());
    assert("mock"@.len() == 4 && "native"@.len() == 6);
}

/// The backends have these names; the configured name holds where there is one, and the
/// default otherwise; and the backends that were retired are these five.
pub proof fn law_backend_is_named(name: Seq<char>, otherwise: Seq<char>, message: Seq<char>)
    ensures
        backend_text(BackendKind::Mock) == "mock"@,
        backend_text(BackendKind::Native) == "native"@,
        configured_backend(Some(name), otherwise) == name,
        configured_backend(None, otherwise) == otherwise,
        retired(name) <==> seq![
            "whisper.cpp"@,
            "sensevoice-onnx"@,
            "sensevoice.cpp"@,
            "transcribe-rs"@,
            "sherpa-onnx"@,
        ].contains(name),
        tells_no_backend(message, name) && !retired(name) ==> text::occurs(
            message,
            "Unsupported backend '"@ + name + "'"@,
        ),
        tells_no_backend(message, name) && retired(name) ==> text::occurs(message, name),
{
    let names = seq![
        "whisper.cpp"@,
        "sensevoice-onnx"@,
        "sensevoice.cpp"@,
        "transcribe-rs"@,
        "sherpa-onnx"@,
    ];
    assert(names[0] == "whisper.cpp"@ && names[1] == "sensevoice-onnx"@ && names[2]
        == "sensevoice.cpp"@ && names[3] == "transcribe-rs"@ && names[4] == "sherpa-onnx"@);
    text::lemma_occurs_between(
        "Saved default backend '"@,
        name,
        "' is retired and no longer executable.\nRun `openasr config set default_backend mock` to migrate your persisted config, or pass `--backend mock` explicitly."@,
    );
}

} // verus!
