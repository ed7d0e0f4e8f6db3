//! What the doctor says of the machine: its processor, its devices and the tools
//! that are found on it.

use vstd::prelude::*;

use crate::backend;
use crate::text;

verus! {

/// The kind of a device.
#[derive(Clone, Copy, Debug, PartialEq, Eq, Structural)]
pub enum DeviceKind {
    Cpu,
    Gpu,
    IntegratedGpu,
    Accelerator,
    Meta,
    Unknown,
}

/// How the doctor names a kind of device.
pub open spec fn device_kind_text(kind: DeviceKind) -> Seq<char> {
    match kind {
        DeviceKind::Cpu => "cpu"@,
        DeviceKind::Gpu => "gpu"@,
        DeviceKind::IntegratedGpu => "integrated-gpu"@,
        DeviceKind::Accelerator => "accelerator"@,
        DeviceKind::Meta => "meta"@,
        DeviceKind::Unknown => "unknown"@,
    }
}

/// How the doctor names a kind of device.
pub fn device_kind_label(kind: DeviceKind) -> (label: &'static str)
    ensures
        label@ == device_kind_text(kind),
{
    match kind {
        DeviceKind::Cpu => "cpu",
        DeviceKind::Gpu => "gpu",
        DeviceKind::IntegratedGpu => "integrated-gpu",
        DeviceKind::Accelerator => "accelerator",
        DeviceKind::Meta => "meta",
        DeviceKind::Unknown => "unknown",
    }
}

/// A number of bytes in whole mebibytes.
pub fn bytes_to_mib(bytes: usize) -> (mib: usize)
    ensures
        mib == bytes as nat / 1_048_576,
{
    bytes / (1024 * 1024)
}

/// How the doctor shows a switch.
pub open spec fn switch_text(enabled: bool) -> Seq<char> {
    if enabled {
        "on"@
    } else {
        "off"@
    }
}

/// How the doctor shows a switch.
pub fn on_off(enabled: bool) -> (label: &'static str)
    ensures
        label@ == switch_text(enabled),
{
    if enabled {
        "on"
    } else {
        "off"
    }
}

/// The views of a list of names.
pub open spec fn names_of(names: Seq<&'static str>) -> Seq<Seq<char>> {
    names.map_values(|name: &'static str| name@)
}

/// Adds the name of a feature to a list if the machine has the feature.
pub fn push_feature(features: &mut Vec<&'static str>, enabled: bool, name: &'static str)
    ensures
        names_of(final(features)@) == (if enabled {
            names_of(old(features)@).push(name@)
        } else {
            names_of(old(features)@)
        }),
{
    if enabled {
        features.push(name);
        assert(names_of(features@) =~= names_of(old(features)@).push(name@));
    }
}

/// What a processor can do.
#[derive(Clone, Copy, Debug, PartialEq, Eq, Structural)]
pub struct CpuFeatures {
    pub sse3: bool,
    pub ssse3: bool,
    pub avx: bool,
    pub avx_vnni: bool,
    pub avx2: bool,
    pub fma: bool,
    pub f16c: bool,
    pub bmi2: bool,
    pub avx512: bool,
    pub avx512_vbmi: bool,
    pub avx512_vnni: bool,
    pub avx512_bf16: bool,
    pub amx_int8: bool,
    pub neon: bool,
    pub arm_fma: bool,
    pub fp16_va: bool,
    pub dotprod: bool,
    pub matmul_int8: bool,
    pub sve: bool,
    pub sme: bool,
    pub riscv_v: bool,
    pub vsx: bool,
    pub vxe: bool,
    pub wasm_simd: bool,
    pub llamafile: bool,
}

/// What a processor may be able to do, in the order in which it is shown.
pub open spec fn feature_list(features: CpuFeatures) -> Seq<(bool, Seq<char>)> {
    seq![
        (features.sse3, "sse3"@),
        (features.ssse3, "ssse3"@),
        (features.avx, "avx"@),
        (features.avx_vnni, "avx-vnni"@),
        (features.avx2, "avx2"@),
        (features.fma, "fma"@),
        (features.f16c, "f16c"@),
        (features.bmi2, "bmi2"@),
        (features.avx512, "avx512"@),
        (features.avx512_vbmi, "avx512-vbmi"@),
        (features.avx512_vnni, "avx512-vnni"@),
        (features.avx512_bf16, "avx512-bf16"@),
        (features.amx_int8, "amx-int8"@),
        (features.neon, "neon"@),
        (features.arm_fma, "arm-fma"@),
        (features.fp16_va, "fp16-va"@),
        (features.dotprod, "dotprod"@),
        (features.matmul_int8, "matmul-int8"@),
        (features.sve, "sve"@),
        (features.sme, "sme"@),
        (features.riscv_v, "riscv-v"@),
        (features.vsx, "vsx"@),
        (features.vxe, "vxe"@),
        (features.wasm_simd, "wasm-simd"@),
        (features.llamafile, "llamafile"@),
    ]
}

/// The names of what a processor can do, in a fixed order.
pub open spec fn feature_names(features: CpuFeatures) -> Seq<Seq<char>> {
    enabled_names(feature_list(features))
}

/// The names that count, in order.
pub open spec fn enabled_names(list: Seq<(bool, Seq<char>)>) -> Seq<Seq<char>>
    decreases list.len(),
{
    if list.len() == 0 {
        seq![]
    } else if list.last().0 {
        enabled_names(list.drop_last()).push(list.last().1)
    } else {
        enabled_names(list.drop_last())
    }
}

/// How the doctor shows what a processor can do.
pub open spec fn cpu_features_text(features: CpuFeatures) -> Seq<char> {
    let names = feature_names(features);
    if names.len() == 0 {
        "portable"@
    } else {
        text::joined(names, ","@)
    }
}

fn join_names(names: &Vec<&'static str>, separator: &str) -> (out: String)
    ensures
        out@ == text::joined(names_of(names@), separator@),
{
    let mut owned: Vec<String> = Vec::new();
    let mut i: usize = 0;
    while i < names.len()
        invariant
            i <= names@.len(),
            text::texts(owned@) == names_of(names@).take(i as int),
        decreases names@.len() - i,
    {
        let ghost before = text::texts(owned@);
        owned.push(names[i].to_owned());
        assert(text::texts(owned@) =~= before.push(names_of(names@)[i as int]));
        assert(names_of(names@).take(i + 1) =~= names_of(names@).take(i as int).push(
            names_of(names@)[i as int],
        ));
        i += 1;
    }
    assert(names_of(names@).take(i as int) =~= names_of(names@));
    text::join_texts(&owned, separator)
}

proof fn lemma_next_name(list: Seq<(bool, Seq<char>)>, count: int)
    requires
        0 <= count < list.len(),
    ensures
        enabled_names(list.take(count + 1)) == (if list[count].0 {
            enabled_names(list.take(count)).push(list[count].1)
        } else {
            enabled_names(list.take(count))
        }),
{
    assert(list.take(count + 1).drop_last() =~= list.take(count));
}

/// The views of a list of switched features.
spec fn listed(features: Seq<(bool, &'static str)>) -> Seq<(bool, Seq<char>)> {
    features.map_values(|feature: (bool, &'static str)| (feature.0, feature.1@))
}

/// What a processor may be able to do, in the order in which it is shown.
fn list_features(features: &CpuFeatures) -> (list: Vec<(bool, &'static str)>)
    ensures
        listed(list@) == feature_list(*features),
{
    let list: Vec<(bool, &'static str)> = vec![
        (features.sse3, "sse3"),
        (features.ssse3, "ssse3"),
        (features.avx, "avx"),
        (features.avx_vnni, "avx-vnni"),
        (features.avx2, "avx2"),
        (features.fma, "fma"),
        (features.f16c, "f16c"),
        (features.bmi2, "bmi2"),
        (features.avx512, "avx512"),
        (features.avx512_vbmi, "avx512-vbmi"),
        (features.avx512_vnni, "avx512-vnni"),
        (features.avx512_bf16, "avx512-bf16"),
        (features.amx_int8, "amx-int8"),
        (features.neon, "neon"),
        (features.arm_fma, "arm-fma"),
        (features.fp16_va, "fp16-va"),
        (features.dotprod, "dotprod"),
        (features.matmul_int8, "matmul-int8"),
        (features.sve, "sve"),
        (features.sme, "sme"),
        (features.riscv_v, "riscv-v"),
        (features.vsx, "vsx"),
        (features.vxe, "vxe"),
        (features.wasm_simd, "wasm-simd"),
        (features.llamafile, "llamafile"),
    ];
    assert(listed(list@) =~= feature_list(*features));
    list
}

/// Shows what a processor can do.
pub fn format_cpu_features(features: &CpuFeatures) -> (out: String)
    ensures
        out@ == cpu_features_text(*features),
{
    let list = list_features(features);
    let ghost shown = feature_list(*features);
    let mut enabled: Vec<&'static str> = Vec::new();
    let mut i: usize = 0;
    assert(shown.take(0) =~= seq![]);
    assert(names_of(enabled@) =~= enabled_names(shown.take(0)));
    while i < list.len()
        invariant
            listed(list@) == shown,
            i <= list@.len(),
            names_of(enabled@) == enabled_names(shown.take(i as int)),
        decreases list@.len() - i,
    {
        proof {
            lemma_next_name(shown, i as int);
            assert(listed(list@)[i as int] == (list@[i as int].0, list@[i as int].1@));
        }
        push_feature(&mut enabled, list[i].0, list[i].1);
        i += 1;
    }
    assert(listed(list@).len() == list@.len());
    assert(shown.take(i as int) =~= shown);
    if enabled.len() == 0 {
        "portable".to_owned()
    } else {
        join_names(&enabled, ",")
    }
}

/// What a device can multiply weights of: the names of those types that it can, or
/// that there are none.
pub open spec fn weight_types_text(types: Seq<(bool, Seq<char>)>) -> Seq<char> {
    let shown = text::joined(enabled_names(types), " "@);
    if shown.len() == 0 {
        "none"@
    } else {
        shown
    }
}

/// The views of a list of switched names.
pub open spec fn switched(types: Seq<(String, bool)>) -> Seq<(bool, Seq<char>)> {
    types.map_values(|entry: (String, bool)| (entry.1, entry.0@))
}

/// Shows what a device can multiply weights of.
pub fn format_weight_types(types: &Vec<(String, bool)>) -> (out: String)
    ensures
        out@ == weight_types_text(switched(types@)),
{
    let mut names: Vec<String> = Vec::new();
    let ghost list = switched(types@);
    let mut i: usize = 0;
    assert(list.take(0) =~= seq![]);
    assert(text::texts(names@) =~= enabled_names(list.take(0)));
    while i < types.len()
        invariant
            list == switched(types@),
            i <= types@.len(),
            text::texts(names@) == enabled_names(list.take(i as int)),
        decreases types@.len() - i,
    {
        proof {
            lemma_next_name(list, i as int);
        }
        let ghost before = text::texts(names@);
        if types[i].1 {
            names.push(types[i].0.as_str().to_owned());
            assert(text::texts(names@) =~= before.push(list[i as int].1));
        }
        i += 1;
    }
    assert(list.take(i as int) =~= list);
    let shown = text::join_texts(&names, " ");
    if text::chars_of(shown.as_str()).len() == 0 {
        "none".to_owned()
    } else {
        shown
    }
}

/// What is known of a device's memory, in bytes: what is free and what there is.
pub open spec fn memory_text(memory: Option<(usize, usize)>) -> Seq<char> {
    match memory {
        None => "memory unknown"@,
        Some((free, total)) => text::decimal(free as nat / 1_048_576)
            + " MiB free / "@ + text::decimal(total as nat / 1_048_576)
            + " MiB total"@,
    }
}

/// The line of a device.
pub open spec fn device_text(
    name: Seq<char>,
    kind: DeviceKind,
    memory: Option<(usize, usize)>,
) -> Seq<char> {
    "    - "@ + name + " ("@ + device_kind_text(kind) + ", "@ + memory_text(memory) + ")"@
}

/// Shows a device.
pub fn device_line(name: &str, kind: DeviceKind, memory: Option<(usize, usize)>) -> (out: String)
    ensures
        out@ == device_text(name@, kind, memory),
{
    let shown_memory = match memory {
        None => "memory unknown".to_owned(),
        Some((free, total)) => {
            let mut shown = text::decimal_text(bytes_to_mib(free) as u64);
            shown.append(" MiB free / ");
            shown.append(text::decimal_text(bytes_to_mib(total) as u64).as_str());
            shown.append(" MiB total");
            shown
        },
    };
    let mut out = "    - ".to_owned();
    out.append(name);
    out.append(" (");
    out.append(device_kind_label(kind));
    out.append(", ");
    out.append(shown_memory.as_str());
    out.append(")");
    out
}

/// The family of an operating system, as far as it decides what can be run.
#[derive(Clone, Copy, Debug, PartialEq, Eq, Structural)]
pub enum Platform {
    Unix,
    Windows,
    Other,
}

/// What the file system says of a path.
#[derive(Clone, Copy, Debug, PartialEq, Eq, Structural)]
pub struct FileFacts {
    pub is_file: bool,
    /// The permission bits, where there are any.
    pub mode: u32,
}

/// Whether a file may be run: by its permission bits where there are any, and
/// always where its name decides.
pub open spec fn may_run(facts: FileFacts, platform: Platform) -> bool {
    match platform {
        Platform::Unix => facts.mode & 0o111u32 != 0,
        Platform::Windows => true,
        Platform::Other => false,
    }
}

/// Whether a file may be run.
pub fn is_executable(facts: FileFacts, platform: Platform) -> (yes: bool)
    ensures
        yes == may_run(facts, platform),
{
    match platform {
        Platform::Unix => facts.mode & 0o111u32 != 0,
        Platform::Windows => true,
        Platform::Other => false,
    }
}

/// Whether a path is a file that may be run.
pub open spec fn runnable(facts: Option<FileFacts>, platform: Platform) -> bool {
    match facts {
        Some(facts) => facts.is_file && may_run(facts, platform),
        None => false,
    }
}

/// Whether a path is a file that may be run.
pub fn is_executable_file(facts: Option<FileFacts>, platform: Platform) -> (yes: bool)
    ensures
        yes == runnable(facts, platform),
{
    match facts {
        Some(facts) => facts.is_file && is_executable(facts, platform),
        None => false,
    }
}

/// How the doctor shows a program: missing, there, or there but not to be run.
pub open spec fn status_text(facts: Option<FileFacts>, platform: Platform) -> Seq<char> {
    match facts {
        None => "missing"@,
        Some(facts) => if !facts.is_file {
            "missing"@
        } else if may_run(facts, platform) {
            "ok"@
        } else {
            "not executable"@
        },
    }
}

/// Shows a program.
pub fn binary_status(facts: Option<FileFacts>, platform: Platform) -> (status: &'static str)
    ensures
        status@ == status_text(facts, platform),
{
    match facts {
        None => "missing",
        Some(facts) => if !facts.is_file {
            "missing"
        } else if is_executable(facts, platform) {
            "ok"
        } else {
            "not executable"
        },
    }
}

/// The parts of a text between separators still to come, when `current` holds the
/// part being read and `rest` what follows.
pub open spec fn parts_from(current: Seq<char>, rest: Seq<char>, separator: char) -> Seq<Seq<char>>
    decreases rest.len(),
{
    if rest.len() == 0 {
        seq![current]
    } else if rest[0] == separator {
        seq![current] + parts_from(seq![], rest.drop_first(), separator)
    } else {
        parts_from(current.push(rest[0]), rest.drop_first(), separator)
    }
}

/// A tool's name with each of the extensions that are not empty.
pub open spec fn with_extensions(tool: Seq<char>, extensions: Seq<Seq<char>>) -> Seq<Seq<char>>
    decreases extensions.len(),
{
    if extensions.len() == 0 {
        seq![]
    } else if extensions.last().len() == 0 {
        with_extensions(tool, extensions.drop_last())
    } else {
        with_extensions(tool, extensions.drop_last()).push(tool + extensions.last())
    }
}

/// The extensions of programs where names decide what can be run.
pub open spec fn extension_list(pathext: Option<Seq<char>>) -> Seq<char> {
    match pathext {
        Some(list) => list,
        None => ".COM;.EXE;.BAT;.CMD"@,
    }
}

/// The names under which a tool is looked for: its own, and on Windows its own with
/// each of the extensions of programs.
pub open spec fn candidate_names(
    tool: Seq<char>,
    platform: Platform,
    pathext: Option<Seq<char>>,
) -> Seq<Seq<char>> {
    match platform {
        Platform::Windows => seq![tool] + with_extensions(
            tool,
            parts_from(seq![], extension_list(pathext), ';'),
        ),
        _ => seq![tool],
    }
}

fn split_parts(list: &str, separator: char) -> (parts: Vec<String>)
    ensures
        text::texts(parts@) == parts_from(seq![], list@, separator),
{
    let chars = text::chars_of(list);
    let mut parts: Vec<String> = Vec::new();
    let mut current: Vec<char> = Vec::new();
    let mut i: usize = 0;
    assert(chars@.skip(0) =~= chars@);
    assert(text::texts(parts@) + parts_from(current@, chars@.skip(0), separator) =~= parts_from(
        seq![],
        list@,
        separator,
    ));
    while i < chars.len()
        invariant
            chars@ == list@,
            i <= chars@.len(),
            parts_from(seq![], list@, separator) == text::texts(parts@) + parts_from(
                current@,
                chars@.skip(i as int),
                separator,
            ),
        decreases chars@.len() - i,
    {
        let ghost rest = chars@.skip(i as int);
        let ghost before = text::texts(parts@);
        assert(rest[0] == chars@[i as int]);
        assert(rest.drop_first() =~= chars@.skip(i + 1));
        if chars[i] == separator {
            parts.push(text::text_of(current.as_slice()));
            assert(text::texts(parts@) =~= before + seq![current@]);
            assert(before + (seq![current@] + parts_from(seq![], rest.drop_first(), separator))
                =~= text::texts(parts@) + parts_from(seq![], rest.drop_first(), separator));
            current = Vec::new();
            assert(current@ =~= seq![]);
        } else {
            current.push(chars[i]);
        }
        i += 1;
    }
    assert(chars@.skip(i as int) =~= seq![]);
    let ghost before = text::texts(parts@);
    parts.push(text::text_of(current.as_slice()));
    assert(text::texts(parts@) =~= before + seq![current@]);
    parts
}

/// Lists the names under which a tool is looked for.
pub fn executable_candidate_names(tool: &str, platform: Platform, pathext: Option<&str>) -> (names:
    Vec<String>)
    ensures
        text::texts(names@) == candidate_names(tool@, platform, text::opt_str(pathext)),
{
    let mut names: Vec<String> = Vec::new();
    names.push(tool.to_owned());
    assert(text::texts(names@) =~= seq![tool@]);
    if platform != Platform::Windows {
        return names;
    }
    let list = match pathext {
        Some(list) => list,
        None => ".COM;.EXE;.BAT;.CMD",
    };
    let extensions = split_parts(list, ';');
    let ghost all = text::texts(extensions@);
    let mut i: usize = 0;
    assert(all.take(0) =~= seq![]);
    assert(text::texts(names@) =~= seq![tool@] + with_extensions(tool@, all.take(0)));
    while i < extensions.len()
        invariant
            all == text::texts(extensions@),
            i <= extensions@.len(),
            text::texts(names@) == seq![tool@] + with_extensions(tool@, all.take(i as int)),
        decreases extensions@.len() - i,
    {
        let ghost before = text::texts(names@);
        let extension = extensions[i].as_str();
        proof {
            let taken = all.take(i + 1);
            assert(taken.drop_last() =~= all.take(i as int));
            assert(taken.last() == extension@);
        }
        if text::chars_of(extension).len() > 0 {
            let mut name = tool.to_owned();
            name.append(extension);
            names.push(name);
            assert(text::texts(names@) =~= before.push(tool@ + extension@));
            assert(text::texts(names@) =~= seq![tool@] + with_extensions(tool@, all.take(i + 1)));
        }
        i += 1;
    }
    assert(all.take(i as int) =~= all);
    names
}

/// The first name in the first directory under which a file that may be run was
/// found.
pub open spec fn is_first_runnable(
    facts: Seq<Vec<Option<FileFacts>>>,
    platform: Platform,
    directory: int,
    name: int,
) -> bool {
    &&& 0 <= directory < facts.len()
    &&& 0 <= name < facts[directory]@.len()
    &&& runnable(facts[directory]@[name], platform)
    &&& forall|k: int|
        0 <= k < name ==> !runnable(#[trigger] facts[directory]@[k], platform)
    &&& forall|d: int, k: int|
        0 <= d < directory && 0 <= k < facts[d]@.len() ==> !runnable(
            #[trigger] facts[d]@[k],
            platform,
        )
}

/// Finds the first directory, and the first name in it, under which a file that may
/// be run was found.
pub fn find_in_path(facts: &Vec<Vec<Option<FileFacts>>>, platform: Platform) -> (found: Option<
    (usize, usize),
>)
    ensures
        match found {
            Some((directory, name)) => is_first_runnable(
                facts@,
                platform,
                directory as int,
                name as int,
            ),
            None => forall|d: int, k: int|
                0 <= d < facts@.len() && 0 <= k < facts@[d]@.len() ==> !runnable(
                    #[trigger] facts@[d]@[k],
                    platform,
                ),
        },
{
    let mut directory: usize = 0;
    while directory < facts.len()
        invariant
            directory <= facts@.len(),
            forall|d: int, k: int|
                0 <= d < directory && 0 <= k < facts@[d]@.len() ==> !runnable(
                    #[trigger] facts@[d]@[k],
                    platform,
                ),
        decreases facts@.len() - directory,
    {
        let names = &facts[directory];
        let mut name: usize = 0;
        while name < names.len()
            invariant
                directory < facts@.len(),
                *names == facts@[directory as int],
                name <= names@.len(),
                forall|d: int, k: int|
                    0 <= d < directory && 0 <= k < facts@[d]@.len() ==> !runnable(
                        #[trigger] facts@[d]@[k],
                        platform,
                    ),
                forall|k: int| 0 <= k < name ==> !runnable(#[trigger] names@[k], platform),
            decreases names@.len() - name,
        {
            if is_executable_file(names[name], platform) {
                return Some((directory, name));
            }
            name += 1;
        }
        directory += 1;
    }
    None
}

/// The line of a tool that is not needed.
pub open spec fn optional_tool_text(tool: Seq<char>, found: Option<Seq<char>>) -> Seq<char> {
    match found {
        Some(path) => "- "@ + tool + ": optional, not required (found at "@ + path + ")"@,
        None => "- "@ + tool + ": optional, not required (missing)"@,
    }
}

/// Shows a tool that is not needed.
pub fn optional_tool_line(tool: &str, found: Option<&str>) -> (out: String)
    ensures
        out@ == optional_tool_text(tool@, text::opt_str(found)),
{
    let mut out = "- ".to_owned();
    out.append(tool);
    match found {
        Some(path) => {
            out.append(": optional, not required (found at ");
            out.append(path);
            out.append(")");
        },
        None => {
            out.append(": optional, not required (missing)");
        },
    }
    out
}

/// The line of ffmpeg: where it is configured and what is there, or else where it
/// was found.
pub open spec fn ffmpeg_text(
    configured: Option<(Seq<char>, Seq<char>)>,
    found: Option<Seq<char>>,
) -> Seq<char> {
    match configured {
        Some((path, status)) => "- ffmpeg: optional for WAV/mock; used to prepare recognized non-WAV inputs for the native backend (configured at "@
            + path + "; "@ + status + ")"@,
        None => match found {
            Some(path) => "- ffmpeg: optional for WAV/mock; used to prepare recognized non-WAV inputs for the native backend (found at "@
                + path + ")"@,
            None => "- ffmpeg: optional for WAV/mock; required only when the native backend must prepare recognized non-WAV inputs (missing)"@,
        },
    }
}

/// Shows ffmpeg.
pub fn ffmpeg_line(configured: Option<(&str, &str)>, found: Option<&str>) -> (out: String)
    ensures
        out@ == ffmpeg_text(
            match configured {
                Some((path, status)) => Some((path@, status@)),
                None => None,
            },
            text::opt_str(found),
        ),
{
    match configured {
        Some((path, status)) => {
            let mut out = "- ffmpeg: optional for WAV/mock; used to prepare recognized non-WAV inputs for the native backend (configured at ".to_owned();
            out.append(path);
            out.append("; ");
            out.append(status);
            out.append(")");
            out
        },
        None => match found {
            Some(path) => {
                let mut out = "- ffmpeg: optional for WAV/mock; used to prepare recognized non-WAV inputs for the native backend (found at ".to_owned();
                out.append(path);
                out.append(")");
                out
            },
            None => "- ffmpeg: optional for WAV/mock; required only when the native backend must prepare recognized non-WAV inputs (missing)".to_owned(),
        },
    }
}

/// How the doctor rates the default backend: one that runs, one that was retired,
/// or one that it does not know.
pub open spec fn backend_rating_text(name: Seq<char>) -> Seq<char> {
    if name == "mock"@ || name == "native"@ {
        "ok"@
    } else if backend::retired(name) {
        "legacy"@
    } else {
        "unknown"@
    }
}

/// Rates the default backend.
pub fn backend_rating(name: &str) -> (rating: &'static str)
    ensures
        rating@ == backend_rating_text(name@),
{
    if backend::parse_backend_kind(name).is_ok() {
        "ok"
    } else if backend::is_retired_backend_id(name) {
        "legacy"
    } else {
        "unknown"
    }
}

/// How the doctor rates the default model.
pub open spec fn model_rating_text(resolves: bool) -> Seq<char> {
    if resolves {
        "ok"@
    } else {
        "unknown"@
    }
}

/// Rates the default model.
pub fn model_rating(resolves: bool) -> (rating: &'static str)
    ensures
        rating@ == model_rating_text(resolves),
{
    if resolves {
        "ok"
    } else {
        "unknown"
    }
}

/// The line of the preferred precision: none or a fixed one, and what it comes to.
pub open spec fn quant_preference_text(
    pinned: Option<Seq<char>>,
    effective: Option<Seq<char>>,
) -> Seq<char> {
    let preference = match pinned {
        Some(quant) => "pinned ("@ + quant + ")"@,
        None => "auto"@,
    };
    match effective {
        Some(model) => "Quant preference: "@ + preference + " (effective: "@ + model + ")"@,
        None => "Quant preference: "@ + preference + " (no installed pack)"@,
    }
}

/// Shows the preferred precision.
pub fn quant_preference_line(pinned: Option<&str>, effective: Option<&str>) -> (out: String)
    ensures
        out@ == quant_preference_text(text::opt_str(pinned), text::opt_str(effective)),
{
    let preference = match pinned {
        Some(quant) => {
            let mut shown = "pinned (".to_owned();
            shown.append(quant);
            shown.append(")");
            shown
        },
        None => "auto".to_owned(),
    };
    let mut out = "Quant preference: ".to_owned();
    out.append(preference.as_str());
    match effective {
        Some(model) => {
            out.append(" (effective: ");
            out.append(model);
            out.append(")");
        },
        None => {
            out.append(" (no installed pack)");
        },
    }
    out
}

/// A program is shown as there exactly if it is found as one that may be run.
pub proof fn law_shown_as_ok_means_runnable(facts: Option<FileFacts>, platform: Platform)
    ensures
        status_text(facts, platform) == "ok"@ <==> runnable(facts, platform),
{
    reveal_strlit("ok");
    reveal_strlit("missing");
    reveal_strlit("not executable");
    assert("missing"@.len() != "ok"@.len());
    assert("not executable"@.len() != "ok"@.len());
}

/// A tool is looked for under its own name first, and but on Windows under no
/// other.
pub proof fn law_own_name_comes_first(
    tool: Seq<char>,
    platform: Platform,
    pathext: Option<Seq<char>>,
)
    ensures
        candidate_names(tool, platform, pathext).len() > 0,
        candidate_names(tool, platform, pathext)[0] == tool,
        platform != Platform::Windows ==> candidate_names(tool, platform, pathext).len() == 1,
{
}

/// The names that are shown are those that count, in their order, and no other.
pub proof fn law_enabled_names_are_shown(
    left: Seq<(bool, Seq<char>)>,
    right: Seq<(bool, Seq<char>)>,
    name: Seq<char>,
)
    ensures
        enabled_names(left + right) == enabled_names(left) + enabled_names(right),
        enabled_names(seq![(true, name)]) == seq![name],
        enabled_names(seq![(false, name)]).len() == 0,
        enabled_names(seq![]).len() == 0,
    decreases right.len(),
{
    assert(seq![(true, name)].drop_last() =~= seq![]);
    assert(seq![(false, name)].drop_last() =~= seq![]);
    reveal_with_fuel(enabled_names, 2);
    assert(enabled_names(seq![(true, name)]) =~= seq![name]);
    if right.len() == 0 {
        assert(left + right =~= left);
        assert(enabled_names(left) + enabled_names(right) =~= enabled_names(left));
    } else {
        law_enabled_names_are_shown(left, right.drop_last(), name);
        assert((left + right).drop_last() =~= left + right.drop_last());
        assert(enabled_names(left + right) =~= enabled_names(left) + enabled_names(right));
    }
}

/// Each feature of a processor is listed under its own name, in this order.
pub proof fn law_features_are_listed_by_name(features: CpuFeatures)
    ensures
        ({
            let list = feature_list(features);
            &&& list.len() == 25
            &&& list[0] == (features.sse3, "sse3"@) && list[1] == (features.ssse3, "ssse3"@)
            &&& list[2] == (features.avx, "avx"@) && list[3] == (features.avx_vnni, "avx-vnni"@)
            &&& list[4] == (features.avx2, "avx2"@) && list[5] == (features.fma, "fma"@)
            &&& list[6] == (features.f16c, "f16c"@) && list[7] == (features.bmi2, "bmi2"@)
            &&& list[8] == (features.avx512, "avx512"@)
            &&& list[9] == (features.avx512_vbmi, "avx512-vbmi"@)
            &&& list[10] == (features.avx512_vnni, "avx512-vnni"@)
            &&& list[11] == (features.avx512_bf16, "avx512-bf16"@)
            &&& list[12] == (features.amx_int8, "amx-int8"@)
            &&& list[13] == (features.neon, "neon"@) && list[14] == (features.arm_fma, "arm-fma"@)
            &&& list[15] == (features.fp16_va, "fp16-va"@)
            &&& list[16] == (features.dotprod, "dotprod"@)
            &&& list[17] == (features.matmul_int8, "matmul-int8"@)
            &&& list[18] == (features.sve, "sve"@) && list[19] == (features.sme, "sme"@)
            &&& list[20] == (features.riscv_v, "riscv-v"@)
            &&& list[21] == (features.vsx, "vsx"@) && list[22] == (features.vxe, "vxe"@)
            &&& list[23] == (features.wasm_simd, "wasm-simd"@)
            &&& list[24] == (features.llamafile, "llamafile"@)
        }),
        ({
            let names = enabled_names(feature_list(features));
            &&& names.len() == 0 ==> cpu_features_text(features) == "portable"@
            &&& names.len() > 0 ==> cpu_features_text(features) == text::joined(names, ","@)
        }),
{
}

/// The weight types that a device can multiply are shown with spaces between, each under
/// its own name if it can, and `none` stands for none of them.
pub proof fn law_weight_types_are_shown(types: Seq<(String, bool)>, at: int)
    ensures
        switched(types).len() == types.len(),
        0 <= at < types.len() ==> switched(types)[at] == (types[at].1, types[at].0@),
        ({
            let shown = text::joined(enabled_names(switched(types)), " "@);
            &&& shown.len() > 0 ==> weight_types_text(switched(types)) == shown
            &&& shown.len() == 0 ==> weight_types_text(switched(types)) == "none"@
        }),
        switch_text(true) == "on"@,
        switch_text(false) == "off"@,
{
}

/// A device is shown with its name, its kind and its memory in whole mebibytes.
pub proof fn law_device_is_shown(name: Seq<char>, kind: DeviceKind, free: usize, total: usize)
    ensures
        device_text(name, kind, None) == "    - "@ + name + " ("@ + device_kind_text(kind) + ", "@
            + "memory unknown"@ + ")"@,
        device_text(name, kind, Some((free, total))) == "    - "@ + name + " ("@
            + device_kind_text(kind) + ", "@ + (text::decimal((free / 1024 / 1024) as nat)
            + " MiB free / "@ + text::decimal((total / 1024 / 1024) as nat) + " MiB total"@)
            + ")"@,
        device_kind_text(DeviceKind::Cpu) == "cpu"@,
        device_kind_text(DeviceKind::Gpu) == "gpu"@,
        device_kind_text(DeviceKind::IntegratedGpu) == "integrated-gpu"@,
        device_kind_text(DeviceKind::Accelerator) == "accelerator"@,
        device_kind_text(DeviceKind::Meta) == "meta"@,
        device_kind_text(DeviceKind::Unknown) == "unknown"@,
{
    assert(free as int / 1_048_576 == free as int / 1024 / 1024);
    assert(total as int / 1_048_576 == total as int / 1024 / 1024);
}

/// A file may be run on Unix exactly if the owner, the group or anyone may run it, on
/// Windows always, and elsewhere never; what is no file may not, and is shown as missing.
pub proof fn law_programs_that_may_be_run(facts: FileFacts, platform: Platform)
    ensures
        platform == Platform::Unix ==> (runnable(Some(facts), platform) <==> facts.is_file && (
        facts.mode & 0o100u32 != 0 || facts.mode & 0o010u32 != 0 || facts.mode & 0o001u32 != 0)),
        platform == Platform::Windows ==> (runnable(Some(facts), platform) <==> facts.is_file),
        platform == Platform::Other ==> !runnable(Some(facts), platform),
        !runnable(None, platform),
        status_text(None, platform) == "missing"@,
        !facts.is_file ==> status_text(Some(facts), platform) == "missing"@,
        facts.is_file && runnable(Some(facts), platform) ==> status_text(Some(facts), platform)
            == "ok"@,
        facts.is_file && !runnable(Some(facts), platform) ==> status_text(Some(facts), platform)
            == "not executable"@,
{
    let mode = facts.mode;
    assert(mode & 0o111u32 != 0 <==> (mode & 0o100u32 != 0 || mode & 0o010u32 != 0 || mode
        & 0o001u32 != 0)) by (bit_vector);
}

/// A list is split at each separator: what stands before the first is the first part, and
/// the rest follows; a list without one is its only part.
pub proof fn law_lists_are_split_at_separators(
    part: Seq<char>,
    rest: Seq<char>,
    separator: char,
)
    requires
        !part.contains(separator),
    ensures
        parts_from(seq![], part, separator) == seq![part],
        parts_from(seq![], part + seq![separator] + rest, separator) == seq![part] + parts_from(
            seq![],
            rest,
            separator,
        ),
{
    lemma_part_read(seq![], part, seq![], separator);
    lemma_part_read(seq![], part, seq![separator] + rest, separator);
    assert(part + Seq::<char>::empty() =~= part);
    assert(Seq::<char>::empty() + part =~= part);
    assert(part + seq![separator] + rest =~= part + (seq![separator] + rest));
    assert((seq![separator] + rest).drop_first() =~= rest);
}

proof fn lemma_part_read(current: Seq<char>, part: Seq<char>, rest: Seq<char>, separator: char)
    requires
        !part.contains(separator),
    ensures
        parts_from(current, part + rest, separator) == parts_from(current + part, rest, separator),
    decreases part.len(),
{
    if part.len() == 0 {
        assert(part + rest =~= rest);
        assert(current + part =~= current);
    } else {
        let tail = part.drop_first();
        assert(part.contains(part[0]));
        assert(!tail.contains(separator)) by {
            if tail.contains(separator) {
                let i = choose|i: int| 0 <= i < tail.len() && tail[i] == separator;
                assert(part[i + 1] == separator);
            }
        }
        lemma_part_read(current.push(part[0]), tail, rest, separator);
        assert((part + rest).drop_first() =~= tail + rest);
        assert(current.push(part[0]) + tail =~= current + part);
    }
}

/// A tool is looked for with each extension that is not empty, in their order; on Windows
/// these are those of the environment, or else the usual four.
pub proof fn law_extensions_are_tried_in_order(
    tool: Seq<char>,
    left: Seq<Seq<char>>,
    right: Seq<Seq<char>>,
    extension: Seq<char>,
    pathext: Option<Seq<char>>,
)
    ensures
        with_extensions(tool, left + right) == with_extensions(tool, left) + with_extensions(
            tool,
            right,
        ),
        extension.len() > 0 ==> with_extensions(tool, seq![extension]) == seq![tool + extension],
        extension.len() == 0 ==> with_extensions(tool, seq![extension]).len() == 0,
        with_extensions(tool, seq![]).len() == 0,
        candidate_names(tool, Platform::Windows, pathext) == seq![tool] + with_extensions(
            tool,
            parts_from(
                seq![],
                if pathext is Some {
                    pathext->Some_0
                } else {
                    ".COM;.EXE;.BAT;.CMD"@
                },
                ';',
            ),
        ),
    decreases right.len(),
{
    assert(seq![extension].drop_last() =~= seq![]);
    reveal_with_fuel(with_extensions, 2);
    if extension.len() > 0 {
        assert(with_extensions(tool, seq![extension]) =~= seq![tool + extension]);
    }
    if right.len() == 0 {
        assert(left + right =~= left);
        assert(with_extensions(tool, left) + with_extensions(tool, right) =~= with_extensions(
            tool,
            left,
        ));
    } else {
        law_extensions_are_tried_in_order(tool, left, right.drop_last(), extension, pathext);
        assert((left + right).drop_last() =~= left + right.drop_last());
        assert(with_extensions(tool, left + right) =~= with_extensions(tool, left)
            + with_extensions(tool, right));
    }
}

/// The first program that may be run is the only first one: nothing in an earlier
/// directory, or under an earlier name in its own, may be run.
pub proof fn law_first_program_is_found(
    facts: Seq<Vec<Option<FileFacts>>>,
    platform: Platform,
    directory: int,
    name: int,
    other_directory: int,
    other_name: int,
)
    requires
        is_first_runnable(facts, platform, directory, name),
        0 <= other_directory < facts.len(),
        0 <= other_name < facts[other_directory]@.len(),
    ensures
        runnable(facts[directory]@[name], platform),
        other_directory < directory || (other_directory == directory && other_name < name)
            ==> !runnable(facts[other_directory]@[other_name], platform),
{
}

/// What the doctor says of tools and defaults: where a tool was found, how ffmpeg was
/// configured or found, whether the default backend is known, retired or neither, whether
/// the default model is known, and which precision is preferred.
pub proof fn law_doctor_says_what_it_found(
    tool: Seq<char>,
    path: Seq<char>,
    status: Seq<char>,
    found: Option<Seq<char>>,
    name: Seq<char>,
    quant: Seq<char>,
    model: Seq<char>,
)
    ensures
        optional_tool_text(tool, Some(path)) == "- "@ + tool
            + ": optional, not required (found at "@ + path + ")"@,
        optional_tool_text(tool, None) == "- "@ + tool + ": optional, not required (missing)"@,
        ffmpeg_text(Some((path, status)), found) == ffmpeg_text(Some((path, status)), None),
        text::occurs(ffmpeg_text(Some((path, status)), found), path),
        text::occurs(ffmpeg_text(None, Some(path)), path),
        backend_rating_text(name) == "ok"@ <==> name == "mock"@ || name == "native"@,
        backend_rating_text(name) == "legacy"@ <==> backend::retired(name) && name != "mock"@
            && name != "native"@,
        model_rating_text(true) == "ok"@,
        model_rating_text(false) == "unknown"@,
        quant_preference_text(Some(quant), Some(model)) == "Quant preference: "@ + ("pinned ("@
            + quant + ")"@) + " (effective: "@ + model + ")"@,
        quant_preference_text(None, Some(model)) == "Quant preference: "@ + "auto"@
            + " (effective: "@ + model + ")"@,
        quant_preference_text(None, None) == "Quant preference: "@ + "auto"@
            + " (no installed pack)"@,
{
    reveal_strlit("ok");
    reveal_strlit("legacy");
    reveal_strlit("unknown");
    assert("ok"@.len() == 2 && "legacy"@.len() == 6 && "unknown"@.len() == 7);
    text::lemma_occurs_between(
        "- ffmpeg: optional for WAV/mock; used to prepare recognized non-WAV inputs for the native backend (configured at "@,
        path,
        "; "@ + status + ")"@,
    );
    assert(ffmpeg_text(Some((path, status)), found)
        =~= "- ffmpeg: optional for WAV/mock; used to prepare recognized non-WAV inputs for the native backend (configured at "@
        + path + ("; "@ + status + ")"@));
    text::lemma_occurs_between(
        "- ffmpeg: optional for WAV/mock; used to prepare recognized non-WAV inputs for the native backend (found at "@,
        path,
        ")"@,
    );
}

} // verus!
