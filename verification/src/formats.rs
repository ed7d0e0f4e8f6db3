//! The formats in which transcripts and timings are written.

use vstd::prelude::*;

use crate::text;

verus! {

/// How a transcript is written.
#[derive(Clone, Copy, Debug, PartialEq, Eq, Structural)]
pub enum ResponseFormat {
    Text,
    Json,
    Srt,
    Vtt,
    VerboseJson,
    Markdown,
}

/// How the timing of a transcription is written.
#[derive(Clone, Copy, Debug, PartialEq, Eq, Structural)]
pub enum BenchmarkFormat {
    Text,
    Json,
    Markdown,
}

/// The name of a format.
pub open spec fn format_text(format: ResponseFormat) -> Seq<char> {
    match format {
        ResponseFormat::Text => "text"@,
        ResponseFormat::Json => "json"@,
        ResponseFormat::Srt => "srt"@,
        ResponseFormat::Vtt => "vtt"@,
        ResponseFormat::VerboseJson => "verbose_json"@,
        ResponseFormat::Markdown => "markdown"@,
    }
}

/// Whether a name is that of a format.
pub open spec fn is_format(value: Seq<char>) -> bool {
    value == "text"@ || value == "json"@ || value == "srt"@ || value == "vtt"@ || value
        == "verbose_json"@ || value == "markdown"@
}

/// Reads the name of a format. The message for any other names what was given.
pub fn parse_response_format(value: &str) -> (result: Result<ResponseFormat, String>)
    ensures
        match result {
            Ok(format) => value@ == format_text(format),
            Err(message) => !is_format(value@) && text::occurs(message@, value@),
        },
        result is Ok <==> is_format(value@),
{
    if text::same_text(value, "text") {
        Ok(ResponseFormat::Text)
    } else if text::same_text(value, "json") {
        Ok(ResponseFormat::Json)
    } else if text::same_text(value, "srt") {
        Ok(ResponseFormat::Srt)
    } else if text::same_text(value, "vtt") {
        Ok(ResponseFormat::Vtt)
    } else if text::same_text(value, "verbose_json") {
        Ok(ResponseFormat::VerboseJson)
    } else if text::same_text(value, "markdown") {
        Ok(ResponseFormat::Markdown)
    } else {
        let mut message = "Unsupported response format '".to_owned();
        message.append(value);
        message.append("'. Use one of: text, json, srt, vtt, verbose_json, markdown.");
        proof {
            text::lemma_occurs_between(
                "Unsupported response format '"@,
                value@,
                "'. Use one of: text, json, srt, vtt, verbose_json, markdown."@,
            );
        }
        Err(message)
    }
}

/// The name of a format for timings.
pub open spec fn benchmark_format_text(format: BenchmarkFormat) -> Seq<char> {
    match format {
        BenchmarkFormat::Text => "text"@,
        BenchmarkFormat::Json => "json"@,
        BenchmarkFormat::Markdown => "markdown"@,
    }
}

/// Whether a name is that of a format for timings.
pub open spec fn is_benchmark_format(value: Seq<char>) -> bool {
    value == "text"@ || value == "json"@ || value == "markdown"@
}

/// Reads the name of a format for timings. The message for any other names what was
/// given.
pub fn parse_benchmark_format(value: &str) -> (result: Result<BenchmarkFormat, String>)
    ensures
        match result {
            Ok(format) => value@ == benchmark_format_text(format),
            Err(message) => !is_benchmark_format(value@) && text::occurs(message@, value@),
        },
        result is Ok <==> is_benchmark_format(value@),
{
    if text::same_text(value, "text") {
        Ok(BenchmarkFormat::Text)
    } else if text::same_text(value, "json") {
        Ok(BenchmarkFormat::Json)
    } else if text::same_text(value, "markdown") {
        Ok(BenchmarkFormat::Markdown)
    } else {
        let mut message = "Unsupported benchmark format '".to_owned();
        message.append(value);
        message.append("'. Use one of: text, json, markdown.");
        proof {
            text::lemma_occurs_between(
                "Unsupported benchmark format '"@,
                value@,
                "'. Use one of: text, json, markdown."@,
            );
        }
        Err(message)
    }
}

/// The format of a timing where a transcript would have had a given one.
pub open spec fn benchmark_format(format: ResponseFormat) -> BenchmarkFormat {
    match format {
        ResponseFormat::Json => BenchmarkFormat::Json,
        ResponseFormat::VerboseJson => BenchmarkFormat::Json,
        ResponseFormat::Markdown => BenchmarkFormat::Markdown,
        _ => BenchmarkFormat::Text,
    }
}

/// The format of a timing where a transcript would have had a given one.
pub fn benchmark_format_from_response_format(format: ResponseFormat) -> (out: BenchmarkFormat)
    ensures
        out == benchmark_format(format),
{
    match format {
        ResponseFormat::Json | ResponseFormat::VerboseJson => BenchmarkFormat::Json,
        ResponseFormat::Markdown => BenchmarkFormat::Markdown,
        _ => BenchmarkFormat::Text,
    }
}

/// Whether a format has timed lines.
pub open spec fn is_subtitle(format: ResponseFormat) -> bool {
    format == ResponseFormat::Srt || format == ResponseFormat::Vtt
}

/// Whether a transcript is written with timed lines.
pub fn needs_subtitle_export(formats: &Vec<ResponseFormat>) -> (yes: bool)
    ensures
        yes == (exists|i: int| 0 <= i < formats@.len() && is_subtitle(#[trigger] formats@[i])),
{
    let mut i: usize = 0;
    while i < formats.len()
        invariant
            i <= formats@.len(),
            forall|k: int| 0 <= k < i ==> !is_subtitle(#[trigger] formats@[k]),
        decreases formats@.len() - i,
    {
        if formats[i] == ResponseFormat::Srt || formats[i] == ResponseFormat::Vtt {
            assert(is_subtitle(formats@[i as int]));
            return true;
        }
        i += 1;
    }
    false
}

/// The first of the formats, or plain text.
pub open spec fn leading_format(formats: Seq<ResponseFormat>) -> ResponseFormat {
    if formats.len() == 0 {
        ResponseFormat::Text
    } else {
        formats[0]
    }
}

/// The first of the formats, or plain text.
pub fn first_format(formats: &Vec<ResponseFormat>) -> (format: ResponseFormat)
    ensures
        format == leading_format(formats@),
{
    if formats.len() == 0 {
        ResponseFormat::Text
    } else {
        formats[0]
    }
}

/// Where a transcript is written.
#[derive(Clone, Copy, Debug, PartialEq, Eq, Structural)]
pub enum WritePlan {
    /// In one format, to the terminal.
    Print(ResponseFormat),
    /// In one format, to the file that was asked for.
    File(ResponseFormat),
    /// In each format, to a file of its own in the directory that was asked for.
    AskedDirectory,
    /// In each format, to a file of its own beside the input.
    BesideInput,
}

/// Where a transcript is written: in one format to the terminal or a file, and in
/// several, or where each input has its own, to a directory.
pub open spec fn write_plan(
    formats: Seq<ResponseFormat>,
    has_output: bool,
    per_input: bool,
) -> WritePlan {
    if formats.len() <= 1 && !per_input {
        if has_output {
            WritePlan::File(leading_format(formats))
        } else {
            WritePlan::Print(leading_format(formats))
        }
    } else if has_output {
        WritePlan::AskedDirectory
    } else {
        WritePlan::BesideInput
    }
}

/// Decides where a transcript is written.
pub fn write_rendered_formats(
    formats: &Vec<ResponseFormat>,
    has_output: bool,
    per_input: bool,
) -> (plan: WritePlan)
    ensures
        plan == write_plan(formats@, has_output, per_input),
{
    if formats.len() <= 1 && !per_input {
        if has_output {
            WritePlan::File(first_format(formats))
        } else {
            WritePlan::Print(first_format(formats))
        }
    } else if has_output {
        WritePlan::AskedDirectory
    } else {
        WritePlan::BesideInput
    }
}

/// The name of a format is read as that format and as no other.
pub proof fn law_format_names_are_read(
    format: ResponseFormat,
    other: ResponseFormat,
    timing: BenchmarkFormat,
    other_timing: BenchmarkFormat,
)
    ensures
        is_format(format_text(format)),
        format_text(format) == format_text(other) ==> format == other,
        is_benchmark_format(benchmark_format_text(timing)),
        benchmark_format_text(timing) == benchmark_format_text(other_timing) ==> timing
            == other_timing,
{
    reveal_strlit("text");
    reveal_strlit("json");
    reveal_strlit("srt");
    reveal_strlit("vtt");
    reveal_strlit("verbose_json");
    reveal_strlit("markdown");
    assert("text"@[0] == 't' && "json"@[0] == 'j' && "srt"@[0] == 's' && "vtt"@[0] == 'v');
    assert("verbose_json"@[1] == 'e' && "vtt"@[1] == 't' && "markdown"@[0] == 'm');
}

/// Several formats are never written over one another: to the terminal or to one
/// file goes a single one.
pub proof fn law_several_formats_have_their_own_files(
    formats: Seq<ResponseFormat>,
    has_output: bool,
    per_input: bool,
)
    requires
        formats.len() > 1,
    ensures
        write_plan(formats, has_output, per_input) == WritePlan::AskedDirectory || write_plan(
            formats,
            has_output,
            per_input,
        ) == WritePlan::BesideInput,
{
}

/// Why a decode was cut short.
#[derive(Clone, Copy, Debug, PartialEq, Eq, Structural)]
pub enum DecodeTruncationReason {
    DegenerateRepeatGuard,
    BudgetExhausted,
}

/// Where a transcript has a gap: the slice if there is one, how far the transcript
/// reaches if that is known, and why it stops.
pub struct TruncatedDecode {
    pub slice_index: Option<usize>,
    pub covered_seconds: Option<String>,
    pub reason: DecodeTruncationReason,
}

/// The warning for a transcript that does not cover all of the audio.
pub open spec fn truncation_text(
    slice_index: Option<usize>,
    covered_seconds: Option<Seq<char>>,
    reason: DecodeTruncationReason,
) -> Seq<char> {
    "warning: the transcript is incomplete for "@ + match slice_index {
        Some(index) => "slice "@ + text::decimal(index as nat),
        None => "this recording"@,
    } + ": "@ + match reason {
        DecodeTruncationReason::DegenerateRepeatGuard => "the model started repeating itself and decoding was stopped"@,
        DecodeTruncationReason::BudgetExhausted => "the decode ran out of its token budget before the model finished"@,
    } + "."@ + match covered_seconds {
        Some(seconds) => " The transcript covers it only up to "@ + seconds + "s."@,
        None => seq![],
    }
}

/// Warns of a transcript that does not cover all of the audio.
pub fn truncation_warning(truncated: &TruncatedDecode) -> (out: String)
    ensures
        out@ == truncation_text(
            truncated.slice_index,
            text::opt_string(truncated.covered_seconds),
            truncated.reason,
        ),
{
    let mut out = "warning: the transcript is incomplete for ".to_owned();
    let place = match truncated.slice_index {
        Some(index) => {
            let mut shown = "slice ".to_owned();
            shown.append(text::decimal_text(index as u64).as_str());
            shown
        },
        None => "this recording".to_owned(),
    };
    out.append(place.as_str());
    out.append(": ");
    out.append(
        match truncated.reason {
            DecodeTruncationReason::DegenerateRepeatGuard => {
                "the model started repeating itself and decoding was stopped"
            },
            DecodeTruncationReason::BudgetExhausted => {
                "the decode ran out of its token budget before the model finished"
            },
        },
    );
    out.append(".");
    let covered = match &truncated.covered_seconds {
        Some(seconds) => {
            let mut shown = " The transcript covers it only up to ".to_owned();
            shown.append(seconds.as_str());
            shown.append("s.");
            shown
        },
        None => String::new(),
    };
    out.append(covered.as_str());
    out
}

/// The names under which formats are known.
pub proof fn law_formats_have_these_names(value: Seq<char>)
    ensures
        format_text(ResponseFormat::Text) == "text"@,
        format_text(ResponseFormat::Json) == "json"@,
        format_text(ResponseFormat::Srt) == "srt"@,
        format_text(ResponseFormat::Vtt) == "vtt"@,
        format_text(ResponseFormat::VerboseJson) == "verbose_json"@,
        format_text(ResponseFormat::Markdown) == "markdown"@,
        is_format(value) <==> exists|format: ResponseFormat| #[trigger] format_text(format)
            == value,
        is_benchmark_format(value) <==> exists|format: BenchmarkFormat|
            #[trigger] benchmark_format_text(format) == value,
{
    assert(format_text(ResponseFormat::Text) == "text"@);
    assert(format_text(ResponseFormat::Json) == "json"@);
    assert(format_text(ResponseFormat::Srt) == "srt"@);
    assert(format_text(ResponseFormat::Vtt) == "vtt"@);
    assert(format_text(ResponseFormat::VerboseJson) == "verbose_json"@);
    assert(format_text(ResponseFormat::Markdown) == "markdown"@);
    assert(benchmark_format_text(BenchmarkFormat::Text) == "text"@);
    assert(benchmark_format_text(BenchmarkFormat::Json) == "json"@);
    assert(benchmark_format_text(BenchmarkFormat::Markdown) == "markdown"@);
}

/// A timing is written as JSON where the transcript would have been, as Markdown where
/// that would have been, and else as text; and subtitles are the formats with timed
/// lines.
pub proof fn law_timing_follows_the_format(format: ResponseFormat)
    ensures
        benchmark_format(format) == BenchmarkFormat::Json <==> format == ResponseFormat::Json
            || format == ResponseFormat::VerboseJson,
        benchmark_format(format) == BenchmarkFormat::Markdown <==> format
            == ResponseFormat::Markdown,
        benchmark_format(format) == BenchmarkFormat::Text <==> format == ResponseFormat::Text
            || format == ResponseFormat::Srt || format == ResponseFormat::Vtt,
        is_subtitle(format) <==> format != ResponseFormat::Text && format != ResponseFormat::Json
            && format != ResponseFormat::VerboseJson && format != ResponseFormat::Markdown,
{
}

/// One format goes to the terminal or to the file that was asked for, in that format or
/// as text where none was named; several formats, or one for each input, go to the
/// directory that was asked for or beside the input.
pub proof fn law_transcript_goes_where_it_was_asked(
    formats: Seq<ResponseFormat>,
    has_output: bool,
    per_input: bool,
)
    ensures
        ({
            let plan = write_plan(formats, has_output, per_input);
            let single = formats.len() <= 1 && !per_input;
            &&& plan is File <==> single && has_output
            &&& plan is Print <==> single && !has_output
            &&& plan is AskedDirectory <==> !single && has_output
            &&& plan is BesideInput <==> !single && !has_output
            &&& formats.len() == 1 && plan is File ==> plan == WritePlan::File(formats[0])
            &&& formats.len() == 1 && plan is Print ==> plan == WritePlan::Print(formats[0])
            &&& formats.len() == 0 && plan is File ==> plan == WritePlan::File(ResponseFormat::Text)
            &&& formats.len() == 0 && plan is Print ==> plan == WritePlan::Print(
                ResponseFormat::Text,
            )
        }),
{
}

/// A warning names the slice that is incomplete, or the recording, why it is, and how far
/// the transcript reaches where that is known.
pub proof fn law_truncation_is_told(
    index: usize,
    seconds: Seq<char>,
    reason: DecodeTruncationReason,
)
    ensures
        truncation_text(Some(index), Some(seconds), DecodeTruncationReason::BudgetExhausted)
            == "warning: the transcript is incomplete for "@ + ("slice "@ + text::decimal(
            index as nat,
        )) + ": "@ + "the decode ran out of its token budget before the model finished"@ + "."@ + (
        " The transcript covers it only up to "@ + seconds + "s."@),
        truncation_text(None, None, DecodeTruncationReason::DegenerateRepeatGuard)
            == "warning: the transcript is incomplete for "@ + "this recording"@ + ": "@
            + "the model started repeating itself and decoding was stopped"@ + "."@,
        truncation_text(Some(index), Some(seconds), reason) == truncation_text(
            Some(index),
            None,
            reason,
        ) + (" The transcript covers it only up to "@ + seconds + "s."@),
{
    assert("warning: the transcript is incomplete for "@ + "this recording"@ + ": "@
        + "the model started repeating itself and decoding was stopped"@ + "."@
        + Seq::<char>::empty() =~= "warning: the transcript is incomplete for "@
        + "this recording"@ + ": "@
        + "the model started repeating itself and decoding was stopped"@ + "."@);
    let short = truncation_text(Some(index), None, reason);
    assert(truncation_text(Some(index), Some(seconds), reason) =~= short + (
    " The transcript covers it only up to "@ + seconds + "s."@));
}

} // verus!
