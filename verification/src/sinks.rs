//! The files that a live session writes, which must not be one and the same.

use vstd::prelude::*;

use crate::text;

verus! {

/// A path as the file system resolves it.
pub struct ResolvedSink {
    pub path: String,
    pub parent: Option<String>,
    pub name: Option<String>,
    /// Whether the parent directory takes names that differ in case for one.
    pub parent_ignores_case: bool,
}

/// Whether two resolved paths differ at most in the case of their last name, in one
/// directory.
pub open spec fn differ_by_case(left: ResolvedSink, right: ResolvedSink) -> bool {
    &&& left.parent is Some
    &&& right.parent is Some
    &&& left.name is Some
    &&& right.name is Some
    &&& left.parent->Some_0@ == right.parent->Some_0@
    &&& text::lowered(left.name->Some_0@) == text::lowered(right.name->Some_0@)
}

/// Whether two resolved paths name one file.
pub open spec fn collide(left: ResolvedSink, right: ResolvedSink) -> bool {
    left.path@ == right.path@ || (differ_by_case(left, right) && left.parent_ignores_case)
}

/// Whether two paths that may be missing name one file.
pub open spec fn both_collide(left: Option<ResolvedSink>, right: Option<ResolvedSink>) -> bool {
    left is Some && right is Some && collide(left->Some_0, right->Some_0)
}

fn do_differ_by_case(left: &ResolvedSink, right: &ResolvedSink) -> (yes: bool)
    ensures
        yes == differ_by_case(*left, *right),
{
    match (&left.parent, &right.parent, &left.name, &right.name) {
        (Some(left_parent), Some(right_parent), Some(left_name), Some(right_name)) => {
            text::same_text(left_parent.as_str(), right_parent.as_str())
                && text::same_ignoring_case(left_name.as_str(), right_name.as_str())
        },
        _ => false,
    }
}

/// Whether it matters for two paths if their directory takes names that differ in
/// case for one.
pub fn case_probe_matters(left: &ResolvedSink, right: &ResolvedSink) -> (matters: bool)
    ensures
        matters == (left.path@ != right.path@ && differ_by_case(*left, *right)),
{
    !text::same_text(left.path.as_str(), right.path.as_str()) && do_differ_by_case(left, right)
}

/// Whether two paths that may be missing name one file.
pub fn resolved_paths_collide(left: Option<&ResolvedSink>, right: Option<&ResolvedSink>) -> (yes:
    bool)
    ensures
        yes == (left is Some && right is Some && collide(*left->Some_0, *right->Some_0)),
{
    match (left, right) {
        (Some(left), Some(right)) => {
            if text::same_text(left.path.as_str(), right.path.as_str()) {
                return true;
            }
            do_differ_by_case(left, right) && left.parent_ignores_case
        },
        _ => false,
    }
}

/// The path beside a file where its contents go when a session fails.
pub open spec fn sidecar(path: Seq<char>) -> Seq<char> {
    path + ".partial"@
}

/// The path beside a file where its contents go when a session fails.
pub fn implicit_partial_sidecar_path(save_path: &str) -> (path: String)
    ensures
        path@ == sidecar(save_path@),
{
    let mut path = save_path.to_owned();
    path.append(".partial");
    path
}

/// A file that a session writes, with its sidecar, as far as they were resolved.
pub struct Sink {
    pub path: String,
    pub resolved: Result<ResolvedSink, String>,
    pub resolved_partial: Result<ResolvedSink, String>,
}

/// The files that a session writes.
pub struct Sinks {
    pub save: Option<Sink>,
    pub obs: Option<Sink>,
    pub markdown: Option<Sink>,
}

/// Why the files of a session cannot be written.
#[derive(Debug)]
pub enum SinkError {
    Unresolved(String),
    SaveIsObs(String),
    SaveIsMarkdown(String),
    ObsIsSavePartial(String),
    MarkdownIsSavePartial(String),
    MarkdownPartialIsSavePartial(String),
    ObsIsMarkdown(String),
    ObsIsMarkdownPartial(String),
    SaveIsMarkdownPartial(String),
}

/// The message shown for an error of a session's files.
pub open spec fn sink_message(error: SinkError) -> Seq<char> {
    match error {
        SinkError::Unresolved(reason) => reason@,
        SinkError::SaveIsObs(path) => "--save and --obs-text-file must not point to the same path: "@ + path@,
        SinkError::SaveIsMarkdown(path) => "--save and --markdown-note must not point to the same path: "@ + path@,
        SinkError::ObsIsSavePartial(path) => "--obs-text-file must not point to --save's implicit partial sidecar path: "@ + path@,
        SinkError::MarkdownIsSavePartial(path) => "--markdown-note must not point to --save's implicit partial sidecar path: "@ + path@,
        SinkError::MarkdownPartialIsSavePartial(path) => "--markdown-note partial sidecar must not point to --save's implicit partial sidecar path: "@ + path@,
        SinkError::ObsIsMarkdown(path) => "--obs-text-file and --markdown-note must not point to the same path: "@ + path@,
        SinkError::ObsIsMarkdownPartial(path) => "--obs-text-file must not point to --markdown-note's implicit partial sidecar path: "@ + path@,
        SinkError::SaveIsMarkdownPartial(path) => "--save must not point to --markdown-note's implicit partial sidecar path: "@ + path@,
    }
}

impl SinkError {
    /// The message shown for the error.
    pub fn message(&self) -> (text: String)
        ensures
            text@ == sink_message(*self),
    {
        match self {
            SinkError::Unresolved(reason) => {
                let mut out = (reason.as_str()).to_owned();
                out
            },
            SinkError::SaveIsObs(path) => {
                let mut out = "--save and --obs-text-file must not point to the same path: ".to_owned();
                out.append(path.as_str());
                out
            },
            SinkError::SaveIsMarkdown(path) => {
                let mut out = "--save and --markdown-note must not point to the same path: ".to_owned();
                out.append(path.as_str());
                out
            },
            SinkError::ObsIsSavePartial(path) => {
                let mut out = "--obs-text-file must not point to --save's implicit partial sidecar path: ".to_owned();
                out.append(path.as_str());
                out
            },
            SinkError::MarkdownIsSavePartial(path) => {
                let mut out = "--markdown-note must not point to --save's implicit partial sidecar path: ".to_owned();
                out.append(path.as_str());
                out
            },
            SinkError::MarkdownPartialIsSavePartial(path) => {
                let mut out = "--markdown-note partial sidecar must not point to --save's implicit partial sidecar path: ".to_owned();
                out.append(path.as_str());
                out
            },
            SinkError::ObsIsMarkdown(path) => {
                let mut out = "--obs-text-file and --markdown-note must not point to the same path: ".to_owned();
                out.append(path.as_str());
                out
            },
            SinkError::ObsIsMarkdownPartial(path) => {
                let mut out = "--obs-text-file must not point to --markdown-note's implicit partial sidecar path: ".to_owned();
                out.append(path.as_str());
                out
            },
            SinkError::SaveIsMarkdownPartial(path) => {
                let mut out = "--save must not point to --markdown-note's implicit partial sidecar path: ".to_owned();
                out.append(path.as_str());
                out
            },
        }
    }
}

/// What a session's files can have against them.
pub enum SinkFault {
    Unresolved(Seq<char>),
    SaveIsObs,
    SaveIsMarkdown,
    ObsIsSavePartial,
    MarkdownIsSavePartial,
    MarkdownPartialIsSavePartial,
    ObsIsMarkdown,
    ObsIsMarkdownPartial,
    SaveIsMarkdownPartial,
}

/// Why a file of a session could not be resolved.
pub open spec fn unresolved(sink: Option<Sink>, partial: bool) -> Option<Seq<char>> {
    match sink {
        None => None,
        Some(sink) => {
            let resolved = if partial {
                sink.resolved_partial
            } else {
                sink.resolved
            };
            match resolved {
                Ok(_) => None,
                Err(reason) => Some(reason@),
            }
        },
    }
}

/// Where a file of a session, or its sidecar, lies.
pub open spec fn place(sink: Option<Sink>, partial: bool) -> Option<ResolvedSink> {
    match sink {
        None => None,
        Some(sink) => {
            let resolved = if partial {
                sink.resolved_partial
            } else {
                sink.resolved
            };
            match resolved {
                Ok(resolved) => Some(resolved),
                Err(_) => None,
            }
        },
    }
}

/// What a session's files have against them: one that could not be resolved, or
/// two that are the same, the first that is found.
pub open spec fn sink_fault(sinks: Sinks) -> Option<SinkFault> {
    let save = place(sinks.save, false);
    let save_partial = place(sinks.save, true);
    let obs = place(sinks.obs, false);
    let markdown = place(sinks.markdown, false);
    let markdown_partial = place(sinks.markdown, true);
    if unresolved(sinks.save, false) is Some {
        Some(SinkFault::Unresolved(unresolved(sinks.save, false)->Some_0))
    } else if unresolved(sinks.obs, false) is Some {
        Some(SinkFault::Unresolved(unresolved(sinks.obs, false)->Some_0))
    } else if unresolved(sinks.markdown, false) is Some {
        Some(SinkFault::Unresolved(unresolved(sinks.markdown, false)->Some_0))
    } else if unresolved(sinks.markdown, true) is Some {
        Some(SinkFault::Unresolved(unresolved(sinks.markdown, true)->Some_0))
    } else if both_collide(save, obs) {
        Some(SinkFault::SaveIsObs)
    } else if both_collide(save, markdown) {
        Some(SinkFault::SaveIsMarkdown)
    } else if unresolved(sinks.save, true) is Some {
        Some(SinkFault::Unresolved(unresolved(sinks.save, true)->Some_0))
    } else if both_collide(save_partial, obs) {
        Some(SinkFault::ObsIsSavePartial)
    } else if both_collide(save_partial, markdown) {
        Some(SinkFault::MarkdownIsSavePartial)
    } else if both_collide(save_partial, markdown_partial) {
        Some(SinkFault::MarkdownPartialIsSavePartial)
    } else if both_collide(obs, markdown) {
        Some(SinkFault::ObsIsMarkdown)
    } else if both_collide(obs, markdown_partial) {
        Some(SinkFault::ObsIsMarkdownPartial)
    } else if both_collide(save, markdown_partial) {
        Some(SinkFault::SaveIsMarkdownPartial)
    } else {
        None
    }
}

/// The path that an error of a session's files names.
pub open spec fn shown_path(sink: Option<Sink>) -> Seq<char> {
    match sink {
        Some(sink) => sink.path@,
        None => seq![],
    }
}

/// Whether an error tells of a fault of a session's files.
pub open spec fn tells(error: SinkError, fault: SinkFault, sinks: Sinks) -> bool {
    let save = shown_path(sinks.save);
    let obs = shown_path(sinks.obs);
    let save_partial = sidecar(save);
    let markdown_partial = sidecar(shown_path(sinks.markdown));
    match fault {
        SinkFault::Unresolved(reason) => error matches SinkError::Unresolved(shown) && shown@
            == reason,
        SinkFault::SaveIsObs => error matches SinkError::SaveIsObs(shown) && shown@ == save,
        SinkFault::SaveIsMarkdown => error matches SinkError::SaveIsMarkdown(shown) && shown@
            == save,
        SinkFault::ObsIsSavePartial => error matches SinkError::ObsIsSavePartial(shown) && shown@
            == save_partial,
        SinkFault::MarkdownIsSavePartial => error matches SinkError::MarkdownIsSavePartial(shown)
            && shown@ == save_partial,
        SinkFault::MarkdownPartialIsSavePartial => error
            matches SinkError::MarkdownPartialIsSavePartial(shown) && shown@ == save_partial,
        SinkFault::ObsIsMarkdown => error matches SinkError::ObsIsMarkdown(shown) && shown@ == obs,
        SinkFault::ObsIsMarkdownPartial => error matches SinkError::ObsIsMarkdownPartial(shown)
            && shown@ == obs,
        SinkFault::SaveIsMarkdownPartial => error matches SinkError::SaveIsMarkdownPartial(shown)
            && shown@ == markdown_partial,
    }
}

fn resolved_of(sink: &Option<Sink>, partial: bool) -> (result: Result<
    Option<&ResolvedSink>,
    SinkError,
>)
    ensures
        match result {
            Ok(resolved) => {
                &&& unresolved(*sink, partial) is None
                &&& match resolved {
                    Some(resolved) => place(*sink, partial) == Some(*resolved),
                    None => place(*sink, partial) is None && *sink is None,
                }
            },
            Err(error) => {
                &&& unresolved(*sink, partial) is Some
                &&& error matches SinkError::Unresolved(shown)
                &&& shown@ == unresolved(*sink, partial)->Some_0
            },
        },
{
    match sink {
        None => Ok(None),
        Some(sink) => {
            let resolved = if partial {
                &sink.resolved_partial
            } else {
                &sink.resolved
            };
            match resolved {
                Ok(resolved) => Ok(Some(resolved)),
                Err(reason) => Err(SinkError::Unresolved(reason.as_str().to_owned())),
            }
        },
    }
}

fn path_of(sink: &Option<Sink>) -> (path: String)
    ensures
        path@ == shown_path(*sink),
{
    match sink {
        Some(sink) => sink.path.as_str().to_owned(),
        None => String::new(),
    }
}

/// Checks that no two files of a session, nor a file and another's sidecar, are the
/// same.
pub fn validate_no_sink_path_collisions(sinks: &Sinks) -> (result: Result<(), SinkError>)
    ensures
        match result {
            Ok(_) => sink_fault(*sinks) is None,
            Err(error) => sink_fault(*sinks) is Some && tells(
                error,
                sink_fault(*sinks)->Some_0,
                *sinks,
            ),
        },
{
    let save = resolved_of(&sinks.save, false)?;
    let obs = resolved_of(&sinks.obs, false)?;
    let markdown = resolved_of(&sinks.markdown, false)?;
    let markdown_partial = resolved_of(&sinks.markdown, true)?;
    if resolved_paths_collide(save, obs) {
        return Err(SinkError::SaveIsObs(path_of(&sinks.save)));
    }
    if resolved_paths_collide(save, markdown) {
        return Err(SinkError::SaveIsMarkdown(path_of(&sinks.save)));
    }
    let save_partial = resolved_of(&sinks.save, true)?;
    if resolved_paths_collide(save_partial, obs) {
        return Err(
            SinkError::ObsIsSavePartial(
                implicit_partial_sidecar_path(path_of(&sinks.save).as_str()),
            ),
        );
    }
    if resolved_paths_collide(save_partial, markdown) {
        return Err(
            SinkError::MarkdownIsSavePartial(
                implicit_partial_sidecar_path(path_of(&sinks.save).as_str()),
            ),
        );
    }
    if resolved_paths_collide(save_partial, markdown_partial) {
        return Err(
            SinkError::MarkdownPartialIsSavePartial(
                implicit_partial_sidecar_path(path_of(&sinks.save).as_str()),
            ),
        );
    }
    if resolved_paths_collide(obs, markdown) {
        return Err(SinkError::ObsIsMarkdown(path_of(&sinks.obs)));
    }
    if resolved_paths_collide(obs, markdown_partial) {
        return Err(SinkError::ObsIsMarkdownPartial(path_of(&sinks.obs)));
    }
    if resolved_paths_collide(save, markdown_partial) {
        return Err(
            SinkError::SaveIsMarkdownPartial(
                implicit_partial_sidecar_path(path_of(&sinks.markdown).as_str()),
            ),
        );
    }
    Ok(())
}

/// Files that were accepted are all resolved, and no file or sidecar of one sink is
/// the file or sidecar of another.
pub proof fn law_accepted_sinks_are_apart(sinks: Sinks)
    requires
        sink_fault(sinks) is None,
    ensures
        !both_collide(place(sinks.save, false), place(sinks.obs, false)),
        !both_collide(place(sinks.save, false), place(sinks.markdown, false)),
        !both_collide(place(sinks.save, false), place(sinks.markdown, true)),
        !both_collide(place(sinks.save, true), place(sinks.obs, false)),
        !both_collide(place(sinks.save, true), place(sinks.markdown, false)),
        !both_collide(place(sinks.save, true), place(sinks.markdown, true)),
        !both_collide(place(sinks.obs, false), place(sinks.markdown, false)),
        !both_collide(place(sinks.obs, false), place(sinks.markdown, true)),
        unresolved(sinks.save, false) is None && unresolved(sinks.save, true) is None,
        unresolved(sinks.obs, false) is None,
        unresolved(sinks.markdown, false) is None && unresolved(sinks.markdown, true) is None,
{
}

/// Whether two paths name one file does not depend on which comes first, as long as
/// one directory has one answer on case.
pub proof fn law_collision_is_mutual(left: ResolvedSink, right: ResolvedSink)
    requires
        left.parent is Some && right.parent is Some && left.parent->Some_0@
            == right.parent->Some_0@ ==> left.parent_ignores_case == right.parent_ignores_case,
    ensures
        collide(left, right) == collide(right, left),
        collide(left, left),
{
}

/// A file and its sidecar are never written under one path.
pub proof fn law_sidecar_is_beside(path: Seq<char>)
    ensures
        sidecar(path) != path,
        text::begins(sidecar(path), path),
{
    reveal_strlit(".partial");
    assert(sidecar(path).subrange(0, path.len() as int) =~= path);
}

/// The files of a session are accepted exactly if each of them and of the sidecars of the
/// transcript and the note was resolved, and no two of different sinks are one file: the
/// same path, or in one directory that ignores case the same name but for its case.
pub proof fn law_sinks_are_accepted_when_apart(sinks: Sinks)
    ensures
        sink_fault(sinks) is None <==> {
            let lies = |sink: Option<Sink>, partial: bool|
                if partial {
                    sink->Some_0.resolved_partial
                } else {
                    sink->Some_0.resolved
                };
            let one_file = |a: Option<Sink>, pa: bool, b: Option<Sink>, pb: bool|
                {
                    &&& a is Some && b is Some
                    &&& {
                        let x = lies(a, pa)->Ok_0;
                        let y = lies(b, pb)->Ok_0;
                        x.path@ == y.path@ || (x.parent is Some && y.parent is Some
                            && x.name is Some && y.name is Some && x.parent->Some_0@
                            == y.parent->Some_0@ && text::lowered(x.name->Some_0@)
                            == text::lowered(y.name->Some_0@) && x.parent_ignores_case)
                    }
                };
            &&& sinks.save is Some ==> sinks.save->Some_0.resolved is Ok
                && sinks.save->Some_0.resolved_partial is Ok
            &&& sinks.obs is Some ==> sinks.obs->Some_0.resolved is Ok
            &&& sinks.markdown is Some ==> sinks.markdown->Some_0.resolved is Ok
                && sinks.markdown->Some_0.resolved_partial is Ok
            &&& !one_file(sinks.save, false, sinks.obs, false)
            &&& !one_file(sinks.save, false, sinks.markdown, false)
            &&& !one_file(sinks.save, false, sinks.markdown, true)
            &&& !one_file(sinks.save, true, sinks.obs, false)
            &&& !one_file(sinks.save, true, sinks.markdown, false)
            &&& !one_file(sinks.save, true, sinks.markdown, true)
            &&& !one_file(sinks.obs, false, sinks.markdown, false)
            &&& !one_file(sinks.obs, false, sinks.markdown, true)
        },
{
}

/// A session with at most one sink has nothing against it once its files are resolved.
pub proof fn law_one_sink_stands_alone(sink: Sink)
    requires
        sink.resolved is Ok,
        sink.resolved_partial is Ok,
    ensures
        sink_fault(Sinks { save: Some(sink), obs: None, markdown: None }) is None,
        sink_fault(Sinks { save: None, obs: Some(sink), markdown: None }) is None,
        sink_fault(Sinks { save: None, obs: None, markdown: Some(sink) }) is None,
        sink_fault(Sinks { save: None, obs: None, markdown: None }) is None,
{
}

/// What is told of a fault is true: two files that are told to be one are.
pub proof fn law_told_collision_is_there(sinks: Sinks)
    ensures
        sink_fault(sinks) matches Some(fault) ==> match fault {
            SinkFault::Unresolved(_) => true,
            SinkFault::SaveIsObs => both_collide(place(sinks.save, false), place(sinks.obs, false)),
            SinkFault::SaveIsMarkdown => both_collide(
                place(sinks.save, false),
                place(sinks.markdown, false),
            ),
            SinkFault::ObsIsSavePartial => both_collide(
                place(sinks.save, true),
                place(sinks.obs, false),
            ),
            SinkFault::MarkdownIsSavePartial => both_collide(
                place(sinks.save, true),
                place(sinks.markdown, false),
            ),
            SinkFault::MarkdownPartialIsSavePartial => both_collide(
                place(sinks.save, true),
                place(sinks.markdown, true),
            ),
            SinkFault::ObsIsMarkdown => both_collide(
                place(sinks.obs, false),
                place(sinks.markdown, false),
            ),
            SinkFault::ObsIsMarkdownPartial => both_collide(
                place(sinks.obs, false),
                place(sinks.markdown, true),
            ),
            SinkFault::SaveIsMarkdownPartial => both_collide(
                place(sinks.save, false),
                place(sinks.markdown, true),
            ),
        },
{
}

/// A sidecar has the path of its file and `.partial` after it.
pub proof fn law_sidecar_ends_in_partial(path: Seq<char>)
    ensures
        sidecar(path).take(path.len() as int) == path,
        sidecar(path).skip(path.len() as int) == seq!['.', 'p', 'a', 'r', 't', 'i', 'a', 'l'],
{
    reveal_strlit(".partial");
    assert(sidecar(path).take(path.len() as int) =~= path);
    assert(sidecar(path).skip(path.len() as int) =~= seq!['.', 'p', 'a', 'r', 't', 'i', 'a', 'l']);
}

/// Whichever two targets collide, the message names the path that they share.
pub proof fn law_collision_names_its_path(path: String, error: SinkError)
    requires
        error == SinkError::SaveIsObs(path) || error == SinkError::SaveIsMarkdown(path) || error
            == SinkError::ObsIsSavePartial(path) || error == SinkError::MarkdownIsSavePartial(path)
            || error == SinkError::MarkdownPartialIsSavePartial(path) || error
            == SinkError::ObsIsMarkdown(path) || error == SinkError::ObsIsMarkdownPartial(path)
            || error == SinkError::SaveIsMarkdownPartial(path),
    ensures
        text::occurs(sink_message(error), path@),
{
    let message = sink_message(error);
    let before = message.take(message.len() - path@.len());
    text::lemma_occurs_behind(before, path@);
    assert(message =~= before + path@);
}

} // verus!
