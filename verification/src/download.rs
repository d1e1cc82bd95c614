//! The download orchestrator's data and rules: tasks, the per-task state
//! machine with its cleanup obligations, and stream progress accounting.
//! Network, filesystem and process work stays outside; this module decides
//! what happens next and which temporary files must go.

use vstd::prelude::*;

use crate::errors::DlError;
use crate::text::pad2;

verus! {

/// The ordinal a task carries: a position in a filtered season list, a
/// parsed episode number, or the platform's raw episode-number string when
/// it is not numeric.
#[derive(Debug, PartialEq, Eq)]
pub enum Ordinal {
    Pos(usize),
    Num(i32),
    Raw(String),
}

/// The pair of local temp-file paths of a resolved task.
#[derive(Debug, PartialEq, Eq)]
pub struct InputPath {
    pub v_path: String,
    pub a_path: String,
}

/// One downloadable unit: a page link, a display title, an ordinal, and the
/// local paths assigned once the task's streams are resolved.
#[derive(Debug, PartialEq, Eq)]
pub struct Task {
    pub link: String,
    pub title: String,
    pub input_path: Option<InputPath>,
    pub id: Ordinal,
}

/// Which of a task's two streams is meant.
#[derive(Debug, Clone, Copy, PartialEq, Eq, Structural)]
pub enum MediaKind {
    Video,
    Audio,
}

impl Task {
    /// A fresh task with no paths assigned yet.
    pub fn new(link: String, title: String, id: Ordinal) -> (t: Task)
        ensures
            t == (Task { link, title, id, input_path: None }),
    {
        Task { link, title, input_path: None, id }
    }

    /// Assigns the task's local file paths; the rest of the task is kept.
    pub fn set_input_path(&mut self, v_path: String, a_path: String)
        ensures
            *final(self) == (Task {
                input_path: Some(InputPath { v_path, a_path }),
                ..*old(self)
            }),
    {
        self.input_path = Some(InputPath { v_path, a_path });
    }

    /// The assigned local path of one stream kind.
    pub fn get_media_path(&self, media: MediaKind) -> (r: String)
        requires
            self.input_path is Some,
        ensures
            r == (match media {
                MediaKind::Video => self.input_path->0.v_path,
                MediaKind::Audio => self.input_path->0.a_path,
            }),
    {
        match (&self.input_path, media) {
            (Some(ip), MediaKind::Video) => ip.v_path.clone(),
            (Some(ip), MediaKind::Audio) => ip.a_path.clone(),
            (None, _) => String::new(),
        }
    }
}

/// The characters of the synthesized stem for a stream of kind `kind` of
/// the task with ordinal `id`: `video`/`audio` and the zero-padded ordinal,
/// or the raw ordinal string.
pub open spec fn stem_chars(kind: MediaKind, id: Ordinal) -> Seq<char> {
    let prefix = match kind {
        MediaKind::Video => "video"@,
        MediaKind::Audio => "audio"@,
    };
    prefix + (match id {
        Ordinal::Pos(n) => pad2(n as int),
        Ordinal::Num(k) => pad2(k as int),
        Ordinal::Raw(s) => s@,
    })
}

/// Builds the fallback stem for a stream, used when a remote URL offers no
/// usable filename.
pub fn default_stem(kind: MediaKind, id: &Ordinal) -> (r: String)
    ensures
        r@ == stem_chars(kind, *id),
{
    let mut s = match kind {
        MediaKind::Video => "video".to_owned(),
        MediaKind::Audio => "audio".to_owned(),
    };
    match id {
        Ordinal::Pos(n) => {
            s.append(crate::text::u64_pad2(*n as u64).as_str());
        },
        Ordinal::Num(k) => {
            s.append(crate::text::i64_pad2(*k as i64).as_str());
        },
        Ordinal::Raw(raw) => {
            s.append(raw.as_str());
        },
    }
    proof {
        assert(s@ =~= stem_chars(kind, *id));
    }
    s
}

/// The characters of the local file path for a stream: the destination
/// directory, a separator, and the filename its remote URL yields — or the
/// fallback stem when the URL parses to no usable filename.
pub open spec fn media_file_path(dir: Seq<char>, base_url: Seq<char>, default: Seq<char>) -> Seq<
    char,
> {
    dir + "/"@ + (match crate::urlpath::parsed_url_path(base_url) {
        Option::Some(p) => crate::parser::filename_of(p, default),
        Option::None => default,
    })
}

/// Builds the local file path for one representation under the destination
/// directory.
pub fn get_file_path(dir: &str, media: &crate::parser::MediaInfo, default: &str) -> (r: String)
    ensures
        r@ == media_file_path(dir@, media.base_url@, default@),
{
    proof {
        reveal_strlit("/");
    }
    let filename = crate::parser::extract_filename(media.base_url.as_str(), default);
    let mut s = dir.to_owned();
    s.append("/");
    s.append(filename.as_str());
    proof {
        assert(s@ =~= media_file_path(dir@, media.base_url@, default@));
    }
    s
}

/// The title with any extension-like tail dropped, the way a path library
/// takes a file stem: everything before the last dot, unless that dot leads
/// the name.
pub open spec fn title_stem(t: Seq<char>) -> Seq<char> {
    match crate::parser::last_dot(t) {
        Option::Some(d) => if d > 0 {
            t.subrange(0, d)
        } else {
            t
        },
        Option::None => t,
    }
}

/// Builds the final output path of a task: the destination directory, then
/// the title (taken as a relative name) with the container extension in
/// place of any extension-like tail the title carries.
pub fn output_file_path(dir: &str, title: &str) -> (r: String)
    ensures
        r@ == dir@ + "/"@ + title_stem(title@) + ".mp4"@,
{
    proof {
        reveal_strlit("/");
        crate::parser::lemma_last_dot_bound(title@);
    }
    let mut s = dir.to_owned();
    s.append("/");
    match crate::parser::last_dot_exec(title) {
        Some(d) => {
            if d > 0 {
                s.append(title.substring_char(0, d));
            } else {
                s.append(title);
            }
        },
        None => {
            s.append(title);
        },
    }
    s.append(".mp4");
    proof {
        assert(s@ =~= dir@ + "/"@ + title_stem(title@) + ".mp4"@);
    }
    s
}

/// Assigns a task its two local stream paths, derived from the chosen
/// representations' remote filenames with the task's synthesized stems as
/// fallback; everything else about the task is kept.
pub fn assign_input_paths(
    task: &mut Task,
    dir: &str,
    video: &crate::parser::MediaInfo,
    audio: &crate::parser::MediaInfo,
)
    ensures
        final(task).link == old(task).link,
        final(task).title == old(task).title,
        final(task).id == old(task).id,
        final(task).input_path matches Some(ip) && ip.v_path@ == media_file_path(
            dir@,
            video.base_url@,
            stem_chars(MediaKind::Video, old(task).id),
        ) && ip.a_path@ == media_file_path(
            dir@,
            audio.base_url@,
            stem_chars(MediaKind::Audio, old(task).id),
        ),
{
    let v_stem = default_stem(MediaKind::Video, &task.id);
    let a_stem = default_stem(MediaKind::Audio, &task.id);
    let v_path = get_file_path(dir, video, v_stem.as_str());
    let a_path = get_file_path(dir, audio, a_stem.as_str());
    task.set_input_path(v_path, a_path);
}

/// The processing stage a task is in.
#[derive(Debug, Clone, Copy, PartialEq, Eq, Structural)]
pub enum Phase {
    Pending,
    PageFetched,
    StreamsResolved,
    Downloading,
    Merging,
    Done,
    Failed,
}

/// A task's orchestration state: its stage, and which of its two temporary
/// stream files currently exist on disk.
#[derive(Debug, Clone, Copy, PartialEq, Eq, Structural)]
pub struct TaskRun {
    pub phase: Phase,
    pub video_present: bool,
    pub audio_present: bool,
}

/// What the outside world reports back to the orchestrator about one task.
#[derive(Debug, Clone, Copy, PartialEq, Eq, Structural)]
pub enum TaskEvent {
    /// The episode page fetch finished, well or not.
    PageResponse { ok: bool },
    /// Play-info extraction and stream selection finished, well or not.
    StreamsChosen { ok: bool },
    /// Both stream requests were issued.
    DownloadsBegun,
    /// The video temp file was created on disk.
    VideoFileCreated,
    /// The audio temp file was created on disk.
    AudioFileCreated,
    /// Both concurrent stream downloads were joined.
    DownloadsJoined { video_ok: bool, audio_ok: bool },
    /// The external multiplexer finished, well or not.
    MergeFinished { ok: bool },
    /// The run was interrupted from outside.
    Interrupted,
}

/// The temp-file removals a step orders; the caller performs them.
#[derive(Debug, Clone, Copy, PartialEq, Eq, Structural)]
pub struct Cleanup {
    pub remove_video: bool,
    pub remove_audio: bool,
}

/// A task stage from which no further work happens.
pub open spec fn terminal(ph: Phase) -> bool {
    ph is Done || ph is Failed
}

/// A step that ends the task in failure: every existing temp file is
/// ordered removed.
pub open spec fn fail_step(s: TaskRun) -> (TaskRun, Cleanup) {
    (
        TaskRun { phase: Phase::Failed, video_present: false, audio_present: false },
        Cleanup { remove_video: s.video_present, remove_audio: s.audio_present },
    )
}

/// A step that completes the task: source cleanup is unconditional.
pub open spec fn done_step(s: TaskRun) -> (TaskRun, Cleanup) {
    (
        TaskRun { phase: Phase::Done, video_present: false, audio_present: false },
        Cleanup { remove_video: s.video_present, remove_audio: s.audio_present },
    )
}

/// A step that changes nothing and removes nothing.
pub open spec fn stay_step(s: TaskRun) -> (TaskRun, Cleanup) {
    (s, Cleanup { remove_video: false, remove_audio: false })
}

/// The orchestrator's transition rule: given a task's state and an event,
/// the next state and the temp-file removals owed. An event that does not
/// belong to the current stage changes nothing.
pub open spec fn spec_step(s: TaskRun, ev: TaskEvent) -> (TaskRun, Cleanup) {
    match ev {
        TaskEvent::PageResponse { ok } => if s.phase is Pending {
            if ok {
                (TaskRun { phase: Phase::PageFetched, ..s }, Cleanup {
                    remove_video: false,
                    remove_audio: false,
                })
            } else {
                fail_step(s)
            }
        } else {
            stay_step(s)
        },
        TaskEvent::StreamsChosen { ok } => if s.phase is PageFetched {
            if ok {
                (TaskRun { phase: Phase::StreamsResolved, ..s }, Cleanup {
                    remove_video: false,
                    remove_audio: false,
                })
            } else {
                fail_step(s)
            }
        } else {
            stay_step(s)
        },
        TaskEvent::DownloadsBegun => if s.phase is StreamsResolved {
            (TaskRun { phase: Phase::Downloading, ..s }, Cleanup {
                remove_video: false,
                remove_audio: false,
            })
        } else {
            stay_step(s)
        },
        TaskEvent::VideoFileCreated => if s.phase is Downloading {
            (TaskRun { video_present: true, ..s }, Cleanup {
                remove_video: false,
                remove_audio: false,
            })
        } else {
            stay_step(s)
        },
        TaskEvent::AudioFileCreated => if s.phase is Downloading {
            (TaskRun { audio_present: true, ..s }, Cleanup {
                remove_video: false,
                remove_audio: false,
            })
        } else {
            stay_step(s)
        },
        TaskEvent::DownloadsJoined { video_ok, audio_ok } => if s.phase is Downloading {
            if video_ok && audio_ok {
                (TaskRun { phase: Phase::Merging, ..s }, Cleanup {
                    remove_video: false,
                    remove_audio: false,
                })
            } else {
                fail_step(s)
            }
        } else {
            stay_step(s)
        },
        TaskEvent::MergeFinished { ok } => if s.phase is Merging {
            if ok {
                done_step(s)
            } else {
                fail_step(s)
            }
        } else {
            stay_step(s)
        },
        TaskEvent::Interrupted => if terminal(s.phase) {
            stay_step(s)
        } else {
            fail_step(s)
        },
    }
}

/// A state is well formed when temp files exist only while the task is
/// downloading or merging.
pub open spec fn wf_run(s: TaskRun) -> bool {
    (s.video_present || s.audio_present) ==> (s.phase is Downloading || s.phase is Merging)
}

/// Whenever a step ends a task — with success, failure, or an interrupt —
/// the resulting state tracks no temporary file: whatever existed was
/// ordered removed in the same step.
pub proof fn lemma_terminal_steps_clean(s: TaskRun, ev: TaskEvent)
    ensures
        terminal(spec_step(s, ev).0.phase) && !terminal(s.phase) ==> !spec_step(s, ev).0.video_present
            && !spec_step(s, ev).0.audio_present && spec_step(s, ev).1.remove_video
            == s.video_present && spec_step(s, ev).1.remove_audio == s.audio_present,
{
}

/// A step never orders the removal of a file it does not track, and a file
/// whose removal is ordered is no longer tracked afterwards.
pub proof fn lemma_cleanup_sound(s: TaskRun, ev: TaskEvent)
    ensures
        spec_step(s, ev).1.remove_video ==> s.video_present && !spec_step(s, ev).0.video_present,
        spec_step(s, ev).1.remove_audio ==> s.audio_present && !spec_step(s, ev).0.audio_present,
{
}

/// Steps preserve well-formedness: temp files are only ever tracked while
/// downloading or merging.
pub proof fn lemma_step_preserves_wf(s: TaskRun, ev: TaskEvent)
    requires
        wf_run(s),
    ensures
        wf_run(spec_step(s, ev).0),
{
}

impl TaskRun {
    /// The state of a task that has not been worked on yet.
    pub fn new() -> (r: TaskRun)
        ensures
            r == (TaskRun { phase: Phase::Pending, video_present: false, audio_present: false }),
    {
        TaskRun { phase: Phase::Pending, video_present: false, audio_present: false }
    }

    /// Advances the task by one observed event and reports which temp files
    /// the caller must now remove.
    pub fn step(&mut self, ev: TaskEvent) -> (c: Cleanup)
        ensures
            (*final(self), c) == spec_step(*old(self), ev),
    {
        let s = *self;
        let (next, cleanup): (TaskRun, Cleanup) = match ev {
            TaskEvent::PageResponse { ok } => {
                if matches!(s.phase, Phase::Pending) {
                    if ok {
                        (TaskRun { phase: Phase::PageFetched, ..s }, Cleanup {
                            remove_video: false,
                            remove_audio: false,
                        })
                    } else {
                        Self::fail_now(s)
                    }
                } else {
                    Self::stay_now(s)
                }
            },
            TaskEvent::StreamsChosen { ok } => {
                if matches!(s.phase, Phase::PageFetched) {
                    if ok {
                        (TaskRun { phase: Phase::StreamsResolved, ..s }, Cleanup {
                            remove_video: false,
                            remove_audio: false,
                        })
                    } else {
                        Self::fail_now(s)
                    }
                } else {
                    Self::stay_now(s)
                }
            },
            TaskEvent::DownloadsBegun => {
                if matches!(s.phase, Phase::StreamsResolved) {
                    (TaskRun { phase: Phase::Downloading, ..s }, Cleanup {
                        remove_video: false,
                        remove_audio: false,
                    })
                } else {
                    Self::stay_now(s)
                }
            },
            TaskEvent::VideoFileCreated => {
                if matches!(s.phase, Phase::Downloading) {
                    (TaskRun { video_present: true, ..s }, Cleanup {
                        remove_video: false,
                        remove_audio: false,
                    })
                } else {
                    Self::stay_now(s)
                }
            },
            TaskEvent::AudioFileCreated => {
                if matches!(s.phase, Phase::Downloading) {
                    (TaskRun { audio_present: true, ..s }, Cleanup {
                        remove_video: false,
                        remove_audio: false,
                    })
                } else {
                    Self::stay_now(s)
                }
            },
            TaskEvent::DownloadsJoined { video_ok, audio_ok } => {
                if matches!(s.phase, Phase::Downloading) {
                    if video_ok && audio_ok {
                        (TaskRun { phase: Phase::Merging, ..s }, Cleanup {
                            remove_video: false,
                            remove_audio: false,
                        })
                    } else {
                        Self::fail_now(s)
                    }
                } else {
                    Self::stay_now(s)
                }
            },
            TaskEvent::MergeFinished { ok } => {
                if matches!(s.phase, Phase::Merging) {
                    if ok {
                        (
                            TaskRun {
                                phase: Phase::Done,
                                video_present: false,
                                audio_present: false,
                            },
                            Cleanup {
                                remove_video: s.video_present,
                                remove_audio: s.audio_present,
                            },
                        )
                    } else {
                        Self::fail_now(s)
                    }
                } else {
                    Self::stay_now(s)
                }
            },
            TaskEvent::Interrupted => {
                if matches!(s.phase, Phase::Done) || matches!(s.phase, Phase::Failed) {
                    Self::stay_now(s)
                } else {
                    Self::fail_now(s)
                }
            },
        };
        *self = next;
        cleanup
    }

    /// The concrete failing transition.
    fn fail_now(s: TaskRun) -> (r: (TaskRun, Cleanup))
        ensures
            r == fail_step(s),
    {
        (
            TaskRun { phase: Phase::Failed, video_present: false, audio_present: false },
            Cleanup { remove_video: s.video_present, remove_audio: s.audio_present },
        )
    }

    /// The concrete do-nothing transition.
    fn stay_now(s: TaskRun) -> (r: (TaskRun, Cleanup))
        ensures
            r == stay_step(s),
    {
        (s, Cleanup { remove_video: false, remove_audio: false })
    }
}

/// Progress accounting for one stream: the declared total and the bytes
/// received so far.
#[derive(Debug, Clone, Copy, PartialEq, Eq, Structural)]
pub struct StreamProgress {
    pub total: u64,
    pub received: u64,
}

/// Accepts a stream response header: only an OK status carrying a content
/// length opens a counter; a non-OK status and a missing length each map to
/// their own error.
pub fn begin_stream(status: u16, content_length: Option<u64>) -> (r: Result<
    StreamProgress,
    DlError,
>)
    ensures
        r is Ok <==> status == 200 && content_length is Some,
        r matches Ok(p) ==> p.total == content_length->0 && p.received == 0,
        status != 200 ==> r == Err::<StreamProgress, DlError>(DlError::BadStatus(status)),
        status == 200 && content_length is None ==> r == Err::<StreamProgress, DlError>(
            DlError::MissingContentLength,
        ),
{
    if status != 200 {
        return Err(DlError::BadStatus(status));
    }
    match content_length {
        Some(total) => Ok(StreamProgress { total, received: 0 }),
        None => Err(DlError::MissingContentLength),
    }
}

impl StreamProgress {
    /// Accounts one received chunk; the count saturates rather than wraps.
    pub fn record_chunk(&mut self, n: usize)
        ensures
            final(self).total == old(self).total,
            final(self).received as int == if old(self).received + n <= u64::MAX {
                old(self).received + n
            } else {
                u64::MAX as int
            },
    {
        let add = n as u64;
        if add > u64::MAX - self.received {
            self.received = u64::MAX;
        } else {
            self.received = self.received + add;
        }
    }

    /// Whether the declared total has been received.
    pub fn is_complete(&self) -> (r: bool)
        ensures
            r == (self.received >= self.total),
    {
        self.received >= self.total
    }
}

/// The tasks kept by a boolean selection vector, in order.
pub open spec fn spec_selected(tasks: Seq<Task>, flags: Seq<bool>) -> Seq<Task>
    decreases tasks.len(),
{
    if tasks.len() == 0 || flags.len() == 0 {
        Seq::empty()
    } else if flags[0] {
        seq![tasks[0]] + spec_selected(
            tasks.subrange(1, tasks.len() as int),
            flags.subrange(1, flags.len() as int),
        )
    } else {
        spec_selected(tasks.subrange(1, tasks.len() as int), flags.subrange(1, flags.len() as int))
    }
}

/// Keeps exactly the tasks the selection collaborator marked, in their
/// original order.
pub fn select_download_video(video_list: Vec<Task>, flag: Vec<bool>) -> (r: Vec<Task>)
    requires
        video_list@.len() == flag@.len(),
    ensures
        r@ == spec_selected(video_list@, flag@),
{
    let ghost orig_tasks = video_list@;
    let ghost orig_flags = flag@;
    let flag_len = flag.len();
    let mut v = video_list;
    let mut out: Vec<Task> = Vec::new();
    let mut i: usize = 0;
    proof {
        assert(orig_flags.subrange(0, orig_flags.len() as int) =~= orig_flags);
        assert(Seq::<Task>::empty() + spec_selected(orig_tasks, orig_flags) =~= spec_selected(
            orig_tasks,
            orig_flags,
        ));
    }
    while v.len() > 0
        invariant
            orig_flags.len() == orig_tasks.len(),
            flag_len == orig_flags.len(),
            i + v@.len() == orig_flags.len(),
            flag@ == orig_flags,
            spec_selected(orig_tasks, orig_flags) == out@ + spec_selected(
                v@,
                orig_flags.subrange(i as int, orig_flags.len() as int),
            ),
        decreases v@.len(),
    {
        let ghost v_before = v@;
        let ghost suffix = orig_flags.subrange(i as int, orig_flags.len() as int);
        let t = v.remove(0);
        let keep = flag[i];
        proof {
            assert(suffix[0] == orig_flags[i as int]);
            assert(v@ =~= v_before.subrange(1, v_before.len() as int));
            assert(suffix.subrange(1, suffix.len() as int) =~= orig_flags.subrange(
                i + 1,
                orig_flags.len() as int,
            ));
        }
        if keep {
            let ghost out_before = out@;
            out.push(t);
            proof {
                assert(out_before + (seq![v_before[0]] + spec_selected(
                    v@,
                    orig_flags.subrange(i + 1, orig_flags.len() as int),
                )) =~= out@ + spec_selected(v@, orig_flags.subrange(i + 1, orig_flags.len() as int)));
            }
        }
        i = i + 1;
    }
    proof {
        assert(out@ + spec_selected(v@, orig_flags.subrange(i as int, orig_flags.len() as int))
            =~= out@);
    }
    out
}

} // verus!
