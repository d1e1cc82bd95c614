use bili_dl::download::{
    assign_input_paths, begin_stream, default_stem, get_file_path, output_file_path, MediaKind,
    Ordinal, Phase, StreamProgress, Task, TaskEvent, TaskRun,
};
use bili_dl::parser::{MediaInfo, SegmentBase};
use bili_dl::DlError;

fn rep(base_url: &str) -> MediaInfo {
    MediaInfo {
        id: 80,
        base_url: base_url.to_string(),
        backup_url: Vec::new(),
        bandwidth: 636_017,
        codecs: "avc1.640032".to_string(),
        mime_type: "video/mp4".to_string(),
        width: 1920,
        height: 1080,
        segment_base: SegmentBase {
            initialization: "0-991".to_string(),
            index_range: "992-1543".to_string(),
        },
    }
}

fn run_until_downloading(run: &mut TaskRun) {
    run.step(TaskEvent::PageResponse { ok: true });
    run.step(TaskEvent::StreamsChosen { ok: true });
    run.step(TaskEvent::DownloadsBegun);
    assert!(matches!(run.phase, Phase::Downloading));
}

#[test]
fn merge_failure_cleans_both_files_when_both_were_written() {
    let mut run = TaskRun::new();
    run_until_downloading(&mut run);
    run.step(TaskEvent::VideoFileCreated);
    run.step(TaskEvent::AudioFileCreated);
    run.step(TaskEvent::DownloadsJoined { video_ok: true, audio_ok: true });
    assert!(matches!(run.phase, Phase::Merging));
    let cleanup = run.step(TaskEvent::MergeFinished { ok: false });
    assert!(matches!(run.phase, Phase::Failed));
    assert!(cleanup.remove_video);
    assert!(cleanup.remove_audio);
    assert!(!run.video_present);
    assert!(!run.audio_present);
}

#[test]
fn download_failure_cleans_only_the_file_that_exists() {
    let mut run = TaskRun::new();
    run_until_downloading(&mut run);
    run.step(TaskEvent::VideoFileCreated);
    let cleanup = run.step(TaskEvent::DownloadsJoined { video_ok: true, audio_ok: false });
    assert!(matches!(run.phase, Phase::Failed));
    assert!(cleanup.remove_video);
    assert!(!cleanup.remove_audio);
    assert!(!run.video_present);
    assert!(!run.audio_present);
}

#[test]
fn failure_before_any_file_cleans_nothing() {
    let mut run = TaskRun::new();
    run_until_downloading(&mut run);
    let cleanup = run.step(TaskEvent::DownloadsJoined { video_ok: false, audio_ok: false });
    assert!(matches!(run.phase, Phase::Failed));
    assert!(!cleanup.remove_video);
    assert!(!cleanup.remove_audio);
    assert!(!run.video_present);
    assert!(!run.audio_present);
}

#[test]
fn successful_merge_still_removes_the_sources() {
    let mut run = TaskRun::new();
    run_until_downloading(&mut run);
    run.step(TaskEvent::VideoFileCreated);
    run.step(TaskEvent::AudioFileCreated);
    run.step(TaskEvent::DownloadsJoined { video_ok: true, audio_ok: true });
    let cleanup = run.step(TaskEvent::MergeFinished { ok: true });
    assert!(matches!(run.phase, Phase::Done));
    assert!(cleanup.remove_video);
    assert!(cleanup.remove_audio);
    assert!(!run.video_present);
    assert!(!run.audio_present);
}

#[test]
fn interrupt_aborts_the_in_flight_task_and_cleans_up() {
    let mut run = TaskRun::new();
    run_until_downloading(&mut run);
    run.step(TaskEvent::VideoFileCreated);
    let cleanup = run.step(TaskEvent::Interrupted);
    assert!(matches!(run.phase, Phase::Failed));
    assert!(cleanup.remove_video);
    assert!(!cleanup.remove_audio);
}

#[test]
fn interrupt_leaves_a_finished_task_alone() {
    let mut run = TaskRun::new();
    run_until_downloading(&mut run);
    run.step(TaskEvent::DownloadsJoined { video_ok: true, audio_ok: true });
    run.step(TaskEvent::MergeFinished { ok: true });
    let cleanup = run.step(TaskEvent::Interrupted);
    assert!(matches!(run.phase, Phase::Done));
    assert!(!cleanup.remove_video);
    assert!(!cleanup.remove_audio);
}

#[test]
fn page_failure_fails_the_task() {
    let mut run = TaskRun::new();
    run.step(TaskEvent::PageResponse { ok: false });
    assert!(matches!(run.phase, Phase::Failed));
}

#[test]
fn mismatched_events_change_nothing() {
    let mut run = TaskRun::new();
    let cleanup = run.step(TaskEvent::MergeFinished { ok: true });
    assert!(matches!(run.phase, Phase::Pending));
    assert!(!cleanup.remove_video && !cleanup.remove_audio);
}

#[test]
fn stream_accept_needs_ok_status_and_length() {
    assert_eq!(begin_stream(200, Some(1024)), Ok(StreamProgress { total: 1024, received: 0 }));
    assert_eq!(begin_stream(404, Some(1024)), Err(DlError::BadStatus(404)));
    assert_eq!(begin_stream(403, None), Err(DlError::BadStatus(403)));
    assert_eq!(begin_stream(200, None), Err(DlError::MissingContentLength));
}

#[test]
fn progress_counts_chunks_up_to_the_total() {
    let mut p = begin_stream(200, Some(1000)).unwrap();
    p.record_chunk(400);
    assert_eq!(p.received, 400);
    assert!(!p.is_complete());
    p.record_chunk(600);
    assert_eq!(p.received, 1000);
    assert!(p.is_complete());
}

#[test]
fn progress_saturates_instead_of_wrapping() {
    let mut p = StreamProgress { total: u64::MAX, received: u64::MAX - 1 };
    p.record_chunk(16);
    assert_eq!(p.received, u64::MAX);
}

#[test]
fn path_assignment_uses_the_remote_filename() {
    let mut t = Task::new("link".to_string(), "title".to_string(), Ordinal::Pos(0));
    let video = rep("https://host/92/57/1094305792/video-30280.m4s?e=sig");
    let audio = rep("https://host/92/57/1094305792/audio-30216.m4s?e=sig");
    assign_input_paths(&mut t, "/tmp/dl", &video, &audio);
    let ip = t.input_path.as_ref().unwrap();
    assert_eq!(ip.v_path, "/tmp/dl/video-30280.m4s");
    assert_eq!(ip.a_path, "/tmp/dl/audio-30216.m4s");
    assert_eq!(t.link, "link");
    assert_eq!(t.title, "title");
}

#[test]
fn path_assignment_falls_back_to_synthesized_stems() {
    let mut t = Task::new("link".to_string(), "title".to_string(), Ordinal::Pos(7));
    let video = rep("https://host/stream");
    let audio = rep("https://host/sound");
    assign_input_paths(&mut t, "/tmp/dl", &video, &audio);
    let ip = t.input_path.as_ref().unwrap();
    assert_eq!(ip.v_path, "/tmp/dl/video07");
    assert_eq!(ip.a_path, "/tmp/dl/audio07");
}

#[test]
fn synthesized_stems_zero_pad_ordinals() {
    assert_eq!(default_stem(MediaKind::Video, &Ordinal::Pos(3)), "video03");
    assert_eq!(default_stem(MediaKind::Audio, &Ordinal::Num(12)), "audio12");
    assert_eq!(default_stem(MediaKind::Video, &Ordinal::Raw("SP".to_string())), "videoSP");
}

#[test]
fn media_path_getter_returns_the_assigned_paths() {
    let mut t = Task::new("l".to_string(), "t".to_string(), Ordinal::Num(1));
    t.set_input_path("/d/v.m4s".to_string(), "/d/a.m4s".to_string());
    assert_eq!(t.get_media_path(MediaKind::Video), "/d/v.m4s");
    assert_eq!(t.get_media_path(MediaKind::Audio), "/d/a.m4s");
}

#[test]
fn output_path_appends_the_container_extension() {
    assert_eq!(output_file_path("/dl", "Series - 01 [Opening]"), "/dl/Series - 01 [Opening].mp4");
    // A dot inside the title reads as an extension and is replaced, the way
    // a path library swaps extensions.
    assert_eq!(output_file_path("/dl", "Title Ep.5"), "/dl/Title Ep.mp4");
}

#[test]
fn file_path_helper_joins_directory_and_filename() {
    let media = rep("https://host/a/b/c/track.m4s");
    assert_eq!(get_file_path("/downloads", &media, "video00"), "/downloads/track.m4s");
}
