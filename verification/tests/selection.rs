use bili_dl::download::{select_download_video, Ordinal, Task};
use bili_dl::fetch::{process_url, video_task_list, VideoInfo, VideoType};
use bili_dl::parser::{
    choose_audio_stream, choose_streams, choose_video_stream, Dash, Dolby, Flac, MediaInfo,
    PlayInfo, SegmentBase,
};
use bili_dl::DlError;

fn rep(id: i32, bandwidth: i32, base_url: &str) -> MediaInfo {
    MediaInfo {
        id,
        base_url: base_url.to_string(),
        backup_url: vec![format!("{}?backup", base_url)],
        bandwidth,
        codecs: "avc1.640032".to_string(),
        mime_type: "video/mp4".to_string(),
        width: 1920,
        height: 1080,
        segment_base: SegmentBase {
            initialization: "0-991".to_string(),
            index_range: "992-1543".to_string(),
        },
    }
}

fn play_info(audio: Vec<MediaInfo>, video: Vec<MediaInfo>, dolby: Option<Vec<MediaInfo>>, flac: Option<MediaInfo>) -> PlayInfo {
    PlayInfo {
        accept_description: vec!["1080P".to_string()],
        accept_format: "mp4".to_string(),
        dash: Dash {
            audio,
            video,
            dolby: Dolby { type_: 0, audio: dolby },
            flac: flac.map(|a| Flac { display: false, audio: Some(a) }),
        },
    }
}

#[test]
fn video_selection_takes_unique_maximum() {
    let v = vec![
        rep(1, 400_000, "https://host/a.m4s"),
        rep(2, 900_000, "https://host/b.m4s"),
        rep(3, 600_000, "https://host/c.m4s"),
    ];
    let best = choose_video_stream(&v).unwrap();
    assert_eq!(best.id, 2);
    assert_eq!(best.bandwidth, 900_000);
    assert_eq!(best.base_url, "https://host/b.m4s");
}

#[test]
fn video_selection_breaks_ties_by_first_encountered() {
    let v = vec![
        rep(1, 700_000, "https://host/first.m4s"),
        rep(2, 700_000, "https://host/second.m4s"),
    ];
    let best = choose_video_stream(&v).unwrap();
    assert_eq!(best.id, 1);
    assert_eq!(best.base_url, "https://host/first.m4s");
}

#[test]
fn video_selection_fails_on_empty_ladder() {
    let v: Vec<MediaInfo> = Vec::new();
    assert!(choose_video_stream(&v).is_none());
}

#[test]
fn audio_selection_takes_maximum_of_normal_pool() {
    let p = play_info(
        vec![rep(30216, 67_000, "https://host/lo.m4s"), rep(30280, 192_000, "https://host/hi.m4s")],
        vec![rep(1, 1, "https://host/v.m4s")],
        None,
        None,
    );
    let best = choose_audio_stream(&p).unwrap();
    assert_eq!(best.id, 30280);
}

#[test]
fn audio_selection_pools_dolby_candidates() {
    let p = play_info(
        vec![rep(30280, 192_000, "https://host/aac.m4s")],
        vec![rep(1, 1, "https://host/v.m4s")],
        Some(vec![rep(30250, 640_000, "https://host/dolby.m4s")]),
        None,
    );
    let best = choose_audio_stream(&p).unwrap();
    assert_eq!(best.id, 30250);
}

#[test]
fn audio_selection_pools_lossless_candidate_without_checking_display() {
    let p = play_info(
        vec![rep(30280, 192_000, "https://host/aac.m4s")],
        vec![rep(1, 1, "https://host/v.m4s")],
        None,
        Some(rep(30251, 1_500_000, "https://host/flac.m4s")),
    );
    let best = choose_audio_stream(&p).unwrap();
    assert_eq!(best.id, 30251);
}

#[test]
fn audio_selection_ties_go_to_pool_construction_order() {
    // Normal list comes before the Dolby list in the pool, so an equal
    // bandwidth keeps the normal candidate.
    let p = play_info(
        vec![rep(30280, 640_000, "https://host/aac.m4s")],
        vec![rep(1, 1, "https://host/v.m4s")],
        Some(vec![rep(30250, 640_000, "https://host/dolby.m4s")]),
        None,
    );
    let best = choose_audio_stream(&p).unwrap();
    assert_eq!(best.id, 30280);
}

#[test]
fn audio_selection_fails_on_empty_pool() {
    let p = play_info(Vec::new(), vec![rep(1, 1, "https://host/v.m4s")], None, None);
    assert!(choose_audio_stream(&p).is_none());
}

#[test]
fn combined_selection_returns_both_choices() {
    let p = play_info(
        vec![rep(30216, 67_000, "https://host/lo.m4s"), rep(30280, 192_000, "https://host/hi.m4s")],
        vec![rep(16, 200_000, "https://host/360p.m4s"), rep(80, 900_000, "https://host/1080p.m4s")],
        None,
        None,
    );
    let (video, audio) = choose_streams(&p).unwrap();
    assert_eq!(video.id, 80);
    assert_eq!(audio.id, 30280);
}

#[test]
fn combined_selection_fails_with_the_selection_error() {
    let no_audio = play_info(Vec::new(), vec![rep(1, 1, "https://host/v.m4s")], None, None);
    assert_eq!(choose_streams(&no_audio), Err(DlError::StreamSelection));
    let no_video = play_info(vec![rep(1, 1, "https://host/a.m4s")], Vec::new(), None, None);
    assert_eq!(choose_streams(&no_video), Err(DlError::StreamSelection));
}

#[test]
fn selection_vector_filters_tasks_in_order() {
    let tasks = vec![
        Task::new("l0".to_string(), "t0".to_string(), Ordinal::Pos(0)),
        Task::new("l1".to_string(), "t1".to_string(), Ordinal::Pos(1)),
        Task::new("l2".to_string(), "t2".to_string(), Ordinal::Pos(2)),
    ];
    let kept = select_download_video(tasks, vec![true, false, true]);
    assert_eq!(kept.len(), 2);
    assert_eq!(kept[0].title, "t0");
    assert_eq!(kept[1].title, "t2");
}

#[test]
fn selection_vector_of_all_false_drops_everything() {
    let tasks = vec![Task::new("l".to_string(), "t".to_string(), Ordinal::Pos(0))];
    let kept = select_download_video(tasks, vec![false]);
    assert!(kept.is_empty());
}

#[test]
fn url_classification_spots_series_pages() {
    assert!(matches!(
        process_url("https://www.bilibili.com/bangumi/media/md21231728"),
        VideoType::Bangumi
    ));
    assert!(matches!(
        process_url("https://www.bilibili.com/video/BV1ub421J7vH"),
        VideoType::Video
    ));
}

#[test]
fn single_video_yields_one_task() {
    let info = VideoInfo {
        state: 0,
        bvid: "BV1ub421J7vH".to_string(),
        title: "A standalone video".to_string(),
        desc: String::new(),
        duration: 300,
    };
    let tasks = video_task_list("https://www.bilibili.com/video/BV1ub421J7vH", &info);
    assert_eq!(tasks.len(), 1);
    assert_eq!(tasks[0].link, "https://www.bilibili.com/video/BV1ub421J7vH");
    assert_eq!(tasks[0].title, "A standalone video");
    assert_eq!(tasks[0].id, Ordinal::Num(1));
}
