use bili_dl::bangumi::{
    bangumi_episode_task, bangumi_season_tasks, bangumi_url_parser, get_bangumi_file_name,
    BangumiID, BangumiInfo, Episode,
};
use bili_dl::download::Ordinal;
use bili_dl::DlError;

fn episode(ep_id: i64, ep_num: &str, long_title: &str, badge_type: i32) -> Episode {
    Episode {
        ep_id,
        long_title: long_title.to_string(),
        link: format!("https://www.bilibili.com/bangumi/play/ep{}", ep_id),
        ep_num: ep_num.to_string(),
        badge_type,
        status: 2,
    }
}

fn series(title: &str, episodes: Vec<Episode>) -> BangumiInfo {
    let total = episodes.len() as i32;
    BangumiInfo {
        title: title.to_string(),
        link: String::new(),
        season_id: 6038,
        media_id: 21231728,
        episodes,
        season_title: title.to_string(),
        total,
    }
}

#[test]
fn parses_media_id_url() {
    let r = bangumi_url_parser("https://www.bilibili.com/bangumi/media/md21231728");
    assert_eq!(r, Ok(BangumiID::MediaID(21231728)));
}

#[test]
fn parses_season_id_url() {
    let r = bangumi_url_parser("https://www.bilibili.com/bangumi/play/ss47561?spm_id_from=0");
    assert_eq!(r, Ok(BangumiID::SeasonID(47561)));
}

#[test]
fn parses_episode_id_url() {
    let r = bangumi_url_parser("https://www.bilibili.com/bangumi/play/ep830937");
    assert_eq!(r, Ok(BangumiID::EpisodeID(830937)));
}

#[test]
fn media_shape_wins_over_season_and_episode() {
    // An adversarial path carrying all three shapes: media wins.
    let r = bangumi_url_parser("https://example.com/ep3/ss2/md1/");
    assert_eq!(r, Ok(BangumiID::MediaID(1)));
}

#[test]
fn season_shape_wins_over_episode() {
    let r = bangumi_url_parser("https://example.com/ep3/ss2/");
    assert_eq!(r, Ok(BangumiID::SeasonID(2)));
}

#[test]
fn unrecognized_url_fails_identifier_parse() {
    let r = bangumi_url_parser("https://www.bilibili.com/video/BV1ub421J7vH");
    assert_eq!(r, Err(DlError::IdentifierParse));
}

#[test]
fn invalid_url_fails_identifier_parse() {
    let r = bangumi_url_parser("not a url at all");
    assert_eq!(r, Err(DlError::IdentifierParse));
}

#[test]
fn identifier_needs_terminating_slash_or_path_end() {
    // The id shape asks for a slash after the digits; normalization adds
    // one at the path end, so a trailing id still matches.
    let r = bangumi_url_parser("https://example.com/bangumi/media/md42");
    assert_eq!(r, Ok(BangumiID::MediaID(42)));
    // A non-digit, non-slash character after the digits spoils the match.
    let r2 = bangumi_url_parser("https://example.com/md42x/");
    assert_eq!(r2, Err(DlError::IdentifierParse));
}

#[test]
fn oversized_identifier_fails() {
    let r = bangumi_url_parser("https://example.com/md99999999999999999999/");
    assert_eq!(r, Err(DlError::IdentifierParse));
}

#[test]
fn title_zero_pads_numeric_episode_numbers() {
    assert_eq!(get_bangumi_file_name("Series", "3", "Opening"), "Series - 03 [Opening]");
    assert_eq!(get_bangumi_file_name("Series", "12", "Closing"), "Series - 12 [Closing]");
}

#[test]
fn title_keeps_non_numeric_episode_numbers_raw() {
    assert_eq!(get_bangumi_file_name("Series", "SP", "Special"), "Series - SP [Special]");
}

#[test]
fn title_accepts_signed_episode_numbers() {
    // A leading sign still counts as numeric, and `{:02}` keeps the sign.
    assert_eq!(get_bangumi_file_name("S", "+3", "t"), "S - 03 [t]");
    assert_eq!(get_bangumi_file_name("S", "-5", "t"), "S - -5 [t]");
}

#[test]
fn title_treats_out_of_range_numbers_as_raw() {
    assert_eq!(
        get_bangumi_file_name("S", "2147483648", "t"),
        "S - 2147483648 [t]"
    );
    assert_eq!(
        get_bangumi_file_name("S", "-2147483648", "t"),
        "S - -2147483648 [t]"
    );
}

#[test]
fn season_filtering_drops_flagged_records_and_renumbers() {
    // A season with 3 episodes, one flagged non-canonical: 2 tasks remain,
    // ordinals 0 and 1, titles built from the filtered position.
    let info = series(
        "Frieren",
        vec![
            episode(1001, "1", "Departure", 0),
            episode(1002, "2", "Recap", 1),
            episode(1003, "3", "Magic", 0),
        ],
    );
    let tasks = bangumi_season_tasks(&info);
    assert_eq!(tasks.len(), 2);
    assert_eq!(tasks[0].id, Ordinal::Pos(0));
    assert_eq!(tasks[1].id, Ordinal::Pos(1));
    assert_eq!(tasks[0].title, "Frieren - 01 [Departure]");
    assert_eq!(tasks[1].title, "Frieren - 03 [Magic]");
    assert_eq!(tasks[0].link, "https://www.bilibili.com/bangumi/play/ep1001");
    assert_eq!(tasks[1].link, "https://www.bilibili.com/bangumi/play/ep1003");
    assert!(tasks[0].input_path.is_none());
    assert!(tasks[1].input_path.is_none());
}

#[test]
fn season_filtering_keeps_platform_order() {
    let info = series(
        "S",
        vec![
            episode(1, "2", "b", 0),
            episode(2, "1", "a", 0),
        ],
    );
    let tasks = bangumi_season_tasks(&info);
    assert_eq!(tasks.len(), 2);
    assert_eq!(tasks[0].title, "S - 02 [b]");
    assert_eq!(tasks[1].title, "S - 01 [a]");
}

#[test]
fn episode_resolution_finds_record_by_id() {
    let info = series(
        "Series",
        vec![
            episode(10, "1", "One", 0),
            episode(20, "2", "Two", 0),
        ],
    );
    let t = bangumi_episode_task(&info, 20).unwrap();
    assert_eq!(t.title, "Series - 02 [Two]");
    assert_eq!(t.id, Ordinal::Num(2));
    assert!(t.input_path.is_none());
}

#[test]
fn episode_resolution_keeps_raw_ordinal_when_not_numeric() {
    let info = series("Series", vec![episode(10, "SP", "Special", 0)]);
    let t = bangumi_episode_task(&info, 10).unwrap();
    assert_eq!(t.id, Ordinal::Raw("SP".to_string()));
}

#[test]
fn episode_resolution_fails_when_id_absent() {
    // An episode-id absent from the returned list: the resolution fails
    // and yields no task.
    let info = series(
        "Series",
        vec![
            episode(10, "1", "One", 0),
            episode(20, "2", "Two", 0),
        ],
    );
    let r = bangumi_episode_task(&info, 30);
    assert_eq!(r, Err(DlError::EpisodeNotFound));
    assert_eq!(r.err().unwrap().message(), "no episode with the requested id");
}
