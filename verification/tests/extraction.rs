use bili_dl::fetch::{has_login_indicator, parse_bv_code};
use bili_dl::parser::{extract_filename, extract_play_info, find_start_token, Convention};
use bili_dl::DlError;

const DOC: &str = "{\"data\":{\"dash\":{\"video\":[{\"id\":80,\"bandwidth\":636017}]}}}";

#[test]
fn extraction_round_trips_script_convention() {
    let page = format!(
        "<html><body><script>window.__playinfo__={}</script><p>tail</p></body></html>",
        DOC
    );
    let (conv, slice) = extract_play_info(&page).unwrap();
    assert!(matches!(conv, Convention::WindowPlayinfo));
    assert_eq!(slice, DOC);
    let decoded: serde_json::Value = serde_json::from_str(&slice).unwrap();
    let original: serde_json::Value = serde_json::from_str(DOC).unwrap();
    assert_eq!(decoded, original);
}

#[test]
fn extraction_round_trips_ssr_convention() {
    let page = format!(
        "<html><script>const playurlSSRData = {}\nif (true) {{}}</script></html>",
        DOC
    );
    let (conv, slice) = extract_play_info(&page).unwrap();
    assert!(matches!(conv, Convention::PlayurlSsr));
    assert_eq!(slice.trim(), DOC);
    let decoded: serde_json::Value = serde_json::from_str(slice.trim()).unwrap();
    let original: serde_json::Value = serde_json::from_str(DOC).unwrap();
    assert_eq!(decoded, original);
}

#[test]
fn extraction_prefers_script_convention_when_both_markers_occur() {
    let page = format!(
        "const playurlSSRData = {{}} if <script>window.__playinfo__={}</script>",
        DOC
    );
    let (conv, i) = find_start_token(&page).unwrap();
    assert!(matches!(conv, Convention::WindowPlayinfo));
    assert!(i > 0);
    let (conv2, slice) = extract_play_info(&page).unwrap();
    assert!(matches!(conv2, Convention::WindowPlayinfo));
    assert_eq!(slice, DOC);
}

#[test]
fn extraction_fails_without_any_marker() {
    let r = extract_play_info("<html><body>no players here</body></html>");
    assert_eq!(r, Err(DlError::Extraction));
}

#[test]
fn extraction_fails_without_end_marker() {
    let page = format!("<script>window.__playinfo__={}", DOC);
    let r = extract_play_info(&page);
    assert_eq!(r, Err(DlError::Extraction));
}

#[test]
fn url_test() {
    let url = "https://upos-sz-estgoss.bilivideo.com/upgcxcode/92/57/1094305792/1094305792_nb3-1-30280.m4s?e=ig8euxZM2rNcNbdlhoNvNC8BqJIzNbfqXBvEqxTEto8BTrNvN0GvT90W5JZMkX_YN0MvXg8gNEV4NC8xNEV4N03eN0B5tZlqNxTEto8BTrNvNeZVuJ10Kj_g2UB02J0mN0B5tZlqNCNEto8BTrNvNC7MTX502C8f2jmMQJ6mqF2fka1mqx6gqj0eN0B599M=&uipk=5&nbs=1&deadline=1723464725&gen=playurlv2&os=upos&oi=1964813008&trid=caad2d19bba34b5c9d34eaa24e9c5841u&mid=398839362&platform=pc&og=cos&upsig=116974f3336c0b09b59913ea08eb383b&uparams=e,uipk,nbs,deadline,gen,os,oi,trid,mid,platform,og&bvc=vod&nettype=0&orderid=1,3&buvid=9572C95D-A944-1C55-26EE-4962F985BD6E28033infoc&build=0&f=u_0_0&agrr=1&bw=11003&logo=40000000";
    // The filename comes from the URL path alone; the query is not part of it.
    assert_eq!(extract_filename(url, "video01"), "1094305792_nb3-1-30280.m4s");
}

#[test]
fn fetch_url_test() {
    let url = "https://upos-sz-estgoss.bilivideo.com/upgcxcode/92/57/1094305792/1094305792_nb3-1-30280.m4s?e=ig8euxZM2rNcNbdlhoNvNC8BqJIzNbfqXBvEqxTEto8BTrNvN0GvT90W5JZMkX_YN0MvXg8gNEV4NC8xNEV4N03eN0B5tZlqNxTEto8BTrNvNeZVuJ10Kj_g2UB02J0mN0B5tZlqNCNEto8BTrNvNC7MTX502C8f2jmMQJ6mqF2fka1mqx6gqj0eN0B599M=&uipk=5&nbs=1&deadline=1723464725&gen=playurlv2&os=upos&oi=1964813008&trid=caad2d19bba34b5c9d34eaa24e9c5841u&mid=398839362&platform=pc&og=cos&upsig=116974f3336c0b09b59913ea08eb383b&uparams=e,uipk,nbs,deadline,gen,os,oi,trid,mid,platform,og&bvc=vod&nettype=0&orderid=1,3&buvid=9572C95D-A944-1C55-26EE-4962F985BD6E28033infoc&build=0&f=u_0_0&agrr=1&bw=11003&logo=40000000";
    let stem_and_ext = extract_filename(url, "fallback");
    assert!(stem_and_ext.ends_with(".m4s"));
    assert_eq!(stem_and_ext, "1094305792_nb3-1-30280.m4s");
}

#[test]
fn filename_falls_back_without_usable_extension() {
    assert_eq!(extract_filename("https://host/path/noext", "video07"), "video07");
    assert_eq!(extract_filename("not a url", "audio07"), "audio07");
}

#[test]
fn bv_code_is_read_greedily_from_the_path() {
    assert_eq!(
        parse_bv_code("https://www.bilibili.com/video/BV1ub421J7vH"),
        Some("1ub421J7vH".to_string())
    );
    assert_eq!(
        parse_bv_code("https://www.bilibili.com/video/BV1ub421J7vH/?p=2"),
        Some("1ub421J7vH".to_string())
    );
    assert_eq!(parse_bv_code("https://www.bilibili.com/video"), None);
}

#[test]
fn login_indicator_is_found_in_body_text() {
    assert!(has_login_indicator("{\"code\":0,\"data\":{\"isLogin\":true,\"mid\":1}}"));
    assert!(!has_login_indicator("{\"code\":0,\"data\":{\"isLogin\":false}}"));
}
