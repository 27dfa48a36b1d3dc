use udrome::frontend::globals::{search_value, shortcut, BaseUrl, Command, Focus, Key, Shortcut};
use udrome::frontend::model::{pad2, SongInfo};
use udrome::frontend::udrome::{Page, Paginator, DEFAULT_PAGE_SIZE};
use udrome::subsonic::Child;

fn song(duration: Option<u64>, artist: Option<&str>, cover: Option<&str>) -> SongInfo {
    SongInfo(Child {
        id: "12".to_string(),
        parent: None,
        title: "Hey".to_string(),
        album: None,
        artist: artist.map(|s| s.to_string()),
        track: None,
        year: None,
        genre: None,
        cover_art: cover.map(|s| s.to_string()),
        size: None,
        content_type: None,
        duration,
        path: None,
        album_id: None,
        artist_id: None,
    })
}

#[test]
fn a_length_is_shown_in_minutes_and_seconds() {
    assert_eq!(song(None, None, None).duration_humanized(), "-");
    assert_eq!(song(Some(0), None, None).duration_humanized(), "-");
    assert_eq!(song(Some(1), None, None).duration_humanized(), "0:01");
    assert_eq!(song(Some(59), None, None).duration_humanized(), "0:59");
    assert_eq!(song(Some(60), None, None).duration_humanized(), "01:00");
    assert_eq!(song(Some(61), None, None).duration_humanized(), "01:01");
    assert_eq!(song(Some(3599), None, None).duration_humanized(), "59:59");
    assert_eq!(song(Some(3600), None, None).duration_humanized(), "1:60:00");
    assert_eq!(song(Some(3661), None, None).duration_humanized(), "1:61:01");
    assert_eq!(song(Some(36000), None, None).duration_humanized(), "10:600:00");
    assert_eq!(pad2(0), "00");
    assert_eq!(pad2(9), "09");
    assert_eq!(pad2(10), "10");
    assert_eq!(pad2(123), "123");
}

#[test]
fn a_title_goes_behind_its_artist() {
    assert_eq!(song(None, Some("Ann"), None).title_with_optional_artist(), "Ann - Hey");
    assert_eq!(song(None, None, None).title_with_optional_artist(), "Hey");
}

#[test]
fn urls_lead_to_the_api() {
    let s = song(None, None, Some("7"));
    assert_eq!(s.cover_art_url("/udrome"), Some("/udrome/rest/getCoverArt.view?id=7".to_string()));
    assert_eq!(s.stream_url("/udrome"), "/udrome/rest/stream.view?id=12");
    assert_eq!(song(None, None, None).cover_art_url("/udrome"), None);
    assert_eq!(s.stream_url(""), "/rest/stream.view?id=12");
}

#[test]
fn a_paginator_starts_on_the_first_page() {
    let p = Paginator::default();
    assert_eq!(DEFAULT_PAGE_SIZE, 50);
    assert_eq!(p, Paginator { offset: 0, max_offset: u32::MAX, size: 50, search: None });
    assert_eq!(p.cur(), Page { size: 50, offset: 0, search: None });
    assert_eq!(Paginator::new(7).cur(), Page { size: 7, offset: 0, search: None });
}

#[test]
fn a_paginator_moves_by_pages() {
    let mut p = Paginator::new(10);
    assert_eq!(p.next().offset, 10);
    assert_eq!(p.next().offset, 20);
    assert_eq!(p.prev().offset, 10);
    assert_eq!(p.prev().offset, 0);
    assert_eq!(p.prev().offset, 0);
    p.offset = 5;
    assert_eq!(p.prev().offset, 0);
    p.offset = u32::MAX - 3;
    assert_eq!(p.next().offset, u32::MAX);
}

#[test]
fn a_paginator_stops_at_the_last_page() {
    let mut p = Paginator::new(10);
    p.next();
    p.next();
    p.clamp_offset(10);
    assert_eq!(p.max_offset, u32::MAX);
    p.clamp_offset(3);
    assert_eq!(p.max_offset, 20);
    assert_eq!(p.next().offset, 20);
    p.clamp_offset(0);
    assert_eq!(p.max_offset, 20);
    let mut empty = Paginator::new(0);
    empty.offset = 4;
    empty.clamp_offset(0);
    assert_eq!(empty.max_offset, 3);
    empty.offset = 0;
    empty.clamp_offset(0);
    assert_eq!(empty.max_offset, 0);
    empty.clamp_offset(1);
    assert_eq!(empty.max_offset, 0);
}

#[test]
fn another_search_starts_over() {
    let mut p = Paginator::new(10);
    p.set_search(Some("red".to_string()));
    p.next();
    p.clamp_offset(1);
    assert_eq!(p.cur(), Page { size: 10, offset: 10, search: Some("red".to_string()) });
    p.set_search(Some("red".to_string()));
    assert_eq!((p.offset, p.max_offset), (10, 10));
    p.set_search(Some("blue".to_string()));
    assert_eq!(p, Paginator { offset: 0, max_offset: u32::MAX, size: 10, search: Some("blue".to_string()) });
    p.next();
    p.set_search(None);
    assert_eq!(p, Paginator { offset: 0, max_offset: u32::MAX, size: 10, search: None });
}

#[test]
fn the_base_url_loses_one_slash() {
    assert_eq!(BaseUrl::new("http://host/udrome/".to_string()).as_str(), "http://host/udrome");
    assert_eq!(BaseUrl::new("http://host/udrome".to_string()).as_str(), "http://host/udrome");
    assert_eq!(BaseUrl::new("http://host//".to_string()).as_str(), "http://host/");
    assert_eq!(BaseUrl::new("/".to_string()).as_str(), "");
    assert_eq!(BaseUrl::new(String::new()).as_str(), "");
}

#[test]
fn key_presses_lead_to_shortcuts() {
    assert_eq!(shortcut(Key::Character('f'), true, None), Shortcut::Send(Command::FocusSearch));
    assert_eq!(shortcut(Key::Character('f'), false, None), Shortcut::Pass);
    assert_eq!(shortcut(Key::Character('g'), true, None), Shortcut::Pass);
    assert_eq!(shortcut(Key::Escape, false, Some(Focus::Search)), Shortcut::Send(Command::BlurSearch));
    assert_eq!(shortcut(Key::Space, false, None), Shortcut::TogglePlayback);
    assert_eq!(shortcut(Key::Space, false, Some(Focus::Search)), Shortcut::Pass);
    assert_eq!(shortcut(Key::Space, false, Some(Focus::Player)), Shortcut::Pass);
    assert_eq!(shortcut(Key::Other, true, None), Shortcut::Pass);
}

#[test]
fn an_empty_field_searches_for_nothing() {
    assert_eq!(search_value(String::new()), None);
    assert_eq!(search_value(" ".to_string()), Some(" ".to_string()));
    assert_eq!(search_value("red".to_string()), Some("red".to_string()));
}
