use subtitle_watcher::fonts::named_fonts;
use subtitle_watcher::format::{is_text_format, subtitle_format, LoadError, SubtitleFormat};
use subtitle_watcher::subtitle::{
    active_subtitles, subtitles_from_entries, subtitles_in_font, Subtitle, TimedLine,
};

fn line(start_ms: i64, end_ms: i64, text: &str) -> TimedLine {
    TimedLine { start_ms, end_ms, line: Some(text.to_string()) }
}

#[test]
fn entry_text_is_cleaned() {
    let s = Subtitle::from_entry(&line(1000, 2500, "<b>Hi</b>{\\pos(1,2)} there\\Nyou"), "Arial");
    assert_eq!(s.start_time_ms, 1000);
    assert_eq!(s.end_time_ms, 2500);
    assert_eq!(s.text, "Hi there\nyou");
    assert_eq!(s.font, "Arial");
}

#[test]
fn entry_without_text_gets_the_fixed_one() {
    let s = Subtitle::from_entry(&TimedLine { start_ms: 0, end_ms: 1, line: None }, "");
    assert_eq!(s.text, "... [No Sub]");
}

#[test]
fn negative_times_wrap_round() {
    let s = Subtitle::from_entry(&line(-1, i64::MIN, "x"), "");
    assert_eq!(s.start_time_ms, u128::MAX);
    assert_eq!(s.end_time_ms, i64::MIN as u128);
    let s = Subtitle::from_entry(&line(i64::MAX, 0, "x"), "");
    assert_eq!(s.start_time_ms, i64::MAX as u128);
    assert_eq!(s.end_time_ms, 0);
}

#[test]
fn new_subtitle_holds_what_it_was_given() {
    let s = Subtitle::_new(3, 9, "text".to_string(), "Mono".to_string());
    assert_eq!(s.start_time_ms, 3);
    assert_eq!(s.end_time_ms, 9);
    assert_eq!(s.text, "text");
    assert_eq!(s.font, "Mono");
    let t = s.with_font("Serif");
    assert_eq!(t.font, "Serif");
    assert_eq!(t.text, "text");
    assert_eq!(t.start_time_ms, 3);
    assert_eq!(t.end_time_ms, 9);
}

#[test]
fn active_includes_both_ends() {
    let s = Subtitle::_new(100, 200, String::new(), String::new());
    assert!(!s.is_active_at(99));
    assert!(s.is_active_at(100));
    assert!(s.is_active_at(150));
    assert!(s.is_active_at(200));
    assert!(!s.is_active_at(201));
}

#[test]
fn active_positions_in_order() {
    let entries = vec![
        line(0, 1000, "a"),
        line(500, 1500, "b"),
        line(2000, 3000, "c"),
        line(900, 901, "d"),
    ];
    let subs = subtitles_from_entries(&entries, "F");
    assert_eq!(subs.len(), 4);
    assert_eq!(subs[3].text, "d");
    assert_eq!(subs[2].font, "F");
    assert_eq!(active_subtitles(&subs, 900), vec![0, 1, 3]);
    assert_eq!(active_subtitles(&subs, 1200), vec![1]);
    assert_eq!(active_subtitles(&subs, 1800), Vec::<usize>::new());
    assert_eq!(active_subtitles(&subs, 2000), vec![2]);
    assert_eq!(active_subtitles(&Vec::new(), 0), Vec::<usize>::new());
}

#[test]
fn font_change_keeps_times_and_text() {
    let subs = subtitles_from_entries(&vec![line(1, 2, "a"), line(3, 4, "b")], "Old");
    let again = subtitles_in_font(&subs, "New");
    assert_eq!(again.len(), 2);
    assert_eq!(again[0].font, "New");
    assert_eq!(again[1].font, "New");
    assert_eq!(again[1].text, "b");
    assert_eq!(again[1].start_time_ms, 3);
    assert_eq!(again[1].end_time_ms, 4);
}

#[test]
fn format_by_extension() {
    assert_eq!(subtitle_format(Some("srt"), b""), Ok(SubtitleFormat::SubRip));
    assert_eq!(subtitle_format(Some("ass"), b"x"), Ok(SubtitleFormat::SubStationAlpha));
    assert_eq!(subtitle_format(Some("ssa"), b"x"), Ok(SubtitleFormat::SubStationAlpha));
    assert_eq!(subtitle_format(Some("idx"), b"x"), Ok(SubtitleFormat::VobSubIdx));
}

#[test]
fn format_of_sub_files_by_content() {
    assert_eq!(
        subtitle_format(Some("sub"), &[0x00, 0x00, 0x01, 0xba, 0x44]),
        Ok(SubtitleFormat::VobSubSub)
    );
    assert_eq!(
        subtitle_format(Some("sub"), &[0x00, 0x00, 0x01]),
        Ok(SubtitleFormat::MicroDVD)
    );
    assert_eq!(subtitle_format(Some("sub"), b"{1}{2}text"), Ok(SubtitleFormat::MicroDVD));
    assert_eq!(subtitle_format(Some("sub"), b""), Ok(SubtitleFormat::MicroDVD));
    assert_eq!(
        subtitle_format(Some("sub"), &[0x00, 0x00, 0x01, 0xba]),
        Ok(SubtitleFormat::VobSubSub)
    );
    assert_eq!(
        subtitle_format(Some("sub"), &[0x00, 0x00, 0x01, 0xbb]),
        Ok(SubtitleFormat::MicroDVD)
    );
    assert_eq!(
        subtitle_format(Some("sub"), &[0xba, 0x00, 0x00, 0x01, 0xba]),
        Ok(SubtitleFormat::MicroDVD)
    );
}

#[test]
fn format_unknown_is_an_error() {
    assert_eq!(subtitle_format(Some("txt"), b"1\n"), Err(LoadError::UnsupportedFormat));
    assert_eq!(subtitle_format(Some("SRT"), b"1\n"), Err(LoadError::UnsupportedFormat));
    assert_eq!(subtitle_format(Some(".srt"), b"1\n"), Err(LoadError::UnsupportedFormat));
    assert_eq!(subtitle_format(Some(""), b"1\n"), Err(LoadError::UnsupportedFormat));
    assert_eq!(subtitle_format(None, b"1\n"), Err(LoadError::UnsupportedFormat));
    assert_eq!(
        subtitle_format(None, &[0x00, 0x00, 0x01, 0xba]),
        Err(LoadError::UnsupportedFormat)
    );
}

#[test]
fn binary_sub_is_no_text() {
    assert!(!is_text_format(SubtitleFormat::VobSubSub));
    assert!(is_text_format(SubtitleFormat::SubRip));
    assert!(is_text_format(SubtitleFormat::SubStationAlpha));
    assert!(is_text_format(SubtitleFormat::VobSubIdx));
    assert!(is_text_format(SubtitleFormat::MicroDVD));
}

#[test]
fn fonts_without_a_name_are_left_out() {
    let names = vec![
        Some("Arial".to_string()),
        None,
        Some("Noto Sans".to_string()),
        None,
        Some("Arial".to_string()),
    ];
    assert_eq!(named_fonts(&names), vec!["Arial", "Noto Sans", "Arial"]);
    assert_eq!(named_fonts(&vec![None, None]), Vec::<String>::new());
    assert_eq!(named_fonts(&Vec::new()), Vec::<String>::new());
}
