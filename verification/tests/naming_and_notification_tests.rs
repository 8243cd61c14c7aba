use nanite_clip::clip_naming::{
    clip_file_name, preview_template, preview_with_timestamp, render_with_timestamp,
    sample_context, sanitize_component, validate_template,
};
use nanite_clip::notifications::{
    build_windows_toast_xml, clip_saved_text, format_clip_duration, notification_backend_name,
    powershell_single_quoted, split_notification_text, xml_escape, ClipLength,
};
use nanite_clip::platform::Platform;

#[test]
fn validates_known_placeholders() {
    assert!(validate_template("{timestamp}_{character}_{rule}").is_ok());
    assert!(validate_template("{unknown}").is_err());
}

#[test]
fn preview_matches_final_filename_sanitization_rules() {
    let preview = preview_template("{character}:{rule}?").unwrap();
    assert_eq!(preview, "Example_Manual_Clip");
}

#[test]
fn sanitizes_invalid_filename_characters() {
    let sanitized = sanitize_component("The Crown: Final/Push?");
    assert_eq!(sanitized, "The_Crown__Final_Push");
}

#[test]
fn clip_duration_formats_seconds() {
    assert_eq!(format_clip_duration(ClipLength::Seconds(45)), "45 seconds");
}

#[test]
fn clip_duration_formats_singular_second() {
    assert_eq!(format_clip_duration(ClipLength::Seconds(1)), "1 second");
}

#[test]
fn clip_duration_formats_full_buffer() {
    assert_eq!(format_clip_duration(ClipLength::FullBuffer), "full buffer");
}

#[test]
fn split_notification_uses_first_line_as_title() {
    let (title, body) = split_notification_text("Highlight clipped\nDuration: 30 seconds");
    assert_eq!(title, "Highlight clipped");
    assert_eq!(body.as_deref(), Some("Duration: 30 seconds"));
}

#[test]
fn xml_escape_rewrites_reserved_characters() {
    assert_eq!(
        xml_escape("A&B <test> \"quoted\""),
        "A&amp;B &lt;test&gt; &quot;quoted&quot;"
    );
}

#[test]
fn windows_toast_xml_includes_title_and_body() {
    let xml = build_windows_toast_xml("Profile activated\nHighlights");
    assert!(xml.contains("<text>Profile activated</text>"));
    assert!(xml.contains("<text>Highlights</text>"));
}

#[test]
fn single_line_notification_has_no_body() {
    let (title, body) = split_notification_text("Only a title");
    assert_eq!(title, "Only a title");
    assert_eq!(body, None);
}

#[test]
fn clip_saved_text_mentions_duration() {
    assert_eq!(clip_saved_text(ClipLength::Seconds(30)), "Highlight clipped\nDuration: 30 seconds");
}

#[test]
fn powershell_quoting_doubles_single_quotes() {
    assert_eq!(powershell_single_quoted("it's"), "it''s");
}

#[test]
fn notification_backend_depends_on_platform() {
    assert_ne!(
        notification_backend_name(Platform::Windows),
        notification_backend_name(Platform::Linux)
    );
}

#[test]
fn rendering_fills_placeholders_with_sanitized_values() {
    let context = sample_context();
    let rendered = render_with_timestamp("{character}_{timestamp}", &context, "2024-01-02_03-04-05").unwrap();
    assert_eq!(rendered, "Example_2024-01-02_03-04-05");
    assert!(render_with_timestamp("{nope}", &context, "t").is_err());
}

#[test]
fn preview_with_fixed_timestamp() {
    assert_eq!(
        preview_with_timestamp("{timestamp}", "2024-01-02_03-04-05").unwrap(),
        "2024-01-02_03-04-05"
    );
}

#[test]
fn clip_file_names_add_collision_suffix() {
    assert_eq!(clip_file_name("Example_manual", Some("mkv"), None), "Example_manual.mkv");
    assert_eq!(clip_file_name("Example_manual", Some("mkv"), Some(2)), "Example_manual-2.mkv");
    assert_eq!(clip_file_name("clip", None, None), "clip");
}

#[test]
fn timestamps_are_written_as_local_dates() {
    let preview = preview_template("{timestamp}").unwrap();
    assert_eq!(preview.len(), 19);
    let bytes = preview.as_bytes();
    assert_eq!(bytes[4], b'-');
    assert_eq!(bytes[7], b'-');
    assert_eq!(bytes[10], b'_');
    assert!(preview.starts_with("2024-03-"));
}

#[test]
fn the_trigger_time_is_written_in_the_timestamp_layout() {
    let shaped = |text: &str| {
        let chars: Vec<char> = text.chars().collect();
        chars.len() == 19
            && chars.iter().enumerate().all(|(i, c)| match i {
                4 | 7 | 13 | 16 => *c == '-',
                10 => *c == '_',
                _ => c.is_ascii_digit(),
            })
    };
    let mut context = sample_context();
    context.timestamp = 1_700_000_000;
    let rendered = nanite_clip::clip_naming::render_template("{timestamp}", &context).unwrap();
    assert!(shaped(&rendered), "{rendered}");
    assert!(shaped(&preview_template("{timestamp}").unwrap()));
    let stem = nanite_clip::clip_naming::renamed_clip_stem("{timestamp}", &context).unwrap();
    assert!(shaped(&stem), "{stem}");
}
