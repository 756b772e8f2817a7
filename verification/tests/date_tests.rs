use ils::date::{date_cell_text, effective_timestamp, locale_prefix, resolve_locale, Timestamp};
use ils::meta::Date;

#[test]
fn epoch_sentinel_without_subseconds_falls_back() {
    let primary = Timestamp { secs: 0, nanos: None };
    let secondary = Timestamp { secs: 1431648000, nanos: None };
    assert_eq!(effective_timestamp(&primary, &secondary), secondary);
}

#[test]
fn nonzero_primary_is_kept() {
    let primary = Timestamp { secs: 55, nanos: None };
    let secondary = Timestamp { secs: 1431648000, nanos: Some(3) };
    assert_eq!(effective_timestamp(&primary, &secondary), primary);
}

#[test]
fn epoch_sentinel_with_subseconds_is_kept() {
    let primary = Timestamp { secs: 0, nanos: Some(12) };
    let secondary = Timestamp { secs: 1431648000, nanos: None };
    assert_eq!(effective_timestamp(&primary, &secondary), primary);
}

#[test]
fn locale_identifier_is_cut_at_first_dot() {
    assert_eq!(locale_prefix("en_US.UTF-8"), "en_US");
    assert_eq!(locale_prefix("C"), "C");
    assert_eq!(locale_prefix("fr_FR.ISO-8859-1.extra"), "fr_FR");
    assert_eq!(locale_prefix(""), "");
}

#[test]
fn date_renders_its_calendar_year() {
    let locale = resolve_locale(None);
    let d = Date::Date(1431648000);
    let text = d.render(&locale);
    assert!(text.contains("2015"), "unexpected date text: {}", text);
}

#[test]
fn unparsable_locale_falls_back_to_default() {
    let fallback = resolve_locale(Some("no_such_locale.UTF-8"));
    let explicit = resolve_locale(None);
    let d = Date::Date(1431648000);
    assert_eq!(d.render(&fallback), d.render(&explicit));
}

#[test]
fn out_of_range_timestamps_render_the_placeholder() {
    let locale = resolve_locale(None);
    assert_eq!(Date::Date(i64::MAX).render(&locale), "_");
    assert_eq!(Date::Date(i64::MIN).render(&locale), "_");
    assert_eq!(Date::Date(-8334601228801).render(&locale), "_");
    assert_eq!(Date::Date(8210266876800).render(&locale), "_");
}

#[test]
fn boundary_timestamps_still_render() {
    let locale = resolve_locale(None);
    assert_ne!(Date::Date(-8334601228800).render(&locale), "_");
    assert_ne!(Date::Date(8210266876799).render(&locale), "_");
}

#[test]
fn date_cell_shows_text_or_placeholder() {
    assert_eq!(date_cell_text(Some(String::from("today"))), "today");
    assert_eq!(date_cell_text(None), "_");
}
