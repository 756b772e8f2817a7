//! Timestamp selection and locale-aware date rendering.
//!
//! The display locale is an explicit value: the caller resolves it once —
//! from an environment override it read itself — and passes it in, so the
//! library keeps no process-wide state.

use vstd::prelude::*;

use crate::meta::Date;
use crate::width::{chars_of, find_char, find_char_from};

verus! {

/// A raw source timestamp: whole seconds since the epoch and an optional
/// sub-second part. Rendering discards the sub-second part, but its
/// presence takes part in choosing between an entry's primary and
/// secondary timestamp.
#[derive(Clone, Copy, Debug, PartialEq, Eq)]
pub struct Timestamp {
    pub secs: u32,
    pub nanos: Option<u32>,
}

/// Chooses the timestamp a listing shows: the primary one, unless it is
/// the epoch sentinel with no sub-second part, in which case the secondary
/// one stands in for it.
pub fn effective_timestamp(primary: &Timestamp, secondary: &Timestamp) -> (r: Timestamp)
    ensures
        r == if primary.secs == 0 && primary.nanos is None {
            *secondary
        } else {
            *primary
        },
{
    if primary.secs == 0 && primary.nanos.is_none() {
        *secondary
    } else {
        *primary
    }
}

/// The portion of a locale identifier before its first `.` separator: the
/// whole identifier when it has none.
pub open spec fn locale_prefix_chars(s: Seq<char>) -> Seq<char> {
    if find_char_from(s, '.', 0) >= 0 {
        s.subrange(0, find_char_from(s, '.', 0))
    } else {
        s
    }
}

/// Cuts a locale identifier at its first `.` separator, dropping the
/// codeset suffix an environment override may carry.
pub fn locale_prefix(value: &str) -> (r: String)
    ensures
        r@ == locale_prefix_chars(value@),
{
    let v = chars_of(value);
    match find_char(&v, '.', 0) {
        Some(j) => {
            let sub = value.substring_char(0, j);
            sub.to_owned()
        },
        None => value.to_owned(),
    }
}

/// The earliest whole second the date formatter's calendar can place:
/// the start of the first representable date.
pub const MIN_DATE_SECS: i64 = -8334601228800;

/// The latest whole second the date formatter's calendar can place: the
/// last second of the last representable date.
pub const MAX_DATE_SECS: i64 = 8210266876799;

/// The seconds value a date carries.
pub open spec fn date_secs(d: Date) -> i64 {
    match d {
        Date::Date(s) => s,
    }
}

#[verifier::external_type_specification]
#[verifier::external_body]
pub struct ExLocale(chrono::Locale);

/// Relies on `chrono::Locale`'s `FromStr` (the `pure-rust-locales` table):
/// a known identifier parses to its locale, an unknown one to nothing.
#[verifier::external_body]
fn parse_locale(name: &str) -> (r: Option<chrono::Locale>) {
    name.parse().ok()
}

/// Relies on `chrono::Locale::en_US`, the default locale.
#[verifier::external_body]
fn default_locale() -> (r: chrono::Locale) {
    chrono::Locale::en_US
}

/// Resolves the display locale from the value of an environment override,
/// absent when the variable is not set: the identifier is cut at its first
/// `.`, then parsed, with the default locale standing in when the
/// variable is absent or unparsable.
pub fn resolve_locale(env_value: Option<&str>) -> chrono::Locale {
    match env_value {
        Some(v) => {
            let prefix = locale_prefix(v);
            match parse_locale(prefix.as_str()) {
                Some(locale) => locale,
                None => default_locale(),
            }
        },
        None => default_locale(),
    }
}

/// Relies on chrono: `DateTime::from_timestamp` (whole seconds; it
/// answers exactly for the seconds its calendar can place, a function of
/// the seconds argument alone), the conversion of the result to local
/// time, and `format_localized_with_items` with the `%c` strftime item,
/// whose text depends on the timestamp, the locale, and the machine's
/// time zone.
#[verifier::external_body]
fn format_timestamp(secs: i64, locale: &chrono::Locale) -> (r: Option<String>)
    ensures
        r is Some <==> MIN_DATE_SECS <= secs <= MAX_DATE_SECS,
{
    chrono::DateTime::from_timestamp(secs, 0).map(|utc| {
        let local: chrono::DateTime<chrono::Local> = utc.into();
        local
            .format_localized_with_items(chrono::format::StrftimeItems::new("%c"), *locale)
            .to_string()
    })
}

/// The single-character placeholder shown for an absent field.
pub fn placeholder() -> (r: String)
    ensures
        r@ == seq!['_'],
{
    proof {
        reveal_strlit("_");
    }
    let r = String::from_str("_");
    proof {
        assert(r@ =~= seq!['_']);
    }
    r
}

/// The text the date column shows once the formatter has spoken: the
/// formatted text itself, or the placeholder when there is none.
pub fn date_cell_text(formatted: Option<String>) -> (r: String)
    ensures
        formatted is Some ==> r@ == formatted->0@,
        formatted is None ==> r@ == seq!['_'],
{
    match formatted {
        Some(s) => s,
        None => placeholder(),
    }
}

/// What holds of a rendered date text: the formatter spoke exactly when
/// the timestamp is one its calendar can place, and the text is its
/// answer — the placeholder when there was none.
pub open spec fn rendered_date_ok(secs: i64, formatted: Option<String>, r: Seq<char>) -> bool {
    &&& (formatted is Some <==> MIN_DATE_SECS <= secs <= MAX_DATE_SECS)
    &&& r == (match formatted {
        Some(t) => t@,
        None => seq!['_'],
    })
}

impl Date {
    /// Renders a date for the given display locale: the formatter's
    /// locale-dependent text for a timestamp its calendar can place, and
    /// the placeholder for one out of range.
    pub fn render(&self, locale: &chrono::Locale) -> (r: String)
        ensures
            !(MIN_DATE_SECS <= date_secs(*self) <= MAX_DATE_SECS) ==> r@ == seq!['_'],
            exists|formatted: Option<String>| #[trigger] rendered_date_ok(
                date_secs(*self),
                formatted,
                r@,
            ),
    {
        match self {
            Date::Date(secs) => {
                let f = format_timestamp(*secs, locale);
                let ghost fg = f;
                let r = date_cell_text(f);
                proof {
                    assert(rendered_date_ok(date_secs(*self), fg, r@));
                }
                r
            },
        }
    }
}

} // verus!
