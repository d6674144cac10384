//! World-clock data: each city's fixed UTC offset and title, and the
//! `HH:MM:SS` display of the time of day there.
use vstd::prelude::*;
use vstd::string::StringSliceAdditionalSpecFns;
use crate::text::{bytes_eq, bytes_of};

verus! {

/// Seconds in a day.
pub const SECONDS_PER_DAY: u32 = 86400;

/// Fixed UTC offset in seconds and title of each known city key.
pub open spec fn city_info(key: Seq<u8>) -> Option<(int, Seq<u8>)> {
    if key == "za".spec_bytes() {
        Some((7200, "South Africa".spec_bytes()))
    } else if key == "ny".spec_bytes() {
        Some((-18000, "New York".spec_bytes()))
    } else if key == "paris".spec_bytes() {
        Some((3600, "Paris".spec_bytes()))
    } else if key == "adel".spec_bytes() {
        Some((34200, "Adelaide".spec_bytes()))
    } else if key == "sao".spec_bytes() {
        Some((-3600, "São Paulo".spec_bytes()))
    } else if key == "beij".spec_bytes() {
        Some((28800, "北京 (Beijing)".spec_bytes()))
    } else if key == "ndel".spec_bytes() {
        Some((19800, "नई दिल्ली (New Delhi)".spec_bytes()))
    } else if key == "dub".spec_bytes() {
        Some((14400, "دبي (Dubai)".spec_bytes()))
    } else if key == "mosc".spec_bytes() {
        Some((10800, "Москва (Moscow)".spec_bytes()))
    } else if key == "tok".spec_bytes() {
        Some((32400, "東京 (Tokyo)".spec_bytes()))
    } else if key == "mars".spec_bytes() {
        Some((-7140, "Mars (MTC)".spec_bytes()))
    } else {
        None
    }
}

/// Time shown for a city whose key is unknown.
pub open spec fn sentinel_time() -> Seq<u8> {
    "not implemented".spec_bytes()
}

/// Title shown for a city whose key is unknown.
pub open spec fn generic_title() -> Seq<u8> {
    "somewhere".spec_bytes()
}

/// Second of the day at a fixed offset from UTC, given the UTC second of the day.
pub open spec fn local_second(utc: int, offset: int) -> int {
    (utc + offset) % 86400
}

/// Two decimal digits of `n` (`n < 100`).
pub open spec fn two_digits(n: int) -> Seq<u8> {
    seq![(n / 10 + 48) as u8, (n % 10 + 48) as u8]
}

/// `HH:MM:SS` text of a second of the day, in 24-hour form.
pub open spec fn hms(secs: int) -> Seq<u8> {
    two_digits(secs / 3600) + seq![58u8] + two_digits((secs / 60) % 60) + seq![58u8] + two_digits(
        secs % 60,
    )
}

/// Display time of a city when the UTC second of the day is `utc`.
pub open spec fn display_time(key: Seq<u8>, utc: int) -> Seq<u8> {
    match city_info(key) {
        Some((offset, _)) => hms(local_second(utc, offset)),
        None => sentinel_time(),
    }
}

/// Title of a city.
pub open spec fn city_title(key: Seq<u8>) -> Seq<u8> {
    match city_info(key) {
        Some((_, title)) => title,
        None => generic_title(),
    }
}

/// Offset and title of a city key, if it is known.
pub fn lookup_city(key: &[u8]) -> (r: Option<(i32, &'static str)>)
    ensures
        r is None <==> city_info(key@) is None,
        r matches Some((o, t)) ==> city_info(key@) == Some((o as int, t.spec_bytes())),
{
    if bytes_eq(key, "za".as_bytes()) {
        Some((7200, "South Africa"))
    } else if bytes_eq(key, "ny".as_bytes()) {
        Some((-18000, "New York"))
    } else if bytes_eq(key, "paris".as_bytes()) {
        Some((3600, "Paris"))
    } else if bytes_eq(key, "adel".as_bytes()) {
        Some((34200, "Adelaide"))
    } else if bytes_eq(key, "sao".as_bytes()) {
        Some((-3600, "São Paulo"))
    } else if bytes_eq(key, "beij".as_bytes()) {
        Some((28800, "北京 (Beijing)"))
    } else if bytes_eq(key, "ndel".as_bytes()) {
        Some((19800, "नई दिल्ली (New Delhi)"))
    } else if bytes_eq(key, "dub".as_bytes()) {
        Some((14400, "دبي (Dubai)"))
    } else if bytes_eq(key, "mosc".as_bytes()) {
        Some((10800, "Москва (Moscow)"))
    } else if bytes_eq(key, "tok".as_bytes()) {
        Some((32400, "東京 (Tokyo)"))
    } else if bytes_eq(key, "mars".as_bytes()) {
        Some((-7140, "Mars (MTC)"))
    } else {
        None
    }
}

/// Second of the day at `offset` seconds from UTC.
pub fn shift_second(utc: u32, offset: i32) -> (r: u32)
    requires
        utc < 86400,
        -86400 < offset < 86400,
    ensures
        r as int == local_second(utc as int, offset as int),
        r < 86400,
{
    let shifted: u32 = if offset >= 0 {
        utc + offset as u32
    } else {
        utc + (SECONDS_PER_DAY - (-offset) as u32)
    };
    assert(shifted as int % 86400 == (utc + offset) % 86400) by {
        if offset < 0 {
            assert(shifted == (utc + offset) + 86400);
        }
    }
    shifted % SECONDS_PER_DAY
}

fn push_two_digits(out: &mut Vec<u8>, n: u32)
    requires
        n < 100,
    ensures
        final(out)@ == old(out)@ + two_digits(n as int),
{
    out.push((n / 10) as u8 + 48);
    out.push((n % 10) as u8 + 48);
    assert(final(out)@ =~= old(out)@ + two_digits(n as int));
}

/// `HH:MM:SS` text of a second of the day.
pub fn format_hms(secs: u32) -> (r: Vec<u8>)
    requires
        secs < 86400,
    ensures
        r@ == hms(secs as int),
{
    let mut out: Vec<u8> = Vec::new();
    push_two_digits(&mut out, secs / 3600);
    out.push(58);
    push_two_digits(&mut out, (secs / 60) % 60);
    out.push(58);
    push_two_digits(&mut out, secs % 60);
    assert(out@ =~= hms(secs as int));
    out
}

/// Display time of a city when the UTC second of the day is `utc`: its local
/// `HH:MM:SS`, or the sentinel text for an unknown key.
pub fn time_for(key: &[u8], utc: u32) -> (r: Vec<u8>)
    requires
        utc < 86400,
    ensures
        r@ == display_time(key@, utc as int),
{
    match lookup_city(key) {
        Some((offset, _)) => format_hms(shift_second(utc, offset)),
        None => bytes_of("not implemented"),
    }
}

/// Title of a city, or the generic title for an unknown key.
pub fn title_for(key: &[u8]) -> (r: Vec<u8>)
    ensures
        r@ == city_title(key@),
{
    match lookup_city(key) {
        Some((_, title)) => bytes_of(title),
        None => bytes_of("somewhere"),
    }
}

/// Relies on chrono's `Utc::now` and `Timelike::num_seconds_from_midnight`:
/// the current UTC time of day in whole seconds, documented to lie in 0..=86399.
/// `Utc::now` panics only when the system clock reads before 1970.
#[verifier::external_body]
pub(crate) fn utc_second_of_day() -> (r: u32)
    ensures
        r < 86400,
{
    chrono::Timelike::num_seconds_from_midnight(&chrono::Utc::now().time())
}

} // verus!
