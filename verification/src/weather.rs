//! Weather icons: the WMO weather code of the current conditions, with the
//! time of day, picks an icon name of the OpenWeatherMap set.
use vstd::prelude::*;

verus! {

/// The icon for WMO code `code`, by day or by night.
pub open spec fn wmo_icon(code: u32, is_day: bool) -> Seq<char> {
    if code == 0 {
        if is_day { "01d"@ } else { "01n"@ }
    } else if code == 1 || code == 2 {
        if is_day { "02d"@ } else { "02n"@ }
    } else if code == 3 {
        if is_day { "03d"@ } else { "03n"@ }
    } else if code == 45 || code == 48 {
        if is_day { "50d"@ } else { "50n"@ }
    } else if code == 51 || code == 53 || code == 55 || code == 56 || code == 57 || code == 65
        || code == 80 || code == 81 || code == 82 {
        if is_day { "09d"@ } else { "09n"@ }
    } else if code == 61 || code == 63 {
        if is_day { "10d"@ } else { "10n"@ }
    } else if code == 66 || code == 67 || code == 71 || code == 73 || code == 75 || code == 77
        || code == 85 || code == 86 {
        if is_day { "13d"@ } else { "13n"@ }
    } else if code == 95 || code == 96 || code == 99 {
        if is_day { "11d"@ } else { "11n"@ }
    } else {
        if is_day { "02d"@ } else { "02n"@ }
    }
}

/// The icon name for a WMO weather code: clear sky, clouds,
/// fog, drizzle and showers, rain, snow and freezing rain, thunderstorms;
/// any other code shows a partly cloudy sky.
pub fn wmo_to_icon(code: u32, is_day: bool) -> (r: &'static str)
    ensures
        r@ == wmo_icon(code, is_day),
{
    match code {
        0 => if is_day { "01d" } else { "01n" },
        1 | 2 => if is_day { "02d" } else { "02n" },
        3 => if is_day { "03d" } else { "03n" },
        45 | 48 => if is_day { "50d" } else { "50n" },
        51 | 53 | 55 => if is_day { "09d" } else { "09n" },
        56 | 57 => if is_day { "09d" } else { "09n" },
        61 | 63 => if is_day { "10d" } else { "10n" },
        65 => if is_day { "09d" } else { "09n" },
        66 | 67 => if is_day { "13d" } else { "13n" },
        71 | 73 | 75 | 77 => if is_day { "13d" } else { "13n" },
        80 | 81 | 82 => if is_day { "09d" } else { "09n" },
        85 | 86 => if is_day { "13d" } else { "13n" },
        95 | 96 | 99 => if is_day { "11d" } else { "11n" },
        _ => if is_day { "02d" } else { "02n" },
    }
}

} // verus!
