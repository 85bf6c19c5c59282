//! One calendar day's measurements, parsed from one data line by a strict
//! sequential walk over its tokens: each step consumes exactly the tokens it
//! expects and fails at once on a mismatch, naming the field it was reading.
//! A line bearing only a day number is the distinguished empty-day outcome,
//! which is a skip, not a failure.
use crate::date::{spec_days_in_month, Date, DayTime};
use crate::decimal::{decimal_of, DecModel, Decimal};
use crate::lexer::{digit_run_at, glex, lemma_digit_run_digits, next_token, num_is_int, num_value,
    GLex, Lexed, TokenKind};
use crate::text::{chars_of, digits_value_capped};
use crate::units::{direction_of, direction_of_chars, Direction};
use vstd::prelude::*;

verus! {

/// One day's measurements. Each timestamp carries this day's date.
#[derive(Debug)]
pub struct Day {
    pub date: Date,
    pub mean_temp: Decimal,
    pub high_temp: Decimal,
    pub high_temp_date: DayTime,
    pub low_temp: Decimal,
    pub low_temp_date: DayTime,
    pub rain: Decimal,
    pub avg_wind_speed: Decimal,
    pub high_wind_speed: Decimal,
    pub high_wind_speed_date: Option<DayTime>,
    pub wind_direction: Option<Direction>,
}

/// Mathematical model of one day's measurements.
pub ghost struct DayModel {
    pub date: Date,
    pub mean_temp: DecModel,
    pub high_temp: DecModel,
    pub high_temp_date: DayTime,
    pub low_temp: DecModel,
    pub low_temp_date: DayTime,
    pub rain: DecModel,
    pub avg_wind_speed: DecModel,
    pub high_wind_speed: DecModel,
    pub high_wind_speed_date: Option<DayTime>,
    pub wind_direction: Option<Direction>,
}

impl DayModel {
    pub open spec fn wf(self) -> bool {
        &&& self.date.wf()
        &&& self.mean_temp.wf()
        &&& self.high_temp.wf()
        &&& self.low_temp.wf()
        &&& self.rain.wf()
        &&& self.avg_wind_speed.wf()
        &&& self.high_wind_speed.wf()
        &&& self.high_temp_date.wf() && self.high_temp_date.date == self.date
        &&& self.low_temp_date.wf() && self.low_temp_date.date == self.date
        &&& (self.high_wind_speed_date matches Some(dt) ==> dt.wf() && dt.date == self.date)
    }
}

impl View for Day {
    type V = DayModel;

    open spec fn view(&self) -> DayModel {
        DayModel {
            date: self.date,
            mean_temp: self.mean_temp@,
            high_temp: self.high_temp@,
            high_temp_date: self.high_temp_date,
            low_temp: self.low_temp@,
            low_temp_date: self.low_temp_date,
            rain: self.rain@,
            avg_wind_speed: self.avg_wind_speed@,
            high_wind_speed: self.high_wind_speed@,
            high_wind_speed_date: self.high_wind_speed_date,
            wind_direction: self.wind_direction,
        }
    }
}

impl Day {
    pub open spec fn wf(self) -> bool {
        self@.wf()
    }
}

impl DeepView for Day {
    type V = DayModel;

    open spec fn deep_view(&self) -> DayModel {
        self@
    }
}

/// A day-line failure, in the mathematical world.
pub ghost enum DayErrModel {
    InvalidDay,
    BadDay,
    BadThing(Seq<char>),
}

/// A hard day-line failure: the day number is unreadable, names a day the
/// month does not have, or a later field is missing or misshapen.
#[derive(Debug)]
pub enum ParseDayError {
    InvalidDay,
    BadDay,
    BadThing(String),
}

impl View for ParseDayError {
    type V = DayErrModel;

    open spec fn view(&self) -> DayErrModel {
        match self {
            ParseDayError::InvalidDay => DayErrModel::InvalidDay,
            ParseDayError::BadDay => DayErrModel::BadDay,
            ParseDayError::BadThing(s) => DayErrModel::BadThing(s@),
        }
    }
}

/// What parsing a day line yields, in the mathematical world.
pub ghost enum DayResult {
    Parsed(DayModel),
    EmptyDay,
    Failed(DayErrModel),
}

/// What parsing a day line yields: a day, the distinguished empty-day skip,
/// or a hard failure.
#[derive(Debug)]
pub enum DayOutcome {
    Parsed(Day),
    EmptyDay,
    Failed(ParseDayError),
}

impl View for DayOutcome {
    type V = DayResult;

    open spec fn view(&self) -> DayResult {
        match self {
            DayOutcome::Parsed(d) => DayResult::Parsed(d@),
            DayOutcome::EmptyDay => DayResult::EmptyDay,
            DayOutcome::Failed(e) => DayResult::Failed(e@),
        }
    }
}

/// Outcome of reading an hour, a colon and a minute, in the mathematical
/// world: the time with the position after it, or which piece was missing,
/// or numerals that name no time of day.
pub ghost enum GTime {
    Time(u8, u8, int),
    NoHour,
    NoColon,
    NoMinute,
    BadValue,
}

/// Reads `HH : MM` starting at `pos`: both numerals must be plain integers,
/// the hour below 24 and the minute below 60.
pub open spec fn time_model(t: Seq<char>, pos: int) -> GTime {
    match glex(t, pos) {
        GLex::Tok(TokenKind::Number, sh, eh) => match glex(t, eh) {
            GLex::Tok(TokenKind::Colon, _sc, ec) => match glex(t, ec) {
                GLex::Tok(TokenKind::Number, sm, em) => if num_is_int(t, sh, eh) && num_value(
                    t,
                    sh,
                ) <= 23 && num_is_int(t, sm, em) && num_value(t, sm) <= 59 {
                    GTime::Time(num_value(t, sh) as u8, num_value(t, sm) as u8, em)
                } else {
                    GTime::BadValue
                },
                _ => GTime::NoMinute,
            },
            _ => GTime::NoColon,
        },
        _ => GTime::NoHour,
    }
}

/// Outcome of reading an hour, a colon and a minute from a line.
enum TimeRead {
    Time(u8, u8, usize),
    NoHour,
    NoColon,
    NoMinute,
    BadValue,
}

/// Reads a plain integer numeral's value, exactly up to 59 and as "more
/// than 59" beyond; rejects signed or fractional numerals.
fn int_value_to59(v: &Vec<char>, s: usize, e: usize) -> (r: Option<u32>)
    requires
        s < e <= v@.len(),
        e as int == s + crate::lexer::number_len(v@, s as int),
        crate::lexer::number_len(v@, s as int) > 0,
    ensures
        r is Some <==> num_is_int(v@, s as int, e as int),
        r matches Some(n) ==> (num_value(v@, s as int) <= 59 ==> n as int == num_value(
            v@,
            s as int,
        )) && (num_value(v@, s as int) > 59 ==> n > 59),
{
    if v[s] == '-' {
        return None;
    }
    let d1 = digit_run_at(v, s);
    if s + d1 < e {
        return None;
    }
    proof {
        lemma_digit_run_digits(v@, s as int);
    }
    Some(digits_value_capped(v, s, s + d1, 59))
}

/// Reads `HH : MM` starting at `pos`.
fn read_time(v: &Vec<char>, pos: usize) -> (r: TimeRead)
    requires
        pos <= v@.len(),
    ensures
        r matches TimeRead::Time(h, m, e) ==> time_model(v@, pos as int) == GTime::Time(
            h,
            m,
            e as int,
        ) && e <= v@.len() && h < 24 && m < 60,
        r is NoHour ==> time_model(v@, pos as int) is NoHour,
        r is NoColon ==> time_model(v@, pos as int) is NoColon,
        r is NoMinute ==> time_model(v@, pos as int) is NoMinute,
        r is BadValue ==> time_model(v@, pos as int) is BadValue,
{
    let (sh, eh) = match next_token(v, pos) {
        Lexed::Token(TokenKind::Number, s, e) => (s, e),
        _ => {
            return TimeRead::NoHour;
        },
    };
    let ec = match next_token(v, eh) {
        Lexed::Token(TokenKind::Colon, _s, e) => e,
        _ => {
            return TimeRead::NoColon;
        },
    };
    let (sm, em) = match next_token(v, ec) {
        Lexed::Token(TokenKind::Number, s, e) => (s, e),
        _ => {
            return TimeRead::NoMinute;
        },
    };
    let h = match int_value_to59(v, sh, eh) {
        Some(h) => h,
        None => {
            return TimeRead::BadValue;
        },
    };
    let m = match int_value_to59(v, sm, em) {
        Some(m) => m,
        None => {
            return TimeRead::BadValue;
        },
    };
    if h <= 23 && m <= 59 {
        TimeRead::Time(h as u8, m as u8, em)
    } else {
        TimeRead::BadValue
    }
}

/// The day a data line parses to under the report's anchor month: the strict
/// twelve-step walk over its tokens. The two degree-day numerals are read
/// and discarded; the high-wind time and the wind direction each accept the
/// missing-data marker instead of a value.
pub open spec fn day_model(anchor: Date, t: Seq<char>) -> DayResult {
    match glex(t, 0) {
        GLex::Tok(TokenKind::Number, s0, e0) => {
            if !num_is_int(t, s0, e0) {
                DayResult::Failed(DayErrModel::BadDay)
            } else if !(1 <= num_value(t, s0) && num_value(t, s0) <= spec_days_in_month(
                anchor.year as int,
                anchor.month as int,
            )) {
                DayResult::Failed(DayErrModel::InvalidDay)
            } else {
                let date = Date {
                    year: anchor.year,
                    month: anchor.month,
                    day: num_value(t, s0) as u8,
                };
                match glex(t, e0) {
                    GLex::End => DayResult::EmptyDay,
                    GLex::Fail(_) => DayResult::Failed(DayErrModel::BadThing("Bad mean temp"@)),
                    GLex::Tok(TokenKind::Number, s1, e1) => day_model_high(
                        t,
                        date,
                        decimal_of(t, s1, e1),
                        e1,
                    ),
                    GLex::Tok(_, _, _) => DayResult::Failed(
                        DayErrModel::BadThing("Bad mean temp token"@),
                    ),
                }
            }
        },
        _ => DayResult::Failed(DayErrModel::BadDay),
    }
}

/// Continues after the mean temperature: high temperature and its time.
pub open spec fn day_model_high(t: Seq<char>, date: Date, mean: DecModel, pos: int) -> DayResult {
    match glex(t, pos) {
        GLex::Tok(TokenKind::Number, s, e) => match time_model(t, e) {
            GTime::Time(h, m, e2) => day_model_low(
                t,
                date,
                mean,
                decimal_of(t, s, e),
                DayTime { date, hour: h, minute: m },
                e2,
            ),
            GTime::NoHour => DayResult::Failed(DayErrModel::BadThing("Bad high temp hour"@)),
            GTime::NoColon => DayResult::Failed(DayErrModel::BadThing("Bad high temp colon"@)),
            GTime::NoMinute => DayResult::Failed(DayErrModel::BadThing("Bad high temp minute"@)),
            GTime::BadValue => DayResult::Failed(DayErrModel::BadThing("Invalid time"@)),
        },
        _ => DayResult::Failed(DayErrModel::BadThing("Bad high temp"@)),
    }
}

/// Continues after the high temperature: low temperature and its time.
pub open spec fn day_model_low(
    t: Seq<char>,
    date: Date,
    mean: DecModel,
    high: DecModel,
    high_time: DayTime,
    pos: int,
) -> DayResult {
    match glex(t, pos) {
        GLex::Tok(TokenKind::Number, s, e) => match time_model(t, e) {
            GTime::Time(h, m, e2) => day_model_skips(
                t,
                date,
                mean,
                high,
                high_time,
                decimal_of(t, s, e),
                DayTime { date, hour: h, minute: m },
                e2,
            ),
            GTime::NoHour => DayResult::Failed(DayErrModel::BadThing("Bad low temp hour"@)),
            GTime::NoColon => DayResult::Failed(DayErrModel::BadThing("Bad low temp colon"@)),
            GTime::NoMinute => DayResult::Failed(DayErrModel::BadThing("Bad low temp minute"@)),
            GTime::BadValue => DayResult::Failed(DayErrModel::BadThing("Invalid time"@)),
        },
        _ => DayResult::Failed(DayErrModel::BadThing("Bad low temp"@)),
    }
}

/// Continues after the low temperature: the two discarded degree-day
/// numerals, then rain and the two wind speeds.
pub open spec fn day_model_skips(
    t: Seq<char>,
    date: Date,
    mean: DecModel,
    high: DecModel,
    high_time: DayTime,
    low: DecModel,
    low_time: DayTime,
    pos: int,
) -> DayResult {
    match glex(t, pos) {
        GLex::Tok(TokenKind::Number, _s1, e1) => match glex(t, e1) {
            GLex::Tok(TokenKind::Number, _s2, e2) => match glex(t, e2) {
                GLex::Tok(TokenKind::Number, sr, er) => match glex(t, er) {
                    GLex::Tok(TokenKind::Number, sa, ea) => match glex(t, ea) {
                        GLex::Tok(TokenKind::Number, sw, ew) => day_model_wind_time(
                            t,
                            date,
                            mean,
                            high,
                            high_time,
                            low,
                            low_time,
                            decimal_of(t, sr, er),
                            decimal_of(t, sa, ea),
                            decimal_of(t, sw, ew),
                            ew,
                        ),
                        _ => DayResult::Failed(DayErrModel::BadThing("Bad high wind speed"@)),
                    },
                    _ => DayResult::Failed(DayErrModel::BadThing("Bad avg wind speed"@)),
                },
                _ => DayResult::Failed(DayErrModel::BadThing("Bad rain"@)),
            },
            _ => DayResult::Failed(DayErrModel::BadThing("heat truc"@)),
        },
        _ => DayResult::Failed(DayErrModel::BadThing("heat truc"@)),
    }
}

/// Continues after the high wind speed: its time, which the missing-data
/// marker may replace, then the wind direction, likewise optional.
pub open spec fn day_model_wind_time(
    t: Seq<char>,
    date: Date,
    mean: DecModel,
    high: DecModel,
    high_time: DayTime,
    low: DecModel,
    low_time: DayTime,
    rain: DecModel,
    avg_wind: DecModel,
    high_wind: DecModel,
    pos: int,
) -> DayResult {
    let step = match glex(t, pos) {
        GLex::Tok(TokenKind::Missing, _s, e) => Some((Option::<DayTime>::None, e)),
        GLex::Tok(TokenKind::Number, _s, _e) => match time_model(t, pos) {
            GTime::Time(h, m, e2) => Some((Some(DayTime { date, hour: h, minute: m }), e2)),
            _ => None,
        },
        _ => None,
    };
    match step {
        Some((wind_time, e)) => match glex(t, e) {
            GLex::Tok(TokenKind::Missing, _s2, _e2) => DayResult::Parsed(
                DayModel {
                    date,
                    mean_temp: mean,
                    high_temp: high,
                    high_temp_date: high_time,
                    low_temp: low,
                    low_temp_date: low_time,
                    rain,
                    avg_wind_speed: avg_wind,
                    high_wind_speed: high_wind,
                    high_wind_speed_date: wind_time,
                    wind_direction: None,
                },
            ),
            GLex::Tok(TokenKind::Word, s2, e2) => match direction_of(t.subrange(s2, e2)) {
                Some(dir) => DayResult::Parsed(
                    DayModel {
                        date,
                        mean_temp: mean,
                        high_temp: high,
                        high_temp_date: high_time,
                        low_temp: low,
                        low_temp_date: low_time,
                        rain,
                        avg_wind_speed: avg_wind,
                        high_wind_speed: high_wind,
                        high_wind_speed_date: wind_time,
                        wind_direction: Some(dir),
                    },
                ),
                None => DayResult::Failed(DayErrModel::BadThing("Wind direction"@)),
            },
            _ => DayResult::Failed(DayErrModel::BadThing("Wind direction"@)),
        },
        None => match glex(t, pos) {
            GLex::Tok(TokenKind::Number, _s, _e) => match time_model(t, pos) {
                GTime::NoColon => DayResult::Failed(
                    DayErrModel::BadThing("Bad high wind speed colon"@),
                ),
                GTime::NoMinute => DayResult::Failed(
                    DayErrModel::BadThing("Bad high wind speed minute"@),
                ),
                _ => DayResult::Failed(DayErrModel::BadThing("Invalid time"@)),
            },
            _ => DayResult::Failed(DayErrModel::BadThing("Bad high wind speed hour"@)),
        },
    }
}

impl Day {
    /// Parses one data line under the report's anchor month. The result is
    /// exactly what the line's model gives: a day, the empty-day skip, or
    /// the first failure of the twelve-step walk.
    #[verifier::rlimit(100)]
    pub fn parse(anchor: Date, s: &str) -> (r: DayOutcome)
        requires
            anchor.wf(),
        ensures
            r@ == day_model(anchor, s@),
            r matches DayOutcome::Parsed(d) ==> d.wf(),
    {
        let v = chars_of(s);
        let (s0, e0) = match next_token(&v, 0) {
            Lexed::Token(TokenKind::Number, s, e) => (s, e),
            _ => {
                return DayOutcome::Failed(ParseDayError::BadDay);
            },
        };
        let dv = match int_value_to59(&v, s0, e0) {
            Some(n) => n,
            None => {
                return DayOutcome::Failed(ParseDayError::BadDay);
            },
        };
        let dim = crate::date::days_in_month(anchor.year, anchor.month);
        if !(1 <= dv && dv <= dim as u32) {
            return DayOutcome::Failed(ParseDayError::InvalidDay);
        }
        let date = match anchor.replace_day(dv as u8) {
            Some(d) => d,
            None => vstd::pervasive::unreached(),
        };
        let (s1, e1) = match next_token(&v, e0) {
            Lexed::Token(TokenKind::Number, s, e) => (s, e),
            Lexed::End => {
                return DayOutcome::EmptyDay;
            },
            Lexed::Fail(_) => {
                return DayOutcome::Failed(
                    ParseDayError::BadThing(String::from_str("Bad mean temp")),
                );
            },
            Lexed::Token(_, _, _) => {
                return DayOutcome::Failed(
                    ParseDayError::BadThing(String::from_str("Bad mean temp token")),
                );
            },
        };
        let mean_temp = Decimal::from_span(&v, s1, e1);
        // High temperature and its time.
        let (s2, e2) = match next_token(&v, e1) {
            Lexed::Token(TokenKind::Number, s, e) => (s, e),
            _ => {
                return DayOutcome::Failed(
                    ParseDayError::BadThing(String::from_str("Bad high temp")),
                );
            },
        };
        let high_temp = Decimal::from_span(&v, s2, e2);
        let (hh, hm, e3) = match read_time(&v, e2) {
            TimeRead::Time(h, m, e) => (h, m, e),
            TimeRead::NoHour => {
                return DayOutcome::Failed(
                    ParseDayError::BadThing(String::from_str("Bad high temp hour")),
                );
            },
            TimeRead::NoColon => {
                return DayOutcome::Failed(
                    ParseDayError::BadThing(String::from_str("Bad high temp colon")),
                );
            },
            TimeRead::NoMinute => {
                return DayOutcome::Failed(
                    ParseDayError::BadThing(String::from_str("Bad high temp minute")),
                );
            },
            TimeRead::BadValue => {
                return DayOutcome::Failed(ParseDayError::BadThing(String::from_str("Invalid time")));
            },
        };
        let high_temp_date = match DayTime::new(date, hh, hm) {
            Some(dt) => dt,
            None => vstd::pervasive::unreached(),
        };
        // Low temperature and its time.
        let (s4, e4) = match next_token(&v, e3) {
            Lexed::Token(TokenKind::Number, s, e) => (s, e),
            _ => {
                return DayOutcome::Failed(ParseDayError::BadThing(String::from_str("Bad low temp")));
            },
        };
        let low_temp = Decimal::from_span(&v, s4, e4);
        let (lh, lm, e5) = match read_time(&v, e4) {
            TimeRead::Time(h, m, e) => (h, m, e),
            TimeRead::NoHour => {
                return DayOutcome::Failed(
                    ParseDayError::BadThing(String::from_str("Bad low temp hour")),
                );
            },
            TimeRead::NoColon => {
                return DayOutcome::Failed(
                    ParseDayError::BadThing(String::from_str("Bad low temp colon")),
                );
            },
            TimeRead::NoMinute => {
                return DayOutcome::Failed(
                    ParseDayError::BadThing(String::from_str("Bad low temp minute")),
                );
            },
            TimeRead::BadValue => {
                return DayOutcome::Failed(ParseDayError::BadThing(String::from_str("Invalid time")));
            },
        };
        let low_temp_date = match DayTime::new(date, lh, lm) {
            Some(dt) => dt,
            None => vstd::pervasive::unreached(),
        };
        // The two discarded degree-day numerals.
        let e6 = match next_token(&v, e5) {
            Lexed::Token(TokenKind::Number, _s, e) => e,
            _ => {
                return DayOutcome::Failed(ParseDayError::BadThing(String::from_str("heat truc")));
            },
        };
        let e7 = match next_token(&v, e6) {
            Lexed::Token(TokenKind::Number, _s, e) => e,
            _ => {
                return DayOutcome::Failed(ParseDayError::BadThing(String::from_str("heat truc")));
            },
        };
        // Rain and the two wind speeds.
        let (s8, e8) = match next_token(&v, e7) {
            Lexed::Token(TokenKind::Number, s, e) => (s, e),
            _ => {
                return DayOutcome::Failed(ParseDayError::BadThing(String::from_str("Bad rain")));
            },
        };
        let rain = Decimal::from_span(&v, s8, e8);
        let (s9, e9) = match next_token(&v, e8) {
            Lexed::Token(TokenKind::Number, s, e) => (s, e),
            _ => {
                return DayOutcome::Failed(
                    ParseDayError::BadThing(String::from_str("Bad avg wind speed")),
                );
            },
        };
        let avg_wind_speed = Decimal::from_span(&v, s9, e9);
        let (s10, e10) = match next_token(&v, e9) {
            Lexed::Token(TokenKind::Number, s, e) => (s, e),
            _ => {
                return DayOutcome::Failed(
                    ParseDayError::BadThing(String::from_str("Bad high wind speed")),
                );
            },
        };
        let high_wind_speed = Decimal::from_span(&v, s10, e10);
        // The high-wind time, which the missing-data marker may replace.
        let (high_wind_speed_date, e11) = match next_token(&v, e10) {
            Lexed::Token(TokenKind::Missing, _s, e) => (None, e),
            Lexed::Token(TokenKind::Number, _s, _e) => match read_time(&v, e10) {
                TimeRead::Time(h, m, e) => {
                    let dt = match DayTime::new(date, h, m) {
                        Some(dt) => dt,
                        None => vstd::pervasive::unreached(),
                    };
                    (Some(dt), e)
                },
                TimeRead::NoColon => {
                    return DayOutcome::Failed(
                        ParseDayError::BadThing(String::from_str("Bad high wind speed colon")),
                    );
                },
                TimeRead::NoMinute => {
                    return DayOutcome::Failed(
                        ParseDayError::BadThing(String::from_str("Bad high wind speed minute")),
                    );
                },
                _ => {
                    return DayOutcome::Failed(
                        ParseDayError::BadThing(String::from_str("Invalid time")),
                    );
                },
            },
            _ => {
                return DayOutcome::Failed(
                    ParseDayError::BadThing(String::from_str("Bad high wind speed hour")),
                );
            },
        };
        // The wind direction, likewise optional.
        let wind_direction = match next_token(&v, e11) {
            Lexed::Token(TokenKind::Missing, _s, _e) => None,
            Lexed::Token(TokenKind::Word, s, e) => {
                let mut word: Vec<char> = Vec::new();
                let mut i: usize = s;
                while i < e
                    invariant
                        s <= i <= e <= v@.len(),
                        word@ =~= v@.subrange(s as int, i as int),
                    decreases e - i,
                {
                    word.push(v[i]);
                    proof {
                        assert(word@ =~= v@.subrange(s as int, i + 1));
                    }
                    i += 1;
                }
                match direction_of_chars(&word) {
                    Some(dir) => Some(dir),
                    None => {
                        return DayOutcome::Failed(
                            ParseDayError::BadThing(String::from_str("Wind direction")),
                        );
                    },
                }
            },
            _ => {
                return DayOutcome::Failed(
                    ParseDayError::BadThing(String::from_str("Wind direction")),
                );
            },
        };
        DayOutcome::Parsed(
            Day {
                date,
                mean_temp,
                high_temp,
                high_temp_date,
                low_temp,
                low_temp_date,
                rain,
                avg_wind_speed,
                high_wind_speed,
                high_wind_speed_date,
                wind_direction,
            },
        )
    }
}

} // verus!
