//! Crate-level laws, proved from the parsers' models: every parsed day lies
//! in the report's anchor month, parsing is deterministic, days come only
//! from lines that parse to a day (never from empty-day lines), and a day
//! number beyond the month's length fails with the calendar-invalid
//! condition rather than a generic failure.
use crate::date::{spec_days_in_month, Date, DayTime};
use crate::day::{day_model, day_model_high, day_model_low, day_model_skips, day_model_wind_time,
    time_model, DayErrModel, DayModel, DayResult, GTime};
use crate::decimal::{decimal_of, DecModel};
use crate::lexer::{glex, num_is_int, num_value, GLex, TokenKind};
use crate::metadata::meta_model;
use crate::date::spec_date_lt;
use crate::report::{assemble, lines_of, merged_date, merged_days, report_model, AsmResult,
    Report, ReportModel};
use vstd::prelude::*;

verus! {

proof fn lemma_wind_time_date(
    t: Seq<char>,
    date: Date,
    mean: DecModel,
    high: DecModel,
    high_time: DayTime,
    low: DecModel,
    low_time: DayTime,
    rain: DecModel,
    avg_wind: DecModel,
    high_wind: DecModel,
    pos: int,
)
    ensures
        day_model_wind_time(
            t,
            date,
            mean,
            high,
            high_time,
            low,
            low_time,
            rain,
            avg_wind,
            high_wind,
            pos,
        ) matches DayResult::Parsed(dm) ==> dm.date == date,
{
}

proof fn lemma_skips_date(
    t: Seq<char>,
    date: Date,
    mean: DecModel,
    high: DecModel,
    high_time: DayTime,
    low: DecModel,
    low_time: DayTime,
    pos: int,
)
    ensures
        day_model_skips(t, date, mean, high, high_time, low, low_time, pos)
            matches DayResult::Parsed(dm) ==> dm.date == date,
{
    match glex(t, pos) {
        GLex::Tok(TokenKind::Number, _s1, e1) => match glex(t, e1) {
            GLex::Tok(TokenKind::Number, _s2, e2) => match glex(t, e2) {
                GLex::Tok(TokenKind::Number, sr, er) => match glex(t, er) {
                    GLex::Tok(TokenKind::Number, sa, ea) => match glex(t, ea) {
                        GLex::Tok(TokenKind::Number, sw, ew) => {
                            lemma_wind_time_date(
                                t,
                                date,
                                mean,
                                high,
                                high_time,
                                low,
                                low_time,
                                decimal_of(t, sr, er),
                                decimal_of(t, sa, ea),
                                decimal_of(t, sw, ew),
                                ew,
                            );
                        },
                        _ => {},
                    },
                    _ => {},
                },
                _ => {},
            },
            _ => {},
        },
        _ => {},
    }
}

proof fn lemma_low_date(
    t: Seq<char>,
    date: Date,
    mean: DecModel,
    high: DecModel,
    high_time: DayTime,
    pos: int,
)
    ensures
        day_model_low(t, date, mean, high, high_time, pos) matches DayResult::Parsed(dm)
            ==> dm.date == date,
{
    match glex(t, pos) {
        GLex::Tok(TokenKind::Number, s, e) => match time_model(t, e) {
            GTime::Time(h, m, e2) => {
                lemma_skips_date(
                    t,
                    date,
                    mean,
                    high,
                    high_time,
                    decimal_of(t, s, e),
                    DayTime { date, hour: h, minute: m },
                    e2,
                );
            },
            _ => {},
        },
        _ => {},
    }
}

proof fn lemma_high_date(t: Seq<char>, date: Date, mean: DecModel, pos: int)
    ensures
        day_model_high(t, date, mean, pos) matches DayResult::Parsed(dm) ==> dm.date == date,
{
    match glex(t, pos) {
        GLex::Tok(TokenKind::Number, s, e) => match time_model(t, e) {
            GTime::Time(h, m, e2) => {
                lemma_low_date(
                    t,
                    date,
                    mean,
                    decimal_of(t, s, e),
                    DayTime { date, hour: h, minute: m },
                    e2,
                );
            },
            _ => {},
        },
        _ => {},
    }
}

/// A parsed day line yields a date in the anchor's month and year, with a
/// day of month the month really has.
pub proof fn lemma_day_model_in_month(anchor: Date, t: Seq<char>)
    ensures
        day_model(anchor, t) matches DayResult::Parsed(dm) ==> dm.date.year == anchor.year
            && dm.date.month == anchor.month && 1 <= dm.date.day <= spec_days_in_month(
            anchor.year as int,
            anchor.month as int,
        ),
{
    match glex(t, 0) {
        GLex::Tok(TokenKind::Number, s0, e0) => {
            if num_is_int(t, s0, e0) && 1 <= num_value(t, s0) && num_value(t, s0)
                <= spec_days_in_month(anchor.year as int, anchor.month as int) {
                let date = Date {
                    year: anchor.year,
                    month: anchor.month,
                    day: num_value(t, s0) as u8,
                };
                match glex(t, e0) {
                    GLex::Tok(TokenKind::Number, s1, e1) => {
                        lemma_high_date(t, date, decimal_of(t, s1, e1), e1);
                    },
                    _ => {},
                }
            }
        },
        _ => {},
    }
}

proof fn lemma_assemble_in_month(anchor: Date, ls: Seq<Seq<char>>, i: int, ds: Seq<DayModel>)
    requires
        assemble(anchor, ls, i) == AsmResult::Days(ds),
    ensures
        forall|k: int|
            0 <= k < ds.len() ==> (#[trigger] ds[k].date.year == anchor.year && ds[k].date.month
                == anchor.month && 1 <= ds[k].date.day <= spec_days_in_month(
                anchor.year as int,
                anchor.month as int,
            )),
    decreases ls.len() - i,
{
    if 0 <= i < ls.len() && !crate::report::is_dash_line(ls[i]) {
        lemma_day_model_in_month(anchor, ls[i]);
        match day_model(anchor, ls[i]) {
            DayResult::EmptyDay => {
                lemma_assemble_in_month(anchor, ls, i + 1, ds);
            },
            DayResult::Parsed(d) => {
                match assemble(anchor, ls, i + 1) {
                    AsmResult::Days(rest) => {
                        lemma_assemble_in_month(anchor, ls, i + 1, rest);
                        assert(ds == seq![d] + rest);
                        assert forall|k: int| 0 <= k < ds.len() implies (#[trigger] ds[k].date.year
                            == anchor.year && ds[k].date.month == anchor.month && 1
                            <= ds[k].date.day <= spec_days_in_month(
                            anchor.year as int,
                            anchor.month as int,
                        )) by {
                            if k == 0 {
                                assert(ds[k] == d);
                            } else {
                                assert(ds[k] == rest[k - 1]);
                            }
                        }
                    },
                    _ => {},
                }
            },
            _ => {},
        }
    }
}

/// Every day of a successfully parsed report falls in the report's anchor
/// month: its year and month are the anchor's, and its day of month is one
/// the month really has.
#[verifier::rlimit(100)]
pub proof fn lemma_report_days_in_month(s: Seq<char>, anchor: Date, ds: Seq<DayModel>)
    requires
        report_model(s) == ReportModel::Rep(anchor, ds),
    ensures
        forall|k: int|
            0 <= k < ds.len() ==> (#[trigger] ds[k].date.year == anchor.year && ds[k].date.month
                == anchor.month && 1 <= ds[k].date.day <= spec_days_in_month(
                anchor.year as int,
                anchor.month as int,
            )),
{
    let ls = lines_of(s);
    let start = crate::report::find_sep(ls, 2) + 1;
    assert(assemble(anchor, ls, start) == AsmResult::Days(ds));
    lemma_assemble_in_month(anchor, ls, start, ds);
}

/// Parsing is a pure function of its input: the model fixes the result, so
/// together with the parser's contract, parsing the same text twice yields
/// field-wise identical reports.
pub proof fn lemma_parse_deterministic(s1: Seq<char>, s2: Seq<char>)
    requires
        s1 == s2,
    ensures
        report_model(s1) == report_model(s2),
{
}

proof fn lemma_assemble_from_parsed(anchor: Date, ls: Seq<Seq<char>>, i: int)
    ensures
        assemble(anchor, ls, i) matches AsmResult::Days(ds) ==> forall|k: int|
            0 <= k < ds.len() ==> exists|j: int|
                i <= j < ls.len() && day_model(anchor, ls[j]) == DayResult::Parsed(#[trigger] ds[k]),
    decreases ls.len() - i,
{
    if 0 <= i < ls.len() && !crate::report::is_dash_line(ls[i]) {
        lemma_assemble_from_parsed(anchor, ls, i + 1);
        match day_model(anchor, ls[i]) {
            DayResult::Parsed(d) => {
                match assemble(anchor, ls, i + 1) {
                    AsmResult::Days(rest) => {
                        let ds = seq![d] + rest;
                        assert forall|k: int| 0 <= k < ds.len() implies exists|j: int|
                            i <= j < ls.len() && day_model(anchor, ls[j]) == DayResult::Parsed(
                                #[trigger] ds[k],
                            ) by {
                            if k == 0 {
                                assert(ds[0] == d);
                                assert(day_model(anchor, ls[i]) == DayResult::Parsed(ds[0]));
                            } else {
                                assert(ds[k] == rest[k - 1]);
                                let j = choose|j: int|
                                    i + 1 <= j < ls.len() && day_model(anchor, ls[j])
                                        == DayResult::Parsed(rest[k - 1]);
                                assert(day_model(anchor, ls[j]) == DayResult::Parsed(ds[k]));
                            }
                        }
                    },
                    _ => {},
                }
            },
            _ => {},
        }
    }
}

/// Every day of a successfully parsed report is the parse of some input
/// line: lines whose outcome is the empty-day skip are never represented
/// in the day list.
pub proof fn lemma_days_only_from_parsed_lines(s: Seq<char>)
    ensures
        report_model(s) matches ReportModel::Rep(anchor, ds) ==> forall|k: int|
            0 <= k < ds.len() ==> exists|j: int|
                0 <= j < lines_of(s).len() && day_model(anchor, lines_of(s)[j])
                    == DayResult::Parsed(#[trigger] ds[k]),
{
    match report_model(s) {
        ReportModel::Rep(anchor, ds) => {
            let ls = lines_of(s);
            let start = crate::report::find_sep(ls, 2) + 1;
            lemma_assemble_from_parsed(anchor, ls, start);
            assert forall|k: int| 0 <= k < ds.len() implies exists|j: int|
                0 <= j < ls.len() && day_model(anchor, ls[j]) == DayResult::Parsed(
                    #[trigger] ds[k],
                ) by {
                let j = choose|j: int|
                    start <= j < ls.len() && day_model(anchor, ls[j]) == DayResult::Parsed(ds[k]);
                assert(0 <= j < ls.len() && day_model(anchor, ls[j]) == DayResult::Parsed(ds[k]));
            }
        },
        _ => {},
    }
}

proof fn lemma_assemble_succeeds(anchor: Date, ls: Seq<Seq<char>>, i: int, e: int)
    requires
        0 <= i <= e < ls.len(),
        crate::report::is_dash_line(ls[e]),
        forall|j: int|
            i <= j < e ==> !crate::report::is_dash_line(ls[j]) && !(#[trigger] day_model(
                anchor,
                ls[j],
            ) is Failed),
    ensures
        assemble(anchor, ls, i) is Days,
    decreases e - i,
{
    if i < e {
        lemma_assemble_succeeds(anchor, ls, i + 1, e);
    }
}

/// A syntactically valid report text parses: if the header parses, some
/// separator line follows it, a dash line closes the data section, and
/// every line between yields a day or the empty-day skip, the whole report
/// parse succeeds.
#[verifier::rlimit(100)]
pub proof fn lemma_valid_report_parses(s: Seq<char>, anchor: Date, e: int)
    requires
        meta_model(lines_of(s)) == crate::metadata::MetaModel::Meta(anchor),
        crate::report::find_sep(lines_of(s), 2) < lines_of(s).len(),
        crate::report::find_sep(lines_of(s), 2) + 1 <= e < lines_of(s).len(),
        crate::report::is_dash_line(lines_of(s)[e]),
        forall|j: int|
            crate::report::find_sep(lines_of(s), 2) + 1 <= j < e ==> !crate::report::is_dash_line(
                lines_of(s)[j],
            ) && !(#[trigger] day_model(anchor, lines_of(s)[j]) is Failed),
    ensures
        report_model(s) is Rep,
{
    let ls = lines_of(s);
    if ls.len() <= 2 {
        assert(crate::report::find_sep(ls, 2) == ls.len());
    }
    crate::report::lemma_find_sep(ls, 2);
    lemma_assemble_succeeds(anchor, ls, crate::report::find_sep(ls, 2) + 1, e);
    crate::report::lemma_report_model_of_parts(s, anchor);
}

/// A day number written as a plain integer but exceeding the month's length
/// fails with the calendar-invalid condition, not a generic parse failure.
pub proof fn lemma_overlong_day_is_calendar_invalid(anchor: Date, t: Seq<char>, s: int, e: int)
    requires
        glex(t, 0) == GLex::Tok(TokenKind::Number, s, e),
        num_is_int(t, s, e),
        num_value(t, s) > spec_days_in_month(anchor.year as int, anchor.month as int),
    ensures
        day_model(anchor, t) == DayResult::Failed(DayErrModel::InvalidDay),
{
}

/// Merging does not depend on which report receives the call: when one
/// report's anchor date strictly precedes the other's, both call directions
/// yield the earlier report's days followed by the later one's, under the
/// earlier anchor date.
pub proof fn lemma_merge_symmetric(a: Report, b: Report)
    requires
        spec_date_lt(a.metadata.date, b.metadata.date),
    ensures
        merged_days(a, b) == merged_days(b, a),
        merged_date(a, b) == merged_date(b, a),
        merged_date(a, b) == a.metadata.date,
        merged_days(a, b) == a.days.deep_view() + b.days.deep_view(),
{
}

} // verus!
