//! The parsed report: its header and its ordered days, the assembler that
//! builds it from raw text, and the query and merge operations over it.
use crate::date::{spec_date_lt, Date};
use crate::day::{day_model, DayErrModel, DayModel, DayOutcome, DayResult, Day, ParseDayError};
use crate::decimal::{dec_le, dec_lt, lemma_dec_le_trans, lemma_dec_lt_le_trans, lemma_dec_total,
    DecModel, Decimal};
use crate::metadata::{meta_model, same_station, MetaErrModel, MetaModel, Metadata, MetadataError};
use crate::text::chars_of;
use vstd::prelude::*;

verus! {

/// First index at or after `from` holding a newline, or the text's length.
pub open spec fn find_nl(s: Seq<char>, from: int) -> int
    decreases s.len() - from,
{
    if from < 0 || from >= s.len() {
        s.len() as int
    } else if s[from] == '\n' {
        from
    } else {
        find_nl(s, from + 1)
    }
}

pub proof fn lemma_find_nl(s: Seq<char>, from: int)
    requires
        0 <= from <= s.len(),
    ensures
        from <= find_nl(s, from) <= s.len(),
        find_nl(s, from) < s.len() ==> s[find_nl(s, from)] == '\n',
        forall|j: int| from <= j < find_nl(s, from) ==> s[j] != '\n',
    decreases s.len() - from,
{
    if from < s.len() && s[from] != '\n' {
        lemma_find_nl(s, from + 1);
    }
}

/// A line with a trailing carriage return loses it.
pub open spec fn strip_cr(l: Seq<char>) -> Seq<char> {
    if l.len() > 0 && l[l.len() - 1] == '\r' {
        l.drop_last()
    } else {
        l
    }
}

/// The lines of the text from position `pos` on: split at newlines, each
/// line stripped of a trailing carriage return, no final empty line after a
/// trailing newline.
pub open spec fn lines_from(s: Seq<char>, pos: int) -> Seq<Seq<char>>
    decreases s.len() - pos,
    via lines_from_dec
{
    if pos < 0 || pos >= s.len() {
        Seq::empty()
    } else {
        let i = find_nl(s, pos);
        if i >= s.len() {
            seq![strip_cr(s.subrange(pos, i))]
        } else {
            seq![strip_cr(s.subrange(pos, i))] + lines_from(s, i + 1)
        }
    }
}

#[via_fn]
proof fn lines_from_dec(s: Seq<char>, pos: int) {
    if 0 <= pos < s.len() {
        lemma_find_nl(s, pos);
    }
}

/// The lines of the text, as `str::lines` yields them.
pub open spec fn lines_of(s: Seq<char>) -> Seq<Seq<char>> {
    lines_from(s, 0)
}

/// Splits the text into its lines.
pub fn split_lines(s: &str) -> (r: Vec<String>)
    ensures
        r.deep_view() == lines_of(s@),
{
    let v = chars_of(s);
    let len = v.len();
    let mut out: Vec<String> = Vec::new();
    let mut pos: usize = 0;
    while pos < len
        invariant
            pos <= len,
            len == s@.len(),
            v@ == s@,
            lines_of(s@) =~= out.deep_view() + lines_from(s@, pos as int),
        decreases len - pos,
    {
        let ghost prev_out = out.deep_view();
        let mut i: usize = pos;
        while i < len && v[i] != '\n'
            invariant
                pos <= i <= len,
                len == v@.len(),
                forall|j: int| pos <= j < i ==> v@[j] != '\n',
            decreases len - i,
        {
            i += 1;
        }
        proof {
            lemma_find_nl(v@, pos as int);
            if find_nl(v@, pos as int) < i {
                assert(v@[find_nl(v@, pos as int)] == '\n');
            }
            if find_nl(v@, pos as int) > i {
                assert(i < len && v@[i as int] == '\n');
            }
            assert(find_nl(v@, pos as int) == i as int);
        }
        let end = if i > pos && v[i - 1] == '\r' {
            i - 1
        } else {
            i
        };
        out.push(s.substring_char(pos, end).to_owned());
        proof {
            assert(s@.subrange(pos as int, end as int) =~= strip_cr(
                s@.subrange(pos as int, i as int),
            ));
            assert(out.deep_view() =~= prev_out + seq![strip_cr(
                s@.subrange(pos as int, i as int),
            )]);
        }
        if i == len {
            proof {
                assert(lines_from(s@, pos as int) =~= seq![strip_cr(
                    s@.subrange(pos as int, i as int),
                )]);
                assert(lines_of(s@) =~= out.deep_view());
            }
            return out;
        }
        proof {
            assert(lines_from(s@, pos as int) =~= seq![strip_cr(
                s@.subrange(pos as int, i as int),
            )] + lines_from(s@, i + 1));
            assert(prev_out + lines_from(s@, pos as int) =~= out.deep_view() + lines_from(
                s@,
                i + 1,
            ));
        }
        pos = i + 1;
    }
    proof {
        assert(lines_of(s@) =~= out.deep_view());
    }
    out
}

/// A line made of dashes, possibly empty: the shape that ends the data
/// section.
pub open spec fn is_dash_line(l: Seq<char>) -> bool {
    forall|i: int| 0 <= i < l.len() ==> l[i] == '-'
}

/// A non-empty line made of dashes: the separator that opens the data
/// section.
pub open spec fn is_strict_dash_line(l: Seq<char>) -> bool {
    l.len() > 0 && is_dash_line(l)
}

/// First index at or after `from` holding a non-empty dash line, or the
/// number of lines.
pub open spec fn find_sep(ls: Seq<Seq<char>>, from: int) -> int
    decreases ls.len() - from,
{
    if from < 0 || from >= ls.len() {
        ls.len() as int
    } else if is_strict_dash_line(ls[from]) {
        from
    } else {
        find_sep(ls, from + 1)
    }
}

pub proof fn lemma_find_sep(ls: Seq<Seq<char>>, from: int)
    requires
        0 <= from <= ls.len(),
    ensures
        from <= find_sep(ls, from) <= ls.len(),
        find_sep(ls, from) < ls.len() ==> is_strict_dash_line(ls[find_sep(ls, from)]),
        forall|j: int| from <= j < find_sep(ls, from) ==> !is_strict_dash_line(ls[j]),
    decreases ls.len() - from,
{
    if from < ls.len() && !is_strict_dash_line(ls[from]) {
        lemma_find_sep(ls, from + 1);
    }
}

/// What the day loop yields, in the mathematical world: the parsed days in
/// order, the first hard failure, or lines that run out before a closing
/// dash line.
pub ghost enum AsmResult {
    Days(Seq<DayModel>),
    Failed(DayErrModel),
    NoSep,
}

/// The days the lines from `i` on parse to, up to the first dash line:
/// empty-day lines are skipped, a hard failure aborts, and running out of
/// lines before a dash line is its own outcome.
pub open spec fn assemble(anchor: Date, ls: Seq<Seq<char>>, i: int) -> AsmResult
    decreases ls.len() - i,
{
    if i < 0 || i >= ls.len() {
        AsmResult::NoSep
    } else if is_dash_line(ls[i]) {
        AsmResult::Days(Seq::empty())
    } else {
        match day_model(anchor, ls[i]) {
            DayResult::Failed(e) => AsmResult::Failed(e),
            DayResult::EmptyDay => assemble(anchor, ls, i + 1),
            DayResult::Parsed(d) => match assemble(anchor, ls, i + 1) {
                AsmResult::Days(rest) => AsmResult::Days(seq![d] + rest),
                other => other,
            },
        }
    }
}

/// Prefixes already-parsed days onto a day-loop outcome.
pub open spec fn asm_prepend(pre: Seq<DayModel>, a: AsmResult) -> AsmResult {
    match a {
        AsmResult::Days(rest) => AsmResult::Days(pre + rest),
        other => other,
    }
}

/// Positions of days whose date is not later than the previous day's: the
/// non-fatal out-of-order diagnostics.
pub open spec fn warns_of(days: Seq<DayModel>) -> Seq<int>
    decreases days.len(),
{
    if days.len() <= 1 {
        Seq::empty()
    } else {
        warns_of(days.drop_last()) + if !spec_date_lt(
            days[days.len() - 2].date,
            days[days.len() - 1].date,
        ) {
            seq![days.len() - 1]
        } else {
            Seq::empty()
        }
    }
}

/// What a whole report text parses to, in the mathematical world.
pub ghost enum ReportModel {
    /// The anchor date and the days, in input order.
    Rep(Date, Seq<DayModel>),
    /// The header failed.
    FailedMeta(MetaErrModel),
    /// A data line failed hard.
    FailedDay(DayErrModel),
    /// No separator line ever follows the header.
    MissingSep,
    /// The data lines run out before a closing dash line.
    MissingEndSep,
}

/// The report a text parses to: the header from the first two lines, then
/// everything up to the first non-empty dash line is ignored, then day
/// lines up to the next dash line.
pub open spec fn report_model(s: Seq<char>) -> ReportModel {
    let ls = lines_of(s);
    match meta_model(ls) {
        MetaModel::Failed(e) => ReportModel::FailedMeta(e),
        MetaModel::Meta(anchor) => {
            let sep = find_sep(ls, 2);
            if sep >= ls.len() {
                ReportModel::MissingSep
            } else {
                match assemble(anchor, ls, sep + 1) {
                    AsmResult::NoSep => ReportModel::MissingEndSep,
                    AsmResult::Failed(e) => ReportModel::FailedDay(e),
                    AsmResult::Days(ds) => ReportModel::Rep(anchor, ds),
                }
            }
        },
    }
}

/// A report text whose header parses, with a separator line after the
/// header and a day section that assembles, parses as a whole.
#[verifier::rlimit(100)]
pub proof fn lemma_report_model_of_parts(s: Seq<char>, anchor: Date)
    requires
        meta_model(lines_of(s)) == MetaModel::Meta(anchor),
        find_sep(lines_of(s), 2) < lines_of(s).len(),
        assemble(anchor, lines_of(s), find_sep(lines_of(s), 2) + 1) is Days,
    ensures
        report_model(s) is Rep,
{
}

/// A report-parse failure, in the mathematical world.
pub ghost enum ParseErrModel {
    Meta(MetaErrModel),
    Day(DayErrModel),
}

/// A report-parse failure: the header failed, or a data line did.
#[derive(Debug)]
pub enum ParseError {
    MetadataError(MetadataError),
    ParseDayError(ParseDayError),
}

impl View for ParseError {
    type V = ParseErrModel;

    open spec fn view(&self) -> ParseErrModel {
        match self {
            ParseError::MetadataError(e) => ParseErrModel::Meta(e@),
            ParseError::ParseDayError(e) => ParseErrModel::Day(e@),
        }
    }
}

/// One station-month report: the header and the days, in input order,
/// expected but not forced to be ascending by date.
#[derive(Debug)]
pub struct Report {
    pub metadata: Metadata,
    pub days: Vec<Day>,
}

impl Report {
    pub open spec fn wf(self) -> bool {
        &&& self.metadata.wf()
        &&& forall|i: int| 0 <= i < self.days@.len() ==> self.days@[i].wf()
    }
}

/// Whether the line consists of dashes alone.
pub fn check_dash_line(s: &str) -> (b: bool)
    ensures
        b == is_dash_line(s@),
{
    let v = chars_of(s);
    let mut i: usize = 0;
    while i < v.len()
        invariant
            i <= v@.len(),
            v@ == s@,
            forall|j: int| 0 <= j < i ==> s@[j] == '-',
        decreases v@.len() - i,
    {
        if v[i] != '-' {
            return false;
        }
        i += 1;
    }
    true
}

/// The day sequence a merge yields: the report with the earlier anchor date
/// contributes its days first; on equal dates the argument's days come
/// first.
pub open spec fn merged_days(receiver: Report, other: Report) -> Seq<DayModel> {
    if spec_date_lt(receiver.metadata.date, other.metadata.date) {
        receiver.days.deep_view() + other.days.deep_view()
    } else {
        other.days.deep_view() + receiver.days.deep_view()
    }
}

/// The anchor date a merge yields: the earlier of the two.
pub open spec fn merged_date(receiver: Report, other: Report) -> Date {
    if spec_date_lt(receiver.metadata.date, other.metadata.date) {
        receiver.metadata.date
    } else {
        other.metadata.date
    }
}

/// A decimal-valued field of a day record, for the range queries.
#[derive(Clone, Copy, Debug, PartialEq, Eq, Structural)]
pub enum DayField {
    MeanTemp,
    HighTemp,
    LowTemp,
    Rain,
    AvgWindSpeed,
    HighWindSpeed,
}

pub open spec fn field_of(d: DayModel, f: DayField) -> DecModel {
    match f {
        DayField::MeanTemp => d.mean_temp,
        DayField::HighTemp => d.high_temp,
        DayField::LowTemp => d.low_temp,
        DayField::Rain => d.rain,
        DayField::AvgWindSpeed => d.avg_wind_speed,
        DayField::HighWindSpeed => d.high_wind_speed,
    }
}

fn field_ref(d: &Day, f: DayField) -> (r: &Decimal)
    ensures
        r@ == field_of(d@, f),
{
    match f {
        DayField::MeanTemp => &d.mean_temp,
        DayField::HighTemp => &d.high_temp,
        DayField::LowTemp => &d.low_temp,
        DayField::Rain => &d.rain,
        DayField::AvgWindSpeed => &d.avg_wind_speed,
        DayField::HighWindSpeed => &d.high_wind_speed,
    }
}

/// Appending one day appends its out-of-order warning, if it earns one.
proof fn lemma_warns_push(days: Seq<DayModel>, d: DayModel)
    ensures
        warns_of(days.push(d)) == warns_of(days) + (if days.len() > 0 && !spec_date_lt(
            days[days.len() - 1].date,
            d.date,
        ) {
            seq![days.len() as int]
        } else {
            Seq::empty()
        }),
{
    let s = days.push(d);
    if s.len() <= 1 {
        assert(warns_of(s) =~= warns_of(days) + Seq::<int>::empty());
    } else {
        assert(s.drop_last() =~= days);
    }
}

/// Scans for the first non-empty dash line at or after `from`.
fn find_sep_line(lines: &Vec<String>, from: usize) -> (i: usize)
    requires
        from <= lines@.len(),
    ensures
        i as int == find_sep(lines.deep_view(), from as int),
        from <= i <= lines@.len(),
{
    proof {
        assert(forall|k: int|
            0 <= k < lines@.len() ==> lines.deep_view()[k] == lines@[k].deep_view());
        lemma_find_sep(lines.deep_view(), from as int);
    }
    let n = lines.len();
    let mut i = from;
    while i < n && !(!lines[i].as_str().is_empty() && check_dash_line(lines[i].as_str()))
        invariant
            from <= i <= n,
            n == lines@.len(),
            forall|j: int| from <= j < i ==> !is_strict_dash_line(lines.deep_view()[j]),
        decreases n - i,
    {
        proof {
            assert(!is_strict_dash_line(lines.deep_view()[i as int]));
        }
        i += 1;
    }
    proof {
        let f = find_sep(lines.deep_view(), from as int);
        if i < n {
            assert(is_strict_dash_line(lines.deep_view()[i as int]));
            if f < i {
                assert(!is_strict_dash_line(lines.deep_view()[f]));
            }
            if f > i {
                assert(!is_strict_dash_line(lines.deep_view()[i as int]));
            }
        } else {
            if f < i {
                assert(!is_strict_dash_line(lines.deep_view()[f]));
            }
        }
    }
    i
}

/// Runs the day loop from line `start`: one day per line up to the first
/// dash line, empty-day lines skipped, the first hard failure aborting. On
/// success also yields the out-of-order warning positions. Running out of
/// lines before a dash line is the missing-closing-separator failure.
#[verifier::rlimit(100)]
fn assemble_days(anchor: Date, lines: &Vec<String>, start: usize) -> (r: Result<
    (Vec<Day>, Vec<usize>),
    ParseDayError,
>)
    requires
        anchor.wf(),
        start <= lines@.len(),
    ensures
        assemble(anchor, lines.deep_view(), start as int) matches AsmResult::Days(ds) ==> (r
            matches Ok(p) && p.0.deep_view() == ds && p.1@.map_values(|u: usize| u as int)
            == warns_of(ds) && (forall|k: int| 0 <= k < p.0@.len() ==> p.0@[k].wf())),
        assemble(anchor, lines.deep_view(), start as int) matches AsmResult::Failed(e) ==> (r
            matches Err(err) && err@ == e),
        assemble(anchor, lines.deep_view(), start as int) is NoSep ==> (r matches Err(err) && err@
            == DayErrModel::BadThing("Missing closing separator"@)),
{
    proof {
        assert(forall|k: int|
            0 <= k < lines@.len() ==> lines.deep_view()[k] == lines@[k].deep_view());
    }
    let ghost ls = lines.deep_view();
    let n = lines.len();
    let mut days: Vec<Day> = Vec::new();
    let mut warns: Vec<usize> = Vec::new();
    let mut j = start;
    while j < n && !check_dash_line(lines[j].as_str())
        invariant
            start <= j <= n,
            n == lines@.len(),
            ls == lines.deep_view(),
            anchor.wf(),
            asm_prepend(days.deep_view(), assemble(anchor, ls, j as int)) == assemble(
                anchor,
                ls,
                start as int,
            ),
            forall|k: int| 0 <= k < days@.len() ==> days@[k].wf(),
            warns@.map_values(|u: usize| u as int) == warns_of(days.deep_view()),
        decreases n - j,
    {
        match Day::parse(anchor, lines[j].as_str()) {
            DayOutcome::EmptyDay => {},
            DayOutcome::Failed(e) => {
                return Err(e);
            },
            DayOutcome::Parsed(d) => {
                let ghost old_days = days.deep_view();
                if days.len() > 0 {
                    let prev: Date = days[days.len() - 1].date;
                    if !prev.lt(d.date) {
                        warns.push(days.len());
                    }
                }
                days.push(d);
                proof {
                    lemma_warns_push(old_days, d@);
                    assert(days.deep_view() =~= old_days.push(d@));
                    assert(warns@.map_values(|u: usize| u as int) =~= warns_of(days.deep_view()));
                    assert(asm_prepend(days.deep_view(), assemble(anchor, ls, j + 1)) == assemble(
                        anchor,
                        ls,
                        start as int,
                    )) by {
                        assert(assemble(anchor, ls, j as int) == asm_prepend(
                            seq![d@],
                            assemble(anchor, ls, j + 1),
                        ));
                        match assemble(anchor, ls, j + 1) {
                            AsmResult::Days(rest) => {
                                assert(old_days + (seq![d@] + rest) =~= days.deep_view() + rest);
                            },
                            _ => {},
                        }
                    }
                }
            },
        }
        j += 1;
    }
    if j == n {
        return Err(ParseDayError::BadThing(String::from_str("Missing closing separator")));
    }
    proof {
        assert(assemble(anchor, ls, j as int) == AsmResult::Days(Seq::<DayModel>::empty()));
        assert(days.deep_view() + Seq::<DayModel>::empty() =~= days.deep_view());
        assert(assemble(anchor, ls, start as int) == AsmResult::Days(days.deep_view()));
    }
    Ok((days, warns))
}

impl Report {
    /// Parses a whole report text, yielding also the positions of days
    /// whose date is not later than the previous day's: the non-fatal
    /// out-of-order diagnostics. On failure the warning list is empty.
    #[verifier::rlimit(100)]
    pub fn parse_with_warnings(s: &str) -> (r: (Result<Report, ParseError>, Vec<usize>))
        ensures
            report_model(s@) matches ReportModel::Rep(anchor, ds) ==> (r.0 matches Ok(rep)
                && rep.wf() && rep.metadata.date == anchor && rep.metadata.name@ == "maxou"@
                && rep.metadata.city@ == "LE VIGAN"@ && rep.metadata.state@ == "FRONCE"@
                && rep.metadata.elevation == 245 && rep.metadata.lat == (43u8, 59u8, 23u8)
                && rep.metadata.long == (3u8, 36u8, 4u8) && rep.days.deep_view() == ds
                && r.1@.map_values(|u: usize| u as int) == warns_of(ds)),
            report_model(s@) matches ReportModel::FailedMeta(e) ==> (r.0 matches Err(pe) && pe@
                == ParseErrModel::Meta(e)),
            report_model(s@) matches ReportModel::FailedDay(e) ==> (r.0 matches Err(pe) && pe@
                == ParseErrModel::Day(e)),
            report_model(s@) is MissingSep ==> (r.0 matches Err(pe) && pe@ == ParseErrModel::Meta(
                MetaErrModel::BadHeader,
            )),
            report_model(s@) is MissingEndSep ==> (r.0 matches Err(pe) && pe@
                == ParseErrModel::Day(DayErrModel::BadThing("Missing closing separator"@))),
            r.0 is Err ==> r.1@ == Seq::<usize>::empty(),
    {
        let lines = split_lines(s);
        let metadata = match Metadata::parse(&lines) {
            Ok(m) => m,
            Err(e) => {
                return (Err(ParseError::MetadataError(e)), Vec::new());
            },
        };
        proof {
            assert(lines.deep_view().len() >= 2);
        }
        let sep = find_sep_line(&lines, 2);
        if sep == lines.len() {
            return (Err(ParseError::MetadataError(MetadataError::BadHeader)), Vec::new());
        }
        match assemble_days(metadata.date, &lines, sep + 1) {
            Err(e) => (Err(ParseError::ParseDayError(e)), Vec::new()),
            Ok((days, warns)) => (Ok(Report { metadata, days }), warns),
        }
    }

    /// First day's date of a non-empty report.
    pub fn first_date(&self) -> (r: Date)
        requires
            self.days@.len() > 0,
        ensures
            r == self.days.deep_view()[0].date,
    {
        self.days[0].date
    }

    /// Last day's date of a non-empty report.
    pub fn last_date(&self) -> (r: Date)
        requires
            self.days@.len() > 0,
        ensures
            r == self.days.deep_view()[self.days@.len() - 1].date,
    {
        self.days[self.days.len() - 1].date
    }

    /// Merges another report of the same station into this one. The report
    /// whose anchor date is earlier contributes its days first, and its
    /// anchor date is kept; a header mismatch is an error that leaves this
    /// report unchanged.
    pub fn merge(&mut self, other: Report) -> (r: Result<(), String>)
        ensures
            !same_station(old(self).metadata, other.metadata) ==> (r matches Err(m) && m@
                == "Metadata differs"@ && *final(self) == *old(self)),
            same_station(old(self).metadata, other.metadata) ==> r is Ok
                && final(self).days.deep_view() == merged_days(*old(self), other)
                && final(self).metadata.date == merged_date(*old(self), other)
                && same_station(final(self).metadata, old(self).metadata)
                && (spec_date_lt(old(self).metadata.date, other.metadata.date)
                    ==> final(self).metadata == old(self).metadata),
    {
        let mut other = other;
        if !(self.metadata == other.metadata) {
            return Err(String::from_str("Metadata differs"));
        }
        let ghost a = self.days.deep_view();
        let ghost b = other.days.deep_view();
        if self.metadata.date.lt(other.metadata.date) {
            self.days.append(&mut other.days);
            proof {
                assert(self.days.deep_view() =~= a + b);
            }
        } else {
            self.metadata.date = other.metadata.date;
            other.days.append(&mut self.days);
            self.days = other.days;
            proof {
                assert(self.days.deep_view() =~= b + a);
            }
        }
        Ok(())
    }

    /// Minimum and maximum of one field over a non-empty report's days:
    /// the value of the first day attaining the minimum and of the last
    /// day attaining the maximum.
    pub fn range(&self, field: DayField) -> (r: (Decimal, Decimal))
        requires
            self.days@.len() > 0,
        ensures
            ({
                let ds = self.days.deep_view();
                &&& exists|i: int|
                    #![auto]
                    0 <= i < ds.len() && r.0@ == field_of(ds[i], field) && (forall|k: int|
                        0 <= k < i ==> dec_lt(r.0@, field_of(ds[k], field)))
                &&& forall|k: int| 0 <= k < ds.len() ==> dec_le(r.0@, field_of(ds[k], field))
                &&& exists|i: int|
                    #![auto]
                    0 <= i < ds.len() && r.1@ == field_of(ds[i], field) && (forall|k: int|
                        i < k < ds.len() ==> dec_lt(field_of(ds[k], field), r.1@))
                &&& forall|k: int| 0 <= k < ds.len() ==> dec_le(field_of(ds[k], field), r.1@)
            }),
    {
        let ghost ds = self.days.deep_view();
        let mut min_idx: usize = 0;
        let mut max_idx: usize = 0;
        let mut k: usize = 1;
        while k < self.days.len()
            invariant
                min_idx < k <= self.days@.len(),
                max_idx < k,
                ds == self.days.deep_view(),
                forall|t: int|
                    0 <= t < k ==> dec_le(field_of(ds[min_idx as int], field), field_of(
                        ds[t],
                        field,
                    )),
                forall|t: int|
                    0 <= t < min_idx ==> dec_lt(field_of(ds[min_idx as int], field), field_of(
                        ds[t],
                        field,
                    )),
                forall|t: int|
                    0 <= t < k ==> dec_le(field_of(ds[t], field), field_of(
                        ds[max_idx as int],
                        field,
                    )),
                forall|t: int|
                    max_idx < t < k ==> dec_lt(field_of(ds[t], field), field_of(
                        ds[max_idx as int],
                        field,
                    )),
            decreases self.days@.len() - k,
        {
            let cur = field_ref(&self.days[k], field);
            let mn = field_ref(&self.days[min_idx], field);
            if cur.lt(mn) {
                proof {
                    assert forall|t: int| 0 <= t < k implies dec_lt(
                        field_of(ds[k as int], field),
                        field_of(ds[t], field),
                    ) by {
                        lemma_dec_lt_le_trans(
                            field_of(ds[k as int], field),
                            field_of(ds[min_idx as int], field),
                            field_of(ds[t], field),
                        );
                    }
                }
                min_idx = k;
            } else {
                proof {
                    lemma_dec_total(cur@, mn@);
                }
            }
            let mx = field_ref(&self.days[max_idx], field);
            let cur2 = field_ref(&self.days[k], field);
            if !cur2.lt(mx) {
                proof {
                    lemma_dec_total(cur2@, mx@);
                    assert forall|t: int| 0 <= t < k implies dec_le(
                        field_of(ds[t], field),
                        field_of(ds[k as int], field),
                    ) by {
                        lemma_dec_le_trans(
                            field_of(ds[t], field),
                            field_of(ds[max_idx as int], field),
                            field_of(ds[k as int], field),
                        );
                    }
                }
                max_idx = k;
            }
            k += 1;
        }
        let rmin = field_ref(&self.days[min_idx], field).duplicate();
        let rmax = field_ref(&self.days[max_idx], field).duplicate();
        proof {
            let i = min_idx as int;
            assert(0 <= i < ds.len() && rmin@ == field_of(ds[i], field) && (forall|k: int|
                0 <= k < i ==> dec_lt(rmin@, field_of(ds[k], field))));
            let m = max_idx as int;
            assert(0 <= m < ds.len() && rmax@ == field_of(ds[m], field) && (forall|k: int|
                m < k < ds.len() ==> dec_lt(field_of(ds[k], field), rmax@)));
        }
        (rmin, rmax)
    }

    /// The temperature span of a non-empty report: the minimum of the low
    /// temperatures to the maximum of the high temperatures.
    pub fn temperature_range(&self) -> (r: (Decimal, Decimal))
        requires
            self.days@.len() > 0,
        ensures
            ({
                let ds = self.days.deep_view();
                &&& exists|i: int|
                    #![auto]
                    0 <= i < ds.len() && r.0@ == ds[i].low_temp && (forall|k: int|
                        0 <= k < i ==> dec_lt(r.0@, ds[k].low_temp))
                &&& forall|k: int| 0 <= k < ds.len() ==> dec_le(r.0@, ds[k].low_temp)
                &&& exists|i: int|
                    #![auto]
                    0 <= i < ds.len() && r.1@ == ds[i].high_temp && (forall|k: int|
                        i < k < ds.len() ==> dec_lt(ds[k].high_temp, r.1@))
                &&& forall|k: int| 0 <= k < ds.len() ==> dec_le(ds[k].high_temp, r.1@)
            }),
    {
        let lo = self.range(DayField::LowTemp);
        let hi = self.range(DayField::HighTemp);
        (lo.0, hi.1)
    }

    /// Parses a whole report text: the header from the first two lines,
    /// everything up to the first non-empty dash line ignored, then one day
    /// per line up to the closing dash line, empty-day lines skipped.
    pub fn parse(s: &str) -> (r: Result<Report, ParseError>)
        ensures
            report_model(s@) matches ReportModel::Rep(anchor, ds) ==> (r matches Ok(rep)
                && rep.wf() && rep.metadata.date == anchor && rep.metadata.name@ == "maxou"@
                && rep.metadata.city@ == "LE VIGAN"@ && rep.metadata.state@ == "FRONCE"@
                && rep.metadata.elevation == 245 && rep.metadata.lat == (43u8, 59u8, 23u8)
                && rep.metadata.long == (3u8, 36u8, 4u8) && rep.days.deep_view() == ds),
            report_model(s@) matches ReportModel::FailedMeta(e) ==> (r matches Err(pe) && pe@
                == ParseErrModel::Meta(e)),
            report_model(s@) matches ReportModel::FailedDay(e) ==> (r matches Err(pe) && pe@
                == ParseErrModel::Day(e)),
            report_model(s@) is MissingSep ==> (r matches Err(pe) && pe@ == ParseErrModel::Meta(
                MetaErrModel::BadHeader,
            )),
            report_model(s@) is MissingEndSep ==> (r matches Err(pe) && pe@ == ParseErrModel::Day(
                DayErrModel::BadThing("Missing closing separator"@),
            )),
    {
        let (r, _warns) = Report::parse_with_warnings(s);
        r
    }
}

impl core::str::FromStr for Report {
    type Err = ParseError;

    /// Parses a whole report text, as `Report::parse` does.
    fn from_str(s: &str) -> Result<Report, ParseError> {
        Report::parse(s)
    }
}

impl PartialEq for Report {
    /// Report identity for comparison purposes is its anchor date alone.
    fn eq(&self, other: &Report) -> (r: bool) {
        self.metadata.date == other.metadata.date
    }
}

impl vstd::std_specs::cmp::PartialEqSpecImpl for Report {
    open spec fn obeys_eq_spec() -> bool {
        true
    }

    open spec fn eq_spec(&self, other: &Report) -> bool {
        self.metadata.date == other.metadata.date
    }
}

impl PartialOrd for Report {
    /// Reports are ordered by their anchor date alone.
    fn partial_cmp(&self, other: &Report) -> (r: Option<core::cmp::Ordering>) {
        if self.metadata.date == other.metadata.date {
            Some(core::cmp::Ordering::Equal)
        } else if self.metadata.date.lt(other.metadata.date) {
            Some(core::cmp::Ordering::Less)
        } else {
            Some(core::cmp::Ordering::Greater)
        }
    }
}

impl vstd::std_specs::cmp::PartialOrdSpecImpl for Report {
    open spec fn obeys_partial_cmp_spec() -> bool {
        true
    }

    open spec fn partial_cmp_spec(&self, other: &Report) -> Option<core::cmp::Ordering> {
        if self.metadata.date == other.metadata.date {
            Some(core::cmp::Ordering::Equal)
        } else if spec_date_lt(self.metadata.date, other.metadata.date) {
            Some(core::cmp::Ordering::Less)
        } else {
            Some(core::cmp::Ordering::Greater)
        }
    }
}

} // verus!
