//! The report header: station identity and the anchor date, parsed from the
//! title line and the blank line that must follow it.
use crate::date::{spec_days_in_month, Date};
use crate::lexer::{digit_run_at, glex, glex_slice, lemma_digit_run_digits, next_token,
    num_has_frac, num_int_len, num_int_start, GLex, Lexed, TokenKind};
use crate::text::{chars_of, digits_value, digits_value_capped};
use vstd::prelude::*;

verus! {

/// Station identity plus the report's anchor month and year. The `date` is
/// the first day of the report's month; the day of month is a placeholder
/// and carries no information beyond month and year. The identity fields are
/// not read from the input; they are filled with fixed placeholder values,
/// an acknowledged incompleteness kept as it stands.
#[derive(Debug)]
pub struct Metadata {
    pub date: Date,
    pub name: String,
    pub city: String,
    pub state: String,
    pub elevation: usize,
    pub lat: (u8, u8, u8),
    pub long: (u8, u8, u8),
}

/// Two headers describe the same station: every field agrees except the
/// date, which is deliberately left out so reports of different months can
/// be merged.
pub open spec fn same_station(a: Metadata, b: Metadata) -> bool {
    &&& a.name@ == b.name@
    &&& a.city@ == b.city@
    &&& a.state@ == b.state@
    &&& a.elevation == b.elevation
    &&& a.lat == b.lat
    &&& a.long == b.long
}

impl Metadata {
    pub open spec fn wf(self) -> bool {
        self.date.wf()
    }
}

impl PartialEq for Metadata {
    /// Station equality: all fields but the date.
    fn eq(&self, other: &Metadata) -> (r: bool) {
        self.name == other.name && self.city == other.city && self.state == other.state
            && self.elevation == other.elevation && self.lat.0 == other.lat.0 && self.lat.1
            == other.lat.1 && self.lat.2 == other.lat.2 && self.long.0 == other.long.0
            && self.long.1 == other.long.1 && self.long.2 == other.long.2
    }
}

impl vstd::std_specs::cmp::PartialEqSpecImpl for Metadata {
    open spec fn obeys_eq_spec() -> bool {
        true
    }

    open spec fn eq_spec(&self, other: &Metadata) -> bool {
        same_station(*self, *other)
    }
}

/// A header failure, in the mathematical world.
pub ghost enum MetaErrModel {
    MissingTitle,
    BadTitle,
    BadMonth(Seq<char>),
    BadHeader,
}

/// What parsing a header yields, in the mathematical world.
pub ghost enum MetaModel {
    Meta(Date),
    Failed(MetaErrModel),
}

#[derive(Debug)]
pub enum MetadataError {
    MissingTitle,
    BadTitle,
    BadMonth(String),
    BadHeader,
}

impl View for MetadataError {
    type V = MetaErrModel;

    open spec fn view(&self) -> MetaErrModel {
        match self {
            MetadataError::MissingTitle => MetaErrModel::MissingTitle,
            MetadataError::BadTitle => MetaErrModel::BadTitle,
            MetadataError::BadMonth(s) => MetaErrModel::BadMonth(s@),
            MetadataError::BadHeader => MetaErrModel::BadHeader,
        }
    }
}

/// A year numeral is rejected when it carries a fraction or lies outside the
/// supported year range.
pub open spec fn year_bad(t: Seq<char>, s: int, e: int) -> bool {
    num_has_frac(t, s, e) || digits_value(t, num_int_start(t, s), num_int_len(t, s)) > 9999
}

/// The signed value of a year numeral.
pub open spec fn year_value(t: Seq<char>, s: int, e: int) -> int {
    let v = digits_value(t, num_int_start(t, s), num_int_len(t, s));
    if t[s] == '-' {
        -v
    } else {
        v
    }
}

/// The header a sequence of lines parses to: the title literal, a month
/// abbreviation, a dot and a year on the first line, then an empty second
/// line; every departure is one of the four header failures.
pub open spec fn meta_model(ls: Seq<Seq<char>>) -> MetaModel {
    if ls.len() == 0 {
        MetaModel::Failed(MetaErrModel::MissingTitle)
    } else {
        let t = ls[0];
        match glex(t, 0) {
            GLex::Tok(TokenKind::Title, s0, e0) => match glex(t, e0) {
                GLex::Tok(TokenKind::Month(m), s1, e1) => match glex(t, e1) {
                    GLex::Tok(TokenKind::Dot, s2, e2) => match glex(t, e2) {
                        GLex::Tok(TokenKind::Number, s3, e3) => {
                            if year_bad(t, s3, e3) {
                                MetaModel::Failed(MetaErrModel::BadMonth("Bad year"@))
                            } else if ls.len() < 2 {
                                MetaModel::Failed(MetaErrModel::BadHeader)
                            } else if ls[1].len() != 0 {
                                MetaModel::Failed(MetaErrModel::BadHeader)
                            } else {
                                MetaModel::Meta(
                                    Date { year: year_value(t, s3, e3) as i32, month: m, day: 1 },
                                )
                            }
                        },
                        _ => MetaModel::Failed(MetaErrModel::BadMonth("Missing year after month"@)),
                    },
                    _ => MetaModel::Failed(MetaErrModel::BadMonth("Missing dot after month"@)),
                },
                g => MetaModel::Failed(MetaErrModel::BadMonth(glex_slice(t, g))),
            },
            _ => MetaModel::Failed(MetaErrModel::BadTitle),
        }
    }
}

/// The span `from .. to` of `s`, as an owned string.
fn slice_string(s: &str, from: usize, to: usize) -> (r: String)
    requires
        from <= to <= s@.len(),
    ensures
        r@ == s@.subrange(from as int, to as int),
{
    s.substring_char(from, to).to_owned()
}

impl Metadata {
    /// Parses the header from the first two lines: the title line, then a
    /// line that must be empty. The station identity fields are filled with
    /// their fixed placeholder values.
    pub fn parse(lines: &Vec<String>) -> (r: Result<Metadata, MetadataError>)
        ensures
            meta_model(lines.deep_view()) matches MetaModel::Meta(d) ==> (r matches Ok(m)
                && m.date == d && m.wf() && m.name@ == "maxou"@ && m.city@ == "LE VIGAN"@
                && m.state@ == "FRONCE"@ && m.elevation == 245 && m.lat == (43u8, 59u8, 23u8)
                && m.long == (3u8, 36u8, 4u8)),
            meta_model(lines.deep_view()) matches MetaModel::Failed(e) ==> (r matches Err(err)
                && err@ == e),
    {
        proof {
            assert(forall|i: int|
                0 <= i < lines@.len() ==> lines.deep_view()[i] == lines@[i].deep_view());
        }
        if lines.len() == 0 {
            return Err(MetadataError::MissingTitle);
        }
        let ts: &str = lines[0].as_str();
        let t = chars_of(ts);
        let e0 = match next_token(&t, 0) {
            Lexed::Token(TokenKind::Title, _s, e) => e,
            _ => {
                return Err(MetadataError::BadTitle);
            },
        };
        let (month, e1) = match next_token(&t, e0) {
            Lexed::Token(TokenKind::Month(m), _s, e) => (m, e),
            Lexed::Token(_k, s, e) => {
                return Err(MetadataError::BadMonth(slice_string(ts, s, e)));
            },
            Lexed::Fail(p) => {
                return Err(MetadataError::BadMonth(slice_string(ts, p, p + 1)));
            },
            Lexed::End => {
                return Err(MetadataError::BadMonth(String::new()));
            },
        };
        let e2 = match next_token(&t, e1) {
            Lexed::Token(TokenKind::Dot, _s, e) => e,
            _ => {
                return Err(MetadataError::BadMonth(String::from_str("Missing dot after month")));
            },
        };
        let (s3, e3) = match next_token(&t, e2) {
            Lexed::Token(TokenKind::Number, s, e) => (s, e),
            _ => {
                return Err(MetadataError::BadMonth(String::from_str("Missing year after month")));
            },
        };
        let neg = t[s3] == '-';
        let is0 = if neg {
            s3 + 1
        } else {
            s3
        };
        let d1 = digit_run_at(&t, is0);
        proof {
            lemma_digit_run_digits(t@, is0 as int);
        }
        if is0 + d1 < e3 {
            return Err(MetadataError::BadMonth(String::from_str("Bad year")));
        }
        let v = digits_value_capped(&t, is0, is0 + d1, 9999);
        if v > 9999 {
            return Err(MetadataError::BadMonth(String::from_str("Bad year")));
        }
        let year: i32 = if neg {
            -(v as i32)
        } else {
            v as i32
        };
        if lines.len() < 2 {
            return Err(MetadataError::BadHeader);
        }
        if !lines[1].as_str().is_empty() {
            return Err(MetadataError::BadHeader);
        }
        proof {
            assert(1 <= month <= 12);
            assert(spec_days_in_month(year as int, month as int) >= 28);
        }
        match Date::new(year, month, 1) {
            Some(date) => Ok(
                Metadata {
                    date,
                    name: String::from_str("maxou"),
                    city: String::from_str("LE VIGAN"),
                    state: String::from_str("FRONCE"),
                    elevation: 245,
                    lat: (43, 59, 23),
                    long: (3, 36, 4),
                },
            ),
            None => vstd::pervasive::unreached(),
        }
    }
}

} // verus!
