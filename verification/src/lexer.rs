//! Line tokenizer. One line of text is turned into tokens on demand: spaces
//! and tabs are skipped between tokens, and at each position the matcher that
//! consumes the most characters wins, with fixed phrases (the title literal,
//! month abbreviations, field keywords, the missing-data marker) taking
//! priority over the generic word matcher on ties. The ambiguous month case
//! (two spellings of February) is resolved the same way, by priority.
use crate::text::{is_alpha, is_digit, is_space, match_lit, matches_lit, spec_is_alpha,
    spec_is_digit, spec_is_space};
use vstd::prelude::*;

verus! {

#[derive(Clone, Copy, Debug, PartialEq, Eq, Structural)]
pub enum TokenKind {
    /// The fixed report-title phrase, including its trailing space.
    Title,
    /// One of the twelve month abbreviations; carries the month number 1-12.
    Month(u8),
    /// A signed, optionally decimal numeral.
    Number,
    /// A bare alphabetic word.
    Word,
    NameKey,
    CityKey,
    StateKey,
    ElevKey,
    LatKey,
    LongKey,
    /// The missing-data marker `---`.
    Missing,
    Colon,
    Dot,
}

/// Outcome of asking for the next token of a line: the line is exhausted, no
/// matcher applies at the position carried, or a token with its span.
#[derive(Clone, Copy, Debug, PartialEq, Eq, Structural)]
pub enum Lexed {
    End,
    Fail(usize),
    Token(TokenKind, usize, usize),
}

/// First position at or after `pos` that does not hold a space or tab.
pub open spec fn spec_skip_ws(s: Seq<char>, pos: int) -> int
    decreases s.len() - pos,
{
    if 0 <= pos < s.len() && spec_is_space(s[pos]) {
        spec_skip_ws(s, pos + 1)
    } else {
        pos
    }
}

/// Length of the maximal run of alphabetic characters starting at `pos`.
pub open spec fn word_run(s: Seq<char>, pos: int) -> int
    decreases s.len() - pos,
{
    if 0 <= pos < s.len() && spec_is_alpha(s[pos]) {
        1 + word_run(s, pos + 1)
    } else {
        0
    }
}

/// Length of the maximal run of decimal digits starting at `pos`.
pub open spec fn digit_run(s: Seq<char>, pos: int) -> int
    decreases s.len() - pos,
{
    if 0 <= pos < s.len() && spec_is_digit(s[pos]) {
        1 + digit_run(s, pos + 1)
    } else {
        0
    }
}

/// Length of the maximal numeral starting at `pos`: an optional minus sign,
/// digits, and an optional dot followed by more digits; 0 if there is none.
pub open spec fn number_len(s: Seq<char>, pos: int) -> int {
    let p0 = if 0 <= pos < s.len() && s[pos] == '-' {
        pos + 1
    } else {
        pos
    };
    let d1 = digit_run(s, p0);
    if d1 == 0 {
        0
    } else {
        let p1 = p0 + d1;
        if p1 < s.len() && s[p1] == '.' && digit_run(s, p1 + 1) > 0 {
            p1 + 1 + digit_run(s, p1 + 1) - pos
        } else {
            p1 - pos
        }
    }
}

/// The month abbreviation at `pos`, if any, as the month number. February
/// has two accepted spellings.
pub open spec fn month_at(s: Seq<char>, pos: int) -> Option<u8> {
    if matches_lit(s, pos, "JAN"@) {
        Some(1u8)
    } else if matches_lit(s, pos, "FEB"@) || matches_lit(s, pos, "FEV"@) {
        Some(2u8)
    } else if matches_lit(s, pos, "MAR"@) {
        Some(3u8)
    } else if matches_lit(s, pos, "APR"@) {
        Some(4u8)
    } else if matches_lit(s, pos, "MAY"@) {
        Some(5u8)
    } else if matches_lit(s, pos, "JUN"@) {
        Some(6u8)
    } else if matches_lit(s, pos, "JUL"@) {
        Some(7u8)
    } else if matches_lit(s, pos, "AUG"@) {
        Some(8u8)
    } else if matches_lit(s, pos, "SEP"@) {
        Some(9u8)
    } else if matches_lit(s, pos, "OCT"@) {
        Some(10u8)
    } else if matches_lit(s, pos, "NOV"@) {
        Some(11u8)
    } else if matches_lit(s, pos, "DEC"@) {
        Some(12u8)
    } else {
        None
    }
}

/// The field-label keyword at `pos`, if any, with its length.
pub open spec fn kw_at(s: Seq<char>, pos: int) -> Option<(TokenKind, int)> {
    if matches_lit(s, pos, "NAME:"@) {
        Some((TokenKind::NameKey, 5int))
    } else if matches_lit(s, pos, "CITY:"@) {
        Some((TokenKind::CityKey, 5int))
    } else if matches_lit(s, pos, "STATE:"@) {
        Some((TokenKind::StateKey, 6int))
    } else if matches_lit(s, pos, "ELEV:"@) {
        Some((TokenKind::ElevKey, 5int))
    } else if matches_lit(s, pos, "LAT:"@) {
        Some((TokenKind::LatKey, 4int))
    } else if matches_lit(s, pos, "LONG:"@) {
        Some((TokenKind::LongKey, 5int))
    } else {
        None
    }
}

/// The token starting exactly at `pos` (no whitespace skipping), as its kind
/// and end position, or `None` if no matcher applies. The ordered decision
/// realizes longest-match with keyword priority: the title literal and the
/// keywords are longer than any word run they overlap; a month abbreviation
/// wins only when the word run does not extend past it; numerals, the
/// missing-data marker and punctuation share no starting character with the
/// word matcher.
pub open spec fn token_at(s: Seq<char>, pos: int) -> Option<(TokenKind, int)> {
    if matches_lit(s, pos, "MONTHLY CLIMATOLOGICAL SUMMARY for "@) {
        Some((TokenKind::Title, pos + 35))
    } else {
        let wl = word_run(s, pos);
        if kw_at(s, pos) is Some {
            let (k, l) = kw_at(s, pos)->0;
            Some((k, pos + l))
        } else if month_at(s, pos) is Some && wl == 3 {
            Some((TokenKind::Month(month_at(s, pos)->0), pos + 3))
        } else if wl > 0 {
            Some((TokenKind::Word, pos + wl))
        } else if matches_lit(s, pos, "---"@) {
            Some((TokenKind::Missing, pos + 3))
        } else if number_len(s, pos) > 0 {
            Some((TokenKind::Number, pos + number_len(s, pos)))
        } else if 0 <= pos < s.len() && s[pos] == ':' {
            Some((TokenKind::Colon, pos + 1))
        } else if 0 <= pos < s.len() && s[pos] == '.' {
            Some((TokenKind::Dot, pos + 1))
        } else {
            None
        }
    }
}

/// A lexing outcome, in the mathematical world: end of line, no match at the
/// carried position, or a token with its span.
pub ghost enum GLex {
    End,
    Fail(int),
    Tok(TokenKind, int, int),
}

/// The next token of `s` at or after `pos`, skipping blanks, as the parsers'
/// models see it.
pub open spec fn glex(s: Seq<char>, pos: int) -> GLex {
    let p = spec_skip_ws(s, pos);
    if p >= s.len() {
        GLex::End
    } else {
        match token_at(s, p) {
            Some((k, e)) => GLex::Tok(k, p, e),
            None => GLex::Fail(p),
        }
    }
}

/// The text a lexing outcome covers: the token's span, the one unrecognized
/// character, or nothing.
pub open spec fn glex_slice(s: Seq<char>, g: GLex) -> Seq<char> {
    match g {
        GLex::Tok(_, start, end) => s.subrange(start, end),
        GLex::Fail(p) => s.subrange(p, p + 1),
        GLex::End => Seq::empty(),
    }
}

/// Start of the digits of the numeral at `s`, past a minus sign if present.
pub open spec fn num_int_start(t: Seq<char>, s: int) -> int {
    if t[s] == '-' {
        s + 1
    } else {
        s
    }
}

/// Number of integer digits of the numeral at `s`.
pub open spec fn num_int_len(t: Seq<char>, s: int) -> int {
    digit_run(t, num_int_start(t, s))
}

/// The numeral spanning `s .. e` carries a fraction part.
pub open spec fn num_has_frac(t: Seq<char>, s: int, e: int) -> bool {
    num_int_start(t, s) + num_int_len(t, s) < e
}

/// The numeral spanning `s .. e` is a plain unsigned integer: no minus sign
/// and no fraction.
pub open spec fn num_is_int(t: Seq<char>, s: int, e: int) -> bool {
    t[s] != '-' && !num_has_frac(t, s, e)
}

/// Value of the integer digits of the numeral at `s`.
pub open spec fn num_value(t: Seq<char>, s: int) -> int {
    crate::text::digits_value(t, num_int_start(t, s), num_int_len(t, s))
}

/// All characters of a digit run are digits.
pub proof fn lemma_digit_run_digits(s: Seq<char>, pos: int)
    ensures
        forall|i: int| pos <= i < pos + digit_run(s, pos) ==> spec_is_digit(s[i]),
    decreases s.len() - pos,
{
    if 0 <= pos < s.len() && spec_is_digit(s[pos]) {
        lemma_digit_run_digits(s, pos + 1);
    }
}

pub(crate) fn word_run_at(v: &Vec<char>, pos: usize) -> (n: usize)
    requires
        pos <= v@.len(),
    ensures
        n as int == word_run(v@, pos as int),
        pos + n <= v@.len(),
{
    let mut i: usize = pos;
    while i < v.len() && is_alpha(v[i])
        invariant
            pos <= i <= v@.len(),
            word_run(v@, pos as int) == (i - pos) + word_run(v@, i as int),
        decreases v@.len() - i,
    {
        i += 1;
    }
    i - pos
}

pub(crate) fn digit_run_at(v: &Vec<char>, pos: usize) -> (n: usize)
    requires
        pos <= v@.len(),
    ensures
        n as int == digit_run(v@, pos as int),
        pos + n <= v@.len(),
{
    let mut i: usize = pos;
    while i < v.len() && is_digit(v[i])
        invariant
            pos <= i <= v@.len(),
            digit_run(v@, pos as int) == (i - pos) + digit_run(v@, i as int),
        decreases v@.len() - i,
    {
        i += 1;
    }
    i - pos
}

/// Length of the numeral starting at `pos`, or 0 if there is none.
fn number_len_at(v: &Vec<char>, pos: usize) -> (n: usize)
    requires
        pos <= v@.len(),
    ensures
        n as int == number_len(v@, pos as int),
        pos + n <= v@.len(),
{
    let p0 = if pos < v.len() && v[pos] == '-' {
        pos + 1
    } else {
        pos
    };
    let d1 = digit_run_at(v, p0);
    if d1 == 0 {
        0
    } else {
        let p1 = p0 + d1;
        if p1 < v.len() && v[p1] == '.' && digit_run_at(v, p1 + 1) > 0 {
            let d2 = digit_run_at(v, p1 + 1);
            p1 + 1 + d2 - pos
        } else {
            p1 - pos
        }
    }
}

/// The next token of `v` at or after `pos`.
pub fn next_token(v: &Vec<char>, pos: usize) -> (r: Lexed)
    requires
        pos <= v@.len(),
    ensures
        r is End <==> glex(v@, pos as int) is End,
        r matches Lexed::Fail(p) ==> glex(v@, pos as int) == GLex::Fail(p as int) && p < v@.len(),
        r matches Lexed::Token(k, s, e) ==> glex(v@, pos as int) == GLex::Tok(k, s as int, e as int)
            && s <= e <= v@.len(),
        glex(v@, pos as int) is Fail ==> r is Fail,
        glex(v@, pos as int) is Tok ==> r is Token,
        r matches Lexed::Token(k, s, e) ==> (k == TokenKind::Number ==> e as int == s + number_len(
            v@,
            s as int,
        ) && number_len(v@, s as int) > 0),
{
    let mut p = pos;
    while p < v.len() && is_space(v[p])
        invariant
            pos <= p <= v@.len(),
            spec_skip_ws(v@, pos as int) == spec_skip_ws(v@, p as int),
        decreases v@.len() - p,
    {
        p += 1;
    }
    assert(spec_skip_ws(v@, pos as int) == p as int);
    if p == v.len() {
        return Lexed::End;
    }
    proof {
        reveal_strlit("MONTHLY CLIMATOLOGICAL SUMMARY for ");
        reveal_strlit("NAME:");
        reveal_strlit("CITY:");
        reveal_strlit("STATE:");
        reveal_strlit("ELEV:");
        reveal_strlit("LAT:");
        reveal_strlit("LONG:");
        reveal_strlit("JAN");
        reveal_strlit("FEB");
        reveal_strlit("FEV");
        reveal_strlit("MAR");
        reveal_strlit("APR");
        reveal_strlit("MAY");
        reveal_strlit("JUN");
        reveal_strlit("JUL");
        reveal_strlit("AUG");
        reveal_strlit("SEP");
        reveal_strlit("OCT");
        reveal_strlit("NOV");
        reveal_strlit("DEC");
        reveal_strlit("---");
    }
    if match_lit(v, p, "MONTHLY CLIMATOLOGICAL SUMMARY for ") {
        return Lexed::Token(TokenKind::Title, p, p + 35);
    }
    let wl = word_run_at(v, p);
    if match_lit(v, p, "NAME:") {
        return Lexed::Token(TokenKind::NameKey, p, p + 5);
    }
    if match_lit(v, p, "CITY:") {
        return Lexed::Token(TokenKind::CityKey, p, p + 5);
    }
    if match_lit(v, p, "STATE:") {
        return Lexed::Token(TokenKind::StateKey, p, p + 6);
    }
    if match_lit(v, p, "ELEV:") {
        return Lexed::Token(TokenKind::ElevKey, p, p + 5);
    }
    if match_lit(v, p, "LAT:") {
        return Lexed::Token(TokenKind::LatKey, p, p + 4);
    }
    if match_lit(v, p, "LONG:") {
        return Lexed::Token(TokenKind::LongKey, p, p + 5);
    }
    if wl == 3 {
        if match_lit(v, p, "JAN") {
            return Lexed::Token(TokenKind::Month(1), p, p + 3);
        }
        if match_lit(v, p, "FEB") || match_lit(v, p, "FEV") {
            return Lexed::Token(TokenKind::Month(2), p, p + 3);
        }
        if match_lit(v, p, "MAR") {
            return Lexed::Token(TokenKind::Month(3), p, p + 3);
        }
        if match_lit(v, p, "APR") {
            return Lexed::Token(TokenKind::Month(4), p, p + 3);
        }
        if match_lit(v, p, "MAY") {
            return Lexed::Token(TokenKind::Month(5), p, p + 3);
        }
        if match_lit(v, p, "JUN") {
            return Lexed::Token(TokenKind::Month(6), p, p + 3);
        }
        if match_lit(v, p, "JUL") {
            return Lexed::Token(TokenKind::Month(7), p, p + 3);
        }
        if match_lit(v, p, "AUG") {
            return Lexed::Token(TokenKind::Month(8), p, p + 3);
        }
        if match_lit(v, p, "SEP") {
            return Lexed::Token(TokenKind::Month(9), p, p + 3);
        }
        if match_lit(v, p, "OCT") {
            return Lexed::Token(TokenKind::Month(10), p, p + 3);
        }
        if match_lit(v, p, "NOV") {
            return Lexed::Token(TokenKind::Month(11), p, p + 3);
        }
        if match_lit(v, p, "DEC") {
            return Lexed::Token(TokenKind::Month(12), p, p + 3);
        }
    }
    if wl > 0 {
        return Lexed::Token(TokenKind::Word, p, p + wl);
    }
    if match_lit(v, p, "---") {
        return Lexed::Token(TokenKind::Missing, p, p + 3);
    }
    let nl = number_len_at(v, p);
    if nl > 0 {
        return Lexed::Token(TokenKind::Number, p, p + nl);
    }
    if v[p] == ':' {
        return Lexed::Token(TokenKind::Colon, p, p + 1);
    }
    if v[p] == '.' {
        return Lexed::Token(TokenKind::Dot, p, p + 1);
    }
    Lexed::Fail(p)
}

} // verus!
