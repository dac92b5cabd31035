//! Option symbols as the two venues write them, and the test that two of
//! them name the same instrument.
//!
//! One venue writes `BTC-USD-240427-56000-C`, the other `BTC-27APR24-56000-C`.
//! The grammar is stated over the characters of the symbol.

use crate::text::{digit_str, digit_text, labelled, two_digits};
use chrono::Datelike;
use vstd::prelude::*;
use vstd::std_specs::cmp::PartialEqSpecImpl;
use vstd::string::*;
use vstd::utf8::is_ascii_chars;

verus! {

/// A day of the calendar.
#[derive(Debug, Clone, Copy, PartialEq, Eq, Structural)]
pub struct ExpiryDate {
    pub year: i32,
    pub month: u32,
    pub day: u32,
}

#[derive(Debug, Clone, Copy, PartialEq, Eq, Structural)]
pub enum OptionType {
    Call,
    Put,
}

/// What a symbol says: the underlying in upper case, the expiry, the strike
/// and the kind of option.
#[derive(Debug, Clone)]
pub struct ParsedInstrument {
    pub underlying: String,
    pub expiry_date: ExpiryDate,
    pub strike: u32,
    pub option_type: OptionType,
}

/// A [`ParsedInstrument`] with its text as a sequence of characters.
pub struct ParsedInstrumentView {
    pub underlying: Seq<char>,
    pub expiry_date: ExpiryDate,
    pub strike: u32,
    pub option_type: OptionType,
}

impl View for ParsedInstrument {
    type V = ParsedInstrumentView;

    open spec fn view(&self) -> ParsedInstrumentView {
        ParsedInstrumentView {
            underlying: self.underlying@,
            expiry_date: self.expiry_date,
            strike: self.strike,
            option_type: self.option_type,
        }
    }
}

impl PartialEq for ParsedInstrument {
    fn eq(&self, other: &Self) -> (r: bool) {
        self.underlying == other.underlying && self.expiry_date == other.expiry_date
            && self.strike == other.strike && self.option_type == other.option_type
    }
}

impl PartialEqSpecImpl for ParsedInstrument {
    open spec fn obeys_eq_spec() -> bool {
        true
    }

    open spec fn eq_spec(&self, other: &Self) -> bool {
        self@ == other@
    }
}

/// Why a symbol could not be read.
#[derive(Debug)]
pub enum InstrumentParseError {
    InvalidFormat(String),
    DateParseError(String),
    InvalidStrike(String),
    InvalidOptionType(String),
    InsufficientComponents,
}

/// An [`InstrumentParseError`] with its text as a sequence of characters.
pub enum InstrumentParseErrorView {
    InvalidFormat(Seq<char>),
    DateParseError(Seq<char>),
    InvalidStrike(Seq<char>),
    InvalidOptionType(Seq<char>),
    InsufficientComponents,
}

impl View for InstrumentParseError {
    type V = InstrumentParseErrorView;

    open spec fn view(&self) -> InstrumentParseErrorView {
        match self {
            InstrumentParseError::InvalidFormat(s) => InstrumentParseErrorView::InvalidFormat(s@),
            InstrumentParseError::DateParseError(s) => InstrumentParseErrorView::DateParseError(
                s@,
            ),
            InstrumentParseError::InvalidStrike(s) => InstrumentParseErrorView::InvalidStrike(s@),
            InstrumentParseError::InvalidOptionType(s) => InstrumentParseErrorView::InvalidOptionType(
                s@,
            ),
            InstrumentParseError::InsufficientComponents => InstrumentParseErrorView::InsufficientComponents,
        }
    }
}

impl InstrumentParseErrorView {
    /// The error as a line for an operator.
    pub open spec fn message(self) -> Seq<char> {
        match self {
            InstrumentParseErrorView::InvalidFormat(s) => "Invalid format: "@ + s,
            InstrumentParseErrorView::DateParseError(s) => "Date parse error: "@ + s,
            InstrumentParseErrorView::InvalidStrike(s) => "Invalid strike price: "@ + s,
            InstrumentParseErrorView::InvalidOptionType(s) => "Invalid option type: "@ + s,
            InstrumentParseErrorView::InsufficientComponents => "Insufficient components in symbol"@,
        }
    }
}

impl InstrumentParseError {
    /// The error as a line for an operator.
    pub fn message(&self) -> (r: String)
        ensures
            r@ == self@.message(),
    {
        match self {
            InstrumentParseError::InvalidFormat(s) => labelled("Invalid format: ", s.as_str()),
            InstrumentParseError::DateParseError(s) => labelled("Date parse error: ", s.as_str()),
            InstrumentParseError::InvalidStrike(s) => labelled(
                "Invalid strike price: ",
                s.as_str(),
            ),
            InstrumentParseError::InvalidOptionType(s) => labelled(
                "Invalid option type: ",
                s.as_str(),
            ),
            InstrumentParseError::InsufficientComponents => String::from_str(
                "Insufficient components in symbol",
            ),
        }
    }
}

/// What `str::to_uppercase` returns for the text `s`.
pub uninterp spec fn uppercase_of(s: Seq<char>) -> Seq<char>;

/// Every character is one of `0` to `9`.
pub open spec fn all_digits(s: Seq<char>) -> bool {
    forall|i: int| 0 <= i < s.len() ==> '0' <= #[trigger] s[i] <= '9'
}

/// The number that the digits write in base ten.
pub open spec fn digits_value(s: Seq<char>) -> nat
    decreases s.len(),
{
    if s.len() == 0 {
        0
    } else {
        (digits_value(s.drop_last()) * 10 + (s.last() as int - '0' as int)) as nat
    }
}

/// The number written by an optional `+` and then digits, at least one.
pub open spec fn unsigned_text(s: Seq<char>) -> Option<nat> {
    let digits = if s.len() > 0 && s[0] == '+' {
        s.drop_first()
    } else {
        s
    };
    if digits.len() > 0 && all_digits(digits) {
        Some(digits_value(digits))
    } else {
        None
    }
}

/// The text read as a `u32`: an optional `+`, then digits, within range.
pub open spec fn parse_u32_text(s: Seq<char>) -> Option<u32> {
    match unsigned_text(s) {
        Some(v) => if v <= u32::MAX {
            Some(v as u32)
        } else {
            None
        },
        None => None,
    }
}

/// The text read as an `i32`: an optional `+` or `-`, then digits, within
/// range.
pub open spec fn parse_i32_text(s: Seq<char>) -> Option<i32> {
    if s.len() > 0 && s[0] == '-' {
        let digits = s.drop_first();
        if digits.len() > 0 && all_digits(digits) && digits_value(digits) <= 0x8000_0000 {
            Some((-digits_value(digits)) as i32)
        } else {
            None
        }
    } else {
        match unsigned_text(s) {
            Some(v) => if v <= i32::MAX {
                Some(v as i32)
            } else {
                None
            },
            None => None,
        }
    }
}

pub open spec fn is_leap_year(year: int) -> bool {
    year % 4 == 0 && (year % 100 != 0 || year % 400 == 0)
}

pub open spec fn days_in_month(year: int, month: int) -> int {
    if month == 2 {
        if is_leap_year(year) {
            29
        } else {
            28
        }
    } else if month == 4 || month == 6 || month == 9 || month == 11 {
        30
    } else {
        31
    }
}

/// The day is one of the Gregorian calendar.
pub open spec fn date_exists(year: int, month: int, day: int) -> bool {
    1 <= month <= 12 && 1 <= day <= days_in_month(year, month)
}

/// The years that `chrono` can hold.
pub open spec fn chrono_holds(year: int) -> bool {
    -262143 <= year <= 262142
}

/// The date with these numbers, where the calendar has that day and the year
/// is one that `chrono` can hold.
pub open spec fn calendar_date_of(year: i32, month: u32, day: u32) -> Option<ExpiryDate> {
    if chrono_holds(year as int) && date_exists(year as int, month as int, day as int) {
        Some(ExpiryDate { year, month, day })
    } else {
        None
    }
}

/// `str::to_uppercase`, whose result is named: it follows Unicode's tables.
#[verifier::external_body]
fn uppercase(s: &str) -> (r: String)
    ensures
        r@ == uppercase_of(s@),
{
    s.to_uppercase()
}

/// `str::parse::<u32>`: an optional `+` and then only digits, or an error;
/// an error too where the number does not fit.
#[verifier::external_body]
fn parse_u32(s: &str) -> (r: Option<u32>)
    ensures
        r == parse_u32_text(s@),
{
    s.parse::<u32>().ok()
}

/// `str::parse::<i32>`: an optional `+` or `-` and then only digits, or an
/// error; an error too where the number does not fit.
#[verifier::external_body]
fn parse_i32(s: &str) -> (r: Option<i32>)
    ensures
        r == parse_i32_text(s@),
{
    s.parse::<i32>().ok()
}

/// `chrono::NaiveDate::from_ymd_opt`: the date, where the calendar has that
/// day and the year is one that `chrono` can hold.
#[verifier::external_body]
fn calendar_date(year: i32, month: u32, day: u32) -> (r: Option<ExpiryDate>)
    ensures
        r == calendar_date_of(year, month, day),
{
    chrono::NaiveDate::from_ymd_opt(year, month, day).map(
        |date| ExpiryDate { year: date.year(), month: date.month(), day: date.day() },
    )
}

/// The fields of `s` between its `-` signs, as `str::split` gives them: one
/// more field than there are signs, each as long as it is, empty ones too.
pub open spec fn split_dash(s: Seq<char>) -> Seq<Seq<char>>
    decreases s.len(),
{
    if s.len() == 0 {
        seq![Seq::<char>::empty()]
    } else {
        let before = split_dash(s.drop_last());
        if s.last() == '-' {
            before.push(Seq::<char>::empty())
        } else {
            before.update(before.len() - 1, before.last().push(s.last()))
        }
    }
}

/// The texts of the slices.
pub open spec fn field_texts(parts: Seq<&str>) -> Seq<Seq<char>> {
    parts.map_values(|part: &str| part@)
}

/// Cuts the symbol at each `-`.
pub fn split_fields<'a>(s: &'a str) -> (parts: Vec<&'a str>)
    ensures
        field_texts(parts@) == split_dash(s@),
{
    let n = s.unicode_len();
    let mut parts: Vec<&'a str> = Vec::new();
    let mut start: usize = 0;
    let mut pos: usize = 0;
    proof {
        assert(s@.take(0) =~= Seq::<char>::empty());
        assert(field_texts(parts@).push(s@.subrange(0, 0)) =~= seq![Seq::<char>::empty()]);
    }
    while pos < n
        invariant
            n == s@.len(),
            start <= pos <= n,
            field_texts(parts@).push(s@.subrange(start as int, pos as int)) == split_dash(
                s@.take(pos as int),
            ),
        decreases n - pos,
    {
        let c = s.get_char(pos);
        let ghost done = field_texts(parts@);
        let ghost current = s@.subrange(start as int, pos as int);
        proof {
            assert(s@.take(pos + 1).drop_last() =~= s@.take(pos as int));
            assert(s@.take(pos + 1).last() == c);
        }
        if c == '-' {
            parts.push(s.substring_char(start, pos));
            start = pos + 1;
            proof {
                assert(field_texts(parts@) =~= done.push(current));
                assert(s@.subrange(start as int, pos + 1) =~= Seq::<char>::empty());
            }
        } else {
            proof {
                assert(current.push(c) =~= s@.subrange(start as int, pos + 1));
                assert(done.push(current).last() == current);
                assert(done.push(current).update(done.len() as int, current.push(c)) =~= done.push(
                    s@.subrange(start as int, pos + 1),
                ));
            }
        }
        pos += 1;
    }
    let ghost done = field_texts(parts@);
    parts.push(s.substring_char(start, n));
    proof {
        assert(s@.take(n as int) =~= s@);
        assert(field_texts(parts@) =~= done.push(s@.subrange(start as int, n as int)));
    }
    parts
}

/// A day of this century as `2024-04-27`.
pub open spec fn date_text(year: int, month: int, day: int) -> Seq<char> {
    "20"@ + two_digits(year - 2000) + "-"@ + two_digits(month) + "-"@ + two_digits(day)
}

fn date_string(year: i32, month: u32, day: u32) -> (r: String)
    requires
        2000 <= year <= 2099,
        month < 100,
        day < 100,
    ensures
        r@ == date_text(year as int, month as int, day as int),
{
    let y: u32 = (year - 2000) as u32;
    let mut text = String::from_str("20");
    text.append(digit_str(y / 10));
    text.append(digit_str(y % 10));
    text.append("-");
    text.append(digit_str(month / 10));
    text.append(digit_str(month % 10));
    text.append("-");
    text.append(digit_str(day / 10));
    text.append(digit_str(day % 10));
    proof {
        assert(text@ =~= date_text(year as int, month as int, day as int));
    }
    text
}

/// Two characters never write a number of three digits.
pub proof fn lemma_two_characters(s: Seq<char>)
    requires
        s.len() == 2,
    ensures
        parse_u32_text(s) matches Some(v) ==> v <= 99,
{
    reveal_with_fuel(digits_value, 3);
    let tail = s.drop_first();
    assert(tail.len() == 1);
    assert(tail.drop_last().len() == 0);
    assert(s.drop_last().len() == 1);
    assert(s.drop_last().drop_last().len() == 0);
    if all_digits(tail) {
        assert('0' <= tail[0] <= '9');
        assert(tail.last() == tail[0]);
    }
    if all_digits(s) {
        assert('0' <= s[0] <= '9');
        assert('0' <= s[1] <= '9');
        assert(s.drop_last().last() == s[0]);
        assert(s.last() == s[1]);
    }
}

/// The month that an upper-case name of three letters stands for.
pub open spec fn month_number(name: Seq<char>) -> Option<u32> {
    if name == "JAN"@ {
        Some(1)
    } else if name == "FEB"@ {
        Some(2)
    } else if name == "MAR"@ {
        Some(3)
    } else if name == "APR"@ {
        Some(4)
    } else if name == "MAY"@ {
        Some(5)
    } else if name == "JUN"@ {
        Some(6)
    } else if name == "JUL"@ {
        Some(7)
    } else if name == "AUG"@ {
        Some(8)
    } else if name == "SEP"@ {
        Some(9)
    } else if name == "OCT"@ {
        Some(10)
    } else if name == "NOV"@ {
        Some(11)
    } else if name == "DEC"@ {
        Some(12)
    } else {
        None
    }
}

/// The kind of option that an upper-case letter stands for.
pub open spec fn option_type_of(letter: Seq<char>) -> Option<OptionType> {
    if letter == "C"@ {
        Some(OptionType::Call)
    } else if letter == "P"@ {
        Some(OptionType::Put)
    } else {
        None
    }
}

fn text_is(text: &String, word: &str) -> (r: bool)
    ensures
        r == (text@ == word@),
{
    let other = String::from_str(word);
    *text == other
}

/// Looks a month up by its name in upper case.
pub fn month_from_upper(name: &String) -> (r: Option<u32>)
    ensures
        r == month_number(name@),
{
    if text_is(name, "JAN") {
        Some(1)
    } else if text_is(name, "FEB") {
        Some(2)
    } else if text_is(name, "MAR") {
        Some(3)
    } else if text_is(name, "APR") {
        Some(4)
    } else if text_is(name, "MAY") {
        Some(5)
    } else if text_is(name, "JUN") {
        Some(6)
    } else if text_is(name, "JUL") {
        Some(7)
    } else if text_is(name, "AUG") {
        Some(8)
    } else if text_is(name, "SEP") {
        Some(9)
    } else if text_is(name, "OCT") {
        Some(10)
    } else if text_is(name, "NOV") {
        Some(11)
    } else if text_is(name, "DEC") {
        Some(12)
    } else {
        None
    }
}

/// Reads the kind of option from its letter in upper case.
pub fn option_type_from_upper(letter: &String) -> (r: Option<OptionType>)
    ensures
        r == option_type_of(letter@),
{
    if text_is(letter, "C") {
        Some(OptionType::Call)
    } else if text_is(letter, "P") {
        Some(OptionType::Put)
    } else {
        None
    }
}

/// The year of this century, checked against the calendar with month and day.
pub open spec fn century_date(
    year: i32,
    year_text: Seq<char>,
    month: u32,
    day: u32,
) -> Result<ExpiryDate, InstrumentParseErrorView> {
    if year < 0 || year > 99 {
        Err(InstrumentParseErrorView::InvalidFormat("Invalid year: "@ + year_text))
    } else {
        match calendar_date_of((2000 + year) as i32, month, day) {
            Some(date) => Ok(date),
            None => Err(
                InstrumentParseErrorView::InvalidFormat(
                    "Invalid date: "@ + date_text(2000 + year, month as int, day as int),
                ),
            ),
        }
    }
}

/// A date written `YYMMDD`, as in `240427`: six ASCII characters, two each for
/// the year of this century, the month and the day.
pub open spec fn okex_date(text: Seq<char>) -> Result<ExpiryDate, InstrumentParseErrorView> {
    if text.len() != 6 || !is_ascii_chars(text) {
        Err(InstrumentParseErrorView::InvalidFormat("Expected 6-digit date, got: "@ + text))
    } else {
        let year_text = text.subrange(0, 2);
        let month_text = text.subrange(2, 4);
        let day_text = text.subrange(4, 6);
        match parse_i32_text(year_text) {
            None => Err(InstrumentParseErrorView::InvalidFormat("Invalid year: "@ + year_text)),
            Some(year) => match parse_u32_text(month_text) {
                None => Err(
                    InstrumentParseErrorView::InvalidFormat("Invalid month: "@ + month_text),
                ),
                Some(month) => match parse_u32_text(day_text) {
                    None => Err(
                        InstrumentParseErrorView::InvalidFormat("Invalid day: "@ + day_text),
                    ),
                    Some(day) => century_date(year, year_text, month, day),
                },
            },
        }
    }
}

/// A date written `DDMMMYY`, as in `27APR24`: seven ASCII characters, two for
/// the day, three for the month's name in any case, two for the year of this
/// century. What follows the seventh character is not read.
pub open spec fn deribit_date(text: Seq<char>) -> Result<ExpiryDate, InstrumentParseErrorView> {
    if text.len() < 7 || !is_ascii_chars(text.subrange(0, 7)) {
        Err(InstrumentParseErrorView::InvalidFormat("Expected format DDMMMYY, got: "@ + text))
    } else {
        let day_text = text.subrange(0, 2);
        let month_text = text.subrange(2, 5);
        let year_text = text.subrange(5, 7);
        match parse_u32_text(day_text) {
            None => Err(InstrumentParseErrorView::InvalidFormat("Invalid day: "@ + day_text)),
            Some(day) => match parse_i32_text(year_text) {
                None => Err(
                    InstrumentParseErrorView::InvalidFormat("Invalid year: "@ + year_text),
                ),
                Some(year) => match month_number(uppercase_of(month_text)) {
                    None => Err(
                        InstrumentParseErrorView::InvalidFormat("Invalid month: "@ + month_text),
                    ),
                    Some(month) => century_date(year, year_text, month, day),
                },
            },
        }
    }
}

/// The strike and the kind of option, and with them the whole instrument.
pub open spec fn instrument_of(
    base: Seq<char>,
    date: ExpiryDate,
    strike_text: Seq<char>,
    type_text: Seq<char>,
) -> Result<ParsedInstrumentView, InstrumentParseErrorView> {
    match parse_u32_text(strike_text) {
        None => Err(InstrumentParseErrorView::InvalidStrike(strike_text)),
        Some(strike) => match option_type_of(uppercase_of(type_text)) {
            None => Err(InstrumentParseErrorView::InvalidOptionType(type_text)),
            Some(option_type) => Ok(
                ParsedInstrumentView {
                    underlying: uppercase_of(base),
                    expiry_date: date,
                    strike,
                    option_type,
                },
            ),
        },
    }
}

/// A symbol written `BASE-QUOTE-YYMMDD-STRIKE-TYPE`. Fields after the fifth are
/// not read.
pub open spec fn okex_symbol(symbol: Seq<char>) -> Result<
    ParsedInstrumentView,
    InstrumentParseErrorView,
> {
    let parts = split_dash(symbol);
    if parts.len() < 5 {
        Err(InstrumentParseErrorView::InsufficientComponents)
    } else {
        match okex_date(parts[2]) {
            Err(e) => Err(e),
            Ok(date) => instrument_of(parts[0], date, parts[3], parts[4]),
        }
    }
}

/// A symbol written `BASE-DDMMMYY-STRIKE-TYPE`. Fields after the fourth are not
/// read.
pub open spec fn deribit_symbol(symbol: Seq<char>) -> Result<
    ParsedInstrumentView,
    InstrumentParseErrorView,
> {
    let parts = split_dash(symbol);
    if parts.len() < 4 {
        Err(InstrumentParseErrorView::InsufficientComponents)
    } else {
        match deribit_date(parts[1]) {
            Err(e) => Err(e),
            Ok(date) => instrument_of(parts[0], date, parts[2], parts[3]),
        }
    }
}

/// Whether the two symbols name the same instrument; the first symbol's error
/// where it cannot be read, else the second's.
pub open spec fn same_instrument(okex: Seq<char>, deribit: Seq<char>) -> Result<
    bool,
    InstrumentParseErrorView,
> {
    match okex_symbol(okex) {
        Err(e) => Err(e),
        Ok(first) => match deribit_symbol(deribit) {
            Err(e) => Err(e),
            Ok(second) => Ok(first == second),
        },
    }
}

pub open spec fn date_result_view(r: Result<ExpiryDate, InstrumentParseError>) -> Result<
    ExpiryDate,
    InstrumentParseErrorView,
> {
    match r {
        Ok(date) => Ok(date),
        Err(e) => Err(e@),
    }
}

pub open spec fn instrument_result_view(
    r: Result<ParsedInstrument, InstrumentParseError>,
) -> Result<ParsedInstrumentView, InstrumentParseErrorView> {
    match r {
        Ok(instrument) => Ok(instrument@),
        Err(e) => Err(e@),
    }
}

pub open spec fn same_result_view(r: Result<bool, InstrumentParseError>) -> Result<
    bool,
    InstrumentParseErrorView,
> {
    match r {
        Ok(same) => Ok(same),
        Err(e) => Err(e@),
    }
}

fn invalid_format(label: &str, text: &str) -> (e: InstrumentParseError)
    ensures
        e@ == InstrumentParseErrorView::InvalidFormat(label@ + text@),
{
    InstrumentParseError::InvalidFormat(labelled(label, text))
}

/// Checks a year of this century, a month and a day against the calendar.
fn check_century_date(year: i32, year_str: &str, month: u32, day: u32) -> (r: Result<
    ExpiryDate,
    InstrumentParseError,
>)
    requires
        month <= 99,
        day <= 99,
    ensures
        date_result_view(r) == century_date(year, year_str@, month, day),
{
    if year < 0 || year > 99 {
        return Err(invalid_format("Invalid year: ", year_str));
    }
    let full_year: i32 = 2000 + year;
    match calendar_date(full_year, month, day) {
        Some(date) => Ok(date),
        None => {
            let text = date_string(full_year, month, day);
            Err(invalid_format("Invalid date: ", text.as_str()))
        },
    }
}

/// Reads symbols and compares them.
pub struct InstrumentValidator;

impl InstrumentValidator {
    /// Whether the two symbols, one in each venue's form, name the same
    /// instrument.
    pub fn are_same_instrument(okex_symbol: &str, deribit_symbol: &str) -> (r: Result<
        bool,
        InstrumentParseError,
    >)
        ensures
            same_result_view(r) == same_instrument(okex_symbol@, deribit_symbol@),
    {
        let okex_parsed = match Self::parse_okex_symbol(okex_symbol) {
            Ok(parsed) => parsed,
            Err(e) => {
                return Err(e);
            },
        };
        let deribit_parsed = match Self::parse_deribit_symbol(deribit_symbol) {
            Ok(parsed) => parsed,
            Err(e) => {
                return Err(e);
            },
        };
        Ok(okex_parsed == deribit_parsed)
    }

    /// Reads a symbol in the first venue's form.
    pub fn parse_okex_symbol(symbol: &str) -> (r: Result<ParsedInstrument, InstrumentParseError>)
        ensures
            instrument_result_view(r) == okex_symbol(symbol@),
    {
        let parts = split_fields(symbol);
        if parts.len() < 5 {
            return Err(InstrumentParseError::InsufficientComponents);
        }
        proof {
            assert(forall|k: int|
                0 <= k < parts.len() ==> (#[trigger] parts@[k])@ == field_texts(parts@)[k]);
        }
        let expiry_date = match Self::parse_okex_date(parts[2]) {
            Ok(date) => date,
            Err(e) => {
                return Err(e);
            },
        };
        Self::finish(parts[0], expiry_date, parts[3], parts[4])
    }

    /// Reads a symbol in the second venue's form.
    pub fn parse_deribit_symbol(symbol: &str) -> (r: Result<
        ParsedInstrument,
        InstrumentParseError,
    >)
        ensures
            instrument_result_view(r) == deribit_symbol(symbol@),
    {
        let parts = split_fields(symbol);
        if parts.len() < 4 {
            return Err(InstrumentParseError::InsufficientComponents);
        }
        proof {
            assert(forall|k: int|
                0 <= k < parts.len() ==> (#[trigger] parts@[k])@ == field_texts(parts@)[k]);
        }
        let expiry_date = match Self::parse_deribit_date(parts[1]) {
            Ok(date) => date,
            Err(e) => {
                return Err(e);
            },
        };
        Self::finish(parts[0], expiry_date, parts[2], parts[3])
    }

    fn finish(base: &str, expiry_date: ExpiryDate, strike_str: &str, type_str: &str) -> (r: Result<
        ParsedInstrument,
        InstrumentParseError,
    >)
        ensures
            instrument_result_view(r) == instrument_of(
                base@,
                expiry_date,
                strike_str@,
                type_str@,
            ),
    {
        let underlying = uppercase(base);
        let strike = match parse_u32(strike_str) {
            Some(strike) => strike,
            None => {
                return Err(InstrumentParseError::InvalidStrike(String::from_str(strike_str)));
            },
        };
        let letter = uppercase(type_str);
        let option_type = match option_type_from_upper(&letter) {
            Some(option_type) => option_type,
            None => {
                return Err(InstrumentParseError::InvalidOptionType(String::from_str(type_str)));
            },
        };
        Ok(ParsedInstrument { underlying, expiry_date, strike, option_type })
    }

    /// Reads a date written `YYMMDD`.
    pub fn parse_okex_date(date_str: &str) -> (r: Result<ExpiryDate, InstrumentParseError>)
        ensures
            date_result_view(r) == okex_date(date_str@),
    {
        if !date_str.is_ascii() || date_str.unicode_len() != 6 {
            return Err(invalid_format("Expected 6-digit date, got: ", date_str));
        }
        let year_str = date_str.substring_ascii(0, 2);
        let month_str = date_str.substring_ascii(2, 4);
        let day_str = date_str.substring_ascii(4, 6);
        let year = match parse_i32(year_str) {
            Some(year) => year,
            None => {
                return Err(invalid_format("Invalid year: ", year_str));
            },
        };
        let month = match parse_u32(month_str) {
            Some(month) => month,
            None => {
                return Err(invalid_format("Invalid month: ", month_str));
            },
        };
        let day = match parse_u32(day_str) {
            Some(day) => day,
            None => {
                return Err(invalid_format("Invalid day: ", day_str));
            },
        };
        proof {
            lemma_two_characters(month_str@);
            lemma_two_characters(day_str@);
        }
        check_century_date(year, year_str, month, day)
    }

    /// Reads a date written `DDMMMYY`.
    pub fn parse_deribit_date(date_str: &str) -> (r: Result<ExpiryDate, InstrumentParseError>)
        ensures
            date_result_view(r) == deribit_date(date_str@),
    {
        if date_str.unicode_len() < 7 {
            return Err(invalid_format("Expected format DDMMMYY, got: ", date_str));
        }
        let head = date_str.substring_char(0, 7);
        if !head.is_ascii() {
            return Err(invalid_format("Expected format DDMMMYY, got: ", date_str));
        }
        let day_str = head.substring_ascii(0, 2);
        let month_str = head.substring_ascii(2, 5);
        let year_str = head.substring_ascii(5, 7);
        proof {
            assert(day_str@ =~= date_str@.subrange(0, 2));
            assert(month_str@ =~= date_str@.subrange(2, 5));
            assert(year_str@ =~= date_str@.subrange(5, 7));
        }
        let day = match parse_u32(day_str) {
            Some(day) => day,
            None => {
                return Err(invalid_format("Invalid day: ", day_str));
            },
        };
        let year = match parse_i32(year_str) {
            Some(year) => year,
            None => {
                return Err(invalid_format("Invalid year: ", year_str));
            },
        };
        let name = uppercase(month_str);
        let month = match month_from_upper(&name) {
            Some(month) => month,
            None => {
                return Err(invalid_format("Invalid month: ", month_str));
            },
        };
        proof {
            lemma_two_characters(day_str@);
        }
        check_century_date(year, year_str, month, day)
    }
}

} // verus!
