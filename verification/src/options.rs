//! What the user asks of the program when starting it.
use crate::text::decimal_view;
use crate::time::Seconds;
use vstd::prelude::*;

verus! {

/// The file in the data directory that holds the feeds, where the user names no other.
pub const DATABASE_FILE: &'static str = "feeds.db";

/// The name under which the data directory is looked up.
pub const APPLICATION: &'static str = "russ";

/// What the user asked for. `P` is what names a file.
///
/// Only used to take input at the boundary. Turned into `ValidatedOptions` with `validate`.
#[derive(Debug)]
pub enum Command<P> {
    /// Read your feeds.
    Read {
        /// Where feeds are stored, where not in the data directory.
        database_path: Option<P>,
        /// Time in milliseconds between two ticks.
        tick_rate: u64,
        /// How long a flash message is shown before it is cleared.
        flash_display_duration_seconds: Seconds,
        /// How long a request may take.
        network_timeout: Seconds,
    },
    /// Import feeds from an OPML document.
    Import {
        /// Where feeds are stored, where not in the data directory.
        database_path: Option<P>,
        opml_path: P,
        /// How long a request may take.
        network_timeout: Seconds,
    },
}

/// Options for the reader, all of them settled.
#[derive(Debug)]
pub struct ReadOptions<P> {
    pub database_path: P,
    pub tick_rate: u64,
    pub flash_display_duration_seconds: Seconds,
    pub network_timeout: Seconds,
}

/// Options for an import, all of them settled.
#[derive(Debug)]
pub struct ImportOptions<P> {
    pub database_path: P,
    pub opml_path: P,
    pub network_timeout: Seconds,
}

/// Options, all of them settled.
#[derive(Debug)]
pub enum ValidatedOptions<P> {
    Read(ReadOptions<P>),
    Import(ImportOptions<P>),
}

impl<P> ValidatedOptions<P> {
    /// The file to store feeds in.
    pub open spec fn database_path(self) -> P {
        match self {
            ValidatedOptions::Read(o) => o.database_path,
            ValidatedOptions::Import(o) => o.database_path,
        }
    }
}

/// Whether `r` is the file to store feeds in: the one that the user named, and where none was
/// named, the one that `locate` came to.
pub open spec fn is_database_path<P: Clone, E, F: FnOnce() -> Result<P, E>>(
    database_path: Option<P>,
    locate: F,
    r: Result<P, E>,
) -> bool {
    match database_path {
        Some(path) => r matches Ok(p) && cloned(path, p),
        None => locate.ensures((), r),
    }
}

/// The file to store feeds in. `locate` finds the one in the data directory; it is called only
/// where the user named none.
pub fn get_database_path<P: Clone, E, F: FnOnce() -> Result<P, E>>(
    database_path: &Option<P>,
    locate: F,
) -> (r: Result<P, E>)
    requires
        database_path is None ==> locate.requires(()),
    ensures
        is_database_path(*database_path, locate, r),
{
    match database_path {
        Some(path) => Ok(path.clone()),
        None => locate(),
    }
}

impl<P> Command<P> {
    /// The file that the user named to store feeds in.
    pub open spec fn named_database_path(self) -> Option<P> {
        match self {
            Command::Read { database_path, .. } => database_path,
            Command::Import { database_path, .. } => database_path,
        }
    }
}

impl<P: Clone> Command<P> {
    /// Whether `options` say what this command says, wherever they store feeds.
    pub open spec fn settled_as(self, options: ValidatedOptions<P>) -> bool {
        match self {
            Command::Read {
                tick_rate,
                flash_display_duration_seconds,
                network_timeout,
                ..
            } => options == ValidatedOptions::Read(
                ReadOptions {
                    database_path: options.database_path(),
                    tick_rate,
                    flash_display_duration_seconds,
                    network_timeout,
                },
            ),
            Command::Import { opml_path, network_timeout, .. } => {
                &&& options matches ValidatedOptions::Import(o)
                &&& cloned(opml_path, o.opml_path)
                &&& o.network_timeout == network_timeout
            },
        }
    }

    /// Settles the options: the file to store feeds in is found out, and the rest stays as it
    /// is. `locate` finds that file in the data directory; it is called only where the user
    /// named none, and where it fails, so does this.
    pub fn validate<E, F: FnOnce() -> Result<P, E>>(&self, locate: F) -> (r: Result<
        ValidatedOptions<P>,
        E,
    >)
        requires
            self.named_database_path() is None ==> locate.requires(()),
        ensures
            match r {
                Ok(options) => self.settled_as(options) && is_database_path(
                    self.named_database_path(),
                    locate,
                    Ok::<P, E>(options.database_path()),
                ),
                Err(e) => is_database_path(self.named_database_path(), locate, Err::<P, E>(e)),
            },
    {
        match self {
            Command::Read {
                database_path,
                tick_rate,
                flash_display_duration_seconds,
                network_timeout,
            } => match get_database_path(database_path, locate) {
                Ok(path) => Ok(
                    ValidatedOptions::Read(
                        ReadOptions {
                            database_path: path,
                            tick_rate: *tick_rate,
                            flash_display_duration_seconds: *flash_display_duration_seconds,
                            network_timeout: *network_timeout,
                        },
                    ),
                ),
                Err(e) => Err(e),
            },
            Command::Import { database_path, opml_path, network_timeout } => match get_database_path(
                database_path,
                locate,
            ) {
                Ok(path) => Ok(
                    ValidatedOptions::Import(
                        ImportOptions {
                            database_path: path,
                            opml_path: opml_path.clone(),
                            network_timeout: *network_timeout,
                        },
                    ),
                ),
                Err(e) => Err(e),
            },
        }
    }
}

/// Why a text is no number of seconds.
#[derive(Clone, Copy, Debug, PartialEq, Eq, Structural)]
pub enum SecondsError {
    /// The text is empty.
    Empty,
    /// A character is no digit, or there is no digit behind a sign.
    InvalidDigit,
    /// The number is too large.
    Overflow,
}

/// What the user is told of an error.
pub open spec fn seconds_error_message(e: SecondsError) -> Seq<char> {
    match e {
        SecondsError::Empty => "cannot parse integer from empty string"@,
        SecondsError::InvalidDigit => "invalid digit found in string"@,
        SecondsError::Overflow => "number too large to fit in target type"@,
    }
}

impl SecondsError {
    /// The text that the user is told.
    pub fn message(&self) -> (s: String)
        ensures
            s@ == seconds_error_message(*self),
    {
        match self {
            SecondsError::Empty => "cannot parse integer from empty string".to_owned(),
            SecondsError::InvalidDigit => "invalid digit found in string".to_owned(),
            SecondsError::Overflow => "number too large to fit in target type".to_owned(),
        }
    }
}

/// Whether a character is a decimal digit.
pub open spec fn is_digit(c: char) -> bool {
    '0' <= c <= '9'
}

/// Whether a text is made of digits.
pub open spec fn all_digits(digits: Seq<char>) -> bool {
    forall|i: int| 0 <= i < digits.len() ==> is_digit(#[trigger] digits[i])
}

/// The number that a row of decimal digits stands for.
pub open spec fn digits_value(digits: Seq<char>) -> nat
    decreases digits.len(),
{
    if digits.len() == 0 {
        0
    } else {
        10 * digits_value(digits.drop_last()) + (digits.last() as nat - 48) as nat
    }
}

/// The error of the first character, read from the left, at which a row of characters stops
/// being the digits of a number that fits: it is no digit, or it makes the number too large.
pub open spec fn first_error(chars: Seq<char>) -> Option<SecondsError>
    decreases chars.len(),
{
    if chars.len() == 0 {
        None
    } else if first_error(chars.drop_last()) is Some {
        first_error(chars.drop_last())
    } else if !is_digit(chars.last()) {
        Some(SecondsError::InvalidDigit)
    } else if digits_value(chars) > u64::MAX {
        Some(SecondsError::Overflow)
    } else {
        None
    }
}

/// The digits of a text: what is behind a plus sign, if it has one.
pub open spec fn digits_in(text: Seq<char>) -> Seq<char> {
    if text.len() > 0 && text[0] == '+' {
        text.skip(1)
    } else {
        text
    }
}

/// The number that a text gives in decimal: digits, with or without a plus sign before them.
pub open spec fn number_in(text: Seq<char>) -> Result<u64, SecondsError> {
    if text.len() == 0 {
        Err(SecondsError::Empty)
    } else if digits_in(text).len() == 0 {
        Err(SecondsError::InvalidDigit)
    } else {
        match first_error(digits_in(text)) {
            Some(e) => Err(e),
            None => Ok(digits_value(digits_in(text)) as u64),
        }
    }
}

proof fn lemma_error_stays(chars: Seq<char>, i: int)
    requires
        0 <= i <= chars.len(),
        first_error(chars.take(i)) is Some,
    ensures
        first_error(chars) == first_error(chars.take(i)),
    decreases chars.len(),
{
    if i < chars.len() {
        assert(chars.drop_last().take(i) =~= chars.take(i));
        lemma_error_stays(chars.drop_last(), i);
    } else {
        assert(chars.take(i) =~= chars);
    }
}

/// Reads a number of seconds.
pub fn parse_seconds(s: &str) -> (r: Result<Seconds, SecondsError>)
    ensures
        r == match number_in(s@) {
            Ok(n) => Ok::<Seconds, SecondsError>(Seconds(n)),
            Err(e) => Err(e),
        },
{
    let mut chars: Vec<char> = Vec::new();
    for c in it: s.chars()
        invariant
            it.seq() == s@,
            chars@ =~= s@.take(it.index() as int),
    {
        chars.push(c);
    }
    proof {
        assert(chars@ =~= s@);
    }
    if chars.len() == 0 {
        return Err(SecondsError::Empty);
    }
    let start: usize = if chars[0] == '+' {
        1
    } else {
        0
    };
    let ghost digits = digits_in(s@);
    proof {
        assert(digits =~= s@.skip(start as int));
    }
    if start == chars.len() {
        return Err(SecondsError::InvalidDigit);
    }
    let mut value: u64 = 0;
    proof {
        assert(digits.take(0) =~= Seq::empty());
    }
    for i in start..chars.len()
        invariant
            chars@ == s@,
            start <= 1,
            start <= chars.len(),
            digits == s@.skip(start as int),
            digits == digits_in(s@),
            digits.len() > 0,
            first_error(digits.take(i - start)) is None,
            value == digits_value(digits.take(i - start)),
    {
        let c: char = chars[i];
        let ghost here = digits.take(i - start + 1);
        proof {
            assert(here.drop_last() =~= digits.take(i - start));
            assert(here.last() == c);
        }
        if !('0' <= c && c <= '9') {
            proof {
                lemma_error_stays(digits, i - start + 1);
            }
            return Err(SecondsError::InvalidDigit);
        }
        let d: u64 = (c as u32 - 48) as u64;
        if value > (u64::MAX - d) / 10 {
            proof {
                lemma_error_stays(digits, i - start + 1);
            }
            return Err(SecondsError::Overflow);
        }
        value = value * 10 + d;
    }
    proof {
        assert(digits.take(digits.len() as int) =~= digits);
    }
    Ok(Seconds(value))
}

proof fn lemma_prefix_value(digits: Seq<char>)
    requires
        digits.len() > 0,
        all_digits(digits),
    ensures
        digits_value(digits.drop_last()) <= digits_value(digits),
{
    assert(is_digit(digits.last()));
}

proof fn lemma_no_error(digits: Seq<char>)
    ensures
        first_error(digits) is None <==> all_digits(digits) && digits_value(digits) <= u64::MAX,
    decreases digits.len(),
{
    if digits.len() > 0 {
        let shorter = digits.drop_last();
        lemma_no_error(shorter);
        if all_digits(digits) {
            lemma_prefix_value(digits);
            assert forall|i: int| 0 <= i < shorter.len() implies is_digit(#[trigger] shorter[i]) by {
                assert(is_digit(digits[i]));
            }
        } else if all_digits(shorter) && is_digit(digits.last()) {
            assert forall|i: int| 0 <= i < digits.len() implies is_digit(#[trigger] digits[i]) by {
                if i < shorter.len() {
                    assert(is_digit(shorter[i]));
                }
            }
        }
    }
}

/// A text is a number exactly where it has a digit, has nothing but digits behind at most one
/// plus sign, and the number they stand for fits; it is that number.
pub proof fn law_numbers_are_digits(text: Seq<char>)
    ensures
        number_in(text) is Ok <==> digits_in(text).len() > 0 && all_digits(digits_in(text))
            && digits_value(digits_in(text)) <= u64::MAX,
        number_in(text) matches Ok(n) ==> n == digits_value(digits_in(text)),
{
    lemma_no_error(digits_in(text));
}

proof fn lemma_decimal_reads_back(n: nat)
    ensures
        decimal_view(n).len() > 0,
        all_digits(decimal_view(n)),
        digits_value(decimal_view(n)) == n,
    decreases n,
{
    reveal_with_fuel(digits_value, 2);
    let s = decimal_view(n);
    if n < 10 {
        assert(s.drop_last() =~= Seq::<char>::empty());
    } else {
        lemma_decimal_reads_back(n / 10);
        let shorter = decimal_view(n / 10);
        assert(s.drop_last() =~= shorter);
        assert forall|i: int| 0 <= i < s.len() implies is_digit(#[trigger] s[i]) by {
            if i < shorter.len() {
                assert(is_digit(shorter[i]));
            }
        }
    }
}

/// A number that was written in decimal reads back.
pub proof fn law_decimal_reads_back(n: u64)
    ensures
        number_in(decimal_view(n as nat)) == Ok::<u64, SecondsError>(n),
{
    let s = decimal_view(n as nat);
    lemma_decimal_reads_back(n as nat);
    assert(is_digit(s[0]));
    lemma_no_error(s);
}

} // verus!
