//! `dpinger`: latency and loss of the gateways, one line for each, read
//! from the monitors' sockets.

use vstd::prelude::*;
use vstd::string::StrSliceExecFns;

use crate::text::{bounds_of_split, chars_of, parse_decimal, parse_unsigned, split, split_bounds};

verus! {

/// What one monitor reports.
#[derive(Debug)]
pub struct Statistics {
    pub name: String,
    /// Microseconds.
    pub latency_average: u64,
    /// Microseconds.
    pub latency_stddev: u64,
    /// Percent.
    pub ping_packet_loss: u64,
}

/// A `Statistics` as plain values.
pub struct StatisticsView {
    pub name: Seq<char>,
    pub latency_average: u64,
    pub latency_stddev: u64,
    pub ping_packet_loss: u64,
}

/// Why a line could not be decoded.
#[derive(Clone, Copy, Debug, PartialEq, Eq, Structural)]
pub enum DpingerError {
    /// The line has fewer than four fields.
    Malformed,
    /// A field that should be a number is none.
    InvalidNumber,
}

impl View for Statistics {
    type V = StatisticsView;

    open spec fn view(&self) -> StatisticsView {
        StatisticsView {
            name: self.name@,
            latency_average: self.latency_average,
            latency_stddev: self.latency_stddev,
            ping_packet_loss: self.ping_packet_loss,
        }
    }
}

/// The command line that reads every monitor's socket.
pub fn command() -> (c: &'static str)
    ensures
        c@ == "sh -c 'for f in /var/run/dpinger_*.sock; do /usr/bin/nc -U \"$f\" 2>/dev/null || :; done'"@,
{
    "sh -c 'for f in /var/run/dpinger_*.sock; do /usr/bin/nc -U \"$f\" 2>/dev/null || :; done'"
}

/// The number in field `k` of a line.
pub open spec fn number_field(fields: Seq<Seq<char>>, k: int) -> Result<u64, DpingerError> {
    if fields.len() <= k {
        Err(DpingerError::Malformed)
    } else {
        match parse_unsigned(fields[k], u64::MAX as nat) {
            Some(n) => Ok(n as u64),
            None => Err(DpingerError::InvalidNumber),
        }
    }
}

/// What a line denotes: name, average latency, its standard deviation and
/// the packet loss, separated by single spaces. The fields are read in
/// this order and the first one that is missing or no number decides the
/// error; what follows the fourth field is ignored.
pub open spec fn parsed_line(line: Seq<char>) -> Result<StatisticsView, DpingerError> {
    let fields = split(line, ' ');
    match number_field(fields, 1) {
        Err(err) => Err(err),
        Ok(latency_average) => match number_field(fields, 2) {
            Err(err) => Err(err),
            Ok(latency_stddev) => match number_field(fields, 3) {
                Err(err) => Err(err),
                Ok(ping_packet_loss) => Ok(
                    StatisticsView {
                        name: fields[0],
                        latency_average,
                        latency_stddev,
                        ping_packet_loss,
                    },
                ),
            },
        },
    }
}

/// What a list of lines denotes, or the error of the first line that
/// cannot be decoded.
pub open spec fn parsed_lines(lines: Seq<String>) -> Result<Seq<StatisticsView>, DpingerError>
    decreases lines.len(),
{
    if lines.len() == 0 {
        Ok(Seq::empty())
    } else {
        match parsed_lines(lines.drop_last()) {
            Err(err) => Err(err),
            Ok(front) => match parsed_line(lines.last()@) {
                Err(err) => Err(err),
                Ok(statistics) => Ok(front.push(statistics)),
            },
        }
    }
}

/// The views of a list of statistics.
pub open spec fn views(list: Seq<Statistics>) -> Seq<StatisticsView> {
    Seq::new(list.len(), |i: int| list[i]@)
}

fn read_number(chars: &[char], bounds: &Vec<(usize, usize)>, k: usize) -> (r: Result<
    u64,
    DpingerError,
>)
    requires
        exists|sep: char| bounds_of_split(chars@, sep, bounds@),
    ensures
        forall|sep: char|
            bounds_of_split(chars@, sep, bounds@) ==> r == number_field(
                split(chars@, sep),
                k as int,
            ),
{
    if bounds.len() <= k {
        return Err(DpingerError::Malformed);
    }
    let (a, b) = bounds[k];
    match parse_decimal(chars, a, b, u64::MAX) {
        Some(n) => Ok(n),
        None => Err(DpingerError::InvalidNumber),
    }
}

/// Decodes one line.
pub fn parse_line(line: &str) -> (r: Result<Statistics, DpingerError>)
    ensures
        match r {
            Ok(statistics) => parsed_line(line@) == Ok::<StatisticsView, DpingerError>(
                statistics@,
            ),
            Err(err) => parsed_line(line@) == Err::<StatisticsView, DpingerError>(err),
        },
{
    let chars: Vec<char> = chars_of(line);
    let bounds: Vec<(usize, usize)> = split_bounds(chars.as_slice(), ' ');
    let latency_average: u64 = match read_number(chars.as_slice(), &bounds, 1) {
        Ok(n) => n,
        Err(err) => {
            return Err(err);
        },
    };
    let latency_stddev: u64 = match read_number(chars.as_slice(), &bounds, 2) {
        Ok(n) => n,
        Err(err) => {
            return Err(err);
        },
    };
    let ping_packet_loss: u64 = match read_number(chars.as_slice(), &bounds, 3) {
        Ok(n) => n,
        Err(err) => {
            return Err(err);
        },
    };
    let (a, b) = bounds[0];
    let name: String = line.substring_char(a, b).to_owned();
    Ok(Statistics { name, latency_average, latency_stddev, ping_packet_loss })
}

/// Decodes the lines that the command printed.
pub fn get_statistics(lines: &Vec<String>) -> (r: Result<Vec<Statistics>, DpingerError>)
    ensures
        match r {
            Ok(list) => parsed_lines(lines@) == Ok::<Seq<StatisticsView>, DpingerError>(
                views(list@),
            ),
            Err(err) => parsed_lines(lines@) == Err::<Seq<StatisticsView>, DpingerError>(err),
        },
{
    let mut list: Vec<Statistics> = Vec::new();
    let mut i: usize = 0;
    assert(views(list@) =~= Seq::<StatisticsView>::empty());
    while i < lines.len()
        invariant
            i <= lines@.len(),
            parsed_lines(lines@.take(i as int)) == Ok::<Seq<StatisticsView>, DpingerError>(
                views(list@),
            ),
        decreases lines@.len() - i,
    {
        assert(lines@.take(i + 1).drop_last() =~= lines@.take(i as int));
        let ghost before = views(list@);
        match parse_line(lines[i].as_str()) {
            Ok(statistics) => {
                let ghost added = statistics@;
                list.push(statistics);
                assert(views(list@) =~= before.push(added));
            },
            Err(err) => {
                proof {
                    lemma_error_stays(lines@, i + 1);
                }
                return Err(err);
            },
        }
        i = i + 1;
    }
    assert(lines@.take(i as int) =~= lines@);
    Ok(list)
}

/// The first line that cannot be decoded decides the result.
proof fn lemma_error_stays(lines: Seq<String>, k: int)
    requires
        0 <= k <= lines.len(),
        parsed_lines(lines.take(k)) is Err,
    ensures
        parsed_lines(lines) == parsed_lines(lines.take(k)),
    decreases lines.len() - k,
{
    if k < lines.len() {
        assert(lines.take(k + 1).drop_last() =~= lines.take(k));
        lemma_error_stays(lines, k + 1);
    } else {
        assert(lines.take(k) =~= lines);
    }
}

} // verus!
