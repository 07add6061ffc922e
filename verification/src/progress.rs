//! Progress events of a scan and the summary that ends it.

use vstd::prelude::*;
use vstd::string::*;

verus! {

/// The character of the decimal digit `d`.
pub open spec fn digit_char(d: nat) -> char {
    ((d + 48) as u8) as char
}

/// `n` written in decimal, without leading zeros.
pub open spec fn decimal(n: nat) -> Seq<char>
    decreases n,
{
    if n < 10 {
        seq![digit_char(n)]
    } else {
        decimal(n / 10).push(digit_char(n % 10))
    }
}

/// The one-character string of a decimal digit.
fn digit_str(d: u64) -> (r: &'static str)
    requires
        d < 10,
    ensures
        r@ == seq![digit_char(d as nat)],
{
    proof {
        reveal_strlit("0");
        reveal_strlit("1");
        reveal_strlit("2");
        reveal_strlit("3");
        reveal_strlit("4");
        reveal_strlit("5");
        reveal_strlit("6");
        reveal_strlit("7");
        reveal_strlit("8");
        reveal_strlit("9");
    }
    let r = if d == 0 {
        "0"
    } else if d == 1 {
        "1"
    } else if d == 2 {
        "2"
    } else if d == 3 {
        "3"
    } else if d == 4 {
        "4"
    } else if d == 5 {
        "5"
    } else if d == 6 {
        "6"
    } else if d == 7 {
        "7"
    } else if d == 8 {
        "8"
    } else {
        "9"
    };
    assert(r@ =~= seq![digit_char(d as nat)]);
    r
}

/// `n` written in decimal.
pub fn decimal_string(n: u64) -> (r: String)
    ensures
        r@ == decimal(n as nat),
    decreases n,
{
    if n < 10 {
        String::from_str(digit_str(n))
    } else {
        let mut r = decimal_string(n / 10);
        r.append(digit_str(n % 10));
        assert(r@ =~= decimal(n as nat));
        r
    }
}

/// What an event carries to its listener.
#[derive(Debug, PartialEq, Eq)]
pub struct Payload {
    pub message: String,
}

impl Clone for Payload {
    fn clone(&self) -> (r: Self)
        ensures
            r == *self,
    {
        Payload { message: self.message.clone() }
    }
}

/// One progress event of a scan.
#[derive(Debug, PartialEq, Eq)]
pub enum ProgressEvent {
    /// Announces, before any file is read, how many audio files there are.
    TotalSongs(usize),
    /// Reports the path of a file that was read and registered.
    SongRegistered(String),
}

/// Mathematical value of a [`ProgressEvent`].
pub ghost enum Progress {
    TotalSongs(nat),
    SongRegistered(Seq<char>),
}

impl View for ProgressEvent {
    type V = Progress;

    open spec fn view(&self) -> Progress {
        match self {
            ProgressEvent::TotalSongs(n) => Progress::TotalSongs(*n as nat),
            ProgressEvent::SongRegistered(p) => Progress::SongRegistered(p@),
        }
    }
}

/// The name under which an event is emitted.
pub open spec fn event_name(e: Progress) -> Seq<char> {
    match e {
        Progress::TotalSongs(_) => "total_songs"@,
        Progress::SongRegistered(_) => "song_registered"@,
    }
}

/// The message that an event carries: the count in decimal, or the path.
pub open spec fn event_message(e: Progress) -> Seq<char> {
    match e {
        Progress::TotalSongs(n) => decimal(n),
        Progress::SongRegistered(p) => p,
    }
}

impl ProgressEvent {
    /// The name under which the event is emitted.
    pub fn name(&self) -> (r: String)
        ensures
            r@ == event_name(self@),
    {
        match self {
            ProgressEvent::TotalSongs(_) => String::from_str("total_songs"),
            ProgressEvent::SongRegistered(_) => String::from_str("song_registered"),
        }
    }

    /// The payload that the event carries.
    pub fn payload(&self) -> (r: Payload)
        ensures
            r.message@ == event_message(self@),
    {
        match self {
            ProgressEvent::TotalSongs(n) => Payload { message: decimal_string(*n as u64) },
            ProgressEvent::SongRegistered(p) => Payload { message: p.clone() },
        }
    }
}

/// The sentence that reports a scan: how many songs were registered and, if
/// any, how many files could not be read.
pub open spec fn summary_text(successful: nat, failed: nat) -> Seq<char> {
    let head = "Registered "@ + decimal(successful) + " songs"@;
    if failed > 0 {
        head + ", "@ + decimal(failed) + " could not be read"@
    } else {
        head
    }
}

/// The sentence that reports a scan.
pub fn summary(successful: usize, failed: usize) -> (r: String)
    ensures
        r@ == summary_text(successful as nat, failed as nat),
{
    let mut r = String::from_str("Registered ");
    r.append(decimal_string(successful as u64).as_str());
    r.append(" songs");
    if failed > 0 {
        r.append(", ");
        r.append(decimal_string(failed as u64).as_str());
        r.append(" could not be read");
    }
    r
}

} // verus!
