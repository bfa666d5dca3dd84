//! The segment time formatter: renders a time span the way segment times are
//! shown. The fractional part is always shown (to the configured accuracy,
//! truncated), and minutes and hours appear only when needed.
//!
//! Example renderings: empty time `—`, seconds `23.12`, minutes `12:34.98`,
//! hours `12:34:56.12`, negative times `−23.12`.

use vstd::prelude::*;
use vstd::string::StringExecFns;

use crate::timespan::TimeSpan;

verus! {

/// How many digits of the fractional part are shown.
#[derive(Clone, Copy, Debug, PartialEq, Eq, Structural)]
pub enum Accuracy {
    /// No fractional part.
    Seconds,
    /// One digit: tenths of a second.
    Tenths,
    /// Two digits: hundredths of a second.
    Hundredths,
    /// Three digits: milliseconds.
    Milliseconds,
}

/// The character for one decimal digit.
pub open spec fn digit_char(d: int) -> char {
    if d == 0 {
        '0'
    } else if d == 1 {
        '1'
    } else if d == 2 {
        '2'
    } else if d == 3 {
        '3'
    } else if d == 4 {
        '4'
    } else if d == 5 {
        '5'
    } else if d == 6 {
        '6'
    } else if d == 7 {
        '7'
    } else if d == 8 {
        '8'
    } else {
        '9'
    }
}

/// The decimal rendering of `n`, without leading zeros (`0` for zero).
pub open spec fn dec_chars(n: nat) -> Seq<char>
    decreases n,
{
    if n < 10 {
        seq![digit_char(n as int)]
    } else {
        dec_chars(n / 10).push(digit_char((n % 10) as int))
    }
}

/// The decimal rendering of `n`, padded to two digits.
pub open spec fn pad2_chars(n: nat) -> Seq<char> {
    if n < 10 {
        seq!['0', digit_char(n as int)]
    } else {
        dec_chars(n)
    }
}

/// The rendering of the fractional part of a second, `frac` nanoseconds,
/// truncated to the accuracy's digits. Empty for [`Accuracy::Seconds`].
pub open spec fn frac_chars(accuracy: Accuracy, frac: nat) -> Seq<char> {
    match accuracy {
        Accuracy::Seconds => Seq::empty(),
        Accuracy::Tenths => seq!['.', digit_char((frac / 100_000_000) as int)],
        Accuracy::Hundredths => seq![
            '.',
            digit_char((frac / 100_000_000) as int),
            digit_char(((frac / 10_000_000) % 10) as int),
        ],
        Accuracy::Milliseconds => seq![
            '.',
            digit_char((frac / 100_000_000) as int),
            digit_char(((frac / 10_000_000) % 10) as int),
            digit_char(((frac / 1_000_000) % 10) as int),
        ],
    }
}

/// The full segment time rendering of a time (in nanoseconds), or the em dash
/// for an empty time. Hours and minutes appear only when non-zero, the
/// fractional part always (except at whole-second accuracy), and negative
/// times carry a leading minus sign.
pub open spec fn segment_time_chars(time: Option<int>, accuracy: Accuracy) -> Seq<char> {
    match time {
        None => seq!['—'],
        Some(n) => {
            let mag = (if n < 0 {
                -n
            } else {
                n
            }) as nat;
            let total_seconds = mag / 1_000_000_000;
            let frac = mag % 1_000_000_000;
            let seconds = total_seconds % 60;
            let total_minutes = total_seconds / 60;
            let minutes = total_minutes % 60;
            let hours = total_minutes / 60;
            let core = if hours > 0 {
                dec_chars(hours) + seq![':'] + pad2_chars(minutes) + seq![':'] + pad2_chars(
                    seconds,
                ) + frac_chars(accuracy, frac)
            } else if total_minutes > 0 {
                dec_chars(minutes) + seq![':'] + pad2_chars(seconds) + frac_chars(accuracy, frac)
            } else {
                dec_chars(seconds) + frac_chars(accuracy, frac)
            };
            if n < 0 {
                seq!['−'] + core
            } else {
                core
            }
        },
    }
}

/// Appends one decimal digit.
fn push_digit(s: &mut String, d: u64)
    requires
        d < 10,
    ensures
        final(s)@ == old(s)@.push(digit_char(d as int)),
{
    let piece: &str = if d == 0 {
        "0"
    } else if d == 1 {
        "1"
    } else if d == 2 {
        "2"
    } else if d == 3 {
        "3"
    } else if d == 4 {
        "4"
    } else if d == 5 {
        "5"
    } else if d == 6 {
        "6"
    } else if d == 7 {
        "7"
    } else if d == 8 {
        "8"
    } else {
        "9"
    };
    proof {
        reveal_strlit("0");
        reveal_strlit("1");
        reveal_strlit("2");
        reveal_strlit("3");
        reveal_strlit("4");
        reveal_strlit("5");
        reveal_strlit("6");
        reveal_strlit("7");
        reveal_strlit("8");
        reveal_strlit("9");
    }
    s.append(piece);
    proof {
        assert(s@ =~= old(s)@.push(digit_char(d as int)));
    }
}

/// Appends the decimal rendering of `n`.
fn push_dec(s: &mut String, n: u64)
    ensures
        final(s)@ == old(s)@ + dec_chars(n as nat),
    decreases n,
{
    if n < 10 {
        push_digit(s, n);
        proof {
            assert(s@ =~= old(s)@ + dec_chars(n as nat));
        }
    } else {
        push_dec(s, n / 10);
        push_digit(s, n % 10);
        proof {
            assert(s@ =~= old(s)@ + dec_chars(n as nat));
        }
    }
}

/// Appends the two-digit rendering of `n`.
fn push_pad2(s: &mut String, n: u64)
    requires
        n < 100,
    ensures
        final(s)@ == old(s)@ + pad2_chars(n as nat),
{
    if n < 10 {
        proof {
            reveal_strlit("0");
        }
        s.append("0");
        push_digit(s, n);
        proof {
            assert(s@ =~= old(s)@ + pad2_chars(n as nat));
        }
    } else {
        push_dec(s, n);
    }
}

/// Appends the fractional part for the accuracy.
fn push_frac(s: &mut String, accuracy: Accuracy, frac: u64)
    requires
        frac < 1_000_000_000,
    ensures
        final(s)@ == old(s)@ + frac_chars(accuracy, frac as nat),
{
    proof {
        reveal_strlit(".");
    }
    match accuracy {
        Accuracy::Seconds => {
            proof {
                assert(s@ =~= old(s)@ + frac_chars(accuracy, frac as nat));
            }
        },
        Accuracy::Tenths => {
            s.append(".");
            push_digit(s, frac / 100_000_000);
            proof {
                assert(s@ =~= old(s)@ + frac_chars(accuracy, frac as nat));
            }
        },
        Accuracy::Hundredths => {
            s.append(".");
            push_digit(s, frac / 100_000_000);
            push_digit(s, (frac / 10_000_000) % 10);
            proof {
                assert(s@ =~= old(s)@ + frac_chars(accuracy, frac as nat));
            }
        },
        Accuracy::Milliseconds => {
            s.append(".");
            push_digit(s, frac / 100_000_000);
            push_digit(s, (frac / 10_000_000) % 10);
            push_digit(s, (frac / 1_000_000) % 10);
            proof {
                assert(s@ =~= old(s)@ + frac_chars(accuracy, frac as nat));
            }
        },
    }
}

/// A time span paired with the accuracy to render it at; what
/// [`SegmentTime::format`] hands back, ready to be turned into text.
#[derive(Clone, Copy, Debug)]
pub struct Inner {
    time: Option<TimeSpan>,
    accuracy: Accuracy,
}

impl Inner {
    /// The time to render, in nanoseconds, or `None` for the empty time.
    pub closed spec fn spec_time(&self) -> Option<int> {
        match self.time {
            Some(t) => Some(t@),
            None => None,
        }
    }

    /// The accuracy the rendering uses.
    pub closed spec fn spec_accuracy(&self) -> Accuracy {
        self.accuracy
    }

    /// Renders the time as segment-time text.
    #[verifier::rlimit(100)]
    pub fn to_string(&self) -> (r: String)
        ensures
            r@ == segment_time_chars(self.spec_time(), self.spec_accuracy()),
    {
        let mut s = String::new();
        let t = match self.time {
            None => {
                proof {
                    reveal_strlit("—");
                }
                s.append("—");
                proof {
                    assert(s@ =~= segment_time_chars(self.spec_time(), self.spec_accuracy()));
                }
                return s;
            },
            Some(t) => t,
        };
        let nanos = t.total_nanoseconds();
        let mag: u64 = if nanos < 0 {
            (-(nanos as i128)) as u64
        } else {
            nanos as u64
        };
        if nanos < 0 {
            proof {
                reveal_strlit("−");
            }
            s.append("−");
        }
        let ghost prefix = s@;
        let total_seconds = mag / 1_000_000_000;
        let frac = mag % 1_000_000_000;
        let seconds = total_seconds % 60;
        let total_minutes = total_seconds / 60;
        let minutes = total_minutes % 60;
        let hours = total_minutes / 60;
        proof {
            reveal_strlit(":");
        }
        if hours > 0 {
            push_dec(&mut s, hours);
            s.append(":");
            push_pad2(&mut s, minutes);
            s.append(":");
            push_pad2(&mut s, seconds);
            push_frac(&mut s, self.accuracy, frac);
        } else if total_minutes > 0 {
            push_dec(&mut s, minutes);
            s.append(":");
            push_pad2(&mut s, seconds);
            push_frac(&mut s, self.accuracy, frac);
        } else {
            push_dec(&mut s, seconds);
            push_frac(&mut s, self.accuracy, frac);
        }
        proof {
            assert(s@ =~= segment_time_chars(self.spec_time(), self.spec_accuracy()));
        }
        s
    }
}

/// The segment time formatter: always shows the fractional part, shows
/// minutes and hours only when necessary. The default accuracy is hundredths.
#[derive(Clone, Copy, Debug)]
pub struct SegmentTime {
    accuracy: Accuracy,
}

impl SegmentTime {
    /// The accuracy this formatter renders at.
    pub closed spec fn spec_accuracy(&self) -> Accuracy {
        self.accuracy
    }

    /// A formatter that shows hundredths.
    pub fn new() -> (r: Self)
        ensures
            r.spec_accuracy() == Accuracy::Hundredths,
    {
        SegmentTime { accuracy: Accuracy::Hundredths }
    }

    /// A formatter that shows the fractional part at the given accuracy.
    pub fn with_accuracy(accuracy: Accuracy) -> (r: Self)
        ensures
            r.spec_accuracy() == accuracy,
    {
        SegmentTime { accuracy }
    }

    /// Pairs a time with this formatter's accuracy, ready for rendering.
    pub fn format(&self, time: TimeSpan) -> (r: Inner)
        ensures
            r.spec_time() == Some(time@),
            r.spec_accuracy() == self.spec_accuracy(),
    {
        Inner { time: Some(time), accuracy: self.accuracy }
    }

    /// Like [`SegmentTime::format`], for a possibly empty time.
    pub fn format_option(&self, time: Option<TimeSpan>) -> (r: Inner)
        ensures
            time matches Some(t) ==> r.spec_time() == Some(t@),
            time is None ==> r.spec_time() is None,
            r.spec_accuracy() == self.spec_accuracy(),
    {
        Inner { time, accuracy: self.accuracy }
    }
}

impl Default for SegmentTime {
    /// The default formatter shows hundredths, as [`SegmentTime::new`] does.
    fn default() -> (r: Self)
        ensures
            r.spec_accuracy() == Accuracy::Hundredths,
    {
        SegmentTime::new()
    }
}

} // verus!
