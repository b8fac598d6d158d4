//! Rendering playback times for a footer readout: the position as m:ss, and
//! the time left in the current track.

use crate::media::MediaMetaData;
use vstd::prelude::*;
use vstd::string::StringExecFns;

verus! {

/// The decimal digit characters.
pub open spec fn digit_char(d: int) -> char {
    if d == 0 {
        '0'
    } else if d == 1 {
        '1'
    } else if d == 2 {
        '2'
    } else if d == 3 {
        '3'
    } else if d == 4 {
        '4'
    } else if d == 5 {
        '5'
    } else if d == 6 {
        '6'
    } else if d == 7 {
        '7'
    } else if d == 8 {
        '8'
    } else {
        '9'
    }
}

/// A number written in decimal, most significant digit first.
pub open spec fn decimal(n: nat) -> Seq<char>
    decreases n,
{
    if n < 10 {
        seq![digit_char(n as int)]
    } else {
        decimal(n / 10) + seq![digit_char((n % 10) as int)]
    }
}

/// Seconds padded to two digits.
pub open spec fn two_digit(n: nat) -> Seq<char> {
    if n < 10 {
        seq!['0'] + decimal(n)
    } else {
        decimal(n)
    }
}

/// Whole seconds in the clock shape m:ss, the seconds zero-padded.
pub open spec fn clock_text(total_seconds: nat) -> Seq<char> {
    decimal(total_seconds / 60) + seq![':'] + two_digit(total_seconds % 60)
}

/// The seconds left of a track, never below the start nor past the length.
pub open spec fn time_left_secs(duration: nat, progress_s: nat) -> nat {
    if progress_s > duration {
        0
    } else {
        (duration - progress_s) as nat
    }
}

/// A track's length in whole seconds, missing read as zero.
pub open spec fn duration_or_zero(meta: MediaMetaData) -> nat {
    match meta.duration {
        Some(d) => d as nat,
        None => 0,
    }
}

fn digit_str(d: u64) -> (r: &'static str)
    requires
        d < 10,
    ensures
        r@ == seq![digit_char(d as int)],
{
    match d {
        0 => {
            proof {
                reveal_strlit("0");
                assert("0"@ =~= seq![digit_char(0)]);
            }
            "0"
        },
        1 => {
            proof {
                reveal_strlit("1");
                assert("1"@ =~= seq![digit_char(1)]);
            }
            "1"
        },
        2 => {
            proof {
                reveal_strlit("2");
                assert("2"@ =~= seq![digit_char(2)]);
            }
            "2"
        },
        3 => {
            proof {
                reveal_strlit("3");
                assert("3"@ =~= seq![digit_char(3)]);
            }
            "3"
        },
        4 => {
            proof {
                reveal_strlit("4");
                assert("4"@ =~= seq![digit_char(4)]);
            }
            "4"
        },
        5 => {
            proof {
                reveal_strlit("5");
                assert("5"@ =~= seq![digit_char(5)]);
            }
            "5"
        },
        6 => {
            proof {
                reveal_strlit("6");
                assert("6"@ =~= seq![digit_char(6)]);
            }
            "6"
        },
        7 => {
            proof {
                reveal_strlit("7");
                assert("7"@ =~= seq![digit_char(7)]);
            }
            "7"
        },
        8 => {
            proof {
                reveal_strlit("8");
                assert("8"@ =~= seq![digit_char(8)]);
            }
            "8"
        },
        _ => {
            proof {
                reveal_strlit("9");
                assert("9"@ =~= seq![digit_char(9)]);
            }
            "9"
        },
    }
}

/// A number rendered in decimal.
pub fn u64_to_decimal(n: u64) -> (r: String)
    ensures
        r@ == decimal(n as nat),
    decreases n,
{
    if n < 10 {
        digit_str(n).to_owned()
    } else {
        let mut s = u64_to_decimal(n / 10);
        s.append(digit_str(n % 10));
        s
    }
}

/// Whole seconds rendered in the clock shape m:ss.
pub fn clock_string(total_seconds: u64) -> (r: String)
    ensures
        r@ == clock_text(total_seconds as nat),
{
    let minutes = total_seconds / 60;
    let seconds = total_seconds % 60;
    let mut s = u64_to_decimal(minutes);
    s.append(":");
    proof {
        reveal_strlit(":");
        assert(":"@ =~= seq![':']);
    }
    if seconds < 10 {
        s.append("0");
        proof {
            reveal_strlit("0");
            assert("0"@ =~= seq!['0']);
        }
    }
    let sec = u64_to_decimal(seconds);
    s.append(sec.as_str());
    proof {
        assert(s@ =~= clock_text(total_seconds as nat));
    }
    s
}

/// The playback position, in milliseconds, as the footer shows it: m:ss of
/// the whole seconds played.
pub fn display_playback_progress(progress_ms: u64) -> (r: String)
    ensures
        r@ == clock_text((progress_ms / 1000) as nat),
{
    clock_string(progress_ms / 1000)
}

/// The time left of the playing track, as the footer shows it: a minus sign
/// and m:ss of the seconds left, clamped between the track's start and its
/// length; a fixed placeholder where nothing is playing.
pub fn display_time_left(now_playing: &Option<MediaMetaData>, progress_ms: u64) -> (r: String)
    ensures
        now_playing is None ==> r@ == "-0.00"@,
        now_playing matches Some(meta) ==> r@ == seq!['-'] + clock_text(
            time_left_secs(duration_or_zero(*meta), (progress_ms / 1000) as nat),
        ),
{
    match now_playing {
        None => "-0.00".to_owned(),
        Some(meta) => {
            let duration: u64 = match meta.duration {
                Some(d) => d,
                None => 0,
            };
            let progress_s = progress_ms / 1000;
            let left: u64 = if progress_s > duration {
                0
            } else {
                duration - progress_s
            };
            let mut s = "-".to_owned();
            proof {
                reveal_strlit("-");
                assert("-"@ =~= seq!['-']);
            }
            let clock = clock_string(left);
            s.append(clock.as_str());
            s
        },
    }
}

} // verus!
