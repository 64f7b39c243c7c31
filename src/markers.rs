//! Stream markers: which marker to place as attempts start and end, and what
//! the library keeps of the streaming service's answers.

use vstd::prelude::*;

verus! {

/// A marker placed in a live stream, as the streaming service reports it.
pub struct Marker {
    pub id: String,
    pub created_at: String,
    pub description: String,
    pub position_seconds: i32,
}

/// The decimal digit `d`, for `d < 10`.
pub open spec fn digit_char(d: nat) -> char {
    seq!['0', '1', '2', '3', '4', '5', '6', '7', '8', '9'][d as int]
}

/// The decimal numeral of `n`, without leading zeros.
pub open spec fn decimal(n: nat) -> Seq<char>
    decreases n,
{
    if n < 10 {
        seq![digit_char(n)]
    } else {
        decimal(n / 10).push(digit_char(n % 10))
    }
}

/// The one-character string of the decimal digit `d`.
fn digit_str(d: u32) -> (r: &'static str)
    requires
        d < 10,
    ensures
        r@ == seq![digit_char(d as nat)],
{
    proof {
        reveal_strlit("0");
        reveal_strlit("1");
        reveal_strlit("2");
        reveal_strlit("3");
        reveal_strlit("4");
        reveal_strlit("5");
        reveal_strlit("6");
        reveal_strlit("7");
        reveal_strlit("8");
        reveal_strlit("9");
    }
    match d {
        0 => "0",
        1 => "1",
        2 => "2",
        3 => "3",
        4 => "4",
        5 => "5",
        6 => "6",
        7 => "7",
        8 => "8",
        _ => "9",
    }
}

/// Appends the decimal numeral of `n` to `s`.
fn append_decimal(s: &mut String, n: u32)
    ensures
        final(s)@ == old(s)@ + decimal(n as nat),
    decreases n,
{
    if n >= 10 {
        append_decimal(s, n / 10);
    }
    s.append(digit_str(n % 10));
    proof {
        if n >= 10 {
            assert(decimal(n as nat) == decimal((n / 10) as nat).push(digit_char((n % 10) as nat)));
        }
    }
    assert(s@ =~= old(s)@ + decimal(n as nat));
}

/// The description of an attempt: `attempt <count> in <run name>`.
pub open spec fn attempt_description(attempt_count: u32, run_name: Seq<char>) -> Seq<char> {
    "attempt "@ + decimal(attempt_count as nat) + " in "@ + run_name
}

/// The text of an optional string.
pub open spec fn text_of(s: Option<String>) -> Option<Seq<char>> {
    match s {
        Some(t) => Some(t@),
        None => None,
    }
}

/// One tick of a marker session: from the description of the attempt under
/// way (if any) and whether the timer runs, the marker due (if any) and the
/// new description.
pub open spec fn tick_spec(
    running: Option<Seq<char>>,
    timer_running: bool,
    attempt_count: u32,
    run_name: Seq<char>,
) -> (Option<Seq<char>>, Option<Seq<char>>) {
    match running {
        Some(d) => if timer_running {
            (None, Some(d))
        } else {
            (Some("End of "@ + d), None)
        },
        None => if timer_running {
            (
                Some("Start of "@ + attempt_description(attempt_count, run_name)),
                Some(attempt_description(attempt_count, run_name)),
            )
        } else {
            (None, None)
        },
    }
}

/// Tracks whether an attempt is under way, to mark its start and its end.
pub struct MarkerSession {
    /// The description of the attempt under way, if any.
    pub running: Option<String>,
}

impl MarkerSession {
    /// A session with no attempt under way.
    pub fn new() -> (r: Self)
        ensures
            r.running is None,
    {
        MarkerSession { running: None }
    }

    /// Takes the timer's state for one tick and gives the description of the
    /// marker to place, if one is due: `Start of <attempt>` when an attempt
    /// begins, `End of <attempt>` when the timer stops running after one.
    pub fn tick(&mut self, timer_running: bool, attempt_count: u32, run_name: &str) -> (r: Option<String>)
        ensures
            (text_of(r), text_of(final(self).running)) == tick_spec(
                text_of(old(self).running),
                timer_running,
                attempt_count,
                run_name@,
            ),
    {
        if !timer_running {
            match self.running.take() {
                Some(description) => {
                    let mut marker = String::from_str("End of ");
                    marker.append(description.as_str());
                    Some(marker)
                },
                None => None,
            }
        } else if self.running.is_none() {
            let mut description = String::from_str("attempt ");
            append_decimal(&mut description, attempt_count);
            description.append(" in ");
            description.append(run_name);
            let mut marker = String::from_str("Start of ");
            marker.append(description.as_str());
            self.running = Some(description);
            Some(marker)
        } else {
            None
        }
    }
}

/// The value of the `Authorization` header for an OAuth token.
pub fn bearer(token: &str) -> (r: String)
    ensures
        r@ == "Bearer "@ + token@,
{
    let mut r = String::from_str("Bearer ");
    r.append(token);
    r
}

/// An answer of the streaming service that lacks what was asked for.
#[derive(Clone, Copy, Debug, PartialEq, Eq, Structural)]
pub enum TwitchError {
    /// The list of users was empty.
    NoUser,
    /// The list of created markers was empty.
    NoMarker,
}

impl TwitchError {
    /// What went wrong, in words.
    pub fn message(&self) -> (r: &'static str)
        ensures
            r@ == (match self {
                TwitchError::NoUser => "Twitch didn't respond with a User ID."@,
                TwitchError::NoMarker => "Twitch didn't respond with a marker."@,
            }),
    {
        match self {
            TwitchError::NoUser => "Twitch didn't respond with a User ID.",
            TwitchError::NoMarker => "Twitch didn't respond with a marker.",
        }
    }
}

/// The first of the user ids the service answered with.
pub fn user_id_from(mut ids: Vec<String>) -> (r: Result<String, TwitchError>)
    ensures
        ids@.len() == 0 ==> r == Err::<String, TwitchError>(TwitchError::NoUser),
        ids@.len() > 0 ==> r == Ok::<String, TwitchError>(ids@[0]),
{
    if ids.len() == 0 {
        Err(TwitchError::NoUser)
    } else {
        Ok(ids.swap_remove(0))
    }
}

/// The first of the markers the service answered with.
pub fn marker_from(mut markers: Vec<Marker>) -> (r: Result<Marker, TwitchError>)
    ensures
        markers@.len() == 0 ==> r == Err::<Marker, TwitchError>(TwitchError::NoMarker),
        markers@.len() > 0 ==> r == Ok::<Marker, TwitchError>(markers@[0]),
{
    if markers.len() == 0 {
        Err(TwitchError::NoMarker)
    } else {
        Ok(markers.swap_remove(0))
    }
}

} // verus!
