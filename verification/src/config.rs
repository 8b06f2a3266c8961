//! What the program is started with.
use crate::numeral::{parse_whole, whole_value};
use crate::text::{
    begins_with, chars_of, contains, contains_text, is_blank, same_text, starts_with_text,
    trim_text, trimmed,
};
use vstd::prelude::*;

verus! {

/// The address of the exchange where none is set.
pub const DEFAULT_BASE_URL: &'static str = "https://api.binance.com";

/// Whether an address is on this machine.
pub open spec fn is_loopback(url: Seq<char>) -> bool {
    begins_with(url, "http://127.0.0.1"@) || begins_with(url, "http://localhost"@) || begins_with(
        url,
        "http://[::1]"@,
    )
}

/// Whether an address is on this machine.
pub fn is_loopback_http_base_url(base_url: &str) -> (r: bool)
    ensures
        r == is_loopback(base_url@),
{
    starts_with_text(base_url, "http://127.0.0.1") || starts_with_text(
        base_url,
        "http://localhost",
    ) || starts_with_text(base_url, "http://[::1]")
}

/// What is wrong with an address.
#[derive(Clone, Copy, Debug, PartialEq, Eq, Structural)]
pub enum BaseUrlError {
    Insecure,
    NoScheme,
}

impl BaseUrlError {
    /// The error in words.
    pub fn message(self) -> (s: &'static str)
        ensures
            s@ == (match self {
                BaseUrlError::Insecure =>
                    "BOT_BASE_URL must be https:// (set BOT_ALLOW_INSECURE_BASE_URL=1 to override)"@,
                BaseUrlError::NoScheme =>
                    "BOT_BASE_URL must start with https:// (recommended) or http:// (insecure)"@,
            }),
    {
        match self {
            BaseUrlError::Insecure =>
                "BOT_BASE_URL must be https:// (set BOT_ALLOW_INSECURE_BASE_URL=1 to override)",
            BaseUrlError::NoScheme =>
                "BOT_BASE_URL must start with https:// (recommended) or http:// (insecure)",
        }
    }
}

/// Accepts an address that is encrypted, on this machine, or allowed by the
/// operator.
pub fn validate_base_url(base_url: &str, allow_insecure: bool) -> (r: Result<(), BaseUrlError>)
    ensures
        r == (if begins_with(base_url@, "https://"@) {
            Ok::<(), BaseUrlError>(())
        } else if !begins_with(base_url@, "http://"@) {
            Err(BaseUrlError::NoScheme)
        } else if allow_insecure || is_loopback(base_url@) {
            Ok(())
        } else {
            Err(BaseUrlError::Insecure)
        }),
{
    if starts_with_text(base_url, "https://") {
        return Ok(());
    }
    if !starts_with_text(base_url, "http://") {
        return Err(BaseUrlError::NoScheme);
    }
    if allow_insecure || is_loopback_http_base_url(base_url) {
        Ok(())
    } else {
        Err(BaseUrlError::Insecure)
    }
}

/// The address of the exchange, the usual one where the setting is missing or blank.
pub fn choose_base_url(raw: Option<&str>) -> (s: String)
    ensures
        s@ == (if raw is Some && !is_blank(raw->0@) {
            trimmed(raw->0@)
        } else {
            DEFAULT_BASE_URL@
        }),
{
    if let Some(r) = raw {
        let t: String = trim_text(r);
        if !t.as_str().is_empty() {
            return t;
        }
    }
    String::from_str(DEFAULT_BASE_URL)
}

/// A credential without the white space around it; none where it is missing and has
/// to be there. In practice it may be missing.
pub fn read_credential(raw: Option<&str>, allow_missing: bool) -> (s: Option<String>)
    ensures
        s is Some <==> raw is Some || allow_missing,
        s is Some ==> s->0@ == (match raw {
            Some(r) => trimmed(r@),
            None => Seq::empty(),
        }),
{
    match raw {
        Some(r) => Some(trim_text(r)),
        None => if allow_missing {
            Some(String::new())
        } else {
            None
        },
    }
}

/// How many bytes a character takes in UTF-8.
pub open spec fn char_bytes(c: char) -> nat {
    let n = c as int;
    if n < 0x80 {
        1
    } else if n < 0x800 {
        2
    } else if n < 0x10000 {
        3
    } else {
        4
    }
}

fn bytes_of(c: char) -> (n: u32)
    ensures
        n == char_bytes(c),
{
    let n: u32 = c as u32;
    if n < 0x80 {
        1
    } else if n < 0x800 {
        2
    } else if n < 0x10000 {
        3
    } else {
        4
    }
}

/// The sign for bytes that make no character.
pub const REPLACEMENT: char = '\u{fffd}';

/// A row of signs for bytes that make no character.
pub open spec fn replacements(n: nat) -> Seq<char> {
    Seq::new(n, |i: int| REPLACEMENT)
}

/// What the first `room` bytes of a text read. A character that is cut reads as one
/// replacement.
pub open spec fn first_bytes(s: Seq<char>, room: nat) -> Seq<char>
    decreases s.len(),
{
    if s.len() == 0 || room == 0 {
        Seq::empty()
    } else if char_bytes(s[0]) > room {
        replacements(1)
    } else {
        seq![s[0]] + first_bytes(s.drop_first(), (room - char_bytes(s[0])) as nat)
    }
}

/// What the last `room` bytes of a text read. Each byte that is left of a character
/// that is cut reads as a replacement.
pub open spec fn last_bytes(s: Seq<char>, room: nat) -> Seq<char>
    decreases s.len(),
{
    if s.len() == 0 || room == 0 {
        Seq::empty()
    } else if char_bytes(s.last()) > room {
        replacements(room)
    } else {
        last_bytes(s.drop_last(), (room - char_bytes(s.last())) as nat).push(s.last())
    }
}

fn read_first(v: &Vec<char>, from: usize, room: u32) -> (s: String)
    requires
        from <= v@.len(),
    ensures
        s@ == first_bytes(v@.skip(from as int), room as nat),
    decreases v@.len() - from,
{
    if from == v.len() || room == 0 {
        return String::new();
    }
    let c: char = v[from];
    assert(v@.skip(from as int)[0] == c);
    assert(v@.skip(from as int).drop_first() =~= v@.skip(from + 1));
    let n: u32 = bytes_of(c);
    let mut s: String = String::new();
    if n > room {
        s.push(REPLACEMENT);
        assert(s@ =~= replacements(1));
        return s;
    }
    s.push(c);
    s.append(read_first(v, from + 1, room - n).as_str());
    assert(s@ =~= seq![c] + first_bytes(v@.skip(from + 1), (room - n) as nat));
    s
}

fn read_last(v: &Vec<char>, to: usize, room: u32) -> (s: String)
    requires
        to <= v@.len(),
        room <= 4,
    ensures
        s@ == last_bytes(v@.take(to as int), room as nat),
    decreases to,
{
    if to == 0 || room == 0 {
        return String::new();
    }
    let c: char = v[to - 1];
    assert(v@.take(to as int).last() == c);
    assert(v@.take(to as int).drop_last() =~= v@.take(to - 1));
    let n: u32 = bytes_of(c);
    if n > room {
        let mut s: String = String::new();
        let mut i: u32 = 0;
        while i < room
            invariant
                i <= room,
                s@ == replacements(i as nat),
            decreases room - i,
        {
            s.push(REPLACEMENT);
            assert(s@ =~= replacements(i as nat + 1));
            i += 1;
        }
        return s;
    }
    let mut s: String = read_last(v, to - 1, room - n);
    s.push(c);
    s
}

/// What of a secret may be shown.
pub open spec fn fingerprint(value: Seq<char>) -> Seq<char> {
    if is_blank(value) {
        "(missing)"@
    } else {
        first_bytes(trimmed(value), 4) + "…"@ + last_bytes(trimmed(value), 4)
    }
}

/// The first and the last four bytes of a secret.
pub fn fingerprint_first_last_4(value: &str) -> (s: String)
    ensures
        s@ == fingerprint(value@),
{
    let t: String = trim_text(value);
    if t.as_str().is_empty() {
        return String::from_str("(missing)");
    }
    let v: Vec<char> = chars_of(t.as_str());
    assert(v@.skip(0) =~= t@);
    assert(v@.take(v@.len() as int) =~= t@);
    let mut s: String = read_first(&v, 0, 4);
    s.append("…");
    s.append(read_last(&v, v.len(), 4).as_str());
    s
}

/// The small letter of a letter of the alphabet; any other character as it is.
pub open spec fn lower(c: char) -> char {
    if 'A' <= c && c <= 'Z' {
        (c as int + 32) as char
    } else {
        c
    }
}

fn lower_of(c: char) -> (r: char)
    ensures
        r == lower(c),
{
    if 'A' <= c && c <= 'Z' {
        (c as u8 + 32) as char
    } else {
        c
    }
}

/// Whether two texts differ at most in capitals.
pub open spec fn same_but_for_case(a: Seq<char>, b: Seq<char>) -> bool {
    a.len() == b.len() && forall|i: int|
        0 <= i < a.len() ==> lower(#[trigger] a[i]) == lower(b[i])
}

fn equal_ignoring_case(a: &str, b: &str) -> (r: bool)
    ensures
        r == same_but_for_case(a@, b@),
{
    let x: Vec<char> = chars_of(a);
    let y: Vec<char> = chars_of(b);
    if x.len() != y.len() {
        return false;
    }
    let mut i: usize = 0;
    while i < x.len()
        invariant
            i <= x@.len() == y@.len(),
            x@ == a@,
            y@ == b@,
            forall|k: int| 0 <= k < i ==> lower(#[trigger] x@[k]) == lower(y@[k]),
        decreases x@.len() - i,
    {
        if lower_of(x[i]) != lower_of(y[i]) {
            assert(lower(a@[i as int]) != lower(b@[i as int]));
            return false;
        }
        i += 1;
    }
    true
}

/// Which lines are logged: all of the bot's where the operator asks for `debug`,
/// else what it says and its warnings.
pub fn log_filter(level: Option<&str>) -> (s: &'static str)
    ensures
        s@ == (if level is Some && same_but_for_case(level->0@, "debug"@) {
            "binance_survival_bot=debug,reqwest=warn,hyper=warn,hyper_util=warn"@
        } else {
            "binance_survival_bot::log_say=info,binance_survival_bot=warn,reqwest=warn,hyper=warn,hyper_util=warn"@
        }),
{
    if let Some(l) = level {
        if equal_ignoring_case(l, "debug") {
            return "binance_survival_bot=debug,reqwest=warn,hyper=warn,hyper_util=warn";
        }
    }
    "binance_survival_bot::log_say=info,binance_survival_bot=warn,reqwest=warn,hyper=warn,hyper_util=warn"
}

/// A switch that is on only where it is set to `1`.
pub fn switched_on(raw: Option<&str>) -> (r: bool)
    ensures
        r == (raw is Some && raw->0@ == "1"@),
{
    match raw {
        Some(t) => same_text(t, "1"),
        None => false,
    }
}

/// A whole number out of a setting, `usual` where it is missing or no such number.
pub open spec fn whole_or(raw: Option<&str>, usual: u64) -> u64 {
    match raw {
        Some(t) => match whole_value(t@, u64::MAX as int) {
            Some(n) => n,
            None => usual,
        },
        None => usual,
    }
}

/// A whole number out of a setting, `usual` where it is missing or no such number.
pub fn read_whole(raw: Option<&str>, usual: u64) -> (n: u64)
    ensures
        n == whole_or(raw, usual),
{
    match raw {
        Some(t) => match parse_whole(t, u64::MAX) {
            Some(n) => n,
            None => usual,
        },
        None => usual,
    }
}

/// Whether a failed check at the start is the exchange's refusal of the credentials.
pub fn is_rejected_login(error: &str) -> (r: bool)
    ensures
        r == contains(error@, "-2015"@),
{
    contains_text(error, "-2015")
}

/// How a bot in a loop goes on.
#[derive(Clone, Copy, Debug, PartialEq, Eq, Structural)]
pub struct LoopSettings {
    pub sleep_secs: u64,
    pub duration_secs: u64,
    pub stop_on_error: bool,
}

/// How a bot in a loop goes on, out of the settings.
pub fn loop_settings(sleep: Option<&str>, duration: Option<&str>, stop_on_error: Option<&str>) -> (r:
    LoopSettings)
    ensures
        r == (LoopSettings {
            sleep_secs: whole_or(sleep, 2),
            duration_secs: whole_or(duration, 3600),
            stop_on_error: stop_on_error is Some && stop_on_error->0@ == "1"@,
        }),
{
    LoopSettings {
        sleep_secs: read_whole(sleep, 2),
        duration_secs: read_whole(duration, 3600),
        stop_on_error: switched_on(stop_on_error),
    }
}

/// What a bot in a loop does next.
#[derive(Clone, Copy, Debug, PartialEq, Eq, Structural)]
pub enum Round {
    /// The time is up.
    Finish,
    /// The operator paused the bot: it sleeps and asks again.
    Rest,
    /// The bot runs for the given time.
    Run { number: u64 },
}

/// What a bot in a loop does next, after `runs` runs.
pub open spec fn round_of(elapsed_ms: u128, set: LoopSettings, paused: bool, runs: u64) -> Round {
    if elapsed_ms >= 1000 * set.duration_secs {
        Round::Finish
    } else if paused {
        Round::Rest
    } else if runs < u64::MAX {
        Round::Run { number: (runs + 1) as u64 }
    } else {
        Round::Run { number: runs }
    }
}

/// What a bot in a loop does next, after `runs` runs.
pub fn next_round(elapsed_ms: u128, set: &LoopSettings, paused: bool, runs: u64) -> (r: Round)
    ensures
        r == round_of(elapsed_ms, *set, paused, runs),
{
    if elapsed_ms >= 1000 * set.duration_secs as u128 {
        Round::Finish
    } else if paused {
        Round::Rest
    } else if runs < u64::MAX {
        Round::Run { number: runs + 1 }
    } else {
        Round::Run { number: runs }
    }
}

/// A paused bot does not run.
pub proof fn law_paused_bot_does_not_run(elapsed_ms: u128, set: LoopSettings, runs: u64)
    ensures
        !(round_of(elapsed_ms, set, true, runs) is Run),
{
}

/// A run of the loop ends when its time is over; before that a paused bot rests and another
/// one runs, each run with the next number.
pub proof fn law_loop_rounds(elapsed_ms: u128, set: LoopSettings, paused: bool, runs: u64)
    requires
        runs < u64::MAX,
    ensures
        round_of(elapsed_ms, set, paused, runs) is Finish <==> elapsed_ms >= 1_000
            * set.duration_secs,
        round_of(elapsed_ms, set, paused, runs) is Rest <==> elapsed_ms < 1_000 * set.duration_secs
            && paused,
        elapsed_ms < 1_000 * set.duration_secs && !paused ==> round_of(
            elapsed_ms,
            set,
            paused,
            runs,
        ) == (Round::Run { number: (runs + 1) as u64 }),
{
}

/// A setting that can be read as a whole number counts, any other one takes its usual value.
pub proof fn law_readable_setting_counts(text: &str, usual: u64)
    ensures
        whole_value(text@, u64::MAX as int) is Some ==> Some(whole_or(Some(text), usual))
            == whole_value(text@, u64::MAX as int),
        whole_value(text@, u64::MAX as int) is None ==> whole_or(Some(text), usual) == usual,
        whole_or(None, usual) == usual,
{
}

/// The beginning of a secret that is shown is no longer than four characters, and so is its
/// end.
pub proof fn law_fingerprint_shows_little(value: Seq<char>, room: nat)
    ensures
        first_bytes(value, room).len() <= room,
        last_bytes(value, room).len() <= room,
    decreases value.len(),
{
    if value.len() > 0 && room > 0 {
        if char_bytes(value[0]) <= room {
            law_fingerprint_shows_little(
                value.drop_first(),
                (room - char_bytes(value[0])) as nat,
            );
        }
        if char_bytes(value.last()) <= room {
            law_fingerprint_shows_little(
                value.drop_last(),
                (room - char_bytes(value.last())) as nat,
            );
        }
    }
}

/// What is shown of a plain text is its first and its last characters, as many as there is room
/// for.
pub proof fn law_fingerprint_is_of_the_ends(value: Seq<char>, room: nat)
    requires
        room <= value.len(),
        forall|i: int| 0 <= i < value.len() ==> (#[trigger] value[i] as int) < 0x80,
    ensures
        first_bytes(value, room) =~= value.take(room as int),
        last_bytes(value, room) =~= value.skip(value.len() - room),
    decreases room,
{
    if room > 0 {
        assert((value[0] as int) < 0x80);
        assert((value[value.len() - 1] as int) < 0x80);
        let a = value.drop_first();
        let b = value.drop_last();
        assert forall|i: int| 0 <= i < a.len() implies (#[trigger] a[i] as int) < 0x80 by {
            assert((value[i + 1] as int) < 0x80);
        }
        assert forall|i: int| 0 <= i < b.len() implies (#[trigger] b[i] as int) < 0x80 by {
            assert((value[i] as int) < 0x80);
        }
        law_fingerprint_is_of_the_ends(a, (room - 1) as nat);
        law_fingerprint_is_of_the_ends(b, (room - 1) as nat);
        assert(first_bytes(value, room) =~= seq![value[0]] + a.take(room - 1));
        assert(last_bytes(value, room) =~= b.skip(b.len() - (room - 1)).push(value.last()));
    }
}

} // verus!
