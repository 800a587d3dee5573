use vstd::prelude::*;
use vstd::string::*;

use crate::capture_state::text_view;
use crate::settings::{ProviderKind, ProviderSettings};
use crate::text::{char_is_white_space, is_white_space, join_text};

verus! {

/// A secret that is only shown on purpose.
#[derive(Clone, PartialEq, Eq)]
pub struct SecretString(String);

impl SecretString {
    /// Holds `value` as a secret.
    pub fn new(value: String) -> (res: Self)
        ensures
            res.secret() == value@,
    {
        SecretString(value)
    }

    /// The secret's text.
    pub closed spec fn secret(&self) -> Seq<char> {
        self.0@
    }

    /// A second handle on the same secret.
    pub fn copy(&self) -> (res: Self)
        ensures
            res == *self,
    {
        SecretString(self.0.clone())
    }

    /// Shows the secret.
    pub fn expose(&self) -> (res: &str)
        ensures
            res@ == self.secret(),
    {
        self.0.as_str()
    }
}

/// Where a ready sidecar listens, and the token it expects.
#[derive(Clone)]
pub struct SidecarEndpoint {
    port: u16,
    token: SecretString,
}

impl SidecarEndpoint {
    /// The port the sidecar listens on.
    pub closed spec fn port_number(&self) -> u16 {
        self.port
    }

    /// The token the sidecar expects.
    pub closed spec fn token_text(&self) -> Seq<char> {
        self.token.secret()
    }

    /// The same endpoint, copied.
    pub fn copy(&self) -> (res: Self)
        ensures
            res == *self,
    {
        SidecarEndpoint { port: self.port, token: self.token.copy() }
    }

    /// The port the sidecar listens on.
    pub fn port(&self) -> (res: u16)
        ensures
            res == self.port_number(),
    {
        self.port
    }

    /// The token the sidecar expects.
    pub fn token(&self) -> (res: &SecretString)
        ensures
            res.secret() == self.token_text(),
    {
        &self.token
    }
}

/// The words of `s` that follow the partial word `current`: maximal runs of
/// characters that are not white space.
pub open spec fn words_after(s: Seq<char>, current: Seq<char>) -> Seq<Seq<char>>
    decreases s.len(),
{
    let done = if current.len() > 0 {
        seq![current]
    } else {
        Seq::<Seq<char>>::empty()
    };
    if s.len() == 0 {
        done
    } else if is_white_space(s[0]) {
        done + words_after(s.drop_first(), Seq::empty())
    } else {
        words_after(s.drop_first(), current.push(s[0]))
    }
}

/// The words of `s`, as `split_whitespace` yields them.
pub open spec fn words(s: Seq<char>) -> Seq<Seq<char>> {
    words_after(s, Seq::empty())
}

/// Whether `c` is an ASCII decimal digit.
pub open spec fn is_digit(c: char) -> bool {
    '0' <= c <= '9'
}

/// Whether `c` is an ASCII hex digit.
pub open spec fn is_hex_digit(c: char) -> bool {
    ('0' <= c <= '9') || ('a' <= c <= 'f') || ('A' <= c <= 'F')
}

/// The value of the decimal digits `d`.
pub open spec fn digits_value(d: Seq<char>) -> int
    decreases d.len(),
{
    if d.len() == 0 {
        0
    } else {
        digits_value(d.drop_last()) * 10 + (d.last() as int - '0' as int)
    }
}

/// The digits part of a `u16` text: without its leading `+`.
pub open spec fn unsigned_digits(t: Seq<char>) -> Seq<char> {
    if t.len() > 0 && t[0] == '+' {
        t.drop_first()
    } else {
        t
    }
}

/// `t` read as a `u16` the way `str::parse::<u16>` reads it: an optional
/// `+`, then at least one ASCII digit, with a value that fits.
pub open spec fn parse_u16(t: Seq<char>) -> Option<u16> {
    let d = unsigned_digits(t);
    if d.len() == 0 || !(forall|i: int| 0 <= i < d.len() ==> is_digit(#[trigger] d[i])) {
        None
    } else if digits_value(d) <= 65535 {
        Some(digits_value(d) as u16)
    } else {
        None
    }
}

/// The sidecar's readiness line, when it is exactly `SIDECAR_READY`,
/// `port=` with a port, and `token=` with a non-empty hex token, separated by
/// white space: the port and the token.
pub open spec fn readiness(line: Seq<char>) -> Option<(u16, Seq<char>)> {
    let w = words(line);
    if w.len() == 3 && w[0] == "SIDECAR_READY"@ && w[1].len() >= 5 && w[1].take(5) == "port="@
        && parse_u16(w[1].skip(5)) is Some && w[2].len() > 6 && w[2].take(6) == "token="@ && (
    forall|i: int| 6 <= i < w[2].len() ==> is_hex_digit(#[trigger] w[2][i])) {
        Some((parse_u16(w[1].skip(5))->0, w[2].skip(6)))
    } else {
        None
    }
}

fn chars_of(s: &str) -> (res: Vec<char>)
    ensures
        res@ == s@,
{
    let n = s.unicode_len();
    let mut res: Vec<char> = Vec::new();
    let mut i: usize = 0;
    while i < n
        invariant
            n == s@.len(),
            i <= n,
            res@ == s@.take(i as int),
        decreases n - i,
    {
        res.push(s.get_char(i));
        i = i + 1;
        proof {
            assert(res@ =~= s@.take(i as int));
        }
    }
    proof {
        assert(res@ =~= s@);
    }
    res
}

proof fn lemma_words_after_skip(s: Seq<char>, current: Seq<char>, i: int)
    requires
        0 <= i < s.len(),
        !is_white_space(s[i]),
    ensures
        words_after(s.skip(i), current) == words_after(s.skip(i + 1), current.push(s[i])),
{
    assert(s.skip(i).drop_first() =~= s.skip(i + 1));
}

proof fn lemma_words_after_skip_space(s: Seq<char>, current: Seq<char>, i: int)
    requires
        0 <= i < s.len(),
        is_white_space(s[i]),
    ensures
        words_after(s.skip(i), current) == (if current.len() > 0 {
            seq![current]
        } else {
            Seq::<Seq<char>>::empty()
        }) + words_after(s.skip(i + 1), Seq::empty()),
{
    assert(s.skip(i).drop_first() =~= s.skip(i + 1));
}

/// Splits `line` into its words, each given by where it starts and ends.
fn split_words(line: &Vec<char>) -> (res: Vec<(usize, usize)>)
    ensures
        res@.len() == words(line@).len(),
        forall|k: int|
            0 <= k < res@.len() ==> {
                let (a, b) = #[trigger] res@[k];
                a <= b <= line@.len() && line@.subrange(a as int, b as int) == words(line@)[k]
            },
{
    let n = line.len();
    let mut res: Vec<(usize, usize)> = Vec::new();
    let mut start: usize = 0;
    let mut i: usize = 0;
    let ghost s = line@;
    proof {
        assert(s.skip(0) =~= s);
        assert(s.subrange(0, 0) =~= Seq::<char>::empty());
    }
    while i < n
        invariant
            n == s.len(),
            s == line@,
            start <= i <= n,
            forall|k: int|
                0 <= k < res@.len() ==> {
                    let (a, b) = #[trigger] res@[k];
                    a <= b <= n
                },
            words(s) == res@.map_values(|r: (usize, usize)| s.subrange(r.0 as int, r.1 as int))
                + words_after(s.skip(i as int), s.subrange(start as int, i as int)),
        decreases n - i,
    {
        let c = line[i];
        let ghost before = res@;
        if char_is_white_space(c) {
            proof {
                lemma_words_after_skip_space(s, s.subrange(start as int, i as int), i as int);
            }
            if start < i {
                res.push((start, i));
                proof {
                    assert(res@.map_values(|r: (usize, usize)| s.subrange(r.0 as int, r.1 as int))
                        =~= before.map_values(
                        |r: (usize, usize)| s.subrange(r.0 as int, r.1 as int),
                    ).push(s.subrange(start as int, i as int)));
                }
            }
            i = i + 1;
            start = i;
            proof {
                assert(s.subrange(start as int, i as int) =~= Seq::<char>::empty());
            }
        } else {
            proof {
                lemma_words_after_skip(s, s.subrange(start as int, i as int), i as int);
                assert(s.subrange(start as int, i as int).push(s[i as int]) =~= s.subrange(
                    start as int,
                    i + 1,
                ));
            }
            i = i + 1;
        }
    }
    let ghost before = res@;
    proof {
        assert(s.skip(n as int) =~= Seq::<char>::empty());
    }
    if start < n {
        res.push((start, n));
        proof {
            assert(res@.map_values(|r: (usize, usize)| s.subrange(r.0 as int, r.1 as int))
                =~= before.map_values(|r: (usize, usize)| s.subrange(r.0 as int, r.1 as int)).push(
                s.subrange(start as int, n as int),
            ));
        }
    }
    proof {
        let views = res@.map_values(|r: (usize, usize)| s.subrange(r.0 as int, r.1 as int));
        assert(words(s) =~= views);
        assert forall|k: int| 0 <= k < res@.len() implies {
            let (a, b) = #[trigger] res@[k];
            a <= b <= line@.len() && line@.subrange(a as int, b as int) == words(line@)[k]
        } by {
            assert(views[k] == s.subrange(res@[k].0 as int, res@[k].1 as int));
        }
    }
    res
}

/// Whether `line[from..to]` is exactly `expected`.
fn matches_text(line: &Vec<char>, from: usize, to: usize, expected: &str) -> (res: bool)
    requires
        from <= to <= line@.len(),
    ensures
        res == (line@.subrange(from as int, to as int) == expected@),
{
    let n = expected.unicode_len();
    if to - from != n {
        proof {
            assert(line@.subrange(from as int, to as int).len() != expected@.len());
        }
        return false;
    }
    let mut i: usize = 0;
    while i < n
        invariant
            n == expected@.len(),
            to - from == n,
            from <= to <= line@.len(),
            i <= n,
            forall|j: int| 0 <= j < i ==> line@[from + j] == expected@[j],
        decreases n - i,
    {
        if line[from + i] != expected.get_char(i) {
            proof {
                assert(line@.subrange(from as int, to as int)[i as int] != expected@[i as int]);
            }
            return false;
        }
        i = i + 1;
    }
    proof {
        assert(line@.subrange(from as int, to as int) =~= expected@);
    }
    true
}

proof fn lemma_digits_value_monotone(d: Seq<char>, i: int)
    requires
        0 <= i <= d.len(),
        forall|j: int| 0 <= j < d.len() ==> is_digit(#[trigger] d[j]),
    ensures
        digits_value(d.take(i)) <= digits_value(d),
        digits_value(d) >= 0,
    decreases d.len() - i,
{
    if i < d.len() {
        lemma_digits_value_monotone(d, i + 1);
        assert(d.take(i + 1).drop_last() =~= d.take(i));
        lemma_digits_value_nonnegative(d.take(i));
    } else {
        assert(d.take(i) =~= d);
        lemma_digits_value_nonnegative(d);
    }
}

proof fn lemma_digits_value_nonnegative(d: Seq<char>)
    requires
        forall|j: int| 0 <= j < d.len() ==> is_digit(#[trigger] d[j]),
    ensures
        digits_value(d) >= 0,
    decreases d.len(),
{
    if d.len() > 0 {
        lemma_digits_value_nonnegative(d.drop_last());
    }
}

proof fn lemma_parse_non_digit(t: Seq<char>, k: int)
    requires
        0 <= k < unsigned_digits(t).len(),
        !is_digit(unsigned_digits(t)[k]),
    ensures
        parse_u16(t) is None,
{
}

proof fn lemma_parse_too_large(t: Seq<char>)
    requires
        (forall|j: int|
            0 <= j < unsigned_digits(t).len() ==> is_digit(#[trigger] unsigned_digits(t)[j]))
            ==> digits_value(unsigned_digits(t)) > 65535,
    ensures
        parse_u16(t) is None,
{
}

/// Reads `line[from..to]` as a `u16` the way `str::parse::<u16>` does.
fn parse_port(line: &Vec<char>, from: usize, to: usize) -> (res: Option<u16>)
    requires
        from <= to <= line@.len(),
    ensures
        res == parse_u16(line@.subrange(from as int, to as int)),
{
    let ghost t = line@.subrange(from as int, to as int);
    let mut first = from;
    if from < to && line[from] == '+' {
        first = from + 1;
    }
    let ghost d = line@.subrange(first as int, to as int);
    proof {
        if from < to && line@[from as int] == '+' {
            assert(d =~= t.drop_first());
        } else {
            assert(d =~= t);
        }
    }
    if first == to {
        return None;
    }
    let mut value: u32 = 0;
    let mut i = first;
    while i < to
        invariant
            from <= first <= i <= to <= line@.len(),
            d == line@.subrange(first as int, to as int),
            t == line@.subrange(from as int, to as int),
            d == (if t.len() > 0 && t[0] == '+' {
                t.drop_first()
            } else {
                t
            }),
            d.len() > 0,
            forall|j: int| first <= j < i ==> is_digit(#[trigger] line@[j]),
            value == digits_value(line@.subrange(first as int, i as int)),
            value <= 65535,
        decreases to - i,
    {
        let c = line[i];
        let ghost pre = line@.subrange(first as int, i as int);
        if !('0' <= c && c <= '9') {
            proof {
                assert(d[i - first] == c);
                assert(!is_digit(d[i - first]));
                assert(unsigned_digits(t) == d);
                lemma_parse_non_digit(t, i - first);
            }
            return None;
        }
        proof {
            assert(line@.subrange(first as int, i + 1).drop_last() =~= pre);
        }
        let next = value * 10 + (c as u32 - '0' as u32);
        if next > 65535 {
            proof {
                assert forall|j: int| 0 <= j < i + 1 - first implies is_digit(
                    #[trigger] line@.subrange(first as int, i + 1)[j],
                ) by {
                    assert(line@.subrange(first as int, i + 1)[j] == line@[first + j]);
                }
                let whole = line@.subrange(first as int, to as int);
                assert(line@.subrange(first as int, i + 1) =~= whole.take(i + 1 - first));
                let all_digits = forall|j: int| 0 <= j < whole.len() ==> is_digit(#[trigger] whole[j]);
                if all_digits {
                    lemma_digits_value_monotone(whole, i + 1 - first);
                }
                assert(unsigned_digits(t) == d);
                lemma_parse_too_large(t);
            }
            return None;
        }
        value = next;
        i = i + 1;
    }
    proof {
        assert(line@.subrange(first as int, to as int) =~= d);
        assert forall|j: int| 0 <= j < d.len() implies is_digit(#[trigger] d[j]) by {
            assert(d[j] == line@[first + j]);
        }
    }
    Some(value as u16)
}

/// Whether `line[from..to]` is all hex digits.
fn all_hex(line: &Vec<char>, from: usize, to: usize) -> (res: bool)
    requires
        from <= to <= line@.len(),
    ensures
        res == (forall|j: int| from <= j < to ==> is_hex_digit(#[trigger] line@[j])),
{
    let mut i = from;
    while i < to
        invariant
            from <= i <= to <= line@.len(),
            forall|j: int| from <= j < i ==> is_hex_digit(#[trigger] line@[j]),
        decreases to - i,
    {
        let c = line[i];
        if !(('0' <= c && c <= '9') || ('a' <= c && c <= 'f') || ('A' <= c && c <= 'F')) {
            return false;
        }
        i = i + 1;
    }
    true
}

/// Reads the sidecar's readiness line: the port and token it announces, or
/// `None` for anything but exactly one well-formed line.
pub fn parse_readiness(line: &str) -> (res: Option<SidecarEndpoint>)
    ensures
        match readiness(line@) {
            Some((port, token)) => res matches Some(e) && e.port_number() == port
                && e.token_text() == token,
            None => res is None,
        },
{
    let chars = chars_of(line);
    let spans = split_words(&chars);
    let ghost w = words(line@);
    if spans.len() != 3 {
        return None;
    }
    let (a0, b0) = spans[0];
    let (a1, b1) = spans[1];
    let (a2, b2) = spans[2];
    proof {
        assert(chars@.subrange(a0 as int, b0 as int) == w[0]);
        assert(chars@.subrange(a1 as int, b1 as int) == w[1]);
        assert(chars@.subrange(a2 as int, b2 as int) == w[2]);
        reveal_strlit("SIDECAR_READY");
        reveal_strlit("port=");
        reveal_strlit("token=");
    }
    if !matches_text(&chars, a0, b0, "SIDECAR_READY") {
        return None;
    }
    if b1 - a1 < 5 || !matches_text(&chars, a1, a1 + 5, "port=") {
        proof {
            if w[1].len() >= 5 {
                assert(w[1].take(5) =~= chars@.subrange(a1 as int, a1 + 5));
            }
        }
        return None;
    }
    proof {
        assert(w[1].take(5) =~= chars@.subrange(a1 as int, a1 + 5));
        assert(w[1].skip(5) =~= chars@.subrange(a1 + 5, b1 as int));
    }
    let port = match parse_port(&chars, a1 + 5, b1) {
        Some(port) => port,
        None => {
            return None;
        },
    };
    if b2 - a2 <= 6 || !matches_text(&chars, a2, a2 + 6, "token=") {
        proof {
            if w[2].len() > 6 {
                assert(w[2].take(6) =~= chars@.subrange(a2 as int, a2 + 6));
            }
        }
        return None;
    }
    proof {
        assert(w[2].take(6) =~= chars@.subrange(a2 as int, a2 + 6));
    }
    if !all_hex(&chars, a2 + 6, b2) {
        proof {
            let j = choose|j: int| a2 + 6 <= j < b2 && !is_hex_digit(#[trigger] chars@[j]);
            assert(w[2][j - a2] == chars@[j]);
        }
        return None;
    }
    proof {
        assert forall|i: int| 6 <= i < w[2].len() implies is_hex_digit(#[trigger] w[2][i]) by {
            assert(w[2][i] == chars@[a2 + i]);
        }
        assert(w[2].skip(6) =~= chars@.subrange(a2 + 6, b2 as int));
    }
    let token = line.substring_char(a2 + 6, b2);
    Some(SidecarEndpoint { port, token: SecretString::new(String::from_str(token)) })
}


/// How many spawn attempts one respawn window allows.
pub const RESPAWN_CAP: u32 = 5;

/// The length of a respawn window, in milliseconds.
pub const RESPAWN_WINDOW_MS: u64 = 60_000;

/// The pause after a spawn attempt before the next one, in milliseconds.
pub const RESPAWN_BACKOFF_MS: u64 = 200;

/// The respawn bookkeeping as plain values.
pub struct BudgetView {
    pub attempts: nat,
    pub window_start: Option<int>,
    pub next_at: Option<int>,
}

/// `a - b`, or zero when `b` is later.
pub open spec fn elapsed(now: int, since: int) -> int {
    if now >= since {
        now - since
    } else {
        0
    }
}

/// Whether an attempt at `now` falls into the window that `b` counts.
pub open spec fn in_window(b: BudgetView, now: int) -> bool {
    b.window_start matches Some(first) && elapsed(now, first) <= RESPAWN_WINDOW_MS
}

/// The bookkeeping after one more attempt at `now`: counted in the current
/// window when it falls into it, else the first of a new window; the next
/// attempt is due a backoff later.
pub open spec fn recorded(b: BudgetView, now: int) -> BudgetView {
    if in_window(b, now) {
        BudgetView {
            attempts: if b.attempts < u32::MAX { b.attempts + 1 } else { b.attempts },
            window_start: b.window_start,
            next_at: Some(if now + RESPAWN_BACKOFF_MS <= u64::MAX { now + RESPAWN_BACKOFF_MS } else { u64::MAX as int }),
        }
    } else {
        BudgetView {
            attempts: 1,
            window_start: Some(now),
            next_at: Some(if now + RESPAWN_BACKOFF_MS <= u64::MAX { now + RESPAWN_BACKOFF_MS } else { u64::MAX as int }),
        }
    }
}

/// Bookkeeping with no attempt recorded.
pub open spec fn fresh_budget() -> BudgetView {
    BudgetView { attempts: 0, window_start: None, next_at: None }
}

/// Whether the window's attempts went past the cap.
pub open spec fn budget_exhausted(b: BudgetView) -> bool {
    b.attempts > RESPAWN_CAP
}

/// The bookkeeping after attempts at each of `times`, in order.
pub open spec fn recorded_all(b: BudgetView, times: Seq<u64>) -> BudgetView
    decreases times.len(),
{
    if times.len() == 0 {
        b
    } else {
        recorded(recorded_all(b, times.drop_last()), times.last() as int)
    }
}

/// Counts the sidecar's spawn attempts per window, and spaces them by a
/// backoff. Times are milliseconds on one monotonic clock.
pub struct RespawnBudget {
    attempts: u32,
    window_start: Option<u64>,
    next_at: Option<u64>,
}

impl View for RespawnBudget {
    type V = BudgetView;

    closed spec fn view(&self) -> BudgetView {
        BudgetView {
            attempts: self.attempts as nat,
            window_start: match self.window_start {
                Some(t) => Some(t as int),
                None => None,
            },
            next_at: match self.next_at {
                Some(t) => Some(t as int),
                None => None,
            },
        }
    }
}

impl RespawnBudget {
    /// Bookkeeping with no attempt recorded.
    pub fn new() -> (res: Self)
        ensures
            res@ == fresh_budget(),
    {
        RespawnBudget { attempts: 0, window_start: None, next_at: None }
    }

    /// How long a spawn at `now` must wait for the backoff to pass.
    pub fn delay_before_spawn(&self, now: u64) -> (res: u64)
        ensures
            res == (match self@.next_at {
                Some(t) => if t > now { t - now } else { 0 },
                None => 0,
            }),
    {
        match self.next_at {
            Some(t) => if t > now {
                t - now
            } else {
                0
            },
            None => 0,
        }
    }

    /// Records an attempt at `now`.
    pub fn record_attempt(&mut self, now: u64)
        ensures
            final(self)@ == recorded(old(self)@, now as int),
    {
        let within = match self.window_start {
            Some(first) => now.saturating_sub(first) <= RESPAWN_WINDOW_MS,
            None => false,
        };
        if within {
            self.attempts = self.attempts.saturating_add(1);
        } else {
            self.attempts = 1;
            self.window_start = Some(now);
        }
        self.next_at = Some(now.saturating_add(RESPAWN_BACKOFF_MS));
    }

    /// Whether the window's attempts went past the cap.
    pub fn exhausted(&self) -> (res: bool)
        ensures
            res == budget_exhausted(self@),
    {
        self.attempts > RESPAWN_CAP
    }

    /// Forgets every attempt, as a shutdown does.
    pub fn reset(&mut self)
        ensures
            final(self)@ == fresh_budget(),
    {
        self.attempts = 0;
        self.window_start = None;
        self.next_at = None;
    }
}

/// Attempts that all fall within one window of the first are all counted:
/// from fresh bookkeeping, `n` such attempts leave `n` on the count, so the
/// sixth is past the cap.
pub proof fn attempts_within_a_window_are_counted(times: Seq<u64>)
    requires
        times.len() <= u32::MAX,
        forall|i: int| 0 <= i < times.len() ==> elapsed(#[trigger] times[i] as int, times[0] as int) <= RESPAWN_WINDOW_MS,
    ensures
        recorded_all(fresh_budget(), times).attempts == times.len(),
        times.len() > 0 ==> recorded_all(fresh_budget(), times).window_start == Some(times[0] as int),
        budget_exhausted(recorded_all(fresh_budget(), times)) <==> times.len() > RESPAWN_CAP,
    decreases times.len(),
{
    if times.len() > 0 {
        let prefix = times.drop_last();
        assert forall|i: int| 0 <= i < prefix.len() implies elapsed(#[trigger] prefix[i] as int, prefix[0] as int) <= RESPAWN_WINDOW_MS by {
            assert(prefix[i] == times[i]);
        }
        attempts_within_a_window_are_counted(prefix);
        if prefix.len() > 0 {
            assert(prefix[0] == times[0]);
        }
        assert(times.last() == times[times.len() - 1]);
    }
}

/// An attempt later than a window after the window's first attempt starts a
/// new window, counted once.
pub proof fn a_late_attempt_starts_a_new_window(b: BudgetView, now: int)
    requires
        b.window_start matches Some(first) && now > first + RESPAWN_WINDOW_MS,
    ensures
        recorded(b, now).attempts == 1,
        recorded(b, now).window_start == Some(now),
        !budget_exhausted(recorded(b, now)),
{
}

/// Why the sidecar could not be started, configured, or stopped.
#[derive(Debug)]
pub enum SupervisorError {
    Spawn(String),
    Config(String),
    InvalidReadiness,
    StartupTimeout,
    Shutdown(String),
    RespawnLimitExceeded,
}

/// The text of a supervisor error.
pub open spec fn supervisor_message(e: SupervisorError) -> Seq<char> {
    match e {
        SupervisorError::Spawn(m) => "sidecar could not start: "@ + m@,
        SupervisorError::Config(m) => "sidecar configuration could not be sent: "@ + m@,
        SupervisorError::InvalidReadiness => "sidecar emitted invalid readiness output"@,
        SupervisorError::StartupTimeout => "sidecar did not become ready before startup timed out"@,
        SupervisorError::Shutdown(m) => "sidecar could not stop: "@ + m@,
        SupervisorError::RespawnLimitExceeded => "sidecar respawn limit exceeded; manual restart required"@,
    }
}

impl SupervisorError {
    /// The error's text, as it is shown and logged.
    pub fn message(&self) -> (res: String)
        ensures
            res@ == supervisor_message(*self),
    {
        match self {
            SupervisorError::Spawn(m) => join_text("sidecar could not start: ", m.as_str()),
            SupervisorError::Config(m) => join_text("sidecar configuration could not be sent: ", m.as_str()),
            SupervisorError::InvalidReadiness => String::from_str("sidecar emitted invalid readiness output"),
            SupervisorError::StartupTimeout => String::from_str("sidecar did not become ready before startup timed out"),
            SupervisorError::Shutdown(m) => join_text("sidecar could not stop: ", m.as_str()),
            SupervisorError::RespawnLimitExceeded => String::from_str("sidecar respawn limit exceeded; manual restart required"),
        }
    }
}

/// What the sidecar is started with: the provider settings and the
/// provider's secret.
#[derive(Clone)]
pub struct RuntimeConfig {
    pub provider: ProviderKind,
    pub model: String,
    pub language: Option<String>,
    pub azure_region: Option<String>,
    pub api_key: SecretString,
}

fn copy_text(value: &Option<String>) -> (res: Option<String>)
    ensures
        res == *value,
{
    match value {
        Some(text) => Some(text.clone()),
        None => None,
    }
}

impl RuntimeConfig {
    /// The same configuration, copied.
    pub fn copy(&self) -> (res: Self)
        ensures
            res == *self,
    {
        RuntimeConfig {
            provider: self.provider,
            model: self.model.clone(),
            language: copy_text(&self.language),
            azure_region: copy_text(&self.azure_region),
            api_key: self.api_key.copy(),
        }
    }
}

/// The sidecar's configuration from the provider settings and secret.
pub fn runtime_config(settings: ProviderSettings, api_key: String) -> (res: RuntimeConfig)
    ensures
        res.provider == settings.provider,
        res.model == settings.model,
        res.language == settings.language,
        res.azure_region == settings.azure_region,
        res.api_key.secret() == api_key@,
{
    RuntimeConfig {
        provider: settings.provider,
        model: settings.model,
        language: settings.language,
        azure_region: settings.azure_region,
        api_key: SecretString::new(api_key),
    }
}

/// The four bytes of `n`, most significant first.
pub open spec fn be_bytes(n: u32) -> Seq<u8> {
    seq![(n / 0x1000000) as u8, ((n / 0x10000) % 0x100) as u8, ((n / 0x100) % 0x100) as u8, (n % 0x100) as u8]
}

/// The error for a configuration whose length does not fit in four bytes.
pub open spec fn config_too_large_error() -> Seq<char> {
    "runtime configuration is too large"@
}

/// The configuration as the sidecar reads it from its standard input: the
/// payload's length as four big-endian bytes, then the payload. A payload
/// too long for four bytes of length is refused.
pub fn frame_runtime_config(payload: &Vec<u8>) -> (res: Result<Vec<u8>, SupervisorError>)
    ensures
        payload.len() <= u32::MAX ==> (res matches Ok(framed) && framed@ == be_bytes(payload.len() as u32) + payload@),
        payload.len() > u32::MAX ==> (res matches Err(SupervisorError::Config(m)) && m@ == config_too_large_error()),
{
    if payload.len() > 0xffff_ffffusize {
        return Err(SupervisorError::Config(String::from_str("runtime configuration is too large")));
    }
    let n: u32 = payload.len() as u32;
    let mut framed: Vec<u8> = Vec::new();
    framed.push((n / 0x1000000) as u8);
    framed.push(((n / 0x10000) % 0x100) as u8);
    framed.push(((n / 0x100) % 0x100) as u8);
    framed.push((n % 0x100) as u8);
    let mut i: usize = 0;
    while i < payload.len()
        invariant
            i <= payload.len(),
            payload.len() <= u32::MAX,
            n == payload.len(),
            framed@ == be_bytes(n) + payload@.take(i as int),
        decreases payload.len() - i,
    {
        framed.push(payload[i]);
        i = i + 1;
        proof {
            assert(payload@.take(i as int) == payload@.take(i - 1).push(payload@[i - 1]));
        }
    }
    proof {
        assert(payload@.take(i as int) == payload@);
    }
    Ok(framed)
}

/// What the supervisor knows of its sidecar, apart from the process: the
/// endpoint it announced, the configuration it was started with, the last
/// failure, and the respawn bookkeeping.
pub struct SupervisorState {
    endpoint: Option<SidecarEndpoint>,
    config: Option<RuntimeConfig>,
    last_error: Option<String>,
    budget: RespawnBudget,
}

/// What to do when a caller asks for the sidecar's endpoint.
pub enum EndpointPlan {
    /// The running sidecar's endpoint.
    Current(SidecarEndpoint),
    /// None: the sidecar is down and may not or cannot be restarted.
    Unavailable,
    /// Restart the sidecar with this configuration.
    Respawn(RuntimeConfig),
}

impl SupervisorState {
    /// The announced endpoint, while the sidecar runs.
    pub closed spec fn current_endpoint(&self) -> Option<SidecarEndpoint> {
        self.endpoint
    }

    /// The configuration the sidecar was last started with.
    pub closed spec fn current_config(&self) -> Option<RuntimeConfig> {
        self.config
    }

    /// The text of the last failed attempt, until one succeeds.
    pub closed spec fn last_failure(&self) -> Option<Seq<char>> {
        text_view(self.last_error)
    }

    /// The respawn bookkeeping.
    pub closed spec fn budget(&self) -> BudgetView {
        self.budget@
    }

    /// A supervisor that has started nothing yet.
    pub fn new() -> (res: Self)
        ensures
            res.current_endpoint() is None,
            res.current_config() is None,
            res.last_failure() is None,
            res.budget() == fresh_budget(),
    {
        SupervisorState { endpoint: None, config: None, last_error: None, budget: RespawnBudget::new() }
    }

    /// How long an explicit spawn at `now` waits for the backoff.
    pub fn spawn_delay(&self, now: u64) -> (res: u64)
        ensures
            res == (match self.budget().next_at {
                Some(t) => if t > now { t - now } else { 0 },
                None => 0,
            }),
    {
        self.budget.delay_before_spawn(now)
    }

    fn settle(&mut self, now: u64, outcome: &Result<SidecarEndpoint, SupervisorError>, config: RuntimeConfig)
        ensures
            final(self).budget() == recorded(old(self).budget(), now as int),
            match outcome {
                Ok(e) => final(self).current_endpoint() == Some(*e) && final(self).current_config() == Some(config)
                    && final(self).last_failure() is None,
                Err(e) => final(self).current_endpoint() == old(self).current_endpoint()
                    && final(self).current_config() == old(self).current_config()
                    && final(self).last_failure() == Some(supervisor_message(*e)),
            },
    {
        match outcome {
            Ok(endpoint) => {
                self.endpoint = Some(endpoint.copy());
                self.config = Some(config);
                self.last_error = None;
            },
            Err(error) => {
                self.last_error = Some(error.message());
            },
        }
        self.budget.record_attempt(now);
    }

    /// Takes in the outcome of an explicit spawn at `now` with `config`:
    /// records the attempt, keeps the endpoint and configuration of a
    /// success, and refuses with `RespawnLimitExceeded` a failure past the
    /// window's cap.
    pub fn finish_spawn(&mut self, now: u64, config: RuntimeConfig, outcome: Result<SidecarEndpoint, SupervisorError>) -> (res: Result<SidecarEndpoint, SupervisorError>)
        ensures
            final(self).budget() == recorded(old(self).budget(), now as int),
            match outcome {
                Ok(e) => res == Ok::<SidecarEndpoint, SupervisorError>(e)
                    && final(self).current_endpoint() == Some(e)
                    && final(self).current_config() == Some(config)
                    && final(self).last_failure() is None,
                Err(e) => final(self).current_endpoint() == old(self).current_endpoint()
                    && final(self).current_config() == old(self).current_config()
                    && final(self).last_failure() == Some(supervisor_message(e))
                    && if budget_exhausted(final(self).budget()) {
                        res matches Err(SupervisorError::RespawnLimitExceeded)
                    } else {
                        res == Err::<SidecarEndpoint, SupervisorError>(e)
                    },
            },
    {
        self.settle(now, &outcome, config);
        match outcome {
            Ok(endpoint) => Ok(endpoint),
            Err(error) => if self.budget.exhausted() {
                Err(SupervisorError::RespawnLimitExceeded)
            } else {
                Err(error)
            },
        }
    }

    /// The sidecar process was found to have exited: its endpoint is gone.
    pub fn child_exited(&mut self)
        ensures
            final(self).current_endpoint() is None,
            final(self).current_config() == old(self).current_config(),
            final(self).last_failure() == old(self).last_failure(),
            final(self).budget() == old(self).budget(),
    {
        self.endpoint = None;
    }

    /// What a request for the endpoint does: hand out the running sidecar's
    /// endpoint; else, unless the window's attempts are past the cap or
    /// nothing was ever configured, restart with the last configuration.
    pub fn endpoint_plan(&self) -> (res: EndpointPlan)
        ensures
            match self.current_endpoint() {
                Some(e) => res == EndpointPlan::Current(e),
                None => if budget_exhausted(self.budget()) || self.current_config() is None {
                    res is Unavailable
                } else {
                    res == EndpointPlan::Respawn(self.current_config()->0)
                },
            },
    {
        match &self.endpoint {
            Some(endpoint) => EndpointPlan::Current(endpoint.copy()),
            None => {
                if self.budget.exhausted() {
                    return EndpointPlan::Unavailable;
                }
                match &self.config {
                    Some(config) => EndpointPlan::Respawn(config.copy()),
                    None => EndpointPlan::Unavailable,
                }
            },
        }
    }

    /// Takes in the outcome of a restart at `now` with `config`: records the
    /// attempt and hands out the endpoint of a success.
    pub fn finish_respawn(&mut self, now: u64, config: RuntimeConfig, outcome: Result<SidecarEndpoint, SupervisorError>) -> (res: Option<SidecarEndpoint>)
        ensures
            final(self).budget() == recorded(old(self).budget(), now as int),
            match outcome {
                Ok(e) => res == Some(e) && final(self).current_endpoint() == Some(e)
                    && final(self).current_config() == Some(config)
                    && final(self).last_failure() is None,
                Err(e) => res is None && final(self).current_endpoint() == old(self).current_endpoint()
                    && final(self).current_config() == old(self).current_config()
                    && final(self).last_failure() == Some(supervisor_message(e)),
            },
    {
        self.settle(now, &outcome, config);
        match outcome {
            Ok(endpoint) => Some(endpoint),
            Err(_) => None,
        }
    }

    /// Forgets the sidecar, its configuration and every attempt.
    pub fn shutdown(&mut self)
        ensures
            final(self).current_endpoint() is None,
            final(self).current_config() is None,
            final(self).last_failure() == old(self).last_failure(),
            final(self).budget() == fresh_budget(),
    {
        self.endpoint = None;
        self.config = None;
        self.budget.reset();
    }
}

} // verus!
