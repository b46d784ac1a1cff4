use vstd::prelude::*;

use crate::clock::{since, std_elapsed_ns, NS_PER_MS};
use crate::config::Hook;
use regex::Regex;

verus! {

#[verifier::external_type_specification]
#[verifier::external_body]
pub struct ExRegex(regex::Regex);

#[verifier::external_type_specification]
#[verifier::external_body]
pub struct ExRegexError(regex::Error);

/// The pattern source that a compiled regex was built from.
pub uninterp spec fn regex_source(re: regex::Regex) -> Seq<char>;

/// Whether `Regex::new` accepts the pattern source `p`.
pub uninterp spec fn valid_pattern(p: Seq<char>) -> bool;

/// Whether the regex compiled from `p` matches somewhere in `text`.
pub uninterp spec fn pattern_matches(p: Seq<char>, text: Seq<char>) -> bool;

/// Relies on regex::Regex::new: compiles `pattern` with the default limits,
/// so whether it succeeds depends on the pattern alone.
#[verifier::external_body]
fn compile(pattern: &str) -> (r: Result<Regex, regex::Error>)
    ensures
        r is Ok <==> valid_pattern(pattern@),
        r is Ok ==> regex_source(r->Ok_0) == pattern@,
{
    Regex::new(pattern)
}

/// Relies on regex::Regex::is_match: whether the regex matches anywhere in
/// `text`, which depends on its pattern and `text` alone.
#[verifier::external_body]
fn is_match(re: &Regex, text: &str) -> (r: bool)
    ensures
        r == pattern_matches(regex_source(*re), text@),
{
    re.is_match(text)
}

/// Relies on regex::Error's `Display`: a readable reason for the failure.
#[verifier::external_body]
fn error_text(e: &regex::Error) -> String {
    e.to_string()
}

/// A hook whose pattern compiled.
pub struct CompiledHook {
    pub name: String,
    pub regex: Regex,
    pub command: String,
    /// Minimum milliseconds between two firings, if set.
    pub cooldown: Option<u64>,
}

/// Why a hook engine could not be built.
pub enum HookError {
    /// The hook at `index` (named `name`) has a pattern that does not compile.
    InvalidPattern { index: usize, name: String, reason: String },
}

impl HookError {
    /// The position of the offending hook.
    pub fn index(&self) -> (r: usize)
        ensures
            r == match self {
                HookError::InvalidPattern { index, .. } => *index,
            },
    {
        match self {
            HookError::InvalidPattern { index, .. } => *index,
        }
    }

    /// A one-line description of the failure.
    pub fn message(&self) -> (r: String)
        ensures
            r@ == match self {
                HookError::InvalidPattern { name, reason, .. } => "invalid pattern in hook '"@ + name@
                    + "': "@ + reason@,
            },
    {
        match self {
            HookError::InvalidPattern { name, reason, .. } => {
                let mut s = String::from_str("invalid pattern in hook '");
                s.append(name.as_str());
                s.append("': ");
                s.append(reason.as_str());
                s
            },
        }
    }
}

/// The text of each string, in order.
pub open spec fn texts(v: Seq<String>) -> Seq<Seq<char>> {
    v.map_values(|s: String| s@)
}

/// Whether a hook with a cooldown of `cooldown` milliseconds that last fired
/// at `last` is still held back at `now` (both in nanoseconds).
pub open spec fn cooling(cooldown: Option<u64>, last: Option<u64>, now: u64) -> bool {
    match (cooldown, last) {
        (Some(c), Some(t)) => since(t, now) < c * NS_PER_MS,
        _ => false,
    }
}

proof fn lemma_whole_ms(e: u64, c: u64)
    ensures
        (e / NS_PER_MS < c) == (e < c * NS_PER_MS),
{
    let m = NS_PER_MS as int;
    let q = e as int / m;
    let r = e as int % m;
    assert(e as int == q * m + r && 0 <= r < m) by (nonlinear_arith)
        requires
            m > 0,
            q == e as int / m,
            r == e as int % m,
    ;
    if q < c {
        assert(q + 1 <= c);
        assert((q + 1) * m <= c * m) by (nonlinear_arith)
            requires
                q + 1 <= c,
                m > 0,
        ;
    } else {
        assert(c * m <= q * m) by (nonlinear_arith)
            requires
                c <= q,
                m > 0,
        ;
    }
}

/// The firing decision for one hook, from whether its pattern matched the
/// previous and the current frame, its cooldown in milliseconds, and when
/// it last fired and the time now, in nanoseconds.
pub fn fires_now(
    matched_prev: bool,
    matched_cur: bool,
    cooldown: Option<u64>,
    last: Option<u64>,
    now: u64,
) -> (r: bool)
    ensures
        r == (matched_cur && !matched_prev && !cooling(cooldown, last, now)),
{
    let held = match (cooldown, last) {
        (Some(c), Some(t)) => {
            let elapsed: u64 = if now >= t { now - t } else { 0 };
            proof {
                lemma_whole_ms(elapsed, c);
            }
            elapsed / NS_PER_MS < c
        },
        _ => false,
    };
    matched_cur && !matched_prev && !held
}

/// Whether a hook fires on the frame pair (`prev`, `cur`) at `now`: its
/// pattern matches the current frame and not the previous one, and no
/// cooldown holds it back.
pub open spec fn fires(
    pattern: Seq<char>,
    cooldown: Option<u64>,
    last: Option<u64>,
    prev: Seq<char>,
    cur: Seq<char>,
    now: u64,
) -> bool {
    pattern_matches(pattern, cur) && !pattern_matches(pattern, prev) && !cooling(
        cooldown,
        last,
        now,
    )
}

/// Edge-triggered rule evaluation with cooldown. Times are nanoseconds since
/// the engine's `clock` started.
pub struct HookEngine {
    hooks: Vec<CompiledHook>,
    last_fired: Vec<Option<u64>>,
    clock: std::time::Instant,
}

impl HookEngine {
    pub closed spec fn wf(&self) -> bool {
        self.hooks@.len() == self.last_fired@.len()
    }

    pub closed spec fn hook_count(&self) -> nat {
        self.hooks@.len()
    }

    pub closed spec fn name(&self, i: int) -> Seq<char> {
        self.hooks@[i].name@
    }

    pub closed spec fn pattern(&self, i: int) -> Seq<char> {
        regex_source(self.hooks@[i].regex)
    }

    pub closed spec fn command(&self, i: int) -> Seq<char> {
        self.hooks@[i].command@
    }

    pub closed spec fn cooldown(&self, i: int) -> Option<u64> {
        self.hooks@[i].cooldown
    }

    /// When hook `i` last fired, if it ever did.
    pub closed spec fn last_fired(&self, i: int) -> Option<u64> {
        self.last_fired@[i]
    }

    pub open spec fn fires_at(&self, i: int, prev: Seq<char>, cur: Seq<char>, now: u64) -> bool {
        fires(self.pattern(i), self.cooldown(i), self.last_fired(i), prev, cur, now)
    }

    /// The commands of those among the first `n` hooks that fire, in order.
    pub open spec fn fired_commands(&self, prev: Seq<char>, cur: Seq<char>, now: u64, n: int) -> Seq<
        Seq<char>,
    >
        decreases n,
    {
        if n <= 0 {
            Seq::empty()
        } else {
            let rest = self.fired_commands(prev, cur, now, n - 1);
            if self.fires_at(n - 1, prev, cur, now) {
                rest.push(self.command(n - 1))
            } else {
                rest
            }
        }
    }

    /// `next` is `self` after an evaluation of (`prev`, `cur`) at `now` that
    /// returned `out`.
    pub open spec fn evaluated(
        &self,
        next: &HookEngine,
        prev: Seq<char>,
        cur: Seq<char>,
        now: u64,
        out: Seq<Seq<char>>,
    ) -> bool {
        &&& next.wf()
        &&& next.hook_count() == self.hook_count()
        &&& forall|i: int|
            0 <= i < self.hook_count() ==> {
                &&& next.name(i) == self.name(i)
                &&& next.pattern(i) == self.pattern(i)
                &&& next.command(i) == self.command(i)
                &&& next.cooldown(i) == self.cooldown(i)
                &&& next.last_fired(i) == if self.fires_at(i, prev, cur, now) {
                    Some(now)
                } else {
                    self.last_fired(i)
                }
            }
        &&& out == self.fired_commands(prev, cur, now, self.hook_count() as int)
    }

    /// Compiles every hook's pattern, in order. Fails on the first pattern
    /// that does not compile.
    pub fn new(hooks: Vec<Hook>) -> (r: Result<HookEngine, HookError>)
        ensures
            r is Ok <==> forall|i: int| 0 <= i < hooks@.len() ==> valid_pattern(hooks@[i].regex@),
            r matches Ok(e) ==> {
                &&& e.wf()
                &&& e.hook_count() == hooks@.len()
                &&& forall|i: int|
                    0 <= i < hooks@.len() ==> {
                        &&& e.name(i) == hooks@[i].name@
                        &&& e.pattern(i) == hooks@[i].regex@
                        &&& e.command(i) == hooks@[i].command@
                        &&& e.cooldown(i) == hooks@[i].cooldown_ms
                        &&& e.last_fired(i) is None
                    }
            },
            r matches Err(HookError::InvalidPattern { index, name, .. }) ==> {
                &&& index < hooks@.len()
                &&& !valid_pattern(hooks@[index as int].regex@)
                &&& name@ == hooks@[index as int].name@
                &&& forall|j: int| 0 <= j < index ==> valid_pattern(hooks@[j].regex@)
            },
    {
        let mut compiled: Vec<CompiledHook> = Vec::new();
        let mut last: Vec<Option<u64>> = Vec::new();
        let mut i: usize = 0;
        while i < hooks.len()
            invariant
                0 <= i <= hooks@.len(),
                compiled@.len() == i,
                last@.len() == i,
                forall|j: int|
                    0 <= j < i ==> {
                        &&& valid_pattern(hooks@[j].regex@)
                        &&& compiled@[j].name@ == hooks@[j].name@
                        &&& regex_source(compiled@[j].regex) == hooks@[j].regex@
                        &&& compiled@[j].command@ == hooks@[j].command@
                        &&& compiled@[j].cooldown == hooks@[j].cooldown_ms
                        &&& last@[j] is None
                    },
            decreases hooks@.len() - i,
        {
            let h = &hooks[i];
            match compile(h.regex.as_str()) {
                Ok(re) => {
                    compiled.push(
                        CompiledHook {
                            name: h.name.clone(),
                            regex: re,
                            command: h.command.clone(),
                            cooldown: h.cooldown_ms,
                        },
                    );
                    last.push(None);
                },
                Err(e) => {
                    let reason = error_text(&e);
                    return Err(HookError::InvalidPattern { index: i, name: h.name.clone(), reason });
                },
            }
            i = i + 1;
        }
        Ok(HookEngine { hooks: compiled, last_fired: last, clock: std::time::Instant::now() })
    }

    /// The number of hooks.
    pub fn len(&self) -> (r: usize)
        ensures
            r == self.hook_count(),
    {
        self.hooks.len()
    }

    /// Nanoseconds since the engine was built.
    pub fn now_ns(&self) -> u64 {
        std_elapsed_ns(&self.clock)
    }

    /// Evaluates every hook on the frame pair (`previous`, `current`) at
    /// `now_ns` and returns the commands of those that fire, in declaration
    /// order. Each hook that fires is stamped with `now_ns`.
    pub fn evaluate_at(&mut self, previous: &str, current: &str, now_ns: u64) -> (r: Vec<String>)
        requires
            old(self).wf(),
        ensures
            old(self).evaluated(final(self), previous@, current@, now_ns, texts(r@)),
    {
        let ghost start = *self;
        let mut out: Vec<String> = Vec::new();
        let mut i: usize = 0;
        while i < self.hooks.len()
            invariant
                0 <= i <= self.hooks@.len(),
                self.wf(),
                self.hooks == start.hooks,
                self.clock == start.clock,
                start.wf(),
                forall|j: int|
                    0 <= j < start.hook_count() ==> self.last_fired@[j] == if j < i
                        && start.fires_at(j, previous@, current@, now_ns) {
                        Some(now_ns)
                    } else {
                        start.last_fired@[j]
                    },
                texts(out@) == start.fired_commands(
                    previous@,
                    current@,
                    now_ns,
                    i as int,
                ),
            decreases self.hooks@.len() - i,
        {
            let hook = &self.hooks[i];
            let matched_prev = is_match(&hook.regex, previous);
            let matched_cur = is_match(&hook.regex, current);
            let ghost before = texts(out@);
            if fires_now(matched_prev, matched_cur, hook.cooldown, self.last_fired[i], now_ns) {
                let cmd = hook.command.clone();
                out.push(cmd);
                self.last_fired.set(i, Some(now_ns));
                assert(texts(out@) =~= before.push(start.command(i as int)));
            }
            i = i + 1;
        }
        out
    }

    /// Evaluates every hook on the frame pair (`previous`, `current`) at the
    /// time the clock reads now.
    pub fn evaluate(&mut self, previous: &str, current: &str) -> (r: Vec<String>)
        requires
            old(self).wf(),
        ensures
            exists|now: u64|
                #[trigger] old(self).evaluated(
                    final(self),
                    previous@,
                    current@,
                    now,
                    texts(r@),
                ),
    {
        let now = self.now_ns();
        self.evaluate_at(previous, current, now)
    }
}

/// Evaluating a frame against itself fires nothing: a pattern that matches
/// in both frames of a pair is sustained, not a rising edge.
pub proof fn lemma_no_sustained_fire(e: HookEngine, b: Seq<char>, now: u64, n: int)
    ensures
        forall|i: int| !#[trigger] e.fires_at(i, b, b, now),
        e.fired_commands(b, b, now, n) == Seq::<Seq<char>>::empty(),
    decreases n,
{
    if n > 0 {
        lemma_no_sustained_fire(e, b, now, n - 1);
    }
}

/// After `evaluate(a, b)` returns, `evaluate(b, b)` returns nothing and
/// leaves every firing time as it was.
pub proof fn lemma_no_refire(
    e0: HookEngine,
    e1: HookEngine,
    e2: HookEngine,
    a: Seq<char>,
    b: Seq<char>,
    t1: u64,
    t2: u64,
    out1: Seq<Seq<char>>,
    out2: Seq<Seq<char>>,
)
    requires
        e0.evaluated(&e1, a, b, t1, out1),
        e1.evaluated(&e2, b, b, t2, out2),
    ensures
        out2 == Seq::<Seq<char>>::empty(),
        forall|i: int| 0 <= i < e1.hook_count() ==> e2.last_fired(i) == e1.last_fired(i),
{
    lemma_no_sustained_fire(e1, b, t2, e1.hook_count() as int);
}

/// A hook with a cooldown of `c` milliseconds that fired at `t0` stays
/// silent in every later evaluation made before `t0` plus `c` milliseconds,
/// whatever the frames (times in nanoseconds): `engines[k + 1]` is
/// `engines[k]` after evaluating (`prevs[k]`, `curs[k]`) at `times[k]`, and
/// the first of these evaluations fired hook `i`.
pub proof fn lemma_cooldown(
    engines: Seq<HookEngine>,
    prevs: Seq<Seq<char>>,
    curs: Seq<Seq<char>>,
    times: Seq<u64>,
    outs: Seq<Seq<Seq<char>>>,
    i: int,
    c: u64,
)
    requires
        engines.len() == times.len() + 1,
        prevs.len() == times.len(),
        curs.len() == times.len(),
        outs.len() == times.len(),
        forall|k: int|
            0 <= k < times.len() ==> #[trigger] engines[k].evaluated(
                &engines[k + 1],
                prevs[k],
                curs[k],
                times[k],
                outs[k],
            ),
        times.len() > 0,
        0 <= i < engines[0].hook_count(),
        engines[0].cooldown(i) == Some(c),
        engines[0].fires_at(i, prevs[0], curs[0], times[0]),
        forall|k: int| 0 <= k < times.len() ==> times[0] <= #[trigger] times[k] < times[0] + c * NS_PER_MS,
    ensures
        forall|k: int|
            1 <= k < times.len() ==> !#[trigger] engines[k].fires_at(
                i,
                prevs[k],
                curs[k],
                times[k],
            ),
{
    assert forall|k: int| 1 <= k <= times.len() implies {
        &&& #[trigger] engines[k].last_fired(i) == Some(times[0])
        &&& engines[k].hook_count() == engines[0].hook_count()
        &&& engines[k].cooldown(i) == Some(c)
    } by {
        lemma_cooldown_stamp(engines, prevs, curs, times, outs, i, c, k);
    }
    assert forall|k: int| 1 <= k < times.len() implies !#[trigger] engines[k].fires_at(
        i,
        prevs[k],
        curs[k],
        times[k],
    ) by {
        assert(engines[k].last_fired(i) == Some(times[0]));
        assert(times[0] <= times[k] < times[0] + c * NS_PER_MS);
    }
}

proof fn lemma_cooldown_stamp(
    engines: Seq<HookEngine>,
    prevs: Seq<Seq<char>>,
    curs: Seq<Seq<char>>,
    times: Seq<u64>,
    outs: Seq<Seq<Seq<char>>>,
    i: int,
    c: u64,
    k: int,
)
    requires
        engines.len() == times.len() + 1,
        prevs.len() == times.len(),
        curs.len() == times.len(),
        outs.len() == times.len(),
        forall|k: int|
            0 <= k < times.len() ==> #[trigger] engines[k].evaluated(
                &engines[k + 1],
                prevs[k],
                curs[k],
                times[k],
                outs[k],
            ),
        times.len() > 0,
        0 <= i < engines[0].hook_count(),
        engines[0].cooldown(i) == Some(c),
        engines[0].fires_at(i, prevs[0], curs[0], times[0]),
        forall|k: int| 0 <= k < times.len() ==> times[0] <= #[trigger] times[k] < times[0] + c * NS_PER_MS,
        1 <= k <= times.len(),
    ensures
        engines[k].last_fired(i) == Some(times[0]),
        engines[k].hook_count() == engines[0].hook_count(),
        engines[k].cooldown(i) == Some(c),
    decreases k,
{
    let j = k - 1;
    assert(engines[j].evaluated(&engines[j + 1], prevs[j], curs[j], times[j], outs[j]));
    assert(j + 1 == k);
    if k > 1 {
        lemma_cooldown_stamp(engines, prevs, curs, times, outs, i, c, k - 1);
        assert(times[0] <= times[k - 1] < times[0] + c * NS_PER_MS);
    }
}

} // verus!
