//! Leader sequences: press the leader key, then a sequence of keys, and a
//! string is sent.
use vstd::prelude::*;
use crate::handlers::{Call, CallResult, HandlerResult, ProcessKeys, lemma_prepend_call};
use crate::key_codes::AcceptsKeycode;
use crate::key_stream::{Event, EventStatus, Key};
use crate::output::{KeyOutCatcher, OutView, string_reports};
use crate::state::UnicodeSendMode;

verus! {

/// How the keys typed after the leader relate to the mappings.
#[derive(PartialEq, Clone, Copy, Debug)]
pub enum MatchResult<'a> {
    /// a mapping's sequence was typed: send its string
    Match(&'a str),
    /// no mapping starts with the typed keys
    WontMatch,
    /// the typed keys start some longer mapping
    NeedsMoreInput,
}

/// Whether `prefix` is a prefix of `s`.
pub open spec fn is_prefix_of(prefix: Seq<u32>, s: Seq<u32>) -> bool {
    prefix.len() <= s.len() && s.subrange(0, prefix.len() as int) == prefix
}

/// The result of matching `prefix` against the mappings from the start of
/// `ms`, given the result `acc` for the mappings before them: the first
/// mapping equal to the prefix wins; otherwise a mapping the prefix starts
/// means more input is needed.
pub open spec fn match_scan<'a>(ms: Seq<(Seq<u32>, &'a str)>, prefix: Seq<u32>, acc: MatchResult<'a>) -> MatchResult<'a>
    decreases ms.len(),
{
    if ms.len() == 0 {
        acc
    } else {
        let rest = ms.subrange(1, ms.len() as int);
        let (s, out) = ms[0];
        if is_prefix_of(prefix, s) {
            if s.len() == prefix.len() {
                MatchResult::Match(out)
            } else {
                match_scan(rest, prefix, MatchResult::NeedsMoreInput)
            }
        } else {
            match_scan(rest, prefix, acc)
        }
    }
}

/// What a leader works with while it processes the events.
pub ghost struct LeaderCfg<'a> {
    pub trigger: u32,
    pub mappings: Seq<(Seq<u32>, &'a str)>,
    pub failure: &'a str,
    pub mode: UnicodeSendMode,
}

/// The state of a leader: whether it is active, and the keys released since.
pub ghost struct LeaderState {
    pub active: bool,
    pub prefix: Seq<u32>,
}

/// What successive calls of a leader do, from the state `st`: each call
/// runs the leader over its events with the unicode mode of its output.
pub open spec fn leader_behaviour<'a>(
    trigger: u32,
    mappings: Seq<(Seq<u32>, &'a str)>,
    failure: &'a str,
    st: LeaderState,
    calls: Seq<Call>,
) -> Seq<CallResult>
    decreases calls.len(),
{
    if calls.len() == 0 {
        Seq::empty()
    } else {
        let x = calls[0];
        let cfg = LeaderCfg { trigger: trigger, mappings: mappings, failure: failure, mode: x.1.mode };
        let (st2, evs, reports) = leader_run(cfg, st, x.0);
        seq![(evs, OutView { reports: x.1.reports + reports, ..x.1 }, HandlerResult::NoOp)]
            + leader_behaviour(trigger, mappings, failure, st2, calls.drop_first())
    }
}

/// A leader's treatment of one event: its next state, the event, and the
/// reports it sends.
pub open spec fn leader_step<'a>(cfg: LeaderCfg<'a>, st: LeaderState, entry: (Event, EventStatus)) -> (
    LeaderState,
    (Event, EventStatus),
    Seq<Seq<u8>>,
) {
    if entry.1 != EventStatus::Unhandled {
        (st, entry, Seq::empty())
    } else {
        match entry.0 {
            Event::KeyRelease(kc) => if st.active {
                let prefix = st.prefix.push(kc.keycode);
                let done = (entry.0, EventStatus::Handled);
                match match_scan(cfg.mappings, prefix, MatchResult::WontMatch) {
                    MatchResult::Match(s) => (
                        LeaderState { active: false, prefix: Seq::empty() },
                        done,
                        string_reports(cfg.mode, s@),
                    ),
                    MatchResult::WontMatch => (
                        LeaderState { active: false, prefix: Seq::empty() },
                        done,
                        string_reports(cfg.mode, cfg.failure@),
                    ),
                    MatchResult::NeedsMoreInput => (
                        LeaderState { active: true, prefix: prefix },
                        done,
                        Seq::empty(),
                    ),
                }
            } else if kc.keycode == cfg.trigger {
                (LeaderState { active: true, ..st }, (entry.0, EventStatus::Handled), Seq::empty())
            } else {
                (st, entry, Seq::empty())
            },
            Event::KeyPress(kc) => if kc.keycode == cfg.trigger || st.active {
                (st, (entry.0, EventStatus::Handled), Seq::empty())
            } else {
                (st, entry, Seq::empty())
            },
            Event::TimeOut(_) => (st, entry, Seq::empty()),
        }
    }
}

/// A leader's run over a list of events, oldest first: its state, the
/// events, and the reports it sends.
pub open spec fn leader_run<'a>(cfg: LeaderCfg<'a>, st: LeaderState, events: Seq<(Event, EventStatus)>) -> (
    LeaderState,
    Seq<(Event, EventStatus)>,
    Seq<Seq<u8>>,
)
    decreases events.len(),
{
    if events.len() == 0 {
        (st, events, Seq::empty())
    } else {
        let (st1, evs, reports) = leader_run(cfg, st, events.drop_last());
        let (st2, last, more) = leader_step(cfg, st1, events.last());
        (st2, evs.push(last), reports + more)
    }
}

/// Leader sequences: press and release the trigger, then type one of the
/// mapped key sequences (their releases count) to send its string. A
/// sequence that no mapping starts with sends the failure string. While
/// active, the leader consumes all key presses.
pub struct Leader<'a> {
    trigger: u32,
    mappings: Vec<(Vec<u32>, &'a str)>,
    failure: &'a str,
    pub prefix: Vec<u32>,
    active: bool,
}

impl<'a> Leader<'a> {
    /// The mappings, as sequences of key codes with their strings.
    pub closed spec fn mapping_seqs(self) -> Seq<(Seq<u32>, &'a str)> {
        self.mappings@.map_values(|m: (Vec<u32>, &'a str)| (m.0@, m.1))
    }

    /// The configuration, for the given unicode mode.
    pub closed spec fn cfg(self, mode: UnicodeSendMode) -> LeaderCfg<'a> {
        LeaderCfg {
            trigger: self.trigger,
            mappings: self.mapping_seqs(),
            failure: self.failure,
            mode: mode,
        }
    }

    /// The current state.
    pub closed spec fn current(self) -> LeaderState {
        LeaderState { active: self.active, prefix: self.prefix@ }
    }

    pub fn new<T: AcceptsKeycode, K: AcceptsKeycode>(
        trigger: K,
        mappings: Vec<(Vec<T>, &'a str)>,
        failure: &'a str,
    ) -> (r: Leader<'a>)
        ensures
            r.cfg(UnicodeSendMode::Linux).trigger == trigger.keycode_spec(),
            r.cfg(UnicodeSendMode::Linux).failure == failure,
            r.mapping_seqs().len() == mappings@.len(),
            forall|i: int|
                0 <= i < mappings@.len() ==> (#[trigger] r.mapping_seqs()[i]).1 == mappings@[i].1
                    && r.mapping_seqs()[i].0.len() == mappings@[i].0@.len() && forall|j: int|
                    0 <= j < mappings@[i].0@.len() ==> r.mapping_seqs()[i].0[j]
                        == mappings@[i].0@[j].keycode_spec(),
            r.current() == (LeaderState { active: false, prefix: Seq::empty() }),
    {
        let mut converted: Vec<(Vec<u32>, &'a str)> = Vec::new();
        let mut i: usize = 0;
        while i < mappings.len()
            invariant
                i <= mappings@.len(),
                converted@.len() == i,
                forall|k: int|
                    0 <= k < i ==> (#[trigger] converted@[k]).1 == mappings@[k].1
                        && converted@[k].0@.len() == mappings@[k].0@.len() && forall|j: int|
                        0 <= j < mappings@[k].0@.len() ==> converted@[k].0@[j]
                            == mappings@[k].0@[j].keycode_spec(),
            decreases mappings@.len() - i,
        {
            let mut codes: Vec<u32> = Vec::new();
            let mut j: usize = 0;
            while j < mappings[i].0.len()
                invariant
                    i < mappings@.len(),
                    j <= mappings@[i as int].0@.len(),
                    codes@.len() == j,
                    forall|l: int| 0 <= l < j ==> codes@[l] == mappings@[i as int].0@[l].keycode_spec(),
                decreases mappings@[i as int].0@.len() - j,
            {
                codes.push(mappings[i].0[j].to_u32());
                j += 1;
            }
            converted.push((codes, mappings[i].1));
            i += 1;
        }
        let r = Leader {
            trigger: trigger.to_u32(),
            mappings: converted,
            failure,
            prefix: Vec::new(),
            active: false,
        };
        assert(r.current().prefix =~= Seq::<u32>::empty());
        r
    }

    /// Whether the prefix starts the key sequence `s`.
    fn starts(prefix: &Vec<u32>, s: &Vec<u32>) -> (r: bool)
        ensures
            r == is_prefix_of(prefix@, s@),
    {
        if s.len() < prefix.len() {
            return false;
        }
        let mut i: usize = 0;
        while i < prefix.len()
            invariant
                prefix@.len() <= s@.len(),
                i <= prefix@.len(),
                forall|j: int| 0 <= j < i ==> s@[j] == prefix@[j],
            decreases prefix@.len() - i,
        {
            if s[i] != prefix[i] {
                assert(s@.subrange(0, prefix@.len() as int)[i as int] != prefix@[i as int]);
                return false;
            }
            i += 1;
        }
        assert(s@.subrange(0, prefix@.len() as int) =~= prefix@);
        true
    }

    /// How the keys released since the leader relate to the mappings.
    pub fn match_prefix(&self) -> (r: MatchResult<'a>)
        ensures
            r == match_scan(self.mapping_seqs(), self.current().prefix, MatchResult::WontMatch),
    {
        let ghost ms = self.mapping_seqs();
        let mut result = MatchResult::WontMatch;
        let n = self.mappings.len();
        assert(ms.subrange(0, n as int) =~= ms);
        let mut i: usize = 0;
        while i < n
            invariant
                n == self.mappings@.len(),
                ms == self.mapping_seqs(),
                ms.len() == n,
                i <= n,
                match_scan(ms, self.prefix@, MatchResult::WontMatch) == match_scan(
                    ms.subrange(i as int, n as int),
                    self.prefix@,
                    result,
                ),
            decreases n - i,
        {
            let ghost sub = ms.subrange(i as int, n as int);
            assert(sub[0] == ms[i as int]);
            assert(sub.subrange(1, sub.len() as int) =~= ms.subrange(i + 1, n as int));
            assert(ms[i as int] == (self.mappings@[i as int].0@, self.mappings@[i as int].1));
            if Self::starts(&self.prefix, &self.mappings[i].0) {
                if self.mappings[i].0.len() == self.prefix.len() {
                    return MatchResult::Match(self.mappings[i].1);
                } else {
                    result = MatchResult::NeedsMoreInput;
                }
            }
            i += 1;
        }
        assert(ms.subrange(n as int, n as int).len() == 0);
        result
    }
}

impl<'a> ProcessKeys for Leader<'a> {
    open spec fn processes(&self, events: Seq<(Event, EventStatus)>, out: OutView) -> (
        Seq<(Event, EventStatus)>,
        OutView,
        HandlerResult,
    ) {
        let (st, evs, reports) = leader_run(self.cfg(out.mode), self.current(), events);
        (evs, OutView { reports: out.reports + reports, ..out }, HandlerResult::NoOp)
    }

    closed spec fn behaviour(&self, calls: Seq<Call>) -> Seq<CallResult> {
        leader_behaviour(self.trigger, self.mapping_seqs(), self.failure, self.current(), calls)
    }


    fn process_keys(
        &mut self,
        events: &mut Vec<(Event, EventStatus)>,
        output: &mut KeyOutCatcher,
    ) -> (r: HandlerResult)
        ensures
            r == HandlerResult::NoOp,
            final(self).cfg(old(output).kb().mode()) == old(self).cfg(old(output).kb().mode()),
            ({
                let (st, evs, reports) = leader_run(
                    old(self).cfg(old(output).kb().mode()),
                    old(self).current(),
                    old(events)@,
                );
                &&& final(self).current() == st
                &&& final(events)@ == evs
                &&& final(output).report_log() == old(output).report_log() + reports
            }),
            final(output).registered() == old(output).registered(),
            final(output).debug_log() == old(output).debug_log(),
            final(output).kb() == old(output).kb(),
    {
        let ghost cfg = self.cfg(output.kb().mode());
        let n = events.len();
        let mut i: usize = 0;
        while i < n
            invariant
                n == events@.len(),
                n == old(events)@.len(),
                i <= n,
                cfg == self.cfg(old(output).kb().mode()),
                cfg == old(self).cfg(old(output).kb().mode()),
                ({
                    let (st, evs, reports) = leader_run(
                        cfg,
                        old(self).current(),
                        old(events)@.subrange(0, i as int),
                    );
                    &&& self.current() == st
                    &&& events@.subrange(0, i as int) == evs
                    &&& output.report_log() == old(output).report_log() + reports
                }),
                forall|j: int| i <= j < n ==> #[trigger] events@[j] == old(events)@[j],
                output.registered() == old(output).registered(),
                output.debug_log() == old(output).debug_log(),
                output.kb() == old(output).kb(),
            decreases n - i,
        {
            let ghost before = events@;
            let ghost log0 = output.report_log();
            let ghost st0 = self.current();
            let (event, status) = events[i];
            if status == EventStatus::Unhandled {
                match event {
                    Event::KeyRelease(kc) => {
                        if self.active {
                            self.prefix.push(kc.keycode);
                            match self.match_prefix() {
                                MatchResult::Match(s) => {
                                    output.send_string(s);
                                    self.active = false;
                                    self.prefix.clear();
                                },
                                MatchResult::WontMatch => {
                                    output.send_string(self.failure);
                                    self.active = false;
                                    self.prefix.clear();
                                },
                                MatchResult::NeedsMoreInput => {},
                            }
                            events.set(i, (event, EventStatus::Handled));
                        } else if kc.keycode == self.trigger {
                            self.active = true;
                            events.set(i, (event, EventStatus::Handled));
                        }
                    },
                    Event::KeyPress(kc) => {
                        if kc.keycode == self.trigger {
                            events.set(i, (event, EventStatus::Handled));
                        } else if self.active {
                            // while active, we eat all KeyPresses and only parse KeyRelease
                            events.set(i, (event, EventStatus::Handled));
                        }
                    },
                    Event::TimeOut(_) => {},
                }
            }
            proof {
                assert(old(events)@.subrange(0, i + 1).drop_last() =~= old(events)@.subrange(0, i as int));
                assert(old(events)@.subrange(0, i + 1).last() == old(events)@[i as int]);
                assert(events@.subrange(0, i + 1) =~= before.subrange(0, i as int).push(events@[i as int]));
                let (st1, e1, more) = leader_step(cfg, st0, old(events)@[i as int]);
                assert(self.current() =~= st1);
                assert(output.report_log() =~= log0 + more);
            }
            i += 1;
        }
        assert(old(events)@.subrange(0, n as int) =~= old(events)@);
        assert(events@.subrange(0, n as int) =~= events@);
        proof {
            assert forall|calls: Seq<Call>|
                calls.len() > 0 implies #[trigger] self.behaviour(calls)[0] == self.processes(
                calls[0].0,
                calls[0].1,
            ) by {
            let x = calls[0];
            let (st2, evs, reports) = leader_run(self.cfg(x.1.mode), self.current(), x.0);
            lemma_prepend_call(
                x,
                calls.drop_first(),
                self.processes(x.0, x.1),
                leader_behaviour(self.trigger, self.mapping_seqs(), self.failure, st2, calls.drop_first()),
            );
            }
            assert forall|calls: Seq<Call>|
                calls.len() > 0 implies #[trigger] old(self).behaviour(calls)[0] == old(self).processes(
                calls[0].0,
                calls[0].1,
            ) by {
            let x = calls[0];
            let (st2, evs, reports) = leader_run(old(self).cfg(x.1.mode), old(self).current(), x.0);
            lemma_prepend_call(
                x,
                calls.drop_first(),
                old(self).processes(x.0, x.1),
                leader_behaviour(old(self).trigger, old(self).mapping_seqs(), old(self).failure, st2, calls.drop_first()),
            );
            }
            let x = (old(events)@, old(output)@);
            assert forall|calls: Seq<Call>|
                #[trigger] self.behaviour(calls) == old(self).behaviour(seq![x] + calls).drop_first() by {
                lemma_prepend_call(x, calls, old(self).processes(x.0, x.1), self.behaviour(calls));
            }
        }
        HandlerResult::NoOp
    }

    fn default_enabled(&self) -> (r: bool) {
        true
    }

    fn oneshot_triggers(&self) -> (r: Vec<u32>) {
        Vec::new()
    }
}

/// With no mapping that the keys start, the scan gives back what it was
/// given.
proof fn lemma_scan_none<'a>(ms: Seq<(Seq<u32>, &'a str)>, p: Seq<u32>, acc: MatchResult<'a>)
    requires
        forall|i: int| 0 <= i < ms.len() ==> !is_prefix_of(p, #[trigger] ms[i].0),
    ensures
        match_scan(ms, p, acc) == acc,
    decreases ms.len(),
{
    if ms.len() > 0 {
        let rest = ms.subrange(1, ms.len() as int);
        assert forall|i: int| 0 <= i < rest.len() implies !is_prefix_of(p, #[trigger] rest[i].0) by {
            assert(rest[i] == ms[i + 1]);
        }
        assert(!is_prefix_of(p, ms[0].0));
        lemma_scan_none(rest, p, acc);
    }
}

/// With no mapping equal to the keys, the scan gives back what it was given
/// or `NeedsMoreInput`.
proof fn lemma_scan_no_equal<'a>(ms: Seq<(Seq<u32>, &'a str)>, p: Seq<u32>, acc: MatchResult<'a>)
    requires
        forall|i: int| 0 <= i < ms.len() ==> #[trigger] ms[i].0 != p,
    ensures
        match_scan(ms, p, acc) == acc || match_scan(ms, p, acc) == MatchResult::<'a>::NeedsMoreInput,
        acc == MatchResult::<'a>::NeedsMoreInput ==> match_scan(ms, p, acc) == acc,
    decreases ms.len(),
{
    if ms.len() > 0 {
        let rest = ms.subrange(1, ms.len() as int);
        assert forall|i: int| 0 <= i < rest.len() implies #[trigger] rest[i].0 != p by {
            assert(rest[i] == ms[i + 1]);
        }
        let s = ms[0].0;
        assert(s != p);
        if is_prefix_of(p, s) && s.len() == p.len() {
            assert(s.subrange(0, p.len() as int) =~= s);
        }
        lemma_scan_no_equal(rest, p, acc);
        lemma_scan_no_equal(rest, p, MatchResult::NeedsMoreInput);
    }
}

/// With no mapping equal to the keys and one that they start, the scan
/// asks for more input.
proof fn lemma_scan_more<'a>(ms: Seq<(Seq<u32>, &'a str)>, p: Seq<u32>, acc: MatchResult<'a>, k: int)
    requires
        0 <= k < ms.len(),
        is_prefix_of(p, ms[k].0),
        forall|i: int| 0 <= i < ms.len() ==> #[trigger] ms[i].0 != p,
        !(acc is Match),
    ensures
        match_scan(ms, p, acc) == MatchResult::<'a>::NeedsMoreInput,
    decreases ms.len(),
{
    let rest = ms.subrange(1, ms.len() as int);
    assert forall|i: int| 0 <= i < rest.len() implies #[trigger] rest[i].0 != p by {
        assert(rest[i] == ms[i + 1]);
    }
    let s = ms[0].0;
    if is_prefix_of(p, s) && s.len() == p.len() {
        assert(s.subrange(0, p.len() as int) =~= s);
    }
    if k == 0 {
        lemma_scan_no_equal(rest, p, MatchResult::NeedsMoreInput);
    } else {
        assert(rest[k - 1] == ms[k]);
        if is_prefix_of(p, s) {
            lemma_scan_more(rest, p, MatchResult::NeedsMoreInput, k - 1);
        } else {
            lemma_scan_more(rest, p, acc, k - 1);
        }
    }
}

/// The first mapping equal to the keys decides the scan.
proof fn lemma_scan_first<'a>(ms: Seq<(Seq<u32>, &'a str)>, p: Seq<u32>, acc: MatchResult<'a>, j: int)
    requires
        0 <= j < ms.len(),
        ms[j].0 == p,
        forall|i: int| 0 <= i < j ==> #[trigger] ms[i].0 != p,
    ensures
        match_scan(ms, p, acc) == MatchResult::Match(ms[j].1),
    decreases ms.len(),
{
    let rest = ms.subrange(1, ms.len() as int);
    let s = ms[0].0;
    assert(p.subrange(0, p.len() as int) =~= p);
    if j > 0 {
        assert forall|i: int| 0 <= i < j - 1 implies #[trigger] rest[i].0 != p by {
            assert(rest[i] == ms[i + 1]);
        }
        assert(rest[j - 1] == ms[j]);
        if is_prefix_of(p, s) && s.len() == p.len() {
            assert(s.subrange(0, p.len() as int) =~= s);
            assert(ms[0].0 != p);
        }
        lemma_scan_first(rest, p, acc, j - 1);
        lemma_scan_first(rest, p, MatchResult::NeedsMoreInput, j - 1);
    }
}

/// A key released while the leader is active extends the typed keys `p`,
/// and decides the leader's next step:
/// - where no mapping starts with `p`, the leader sends the failure string
///   and becomes inactive with no keys typed, so a press of another key
///   than the trigger that follows passes on untouched;
/// - where some mapping is `p`, it sends the string of the first such
///   mapping and becomes inactive with no keys typed;
/// - where no mapping is `p` but some starts with it, it sends nothing and
///   stays active with `p` typed.
/// In each case the release is handled.
pub proof fn law_leader_release<'a>(cfg: LeaderCfg<'a>, st: LeaderState, kc: Key, next: Key)
    requires
        st.active,
    ensures
        leader_step(cfg, st, (Event::KeyRelease(kc), EventStatus::Unhandled)).1 == (
            Event::KeyRelease(kc),
            EventStatus::Handled,
        ),
        (forall|i: int|
            0 <= i < cfg.mappings.len() ==> !(st.prefix.len() + 1 <= (#[trigger] cfg.mappings[i]).0.len()
                && cfg.mappings[i].0.subrange(0, st.prefix.len() + 1 as int) == st.prefix.push(kc.keycode)))
            ==> {
            &&& leader_step(cfg, st, (Event::KeyRelease(kc), EventStatus::Unhandled)).0 == LeaderState {
                active: false,
                prefix: Seq::empty(),
            }
            &&& leader_step(cfg, st, (Event::KeyRelease(kc), EventStatus::Unhandled)).2 == string_reports(
                cfg.mode,
                cfg.failure@,
            )
            &&& (next.keycode != cfg.trigger ==> leader_run(
                cfg,
                st,
                seq![
                    (Event::KeyRelease(kc), EventStatus::Unhandled),
                    (Event::KeyPress(next), EventStatus::Unhandled),
                ],
            ).1[1] == (Event::KeyPress(next), EventStatus::Unhandled))
        },
        forall|j: int|
            0 <= j < cfg.mappings.len() && cfg.mappings[j].0 == st.prefix.push(kc.keycode) && (forall|i: int|
                0 <= i < j ==> (#[trigger] cfg.mappings[i]).0 != st.prefix.push(kc.keycode)) ==> {
                &&& leader_step(cfg, st, (Event::KeyRelease(kc), EventStatus::Unhandled)).0 == LeaderState {
                    active: false,
                    prefix: Seq::empty(),
                }
                &&& leader_step(cfg, st, (Event::KeyRelease(kc), EventStatus::Unhandled)).2
                    == string_reports(cfg.mode, cfg.mappings[j].1@)
            },
        forall|k: int|
            0 <= k < cfg.mappings.len() && st.prefix.len() + 1 < cfg.mappings[k].0.len()
                && cfg.mappings[k].0.subrange(0, st.prefix.len() + 1 as int) == st.prefix.push(kc.keycode) && (forall|
                i: int,
            | 0 <= i < cfg.mappings.len() ==> (#[trigger] cfg.mappings[i]).0 != st.prefix.push(kc.keycode)) ==> {
                &&& leader_step(cfg, st, (Event::KeyRelease(kc), EventStatus::Unhandled)).0 == LeaderState {
                    active: true,
                    prefix: st.prefix.push(kc.keycode),
                }
                &&& leader_step(cfg, st, (Event::KeyRelease(kc), EventStatus::Unhandled)).2 == Seq::<
                    Seq<u8>,
                >::empty()
            },
{
    let p = st.prefix.push(kc.keycode);
    let ms = cfg.mappings;
    let entry = (Event::KeyRelease(kc), EventStatus::Unhandled);
    let press = (Event::KeyPress(next), EventStatus::Unhandled);
    if forall|i: int|
        0 <= i < ms.len() ==> !(p.len() <= (#[trigger] ms[i]).0.len() && ms[i].0.subrange(0, p.len() as int)
            == p) {
        assert forall|i: int| 0 <= i < ms.len() implies !is_prefix_of(p, #[trigger] ms[i].0) by {
            assert(!(p.len() <= ms[i].0.len() && ms[i].0.subrange(0, p.len() as int) == p));
        }
        lemma_scan_none(ms, p, MatchResult::WontMatch);
        let evs = seq![entry, press];
        assert(evs.drop_last() =~= seq![entry]);
        assert(seq![entry].drop_last() =~= Seq::<(Event, EventStatus)>::empty());
        let r0 = leader_run(cfg, st, Seq::<(Event, EventStatus)>::empty());
        let r1 = leader_run(cfg, st, seq![entry]);
        assert(r1.0 == LeaderState { active: false, prefix: Seq::<u32>::empty() });
        assert(evs.len() == 2 && evs.last() == press);
        let r2 = leader_run(cfg, st, evs);
        if next.keycode != cfg.trigger {
            assert(leader_step(cfg, r1.0, press).1 == press);
            assert(r2.1 == r1.1.push(press));
        }
        assert(r1.1.len() == 1);
    }
    assert forall|j: int|
        0 <= j < ms.len() && ms[j].0 == p && (forall|i: int| 0 <= i < j ==> (#[trigger] ms[i]).0 != p) implies {
        &&& leader_step(cfg, st, entry).0 == LeaderState { active: false, prefix: Seq::empty() }
        &&& leader_step(cfg, st, entry).2 == string_reports(cfg.mode, ms[j].1@)
    } by {
        lemma_scan_first(ms, p, MatchResult::WontMatch, j);
    }
    assert forall|k: int|
        0 <= k < ms.len() && p.len() < ms[k].0.len() && ms[k].0.subrange(0, p.len() as int) == p && (forall|
            i: int,
        | 0 <= i < ms.len() ==> (#[trigger] ms[i]).0 != p) implies {
        &&& leader_step(cfg, st, entry).0 == LeaderState { active: true, prefix: p }
        &&& leader_step(cfg, st, entry).2 == Seq::<Seq<u8>>::empty()
    } by {
        lemma_scan_more(ms, p, MatchResult::WontMatch, k);
    }
    let m = match_scan(ms, p, MatchResult::WontMatch);
    assert(m is Match || m is WontMatch || m is NeedsMoreInput);
}

} // verus!
