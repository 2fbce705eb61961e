//! Flapping-resistant scene transition FSM.
//!
//! Defends against scene classification noise via:
//!
//! - **Hysteresis**: `enter_hi` (0.70) > `exit_lo` (0.55)
//! - **Dwell**: a candidate must persist `dwell` (3 s) before committing
//! - **Hot switch**: confidence ≥ `hot_switch_floor` (0.85) bypasses dwell
//! - **Uncertain state**: confidence collapse → "thinking" (no flap UI)
//!
//! Confidences are fixed-point (`SCALE` = 1.0) and times are microseconds.

use vstd::prelude::*;

use crate::text::str_eq;

verus! {

/// Tunable thresholds for the FSM.
#[derive(Debug, Clone, Copy)]
pub struct FsmConfig {
    /// Confidence at/above which a candidate can eventually transition.
    pub enter_hi: i64,
    /// Confidence below which the current scene is considered lost.
    pub exit_lo: i64,
    /// Minimum candidate persistence before committing a transition (µs).
    pub dwell: i64,
    /// Confidence at/above which a candidate bypasses dwell entirely.
    pub hot_switch_floor: i64,
}

impl FsmConfig {
    /// The default thresholds: 0.70 / 0.55 / 3 s / 0.85.
    pub open spec fn spec_default() -> FsmConfig {
        FsmConfig { enter_hi: 700_000, exit_lo: 550_000, dwell: 3_000_000, hot_switch_floor: 850_000 }
    }
}

impl Default for FsmConfig {
    fn default() -> (r: Self)
        ensures
            r == FsmConfig::spec_default(),
    {
        FsmConfig { enter_hi: 700_000, exit_lo: 550_000, dwell: 3_000_000, hot_switch_floor: 850_000 }
    }
}

/// Output of `FlappingFsm::step`.
#[derive(Debug, Clone, PartialEq)]
pub enum TransitionOutput {
    /// Hold current scene (or None) without transition.
    Hold {
        /// Current scene id if any.
        scene: Option<String>,
    },
    /// Transition committed from `from` → `to`.
    Transition {
        /// Previous scene (None if initial).
        from: Option<String>,
        /// New scene id.
        to: String,
    },
    /// Enter "thinking" — show uncertainty rather than flap.
    Uncertain {
        /// Most recent scene (for context display).
        last: Option<String>,
    },
}

/// Abstract output: scene ids as character sequences.
pub enum OutputView {
    Hold(Option<Seq<char>>),
    Transition(Option<Seq<char>>, Seq<char>),
    Uncertain(Option<Seq<char>>),
}

pub open spec fn opt_string_view(o: Option<String>) -> Option<Seq<char>> {
    match o {
        Some(s) => Some(s@),
        None => None,
    }
}

pub open spec fn opt_str_view(o: Option<&str>) -> Option<Seq<char>> {
    match o {
        Some(s) => Some(s@),
        None => None,
    }
}

impl View for TransitionOutput {
    type V = OutputView;

    open spec fn view(&self) -> OutputView {
        match *self {
            TransitionOutput::Hold { scene } => OutputView::Hold(opt_string_view(scene)),
            TransitionOutput::Transition { from, to } => OutputView::Transition(
                opt_string_view(from),
                to@,
            ),
            TransitionOutput::Uncertain { last } => OutputView::Uncertain(opt_string_view(last)),
        }
    }
}

/// Abstract FSM state.
pub enum Phase {
    Initial,
    Stable(Seq<char>),
    Pending(Option<Seq<char>>, Seq<char>, int),
    Uncertain,
}

/// The scene the FSM currently reports.
pub open spec fn current_of(p: Phase) -> Option<Seq<char>> {
    match p {
        Phase::Stable(s) => Some(s),
        Phase::Pending(cur, _, _) => cur,
        _ => None,
    }
}

/// Leaving `Pending` without committing: back to the current scene, or to
/// `Uncertain` when there is none.
pub open spec fn revert(cur: Option<Seq<char>>) -> (Phase, OutputView) {
    match cur {
        Some(c) => (Phase::Stable(c), OutputView::Hold(Some(c))),
        None => (Phase::Uncertain, OutputView::Uncertain(None)),
    }
}

/// One step of the FSM: from phase `p`, on classifier output `scene` with
/// confidence `c` at time `now`, the next phase and the output.
pub open spec fn step_spec(cfg: FsmConfig, p: Phase, scene: Option<Seq<char>>, c: int, now: int) -> (Phase, OutputView) {
    if scene is Some && c >= cfg.hot_switch_floor {
        // Hot switch: very high confidence bypasses dwell.
        let s = scene->0;
        let from = current_of(p);
        (Phase::Stable(s), if from == Some(s) { OutputView::Hold(Some(s)) } else { OutputView::Transition(from, s) })
    } else {
        match p {
            Phase::Initial => if scene is Some && c >= cfg.enter_hi {
                (Phase::Stable(scene->0), OutputView::Transition(None, scene->0))
            } else {
                (Phase::Initial, OutputView::Hold(None))
            },
            Phase::Uncertain => if scene is Some && c >= cfg.enter_hi {
                (Phase::Stable(scene->0), OutputView::Transition(None, scene->0))
            } else {
                (Phase::Uncertain, OutputView::Hold(None))
            },
            Phase::Stable(cur) => if c < cfg.exit_lo {
                (Phase::Uncertain, OutputView::Uncertain(Some(cur)))
            } else if scene is Some && scene->0 != cur && c >= cfg.enter_hi {
                (Phase::Pending(Some(cur), scene->0, now), OutputView::Hold(Some(cur)))
            } else {
                (Phase::Stable(cur), OutputView::Hold(Some(cur)))
            },
            Phase::Pending(cur, proposed, since) => if cur is Some && scene == cur && c >= cfg.exit_lo {
                // Back to the current scene: abandon the candidate.
                (Phase::Stable(cur->0), OutputView::Hold(cur))
            } else if scene == Some(proposed) {
                if c >= cfg.enter_hi {
                    if now - since >= cfg.dwell {
                        (Phase::Stable(proposed), OutputView::Transition(cur, proposed))
                    } else {
                        (Phase::Pending(cur, proposed, since), OutputView::Hold(cur))
                    }
                } else {
                    revert(cur)
                }
            } else if scene is Some && c >= cfg.enter_hi {
                // A third scene jumped in: restart pending with the new target.
                (Phase::Pending(cur, scene->0, now), OutputView::Hold(cur))
            } else {
                revert(cur)
            },
        }
    }
}

/// A pending candidate is never the scene already current.
pub open spec fn phase_ok(p: Phase) -> bool {
    match p {
        Phase::Pending(cur, proposed, _) => cur != Some(proposed),
        _ => true,
    }
}

/// Thresholds are ordered as hysteresis needs: `exit_lo <= enter_hi`.
pub open spec fn config_ok(cfg: FsmConfig) -> bool {
    cfg.exit_lo <= cfg.enter_hi
}

/// Every output reports the FSM truthfully: a `Hold` names the current scene,
/// which did not change; a `Transition` goes from the scene current before
/// the step to the classifier's scene, which is then current and differs
/// from the previous one; `Uncertain` names the scene that was current and
/// leaves the FSM uncertain. Steps keep `phase_ok`.
pub proof fn lemma_step_reports_truthfully(cfg: FsmConfig, p: Phase, scene: Option<Seq<char>>, c: int, now: int)
    requires
        config_ok(cfg),
        phase_ok(p),
    ensures
        ({
            let (q, out) = step_spec(cfg, p, scene, c, now);
            &&& phase_ok(q)
            &&& match out {
                OutputView::Hold(sc) => sc == current_of(q) && current_of(q) == current_of(p),
                OutputView::Transition(from, to) => from == current_of(p) && current_of(q) == Some(to)
                    && scene == Some(to) && from != Some(to),
                OutputView::Uncertain(last) => q is Uncertain && last == current_of(p),
            }
        }),
{
}

/// No flapping: a step whose confidence stays below both `enter_hi` and the
/// hot-switch floor never commits a transition.
pub proof fn lemma_no_transition_below_enter(cfg: FsmConfig, p: Phase, scene: Option<Seq<char>>, c: int, now: int)
    requires
        c < cfg.enter_hi,
        c < cfg.hot_switch_floor,
    ensures
        !(step_spec(cfg, p, scene, c, now).1 is Transition),
{
}

/// Hot switch: a scene seen at or above the hot-switch floor becomes the
/// stable scene at once, whatever the state.
pub proof fn lemma_hot_switch(cfg: FsmConfig, p: Phase, scene: Option<Seq<char>>, c: int, now: int)
    requires
        scene is Some,
        c >= cfg.hot_switch_floor,
    ensures
        step_spec(cfg, p, scene, c, now).0 == Phase::Stable(scene->0),
{
}

/// Dwell: below the hot-switch floor, leaving a current scene takes a
/// candidate that was proposed at least `dwell` ago and is seen again now.
pub proof fn lemma_dwell_respected(cfg: FsmConfig, p: Phase, scene: Option<Seq<char>>, c: int, now: int)
    requires
        c < cfg.hot_switch_floor,
        current_of(p) is Some,
        step_spec(cfg, p, scene, c, now).1 is Transition,
    ensures
        p matches Phase::Pending(_, proposed, since) && scene == Some(proposed) && now - since >= cfg.dwell
            && c >= cfg.enter_hi,
{
}

/// A run of the FSM over a sequence of `(scene, confidence, time)` inputs:
/// the final phase and the number of transitions committed.
pub open spec fn run(cfg: FsmConfig, p: Phase, inputs: Seq<(Option<Seq<char>>, int, int)>) -> (Phase, nat)
    decreases inputs.len(),
{
    if inputs.len() == 0 {
        (p, 0)
    } else {
        let (q0, n0) = run(cfg, p, inputs.drop_last());
        let (scene, c, now) = inputs.last();
        let (q, out) = step_spec(cfg, q0, scene, c, now);
        (q, if out is Transition { n0 + 1 } else { n0 })
    }
}

/// No flapping over a whole run: when every confidence stays below
/// `enter_hi` and the hot-switch floor, no transition is ever committed.
pub proof fn lemma_run_without_flap(cfg: FsmConfig, p: Phase, inputs: Seq<(Option<Seq<char>>, int, int)>)
    requires
        forall|i: int| 0 <= i < inputs.len() ==> (#[trigger] inputs[i]).1 < cfg.enter_hi
            && inputs[i].1 < cfg.hot_switch_floor,
    ensures
        run(cfg, p, inputs).1 == 0,
    decreases inputs.len(),
{
    if inputs.len() > 0 {
        let init = inputs.drop_last();
        assert forall|i: int| 0 <= i < init.len() implies (#[trigger] init[i]).1 < cfg.enter_hi
            && init[i].1 < cfg.hot_switch_floor by {
            assert(init[i] == inputs[i]);
        }
        lemma_run_without_flap(cfg, p, init);
        let (q0, n0) = run(cfg, p, init);
        let (scene, c, now) = inputs.last();
        lemma_no_transition_below_enter(cfg, q0, scene, c, now);
    }
}

/// The output of the `i`-th step of a run from phase `p`.
pub open spec fn output_at(cfg: FsmConfig, p: Phase, inputs: Seq<(Option<Seq<char>>, int, int)>, i: int) -> OutputView {
    let (scene, c, now) = inputs[i];
    step_spec(cfg, run(cfg, p, inputs.take(i)).0, scene, c, now).1
}

/// While a candidate keeps being seen inside the dwell, the run stays
/// pending on it, with the clock started at its first sighting.
proof fn lemma_dwell_pending(cfg: FsmConfig, cur: Seq<char>, q: Seq<char>, inputs: Seq<(Option<Seq<char>>, int, int)>, j: int)
    requires
        config_ok(cfg),
        q != cur,
        1 <= j < inputs.len(),
        forall|i: int| 0 <= i < inputs.len() ==> (#[trigger] inputs[i]).0 == Some(q) && cfg.enter_hi
            <= inputs[i].1 < cfg.hot_switch_floor,
        forall|i: int| 1 <= i < inputs.len() - 1 ==> (#[trigger] inputs[i]).2 - inputs[0].2 < cfg.dwell,
    ensures
        run(cfg, Phase::Stable(cur), inputs.take(j)).0 == Phase::Pending(Some(cur), q, inputs[0].2),
    decreases j,
{
    let pre = inputs.take(j);
    assert(pre.last() == inputs[j - 1]);
    assert(inputs[j - 1].0 == Some(q));
    if j == 1 {
        assert(pre.drop_last() =~= Seq::<(Option<Seq<char>>, int, int)>::empty());
        assert(run(cfg, Phase::Stable(cur), pre.drop_last()).0 == Phase::Stable(cur));
    } else {
        lemma_dwell_pending(cfg, cur, q, inputs, j - 1);
        assert(pre.drop_last() =~= inputs.take(j - 1));
        assert(inputs[j - 1].2 - inputs[0].2 < cfg.dwell);
    }
}

/// Dwell over a run: from a stable scene, the first sighting of another
/// scene `q` (below the hot-switch floor, at or above `enter_hi`) starts
/// the dwell clock and holds the current scene; each later sighting of `q`
/// inside the dwell, counted from that first sighting, holds it too; and a
/// sighting of `q` at least `dwell` after the first one commits the
/// transition to `q`.
pub proof fn lemma_dwell_from_first_sighting(
    cfg: FsmConfig,
    cur: Seq<char>,
    q: Seq<char>,
    inputs: Seq<(Option<Seq<char>>, int, int)>,
)
    requires
        config_ok(cfg),
        q != cur,
        inputs.len() >= 2,
        forall|i: int| 0 <= i < inputs.len() ==> (#[trigger] inputs[i]).0 == Some(q) && cfg.enter_hi
            <= inputs[i].1 < cfg.hot_switch_floor,
        forall|i: int| 1 <= i < inputs.len() - 1 ==> (#[trigger] inputs[i]).2 - inputs[0].2 < cfg.dwell,
    ensures
        forall|i: int| 0 <= i < inputs.len() - 1 ==> #[trigger] output_at(cfg, Phase::Stable(cur), inputs, i)
            == OutputView::Hold(Some(cur)),
        output_at(cfg, Phase::Stable(cur), inputs, inputs.len() - 1) == if inputs.last().2 - inputs[0].2
            >= cfg.dwell {
            OutputView::Transition(Some(cur), q)
        } else {
            OutputView::Hold(Some(cur))
        },
        run(cfg, Phase::Stable(cur), inputs).0 == if inputs.last().2 - inputs[0].2 >= cfg.dwell {
            Phase::Stable(q)
        } else {
            Phase::Pending(Some(cur), q, inputs[0].2)
        },
{
    let n = inputs.len() as int;
    assert forall|i: int| 0 <= i < n - 1 implies #[trigger] output_at(cfg, Phase::Stable(cur), inputs, i)
        == OutputView::Hold(Some(cur)) by {
        assert(inputs[i].0 == Some(q));
        if i == 0 {
            assert(inputs.take(0) =~= Seq::<(Option<Seq<char>>, int, int)>::empty());
        } else {
            lemma_dwell_pending(cfg, cur, q, inputs, i);
        }
    }
    lemma_dwell_pending(cfg, cur, q, inputs, n - 1);
    assert(inputs[n - 1].0 == Some(q));
    assert(inputs.drop_last() =~= inputs.take(n - 1));
}

/// Where a pending candidate comes from: in a run that did not start
/// pending, a run left pending on scene `s` since time `since` saw `s`, at
/// or above `enter_hi`, at every step from one taken at time `since` on.
proof fn lemma_pending_provenance(cfg: FsmConfig, p: Phase, inputs: Seq<(Option<Seq<char>>, int, int)>)
    requires
        !(p is Pending),
    ensures
        run(cfg, p, inputs).0 matches Phase::Pending(_, s, since) ==> exists|j: int|
            0 <= j < inputs.len() && inputs[j].2 == since && forall|m: int|
                j <= m < inputs.len() ==> (#[trigger] inputs[m]).0 == Some(s) && inputs[m].1 >= cfg.enter_hi,
    decreases inputs.len(),
{
    if inputs.len() > 0 {
        let n = inputs.len() as int;
        let init = inputs.drop_last();
        lemma_pending_provenance(cfg, p, init);
        let q0 = run(cfg, p, init).0;
        let (scene, c, now) = inputs.last();
        if let Phase::Pending(_, s, since) = run(cfg, p, inputs).0 {
            if since == now && scene == Some(s) && c >= cfg.enter_hi {
                assert forall|m: int| n - 1 <= m < n implies (#[trigger] inputs[m]).0 == Some(s) && inputs[m].1
                    >= cfg.enter_hi by {
                    assert(inputs[m] == inputs.last());
                }
            } else {
                assert(q0 matches Phase::Pending(_, s0, since0) && s0 == s && since0 == since);
                assert(scene == Some(s) && c >= cfg.enter_hi);
                let j = choose|j: int|
                    0 <= j < init.len() && init[j].2 == since && forall|m: int|
                        j <= m < init.len() ==> (#[trigger] init[m]).0 == Some(s) && init[m].1 >= cfg.enter_hi;
                assert(inputs[j] == init[j]);
                assert forall|m: int| j <= m < n implies (#[trigger] inputs[m]).0 == Some(s) && inputs[m].1
                    >= cfg.enter_hi by {
                    if m < n - 1 {
                        assert(inputs[m] == init[m]);
                    } else {
                        assert(inputs[m] == inputs.last());
                    }
                }
            }
        }
    }
}

/// Dwell is counted from the first sighting of the candidate: in a run that
/// did not start pending, a step below the hot-switch floor that leaves a
/// current scene `from` for scene `s` comes after an earlier step, at least
/// `dwell` before it, from which on every step (this one included) saw `s`
/// at or above `enter_hi`. So a candidate that replaces another one starts
/// its own dwell clock when it is first seen.
pub proof fn lemma_transition_needs_dwell(
    cfg: FsmConfig,
    p: Phase,
    inputs: Seq<(Option<Seq<char>>, int, int)>,
    from: Seq<char>,
    s: Seq<char>,
)
    requires
        !(p is Pending),
        inputs.len() > 0,
        inputs.last().1 < cfg.hot_switch_floor,
        output_at(cfg, p, inputs, inputs.len() - 1) == OutputView::Transition(Some(from), s),
    ensures
        exists|j: int|
            0 <= j < inputs.len() - 1 && inputs.last().2 - inputs[j].2 >= cfg.dwell && forall|m: int|
                j <= m < inputs.len() ==> (#[trigger] inputs[m]).0 == Some(s) && inputs[m].1 >= cfg.enter_hi,
{
    let n = inputs.len() as int;
    let init = inputs.take(n - 1);
    assert(inputs[n - 1] == inputs.last());
    lemma_pending_provenance(cfg, p, init);
    let q0 = run(cfg, p, init).0;
    let (scene, c, now) = inputs.last();
    assert(q0 matches Phase::Pending(_, s0, since) && s0 == s && now - since >= cfg.dwell);
    assert(scene == Some(s) && c >= cfg.enter_hi);
    if let Phase::Pending(_, _, since) = q0 {
        let j = choose|j: int|
            0 <= j < init.len() && init[j].2 == since && forall|m: int|
                j <= m < init.len() ==> (#[trigger] init[m]).0 == Some(s) && init[m].1 >= cfg.enter_hi;
        assert(inputs[j] == init[j]);
        assert forall|m: int| j <= m < n implies (#[trigger] inputs[m]).0 == Some(s) && inputs[m].1 >= cfg.enter_hi by {
            if m < n - 1 {
                assert(inputs[m] == init[m]);
            }
        }
    }
}

#[derive(Debug)]
enum FsmState {
    Initial,
    Stable { scene: String },
    Pending { current: Option<String>, proposed: String, proposed_since: i64 },
    Uncertain,
}

spec fn state_view(s: FsmState) -> Phase {
    match s {
        FsmState::Initial => Phase::Initial,
        FsmState::Stable { scene } => Phase::Stable(scene@),
        FsmState::Pending { current, proposed, proposed_since } => Phase::Pending(
            opt_string_view(current),
            proposed@,
            proposed_since as int,
        ),
        FsmState::Uncertain => Phase::Uncertain,
    }
}

fn clone_opt_string(o: &Option<String>) -> (r: Option<String>)
    ensures
        r == *o,
{
    match o {
        Some(s) => Some(s.clone()),
        None => None,
    }
}

/// Flapping-resistant scene transition FSM.
///
/// Call `step(scene, confidence, now)` per evaluation tick. The FSM decides
/// whether to hold, transition, or enter Uncertain based on the config.
#[derive(Debug)]
pub struct FlappingFsm {
    config: FsmConfig,
    state: FsmState,
}

impl FlappingFsm {
    /// The thresholds in force.
    pub closed spec fn cfg(&self) -> FsmConfig {
        self.config
    }

    /// The abstract state.
    pub closed spec fn phase(&self) -> Phase {
        state_view(self.state)
    }

    /// Construct with custom config.
    pub fn new(config: FsmConfig) -> (r: Self)
        ensures
            r.cfg() == config,
            r.phase() == Phase::Initial,
    {
        FlappingFsm { config, state: FsmState::Initial }
    }

    /// Default config (0.70 / 0.55 / 3 s / 0.85).
    pub fn default_config() -> (r: Self)
        ensures
            r.cfg() == FsmConfig::spec_default(),
            r.phase() == Phase::Initial,
    {
        Self::new(FsmConfig::default())
    }

    /// Current scene id, if any.
    pub fn current_scene(&self) -> (r: Option<&str>)
        ensures
            opt_str_view(r) == current_of(self.phase()),
    {
        match &self.state {
            FsmState::Stable { scene } => Some(scene.as_str()),
            FsmState::Pending { current, .. } => match current {
                Some(c) => Some(c.as_str()),
                None => None,
            },
            _ => None,
        }
    }

    /// Whether the FSM is currently in `Uncertain` state.
    pub fn is_uncertain(&self) -> (r: bool)
        ensures
            r == (self.phase() is Uncertain),
    {
        match self.state {
            FsmState::Uncertain => true,
            _ => false,
        }
    }

    fn revert_from_pending(&mut self, current: Option<String>) -> (r: TransitionOutput)
        ensures
            (final(self).phase(), r@) == revert(opt_string_view(current)),
            final(self).cfg() == old(self).cfg(),
    {
        match current {
            Some(c) => {
                self.state = FsmState::Stable { scene: c.clone() };
                TransitionOutput::Hold { scene: Some(c) }
            },
            None => {
                self.state = FsmState::Uncertain;
                TransitionOutput::Uncertain { last: None }
            },
        }
    }

    /// Step the FSM forward with a new classifier output.
    ///
    /// - `scene`: classifier's top scene id, or `None` if it said Unknown.
    /// - `confidence`: classifier's top-1 confidence (fixed-point, `SCALE` = 1.0).
    /// - `now`: clock time in microseconds (monotonic preferred).
    pub fn step(&mut self, scene: Option<&str>, confidence: i64, now: i64) -> (r: TransitionOutput)
        ensures
            (final(self).phase(), r@) == step_spec(
                old(self).cfg(),
                old(self).phase(),
                opt_str_view(scene),
                confidence as int,
                now as int,
            ),
            final(self).cfg() == old(self).cfg(),
    {
        let cfg = self.config;
        if let Some(s) = scene {
            if confidence >= cfg.hot_switch_floor {
                let same = match self.current_scene() {
                    Some(cur) => str_eq(cur, s),
                    None => false,
                };
                let from = match self.current_scene() {
                    Some(cur) => Some(cur.to_owned()),
                    None => None,
                };
                self.state = FsmState::Stable { scene: s.to_owned() };
                return if same {
                    TransitionOutput::Hold { scene: Some(s.to_owned()) }
                } else {
                    TransitionOutput::Transition { from, to: s.to_owned() }
                };
            }
        }
        let mut state = FsmState::Initial;
        std::mem::swap(&mut state, &mut self.state);
        match state {
            FsmState::Initial => {
                if let Some(s) = scene {
                    if confidence >= cfg.enter_hi {
                        self.state = FsmState::Stable { scene: s.to_owned() };
                        return TransitionOutput::Transition { from: None, to: s.to_owned() };
                    }
                }
                self.state = FsmState::Initial;
                TransitionOutput::Hold { scene: None }
            },
            FsmState::Uncertain => {
                if let Some(s) = scene {
                    if confidence >= cfg.enter_hi {
                        self.state = FsmState::Stable { scene: s.to_owned() };
                        return TransitionOutput::Transition { from: None, to: s.to_owned() };
                    }
                }
                self.state = FsmState::Uncertain;
                TransitionOutput::Hold { scene: None }
            },
            FsmState::Stable { scene: current } => {
                if confidence < cfg.exit_lo {
                    self.state = FsmState::Uncertain;
                    return TransitionOutput::Uncertain { last: Some(current) };
                }
                match scene {
                    Some(s) => {
                        if !str_eq(s, current.as_str()) && confidence >= cfg.enter_hi {
                            self.state = FsmState::Pending {
                                current: Some(current.clone()),
                                proposed: s.to_owned(),
                                proposed_since: now,
                            };
                        } else {
                            self.state = FsmState::Stable { scene: current.clone() };
                        }
                        TransitionOutput::Hold { scene: Some(current) }
                    },
                    None => {
                        self.state = FsmState::Stable { scene: current.clone() };
                        TransitionOutput::Hold { scene: Some(current) }
                    },
                }
            },
            FsmState::Pending { current, proposed, proposed_since } => {
                if let (Some(cur), Some(s)) = (&current, scene) {
                    if str_eq(s, cur.as_str()) && confidence >= cfg.exit_lo {
                        self.state = FsmState::Stable { scene: cur.clone() };
                        return TransitionOutput::Hold { scene: Some(cur.clone()) };
                    }
                }
                match scene {
                    Some(s) => {
                        if str_eq(s, proposed.as_str()) {
                            if confidence >= cfg.enter_hi {
                                if (now as i128) - (proposed_since as i128) >= (cfg.dwell as i128) {
                                    self.state = FsmState::Stable { scene: proposed.clone() };
                                    TransitionOutput::Transition { from: current, to: proposed }
                                } else {
                                    let held = clone_opt_string(&current);
                                    self.state = FsmState::Pending { current, proposed, proposed_since };
                                    TransitionOutput::Hold { scene: held }
                                }
                            } else {
                                self.revert_from_pending(current)
                            }
                        } else if confidence >= cfg.enter_hi {
                            let held = clone_opt_string(&current);
                            self.state = FsmState::Pending {
                                current,
                                proposed: s.to_owned(),
                                proposed_since: now,
                            };
                            TransitionOutput::Hold { scene: held }
                        } else {
                            self.revert_from_pending(current)
                        }
                    },
                    None => self.revert_from_pending(current),
                }
            },
        }
    }
}

} // verus!
