//! The control bridge between the UI message stream and the parameter
//! state.
//!
//! The bridge runs on a non-real-time thread, woken by message arrival.
//! One wake cycle drains the pending actions in order, wraps every
//! UI-originated parameter change in an edit bracket, and afterwards
//! checks the gain change flag: if it was set, exactly one change
//! notification with the current value and display text is emitted. A
//! malformed inbound payload is a protocol violation and is fatal in the
//! decoding layer before it can reach this module.

use vstd::prelude::*;

verus! {

use crate::params::ParameterModel;
use crate::params::gain_range;
use crate::params::pow_range;
use crate::params::amount_range;
use crate::params::clamp_norm;
use crate::params::MAX_LENGTH_BARS;
use crate::range::spec_denorm;
use crate::range::spec_norm;
use crate::range::div_trunc;
use crate::text::spec_display_mdb;
use crate::text::display_mdb;

/// A decoded inbound UI message. Continuous values are normalised
/// micro-units; the length is a raw bar count.
pub enum Action {
    Init,
    SetSize { width: u32, height: u32 },
    SetGain { value: u32 },
    SetLength { value: u32 },
    SetPow { value: u32 },
    SetAmount { value: u32 },
}

/// An outbound message to the UI.
pub enum Notification {
    SetSize { width: u32, height: u32 },
    ParamChange { value: u32, text: String },
}

/// What the surrounding glue must do after a cycle, in order: resize the
/// UI surface, or send a notification to the UI.
pub enum Reaction {
    Resize { width: u32, height: u32 },
    Send(Notification),
}

/// The parameter state after one action.
pub open spec fn apply_action(m: ParameterModel, a: Action) -> ParameterModel {
    match a {
        Action::Init => m,
        Action::SetSize { .. } => m,
        Action::SetGain { value } => ParameterModel {
            gain_num: spec_denorm(gain_range(), clamp_norm(value as int)) as i128,
            gain_changed: true,
            ..m
        },
        Action::SetLength { value } => ParameterModel {
            length_bars: if value > MAX_LENGTH_BARS { MAX_LENGTH_BARS as u32 } else { value },
            ..m
        },
        Action::SetPow { value } => ParameterModel {
            pow_num: spec_denorm(pow_range(), clamp_norm(value as int)) as i128,
            ..m
        },
        Action::SetAmount { value } => ParameterModel {
            amount_num: spec_denorm(amount_range(), clamp_norm(value as int)) as i128,
            ..m
        },
    }
}

/// The parameter state after a sequence of actions, applied in order.
pub open spec fn apply_actions(m: ParameterModel, s: Seq<Action>) -> ParameterModel
    decreases s.len(),
{
    if s.len() == 0 {
        m
    } else {
        apply_action(apply_actions(m, s.drop_last()), s.last())
    }
}

/// The immediate reaction to one action, if any: `Init` answers with the
/// current UI size, `SetSize` asks for a surface resize, parameter writes
/// answer nothing here.
pub open spec fn spec_reaction(a: Action, w: u32, h: u32) -> Option<Reaction> {
    match a {
        Action::Init => Some(Reaction::Send(Notification::SetSize { width: w, height: h })),
        Action::SetSize { width, height } => Some(Reaction::Resize { width, height }),
        _ => None,
    }
}

/// The in-order reactions of a whole cycle, before the trailing change
/// notification.
pub open spec fn spec_reactions(s: Seq<Action>, w: u32, h: u32) -> Seq<Reaction>
    decreases s.len(),
{
    if s.len() == 0 {
        Seq::empty()
    } else {
        spec_reactions(s.drop_last(), w, h) + match spec_reaction(s.last(), w, h) {
            Some(r) => seq![r],
            None => Seq::empty(),
        }
    }
}

/// One wake cycle of the bridge: drain `actions` in order against the
/// parameter state (each write inside an edit bracket), then exchange the
/// gain change flag and, if it was set, append exactly one `ParamChange`
/// notification carrying the gain's normalised value and display text.
pub fn cycle(
    model: &mut ParameterModel,
    width: u32,
    height: u32,
    actions: &Vec<Action>,
) -> (out: Vec<Reaction>)
    requires
        old(model).wf(),
        !old(model).editing,
    ensures
        final(model).wf(),
        !final(model).editing,
        *final(model) == (ParameterModel {
            gain_changed: false,
            ..apply_actions(*old(model), actions@)
        }),
        out@.len() == spec_reactions(actions@, width, height).len()
            + if apply_actions(*old(model), actions@).gain_changed { 1int } else { 0int },
        forall|i: int| 0 <= i < spec_reactions(actions@, width, height).len()
            ==> out@[i] == spec_reactions(actions@, width, height)[i],
        apply_actions(*old(model), actions@).gain_changed ==> {
            let m2 = apply_actions(*old(model), actions@);
            &&& out@.last() matches Reaction::Send(Notification::ParamChange { value, text })
            &&& value == spec_norm(gain_range(), m2.gain_num as int)
            &&& text@ == spec_display_mdb(div_trunc(m2.gain_num as int, 1_000_000_000_000))
        },
{
    let mut out: Vec<Reaction> = Vec::new();
    let n = actions.len();
    let mut i: usize = 0;
    while i < n
        invariant
            i <= n == actions@.len(),
            model.wf(),
            !model.editing,
            *model == apply_actions(*old(model), actions@.take(i as int)),
            old(model).wf(),
            out@.len() == spec_reactions(actions@.take(i as int), width, height).len(),
            forall|j: int| 0 <= j < out@.len()
                ==> out@[j] == spec_reactions(actions@.take(i as int), width, height)[j],
        decreases n - i,
    {
        let ghost prefix = actions@.take(i as int);
        let ghost prefix1 = actions@.take(i as int + 1);
        proof {
            assert(prefix1.drop_last() =~= prefix);
            assert(prefix1.last() == actions@[i as int]);
        }
        match &actions[i] {
            Action::Init => {
                out.push(Reaction::Send(Notification::SetSize { width, height }));
            },
            Action::SetSize { width: w, height: h } => {
                out.push(Reaction::Resize { width: *w, height: *h });
            },
            Action::SetGain { value } => {
                model.begin_edit();
                model.set_gain_normalized(*value);
                model.end_edit();
            },
            Action::SetLength { value } => {
                model.begin_edit();
                model.set_length_bars(*value);
                model.end_edit();
            },
            Action::SetPow { value } => {
                model.begin_edit();
                model.set_pow_normalized(*value);
                model.end_edit();
            },
            Action::SetAmount { value } => {
                model.begin_edit();
                model.set_amount_normalized(*value);
                model.end_edit();
            },
        }
        i = i + 1;
    }
    proof {
        assert(actions@.take(n as int) =~= actions@);
    }
    let was = model.take_gain_changed();
    if was {
        let mdb = model.gain_mdb();
        let value = model.gain_normalized();
        let text = display_mdb(mdb);
        out.push(Reaction::Send(Notification::ParamChange { value, text }));
    }
    out
}

/// Reactions never hold a `ParamChange` notification: within a cycle the
/// only change notification is the one appended after the drain.
pub proof fn lemma_reactions_no_param_change(s: Seq<Action>, w: u32, h: u32)
    ensures
        forall|i: int| 0 <= i < spec_reactions(s, w, h).len()
            ==> !(#[trigger] spec_reactions(s, w, h)[i] matches Reaction::Send(
                Notification::ParamChange { .. })),
    decreases s.len(),
{
    if s.len() > 0 {
        lemma_reactions_no_param_change(s.drop_last(), w, h);
    }
}

/// How many `Init` actions a sequence holds.
pub open spec fn count_init(s: Seq<Action>) -> int
    decreases s.len(),
{
    if s.len() == 0 {
        0
    } else {
        count_init(s.drop_last()) + match s.last() {
            Action::Init => 1int,
            _ => 0int,
        }
    }
}

/// How many `SetSize` notifications a reaction sequence sends.
pub open spec fn count_size_sends(s: Seq<Reaction>) -> int
    decreases s.len(),
{
    if s.len() == 0 {
        0
    } else {
        count_size_sends(s.drop_last()) + match s.last() {
            Reaction::Send(Notification::SetSize { .. }) => 1int,
            _ => 0int,
        }
    }
}

/// Each `Init` action yields exactly one `SetSize` notification in the
/// cycle's reactions — and, with `lemma_reactions_no_param_change` and
/// the cycle's contract, it comes before any other notification of the
/// cycle, the trailing change notification included.
pub proof fn lemma_init_one_size_notification(s: Seq<Action>, w: u32, h: u32)
    ensures
        count_size_sends(spec_reactions(s, w, h)) == count_init(s),
    decreases s.len(),
{
    if s.len() > 0 {
        lemma_init_one_size_notification(s.drop_last(), w, h);
        let head = spec_reactions(s.drop_last(), w, h);
        match spec_reaction(s.last(), w, h) {
            Some(r) => {
                assert(spec_reactions(s, w, h) == head + seq![r]);
                lemma_count_size_sends_snoc(head, r);
            },
            None => {
                assert(spec_reactions(s, w, h) =~= head);
            },
        }
    }
}

/// The change flag after a cycle's actions is up exactly when it was
/// already up or some action of the cycle wrote the gain: within one
/// drain no gain write is lost and nothing else raises the flag.
pub proof fn lemma_gain_changed_after_actions(m: ParameterModel, s: Seq<Action>)
    ensures
        apply_actions(m, s).gain_changed == (m.gain_changed || exists|i: int|
            0 <= i < s.len() && (#[trigger] s[i] matches Action::SetGain { .. })),
    decreases s.len(),
{
    if s.len() > 0 {
        lemma_gain_changed_after_actions(m, s.drop_last());
        let head = s.drop_last();
        let changed_head = m.gain_changed || exists|i: int|
            0 <= i < head.len() && (#[trigger] head[i] matches Action::SetGain { .. });
        if apply_actions(m, s).gain_changed {
            if s.last() matches Action::SetGain { .. } {
                assert(s[s.len() - 1] matches Action::SetGain { .. });
            } else {
                assert(changed_head);
                if !m.gain_changed {
                    let w = choose|i: int| 0 <= i < head.len()
                        && (#[trigger] head[i] matches Action::SetGain { .. });
                    assert(s[w] matches Action::SetGain { .. });
                }
            }
        }
        if m.gain_changed || exists|i: int| 0 <= i < s.len()
            && (#[trigger] s[i] matches Action::SetGain { .. }) {
            if !m.gain_changed {
                let w = choose|i: int| 0 <= i < s.len()
                    && (#[trigger] s[i] matches Action::SetGain { .. });
                if w < s.len() - 1 {
                    assert(head[w] matches Action::SetGain { .. });
                }
            }
        }
    }
}

/// One event on the gain change flag: a write from either mutation path
/// (a UI edit or host automation — both raise the flag), or a drain (the
/// flag exchange at the end of a bridge wake cycle, which emits a
/// notification exactly when the flag was up).
pub enum GainEvent {
    Write,
    Drain,
}

/// The flag after a trace of events, starting clear: a write leaves it
/// up, a drain leaves it down.
pub open spec fn flag_after(t: Seq<GainEvent>) -> bool
    decreases t.len(),
{
    if t.len() == 0 {
        false
    } else {
        match t.last() {
            GainEvent::Write => true,
            GainEvent::Drain => false,
        }
    }
}

/// How many notifications a trace of flag events emits: one per drain
/// that finds the flag up.
pub open spec fn notes_count(t: Seq<GainEvent>) -> int
    decreases t.len(),
{
    if t.len() == 0 {
        0
    } else {
        notes_count(t.drop_last()) + match t.last() {
            GainEvent::Drain => if flag_after(t.drop_last()) { 1int } else { 0int },
            GainEvent::Write => 0int,
        }
    }
}

/// The same event repeated.
pub open spec fn rep_event(e: GainEvent, k: nat) -> Seq<GainEvent>
    decreases k,
{
    if k == 0 {
        Seq::empty()
    } else {
        rep_event(e, (k - 1) as nat).push(e)
    }
}

/// Writes alone emit nothing and leave the flag up exactly when there
/// was at least one.
proof fn lemma_writes_alone(k: nat)
    ensures
        notes_count(rep_event(GainEvent::Write, k)) == 0,
        flag_after(rep_event(GainEvent::Write, k)) == (k >= 1),
    decreases k,
{
    if k > 0 {
        lemma_writes_alone((k - 1) as nat);
        let t = rep_event(GainEvent::Write, k);
        assert(t.drop_last() =~= rep_event(GainEvent::Write, (k - 1) as nat));
    }
}

/// The change-flag handshake loses nothing and duplicates nothing: any
/// burst of gain writes followed by any number of drains emits exactly
/// one notification — provided there is at least one of each — and none
/// otherwise. Concurrent interleavings of the two writer paths reduce to
/// such traces because every write raises the flag and every drain is a
/// single atomic exchange.
pub proof fn lemma_handshake_exactly_once(k: nat, m: nat)
    ensures
        notes_count(rep_event(GainEvent::Write, k) + rep_event(GainEvent::Drain, m))
            == if k >= 1 && m >= 1 { 1int } else { 0int },
    decreases m,
{
    let w = rep_event(GainEvent::Write, k);
    lemma_writes_alone(k);
    if m == 0 {
        assert(w + rep_event(GainEvent::Drain, 0) =~= w);
    } else {
        lemma_handshake_exactly_once(k, (m - 1) as nat);
        let t1 = w + rep_event(GainEvent::Drain, (m - 1) as nat);
        let full = w + rep_event(GainEvent::Drain, m);
        assert(full =~= t1.push(GainEvent::Drain));
        assert(full.drop_last() =~= t1);
        if m == 1 {
            assert(t1 =~= w);
        } else {
            assert(t1.last() == GainEvent::Drain);
        }
    }
}

/// Appending one reaction adds its own contribution to the count.
proof fn lemma_count_size_sends_snoc(s: Seq<Reaction>, r: Reaction)
    ensures
        count_size_sends(s + seq![r]) == count_size_sends(s) + match r {
            Reaction::Send(Notification::SetSize { .. }) => 1int,
            _ => 0int,
        },
{
    assert((s + seq![r]).drop_last() =~= s);
    assert((s + seq![r]).last() == r);
}

} // verus!
