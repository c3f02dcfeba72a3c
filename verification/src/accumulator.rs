//! Shot accumulator for controllers.
//!
//! Collects shot lifecycle events and produces a complete shot when
//! `shot_finished` arrives. In-flight shots are keyed by `(device, shot_id)`.

use vstd::prelude::*;

use crate::message::{FrpEnvelope, FrpEvent, FrpMessage};
use crate::types::{BallFlight, ClubData, FaceImpact, ShotKey};

verus! {

/// A completed shot with all available data.
#[derive(Debug, Clone)]
pub struct CompletedShot {
    /// Device that produced this shot.
    pub device: String,
    /// Shot correlation key.
    pub key: ShotKey,
    /// Ball flight data (if hardware provided it).
    pub ball: Option<BallFlight>,
    /// Club path data (if hardware provided it).
    pub club: Option<ClubData>,
    /// Face impact data (if hardware provided it).
    pub impact: Option<FaceImpact>,
}

/// The key under which a shot is accumulated: the device and the shot id.
pub type PendingKey = (Seq<char>, Seq<char>);

/// The pending key of the shot `key` reported by `device`.
pub open spec fn pending_key(device: String, key: ShotKey) -> PendingKey {
    (device@, key.shot_id@)
}

/// The shot that a trigger opens: nothing measured yet.
pub open spec fn triggered_shot(device: String, key: ShotKey) -> CompletedShot {
    CompletedShot { device, key, ball: None, club: None, impact: None }
}

/// What one envelope does to the in-flight shots, and the shot it completes.
///
/// A trigger (re)starts the shot; ball, club and impact data are recorded on a
/// shot that is in flight and ignored otherwise; a finish hands the shot out
/// and forgets it; every other event changes nothing.
pub open spec fn envelope_step(pending: Map<PendingKey, CompletedShot>, env: FrpEnvelope) -> (
    Map<PendingKey, CompletedShot>,
    Option<CompletedShot>,
) {
    match env.event {
        FrpEvent::ShotTrigger { key } => (
            pending.insert(pending_key(env.device, key), triggered_shot(env.device, key)),
            None,
        ),
        FrpEvent::BallFlight { key, ball } => {
            let k = pending_key(env.device, key);
            if pending.contains_key(k) {
                (pending.insert(k, CompletedShot { ball: Some(ball), ..pending[k] }), None)
            } else {
                (pending, None)
            }
        },
        FrpEvent::ClubPath { key, club } => {
            let k = pending_key(env.device, key);
            if pending.contains_key(k) {
                (pending.insert(k, CompletedShot { club: Some(club), ..pending[k] }), None)
            } else {
                (pending, None)
            }
        },
        FrpEvent::FaceImpact { key, impact } => {
            let k = pending_key(env.device, key);
            if pending.contains_key(k) {
                (pending.insert(k, CompletedShot { impact: Some(impact), ..pending[k] }), None)
            } else {
                (pending, None)
            }
        },
        FrpEvent::ShotFinished { key } => {
            let k = pending_key(env.device, key);
            if pending.contains_key(k) {
                (pending.remove(k), Some(pending[k]))
            } else {
                (pending, None)
            }
        },
        _ => (pending, None),
    }
}

/// What one message does: protocol messages change nothing.
pub open spec fn message_step(pending: Map<PendingKey, CompletedShot>, msg: FrpMessage) -> (
    Map<PendingKey, CompletedShot>,
    Option<CompletedShot>,
) {
    match msg {
        FrpMessage::Envelope(env) => envelope_step(pending, env),
        FrpMessage::Protocol(_) => (pending, None),
    }
}

/// The key of the shot that a shot event speaks of; `None` for the events that
/// concern no shot.
pub open spec fn event_key(env: FrpEnvelope) -> Option<PendingKey> {
    match env.event {
        FrpEvent::ShotTrigger { key } => Some(pending_key(env.device, key)),
        FrpEvent::BallFlight { key, .. } => Some(pending_key(env.device, key)),
        FrpEvent::ClubPath { key, .. } => Some(pending_key(env.device, key)),
        FrpEvent::FaceImpact { key, .. } => Some(pending_key(env.device, key)),
        FrpEvent::ShotFinished { key } => Some(pending_key(env.device, key)),
        _ => None,
    }
}

/// Which measurement an event carries: 1 for ball flight, 2 for club path,
/// 3 for face impact, 0 for any other event.
pub open spec fn measurement_kind(env: FrpEnvelope) -> int {
    match env.event {
        FrpEvent::BallFlight { .. } => 1,
        FrpEvent::ClubPath { .. } => 2,
        FrpEvent::FaceImpact { .. } => 3,
        _ => 0,
    }
}

/// A full lifecycle: `shot_trigger`, then ball flight, club path and face
/// impact data, then `shot_finished` yields the composed shot, and the
/// aggregator is left as it was apart from that shot.
pub proof fn law_full_lifecycle(
    pending: Map<PendingKey, CompletedShot>,
    device: String,
    key: ShotKey,
    ball: BallFlight,
    club: ClubData,
    impact: FaceImpact,
)
    ensures
        ({
            let s1 = envelope_step(pending, FrpEnvelope { device, event: FrpEvent::ShotTrigger { key } }).0;
            let s2 = envelope_step(s1, FrpEnvelope { device, event: FrpEvent::BallFlight { key, ball } }).0;
            let s3 = envelope_step(s2, FrpEnvelope { device, event: FrpEvent::ClubPath { key, club } }).0;
            let s4 = envelope_step(s3, FrpEnvelope { device, event: FrpEvent::FaceImpact { key, impact } }).0;
            let last = envelope_step(s4, FrpEnvelope { device, event: FrpEvent::ShotFinished { key } });
            &&& last.1 == Some(CompletedShot {
                device,
                key,
                ball: Some(ball),
                club: Some(club),
                impact: Some(impact),
            })
            &&& last.0 == pending.remove(pending_key(device, key))
        }),
{
    let k = pending_key(device, key);
    let s1 = envelope_step(pending, FrpEnvelope { device, event: FrpEvent::ShotTrigger { key } }).0;
    let s2 = envelope_step(s1, FrpEnvelope { device, event: FrpEvent::BallFlight { key, ball } }).0;
    let s3 = envelope_step(s2, FrpEnvelope { device, event: FrpEvent::ClubPath { key, club } }).0;
    let s4 = envelope_step(s3, FrpEnvelope { device, event: FrpEvent::FaceImpact { key, impact } }).0;
    assert(s4.contains_key(k));
    assert(s4.remove(k) =~= pending.remove(k));
}

/// Finishing an in-flight shot hands out exactly what was recorded for it.
pub proof fn law_finish_hands_out_recorded(
    pending: Map<PendingKey, CompletedShot>,
    device: String,
    key: ShotKey,
)
    requires
        pending.contains_key(pending_key(device, key)),
    ensures
        envelope_step(pending, FrpEnvelope { device, event: FrpEvent::ShotFinished { key } }).1 == Some(
            pending[pending_key(device, key)],
        ),
{
}

/// A trigger followed directly by a finish yields the bare shot: the
/// envelope's device and key, and no measurement.
pub proof fn law_trigger_then_finish(pending: Map<PendingKey, CompletedShot>, device: String, key: ShotKey)
    ensures
        ({
            let s1 = envelope_step(pending, FrpEnvelope { device, event: FrpEvent::ShotTrigger { key } }).0;
            envelope_step(s1, FrpEnvelope { device, event: FrpEvent::ShotFinished { key } }).1 == Some(
                CompletedShot { device, key, ball: None, club: None, impact: None },
            )
        }),
{
}

/// Ball flight data recorded on an in-flight shot is what its finish hands
/// out as `ball`, while its club and impact data stay as they were.
pub proof fn law_ball_recorded(
    pending: Map<PendingKey, CompletedShot>,
    device: String,
    key: ShotKey,
    ball: BallFlight,
)
    requires
        pending.contains_key(pending_key(device, key)),
    ensures
        ({
            let before = pending[pending_key(device, key)];
            let s1 = envelope_step(pending, FrpEnvelope { device, event: FrpEvent::BallFlight { key, ball } }).0;
            let done = envelope_step(s1, FrpEnvelope { device, event: FrpEvent::ShotFinished { key } }).1;
            &&& done is Some
            &&& done.unwrap().ball == Some(ball)
            &&& done.unwrap().club == before.club
            &&& done.unwrap().impact == before.impact
            &&& done.unwrap().device == before.device
            &&& done.unwrap().key == before.key
        }),
{
}

/// Club data recorded on an in-flight shot is what its finish hands out as
/// `club`, while its ball and impact data stay as they were.
pub proof fn law_club_recorded(
    pending: Map<PendingKey, CompletedShot>,
    device: String,
    key: ShotKey,
    club: ClubData,
)
    requires
        pending.contains_key(pending_key(device, key)),
    ensures
        ({
            let before = pending[pending_key(device, key)];
            let s1 = envelope_step(pending, FrpEnvelope { device, event: FrpEvent::ClubPath { key, club } }).0;
            let done = envelope_step(s1, FrpEnvelope { device, event: FrpEvent::ShotFinished { key } }).1;
            &&& done is Some
            &&& done.unwrap().club == Some(club)
            &&& done.unwrap().ball == before.ball
            &&& done.unwrap().impact == before.impact
            &&& done.unwrap().device == before.device
            &&& done.unwrap().key == before.key
        }),
{
}

/// Face impact data recorded on an in-flight shot is what its finish hands
/// out as `impact`, while its ball and club data stay as they were.
pub proof fn law_impact_recorded(
    pending: Map<PendingKey, CompletedShot>,
    device: String,
    key: ShotKey,
    impact: FaceImpact,
)
    requires
        pending.contains_key(pending_key(device, key)),
    ensures
        ({
            let before = pending[pending_key(device, key)];
            let s1 = envelope_step(pending, FrpEnvelope { device, event: FrpEvent::FaceImpact { key, impact } }).0;
            let done = envelope_step(s1, FrpEnvelope { device, event: FrpEvent::ShotFinished { key } }).1;
            &&& done is Some
            &&& done.unwrap().impact == Some(impact)
            &&& done.unwrap().ball == before.ball
            &&& done.unwrap().club == before.club
            &&& done.unwrap().device == before.device
            &&& done.unwrap().key == before.key
        }),
{
}

/// Measurements arrive in any order: two events that carry different kinds
/// of measurement commute, and neither completes a shot.
pub proof fn law_measurements_commute(
    pending: Map<PendingKey, CompletedShot>,
    first: FrpEnvelope,
    second: FrpEnvelope,
)
    requires
        measurement_kind(first) != 0,
        measurement_kind(second) != 0,
        measurement_kind(first) != measurement_kind(second),
    ensures
        envelope_step(envelope_step(pending, first).0, second).0 == envelope_step(
            envelope_step(pending, second).0,
            first,
        ).0,
        envelope_step(pending, first).1 is None,
        envelope_step(pending, second).1 is None,
{
    let a = envelope_step(envelope_step(pending, first).0, second).0;
    let b = envelope_step(envelope_step(pending, second).0, first).0;
    assert(a =~= b);
}

/// Shots are kept apart by `(device, shot_id)`: an event changes nothing of
/// the shots under any other key.
pub proof fn law_other_shots_untouched(
    pending: Map<PendingKey, CompletedShot>,
    env: FrpEnvelope,
    other: PendingKey,
)
    requires
        event_key(env) != Some(other),
    ensures
        envelope_step(pending, env).0.contains_key(other) == pending.contains_key(other),
        pending.contains_key(other) ==> envelope_step(pending, env).0[other] == pending[other],
{
}

/// Measurements and finishes of a shot that was never triggered (or was
/// already finished) are ignored.
pub proof fn law_untracked_shot_ignored(pending: Map<PendingKey, CompletedShot>, env: FrpEnvelope)
    requires
        event_key(env) matches Some(k) && !pending.contains_key(k),
        !(env.event is ShotTrigger),
    ensures
        envelope_step(pending, env) == (pending, None::<CompletedShot>),
{
}

/// A finished shot is forgotten: finishing it again yields nothing.
pub proof fn law_finish_once(pending: Map<PendingKey, CompletedShot>, device: String, key: ShotKey)
    ensures
        ({
            let finish = FrpEnvelope { device, event: FrpEvent::ShotFinished { key } };
            envelope_step(envelope_step(pending, finish).0, finish).1 is None
        }),
{
}

/// A trigger starts the shot afresh: whatever was gathered for that key
/// before is dropped.
pub proof fn law_trigger_restarts(
    pending: Map<PendingKey, CompletedShot>,
    device: String,
    key: ShotKey,
)
    ensures
        envelope_step(pending, FrpEnvelope { device, event: FrpEvent::ShotTrigger { key } }).0[pending_key(device, key)]
            == triggered_shot(device, key),
{
}

/// Protocol messages and the events that concern no shot (telemetry, alerts,
/// unknown kinds) change nothing and complete nothing.
pub proof fn law_non_shot_messages_ignored(pending: Map<PendingKey, CompletedShot>, msg: FrpMessage)
    requires
        msg matches FrpMessage::Envelope(env) ==> event_key(env) is None,
    ensures
        message_step(pending, msg) == (pending, None::<CompletedShot>),
{
}

/// A map of in-flight shots as an aggregator holds it: finitely many shots,
/// each filed under its own device and shot id.
pub open spec fn well_keyed(pending: Map<PendingKey, CompletedShot>) -> bool {
    &&& pending.dom().finite()
    &&& forall|k: PendingKey| #[trigger] pending.dom().contains(k) ==> k == pending_key(
        pending[k].device,
        pending[k].key,
    )
}

/// Each step keeps a map well keyed, and moves the number of shots in flight
/// by one at most: up when a trigger opens a new shot, down when a finish
/// closes one, and not at all otherwise.
pub proof fn law_pending_count_step(pending: Map<PendingKey, CompletedShot>, env: FrpEnvelope)
    requires
        well_keyed(pending),
    ensures
        well_keyed(envelope_step(pending, env).0),
        envelope_step(pending, env).0.dom().len() == match env.event {
            FrpEvent::ShotTrigger { key } => if pending.contains_key(pending_key(env.device, key)) {
                pending.dom().len()
            } else {
                pending.dom().len() + 1
            },
            FrpEvent::ShotFinished { key } => if pending.contains_key(pending_key(env.device, key)) {
                (pending.dom().len() - 1) as nat
            } else {
                pending.dom().len()
            },
            _ => pending.dom().len(),
        },
{
    let next = envelope_step(pending, env).0;
    match env.event {
        FrpEvent::ShotTrigger { key } => {
            let k = pending_key(env.device, key);
            assert(next.dom() =~= pending.dom().insert(k));
        },
        FrpEvent::BallFlight { key, .. } => {
            assert(next.dom() =~= pending.dom());
        },
        FrpEvent::ClubPath { key, .. } => {
            assert(next.dom() =~= pending.dom());
        },
        FrpEvent::FaceImpact { key, .. } => {
            assert(next.dom() =~= pending.dom());
        },
        FrpEvent::ShotFinished { key } => {
            let k = pending_key(env.device, key);
            assert(next.dom() =~= pending.dom().remove(k));
        },
        _ => {},
    }
}

/// The shot that a finish hands out is the one filed under the finishing
/// envelope's device and shot id.
pub proof fn law_finished_shot_identity(pending: Map<PendingKey, CompletedShot>, env: FrpEnvelope)
    requires
        well_keyed(pending),
    ensures
        envelope_step(pending, env).1 matches Some(shot) ==> env.event matches FrpEvent::ShotFinished { key }
            && shot.device@ == env.device@ && shot.key.shot_id@ == key.shot_id@,
{
    if let FrpEvent::ShotFinished { key } = env.event {
        let k = pending_key(env.device, key);
        if pending.contains_key(k) {
            assert(pending.dom().contains(k));
        }
    }
}

/// The in-flight shots after feeding `msgs`, in order, to a new aggregator.
pub open spec fn replay(msgs: Seq<FrpMessage>) -> Map<PendingKey, CompletedShot>
    decreases msgs.len(),
{
    if msgs.len() == 0 {
        Map::empty()
    } else {
        message_step(replay(msgs.drop_last()), msgs.last()).0
    }
}

/// `msg` is a trigger of the shot filed under `k`.
pub open spec fn triggers(msg: FrpMessage, k: PendingKey) -> bool {
    msg matches FrpMessage::Envelope(env) && env.event matches FrpEvent::ShotTrigger { key }
        && pending_key(env.device, key) == k
}

/// `msg` is a finish of the shot filed under `k`.
pub open spec fn finishes(msg: FrpMessage, k: PendingKey) -> bool {
    msg matches FrpMessage::Envelope(env) && env.event matches FrpEvent::ShotFinished { key }
        && pending_key(env.device, key) == k
}

/// The shot `k` was triggered in `msgs` and not finished after its last trigger.
pub open spec fn open_in(msgs: Seq<FrpMessage>, k: PendingKey) -> bool {
    exists|i: int|
        0 <= i < msgs.len() && #[trigger] triggers(msgs[i], k) && forall|j: int|
            i < j < msgs.len() ==> !#[trigger] finishes(msgs[j], k)
}

/// After any sequence of messages fed to a new aggregator, the shots in flight
/// are exactly the `(device, shot_id)` pairs that got a trigger and no finish
/// after their last trigger; there are finitely many, so the pending count is
/// their number.
pub proof fn law_replay_in_flight(msgs: Seq<FrpMessage>, k: PendingKey)
    ensures
        well_keyed(replay(msgs)),
        replay(msgs).dom().contains(k) <==> open_in(msgs, k),
    decreases msgs.len(),
{
    if msgs.len() == 0 {
        assert(replay(msgs).dom() =~= Set::empty());
    } else {
        let init = msgs.drop_last();
        let last = msgs.last();
        law_replay_in_flight(init, k);
        let before = replay(init);
        match last {
            FrpMessage::Envelope(env) => {
                law_pending_count_step(before, env);
            },
            FrpMessage::Protocol(_) => {},
        }
        let n = msgs.len() - 1;
        assert(msgs[n] == last);
        if triggers(last, k) {
            assert(open_in(msgs, k)) by {
                assert(triggers(msgs[n], k));
            }
            assert(replay(msgs).dom().contains(k));
        } else if finishes(last, k) {
            assert(!open_in(msgs, k)) by {
                if open_in(msgs, k) {
                    let i = choose|i: int|
                        0 <= i < msgs.len() && #[trigger] triggers(msgs[i], k) && forall|j: int|
                            i < j < msgs.len() ==> !#[trigger] finishes(msgs[j], k);
                    assert(i != n);
                    assert(!finishes(msgs[n], k));
                }
            }
        } else {
            assert(replay(msgs).dom().contains(k) == before.dom().contains(k));
            if open_in(msgs, k) {
                let i = choose|i: int|
                    0 <= i < msgs.len() && #[trigger] triggers(msgs[i], k) && forall|j: int|
                        i < j < msgs.len() ==> !#[trigger] finishes(msgs[j], k);
                assert(i != n);
                assert(init[i] == msgs[i]);
                assert forall|j: int| i < j < init.len() implies !#[trigger] finishes(init[j], k) by {
                    assert(init[j] == msgs[j]);
                }
                assert(triggers(init[i], k));
            }
            if open_in(init, k) {
                let i = choose|i: int|
                    0 <= i < init.len() && #[trigger] triggers(init[i], k) && forall|j: int|
                        i < j < init.len() ==> !#[trigger] finishes(init[j], k);
                assert(msgs[i] == init[i]);
                assert forall|j: int| i < j < msgs.len() implies !#[trigger] finishes(msgs[j], k) by {
                    if j < n {
                        assert(init[j] == msgs[j]);
                    }
                }
                assert(triggers(msgs[i], k));
            }
        }
    }
}

/// Accumulates events for a single in-flight shot.
#[derive(Debug)]
struct ShotAccumulator {
    device: String,
    key: ShotKey,
    ball: Option<BallFlight>,
    club: Option<ClubData>,
    impact: Option<FaceImpact>,
}

impl ShotAccumulator {
    spec fn key_spec(self) -> PendingKey {
        (self.device@, self.key.shot_id@)
    }

    spec fn shot_spec(self) -> CompletedShot {
        CompletedShot {
            device: self.device,
            key: self.key,
            ball: self.ball,
            club: self.club,
            impact: self.impact,
        }
    }

    fn new(device: String, key: ShotKey) -> (acc: Self)
        ensures
            acc.shot_spec() == triggered_shot(device, key),
    {
        ShotAccumulator { device, key, ball: None, club: None, impact: None }
    }

    fn finish(self) -> (shot: CompletedShot)
        ensures
            shot == self.shot_spec(),
    {
        CompletedShot {
            device: self.device,
            key: self.key,
            ball: self.ball,
            club: self.club,
            impact: self.impact,
        }
    }
}

spec fn keys_of(s: Seq<ShotAccumulator>) -> Seq<PendingKey> {
    s.map_values(|a: ShotAccumulator| a.key_spec())
}

spec fn shots_of(s: Seq<ShotAccumulator>) -> Map<PendingKey, CompletedShot>
    decreases s.len(),
{
    if s.len() == 0 {
        Map::empty()
    } else {
        shots_of(s.drop_last()).insert(s.last().key_spec(), s.last().shot_spec())
    }
}

proof fn lemma_shots_dom(s: Seq<ShotAccumulator>)
    ensures
        shots_of(s).dom() == keys_of(s).to_set(),
    decreases s.len(),
{
    if s.len() > 0 {
        lemma_shots_dom(s.drop_last());
        assert(keys_of(s.drop_last()) == keys_of(s).drop_last());
        assert(keys_of(s) =~= keys_of(s).drop_last() + seq![s.last().key_spec()]);
        Seq::lemma_to_set_insert_commutes(keys_of(s).drop_last(), s.last().key_spec());
        assert(shots_of(s).dom() =~= keys_of(s).to_set());
    } else {
        assert(keys_of(s).to_set() =~= Set::empty());
    }
}

proof fn lemma_shots_at(s: Seq<ShotAccumulator>, i: int)
    requires
        keys_of(s).no_duplicates(),
        0 <= i < s.len(),
    ensures
        shots_of(s).contains_key(s[i].key_spec()),
        shots_of(s)[s[i].key_spec()] == s[i].shot_spec(),
    decreases s.len(),
{
    if i < s.len() - 1 {
        assert(keys_of(s)[i] == s[i].key_spec());
        assert(keys_of(s)[s.len() - 1] == s.last().key_spec());
        assert(keys_of(s.drop_last()) =~= keys_of(s).drop_last());
        lemma_shots_at(s.drop_last(), i);
    }
}

proof fn lemma_shots_update(s: Seq<ShotAccumulator>, i: int, a: ShotAccumulator)
    requires
        keys_of(s).no_duplicates(),
        0 <= i < s.len(),
        a.key_spec() == s[i].key_spec(),
    ensures
        keys_of(s.update(i, a)).no_duplicates(),
        shots_of(s.update(i, a)) == shots_of(s).insert(a.key_spec(), a.shot_spec()),
    decreases s.len(),
{
    assert(keys_of(s.update(i, a)) =~= keys_of(s));
    if i == s.len() - 1 {
        assert(s.update(i, a).drop_last() =~= s.drop_last());
        assert(!keys_of(s.drop_last()).contains(a.key_spec())) by {
            if keys_of(s.drop_last()).contains(a.key_spec()) {
                let j = choose|j: int| 0 <= j < keys_of(s.drop_last()).len() && keys_of(s.drop_last())[j] == a.key_spec();
                assert(keys_of(s)[j] == keys_of(s)[i]);
            }
        }
        assert(shots_of(s.update(i, a)) =~= shots_of(s).insert(a.key_spec(), a.shot_spec()));
    } else {
        assert(s.update(i, a).drop_last() =~= s.drop_last().update(i, a));
        assert(s.update(i, a).last() == s.last());
        assert(keys_of(s.drop_last()) =~= keys_of(s).drop_last());
        lemma_shots_update(s.drop_last(), i, a);
        assert(s.last().key_spec() != a.key_spec()) by {
            assert(keys_of(s)[s.len() - 1] != keys_of(s)[i]);
        }
        assert(shots_of(s.update(i, a)) =~= shots_of(s).insert(a.key_spec(), a.shot_spec()));
    }
}

proof fn lemma_shots_push(s: Seq<ShotAccumulator>, a: ShotAccumulator)
    requires
        keys_of(s).no_duplicates(),
        !keys_of(s).contains(a.key_spec()),
    ensures
        keys_of(s.push(a)).no_duplicates(),
        shots_of(s.push(a)) == shots_of(s).insert(a.key_spec(), a.shot_spec()),
{
    assert(s.push(a).drop_last() =~= s);
    assert(keys_of(s.push(a)) =~= keys_of(s).push(a.key_spec()));
    assert forall|i: int, j: int|
        0 <= i < keys_of(s.push(a)).len() && 0 <= j < keys_of(s.push(a)).len() && i != j
        implies keys_of(s.push(a))[i] != keys_of(s.push(a))[j] by {
        if i < s.len() && j < s.len() {
            assert(keys_of(s)[i] != keys_of(s)[j]);
        } else if i < s.len() {
            assert(keys_of(s)[i] == keys_of(s.push(a))[i]);
        } else {
            assert(keys_of(s)[j] == keys_of(s.push(a))[j]);
        }
    }
}

proof fn lemma_shots_remove(s: Seq<ShotAccumulator>, i: int)
    requires
        keys_of(s).no_duplicates(),
        0 <= i < s.len(),
    ensures
        keys_of(s.remove(i)).no_duplicates(),
        shots_of(s.remove(i)) == shots_of(s).remove(s[i].key_spec()),
    decreases s.len(),
{
    assert(keys_of(s.remove(i)) =~= keys_of(s).remove(i));
    assert(keys_of(s.remove(i)).no_duplicates()) by {
        assert forall|x: int, y: int|
            0 <= x < s.len() - 1 && 0 <= y < s.len() - 1 && x != y
            implies keys_of(s).remove(i)[x] != keys_of(s).remove(i)[y] by {
            let xx = if x < i { x } else { x + 1 };
            let yy = if y < i { y } else { y + 1 };
            assert(keys_of(s)[xx] != keys_of(s)[yy]);
        }
    }
    if i == s.len() - 1 {
        assert(s.remove(i) =~= s.drop_last());
        assert(!keys_of(s.drop_last()).contains(s[i].key_spec())) by {
            if keys_of(s.drop_last()).contains(s[i].key_spec()) {
                let j = choose|j: int| 0 <= j < keys_of(s.drop_last()).len() && keys_of(s.drop_last())[j] == s[i].key_spec();
                assert(keys_of(s)[j] == keys_of(s)[i]);
            }
        }
        lemma_shots_dom(s.drop_last());
        assert(shots_of(s.remove(i)) =~= shots_of(s).remove(s[i].key_spec()));
    } else {
        assert(s.remove(i).drop_last() =~= s.drop_last().remove(i));
        assert(s.remove(i).last() == s.last());
        assert(keys_of(s.drop_last()) =~= keys_of(s).drop_last());
        lemma_shots_remove(s.drop_last(), i);
        assert(s.last().key_spec() != s[i].key_spec()) by {
            assert(keys_of(s)[s.len() - 1] != keys_of(s)[i]);
        }
        assert(shots_of(s.remove(i)) =~= shots_of(s).remove(s[i].key_spec()));
    }
}

proof fn lemma_shots_well_keyed(s: Seq<ShotAccumulator>)
    requires
        keys_of(s).no_duplicates(),
    ensures
        well_keyed(shots_of(s)),
{
    broadcast use vstd::seq_lib::seq_to_set_is_finite;

    lemma_shots_dom(s);
    assert forall|k: PendingKey| #[trigger] shots_of(s).dom().contains(k) implies k == pending_key(
        shots_of(s)[k].device,
        shots_of(s)[k].key,
    ) by {
        assert(keys_of(s).contains(k));
        let i = choose|i: int| 0 <= i < keys_of(s).len() && keys_of(s)[i] == k;
        lemma_shots_at(s, i);
    }
}

/// The position of the in-flight shot with this key, if there is one.
fn position(pending: &Vec<ShotAccumulator>, device: &String, shot_id: &String) -> (pos: Option<usize>)
    ensures
        pos matches Some(i) ==> i < pending@.len() && pending@[i as int].key_spec() == (device@, shot_id@),
        pos is None ==> !keys_of(pending@).contains((device@, shot_id@)),
{
    let n = pending.len();
    let mut i: usize = 0;
    while i < n
        invariant
            n == pending@.len(),
            i <= n,
            forall|j: int| 0 <= j < i ==> #[trigger] keys_of(pending@)[j] != (device@, shot_id@),
        decreases n - i,
    {
        let acc = &pending[i];
        if acc.device == *device && acc.key.shot_id == *shot_id {
            return Some(i);
        }
        assert(keys_of(pending@)[i as int] == acc.key_spec());
        i = i + 1;
    }
    None
}

/// Applies one envelope to the in-flight shots held in `pending`.
fn step_pending(pending: &mut Vec<ShotAccumulator>, env: &FrpEnvelope) -> (done: Option<CompletedShot>)
    requires
        keys_of(old(pending)@).no_duplicates(),
    ensures
        keys_of(final(pending)@).no_duplicates(),
        shots_of(final(pending)@) == envelope_step(shots_of(old(pending)@), *env).0,
        done == envelope_step(shots_of(old(pending)@), *env).1,
{
    let ghost s = pending@;
    match &env.event {
        FrpEvent::ShotTrigger { key } => {
            let acc = ShotAccumulator::new(env.device.clone(), key.duplicate());
            match position(pending, &env.device, &key.shot_id) {
                Some(i) => {
                    proof {
                        lemma_shots_update(s, i as int, acc);
                    }
                    pending.set(i, acc);
                },
                None => {
                    proof {
                        lemma_shots_push(s, acc);
                    }
                    pending.push(acc);
                },
            }
            None
        },
        FrpEvent::BallFlight { key, ball } => {
            if let Some(i) = position(pending, &env.device, &key.shot_id) {
                proof {
                    lemma_shots_at(s, i as int);
                }
                let old_acc = &pending[i];
                let acc = ShotAccumulator {
                    device: old_acc.device.clone(),
                    key: old_acc.key.duplicate(),
                    ball: Some(*ball),
                    club: old_acc.club,
                    impact: old_acc.impact,
                };
                proof {
                    lemma_shots_update(s, i as int, acc);
                }
                pending.set(i, acc);
            } else {
                proof {
                    lemma_shots_dom(s);
                }
            }
            None
        },
        FrpEvent::ClubPath { key, club } => {
            if let Some(i) = position(pending, &env.device, &key.shot_id) {
                proof {
                    lemma_shots_at(s, i as int);
                }
                let old_acc = &pending[i];
                let acc = ShotAccumulator {
                    device: old_acc.device.clone(),
                    key: old_acc.key.duplicate(),
                    ball: old_acc.ball,
                    club: Some(*club),
                    impact: old_acc.impact,
                };
                proof {
                    lemma_shots_update(s, i as int, acc);
                }
                pending.set(i, acc);
            } else {
                proof {
                    lemma_shots_dom(s);
                }
            }
            None
        },
        FrpEvent::FaceImpact { key, impact } => {
            if let Some(i) = position(pending, &env.device, &key.shot_id) {
                proof {
                    lemma_shots_at(s, i as int);
                }
                let old_acc = &pending[i];
                let acc = ShotAccumulator {
                    device: old_acc.device.clone(),
                    key: old_acc.key.duplicate(),
                    ball: old_acc.ball,
                    club: old_acc.club,
                    impact: Some(*impact),
                };
                proof {
                    lemma_shots_update(s, i as int, acc);
                }
                pending.set(i, acc);
            } else {
                proof {
                    lemma_shots_dom(s);
                }
            }
            None
        },
        FrpEvent::ShotFinished { key } => {
            if let Some(i) = position(pending, &env.device, &key.shot_id) {
                proof {
                    lemma_shots_at(s, i as int);
                    lemma_shots_remove(s, i as int);
                }
                let acc = pending.remove(i);
                Some(acc.finish())
            } else {
                proof {
                    lemma_shots_dom(s);
                }
                None
            }
        },
        FrpEvent::DeviceTelemetry { .. } | FrpEvent::Alert { .. } | FrpEvent::Unknown => None,
    }
}

/// Manages multiple in-flight shots, keyed by `(device, shot_id)`.
///
/// Feed [`FrpMessage`] events via [`feed`](Self::feed) and receive
/// [`CompletedShot`] when a shot lifecycle finishes.
#[derive(Debug)]
pub struct ShotAggregator {
    pending: Vec<ShotAccumulator>,
}

impl View for ShotAggregator {
    type V = Map<PendingKey, CompletedShot>;

    /// The in-flight shots, each as the shot that finishing it would yield.
    closed spec fn view(&self) -> Map<PendingKey, CompletedShot> {
        shots_of(self.pending@)
    }
}

impl ShotAggregator {
    /// No two in-flight shots share a key.
    #[verifier::type_invariant]
    spec fn keys_distinct(self) -> bool {
        keys_of(self.pending@).no_duplicates()
    }

    /// An aggregator with no shot in flight.
    pub fn new() -> (agg: Self)
        ensures
            agg@ == Map::<PendingKey, CompletedShot>::empty(),
            well_keyed(agg@),
    {
        let agg = ShotAggregator { pending: Vec::new() };
        assert(keys_of(agg.pending@) =~= Seq::empty());
        proof {
            lemma_shots_well_keyed(agg.pending@);
        }
        agg
    }

    /// Process an FRP message. Returns a [`CompletedShot`] when `shot_finished`
    /// finalizes an accumulated shot; protocol messages are ignored.
    pub fn feed(&mut self, msg: &FrpMessage) -> (done: Option<CompletedShot>)
        ensures
            (final(self)@, done) == message_step(old(self)@, *msg),
            well_keyed(old(self)@),
            well_keyed(final(self)@),
    {
        proof {
            use_type_invariant(&*self);
            lemma_shots_well_keyed(self.pending@);
        }
        match msg {
            FrpMessage::Envelope(env) => self.feed_envelope(env),
            FrpMessage::Protocol(_) => None,
        }
    }

    /// Process an FRP envelope directly.
    pub fn feed_envelope(&mut self, env: &FrpEnvelope) -> (done: Option<CompletedShot>)
        ensures
            final(self)@ == envelope_step(old(self)@, *env).0,
            done == envelope_step(old(self)@, *env).1,
            well_keyed(old(self)@),
            well_keyed(final(self)@),
    {
        proof {
            use_type_invariant(&*self);
            lemma_shots_well_keyed(self.pending@);
        }
        let mut pending = Vec::new();
        std::mem::swap(&mut pending, &mut self.pending);
        let done = step_pending(&mut pending, env);
        proof {
            lemma_shots_well_keyed(pending@);
        }
        self.pending = pending;
        done
    }

    /// Number of shots currently being accumulated.
    pub fn pending_count(&self) -> (n: usize)
        ensures
            n == self@.dom().len(),
            well_keyed(self@),
    {
        proof {
            use_type_invariant(self);
            lemma_shots_well_keyed(self.pending@);
            lemma_shots_dom(self.pending@);
            keys_of(self.pending@).unique_seq_to_set();
        }
        self.pending.len()
    }
}

impl Default for ShotAggregator {
    fn default() -> (agg: Self)
        ensures
            agg@ == Map::<PendingKey, CompletedShot>::empty(),
            well_keyed(agg@),
    {
        ShotAggregator::new()
    }
}

} // verus!
