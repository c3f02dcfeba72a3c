//! Device-side handshake decisions: waiting for the controller's `start` and
//! answering it with the version to speak.

use vstd::prelude::*;

use crate::message::{Frame, FrpMessage, FrpProtocolMessage, Severity};
use crate::version::{
    lemma_precedence_total, lemma_precedence_trans, outranks, parse_semver, precedence_at_most,
    precedence_le, semver_of, SemVersion,
};

verus! {

/// The alert text a device sends when no version is common to both sides.
pub const NO_COMPATIBLE_VERSION: &'static str = "No compatible FRP version";

/// `true` when `v` occurs in `list`.
pub open spec fn lists_version(list: Seq<String>, v: Seq<char>) -> bool {
    exists|i: int| 0 <= i < list.len() && #[trigger] list[i]@ == v
}

/// No version that the controller offers is one the device supports.
pub open spec fn no_common_version(server: Seq<String>, client: Seq<String>) -> bool {
    forall|i: int| 0 <= i < client.len() ==> !lists_version(server, #[trigger] client[i]@)
}

/// A version both sides list outranks `w` in semantic-version precedence.
pub open spec fn outranked(server: Seq<String>, client: Seq<String>, w: Seq<char>) -> bool {
    exists|k: int|
        0 <= k < client.len() && lists_version(server, #[trigger] client[k]@) && outranks(
            client[k]@,
            w,
        )
}

/// `v` is the version to speak: the first version of the controller's list
/// that the device supports and that no version both sides list outranks.
/// Among semantic versions this is the highest in precedence (the first such
/// in the controller's list when several rank equal); a version that is not a
/// semantic version is compared with nothing, so there the controller's order
/// decides.
pub open spec fn highest_common_version(server: Seq<String>, client: Seq<String>, v: Seq<char>) -> bool {
    exists|i: int|
        0 <= i < client.len() && v == #[trigger] client[i]@ && lists_version(server, v)
            && !outranked(server, client, v) && forall|j: int|
            0 <= j < i && lists_version(server, #[trigger] client[j]@) ==> outranked(
                server,
                client,
                client[j]@,
            )
}

/// Whether `list` holds a version equal to `v`.
pub(crate) fn contains_version(list: &[String], v: &String) -> (found: bool)
    ensures
        found == lists_version(list@, v@),
{
    let n = list.len();
    let mut i: usize = 0;
    while i < n
        invariant
            n == list@.len(),
            i <= n,
            forall|j: int| 0 <= j < i ==> list@[j]@ != v@,
        decreases n - i,
    {
        if list[i] == *v {
            return true;
        }
        i = i + 1;
    }
    false
}

/// Select the version to speak with a controller: the highest version, in
/// semantic-version precedence, present in both lists (the first such in the
/// controller's list when several rank equal). Versions that are not semantic
/// versions are compared with nothing and keep the controller's order.
pub fn select_version(server: &[String], client: &[String]) -> (selected: Option<String>)
    ensures
        selected is None <==> no_common_version(server@, client@),
        selected matches Some(v) ==> highest_common_version(server@, client@, v@),
{
    let n = client.len();
    let mut best: Option<(usize, SemVersion)> = None;
    let mut i: usize = 0;
    while i < n
        invariant
            n == client@.len(),
            i <= n,
            best is None ==> forall|j: int|
                0 <= j < i && lists_version(server@, #[trigger] client@[j]@) ==> semver_of(
                    client@[j]@,
                ) is None,
            best matches Some((b, key)) ==> {
                &&& b < i
                &&& lists_version(server@, client@[b as int]@)
                &&& semver_of(client@[b as int]@) == Some(key@)
                &&& forall|j: int|
                    0 <= j < i && lists_version(server@, #[trigger] client@[j]@) && semver_of(
                        client@[j]@,
                    ) is Some ==> precedence_le(semver_of(client@[j]@).unwrap(), key@)
                &&& forall|j: int|
                    0 <= j < b && lists_version(server@, #[trigger] client@[j]@) && semver_of(
                        client@[j]@,
                    ) is Some ==> !precedence_le(key@, semver_of(client@[j]@).unwrap())
            },
        decreases n - i,
    {
        if contains_version(server, &client[i]) {
            if let Some(key) = parse_semver(client[i].as_str()) {
                let better = match &best {
                    None => true,
                    Some((_, top)) => !precedence_at_most(&key, top),
                };
                if better {
                    proof {
                        lemma_precedence_total(key@, key@);
                        if let Some((b, top)) = best {
                            lemma_precedence_total(key@, top@);
                            assert forall|j: int|
                                0 <= j < i + 1 && lists_version(server@, #[trigger] client@[j]@)
                                    && semver_of(client@[j]@) is Some implies precedence_le(
                                semver_of(client@[j]@).unwrap(),
                                key@,
                            ) by {
                                if j < i {
                                    lemma_precedence_trans(semver_of(client@[j]@).unwrap(), top@, key@);
                                }
                            }
                            assert forall|j: int|
                                0 <= j < i && lists_version(server@, #[trigger] client@[j]@)
                                    && semver_of(client@[j]@) is Some implies !precedence_le(
                                key@,
                                semver_of(client@[j]@).unwrap(),
                            ) by {
                                if precedence_le(key@, semver_of(client@[j]@).unwrap()) {
                                    lemma_precedence_trans(
                                        key@,
                                        semver_of(client@[j]@).unwrap(),
                                        top@,
                                    );
                                }
                            }
                        }
                    }
                    best = Some((i, key));
                }
            }
        }
        i = i + 1;
    }
    let mut i: usize = 0;
    while i < n
        invariant
            n == client@.len(),
            i <= n,
            best is None ==> forall|j: int|
                0 <= j < n && lists_version(server@, #[trigger] client@[j]@) ==> semver_of(
                    client@[j]@,
                ) is None,
            best matches Some((b, key)) ==> {
                &&& i <= b < n
                &&& lists_version(server@, client@[b as int]@)
                &&& semver_of(client@[b as int]@) == Some(key@)
                &&& forall|j: int|
                    0 <= j < n && lists_version(server@, #[trigger] client@[j]@) && semver_of(
                        client@[j]@,
                    ) is Some ==> precedence_le(semver_of(client@[j]@).unwrap(), key@)
                &&& forall|j: int|
                    0 <= j < b && lists_version(server@, #[trigger] client@[j]@) && semver_of(
                        client@[j]@,
                    ) is Some ==> !precedence_le(key@, semver_of(client@[j]@).unwrap())
            },
            forall|j: int|
                0 <= j < i && lists_version(server@, #[trigger] client@[j]@) ==> semver_of(
                    client@[j]@,
                ) is Some,
        decreases n - i,
    {
        if contains_version(server, &client[i]) {
            let chosen_here = match &best {
                Some((b, _)) => *b == i,
                None => false,
            };
            let plain = parse_semver(client[i].as_str()).is_none();
            if plain || chosen_here {
                let chosen = client[i].clone();
                proof {
                    let v = client@[i as int]@;
                    assert(chosen@ == v);
                    if let Some((b, key)) = best {
                        assert forall|j: int|
                            0 <= j < i && lists_version(server@, #[trigger] client@[j]@) implies outranked(
                            server@,
                            client@,
                            client@[j]@,
                        ) by {
                            assert(j < b);
                            assert(lists_version(server@, client@[b as int]@));
                            assert(outranks(client@[b as int]@, client@[j]@));
                        }
                        if !plain {
                            assert(!outranked(server@, client@, v)) by {
                                if outranked(server@, client@, v) {
                                    let k = choose|k: int|
                                        0 <= k < client@.len() && lists_version(
                                            server@,
                                            #[trigger] client@[k]@,
                                        ) && outranks(client@[k]@, v);
                                    assert(precedence_le(semver_of(client@[k]@).unwrap(), key@));
                                }
                            }
                        }
                    } else {
                        assert forall|j: int|
                            0 <= j < i && lists_version(server@, #[trigger] client@[j]@) implies outranked(
                            server@,
                            client@,
                            client@[j]@,
                        ) by {}
                    }
                    assert(highest_common_version(server@, client@, chosen@)) by {
                        assert(client@[i as int]@ == chosen@);
                    }
                }
                return Some(chosen);
            }
        }
        i = i + 1;
    }
    None
}

/// When the controller lists semantic versions from the highest down, as the
/// protocol has it list them, the version to speak is simply the first one of
/// its list that the device supports.
pub proof fn law_sorted_offer_first_common(server: Seq<String>, client: Seq<String>, v: Seq<char>)
    requires
        forall|i: int, j: int| 0 <= i < j < client.len() ==> outranks(#[trigger] client[i]@, #[trigger] client[j]@),
        highest_common_version(server, client, v),
    ensures
        exists|i: int|
            0 <= i < client.len() && v == #[trigger] client[i]@ && lists_version(server, v) && forall|j: int|
                0 <= j < i ==> !lists_version(server, #[trigger] client[j]@),
{
    let i = choose|i: int|
        0 <= i < client.len() && v == #[trigger] client[i]@ && lists_version(server, v)
            && !outranked(server, client, v) && forall|j: int|
            0 <= j < i && lists_version(server, #[trigger] client[j]@) ==> outranked(
                server,
                client,
                client[j]@,
            );
    assert forall|j: int| 0 <= j < i implies !lists_version(server, #[trigger] client[j]@) by {
        if lists_version(server, client[j]@) {
            assert(outranks(client[j]@, client[i]@));
            assert(outranked(server, client, v));
        }
    }
}

/// What a device does with one frame while it waits for `start`.
pub enum StartStep {
    /// Keep waiting.
    Wait,
    /// The controller's `start`: its versions and its name.
    Start { versions: Vec<String>, name: Option<String> },
    /// The controller closed the connection.
    Closed,
}

/// While waiting for `start`: a `start` message ends the wait, a close frame
/// ends the connection, and everything else is passed over.
pub fn start_step(frame: Frame) -> (step: StartStep)
    ensures
        frame matches Frame::Text(Some(FrpMessage::Protocol(FrpProtocolMessage::Start { version, name })))
            ==> step == (StartStep::Start { versions: version, name }),
        frame is Close ==> step is Closed,
        !(frame is Close) && !(frame matches Frame::Text(
            Some(FrpMessage::Protocol(FrpProtocolMessage::Start { .. })),
        )) ==> step is Wait,
{
    match frame {
        Frame::Text(Some(FrpMessage::Protocol(FrpProtocolMessage::Start { version, name }))) => {
            StartStep::Start { versions: version, name }
        },
        Frame::Close => StartStep::Closed,
        _ => StartStep::Wait,
    }
}

/// The device's answer to a controller's `start`: `init` with the highest
/// version that both sides support, or, when there is none, a critical alert.
pub fn answer_start(supported: &[String], requested: &[String]) -> (reply: FrpProtocolMessage)
    ensures
        reply is Init || reply is Alert,
        reply matches FrpProtocolMessage::Init { version } ==> highest_common_version(
            supported@,
            requested@,
            version@,
        ),
        reply is Alert <==> no_common_version(supported@, requested@),
        reply matches FrpProtocolMessage::Alert { severity, message } ==> severity == Severity::Critical
            && message@ == NO_COMPATIBLE_VERSION@,
{
    match select_version(supported, requested) {
        Some(version) => FrpProtocolMessage::Init { version },
        None => FrpProtocolMessage::Alert {
            severity: Severity::Critical,
            message: String::from_str(NO_COMPATIBLE_VERSION),
        },
    }
}

} // verus!
