use flightrelay::message::{Frame, FrpMessage, FrpProtocolMessage, Severity};
use flightrelay::select_version;
use flightrelay::server::{answer_start, start_step, StartStep, NO_COMPATIBLE_VERSION};

#[test]
fn version_selection() {
    let server = vec!["0.1.0".to_owned(), "0.2.0".to_owned()];
    let client = vec!["0.2.0".to_owned(), "0.1.0".to_owned()];
    assert_eq!(select_version(&server, &client), Some("0.2.0".to_owned()));
}

#[test]
fn version_selection_no_match() {
    let server = vec!["0.1.0".to_owned()];
    let client = vec!["0.2.0".to_owned()];
    assert_eq!(select_version(&server, &client), None);
}

#[test]
fn version_selection_picks_highest_common() {
    let server = vec!["0.3.0".to_owned(), "0.1.0".to_owned(), "0.2.0".to_owned()];
    let client = vec!["0.9.0".to_owned(), "0.1.0".to_owned(), "0.3.0".to_owned()];
    assert_eq!(select_version(&server, &client), Some("0.3.0".to_owned()));
}

#[test]
fn version_selection_same_lists_ascending() {
    let server = vec!["0.1.0".to_owned(), "0.2.0".to_owned()];
    let client = vec!["0.1.0".to_owned(), "0.2.0".to_owned()];
    assert_eq!(select_version(&server, &client), Some("0.2.0".to_owned()));
}

#[test]
fn version_selection_orders_numerically() {
    let both = vec!["0.9.0".to_owned(), "0.10.0".to_owned(), "0.9".to_owned()];
    assert_eq!(select_version(&both, &both), Some("0.10.0".to_owned()));
    let server = vec!["1.0".to_owned(), "1.0.0".to_owned()];
    let client = vec!["1.0.0".to_owned(), "1.0".to_owned()];
    assert_eq!(select_version(&server, &client), Some("1.0.0".to_owned()));
}

#[test]
fn version_selection_ranks_pre_releases() {
    let both = vec!["1.0.0-a".to_owned(), "0.9.0".to_owned()];
    assert_eq!(select_version(&both, &both), Some("1.0.0-a".to_owned()));
    let reversed = vec!["0.9.0".to_owned(), "1.0.0-a".to_owned()];
    assert_eq!(select_version(&reversed, &reversed), Some("1.0.0-a".to_owned()));
    let rc = vec!["1.0.0-rc.1".to_owned(), "1.0.0".to_owned(), "1.0.0-beta.11".to_owned()];
    assert_eq!(select_version(&rc, &rc), Some("1.0.0".to_owned()));
}

#[test]
fn version_selection_keeps_client_order_for_non_semver() {
    let both = vec!["beta".to_owned(), "0.0.1".to_owned(), "2..0".to_owned()];
    assert_eq!(select_version(&both, &both), Some("beta".to_owned()));
    let later = vec!["0.0.1".to_owned(), "0.2.0".to_owned(), "beta".to_owned()];
    assert_eq!(select_version(&later, &later), Some("0.2.0".to_owned()));
    let odd = vec!["x".to_owned(), "y".to_owned()];
    assert_eq!(select_version(&odd, &odd), Some("x".to_owned()));
}

#[test]
fn version_selection_equal_rank_keeps_client_order() {
    let server = vec!["1.2.0+a".to_owned(), "1.2.0+b".to_owned()];
    let client = vec!["1.2.0+b".to_owned(), "1.2.0+a".to_owned()];
    assert_eq!(select_version(&server, &client), Some("1.2.0+b".to_owned()));
}

#[test]
fn version_selection_empty_lists() {
    let none: Vec<String> = vec![];
    let some = vec!["0.1.0".to_owned()];
    assert_eq!(select_version(&none, &some), None);
    assert_eq!(select_version(&some, &none), None);
}

#[test]
fn answer_start_with_common_version() {
    let supported = vec!["0.1.0".to_owned(), "0.2.0".to_owned()];
    let requested = vec!["0.1.0".to_owned(), "0.2.0".to_owned(), "0.3.0".to_owned()];
    assert_eq!(
        answer_start(&supported, &requested),
        FrpProtocolMessage::Init { version: "0.2.0".to_owned() }
    );
}

#[test]
fn answer_start_without_common_version() {
    let supported = vec!["0.1.0".to_owned()];
    let requested = vec!["0.2.0".to_owned()];
    assert_eq!(
        answer_start(&supported, &requested),
        FrpProtocolMessage::Alert {
            severity: Severity::Critical,
            message: NO_COMPATIBLE_VERSION.to_owned(),
        }
    );
    assert_eq!(NO_COMPATIBLE_VERSION, "No compatible FRP version");
}

#[test]
fn start_step_waits_for_start() {
    let start = Frame::Text(Some(FrpMessage::Protocol(FrpProtocolMessage::Start {
        version: vec!["0.1.0".to_owned()],
        name: Some("My Dashboard".to_owned()),
    })));
    match start_step(start) {
        StartStep::Start { versions, name } => {
            assert_eq!(versions, vec!["0.1.0".to_owned()]);
            assert_eq!(name, Some("My Dashboard".to_owned()));
        }
        _ => panic!("expected Start"),
    }
    assert!(matches!(start_step(Frame::Close), StartStep::Closed));
    assert!(matches!(start_step(Frame::Other), StartStep::Wait));
    assert!(matches!(start_step(Frame::Text(None)), StartStep::Wait));
    let init = Frame::Text(Some(FrpMessage::Protocol(FrpProtocolMessage::Init {
        version: "0.1.0".to_owned(),
    })));
    assert!(matches!(start_step(init), StartStep::Wait));
}
