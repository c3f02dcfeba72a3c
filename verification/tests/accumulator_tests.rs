use flightrelay::{
    BallFlight, ClubData, CompletedShot, Distance, FaceImpact, FrpEnvelope, FrpEvent, FrpMessage,
    FrpProtocolMessage, Severity, ShotAggregator, ShotKey, Velocity,
};

fn bits(x: f64) -> u64 {
    x.to_bits()
}

fn test_key() -> ShotKey {
    ShotKey {
        shot_id: "test-uuid".into(),
        shot_number: 1,
    }
}

fn envelope(device: &str, event: FrpEvent) -> FrpMessage {
    FrpMessage::Envelope(FrpEnvelope {
        device: device.into(),
        event,
    })
}

fn some_ball() -> BallFlight {
    BallFlight {
        launch_speed: Some(Velocity::MilesPerHour(bits(100.0))),
        launch_azimuth: None,
        launch_elevation: Some(bits(12.0)),
        carry_distance: None,
        total_distance: None,
        roll_distance: None,
        max_height: None,
        flight_time: None,
        backspin_rpm: None,
        sidespin_rpm: None,
    }
}

fn some_club() -> ClubData {
    ClubData {
        club_speed: Some(Velocity::MetersPerSecond(bits(42.1))),
        club_speed_post: None,
        path: Some(bits(-2.1)),
        attack_angle: None,
        face_angle: None,
        dynamic_loft: None,
        smash_factor: None,
        swing_plane_horizontal: None,
        swing_plane_vertical: None,
        club_offset: None,
        club_height: None,
    }
}

fn some_impact() -> FaceImpact {
    FaceImpact {
        lateral: Some(Distance::Inches(bits(0.31))),
        vertical: Some(Distance::Inches(bits(0.15))),
    }
}

#[test]
fn full_shot_lifecycle() {
    let mut agg = ShotAggregator::new();
    let device = "TestDevice-001";
    let key = test_key();

    // Trigger
    let trigger = FrpMessage::Envelope(FrpEnvelope {
        device: device.into(),
        event: FrpEvent::ShotTrigger { key: key.clone() },
    });
    assert!(agg.feed(&trigger).is_none());
    assert_eq!(agg.pending_count(), 1);

    // Ball flight
    let ball = BallFlight {
        launch_speed: Some(Velocity::MetersPerSecond(bits(67.2))),
        launch_azimuth: Some(bits(-1.3)),
        launch_elevation: Some(bits(14.2)),
        carry_distance: Some(Distance::Meters(bits(180.5))),
        total_distance: None,
        roll_distance: None,
        max_height: None,
        flight_time: None,
        backspin_rpm: Some(3200),
        sidespin_rpm: Some(-450),
    };
    let ball_msg = FrpMessage::Envelope(FrpEnvelope {
        device: device.into(),
        event: FrpEvent::BallFlight {
            key: key.clone(),
            ball: ball.clone(),
        },
    });
    assert!(agg.feed(&ball_msg).is_none());

    // Club path
    let club = ClubData {
        club_speed: Some(Velocity::MetersPerSecond(bits(42.1))),
        club_speed_post: None,
        path: Some(bits(-2.1)),
        attack_angle: None,
        face_angle: None,
        dynamic_loft: None,
        smash_factor: None,
        swing_plane_horizontal: None,
        swing_plane_vertical: None,
        club_offset: None,
        club_height: None,
    };
    let club_msg = FrpMessage::Envelope(FrpEnvelope {
        device: device.into(),
        event: FrpEvent::ClubPath {
            key: key.clone(),
            club: club.clone(),
        },
    });
    assert!(agg.feed(&club_msg).is_none());

    // Face impact
    let impact = FaceImpact {
        lateral: Some(Distance::Inches(bits(0.31))),
        vertical: Some(Distance::Inches(bits(0.15))),
    };
    let impact_msg = FrpMessage::Envelope(FrpEnvelope {
        device: device.into(),
        event: FrpEvent::FaceImpact {
            key: key.clone(),
            impact: impact.clone(),
        },
    });
    assert!(agg.feed(&impact_msg).is_none());

    // Finish
    let finish = FrpMessage::Envelope(FrpEnvelope {
        device: device.into(),
        event: FrpEvent::ShotFinished { key },
    });
    let shot = agg.feed(&finish).expect("should produce CompletedShot");
    assert_eq!(shot.device, device);
    assert_eq!(shot.ball, Some(ball));
    assert_eq!(shot.club, Some(club));
    assert_eq!(shot.impact, Some(impact));
    assert_eq!(agg.pending_count(), 0);
}

#[test]
fn shot_without_club_or_impact() {
    let mut agg = ShotAggregator::new();
    let key = test_key();

    agg.feed(&FrpMessage::Envelope(FrpEnvelope {
        device: "Dev".into(),
        event: FrpEvent::ShotTrigger { key: key.clone() },
    }));

    let ball = BallFlight {
        launch_speed: Some(Velocity::MilesPerHour(bits(100.0))),
        launch_azimuth: None,
        launch_elevation: Some(bits(12.0)),
        carry_distance: None,
        total_distance: None,
        roll_distance: None,
        max_height: None,
        flight_time: None,
        backspin_rpm: None,
        sidespin_rpm: None,
    };
    agg.feed(&FrpMessage::Envelope(FrpEnvelope {
        device: "Dev".into(),
        event: FrpEvent::BallFlight {
            key: key.clone(),
            ball,
        },
    }));

    let shot = agg
        .feed(&FrpMessage::Envelope(FrpEnvelope {
            device: "Dev".into(),
            event: FrpEvent::ShotFinished { key },
        }))
        .unwrap();
    assert!(shot.ball.is_some());
    assert!(shot.club.is_none());
    assert!(shot.impact.is_none());
}

#[test]
fn protocol_messages_ignored() {
    let mut agg = ShotAggregator::new();
    let msg = FrpMessage::Protocol(FrpProtocolMessage::Init {
        version: "0.1.0".into(),
    });
    assert!(agg.feed(&msg).is_none());
}

#[test]
fn measurements_in_any_order() {
    let key = test_key();
    let events = [
        FrpEvent::FaceImpact { key: key.clone(), impact: some_impact() },
        FrpEvent::BallFlight { key: key.clone(), ball: some_ball() },
        FrpEvent::ClubPath { key: key.clone(), club: some_club() },
    ];
    let mut agg = ShotAggregator::new();
    agg.feed(&envelope("Dev", FrpEvent::ShotTrigger { key: key.clone() }));
    for e in events.iter().rev() {
        assert!(agg.feed(&envelope("Dev", e.clone())).is_none());
    }
    let shot = agg.feed(&envelope("Dev", FrpEvent::ShotFinished { key: key.clone() })).unwrap();
    assert_eq!(
        shot,
        CompletedShot {
            device: "Dev".into(),
            key,
            ball: Some(some_ball()),
            club: Some(some_club()),
            impact: Some(some_impact()),
        }
    );
}

#[test]
fn shots_keyed_by_device_and_id() {
    let key = test_key();
    let mut agg = ShotAggregator::new();
    agg.feed(&envelope("A", FrpEvent::ShotTrigger { key: key.clone() }));
    agg.feed(&envelope("B", FrpEvent::ShotTrigger { key: key.clone() }));
    assert_eq!(agg.pending_count(), 2);
    agg.feed(&envelope("A", FrpEvent::BallFlight { key: key.clone(), ball: some_ball() }));
    let b = agg.feed(&envelope("B", FrpEvent::ShotFinished { key: key.clone() })).unwrap();
    assert_eq!(b.device, "B");
    assert!(b.ball.is_none());
    let a = agg.feed(&envelope("A", FrpEvent::ShotFinished { key: key.clone() })).unwrap();
    assert_eq!(a.ball, Some(some_ball()));
    assert_eq!(agg.pending_count(), 0);
}

#[test]
fn untriggered_shot_is_ignored() {
    let key = test_key();
    let mut agg = ShotAggregator::new();
    assert!(agg.feed(&envelope("Dev", FrpEvent::BallFlight { key: key.clone(), ball: some_ball() })).is_none());
    assert_eq!(agg.pending_count(), 0);
    assert!(agg.feed(&envelope("Dev", FrpEvent::ShotFinished { key })).is_none());
}

#[test]
fn finish_only_once() {
    let key = test_key();
    let mut agg = ShotAggregator::new();
    agg.feed(&envelope("Dev", FrpEvent::ShotTrigger { key: key.clone() }));
    assert!(agg.feed(&envelope("Dev", FrpEvent::ShotFinished { key: key.clone() })).is_some());
    assert!(agg.feed(&envelope("Dev", FrpEvent::ShotFinished { key })).is_none());
}

#[test]
fn retrigger_restarts_the_shot() {
    let key = test_key();
    let mut agg = ShotAggregator::new();
    agg.feed(&envelope("Dev", FrpEvent::ShotTrigger { key: key.clone() }));
    agg.feed(&envelope("Dev", FrpEvent::BallFlight { key: key.clone(), ball: some_ball() }));
    let second = ShotKey { shot_id: key.shot_id.clone(), shot_number: 2 };
    agg.feed(&envelope("Dev", FrpEvent::ShotTrigger { key: second.clone() }));
    assert_eq!(agg.pending_count(), 1);
    let shot = agg.feed(&envelope("Dev", FrpEvent::ShotFinished { key })).unwrap();
    assert_eq!(shot.key, second);
    assert!(shot.ball.is_none());
}

#[test]
fn later_measurement_replaces_earlier() {
    let key = test_key();
    let mut agg = ShotAggregator::new();
    agg.feed(&envelope("Dev", FrpEvent::ShotTrigger { key: key.clone() }));
    agg.feed(&envelope("Dev", FrpEvent::BallFlight { key: key.clone(), ball: some_ball() }));
    let mut other = some_ball();
    other.backspin_rpm = Some(2500);
    agg.feed(&envelope("Dev", FrpEvent::BallFlight { key: key.clone(), ball: other }));
    let shot = agg.feed(&envelope("Dev", FrpEvent::ShotFinished { key })).unwrap();
    assert_eq!(shot.ball, Some(other));
}

#[test]
fn non_shot_events_ignored() {
    let key = test_key();
    let mut agg = ShotAggregator::default();
    agg.feed(&envelope("Dev", FrpEvent::ShotTrigger { key: key.clone() }));
    let alert = FrpEvent::Alert { severity: Severity::Warn, message: "Signal weak".into() };
    assert!(agg.feed(&envelope("Dev", alert)).is_none());
    assert!(agg.feed(&envelope("Dev", FrpEvent::Unknown)).is_none());
    let telemetry = FrpEvent::DeviceTelemetry {
        manufacturer: Some("Birdie Labs".into()),
        model: None,
        firmware: None,
        telemetry: None,
    };
    assert!(agg.feed_envelope(&FrpEnvelope { device: "Dev".into(), event: telemetry }).is_none());
    assert_eq!(agg.pending_count(), 1);
}

#[test]
fn pending_count_follows_triggers_and_finishes() {
    let mut agg = ShotAggregator::new();
    let k = |id: &str| ShotKey { shot_id: id.into(), shot_number: 7 };
    agg.feed(&envelope("Dev", FrpEvent::ShotTrigger { key: k("a") }));
    agg.feed(&envelope("Dev", FrpEvent::ShotTrigger { key: k("b") }));
    agg.feed(&envelope("Dev", FrpEvent::ShotTrigger { key: k("a") }));
    assert_eq!(agg.pending_count(), 2);
    let done = agg.feed(&envelope("Dev", FrpEvent::ShotFinished { key: k("a") })).unwrap();
    assert_eq!(done.device, "Dev");
    assert_eq!(done.key.shot_id, "a");
    assert_eq!(agg.pending_count(), 1);
    agg.feed(&envelope("Other", FrpEvent::ShotFinished { key: k("b") }));
    assert_eq!(agg.pending_count(), 1);
}
