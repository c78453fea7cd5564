use cephalon::catalog::{Catalog, Item};
use cephalon::lifecycle::{ControlAction, Lifecycle};
use cephalon::geometry::region_geometry;
use cephalon::recognizer::{CropRect, Phase, RecognizerStep, RegionRecognizer};
use cephalon::session::{CaptureSession, MAX_ATTEMPTS};

fn item(id: &str, name: &str) -> Item {
    Item {
        id: id.to_string(),
        id_name: id.to_string(),
        name: name.to_string(),
        trading_tax: 0,
        set_id: "s".to_string(),
        ducats: 0,
        quantity_for_set: 1,
    }
}

fn catalog() -> Catalog {
    let mut c = Catalog::new();
    c.insert_item(item("a", "Baruuk Prime Chassis Blueprint"));
    c.insert_item(item("b", "Shade Prime Systems"));
    c.insert_item(item("c", "Okina Prime Handle"));
    c
}

/// Runs a recognizer, answering each window with the next reading.
fn run(rec: &mut RegionRecognizer, c: &Catalog, readings: &[Option<&str>]) -> Option<Item> {
    for r in readings {
        match rec.feed(r.map(|s| s.to_string()), c) {
            RecognizerStep::Done(m) => return m,
            RecognizerStep::Ocr(_) => {}
        }
    }
    panic!("recognizer wanted more readings");
}

#[test]
fn full_squad_offsets_at_reference_resolution() {
    let g = region_geometry(1920, 1080, 4);
    assert_eq!(g.frame_width, 243);
    assert_eq!(g.frame_bottom, 460);
    assert_eq!(g.text_height, 24);
    assert_eq!(g.offsets, vec![960 - 486, 960 - 243, 960, 960 + 243]);
}

#[test]
fn smaller_squad_offsets() {
    assert_eq!(region_geometry(1920, 1080, 1).offsets, vec![960 - 121]);
    assert_eq!(region_geometry(1920, 1080, 2).offsets, vec![717, 960]);
    assert_eq!(region_geometry(1920, 1080, 3).offsets, vec![960 - 364, 960 - 121, 960 + 121]);
    assert!(region_geometry(1920, 1080, 5).offsets.is_empty());
}

#[test]
fn scaled_geometry() {
    let g = region_geometry(3840, 2160, 4);
    assert_eq!(g.frame_width, 486);
    assert_eq!(g.frame_bottom, 920);
    assert_eq!(g.text_height, 48);
    assert_eq!(g.offsets, vec![1920 - 972, 1920 - 486, 1920, 1920 + 486]);
}

#[test]
fn recognizer_windows_follow_strategies() {
    let c = catalog();
    let mut rec = RegionRecognizer::new(100, 243, 460, 24);
    assert_eq!(rec.window(), CropRect { x: 100, y: 460 - 72, width: 243, height: 72 });
    assert_eq!(
        rec.feed(Some("garbage".to_string()), &c),
        RecognizerStep::Ocr(CropRect { x: 100, y: 460 - 48, width: 243, height: 48 })
    );
    assert_eq!(
        rec.feed(Some("more garbage".to_string()), &c),
        RecognizerStep::Ocr(CropRect { x: 100, y: 460 - 24, width: 243, height: 24 })
    );
    assert_eq!(rec.phase, Phase::Growing { line: 1 });
    assert_eq!(
        rec.feed(Some("Handle".to_string()), &c),
        RecognizerStep::Ocr(CropRect { x: 100, y: 460 - 48, width: 243, height: 24 })
    );
    assert_eq!(
        rec.feed(Some("OkinaPrime".to_string()), &c),
        RecognizerStep::Ocr(CropRect { x: 100, y: 460 - 72, width: 243, height: 24 })
    );
    match rec.feed(Some("  ".to_string()), &c) {
        RecognizerStep::Done(Some(i)) => assert_eq!(i.name, "Okina Prime Handle"),
        other => panic!("unexpected {other:?}"),
    }
}

#[test]
fn recognizer_fixed_window_match_is_immediate() {
    let c = catalog();
    let mut rec = RegionRecognizer::new(0, 243, 460, 24);
    match rec.feed(Some("Shade\nPrime Systems".to_string()), &c) {
        RecognizerStep::Done(Some(i)) => assert_eq!(i.name, "Shade Prime Systems"),
        other => panic!("unexpected {other:?}"),
    }
}

#[test]
fn recognizer_ocr_failure_settles_empty() {
    let c = catalog();
    let mut rec = RegionRecognizer::new(0, 243, 460, 24);
    assert_eq!(rec.feed(None, &c), RecognizerStep::Done(None));
}

#[test]
fn recognizer_growing_window_stops_at_frame_top() {
    let c = catalog();
    let mut rec = RegionRecognizer::new(0, 10, 72, 24);
    let steps = [Some("x"), Some("y"), Some("a"), Some("b"), Some("c"), Some("d")];
    let mut done = None;
    for s in steps {
        if let RecognizerStep::Done(m) = rec.feed(s.map(|t| t.to_string()), &c) {
            done = Some(m);
            break;
        }
    }
    assert_eq!(done, Some(None));
    assert_eq!(rec.phase, Phase::Growing { line: 3 });
}

#[test]
fn recorded_four_slot_frame() {
    let c = catalog();
    let mut session = CaptureSession::new(4);
    let recs = session.recognizers(1920, 1080);
    assert_eq!(recs.len(), 4);
    let readings: Vec<Vec<Option<&str>>> = vec![
        vec![Some("#@!"), Some("~~"), Some("")],
        vec![Some("BaruukPrimeChassisBlueprint")],
        vec![Some("ShadePrimeSystems")],
        vec![Some("lll1"), Some("ii"), Some("")],
    ];
    let mut results = vec![None, None, None, None];
    for ((slot, mut rec), r) in recs.into_iter().zip(readings) {
        results[slot] = run(&mut rec, &c, &r);
    }
    session.record_attempt(results);
    let names: Vec<Option<String>> =
        session.slots.iter().map(|s| s.as_ref().map(|i| i.name.clone())).collect();
    assert_eq!(
        names,
        vec![
            None,
            Some("Baruuk Prime Chassis Blueprint".to_string()),
            Some("Shade Prime Systems".to_string()),
            None
        ]
    );
    let snap = session.snapshot(&vec![None, Some(25), Some(12), None]);
    assert!(snap.relic_rewards[0].is_none());
    assert_eq!(snap.relic_rewards[1].as_ref().map(|(i, p)| (i.name.as_str(), *p)), Some(("Baruuk Prime Chassis Blueprint", 25)));
    assert_eq!(snap.relic_rewards[2].as_ref().map(|(i, p)| (i.name.as_str(), *p)), Some(("Shade Prime Systems", 12)));
    assert!(snap.relic_rewards[3].is_none());
    assert!(!session.is_finished());
    assert_eq!(session.pending_slots(), vec![0, 3]);
}

#[test]
fn unpriced_slot_is_left_out_of_snapshot() {
    let mut session = CaptureSession::new(2);
    session.record_attempt(vec![Some(item("a", "A")), Some(item("b", "B"))]);
    let snap = session.snapshot(&vec![Some(3), None]);
    assert!(snap.relic_rewards[0].is_some());
    assert!(snap.relic_rewards[1].is_none());
    assert!(session.is_finished());
}

#[test]
fn resolved_slot_is_never_overwritten() {
    let mut session = CaptureSession::new(2);
    session.record_attempt(vec![Some(item("a", "A")), None]);
    session.record_attempt(vec![None, Some(item("b", "B"))]);
    session.record_attempt(vec![Some(item("c", "C")), None]);
    assert_eq!(session.slots[0].as_ref().unwrap().name, "A");
    assert_eq!(session.slots[1].as_ref().unwrap().name, "B");
    assert_eq!(session.attempt, 3);
}

#[test]
fn single_slot_session_samples_one_region_until_ten_attempts() {
    let mut session = CaptureSession::new(1);
    let mut attempts = 0;
    while !session.is_finished() {
        let recs = session.recognizers(1920, 1080);
        assert_eq!(recs.len(), 1);
        assert_eq!(recs[0].1.x, 960 - 121);
        session.record_attempt(vec![None]);
        attempts += 1;
    }
    assert_eq!(attempts, MAX_ATTEMPTS);
}

#[test]
fn single_slot_session_ends_on_match() {
    let mut session = CaptureSession::new(1);
    assert_eq!(session.recognizers(1920, 1080).len(), 1);
    session.record_attempt(vec![Some(item("a", "A"))]);
    assert!(session.is_finished());
    assert!(session.recognizers(1920, 1080).is_empty());
    assert_eq!(session.attempt, 1);
}

#[test]
fn lifecycle_starts_cancels_and_settles() {
    let mut l = Lifecycle::new();
    assert!(!l.is_capturing());
    l.on_control(ControlAction::StartSession(0));
    assert!(l.session().is_none());
    l.on_control(ControlAction::StartSession(2));
    assert!(l.is_capturing());
    assert_eq!(l.session().unwrap().slots.len(), 2);
    l.on_control(ControlAction::StartSession(4));
    assert_eq!(l.session().unwrap().squad_size, 2);
    l.record_attempt(vec![Some(item("a", "A")), None]);
    l.settle();
    assert!(l.is_capturing());
    l.on_control(ControlAction::CancelSession);
    assert!(l.session().is_none());
    l.on_control(ControlAction::StartSession(1));
    l.record_attempt(vec![Some(item("b", "B"))]);
    assert!(!l.is_capturing());
    assert_eq!(l.session().unwrap().attempt, 1);
    l.settle();
    assert!(l.session().is_none());
}

#[test]
fn lifecycle_ends_after_ten_attempts() {
    let mut l = Lifecycle::new();
    l.on_control(ControlAction::StartSession(3));
    let mut attempts = 0;
    while l.is_capturing() {
        l.record_attempt(vec![None, None, None]);
        attempts += 1;
        l.settle();
    }
    assert_eq!(attempts, 10);
    assert!(l.session().is_none());
}
