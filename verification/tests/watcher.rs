use screenshot_renamer::encode::encode_image_to_base64;
use screenshot_renamer::naming::{plan_rename, Envelope, NamingResponse, NamingVerdict};
use screenshot_renamer::prober::{ProbeStep, Prober, DEFAULT_PROBE_ATTEMPTS};
use screenshot_renamer::watcher::{cycle_mode, CycleMode, EventClass, Sighting, Watcher};

fn sighting(path: &str) -> Sighting {
    Sighting { path: path.to_string(), exists: true, is_dir: false }
}

#[test]
fn test_cycle_mode_follows_pause_flag() {
    assert_eq!(cycle_mode(true), CycleMode::DrainAndSleep);
    assert_eq!(cycle_mode(false), CycleMode::AwaitEvent);
}

#[test]
fn test_irrelevant_events_are_skipped() {
    let mut w = Watcher::new();
    let sightings = vec![sighting("/d/Screenshot_1.png")];
    assert!(w.handle_event(&EventClass::Other, &sightings, 0).is_empty());
    let empty: Vec<Sighting> = Vec::new();
    assert!(w.handle_event(&EventClass::Create, &empty, 0).is_empty());
    // The path was never recorded, so a relevant event still takes it.
    assert_eq!(w.handle_event(&EventClass::Create, &sightings, 0).len(), 1);
}

#[test]
fn test_only_matching_paths_are_taken_in_order() {
    let mut w = Watcher::new();
    let sightings = vec![
        sighting("/d/Screenshot_1.png"),
        sighting("/d/notes.txt"),
        Sighting { path: "/d/Screenshot_gone.png".to_string(), exists: false, is_dir: false },
        sighting("/d/Screenshot_2.png"),
    ];
    let taken = w.handle_event(&EventClass::Modify, &sightings, 0);
    assert_eq!(taken, vec!["/d/Screenshot_1.png", "/d/Screenshot_2.png"]);
}

#[test]
fn test_duplicate_path_in_one_event_taken_once() {
    let mut w = Watcher::new();
    let sightings = vec![sighting("/d/Screenshot_1.png"), sighting("/d/Screenshot_1.png")];
    let taken = w.handle_event(&EventClass::Create, &sightings, 0);
    assert_eq!(taken, vec!["/d/Screenshot_1.png"]);
}

#[test]
fn test_end_to_end_rename_with_dedup() {
    // A screenshot appears in the watched directory.
    let path = "/watched/Screenshot_2025-06-12.png";
    let mut w = Watcher::new();
    let mut notifications: Vec<String> = Vec::new();

    // First creation event, at t = 1000 ms.
    let batch = w.handle_event(&EventClass::Create, &vec![sighting(path)], 1000);
    assert_eq!(batch, vec![path.to_string()]);

    for taken in &batch {
        // The prober confirms readability within its budget.
        let mut prober = Prober::new(DEFAULT_PROBE_ATTEMPTS);
        assert_eq!(prober.step(false), ProbeStep::RetryAfterDelay);
        assert_eq!(prober.step(true), ProbeStep::Ready);

        // The file's bytes are read and encoded for the naming call.
        let encoded = encode_image_to_base64(Some(&b"fake png bytes".to_vec()));
        assert!(!encoded.is_empty());

        // The naming service (stubbed) suggests a name.
        let resp = NamingResponse::Response {
            status: 200,
            envelope: Some(Envelope {
                success: true,
                message: "ok".to_string(),
                screenshot_name: "beach-sunset".to_string(),
            }),
        };
        let plan = plan_rename(taken, &resp);
        assert_eq!(plan.destination, "/watched/beach-sunset.png");
        match plan.verdict {
            NamingVerdict::Named { .. } | NamingVerdict::Fallback => {
                notifications.push(plan.base_name.clone())
            },
            NamingVerdict::QuotaExceeded => panic!("unexpected quota signal"),
        }
    }
    w.end_cycle(1000);

    // A second creation event for the same path 2 s later: suppressed.
    let batch2 = w.handle_event(&EventClass::Create, &vec![sighting(path)], 3000);
    assert!(batch2.is_empty());
    w.end_cycle(3000);

    // Exactly one notification went out, carrying the suggested name.
    assert_eq!(notifications, vec!["beach-sunset"]);

    // After the cooldown the same path is taken up again.
    let batch3 = w.handle_event(&EventClass::Create, &vec![sighting(path)], 6001);
    assert_eq!(batch3.len(), 1);
}
