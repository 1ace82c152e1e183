use ingest::arrival::{admit_arrival, dispose, is_ignored_lowered, routable_extension, should_ignore, Disposition};
use ingest::event::IngestEvent;
use ingest::matcher::{match_project, IngestConfig, IngestProjectConfig};
use ingest::mover::MoveStage;
use ingest::recency::RecentTracker;
use ingest::routing::{destination_for, file_stem_of, import_dir_for, join_path, route_subfolder};
use ingest::stability::{ProbeStep, StabilityProbe};
use ingest::text::{normalize, raw_extension_of};

fn project(id: &str, name: &str, artist: &str, folder: &str) -> IngestProjectConfig {
    IngestProjectConfig {
        id: id.to_string(),
        artist_name: artist.to_string(),
        project_name: name.to_string(),
        folder_path: folder.to_string(),
        updated_at: String::new(),
    }
}

fn config(projects: Vec<IngestProjectConfig>, active: Option<&str>) -> IngestConfig {
    IngestConfig {
        downloads_path: "/inbox".to_string(),
        artist_folders_path: "/artists".to_string(),
        active_project_id: active.map(|s| s.to_string()),
        projects,
    }
}

#[test]
fn normalize_keeps_lowercase_alphanumerics() {
    assert_eq!(normalize("Sunset Mix_v2 (FINAL).wav"), "sunsetmixv2finalwav");
    assert_eq!(normalize(""), "");
    assert_eq!(normalize("--- !!"), "");
    assert_eq!(normalize("Café 9"), "caf9");
}

#[test]
fn normalize_is_idempotent_on_examples() {
    for s in ["Jane Doe", "A-B_c.D", "", "ÄÖÜ abc 123", "already"] {
        let once = normalize(s);
        assert_eq!(normalize(&once), once);
    }
}

#[test]
fn project_name_match_ignores_case_and_punctuation() {
    let c = config(
        vec![
            project("p0", "Other", "Someone", "/o"),
            project("p1", "Sunset Drive", "Nobody", "/s"),
        ],
        None,
    );
    let m = match_project("SUNSET-drive_mix.wav", &c).unwrap();
    assert_eq!(m.id, "p1");
}

#[test]
fn project_name_beats_earlier_artist() {
    let c = config(
        vec![
            project("p0", "Other", "Jane", "/o"),
            project("p1", "Sunset", "Bob", "/s"),
        ],
        None,
    );
    let m = match_project("jane_sunset.wav", &c).unwrap();
    assert_eq!(m.id, "p1");
}

#[test]
fn artist_fallback_takes_first_artist_match() {
    let c = config(
        vec![
            project("a", "Sunset", "Jane", "/a"),
            project("b", "", "Jane", "/b"),
        ],
        None,
    );
    let m = match_project("jane_vocals_final.wav", &c).unwrap();
    assert_eq!(m.id, "a");
}

#[test]
fn active_project_used_when_nothing_matches() {
    let c = config(
        vec![project("p0", "Alpha", "Ann", "/a"), project("p1", "Beta", "Bea", "/b")],
        Some("p1"),
    );
    let m = match_project("random_file.wav", &c).unwrap();
    assert_eq!(m.id, "p1");
}

#[test]
fn unmatched_without_active_project_reports_error() {
    let c = config(vec![project("p0", "Alpha", "Ann", "/a")], None);
    assert!(match_project("random_file.wav", &c).is_none());
    let d = dispose("random_file.wav", "wav", Some(10), &c);
    assert!(matches!(d, Disposition::Unmatched));
    let msg = d.error_message().unwrap();
    let e = IngestEvent::error("random_file.wav", "/inbox/random_file.wav", "wav", 10, msg);
    assert_eq!(e.status, "error");
    assert!(e.message.unwrap().contains("No matching project"));
}

#[test]
fn active_project_missing_from_list_is_unmatched() {
    let c = config(vec![project("p0", "Alpha", "Ann", "/a")], Some("zz"));
    assert!(match_project("random_file.wav", &c).is_none());
}

#[test]
fn empty_names_never_match() {
    let c = config(vec![project("p0", "", "", "/a"), project("p1", "!!", "--", "/b")], None);
    assert!(match_project("anything.wav", &c).is_none());
}

#[test]
fn recency_debounce_with_simulated_clock() {
    let mut t = RecentTracker::new();
    assert!(t.should_process("/inbox/a.wav", 1_000));
    assert!(!t.should_process("/inbox/a.wav", 2_500));
    assert!(t.should_process("/inbox/a.wav", 3_000));
    assert!(t.should_process("/inbox/b.wav", 3_000));
    assert!(!t.should_process("/inbox/b.wav", 4_999));
}

#[test]
fn recency_allows_after_retention_purge() {
    let mut t = RecentTracker::new();
    assert!(t.should_process("/x", 0));
    assert!(t.should_process("/y", 40_000));
    assert!(t.should_process("/x", 40_001));
    assert!(!t.should_process("/x", 40_002));
}

#[test]
fn stability_steady_size_in_two_polls() {
    let mut p = StabilityProbe::new();
    assert_eq!(p.observe(Some(42)), ProbeStep::Pending);
    assert_eq!(p.observe(Some(42)), ProbeStep::Stable(42));
}

#[test]
fn stability_growing_then_steady() {
    let mut p = StabilityProbe::new();
    assert_eq!(p.observe(Some(1)), ProbeStep::Pending);
    assert_eq!(p.observe(Some(2)), ProbeStep::Pending);
    assert_eq!(p.observe(Some(3)), ProbeStep::Pending);
    assert_eq!(p.observe(Some(3)), ProbeStep::Stable(3));
}

#[test]
fn stability_deleted_file_gives_nothing() {
    let mut p = StabilityProbe::new();
    assert_eq!(p.observe(Some(5)), ProbeStep::Pending);
    let mut last = ProbeStep::Pending;
    for _ in 0..7 {
        last = p.observe(None);
        assert_ne!(last, ProbeStep::Stable(5));
    }
    assert_eq!(last, ProbeStep::Unstable);
    assert_eq!(p.observe(Some(5)), ProbeStep::Unstable);
}

#[test]
fn stability_always_growing_gives_up_after_eight_reads() {
    let mut p = StabilityProbe::new();
    for i in 0..7u64 {
        assert_eq!(p.observe(Some(i)), ProbeStep::Pending);
    }
    assert_eq!(p.observe(Some(100)), ProbeStep::Unstable);
}

#[test]
fn route_subfolders() {
    assert_eq!(route_subfolder("wav"), "Audio Files");
    assert_eq!(route_subfolder("aif"), "Audio Files");
    assert_eq!(route_subfolder("aiff"), "Audio Files");
    assert_eq!(route_subfolder("ptx"), "Sessions");
    assert_eq!(route_subfolder("ptf"), "Sessions");
    assert_eq!(route_subfolder("mp3"), "References");
    assert_eq!(route_subfolder("m4a"), "References");
    assert_eq!(route_subfolder("xyz"), "Imports");
    assert_eq!(route_subfolder("WAV"), "Imports");
    assert_eq!(route_subfolder(""), "Imports");
}

#[test]
fn destinations_by_extension() {
    assert_eq!(destination_for("/music/Sunset", "wav", "take1.wav"), "/music/Sunset/Audio Files/take1.wav");
    assert_eq!(destination_for("/music/Sunset/", "ptx", "s.ptx"), "/music/Sunset/Sessions/s.ptx");
    assert_eq!(destination_for("/music/Sunset", "xyz", "n.xyz"), "/music/Sunset/Imports/n.xyz");
    assert!(destination_for("/p", "wav", "a.wav").ends_with("/Audio Files/a.wav"));
}

#[test]
fn join_paths() {
    assert_eq!(join_path("", "a"), "a");
    assert_eq!(join_path("/", "a"), "/a");
    assert_eq!(join_path("/x", "a"), "/x/a");
}

#[test]
fn archive_members_are_routed() {
    let folder = "/music/Sunset";
    assert_eq!(import_dir_for(folder, &file_stem_of("pack.zip")), "/music/Sunset/Imports/pack");
    let b = routable_extension("b.wav").unwrap();
    assert_eq!(destination_for(folder, &b, "b.wav"), "/music/Sunset/Audio Files/b.wav");
    let c = routable_extension("c.ptx").unwrap();
    assert_eq!(destination_for(folder, &c, "c.ptx"), "/music/Sunset/Sessions/c.ptx");
    assert!(routable_extension("README").is_none());
}

#[test]
fn stems_and_extensions() {
    assert_eq!(file_stem_of("pack.zip"), "pack");
    assert_eq!(file_stem_of("a.b.zip"), "a.b");
    assert_eq!(file_stem_of(".hidden"), ".hidden");
    assert_eq!(file_stem_of("noext"), "noext");
    assert_eq!(file_stem_of(".."), "..");
    assert_eq!(raw_extension_of("a.b.WAV"), "WAV");
    assert_eq!(raw_extension_of(".bashrc"), "");
    assert_eq!(raw_extension_of("x."), "");
    assert_eq!(raw_extension_of(".."), "");
    assert_eq!(routable_extension("Song.WAV").unwrap(), "wav");
}

#[test]
fn hidden_and_partial_files_are_ignored() {
    for name in [".DS_Store", ".x.wav", "a.crdownload", "b.part", "c.TMP", "d.download", "e.swp", "f.partial", ""] {
        assert!(should_ignore(name), "{}", name);
        assert!(admit_arrival(name, false).is_none(), "{}", name);
    }
    assert!(!should_ignore("song.wav"));
    assert!(is_ignored_lowered(".x"));
    assert!(!is_ignored_lowered("x.partialy"));
}

#[test]
fn admission_rules() {
    assert_eq!(admit_arrival("Song.WAV", false).unwrap(), "wav");
    assert!(admit_arrival("Song.wav", true).is_none());
    assert!(admit_arrival("README", false).is_none());
    assert_eq!(admit_arrival("pack.zip", false).unwrap(), "zip");
}

#[test]
fn dispositions() {
    let c = config(vec![project("p0", "Sunset", "Jane", "/a")], None);
    assert!(matches!(dispose("sunset.wav", "wav", None, &c), Disposition::Unstable));
    let u = dispose("sunset.wav", "wav", None, &c);
    assert_eq!(u.error_message().unwrap(), "File is still being written.");
    match dispose("sunset.zip", "zip", Some(3), &c) {
        Disposition::Archive(p) => assert_eq!(p.id, "p0"),
        _ => panic!("expected an archive"),
    }
    match dispose("sunset.wav", "wav", Some(3), &c) {
        Disposition::Route(p) => assert_eq!(p.id, "p0"),
        _ => panic!("expected a route"),
    }
    assert!(dispose("sunset.wav", "wav", Some(3), &c).error_message().is_none());
}

#[test]
fn event_builders() {
    let s = IngestEvent::success("a.wav", "/in/a.wav", "/p/Audio Files/a.wav", "wav", 12);
    assert_eq!(s.status, "success");
    assert_eq!(s.dest_path, "/p/Audio Files/a.wav");
    assert_eq!(s.size_bytes, 12);
    assert!(s.message.is_none());
    let w = IngestEvent::watcher_error("boom");
    assert_eq!(w.file_name, "watcher");
    assert_eq!(w.file_type, "watcher");
    assert_eq!(w.status, "error");
    assert_eq!(w.dest_path, "");
    assert_eq!(w.message.unwrap(), "boom");
}

#[test]
fn move_falls_back_to_copy() {
    let mut s = MoveStage::start();
    assert_eq!(s, MoveStage::CreatingParent);
    s = s.advance(true);
    assert_eq!(s, MoveStage::Renaming);
    s = s.advance(false);
    assert_eq!(s, MoveStage::Copying);
    s = s.advance(true);
    assert_eq!(s, MoveStage::RemovingSource);
    s = s.advance(true);
    assert_eq!(s, MoveStage::Moved);
    assert!(s.is_finished());
}

#[test]
fn move_failures_keep_source() {
    assert_eq!(MoveStage::CreatingParent.advance(false), MoveStage::Failed);
    assert_eq!(MoveStage::Copying.advance(false), MoveStage::Failed);
    assert_eq!(MoveStage::Renaming.advance(true), MoveStage::Moved);
    assert!(!MoveStage::Copying.is_finished());
}
