use ingest::archive::ArchiveStage;
use ingest::matcher::{IngestConfig, IngestProjectConfig};
use ingest::routing::expand_tilde;
use ingest::session::{plugin_counts, plugin_usage, session_fingerprint, session_id, PluginInstance, SessionTrack};

fn plugin(id: &str, name: &str) -> PluginInstance {
    PluginInstance {
        plugin_id: id.to_string(),
        name: name.to_string(),
        vendor: "V".to_string(),
        version: "1".to_string(),
        slot: "0".to_string(),
        active: true,
    }
}

fn track(id: &str, plugins: Vec<PluginInstance>) -> SessionTrack {
    SessionTrack { id: id.to_string(), name: id.to_string(), track_type: "audio".to_string(), plugins }
}

#[test]
fn plugin_usage_counts_instances_and_tracks() {
    let tracks = vec![
        track("t1", vec![plugin("eq", "EQ first"), plugin("eq", "EQ again"), plugin("comp", "Comp")]),
        track("t2", vec![plugin("eq", "EQ late")]),
        track("t3", vec![]),
    ];
    let usage = plugin_usage(&tracks);
    assert_eq!(usage.len(), 2);
    let eq = usage.iter().find(|u| u.plugin_id == "eq").unwrap();
    assert_eq!(eq.count, 3);
    assert_eq!(eq.track_count, 2);
    assert_eq!(eq.name, "EQ first");
    let comp = usage.iter().find(|u| u.plugin_id == "comp").unwrap();
    assert_eq!(comp.count, 1);
    assert_eq!(comp.track_count, 1);
    assert_eq!(plugin_counts(&tracks, "eq"), (3, 2));
    assert_eq!(plugin_counts(&tracks, "none"), (0, 0));
}

#[test]
fn plugin_usage_of_no_tracks_is_empty() {
    assert!(plugin_usage(&vec![]).is_empty());
}

#[test]
fn fingerprints_are_md5_hex() {
    assert_eq!(session_fingerprint(b""), "d41d8cd98f00b204e9800998ecf8427e");
    assert_eq!(session_fingerprint(b"abc"), "900150983cd24fb0d6963f7d28e17f72");
    assert_eq!(session_id("abc"), "900150983cd24fb0d6963f7d28e17f72");
}

#[test]
fn tilde_expansion() {
    assert_eq!(expand_tilde("~", "/home/u"), "/home/u");
    assert_eq!(expand_tilde("~/Downloads", "/home/u"), "/home/u/Downloads");
    assert_eq!(expand_tilde("~other/x", "/home/u"), "~other/x");
    assert_eq!(expand_tilde("/abs/~/x", "/home/u"), "/abs/~/x");
    assert_eq!(expand_tilde("~/x", ""), "~/x");
}

#[test]
fn config_paths_are_expanded() {
    let c = IngestConfig {
        downloads_path: "~/Downloads".to_string(),
        artist_folders_path: "~".to_string(),
        active_project_id: Some("p".to_string()),
        projects: vec![IngestProjectConfig {
            id: "p".to_string(),
            artist_name: "A".to_string(),
            project_name: "N".to_string(),
            folder_path: "~/Music/N".to_string(),
            updated_at: "t".to_string(),
        }],
    };
    let e = c.with_expanded_paths("/home/u");
    assert_eq!(e.downloads_path, "/home/u/Downloads");
    assert_eq!(e.artist_folders_path, "/home/u");
    assert_eq!(e.projects[0].folder_path, "/home/u/Music/N");
    assert_eq!(e.projects[0].project_name, "N");
    assert_eq!(e.active_project_id.as_deref(), Some("p"));
}

#[test]
fn archive_stages() {
    let mut s = ArchiveStage::start();
    assert_eq!(s, ArchiveStage::CreatingImportDir);
    s = s.advance(true);
    assert_eq!(s, ArchiveStage::Extracting);
    s = s.advance(true);
    assert_eq!(s, ArchiveStage::RemovingArchive);
    assert!(!s.is_finished());
    s = s.advance(false);
    assert_eq!(s, ArchiveStage::RoutingMembers);
    assert!(s.is_finished());
    assert_eq!(ArchiveStage::Extracting.advance(false), ArchiveStage::Failed);
    assert_eq!(ArchiveStage::CreatingImportDir.advance(false), ArchiveStage::Failed);
}
