use acouwalk::config::{
    default_trigfile, Config, PathSet, PlayConfig, RingbufConfig, DEFAULT_N_ENTRIES,
};

#[test]
fn path_set_holds_each_path_once() {
    let mut s = PathSet::new();
    assert!(!s.contains(&"a.wav".to_string()));
    assert!(s.insert("a.wav".to_string()));
    assert!(s.insert("b/a.wav".to_string()));
    assert!(!s.insert("a.wav".to_string()));
    assert!(s.contains(&"a.wav".to_string()));
    assert!(s.contains(&"b/a.wav".to_string()));
    assert!(!s.contains(&"A.wav".to_string()));
    assert!(!s.contains(&"".to_string()));
    let t = s.clone();
    assert!(t.contains(&"a.wav".to_string()));
    assert!(t.contains(&"b/a.wav".to_string()));
    assert!(!t.contains(&"c.wav".to_string()));
}

#[test]
fn play_config_admits_what_is_not_excluded() {
    let mut excluded_wavs = PathSet::new();
    excluded_wavs.insert("/music/noisy.wav".to_string());
    let cfg = PlayConfig {
        excluded_wavs,
        dirs: vec!["/music".to_string()],
        cap_ms: Some(60_000),
        use_jack: true,
    };
    assert!(!cfg.admits(&"/music/noisy.wav".to_string()));
    assert!(cfg.admits(&"/music/quiet.wav".to_string()));
    assert!(cfg.admits(&"/music".to_string()));
    let copy = cfg.clone();
    assert!(!copy.admits(&"/music/noisy.wav".to_string()));
    assert_eq!(copy.dirs, vec!["/music".to_string()]);
    assert_eq!(copy.cap_ms, Some(60_000));
    assert!(copy.use_jack);
}

#[test]
fn config_is_one_of_three_commands() {
    let play = Config::Play(PlayConfig {
        excluded_wavs: PathSet::new(),
        dirs: vec![],
        cap_ms: None,
        use_jack: false,
    });
    assert!(matches!(Config::Cpal.clone(), Config::Cpal));
    let buf = Config::Buf(RingbufConfig {
        trigfile: "trigfile".to_string(),
        n_entries: DEFAULT_N_ENTRIES,
    });
    assert!(matches!(play, Config::Play(_)));
    match buf.clone() {
        Config::Buf(cfg) => {
            assert_eq!(cfg.trigfile, "trigfile");
            assert_eq!(cfg.n_entries, 1024);
        }
        _ => panic!("not a command to buffer lines"),
    }
}

#[test]
fn ringbuf_config_falls_back_on_the_usual_values() {
    assert_eq!(default_trigfile(), "trigfile");
    let cfg = RingbufConfig::new(None, None);
    assert_eq!(cfg.trigfile, "trigfile");
    assert_eq!(cfg.n_entries, 1024);
    let cfg = RingbufConfig::new(Some("/tmp/show".to_string()), None);
    assert_eq!(cfg.trigfile, "/tmp/show");
    assert_eq!(cfg.n_entries, 1024);
    let cfg = RingbufConfig::new(None, Some(0));
    assert_eq!(cfg.trigfile, "trigfile");
    assert_eq!(cfg.n_entries, 0);
    let cfg = RingbufConfig::new(Some("t".to_string()), Some(7));
    assert_eq!(cfg.trigfile, "t");
    assert_eq!(cfg.n_entries, 7);
}

#[test]
fn play_config_excludes_the_listed_paths() {
    let dirs = vec!["/a".to_string(), "/b".to_string()];
    let excluded = vec![
        "/a/1.wav".to_string(),
        "/b/2.wav".to_string(),
        "/a/1.wav".to_string(),
        "".to_string(),
    ];
    let cfg = PlayConfig::new(dirs, excluded, Some(5000), true);
    assert!(cfg.use_jack);
    assert_eq!(cfg.dirs, vec!["/a".to_string(), "/b".to_string()]);
    assert_eq!(cfg.cap_ms, Some(5000));
    assert!(!cfg.admits(&"/a/1.wav".to_string()));
    assert!(!cfg.admits(&"/b/2.wav".to_string()));
    assert!(!cfg.admits(&"".to_string()));
    assert!(cfg.admits(&"/a/2.wav".to_string()));
    assert!(cfg.admits(&"/a/1.WAV".to_string()));
    let open = PlayConfig::new(vec![], vec![], None, false);
    assert!(!open.use_jack);
    assert!(open.dirs.is_empty());
    assert_eq!(open.cap_ms, None);
    assert!(open.admits(&"/a/1.wav".to_string()));
}
