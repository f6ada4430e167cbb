// The layered merge: right-biased, field-level, profiles replaced
// wholesale.

use rustocr::config::{BatchConfig, Config, DefaultConfig, ProfileConfig, ProfileEntry,
    ServerConfig};

fn layer_one() -> Config {
    Config {
        default: Some(DefaultConfig {
            languages: Some(vec!["en".to_string()]),
            gpu: Some(false),
            output: Some("json".to_string()),
            detail: None,
        }),
        server: Some(ServerConfig {
            enabled: Some(false),
            port: Some(8000),
            host: Some("127.0.0.1".to_string()),
            auto_start: None,
        }),
        batch: None,
        profiles: Some(vec![ProfileEntry {
            name: "fast".to_string(),
            profile: ProfileConfig {
                languages: Some(vec!["en".to_string()]),
                gpu: Some(true),
                output: None,
                detail: Some(0),
            },
        }]),
    }
}

fn layer_two() -> Config {
    Config {
        default: Some(DefaultConfig {
            languages: None,
            gpu: Some(true),
            output: None,
            detail: Some(1),
        }),
        server: None,
        batch: Some(BatchConfig {
            output_dir: Some("./out".to_string()),
            continue_on_error: Some(true),
        }),
        profiles: Some(vec![
            ProfileEntry {
                name: "fast".to_string(),
                profile: ProfileConfig {
                    languages: Some(vec!["fr".to_string()]),
                    gpu: None,
                    output: None,
                    detail: None,
                },
            },
            ProfileEntry {
                name: "deep".to_string(),
                profile: ProfileConfig {
                    languages: None,
                    gpu: Some(false),
                    output: Some("detailed".to_string()),
                    detail: Some(1),
                },
            },
        ]),
    }
}

#[test]
fn test_merge_is_right_biased_and_field_level() {
    let merged = Config::merge(vec![layer_one(), layer_two()]);

    let d = merged.default.unwrap();
    // set only by the first layer: kept
    assert_eq!(d.languages, Some(vec!["en".to_string()]));
    assert_eq!(d.output, Some("json".to_string()));
    // set by both: the later layer wins
    assert_eq!(d.gpu, Some(true));
    // set only by the later layer
    assert_eq!(d.detail, Some(1));

    // a section the later layer omits is untouched
    let s = merged.server.unwrap();
    assert_eq!(s.enabled, Some(false));
    assert_eq!(s.port, Some(8000));
    assert_eq!(s.host, Some("127.0.0.1".to_string()));
    assert_eq!(s.auto_start, None);

    // a section only the later layer has
    let b = merged.batch.unwrap();
    assert_eq!(b.output_dir, Some("./out".to_string()));
    assert_eq!(b.continue_on_error, Some(true));
}

#[test]
fn test_merge_replaces_profiles_wholesale() {
    let merged = Config::merge(vec![layer_one(), layer_two()]);
    let profiles = merged.profiles.unwrap();
    assert_eq!(profiles.len(), 2);

    let fast = profiles.iter().find(|e| e.name == "fast").unwrap();
    // replaced wholesale: the first layer's gpu/detail are gone
    assert_eq!(fast.profile.languages, Some(vec!["fr".to_string()]));
    assert_eq!(fast.profile.gpu, None);
    assert_eq!(fast.profile.detail, None);

    let deep = profiles.iter().find(|e| e.name == "deep").unwrap();
    assert_eq!(deep.profile.output, Some("detailed".to_string()));
}

#[test]
fn test_merge_of_nothing_is_empty() {
    let merged = Config::merge(vec![]);
    assert!(merged.default.is_none());
    assert!(merged.server.is_none());
    assert!(merged.batch.is_none());
    assert!(merged.profiles.is_none());
}

#[test]
fn test_merge_single_layer_passes_through() {
    let merged = Config::merge(vec![layer_two()]);
    let d = merged.default.unwrap();
    assert_eq!(d.gpu, Some(true));
    assert_eq!(d.languages, None);
    assert!(merged.server.is_none());
}
