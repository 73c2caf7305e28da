//! The service's behaviour end to end, against the in-memory store.

use imagebed::config::{Config, UploadMode};
use imagebed::deletion::{delete_file, DeleteOutcome};
use imagebed::extension::extract_extension;
use imagebed::ident::derive_identifier;
use imagebed::pipeline::{file_url, process_upload, UploadOutcome};
use imagebed::policy::{ExtensionPolicy, Policy};
use imagebed::retrieval::{not_found_body, resolve_path, retrieve, Retrieved};
use imagebed::storage::Storage;

fn whitelist_policy(extensions: &[&str], max_file_size: usize) -> Policy {
    Policy {
        max_file_size,
        require_token: false,
        token_digest: String::new(),
        extensions: ExtensionPolicy::Whitelist(
            extensions.iter().map(|e| e.to_string()).collect(),
        ),
    }
}

#[test]
fn extension_extraction() {
    assert_eq!(extract_extension("a.png"), "png");
    assert_eq!(extract_extension("archive.tar.gz"), "gz");
    assert_eq!(extract_extension("unknown"), "unknown");
    assert_eq!(extract_extension("no_extension"), "unknown");
    assert_eq!(extract_extension(".bashrc"), "bashrc");
    assert_eq!(extract_extension("trailing."), "");
    assert_eq!(extract_extension(""), "unknown");
}

#[test]
fn identifier_derivation_is_reproducible() {
    let chunks = vec![vec![1u8, 2, 3], vec![4u8, 5]];
    let first = derive_identifier(&chunks, 1700000000, "png");
    let second = derive_identifier(&chunks, 1700000000, "png");
    assert_eq!(first, second);
    assert!(first.ends_with(".png"));
    let stem = &first[..first.len() - 4];
    assert!(!stem.is_empty() && stem.len() <= 32);
    assert!(stem.chars().all(|c| c.is_ascii_hexdigit() && !c.is_ascii_uppercase()));
}

#[test]
fn identifier_keeps_the_extracted_extension() {
    let chunks = vec![vec![0u8; 10]];
    let ext = extract_extension("photo.jpeg");
    let identifier = derive_identifier(&chunks, 42, &ext);
    assert!(identifier.ends_with(".jpeg"));
    let ext = extract_extension("noext");
    let identifier = derive_identifier(&chunks, 42, &ext);
    assert!(identifier.ends_with(".unknown"));
}

#[test]
fn upload_accepted_in_whitelist_mode() {
    // A 10-byte payload named a.png, whitelist {png}, 1 MB cap, no token,
    // a fixed clock.
    let policy = whitelist_policy(&["png"], 1024 * 1024);
    let mut storage = Storage::new();
    let filename = "a.png".to_string();
    let payload = vec![vec![9u8; 10]];
    let outcome = process_upload(&policy, None, Some(&filename), &payload, 1700000000, &mut storage);
    let identifier = match outcome {
        UploadOutcome::Accepted { identifier } => identifier,
        _ => panic!("upload should be accepted"),
    };
    assert!(identifier.ends_with(".png"));

    let url = file_url(false, false, "localhost", 7879, &identifier);
    assert!(url.starts_with("http://localhost:7879/"));
    assert!(url.ends_with(".png"));

    // The stored bytes come back, with a png content type.
    let aux = Storage::new();
    match retrieve(&aux, &storage, None, &identifier) {
        Retrieved::Found { bytes, mime } => {
            assert_eq!(bytes, vec![9u8; 10]);
            assert_eq!(mime, Some("image/png".to_string()));
        }
        Retrieved::NotFound { .. } => panic!("stored file should be found"),
    }

    // Deleting it succeeds once, then reports not-found.
    assert_eq!(delete_file(&mut storage, &identifier), DeleteOutcome::Deleted);
    assert_eq!(delete_file(&mut storage, &identifier), DeleteOutcome::NotFound);
}

#[test]
fn upload_rejected_when_extension_not_whitelisted() {
    let policy = whitelist_policy(&["jpg"], 1024 * 1024);
    let mut storage = Storage::new();
    let filename = "a.png".to_string();
    let payload = vec![vec![9u8; 10]];
    let outcome = process_upload(&policy, None, Some(&filename), &payload, 1700000000, &mut storage);
    match outcome {
        UploadOutcome::ExtensionNotAllowed { extension } => assert_eq!(extension, "png"),
        _ => panic!("upload should be rejected for its extension"),
    }
    // Nothing was written.
    let aux = Storage::new();
    let any = derive_identifier(&payload, 1700000000, "png");
    assert!(matches!(
        retrieve(&aux, &storage, None, &any),
        Retrieved::NotFound { .. }
    ));
}

#[test]
fn upload_rejected_in_blacklist_mode() {
    let policy = Policy {
        max_file_size: 1024,
        require_token: false,
        token_digest: String::new(),
        extensions: ExtensionPolicy::Blacklist(vec!["exe".to_string()]),
    };
    let mut storage = Storage::new();
    let bad = "virus.exe".to_string();
    let outcome = process_upload(&policy, None, Some(&bad), &vec![vec![1u8]], 7, &mut storage);
    assert!(matches!(outcome, UploadOutcome::ExtensionNotAllowed { .. }));
    let good = "photo.png".to_string();
    let outcome = process_upload(&policy, None, Some(&good), &vec![vec![1u8]], 7, &mut storage);
    assert!(matches!(outcome, UploadOutcome::Accepted { .. }));
}

#[test]
fn upload_rejected_over_size_cap() {
    let policy = whitelist_policy(&["png"], 5);
    let mut storage = Storage::new();
    let filename = "a.png".to_string();
    // The second chunk drives the running size to 7, over the cap of 5.
    let payload = vec![vec![0u8; 3], vec![0u8; 4], vec![0u8; 100]];
    let outcome = process_upload(&policy, None, Some(&filename), &payload, 1700000000, &mut storage);
    match outcome {
        UploadOutcome::TooLarge { size } => assert_eq!(size, 7),
        _ => panic!("upload should be rejected for its size"),
    }
    assert_eq!(delete_file(&mut storage, &filename), DeleteOutcome::NotFound);
}

#[test]
fn upload_without_filename_gets_unknown_extension() {
    let policy = Policy {
        max_file_size: 100,
        require_token: false,
        token_digest: String::new(),
        extensions: ExtensionPolicy::Disabled,
    };
    let mut storage = Storage::new();
    let outcome = process_upload(&policy, None, None, &vec![vec![1u8, 2]], 3, &mut storage);
    match outcome {
        UploadOutcome::Accepted { identifier } => assert!(identifier.ends_with(".unknown")),
        _ => panic!("upload should be accepted"),
    }
}

#[test]
fn token_gate() {
    let config = Config::new();
    let policy = Policy {
        max_file_size: 100,
        require_token: true,
        token_digest: config.hashed_token(),
        extensions: ExtensionPolicy::Disabled,
    };
    let mut storage = Storage::new();
    let filename = "a.png".to_string();
    let wrong = "wrongtoken".to_string();
    let outcome =
        process_upload(&policy, Some(&wrong), Some(&filename), &vec![vec![1u8]], 5, &mut storage);
    assert!(matches!(outcome, UploadOutcome::IncorrectToken));
    let right = "testtoken".to_string();
    let outcome =
        process_upload(&policy, Some(&right), Some(&filename), &vec![vec![1u8]], 5, &mut storage);
    assert!(matches!(outcome, UploadOutcome::Accepted { .. }));
}

#[test]
fn aux_names_are_served_from_the_static_root() {
    let mut aux = Storage::new();
    let mut storage = Storage::new();
    let name = "style.css".to_string();
    aux.put(name.clone(), b"body {}".to_vec());
    // A same-named file sits in the upload storage; it must not be served.
    storage.put(name.clone(), b"stolen".to_vec());
    match retrieve(&aux, &storage, None, &name) {
        Retrieved::Found { bytes, .. } => assert_eq!(bytes, b"body {}".to_vec()),
        Retrieved::NotFound { .. } => panic!("the static asset should be found"),
    }
    // With the asset missing, the same-named upload still does not answer.
    let empty_aux = Storage::new();
    assert!(matches!(
        retrieve(&empty_aux, &storage, None, &name),
        Retrieved::NotFound { .. }
    ));
}

#[test]
fn resolve_paths() {
    assert_eq!(resolve_path("/srv/www", "style.css"), "/srv/www/style.css");
    assert_eq!(resolve_path("/srv/www", "favicon.ico"), "/srv/www/favicon.ico");
    assert_eq!(resolve_path("/srv/www", "CircularBody.woff"), "/srv/www/CircularBody.woff");
    assert_eq!(resolve_path("/srv/www", "abc123.png"), "/srv/www/file/abc123.png");
    assert_eq!(resolve_path(".", "style.css.bak"), "./file/style.css.bak");
}

#[test]
fn not_found_fallback_body() {
    assert_eq!(not_found_body(None), b"<h1>404 Not Found</h1>".to_vec());
    let page = b"custom page".to_vec();
    assert_eq!(not_found_body(Some(&page)), page);
}

#[test]
fn deletion_outcomes() {
    let mut storage = Storage::new();
    let empty = String::new();
    assert_eq!(delete_file(&mut storage, &empty), DeleteOutcome::EmptyName);
    let never = "never-uploaded.png".to_string();
    assert_eq!(delete_file(&mut storage, &never), DeleteOutcome::NotFound);
    storage.put(never.clone(), vec![1u8, 2, 3]);
    assert_eq!(delete_file(&mut storage, &never), DeleteOutcome::Deleted);
    assert_eq!(delete_file(&mut storage, &never), DeleteOutcome::NotFound);
}

#[test]
fn default_config() {
    let config = Config::new();
    assert_eq!(config.www_root(), ".");
    assert!(!config.proxy());
    assert!(!config.ssl());
    assert_eq!(config.host(), "localhost");
    assert_eq!(config.port(), 7879);
    assert!(config.local());
    assert_eq!(config.max_file_size(), 5 * 1024 * 1024);
    assert!(!config.use_token());
    assert_eq!(config.upload_mode(), UploadMode::Disabled);
    assert!(config.upload_whitelist().is_empty());
    assert!(config.upload_blacklist().is_empty());
    assert_eq!(config.hashed_token(), imagebed::hashing::get_str_sha256("testtoken"));
}

#[test]
fn config_scaling_from_parsed() {
    let mut parsed = Config::new();
    parsed.max_file_size = 2;
    let config = Config::from_parsed(Some(parsed));
    assert_eq!(config.max_file_size(), 2 * 1024 * 1024);
    // A configuration that does not parse falls back to the default,
    // whose cap is already in bytes and is not scaled again.
    let fallback = Config::from_parsed(None);
    assert_eq!(fallback.max_file_size(), 5 * 1024 * 1024);
}

#[test]
fn file_urls() {
    assert_eq!(file_url(false, false, "localhost", 7879, "x.png"), "http://localhost:7879/x.png");
    assert_eq!(file_url(true, false, "example.org", 443, "x.png"), "https://example.org:443/x.png");
    assert_eq!(file_url(false, true, "example.org", 8080, "x.png"), "http://example.org/x.png");
    assert_eq!(file_url(true, true, "example.org", 8080, "x.png"), "https://example.org/x.png");
}

#[test]
fn storage_put_get_overwrites() {
    let mut storage = Storage::new();
    let name = "k.bin".to_string();
    assert!(!storage.contains(&name));
    storage.put(name.clone(), vec![1u8]);
    assert!(storage.contains(&name));
    assert_eq!(storage.get(&name), Some(&vec![1u8]));
    storage.put(name.clone(), vec![2u8, 3]);
    assert_eq!(storage.get(&name), Some(&vec![2u8, 3]));
    assert!(storage.delete(&name));
    assert!(!storage.delete(&name));
    assert_eq!(storage.get(&name), None);
}
