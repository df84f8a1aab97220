use melops::cache::{AfterRead, CacheDir, CacheLookup, CacheStrategy, CacheType};
use melops::text::join_path;

#[test]
fn cache_layout_below_base() {
    let dir = CacheDir::from_base("/var/cache/melops".to_string());
    assert_eq!(dir.base(), "/var/cache/melops");
    assert_eq!(dir.artifacts(), "/var/cache/melops/artifacts");
    assert_eq!(dir.pages(), "/var/cache/melops/artifacts/pages");
    assert_eq!(dir.downloads(), "/var/cache/melops/artifacts/downloads");
    assert_eq!(dir.transcriptions(), "/var/cache/melops/artifacts/transcriptions");
    assert_eq!(dir.models(), "/var/cache/melops/models");
    assert_eq!(dir.ort(), "/var/cache/melops/ort");
    assert_eq!(dir.model("parakeet"), "/var/cache/melops/models/parakeet");
    assert_eq!(dir.model("/abs/model"), "/abs/model");
}

#[test]
fn explicit_cache_dir_is_used_as_is() {
    let dir = CacheDir::new(Some("cache/".to_string())).unwrap();
    assert_eq!(dir.base(), "cache/");
    assert_eq!(dir.models(), "cache/models");
}

#[test]
fn system_cache_dir_gets_melops_subdirectory() {
    let dir = CacheDir::from_system_dir(Some("/home/u/.cache".to_string())).unwrap();
    assert_eq!(dir.base(), "/home/u/.cache/melops");
    assert!(CacheDir::from_system_dir(None).is_err());
    if let Ok(d) = CacheDir::new(None) {
        assert!(d.base().ends_with("/melops") || d.base() == "melops");
    }
}

#[test]
fn cache_type_paths() {
    let dir = CacheDir::from_base("/c".to_string());
    assert_eq!(CacheType::All.path(&dir), "/c");
    assert_eq!(CacheType::default().path(&dir), "/c/artifacts");
    assert_eq!(CacheType::Pages.path(&dir), "/c/artifacts/pages");
    assert_eq!(CacheType::Downloads.path(&dir), "/c/artifacts/downloads");
    assert_eq!(CacheType::Transcriptions.path(&dir), "/c/artifacts/transcriptions");
    assert_eq!(CacheType::Models.path(&dir), "/c/models");
    assert_eq!(CacheType::Ort.path(&dir), "/c/ort");
    let cloned = dir.clone();
    assert_eq!(cloned.pages(), dir.pages());
}

#[test]
fn path_join_rules() {
    assert_eq!(join_path("a", "b"), "a/b");
    assert_eq!(join_path("a/", "b"), "a/b");
    assert_eq!(join_path("", "b"), "b");
    assert_eq!(join_path("a", "/b"), "/b");
}

#[test]
fn cache_strategy_decisions() {
    assert_eq!(CacheStrategy::default(), CacheStrategy::Auto);
    assert_eq!(CacheStrategy::Force.first_step(), CacheLookup::Compute);
    assert_eq!(CacheStrategy::Auto.first_step(), CacheLookup::ReadCache);
    assert_eq!(CacheStrategy::Use.first_step(), CacheLookup::ReadCache);
    assert_eq!(CacheStrategy::Use.after_read(true, false), AfterRead::UseCached);
    assert_eq!(CacheStrategy::Use.after_read(false, true), AfterRead::Fail);
    assert_eq!(CacheStrategy::Auto.after_read(true, true), AfterRead::UseCached);
    assert_eq!(CacheStrategy::Auto.after_read(true, false), AfterRead::Compute);
    assert_eq!(CacheStrategy::Auto.after_read(false, true), AfterRead::Compute);
    assert!(!CacheStrategy::Use.writes_back());
    assert!(CacheStrategy::Auto.writes_back());
    assert!(CacheStrategy::Force.writes_back());
}
