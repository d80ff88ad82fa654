//! The artifact cache, on a disk of its own.

use std::collections::HashMap;
use std::path::Path;

use rustly_judge::cache::{
    ArtifactCache, FileCommand, FileRead, FileStep, TextRead, Trust,
};
use rustly_judge::digest::{cid, is_cid, CID_PREFIX};
use rustly_judge::error::JudgeError;
use rustly_judge::verdict::Verdict;

/// A cache together with the files it is made of.
struct Fixture {
    cache: ArtifactCache,
    files: HashMap<String, Vec<u8>>,
}

fn fixture() -> Fixture {
    Fixture {
        cache: ArtifactCache::open("/cache", Ok(())).unwrap(),
        files: HashMap::new(),
    }
}

impl Fixture {
    fn carry_out(&mut self, steps: Vec<FileStep>) {
        for step in steps {
            match step.command {
                FileCommand::MakeDirectory(_) => {}
                FileCommand::Write { path, bytes } => {
                    self.files.insert(path, bytes);
                }
                FileCommand::Rename { from, to } => {
                    let bytes = self.files.remove(&from).expect("nothing to rename");
                    self.files.insert(to, bytes);
                }
                FileCommand::Remove(path) => {
                    self.files.remove(&path);
                }
            }
        }
    }

    fn read(&self, path: &str) -> FileRead {
        match self.files.get(path) {
            Some(bytes) => FileRead::Found(bytes.clone()),
            None => FileRead::Missing,
        }
    }

    fn read_text(&self, path: &str) -> TextRead {
        match self.files.get(path) {
            Some(bytes) => match String::from_utf8(bytes.clone()) {
                Ok(text) => TextRead::Found(text),
                Err(error) => TextRead::Failed(error.to_string()),
            },
            None => TextRead::Missing,
        }
    }

    fn put(&mut self, bytes: &[u8], trust: Trust) -> String {
        let plan = self.cache.put(bytes, trust);
        self.carry_out(plan.steps);
        plan.cid
    }

    fn get(&mut self, cid: &str, trust: Trust) -> Result<Option<Vec<u8>>, JudgeError> {
        let read = match self.cache.location(cid, trust) {
            Ok(path) => self.read(&path),
            Err(_) => FileRead::Missing,
        };
        let lookup = self.cache.get(cid, trust, read);
        self.carry_out(lookup.steps);
        lookup.result
    }

    fn get_verified(&mut self, cid: &str) -> Result<Option<Vec<u8>>, JudgeError> {
        let read = match self.cache.location(cid, Trust::Verified) {
            Ok(path) => self.read(&path),
            Err(_) => FileRead::Missing,
        };
        let lookup = self.cache.get_verified(cid, read);
        self.carry_out(lookup.steps);
        lookup.result
    }

    fn contains_verified(&self, cid: &str) -> bool {
        let exists = match self.cache.location(cid, Trust::Verified) {
            Ok(path) => self.files.contains_key(&path),
            Err(_) => false,
        };
        self.cache.contains_verified(cid, exists)
    }

    fn promote(&mut self, cid: &str, reproduced: &[u8]) -> Result<(), JudgeError> {
        let (steps, result) = self.cache.promote(cid, reproduced);
        self.carry_out(steps);
        result
    }

    fn put_build(
        &mut self,
        key: &str,
        bytes: &[u8],
        trust: Trust,
    ) -> Result<String, JudgeError> {
        let plan = self.cache.put_build(key, bytes, trust)?;
        self.carry_out(plan.steps);
        Ok(plan.cid)
    }

    fn get_build(&mut self, key: &str, trust: Trust) -> Result<Option<Vec<u8>>, JudgeError> {
        let index = match self.cache.index_location(key, trust) {
            Ok(path) => self.read_text(&path),
            Err(_) => TextRead::Missing,
        };
        let content = match self.cache.content_location(&index, trust) {
            Some(path) => self.read(&path),
            None => FileRead::Missing,
        };
        let lookup = self.cache.get_build(key, trust, &index, content);
        self.carry_out(lookup.steps);
        lookup.result
    }

    fn contains_build(&self, key: &str) -> bool {
        let index = match self.cache.index_location(key, Trust::Verified) {
            Ok(path) => self.read_text(&path),
            Err(_) => TextRead::Missing,
        };
        let content = match self.cache.content_location(&index, Trust::Verified) {
            Some(path) => self.files.contains_key(&path),
            None => false,
        };
        self.cache.contains_build(key, &index, content)
    }
}

#[test]
fn cids_are_content_derived_and_stable() {
    assert_eq!(cid(b"hello"), cid(b"hello"));
    assert_ne!(cid(b"hello"), cid(b"hell0"));
    assert!(is_cid(&cid(b"hello")));
    assert!(cid(b"").starts_with(CID_PREFIX));
}

#[test]
fn a_cid_is_the_blake3_digest() {
    assert_eq!(
        cid(b""),
        "b3:af1349b9f5f9a1a6a0404dea36dcc9499bcb25c9adc112b7cc9a93cae41f3262"
    );
    assert_eq!(
        cid(b"hello"),
        format!("b3:{}", blake3::hash(b"hello").to_hex())
    );
}

#[test]
fn malformed_cids_are_rejected() {
    for bad in [
        "",
        "b3:",
        "b3:zz",
        "deadbeef",
        &format!("b3:{}", "A".repeat(64)),
    ] {
        assert!(!is_cid(bad), "should reject {bad:?}");
    }
}

#[test]
fn only_sixty_four_lowercase_digits_make_a_cid() {
    let hex = "0123456789abcdef".repeat(4);
    assert!(is_cid(&format!("b3:{hex}")));
    assert!(!is_cid(&format!("b3:{hex}0")));
    assert!(!is_cid(&format!("b3:{}", &hex[1..])));
    assert!(!is_cid(&format!("b3:b3:{hex}")));
    assert!(!is_cid(&hex));
    assert!(!is_cid(&format!("b3:{}g", &hex[1..])));
}

#[test]
fn a_round_trip_returns_the_same_bytes() {
    let mut cache = fixture();
    let cid = cache.put(b"artifact bytes", Trust::Verified);
    assert_eq!(
        cache.get_verified(&cid).unwrap().unwrap(),
        b"artifact bytes"
    );
    assert!(cache.contains_verified(&cid));
}

#[test]
fn a_miss_is_a_miss_not_an_error() {
    let mut cache = fixture();
    assert_eq!(cache.get_verified(&cid(b"never stored")).unwrap(), None);
}

#[test]
fn corruption_is_detected_on_read_evicted_and_reported_as_retryable() {
    let mut cache = fixture();
    let cid = cache.put(b"good bytes", Trust::Verified);

    // Tamper with the stored file, exactly as a bad disk or an attacker would.
    let path = cache.cache.path_of(&cid, Trust::Verified);
    cache.files.insert(path.clone(), b"evil bytes".to_vec());

    let error = cache.get_verified(&cid).unwrap_err();
    assert_eq!(
        error.verdict(),
        Verdict::InternalError,
        "cache corruption must never surface as a user verdict"
    );
    assert!(error.is_retryable());
    assert!(
        !cache.files.contains_key(&path),
        "a known-bad entry must be evicted, not left to be re-read"
    );
    assert_eq!(cache.get_verified(&cid).unwrap(), None);
}

#[test]
fn truncation_is_detected_too() {
    let mut cache = fixture();
    let cid = cache.put(b"a reasonably long artifact", Trust::Verified);
    let path = cache.cache.path_of(&cid, Trust::Verified);
    cache.files.insert(path, b"a reasonably".to_vec());
    assert!(matches!(
        cache.get_verified(&cid),
        Err(JudgeError::CacheIntegrity { .. })
    ));
}

#[test]
fn a_quarantined_artifact_is_never_served_to_a_judging_path() {
    let mut cache = fixture();
    let cid = cache.put(b"volunteer output", Trust::Quarantined);

    assert_eq!(
        cache.get_verified(&cid).unwrap(),
        None,
        "a quarantined artifact must read as absent, forcing a rebuild"
    );
    assert!(!cache.contains_verified(&cid));
    // It is still retrievable for diagnostics.
    assert!(cache.get(&cid, Trust::Quarantined).unwrap().is_some());
}

#[test]
fn promotion_requires_a_matching_trusted_rebuild() {
    let mut cache = fixture();
    let cid = cache.put(b"volunteer output", Trust::Quarantined);

    cache.promote(&cid, b"volunteer output").unwrap();
    assert!(cache.contains_verified(&cid));
    assert_eq!(
        cache.get(&cid, Trust::Quarantined).unwrap(),
        None,
        "quarantine copy removed"
    );
    assert_eq!(
        cache.get_verified(&cid).unwrap().unwrap(),
        b"volunteer output"
    );
}

#[test]
fn a_mismatched_rebuild_destroys_the_quarantined_copy() {
    let mut cache = fixture();
    let cid = cache.put(b"volunteer output", Trust::Quarantined);

    let error = cache.promote(&cid, b"different output").unwrap_err();
    assert_eq!(error.verdict(), Verdict::InternalError);
    assert_eq!(cache.get(&cid, Trust::Quarantined).unwrap(), None);
    assert!(!cache.contains_verified(&cid));
}

#[test]
fn a_partial_write_never_becomes_a_readable_entry() {
    let mut cache = fixture();
    let cid = cache.put(b"complete", Trust::Verified);
    // No `.partial` file survives a successful put.
    let partial = format!("{}.partial", cache.cache.path_of(&cid, Trust::Verified));
    assert!(!cache.files.contains_key(&partial));
    assert_eq!(cache.files.len(), 1);
}

#[test]
fn storing_that_is_cut_short_leaves_the_entry_alone() {
    for done in 0..3 {
        let mut cache = fixture();
        let plan = cache.cache.put(b"complete", Trust::Verified);
        let key = plan.cid.clone();
        assert_eq!(plan.steps.len(), 3);
        cache.carry_out(plan.steps.into_iter().take(done).collect());
        assert_eq!(cache.get_verified(&key).unwrap(), None);
    }
}

#[test]
fn storing_the_same_bytes_twice_is_idempotent() {
    let mut cache = fixture();
    let first = cache.put(b"same", Trust::Verified);
    let files = cache.files.clone();
    let second = cache.put(b"same", Trust::Verified);
    assert_eq!(first, second);
    assert_eq!(cache.get_verified(&first).unwrap().unwrap(), b"same");
    assert_eq!(cache.files, files);
}

#[test]
fn a_build_key_resolves_to_the_artifact_it_produced() {
    let mut cache = fixture();
    let key = cid(b"source+toolchain+compiler");

    assert_eq!(cache.get_build(&key, Trust::Verified).unwrap(), None);
    let stored = cache
        .put_build(&key, b"compiled module", Trust::Verified)
        .unwrap();
    assert_eq!(
        cache.get_build(&key, Trust::Verified).unwrap().unwrap(),
        b"compiled module"
    );
    assert_eq!(stored, cid(b"compiled module"));
    assert!(cache.contains_build(&key));
}

#[test]
fn a_quarantined_build_is_not_visible_to_the_verified_lookup() {
    let mut cache = fixture();
    let key = cid(b"volunteer build");
    cache
        .put_build(&key, b"volunteer module", Trust::Quarantined)
        .unwrap();

    assert_eq!(cache.get_build(&key, Trust::Verified).unwrap(), None);
    assert!(!cache.contains_build(&key));
    assert!(cache.get_build(&key, Trust::Quarantined).unwrap().is_some());
}

#[test]
fn a_build_index_pointing_at_corrupt_content_becomes_a_clean_miss() {
    let mut cache = fixture();
    let key = cid(b"build inputs");
    let stored = cache
        .put_build(&key, b"good module", Trust::Verified)
        .unwrap();

    let path = cache.cache.path_of(&stored, Trust::Verified);
    cache.files.insert(path, b"bad module".to_vec());

    let error = cache.get_build(&key, Trust::Verified).unwrap_err();
    assert_eq!(error.verdict(), Verdict::InternalError);
    assert_eq!(
        cache.get_build(&key, Trust::Verified).unwrap(),
        None,
        "the dangling index entry must be dropped so the next lookup rebuilds"
    );
}

#[test]
fn a_build_whose_artifact_was_evicted_is_not_contained() {
    let mut cache = fixture();
    let key = cid(b"build inputs");
    let stored = cache
        .put_build(&key, b"good module", Trust::Verified)
        .unwrap();
    assert!(cache.contains_build(&key));

    let path = cache.cache.path_of(&stored, Trust::Verified);
    cache.files.insert(path, b"bad module".to_vec());
    assert!(cache.get_verified(&stored).is_err());

    assert!(!cache.contains_build(&key));
    assert_eq!(cache.get_build(&key, Trust::Verified).unwrap(), None);
    assert!(!cache.contains_build("not-a-cid"));
}

#[test]
fn promoting_under_a_key_without_a_place_is_a_mismatch() {
    for key in ["", "b3:", "b3:b3:", "x", "x\u{e9}", "\u{20ac}uro"] {
        let mut cache = fixture();
        cache.put(b"x", Trust::Verified);
        let files = cache.files.clone();
        let error = cache.promote(key, b"x").unwrap_err();
        assert_eq!(error.verdict(), Verdict::InternalError);
        assert!(matches!(error, JudgeError::CacheIntegrity { cid, .. } if cid == key));
        assert_eq!(cache.files, files);
    }
    let (steps, _) = fixture().cache.promote("\u{e9}t\u{e9}", b"x");
    assert_eq!(steps.len(), 1);
}

#[test]
fn an_index_that_holds_no_cid_becomes_a_clean_miss() {
    let mut cache = fixture();
    let key = cid(b"build inputs");
    let index = cache.cache.index_location(&key, Trust::Verified).unwrap();
    cache.files.insert(index, b"garbage".to_vec());
    assert!(matches!(
        cache.get_build(&key, Trust::Verified),
        Err(JudgeError::CacheIntegrity { .. })
    ));
    assert_eq!(cache.get_build(&key, Trust::Verified).unwrap(), None);
}

#[test]
fn white_space_around_an_index_entry_does_not_matter() {
    let mut cache = fixture();
    let key = cid(b"build inputs");
    let stored = cache.put_build(&key, b"module", Trust::Verified).unwrap();
    let index = cache.cache.index_location(&key, Trust::Verified).unwrap();
    cache
        .files
        .insert(index, format!(" {stored}\n").into_bytes());
    assert_eq!(
        cache.get_build(&key, Trust::Verified).unwrap().unwrap(),
        b"module"
    );
}

#[test]
fn a_malformed_build_key_is_rejected() {
    let mut cache = fixture();
    assert!(cache.get_build("not-a-cid", Trust::Verified).is_err());
    assert!(cache
        .put_build("not-a-cid", b"x", Trust::Verified)
        .is_err());
    assert_eq!(
        cache
            .get_build("not-a-\"cid", Trust::Verified)
            .unwrap_err()
            .to_string(),
        "infrastructure failure: build key \"not-a-\\\"cid\" is not a valid CID"
    );
}

#[test]
fn a_malformed_key_is_an_integrity_error_not_a_silent_miss() {
    let mut cache = fixture();
    assert!(matches!(
        cache.get_verified("not-a-cid"),
        Err(JudgeError::CacheIntegrity { .. })
    ));
}

#[test]
fn files_that_cannot_be_read_are_infrastructure_failures() {
    let cache = fixture().cache;
    let key = cid(b"x");
    let lookup = cache.get(&key, Trust::Verified, FileRead::Failed("denied".into()));
    assert_eq!(
        lookup.result.unwrap_err().to_string(),
        "infrastructure failure: cache read failed: denied"
    );
    assert!(lookup.steps.is_empty());
    let lookup = cache.get_build(
        &key,
        Trust::Verified,
        &TextRead::Failed("denied".into()),
        FileRead::Missing,
    );
    assert_eq!(
        lookup.result.unwrap_err().to_string(),
        "infrastructure failure: index read failed: denied"
    );
}

#[test]
fn entries_are_fanned_out_below_the_root() {
    let cache = ArtifactCache::open("/cache", Ok(())).unwrap();
    let key = format!("b3:{}", "ab".repeat(32));
    let hex = "ab".repeat(32);
    assert_eq!(
        cache.path_of(&key, Trust::Verified),
        format!("/cache/verified/ab/{hex}")
    );
    assert_eq!(
        cache.path_of(&key, Trust::Quarantined),
        format!("/cache/quarantine/ab/{hex}")
    );
    assert_eq!(
        cache.index_location(&key, Trust::Verified).unwrap(),
        format!("/cache/index-verified/ab/{hex}")
    );
    assert_eq!(cache.path_of("b3:b3:xyz", Trust::Verified), "/cache/verified/xy/xyz");
    assert_eq!(cache.path_of("\u{e9}t\u{e9}", Trust::Verified), "/cache/verified/\u{e9}/\u{e9}t\u{e9}");
    assert_eq!(cache.root(), "/cache");
    assert_eq!(cache.clone(), cache);
    let relative = ArtifactCache::open("", Ok(())).unwrap();
    assert_eq!(relative.path_of(&key, Trust::Verified), format!("verified/ab/{hex}"));
    let slashed = ArtifactCache::open("c/", Ok(())).unwrap();
    assert_eq!(slashed.path_of(&key, Trust::Verified), format!("c/verified/ab/{hex}"));
}

#[test]
fn paths_are_joined_as_the_standard_library_joins_them() {
    let parts = ["", "/", "a", "/a", "a/", "a/b", "/a/b/"];
    for base in parts {
        for part in parts {
            assert_eq!(
                rustly_judge::cache::join_path(base, part),
                Path::new(base).join(part).to_str().unwrap(),
                "{base:?} {part:?}"
            );
        }
    }
}

#[test]
fn a_cache_that_cannot_be_created_says_so() {
    let error = ArtifactCache::open("/no/\"where", Err("denied".into())).unwrap_err();
    assert_eq!(
        error.to_string(),
        "infrastructure failure: cannot create cache at \"/no/\\\"where\": denied"
    );
}

#[test]
fn failed_steps_are_called_by_their_names() {
    let cache = fixture().cache;
    let key = cid(b"k");
    let plan = cache.put_build(&key, b"x", Trust::Verified).unwrap();
    let errors: Vec<String> = plan
        .steps
        .iter()
        .map(|step| step.error("full").unwrap().to_string())
        .collect();
    assert_eq!(
        errors,
        [
            "infrastructure failure: cache mkdir failed: full",
            "infrastructure failure: cache write failed: full",
            "infrastructure failure: cache rename failed: full",
            "infrastructure failure: cache mkdir failed: full",
            "infrastructure failure: index write failed: full",
            "infrastructure failure: index rename failed: full",
        ]
    );
    let (steps, _) = cache.promote(&key, b"other");
    assert_eq!(steps.len(), 1);
    assert_eq!(steps[0].error("gone"), None);
}
