//! Artifact sources.

use std::collections::HashMap;

use rustly_judge::artifacts::{
    accept_length, verify_bytes, GatewayReply, HttpArtifacts, LocalArtifacts, MAX_ARTIFACT_BYTES,
};
use rustly_judge::cache::{FileCommand, FileStep};
use rustly_judge::digest::cid;
use rustly_judge::error::JudgeError;
use rustly_judge::verdict::Verdict;

struct Fixture {
    source: LocalArtifacts,
    files: HashMap<String, Vec<u8>>,
}

fn fixture() -> Fixture {
    Fixture {
        source: LocalArtifacts::new("/artifacts"),
        files: HashMap::new(),
    }
}

impl Fixture {
    fn put(&mut self, bytes: &[u8]) -> String {
        let plan = self.source.put(bytes);
        for step in plan.steps {
            if let FileCommand::Write { path, bytes } = step.command {
                self.files.insert(path, bytes);
            }
        }
        plan.cid
    }

    fn fetch(&self, cid: &str) -> Result<Vec<u8>, JudgeError> {
        let path = self.source.location(cid)?;
        let read = match self.files.get(&path) {
            Some(bytes) => Ok(bytes.clone()),
            None => Err("No such file or directory (os error 2)".into()),
        };
        self.source.fetch(cid, read)
    }
}

#[test]
fn a_stored_artifact_round_trips() {
    let mut source = fixture();
    let cid = source.put(b"package bytes");
    assert_eq!(source.fetch(&cid).unwrap(), b"package bytes");
}

#[test]
fn tampered_content_is_refused_as_a_retryable_infrastructure_error() {
    let mut source = fixture();
    let cid = source.put(b"honest bytes");

    source
        .files
        .insert(format!("/artifacts/{cid}"), b"tampered bytes".to_vec());
    let error = source.fetch(&cid).unwrap_err();

    assert_eq!(
        error.verdict(),
        Verdict::InternalError,
        "a poisoned mirror must never become a user verdict"
    );
    assert!(error.is_retryable());
}

#[test]
fn a_missing_artifact_is_infrastructure_not_a_user_error() {
    let source = fixture();
    let missing = cid(b"never stored");
    let error = source.fetch(&missing).unwrap_err();
    assert_eq!(error.verdict(), Verdict::InternalError);
    assert_eq!(
        error.to_string(),
        format!(
            "infrastructure failure: cannot read artifact {missing} from \"/artifacts/{missing}\": \
             No such file or directory (os error 2)"
        )
    );
}

#[test]
fn a_malformed_cid_is_rejected_before_any_filesystem_access() {
    let source = LocalArtifacts::new("/nonexistent");
    // Path traversal must not even be attempted.
    for bad in ["../../etc/passwd", "b3:", "", "not-a-cid"] {
        assert!(source.location(bad).is_err(), "should reject {bad:?}");
        assert!(
            source.fetch(bad, Ok(vec![])).is_err(),
            "should reject {bad:?}"
        );
    }
}

#[test]
fn failing_to_store_is_named_after_what_failed() {
    let source = LocalArtifacts::new("/a\"b");
    let plan = source.put(b"x");
    let errors: Vec<String> = plan
        .steps
        .iter()
        .map(|step: &FileStep| step.error("full").unwrap().to_string())
        .collect();
    assert_eq!(
        errors,
        [
            "infrastructure failure: cannot create \"/a\\\"b\": full".to_owned(),
            format!("infrastructure failure: cannot write {}: full", cid(b"x")),
        ]
    );
    assert_eq!(source.root(), "/a\"b");
    assert_eq!(source.clone(), source);
}

const TOKEN: &str = "0123456789abcdef0123456789abcdef";

fn gateway() -> HttpArtifacts {
    HttpArtifacts::new("https://gateway.example//", TOKEN).unwrap()
}

#[test]
fn the_gateway_needs_a_long_credential() {
    let error = HttpArtifacts::new("https://gateway.example", "short").unwrap_err();
    assert_eq!(error.verdict(), Verdict::SecurityEvent);
    assert_eq!(
        error.to_string(),
        "security policy tripped: artifact gateway credential must be at least 32 bytes"
    );
    assert!(HttpArtifacts::new("", &TOKEN[1..]).is_err());
    assert_eq!(gateway().bearer_token(), TOKEN);
}

#[test]
fn the_gateway_is_asked_below_its_base_url() {
    let key = cid(b"x");
    assert_eq!(
        gateway().location(&key).unwrap(),
        format!("https://gateway.example/api/v1/artifacts/{key}")
    );
    assert!(gateway().location("../secret").is_err());
}

fn answered(content_length: Option<u64>, body: Result<Vec<u8>, String>) -> GatewayReply {
    GatewayReply::Answered {
        content_length,
        body,
    }
}

#[test]
fn what_the_gateway_answers_is_verified() {
    let key = cid(b"honest");
    let fetched = |reply| gateway().fetch(&key, reply);
    assert_eq!(
        fetched(answered(Some(6), Ok(b"honest".to_vec()))).unwrap(),
        b"honest"
    );
    assert!(matches!(
        fetched(answered(None, Ok(b"tampered".to_vec()))),
        Err(JudgeError::CacheIntegrity { .. })
    ));
    assert_eq!(
        fetched(GatewayReply::Unanswered("refused".into()))
            .unwrap_err()
            .to_string(),
        format!("infrastructure failure: fetch artifact {key}: refused")
    );
    assert_eq!(
        fetched(answered(None, Err("reset".into())))
            .unwrap_err()
            .to_string(),
        format!("infrastructure failure: read artifact {key}: reset")
    );
    assert!(gateway()
        .fetch("b3:", answered(None, Ok(vec![])))
        .is_err());
}

#[test]
fn the_gateway_may_not_send_too_much() {
    let key = cid(b"x");
    let error = gateway()
        .fetch(
            &key,
            answered(Some(MAX_ARTIFACT_BYTES + 1), Ok(b"x".to_vec())),
        )
        .unwrap_err();
    assert_eq!(error.verdict(), Verdict::SecurityEvent);
    assert!(accept_length(Some(MAX_ARTIFACT_BYTES)).is_ok());
    assert!(accept_length(None).is_ok());
    let long = vec![0_u8; MAX_ARTIFACT_BYTES as usize + 1];
    assert_eq!(
        gateway()
            .fetch(&cid(&long), answered(None, Ok(long)))
            .unwrap_err()
            .to_string(),
        "security policy tripped: artifact response exceeds 32 MiB"
    );
}

#[test]
fn storing_at_the_gateway_gives_the_cid() {
    assert_eq!(gateway().put(b"x", Ok(())).unwrap(), cid(b"x"));
    assert_eq!(
        gateway().put(b"x", Err("503".into())).unwrap_err().to_string(),
        format!("infrastructure failure: store artifact {}: 503", cid(b"x"))
    );
    assert_eq!(verify_bytes(&cid(b"x"), b"x".to_vec()).unwrap(), b"x");
}
