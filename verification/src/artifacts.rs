//! Resolving content-addressed artifacts.
//!
//! The worker never receives bytes from the broker. It receives CIDs and
//! resolves them here, verifying the hash of everything it reads. That is what
//! makes the data plane replaceable - local disk today, a CDN, an object store,
//! or a P2P swarm tomorrow, with no change above this trait.
//!
//! The two sources here decide what is asked for and what is accepted; reading
//! the file and sending the request is up to the caller.

use vstd::prelude::*;

use crate::cache::{
    debug_path, debug_path_of, join_path, not_a_cid, path_join, step_views, FileCommand,
    FileCommandView, FileStep, FileStepView, StorePlan,
};
use crate::compile::bytes_or_reason;
use crate::digest::{cid, cid_text, is_cid, is_cid_text};
use crate::error::{judged, JudgeError, JudgeErrorView};
use crate::text::{before_trailing, copy_bytes, copy_text, joined, same_text, without_trailing};
use crate::verdict::Verdict;

verus! {

/// Most bytes of an artifact that are taken from the network.
pub const MAX_ARTIFACT_BYTES: u64 = 33_554_432;

/// Fewest bytes of a credential for the artifact gateway.
pub const MIN_TOKEN_BYTES: usize = 32;

/// A source of immutable, content-addressed objects.
pub trait ArtifactSource: Send + Sync {
    /// What may come of fetching an object. A source may be unreachable, so this
    /// is a relation. A source that does not state it may answer anything that
    /// hashes to what was asked for.
    open spec fn may_fetch(
        &self,
        cid: Seq<char>,
        result: Result<Seq<u8>, JudgeErrorView>,
    ) -> bool {
        true
    }

    /// Fetch the object named by `cid`.
    ///
    /// Implementations **must** verify that the returned bytes hash to `cid`.
    /// A source that returns unverified bytes turns a compromised mirror into a
    /// compromised verdict.
    fn fetch(&self, cid: &str) -> (result: Result<Vec<u8>, JudgeError>)
        ensures
            self.may_fetch(cid@, judged(result)),
            result matches Ok(bytes) ==> cid_text(bytes@) == cid@,
    ;
}

/// Read/write access used by trusted workers for result manifests.
pub trait ArtifactStore: ArtifactSource {
    /// Store bytes by their BLAKE3 CID and return that CID.
    fn put(&self, bytes: &[u8]) -> (result: Result<String, JudgeError>)
        ensures
            result matches Ok(cid) ==> cid@ == cid_text(bytes@),
    ;
}

/// Bytes that hash to the CID they were asked for by, or the error that they do
/// not.
pub open spec fn verified(cid: Seq<char>, bytes: Seq<u8>) -> Result<Seq<u8>, JudgeErrorView> {
    if cid_text(bytes) == cid {
        Ok(bytes)
    } else {
        Err(
            JudgeErrorView::CacheIntegrity { cid, detail: "content hashes to "@ + cid_text(bytes) },
        )
    }
}

/// Accept bytes that hash to the CID they were asked for by.
pub fn verify_bytes(cid: &str, bytes: Vec<u8>) -> (result: Result<Vec<u8>, JudgeError>)
    ensures
        judged(result) == verified(cid@, bytes@),
{
    let actual = crate::digest::cid(bytes.as_slice());
    if !same_text(actual.as_str(), cid) {
        return Err(
            JudgeError::CacheIntegrity {
                cid: copy_text(cid),
                detail: joined("content hashes to ", actual.as_str()),
            },
        );
    }
    Ok(bytes)
}

fn require_cid(cid: &str) -> (result: Result<(), JudgeError>)
    ensures
        judged(result) == (if is_cid_text(cid@) {
            Ok(())
        } else {
            Err(not_a_cid(cid@))
        }),
{
    if is_cid(cid) {
        Ok(())
    } else {
        Err(
            JudgeError::CacheIntegrity {
                cid: copy_text(cid),
                detail: "not a valid BLAKE3 CID".to_owned(),
            },
        )
    }
}

// ---------------------------------------------------------------------------
// A directory
// ---------------------------------------------------------------------------

/// A directory of files named by their CID.
///
/// Used for local development, offline operation, and the worker's own tests.
#[derive(Debug, PartialEq, Eq)]
pub struct LocalArtifacts {
    root: String,
}

impl View for LocalArtifacts {
    type V = Seq<char>;

    /// The directory.
    closed spec fn view(&self) -> Seq<char> {
        self.root@
    }
}

impl Clone for LocalArtifacts {
    fn clone(&self) -> (copy: LocalArtifacts)
        ensures
            copy@ == self@,
    {
        LocalArtifacts { root: copy_text(self.root.as_str()) }
    }
}

/// What storing bytes in a directory takes.
pub open spec fn local_put_steps(root: Seq<char>, bytes: Seq<u8>) -> Seq<FileStepView> {
    seq![
        FileStepView {
            command: FileCommandView::MakeDirectory(root),
            label: Some("cannot create "@ + debug_path(root) + ": "@),
        },
        FileStepView {
            command: FileCommandView::Write { path: path_join(root, cid_text(bytes)), bytes },
            label: Some("cannot write "@ + cid_text(bytes) + ": "@),
        },
    ]
}

/// What comes of fetching from a directory, given what is in the file.
pub open spec fn local_fetched(
    root: Seq<char>,
    cid: Seq<char>,
    read: Result<Seq<u8>, Seq<char>>,
) -> Result<Seq<u8>, JudgeErrorView> {
    if !is_cid_text(cid) {
        Err(not_a_cid(cid))
    } else {
        match read {
            Err(why) => Err(
                JudgeErrorView::Infrastructure(
                    "cannot read artifact "@ + cid + " from "@ + debug_path(path_join(root, cid))
                        + ": "@ + why,
                ),
            ),
            Ok(bytes) => verified(cid, bytes),
        }
    }
}

impl LocalArtifacts {
    /// Open a directory as an artifact source.
    pub fn new(root: &str) -> (source: LocalArtifacts)
        ensures
            source@ == root@,
    {
        LocalArtifacts { root: copy_text(root) }
    }

    /// The directory backing this source.
    pub fn root(&self) -> (root: &str)
        ensures
            root@ == self@,
    {
        self.root.as_str()
    }

    /// Store `bytes` under their CID. Test and seed helper.
    pub fn put(&self, bytes: &[u8]) -> (plan: StorePlan)
        ensures
            plan.cid@ == cid_text(bytes@),
            is_cid_text(plan.cid@),
            step_views(plan.steps@) == local_put_steps(self@, bytes@),
    {
        let key = cid(bytes);
        let mut make_label = joined("cannot create ", debug_path_of(self.root.as_str()).as_str());
        make_label.append(": ");
        let mut write_label = joined("cannot write ", key.as_str());
        write_label.append(": ");
        let make = FileStep {
            command: FileCommand::MakeDirectory(copy_text(self.root.as_str())),
            label: Some(make_label),
        };
        let write = FileStep {
            command: FileCommand::Write {
                path: join_path(self.root.as_str(), key.as_str()),
                bytes: copy_bytes(bytes),
            },
            label: Some(write_label),
        };
        let ghost said = seq![make@, write@];
        let mut steps: Vec<FileStep> = Vec::new();
        steps.push(make);
        steps.push(write);
        assert(step_views(steps@) == said);
        assert(said == local_put_steps(self@, bytes@));
        StorePlan { cid: key, steps }
    }

    /// The file to read for [`LocalArtifacts::fetch`]. A malformed CID is
    /// rejected before any filesystem access.
    pub fn location(&self, cid: &str) -> (result: Result<String, JudgeError>)
        ensures
            judged(result) == (if is_cid_text(cid@) {
                Ok(path_join(self@, cid@))
            } else {
                Err(not_a_cid(cid@))
            }),
    {
        match require_cid(cid) {
            Ok(_) => Ok(join_path(self.root.as_str(), cid)),
            Err(error) => Err(error),
        }
    }

    /// Fetch the object named by `cid`, given what is at
    /// [`LocalArtifacts::location`].
    pub fn fetch(&self, cid: &str, read: Result<Vec<u8>, String>) -> (result: Result<
        Vec<u8>,
        JudgeError,
    >)
        ensures
            judged(result) == local_fetched(self@, cid@, bytes_or_reason(read)),
    {
        let path = match self.location(cid) {
            Ok(path) => path,
            Err(error) => {
                return Err(error);
            },
        };
        match read {
            Err(why) => {
                let mut message = joined("cannot read artifact ", cid);
                message.append(" from ");
                message.append(debug_path_of(path.as_str()).as_str());
                message.append(": ");
                message.append(why.as_str());
                Err(JudgeError::Infrastructure(message))
            },
            Ok(bytes) => verify_bytes(cid, bytes),
        }
    }
}

// ---------------------------------------------------------------------------
// The artifact gateway
// ---------------------------------------------------------------------------

/// Authenticated access to the artifact gateway used by hosted workers.
#[derive(Debug, PartialEq, Eq)]
pub struct HttpArtifacts {
    base_url: String,
    bearer_token: String,
}

/// What an [`HttpArtifacts`] is set to.
#[verifier::ext_equal]
pub struct HttpArtifactsView {
    pub base_url: Seq<char>,
    pub bearer_token: Seq<char>,
}

impl View for HttpArtifacts {
    type V = HttpArtifactsView;

    closed spec fn view(&self) -> HttpArtifactsView {
        HttpArtifactsView { base_url: self.base_url@, bearer_token: self.bearer_token@ }
    }
}

impl Clone for HttpArtifacts {
    fn clone(&self) -> (copy: HttpArtifacts)
        ensures
            copy@ == self@,
    {
        HttpArtifacts {
            base_url: copy_text(self.base_url.as_str()),
            bearer_token: copy_text(self.bearer_token.as_str()),
        }
    }
}

/// What the gateway answered to a request for an artifact.
#[derive(Debug, PartialEq, Eq)]
pub enum GatewayReply {
    /// There was no answer, or it was an error.
    Unanswered(String),
    /// There was an answer.
    Answered {
        /// How long it says it is, if it says so.
        content_length: Option<u64>,
        /// Its body, or why it could not be read.
        body: Result<Vec<u8>, String>,
    },
}

/// What a [`GatewayReply`] says.
#[verifier::ext_equal]
pub enum GatewayReplyView {
    Unanswered(Seq<char>),
    Answered { content_length: Option<u64>, body: Result<Seq<u8>, Seq<char>> },
}

impl View for GatewayReply {
    type V = GatewayReplyView;

    open spec fn view(&self) -> GatewayReplyView {
        match *self {
            GatewayReply::Unanswered(why) => GatewayReplyView::Unanswered(why@),
            GatewayReply::Answered { content_length, body } => GatewayReplyView::Answered {
                content_length,
                body: bytes_or_reason(body),
            },
        }
    }
}

/// What an artifact that is too long is answered.
pub open spec fn too_long() -> JudgeErrorView {
    JudgeErrorView::SecurityPolicy("artifact response exceeds 32 MiB"@)
}

/// Whether a response says that it is too long.
pub open spec fn declared_too_long(content_length: Option<u64>) -> bool {
    content_length matches Some(size) && size > MAX_ARTIFACT_BYTES
}

/// What comes of fetching from the gateway.
pub open spec fn gateway_fetched(cid: Seq<char>, reply: GatewayReplyView) -> Result<
    Seq<u8>,
    JudgeErrorView,
> {
    if !is_cid_text(cid) {
        Err(not_a_cid(cid))
    } else {
        match reply {
            GatewayReplyView::Unanswered(why) => Err(
                JudgeErrorView::Infrastructure("fetch artifact "@ + cid + ": "@ + why),
            ),
            GatewayReplyView::Answered { content_length, body } => if declared_too_long(
                content_length,
            ) {
                Err(too_long())
            } else {
                match body {
                    Err(why) => Err(
                        JudgeErrorView::Infrastructure("read artifact "@ + cid + ": "@ + why),
                    ),
                    Ok(bytes) => if bytes.len() > MAX_ARTIFACT_BYTES {
                        Err(too_long())
                    } else {
                        verified(cid, bytes)
                    },
                }
            },
        }
    }
}

/// Whether the answer is worth reading, going by how long it says it is.
pub fn accept_length(content_length: Option<u64>) -> (result: Result<(), JudgeError>)
    ensures
        judged(result) == (if declared_too_long(content_length) {
            Err(too_long())
        } else {
            Ok(())
        }),
{
    if let Some(size) = content_length {
        if size > MAX_ARTIFACT_BYTES {
            return Err(JudgeError::SecurityPolicy("artifact response exceeds 32 MiB".to_owned()));
        }
    }
    Ok(())
}

impl HttpArtifacts {
    /// Access with a credential that is long enough.
    pub fn new(base_url: &str, bearer_token: &str) -> (result: Result<HttpArtifacts, JudgeError>)
        ensures
            judged(result) == (if vstd::utf8::encode_utf8(bearer_token@).len() < MIN_TOKEN_BYTES {
                Err(
                    JudgeErrorView::SecurityPolicy(
                        "artifact gateway credential must be at least 32 bytes"@,
                    ),
                )
            } else {
                Ok(
                    HttpArtifactsView {
                        base_url: before_trailing(base_url@, '/'),
                        bearer_token: bearer_token@,
                    },
                )
            }),
    {
        if bearer_token.as_bytes().len() < MIN_TOKEN_BYTES {
            return Err(
                JudgeError::SecurityPolicy(
                    "artifact gateway credential must be at least 32 bytes".to_owned(),
                ),
            );
        }
        Ok(
            HttpArtifacts {
                base_url: without_trailing(base_url, '/'),
                bearer_token: copy_text(bearer_token),
            },
        )
    }

    /// Where an artifact is.
    pub fn url(&self, cid: &str) -> (url: String)
        ensures
            url@ == self@.base_url + "/api/v1/artifacts/"@ + cid@,
    {
        let mut url = joined(self.base_url.as_str(), "/api/v1/artifacts/");
        url.append(cid);
        url
    }

    /// The credential.
    pub fn bearer_token(&self) -> (token: &str)
        ensures
            token@ == self@.bearer_token,
    {
        self.bearer_token.as_str()
    }

    /// Where to ask for an artifact. A malformed CID is not asked for.
    pub fn location(&self, cid: &str) -> (result: Result<String, JudgeError>)
        ensures
            judged(result) == (if is_cid_text(cid@) {
                Ok(self@.base_url + "/api/v1/artifacts/"@ + cid@)
            } else {
                Err(not_a_cid(cid@))
            }),
    {
        match require_cid(cid) {
            Ok(_) => Ok(self.url(cid)),
            Err(error) => Err(error),
        }
    }

    /// Fetch the object named by `cid`, given what the gateway answered.
    pub fn fetch(&self, cid: &str, reply: GatewayReply) -> (result: Result<Vec<u8>, JudgeError>)
        ensures
            judged(result) == gateway_fetched(cid@, reply@),
    {
        if let Err(error) = require_cid(cid) {
            return Err(error);
        }
        match reply {
            GatewayReply::Unanswered(why) => {
                let mut message = joined("fetch artifact ", cid);
                message.append(": ");
                message.append(why.as_str());
                Err(JudgeError::Infrastructure(message))
            },
            GatewayReply::Answered { content_length, body } => {
                if let Err(error) = accept_length(content_length) {
                    return Err(error);
                }
                match body {
                    Err(why) => {
                        let mut message = joined("read artifact ", cid);
                        message.append(": ");
                        message.append(why.as_str());
                        Err(JudgeError::Infrastructure(message))
                    },
                    Ok(bytes) => {
                        if let Err(error) = accept_length(Some(bytes.len() as u64)) {
                            return Err(error);
                        }
                        verify_bytes(cid, bytes)
                    },
                }
            },
        }
    }

    /// Store bytes by their CID, given what came of sending them to the URL of
    /// that CID.
    pub fn put(&self, bytes: &[u8], sent: Result<(), String>) -> (result: Result<
        String,
        JudgeError,
    >)
        ensures
            judged(result) == (match sent {
                Ok(_) => Ok(cid_text(bytes@)),
                Err(why) => Err(
                    JudgeErrorView::Infrastructure(
                        "store artifact "@ + cid_text(bytes@) + ": "@ + why@,
                    ),
                ),
            }),
    {
        let key = cid(bytes);
        match sent {
            Ok(_) => Ok(key),
            Err(why) => {
                let mut message = joined("store artifact ", key.as_str());
                message.append(": ");
                message.append(why.as_str());
                Err(JudgeError::Infrastructure(message))
            },
        }
    }
}

// ---------------------------------------------------------------------------
// What the sources promise
// ---------------------------------------------------------------------------

/// Neither source ever hands out bytes that do not hash to the CID that was
/// asked for, nor bytes for something that is no CID, whatever a disk or a
/// gateway says.
pub proof fn fetched_bytes_are_verified(
    root: Seq<char>,
    cid: Seq<char>,
    read: Result<Seq<u8>, Seq<char>>,
    reply: GatewayReplyView,
)
    ensures
        local_fetched(root, cid, read) matches Ok(bytes) ==> cid_text(bytes) == cid && is_cid_text(
            cid,
        ),
        gateway_fetched(cid, reply) matches Ok(bytes) ==> cid_text(bytes) == cid && is_cid_text(cid)
            && bytes.len() <= MAX_ARTIFACT_BYTES,
{
}

/// An artifact that is missing, unreadable or tampered with is a retryable
/// failure of the infrastructure. Only a gateway that sends too much is a
/// security event. Neither is ever a verdict on the submission.
pub proof fn fetch_failures_blame_the_infrastructure(
    root: Seq<char>,
    cid: Seq<char>,
    read: Result<Seq<u8>, Seq<char>>,
    reply: GatewayReplyView,
)
    ensures
        local_fetched(root, cid, read) matches Err(error) ==> error.verdict()
            == Verdict::InternalError,
        gateway_fetched(cid, reply) matches Err(error) ==> error.verdict() == Verdict::InternalError
            || error == too_long(),
{
}

/// What was stored in a directory is what is fetched from it.
pub proof fn stored_objects_are_fetched(
    disk: Map<Seq<char>, Seq<u8>>,
    root: Seq<char>,
    bytes: Seq<u8>,
)
    requires
        is_cid_text(cid_text(bytes)),
    ensures
        ({
            let after = crate::cache::after_steps(disk, local_put_steps(root, bytes));
            let path = path_join(root, cid_text(bytes));
            &&& after.contains_key(path)
            &&& local_fetched(root, cid_text(bytes), Ok(after[path])) == Ok::<
                Seq<u8>,
                JudgeErrorView,
            >(bytes)
        }),
{
    let steps = local_put_steps(root, bytes);
    reveal_with_fuel(crate::cache::after_steps, 3);
    assert(steps.drop_last().drop_last() == Seq::<FileStepView>::empty());
}

/// Bytes are handed out exactly where they hash to what was asked for, and
/// otherwise what they hash to is told.
pub proof fn bytes_are_what_they_hash_to(cid: Seq<char>, bytes: Seq<u8>)
    ensures
        cid_text(bytes) == cid ==> verified(cid, bytes) == Ok::<Seq<u8>, JudgeErrorView>(bytes),
        cid_text(bytes) != cid ==> verified(cid, bytes) == Err::<Seq<u8>, JudgeErrorView>(
            JudgeErrorView::CacheIntegrity { cid, detail: "content hashes to "@ + cid_text(bytes) },
        ),
{
}

/// What fetching from a directory answers, in full.
pub proof fn what_a_directory_answers(
    root: Seq<char>,
    cid: Seq<char>,
    read: Result<Seq<u8>, Seq<char>>,
)
    ensures
        !is_cid_text(cid) ==> local_fetched(root, cid, read) == Err::<Seq<u8>, JudgeErrorView>(
            JudgeErrorView::CacheIntegrity { cid, detail: "not a valid BLAKE3 CID"@ },
        ),
        is_cid_text(cid) ==> (read matches Err(why) ==> local_fetched(root, cid, read) == Err::<
            Seq<u8>,
            JudgeErrorView,
        >(
            JudgeErrorView::Infrastructure(
                "cannot read artifact "@ + cid + " from "@ + debug_path(path_join(root, cid))
                    + ": "@ + why,
            ),
        )),
        is_cid_text(cid) ==> (read matches Ok(bytes) ==> (local_fetched(root, cid, read) is Ok
            <==> cid_text(bytes) == cid)),
        is_cid_text(cid) ==> (read matches Ok(bytes) ==> (cid_text(bytes) == cid ==> local_fetched(
            root,
            cid,
            read,
        ) == Ok::<Seq<u8>, JudgeErrorView>(bytes))),
{
}

/// Storing in a directory makes the directory and writes the bytes under their
/// CID in it, and a failure of either says which.
pub proof fn steps_of_storing_in_a_directory(root: Seq<char>, bytes: Seq<u8>)
    ensures
        ({
            let steps = local_put_steps(root, bytes);
            &&& steps.len() == 2
            &&& steps[0].command == FileCommandView::MakeDirectory(root)
            &&& steps[0].label == Some("cannot create "@ + debug_path(root) + ": "@)
            &&& steps[1].command == (FileCommandView::Write {
                path: path_join(root, cid_text(bytes)),
                bytes,
            })
            &&& steps[1].label == Some("cannot write "@ + cid_text(bytes) + ": "@)
        }),
{
}

/// What fetching from a gateway answers, in full: thirty-two mebibytes may be
/// sent and no more, whatever was announced, and what is sent must be what was
/// asked for.
pub proof fn what_a_gateway_answers(cid: Seq<char>, reply: GatewayReplyView)
    ensures
        !is_cid_text(cid) ==> gateway_fetched(cid, reply) == Err::<Seq<u8>, JudgeErrorView>(
            JudgeErrorView::CacheIntegrity { cid, detail: "not a valid BLAKE3 CID"@ },
        ),
        is_cid_text(cid) ==> match reply {
            GatewayReplyView::Unanswered(why) => gateway_fetched(cid, reply) == Err::<
                Seq<u8>,
                JudgeErrorView,
            >(JudgeErrorView::Infrastructure("fetch artifact "@ + cid + ": "@ + why)),
            GatewayReplyView::Answered { content_length, body } => {
                let announced = content_length is Some && content_length->0 > 32 * 1024 * 1024;
                let result = gateway_fetched(cid, reply);
                let refused = Err::<Seq<u8>, JudgeErrorView>(
                    JudgeErrorView::SecurityPolicy("artifact response exceeds 32 MiB"@),
                );
                &&& announced ==> result == refused
                &&& !announced && body is Err ==> result == Err::<Seq<u8>, JudgeErrorView>(
                    JudgeErrorView::Infrastructure("read artifact "@ + cid + ": "@ + body->Err_0),
                )
                &&& !announced && body is Ok && body->Ok_0.len() > 32 * 1024 * 1024 ==> result
                    == refused
                &&& !announced && body is Ok && body->Ok_0.len() <= 32 * 1024 * 1024 ==> {
                    &&& cid_text(body->Ok_0) == cid ==> result == Ok::<Seq<u8>, JudgeErrorView>(
                        body->Ok_0,
                    )
                    &&& cid_text(body->Ok_0) != cid ==> result == Err::<Seq<u8>, JudgeErrorView>(
                        JudgeErrorView::CacheIntegrity {
                            cid,
                            detail: "content hashes to "@ + cid_text(body->Ok_0),
                        },
                    )
                }
            },
        },
        MIN_TOKEN_BYTES == 32,
{
}

} // verus!
