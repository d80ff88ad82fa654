//! Content-addressed artifact cache.
//!
//! # The one rule
//!
//! **The cache is disposable.** Every compiled artifact can be rebuilt from its
//! source, so a corrupt, truncated, or tampered entry must cause a clean retry
//! and a quarantine - never an incorrect verdict for a user.
//!
//! That rule is enforced structurally: [`ArtifactCache::get`] verifies the
//! BLAKE3 hash of the bytes that were read **on every read**, not just on write.
//! An entry whose content no longer matches its key is removed and reported as
//! [`JudgeError::CacheIntegrity`], which maps to `IE` - retryable, and never
//! `WA`.
//!
//! # Quarantine
//!
//! Artifacts produced by a non-trusted worker enter [`Trust::Quarantined`]. A
//! quarantined artifact is stored and served for *diagnostics*, but
//! [`ArtifactCache::get_verified`] refuses to hand it to a judging path until it
//! has been independently reproduced by trusted capacity.
//!
//! # Files
//!
//! The cache decides which files are read, written and removed, and what that
//! means; whoever owns the file system does it. To look something up, read the
//! file at the location that the cache names and hand in what came of it. To
//! store something, carry out the steps that the cache lists, one after another,
//! and stop at the first one whose failure has a name ([`FileStep::error`]).
//! Paths are Unix paths.

use vstd::prelude::*;

use crate::digest::{cid, cid_text, is_cid, is_cid_text, is_digest};
use crate::error::{judged, JudgeError, JudgeErrorView};
use crate::text::{
    after_prefixes, chars_of, copy_bytes, copy_text, debug_of, debug_text, joined, same_text,
    slice_text, trim_text, trimmed, without_prefixes,
};
use crate::verdict::{Verdict, VerdictClass};

verus! {

/// How much an artifact is trusted.
#[derive(Debug, Clone, Copy, PartialEq, Eq, Structural, PartialOrd, Ord)]
pub enum Trust {
    /// Produced by a non-trusted worker. Not usable for judging yet.
    Quarantined,
    /// Reproduced by trusted capacity, or produced by it directly.
    Verified,
}

// ---------------------------------------------------------------------------
// Paths
// ---------------------------------------------------------------------------

/// A path with one more part. An absolute part replaces what was there.
pub open spec fn path_join(base: Seq<char>, part: Seq<char>) -> Seq<char> {
    if part.len() > 0 && part[0] == '/' {
        part
    } else if base.len() == 0 || base.last() == '/' {
        base + part
    } else {
        base.push('/') + part
    }
}

/// A path with one more part. An absolute part replaces what was there.
pub fn join_path(base: &str, part: &str) -> (path: String)
    ensures
        path@ == path_join(base@, part@),
{
    let head = chars_of(base);
    let tail = chars_of(part);
    if tail.len() > 0 && tail[0] == '/' {
        return copy_text(part);
    }
    let mut path = copy_text(base);
    if head.len() > 0 && head[head.len() - 1] != '/' {
        path.push('/');
    }
    path.append(part);
    path
}

/// The characters that make up exactly the first two bytes of a string, where
/// there are such characters.
pub open spec fn two_bytes(s: Seq<char>) -> Option<Seq<char>> {
    if s.len() >= 2 && (s[0] as int) < 0x80 && (s[1] as int) < 0x80 {
        Some(s.take(2))
    } else if s.len() >= 1 && 0x80 <= s[0] as int && (s[0] as int) < 0x800 {
        Some(s.take(1))
    } else {
        None
    }
}

/// Whether a key names a place at all.
pub open spec fn has_place(key: Seq<char>) -> bool {
    two_bytes(after_prefixes(key, "b3:"@)) is Some
}

/// The directory of the entries under a key. Two-character fan-out keeps
/// directory sizes reasonable.
pub open spec fn folder_of(root: Seq<char>, directory: Seq<char>, key: Seq<char>) -> Seq<char> {
    let hex = after_prefixes(key, "b3:"@);
    path_join(path_join(root, directory), two_bytes(hex)->0)
}

/// Where the entry under a key is.
pub open spec fn place_of(root: Seq<char>, directory: Seq<char>, key: Seq<char>) -> Seq<char> {
    path_join(folder_of(root, directory, key), after_prefixes(key, "b3:"@))
}

/// The directory of artifacts.
pub open spec fn artifact_directory(trust: Trust) -> Seq<char> {
    match trust {
        Trust::Verified => "verified"@,
        Trust::Quarantined => "quarantine"@,
    }
}

/// The directory of the index from build keys to artifacts.
pub open spec fn index_directory(trust: Trust) -> Seq<char> {
    match trust {
        Trust::Verified => "index-verified"@,
        Trust::Quarantined => "index-quarantine"@,
    }
}

fn is_placed(key: &str) -> (yes: bool)
    ensures
        yes == has_place(key@),
{
    let hex = without_prefixes(key, "b3:");
    let chars = chars_of(hex.as_str());
    if chars.len() == 0 {
        false
    } else if chars[0] <= '\u{7f}' {
        chars.len() >= 2 && chars[1] <= '\u{7f}'
    } else {
        chars[0] <= '\u{7ff}'
    }
}

fn folder(root: &str, directory: &str, key: &str) -> (path: String)
    requires
        has_place(key@),
    ensures
        path@ == folder_of(root@, directory@, key@),
{
    let hex = without_prefixes(key, "b3:");
    let chars = chars_of(hex.as_str());
    let first = chars[0];
    let count: usize = if first <= '\u{7f}' { 2 } else { 1 };
    let fan_out = slice_text(&chars, 0, count);
    assert(fan_out@ == chars@.take(count as int));
    assert(two_bytes(hex@) == Some(fan_out@));
    join_path(join_path(root, directory).as_str(), fan_out.as_str())
}

fn place(root: &str, directory: &str, key: &str) -> (path: String)
    requires
        has_place(key@),
    ensures
        path@ == place_of(root@, directory@, key@),
{
    let hex = without_prefixes(key, "b3:");
    join_path(folder(root, directory, key).as_str(), hex.as_str())
}

proof fn lemma_cid_place(key: Seq<char>)
    requires
        is_cid_text(key),
    ensures
        after_prefixes(key, "b3:"@) == key.skip(3),
        is_digest(key.skip(3)),
        two_bytes(key.skip(3)) == Some(key.skip(3).take(2)),
        has_place(key),
{
    crate::digest::cid_is_prefix_and_digest(key);
    reveal_strlit("b3:");
    let hex = key.skip(3);
    assert(crate::text::begins_with(key, "b3:"@)) by {
        assert(key.take(3) == "b3:"@);
    }
    assert(crate::digest::is_lower_hex(hex[0]) && crate::digest::is_lower_hex(hex[1]));
    assert(crate::digest::is_lower_hex(hex[2]));
    assert(!crate::text::begins_with(hex, "b3:"@)) by {
        if crate::text::begins_with(hex, "b3:"@) {
            assert(hex.take(3)[2] == hex[2]);
        }
    }
    assert(after_prefixes(hex, "b3:"@) == hex);
    reveal_with_fuel(after_prefixes, 2);
    assert(key.skip("b3:"@.len() as int) == hex);
}

// ---------------------------------------------------------------------------
// What is asked of the file system, and what it says
// ---------------------------------------------------------------------------

/// What came of reading a file.
#[derive(Debug, PartialEq, Eq)]
pub enum FileRead {
    /// Its content.
    Found(Vec<u8>),
    /// There is no such file.
    Missing,
    /// It could not be read, and why.
    Failed(String),
}

/// What a [`FileRead`] says.
#[verifier::ext_equal]
pub enum FileReadView {
    Found(Seq<u8>),
    Missing,
    Failed(Seq<char>),
}

impl View for FileRead {
    type V = FileReadView;

    open spec fn view(&self) -> FileReadView {
        match *self {
            FileRead::Found(bytes) => FileReadView::Found(bytes@),
            FileRead::Missing => FileReadView::Missing,
            FileRead::Failed(why) => FileReadView::Failed(why@),
        }
    }
}

/// What came of reading a file as text.
#[derive(Debug, PartialEq, Eq)]
pub enum TextRead {
    /// Its content.
    Found(String),
    /// There is no such file.
    Missing,
    /// It could not be read as text, and why.
    Failed(String),
}

/// What a [`TextRead`] says.
#[verifier::ext_equal]
pub enum TextReadView {
    Found(Seq<char>),
    Missing,
    Failed(Seq<char>),
}

impl View for TextRead {
    type V = TextReadView;

    open spec fn view(&self) -> TextReadView {
        match *self {
            TextRead::Found(text) => TextReadView::Found(text@),
            TextRead::Missing => TextReadView::Missing,
            TextRead::Failed(why) => TextReadView::Failed(why@),
        }
    }
}

/// Something to do to the file system.
#[derive(Debug, PartialEq, Eq)]
pub enum FileCommand {
    /// Make a directory and everything above it, where they are missing.
    MakeDirectory(String),
    /// Write a file.
    Write {
        /// Where.
        path: String,
        /// What.
        bytes: Vec<u8>,
    },
    /// Rename a file, replacing what was there.
    Rename {
        /// Its name.
        from: String,
        /// Its new name.
        to: String,
    },
    /// Remove a file.
    Remove(String),
}

/// What a [`FileCommand`] says.
#[verifier::ext_equal]
pub enum FileCommandView {
    MakeDirectory(Seq<char>),
    Write { path: Seq<char>, bytes: Seq<u8> },
    Rename { from: Seq<char>, to: Seq<char> },
    Remove(Seq<char>),
}

impl View for FileCommand {
    type V = FileCommandView;

    open spec fn view(&self) -> FileCommandView {
        match *self {
            FileCommand::MakeDirectory(path) => FileCommandView::MakeDirectory(path@),
            FileCommand::Write { path, bytes } => FileCommandView::Write {
                path: path@,
                bytes: bytes@,
            },
            FileCommand::Rename { from, to } => FileCommandView::Rename { from: from@, to: to@ },
            FileCommand::Remove(path) => FileCommandView::Remove(path@),
        }
    }
}

/// One step of a plan.
#[derive(Debug, PartialEq, Eq)]
pub struct FileStep {
    /// What to do.
    pub command: FileCommand,
    /// What a failure is called. Without a name it is of no consequence.
    pub label: Option<String>,
}

/// What a [`FileStep`] says.
#[verifier::ext_equal]
pub struct FileStepView {
    pub command: FileCommandView,
    pub label: Option<Seq<char>>,
}

impl View for FileStep {
    type V = FileStepView;

    open spec fn view(&self) -> FileStepView {
        FileStepView {
            command: self.command@,
            label: crate::problem_format::text_option(self.label),
        }
    }
}

/// What the steps of a plan say.
pub open spec fn step_views(steps: Seq<FileStep>) -> Seq<FileStepView> {
    Seq::new(steps.len(), |i: int| steps[i]@)
}

impl FileStepView {
    /// The error that a failure of a step is, if it is one.
    pub open spec fn error(self, detail: Seq<char>) -> Option<JudgeErrorView> {
        match self.label {
            Some(label) => Some(JudgeErrorView::Infrastructure(label + detail)),
            None => None,
        }
    }
}

impl FileStep {
    /// The error that a failure of this step is, if it is one.
    pub fn error(&self, detail: &str) -> (error: Option<JudgeError>)
        ensures
            match error {
                Some(e) => self@.error(detail@) == Some(e@),
                None => self@.error(detail@) is None,
            },
    {
        match &self.label {
            Some(label) => Some(JudgeError::Infrastructure(joined(label.as_str(), detail))),
            None => None,
        }
    }
}

/// How bytes are put under a name: into a temporary file that is then renamed,
/// so a crash mid-write cannot leave a truncated artifact under a valid-looking
/// key. `what` is what is being written.
pub open spec fn store_steps(
    folder: Seq<char>,
    path: Seq<char>,
    bytes: Seq<u8>,
    what: Seq<char>,
) -> Seq<FileStepView> {
    let partial = path + ".partial"@;
    seq![
        FileStepView {
            command: FileCommandView::MakeDirectory(folder),
            label: Some("cache mkdir failed: "@),
        },
        FileStepView {
            command: FileCommandView::Write { path: partial, bytes },
            label: Some(what + " write failed: "@),
        },
        FileStepView {
            command: FileCommandView::Rename { from: partial, to: path },
            label: Some(what + " rename failed: "@),
        },
    ]
}

/// Removing a file, where it does not matter whether that succeeds.
pub open spec fn removal(path: Seq<char>) -> FileStepView {
    FileStepView { command: FileCommandView::Remove(path), label: None }
}

fn push_store(
    steps: &mut Vec<FileStep>,
    folder: String,
    path: String,
    bytes: &[u8],
    what: &str,
)
    ensures
        step_views(final(steps)@) == step_views(old(steps)@) + store_steps(
            folder@,
            path@,
            bytes@,
            what@,
        ),
{
    let partial = joined(path.as_str(), ".partial");
    let make = FileStep {
        command: FileCommand::MakeDirectory(folder),
        label: Some("cache mkdir failed: ".to_owned()),
    };
    let write = FileStep {
        command: FileCommand::Write {
            path: copy_text(partial.as_str()),
            bytes: copy_bytes(bytes),
        },
        label: Some(joined(what, " write failed: ")),
    };
    let rename = FileStep {
        command: FileCommand::Rename { from: partial, to: path },
        label: Some(joined(what, " rename failed: ")),
    };
    let ghost said = seq![make@, write@, rename@];
    steps.push(make);
    steps.push(write);
    steps.push(rename);
    assert(step_views(steps@) == step_views(old(steps)@) + said);
}

fn push_removal(steps: &mut Vec<FileStep>, path: String)
    ensures
        step_views(final(steps)@) == step_views(old(steps)@).push(removal(path@)),
{
    let step = FileStep { command: FileCommand::Remove(path), label: None };
    let ghost said = step@;
    steps.push(step);
    assert(step_views(steps@) == step_views(old(steps)@).push(said));
}

/// What storing something takes, and what it is stored as.
#[derive(Debug, PartialEq, Eq)]
pub struct StorePlan {
    /// The CID of what is stored.
    pub cid: String,
    /// What to do, in order.
    pub steps: Vec<FileStep>,
}

/// What a lookup found.
#[derive(Debug, PartialEq, Eq)]
pub struct Lookup {
    /// What is returned to whoever asked.
    pub result: Result<Option<Vec<u8>>, JudgeError>,
    /// What to do to the file system first.
    pub steps: Vec<FileStep>,
}

/// A result with bytes or without, seen through the views.
pub open spec fn found(result: Result<Option<Vec<u8>>, JudgeError>) -> Result<
    Option<Seq<u8>>,
    JudgeErrorView,
> {
    match result {
        Ok(Some(bytes)) => Ok(Some(bytes@)),
        Ok(None) => Ok(None),
        Err(error) => Err(error@),
    }
}

/// What a [`Lookup`] says.
#[verifier::ext_equal]
pub struct LookupView {
    pub result: Result<Option<Seq<u8>>, JudgeErrorView>,
    pub steps: Seq<FileStepView>,
}

impl View for Lookup {
    type V = LookupView;

    open spec fn view(&self) -> LookupView {
        LookupView { result: found(self.result), steps: step_views(self.steps@) }
    }
}

/// What a key that is no CID is answered.
pub open spec fn not_a_cid(cid: Seq<char>) -> JudgeErrorView {
    JudgeErrorView::CacheIntegrity { cid, detail: "not a valid BLAKE3 CID"@ }
}

/// What a build key that is no CID is answered.
pub open spec fn bad_build_key(build_key: Seq<char>) -> JudgeErrorView {
    JudgeErrorView::Infrastructure("build key "@ + debug_text(build_key) + " is not a valid CID"@)
}

/// What comes of looking up an artifact, given what is in its file: content
/// that does not hash to the key is evicted and reported.
pub open spec fn looked_up(
    root: Seq<char>,
    cid: Seq<char>,
    trust: Trust,
    read: FileReadView,
) -> LookupView {
    if !is_cid_text(cid) {
        LookupView { result: Err(not_a_cid(cid)), steps: seq![] }
    } else {
        match read {
            FileReadView::Missing => LookupView { result: Ok(None), steps: seq![] },
            FileReadView::Failed(why) => LookupView {
                result: Err(JudgeErrorView::Infrastructure("cache read failed: "@ + why)),
                steps: seq![],
            },
            FileReadView::Found(bytes) => if cid_text(bytes) == cid {
                LookupView { result: Ok(Some(bytes)), steps: seq![] }
            } else {
                LookupView {
                    result: Err(
                        JudgeErrorView::CacheIntegrity {
                            cid,
                            detail: "content hashes to "@ + cid_text(bytes),
                        },
                    ),
                    steps: seq![removal(place_of(root, artifact_directory(trust), cid))],
                }
            },
        }
    }
}

/// What comes of looking up a build, given what is in the index under its key
/// and what is in the file that the index points to. An index entry that points
/// at something that does not verify is dropped, so the next lookup is a clean
/// miss.
pub open spec fn looked_up_build(
    root: Seq<char>,
    build_key: Seq<char>,
    trust: Trust,
    index: TextReadView,
    content: FileReadView,
) -> LookupView {
    if !is_cid_text(build_key) {
        LookupView { result: Err(bad_build_key(build_key)), steps: seq![] }
    } else {
        match index {
            TextReadView::Missing => LookupView { result: Ok(None), steps: seq![] },
            TextReadView::Failed(why) => LookupView {
                result: Err(JudgeErrorView::Infrastructure("index read failed: "@ + why)),
                steps: seq![],
            },
            TextReadView::Found(text) => {
                let inner = looked_up(root, trimmed(text), trust, content);
                if inner.result is Ok {
                    inner
                } else {
                    LookupView {
                        result: inner.result,
                        steps: inner.steps.push(
                            removal(place_of(root, index_directory(trust), build_key)),
                        ),
                    }
                }
            },
        }
    }
}

/// Whether a build key resolves to an artifact, given what the index says of it
/// and whether what it points to is there.
pub open spec fn resolves(build_key: Seq<char>, index: TextReadView, content: bool) -> bool {
    is_cid_text(build_key) && content && (index matches TextReadView::Found(text) && is_cid_text(
        trimmed(text),
    ))
}

/// What storing an artifact takes.
pub open spec fn put_steps(root: Seq<char>, bytes: Seq<u8>, trust: Trust) -> Seq<FileStepView> {
    store_steps(
        folder_of(root, artifact_directory(trust), cid_text(bytes)),
        place_of(root, artifact_directory(trust), cid_text(bytes)),
        bytes,
        "cache"@,
    )
}

/// What storing an artifact under a build key takes.
pub open spec fn put_build_steps(
    root: Seq<char>,
    build_key: Seq<char>,
    bytes: Seq<u8>,
    trust: Trust,
) -> Seq<FileStepView> {
    put_steps(root, bytes, trust) + store_steps(
        folder_of(root, index_directory(trust), build_key),
        place_of(root, index_directory(trust), build_key),
        vstd::utf8::encode_utf8(cid_text(bytes)),
        "index"@,
    )
}

/// What promoting a quarantined artifact takes: storing what was rebuilt, if it
/// is the same, and in any case removing what was quarantined. Nothing can be
/// quarantined under a key that names no place.
pub open spec fn promote_steps(
    root: Seq<char>,
    cid: Seq<char>,
    reproduced: Seq<u8>,
) -> Seq<FileStepView> {
    let gone = removal(place_of(root, artifact_directory(Trust::Quarantined), cid));
    if cid_text(reproduced) == cid {
        put_steps(root, reproduced, Trust::Verified).push(gone)
    } else if has_place(cid) {
        seq![gone]
    } else {
        seq![]
    }
}

/// What promoting a quarantined artifact is answered.
pub open spec fn promote_result(cid: Seq<char>, reproduced: Seq<u8>) -> Result<(), JudgeErrorView> {
    if cid_text(reproduced) == cid {
        Ok(())
    } else {
        Err(
            JudgeErrorView::CacheIntegrity {
                cid,
                detail: "trusted rebuild produced "@ + cid_text(reproduced) + (if has_place(cid) {
                    "; quarantined copy destroyed"@
                } else {
                    "; nothing is quarantined under this key"@
                }),
            },
        )
    }
}

// ---------------------------------------------------------------------------
// The cache
// ---------------------------------------------------------------------------

/// A path between quotes, with what would not print escaped.
pub uninterp spec fn debug_path(path: Seq<char>) -> Seq<char>;

/// The `Debug` form of a `std::path::Path`, through `format!`. It is a function
/// of the path alone; how it is escaped is left to [`debug_path`].
#[verifier::external_body]
pub(crate) fn debug_path_of(path: &str) -> (shown: String)
    ensures
        shown@ == debug_path(path@),
{
    format!("{:?}", std::path::Path::new(path))
}

/// A local on-disk artifact cache.
#[derive(Debug, PartialEq, Eq)]
pub struct ArtifactCache {
    root: String,
}

impl View for ArtifactCache {
    type V = Seq<char>;

    /// The root directory.
    closed spec fn view(&self) -> Seq<char> {
        self.root@
    }
}

impl Clone for ArtifactCache {
    fn clone(&self) -> (copy: ArtifactCache)
        ensures
            copy@ == self@,
    {
        ArtifactCache { root: copy_text(self.root.as_str()) }
    }
}

impl ArtifactCache {
    /// Open a cache rooted at `root`, given what came of making that directory.
    pub fn open(root: &str, made: Result<(), String>) -> (result: Result<ArtifactCache, JudgeError>)
        ensures
            match made {
                Ok(_) => result matches Ok(cache) && cache@ == root@,
                Err(why) => judged(result) == Err::<Seq<char>, JudgeErrorView>(
                    JudgeErrorView::Infrastructure(
                        "cannot create cache at "@ + debug_path(root@) + ": "@ + why@,
                    ),
                ),
            },
    {
        match made {
            Ok(_) => Ok(ArtifactCache { root: copy_text(root) }),
            Err(why) => {
                let mut message = joined("cannot create cache at ", debug_path_of(root).as_str());
                message.append(": ");
                message.append(why.as_str());
                Err(JudgeError::Infrastructure(message))
            },
        }
    }

    /// The cache root.
    pub fn root(&self) -> (root: &str)
        ensures
            root@ == self@,
    {
        self.root.as_str()
    }

    /// Where an artifact with this CID lives. Exposed for diagnostics and for
    /// tests that need to simulate a bad disk.
    pub fn path_of(&self, cid: &str, trust: Trust) -> (path: String)
        requires
            has_place(cid@),
        ensures
            path@ == place_of(self@, artifact_directory(trust), cid@),
    {
        self.path_for(cid, trust)
    }

    fn path_for(&self, cid: &str, trust: Trust) -> (path: String)
        requires
            has_place(cid@),
        ensures
            path@ == place_of(self@, artifact_directory(trust), cid@),
    {
        let directory = match trust {
            Trust::Verified => "verified",
            Trust::Quarantined => "quarantine",
        };
        place(self.root.as_str(), directory, cid)
    }

    fn index_path(&self, build_key: &str, trust: Trust) -> (path: String)
        requires
            has_place(build_key@),
        ensures
            path@ == place_of(self@, index_directory(trust), build_key@),
    {
        let directory = match trust {
            Trust::Verified => "index-verified",
            Trust::Quarantined => "index-quarantine",
        };
        place(self.root.as_str(), directory, build_key)
    }

    /// Store `bytes` under their CID.
    ///
    /// The caller does not choose the key: it is the hash of the content, so a
    /// mislabelled entry cannot exist.
    pub fn put(&self, bytes: &[u8], trust: Trust) -> (plan: StorePlan)
        ensures
            plan.cid@ == cid_text(bytes@),
            is_cid_text(plan.cid@),
            step_views(plan.steps@) == put_steps(self@, bytes@, trust),
    {
        let key = cid(bytes);
        proof {
            lemma_cid_place(key@);
        }
        let path = self.path_for(key.as_str(), trust);
        let directory = match trust {
            Trust::Verified => "verified",
            Trust::Quarantined => "quarantine",
        };
        let parent = folder(self.root.as_str(), directory, key.as_str());
        let mut steps: Vec<FileStep> = Vec::new();
        push_store(&mut steps, parent, path, bytes, "cache");
        assert(step_views(steps@) == put_steps(self@, bytes@, trust));
        StorePlan { cid: key, steps }
    }

    /// The file to read for [`ArtifactCache::get`].
    pub fn location(&self, cid: &str, trust: Trust) -> (result: Result<String, JudgeError>)
        ensures
            judged(result) == (if is_cid_text(cid@) {
                Ok(place_of(self@, artifact_directory(trust), cid@))
            } else {
                Err(not_a_cid(cid@))
            }),
    {
        if !is_cid(cid) {
            return Err(
                JudgeError::CacheIntegrity {
                    cid: copy_text(cid),
                    detail: "not a valid BLAKE3 CID".to_owned(),
                },
            );
        }
        proof {
            lemma_cid_place(cid@);
        }
        Ok(self.path_for(cid, trust))
    }

    /// Read an artifact, verifying its integrity.
    ///
    /// Verification happens on **every** read. A cache that only verifies on
    /// write trusts the filesystem, and a disposable cache should trust nothing.
    /// A known-bad entry is evicted: leaving it in place would let the next read
    /// fail the same way, or worse, be trusted.
    pub fn get(&self, cid: &str, trust: Trust, read: FileRead) -> (lookup: Lookup)
        ensures
            lookup@ == looked_up(self@, cid@, trust, read@),
    {
        let path = match self.location(cid, trust) {
            Ok(path) => path,
            Err(error) => {
                let lookup = Lookup { result: Err(error), steps: Vec::new() };
                assert(lookup@.steps == Seq::<FileStepView>::empty());
                return lookup;
            },
        };
        let mut steps: Vec<FileStep> = Vec::new();
        assert(step_views(steps@) == Seq::<FileStepView>::empty());
        match read {
            FileRead::Missing => Lookup { result: Ok(None), steps },
            FileRead::Failed(why) => Lookup {
                result: Err(JudgeError::Infrastructure(joined("cache read failed: ", why.as_str()))),
                steps,
            },
            FileRead::Found(bytes) => {
                let actual = crate::digest::cid(bytes.as_slice());
                if same_text(actual.as_str(), cid) {
                    return Lookup { result: Ok(Some(bytes)), steps };
                }
                push_removal(&mut steps, path);
                Lookup {
                    result: Err(
                        JudgeError::CacheIntegrity {
                            cid: copy_text(cid),
                            detail: joined("content hashes to ", actual.as_str()),
                        },
                    ),
                    steps,
                }
            },
        }
    }

    /// Read an artifact that is safe to judge with.
    ///
    /// Only [`Trust::Verified`] artifacts qualify. A quarantined artifact is
    /// reported as absent, so a caller that forgets to check trust gets a cache
    /// miss and a rebuild rather than an unverified binary.
    pub fn get_verified(&self, cid: &str, read: FileRead) -> (lookup: Lookup)
        ensures
            lookup@ == looked_up(self@, cid@, Trust::Verified, read@),
    {
        self.get(cid, Trust::Verified, read)
    }

    /// Promote a quarantined artifact after independent reproduction.
    ///
    /// `reproduced` must be the bytes produced by trusted capacity. Promotion
    /// only happens if they hash to the same CID; otherwise the quarantined copy
    /// is destroyed and the mismatch is reported.
    pub fn promote(&self, cid: &str, reproduced: &[u8]) -> (plan: (
        Vec<FileStep>,
        Result<(), JudgeError>,
    ))
        ensures
            step_views(plan.0@) == promote_steps(self@, cid@, reproduced@),
            judged(plan.1) == promote_result(cid@, reproduced@),
    {
        let actual = crate::digest::cid(reproduced);
        if !same_text(actual.as_str(), cid) {
            let mut steps: Vec<FileStep> = Vec::new();
            let mut detail = joined("trusted rebuild produced ", actual.as_str());
            if is_placed(cid) {
                push_removal(&mut steps, self.path_for(cid, Trust::Quarantined));
                detail.append("; quarantined copy destroyed");
            } else {
                detail.append("; nothing is quarantined under this key");
            }
            assert(step_views(steps@) == promote_steps(self@, cid@, reproduced@));
            return (steps, Err(JudgeError::CacheIntegrity { cid: copy_text(cid), detail }));
        }
        proof {
            lemma_cid_place(cid@);
        }
        let mut steps = self.put(reproduced, Trust::Verified).steps;
        push_removal(&mut steps, self.path_for(cid, Trust::Quarantined));
        (steps, Ok(()))
    }

    /// Store `bytes` under a **build key** as well as their content address.
    ///
    /// A compiled artifact is looked up by what produced it - source, toolchain,
    /// compiler - not by what came out, because the output is exactly what we do
    /// not know yet. The content is still stored content-addressed, and the build
    /// key is a tiny index entry pointing at it. That keeps verify-on-read intact:
    /// a corrupt index yields a CID whose content does not match, which is an
    /// integrity error and a rebuild, never a wrong artifact.
    pub fn put_build(&self, build_key: &str, bytes: &[u8], trust: Trust) -> (result: Result<
        StorePlan,
        JudgeError,
    >)
        ensures
            match result {
                Ok(plan) => {
                    &&& is_cid_text(build_key@)
                    &&& plan.cid@ == cid_text(bytes@)
                    &&& step_views(plan.steps@) == put_build_steps(
                        self@,
                        build_key@,
                        bytes@,
                        trust,
                    )
                },
                Err(error) => !is_cid_text(build_key@) && error@ == bad_build_key(build_key@),
            },
    {
        let path = match self.index_location(build_key, trust) {
            Ok(path) => path,
            Err(error) => {
                return Err(error);
            },
        };
        proof {
            lemma_cid_place(build_key@);
        }
        let directory = match trust {
            Trust::Verified => "index-verified",
            Trust::Quarantined => "index-quarantine",
        };
        let plan = self.put(bytes, trust);
        let parent = folder(self.root.as_str(), directory, build_key);
        let mut steps = plan.steps;
        push_store(&mut steps, parent, path, plan.cid.as_str().as_bytes(), "index");
        Ok(StorePlan { cid: plan.cid, steps })
    }

    /// The file to read first for [`ArtifactCache::get_build`].
    pub fn index_location(&self, build_key: &str, trust: Trust) -> (result: Result<
        String,
        JudgeError,
    >)
        ensures
            judged(result) == (if is_cid_text(build_key@) {
                Ok(place_of(self@, index_directory(trust), build_key@))
            } else {
                Err(bad_build_key(build_key@))
            }),
    {
        if !is_cid(build_key) {
            let mut why = joined("build key ", debug_of(build_key).as_str());
            why.append(" is not a valid CID");
            return Err(JudgeError::Infrastructure(why));
        }
        proof {
            lemma_cid_place(build_key@);
        }
        Ok(self.index_path(build_key, trust))
    }

    /// The file to read next for [`ArtifactCache::get_build`], if the index
    /// points to one.
    pub fn content_location(&self, index: &TextRead, trust: Trust) -> (path: Option<String>)
        ensures
            crate::problem_format::text_option(path) == (match index@ {
                TextReadView::Found(text) => if is_cid_text(trimmed(text)) {
                    Some(place_of(self@, artifact_directory(trust), trimmed(text)))
                } else {
                    None
                },
                _ => None,
            }),
    {
        match index {
            TextRead::Found(text) => {
                let key = trim_text(text.as_str());
                match self.location(key.as_str(), trust) {
                    Ok(path) => Some(path),
                    Err(_) => None,
                }
            },
            _ => None,
        }
    }

    /// Read the artifact stored under a build key, verifying its integrity.
    ///
    /// `index` is what is at [`ArtifactCache::index_location`], and `content`
    /// what is at [`ArtifactCache::content_location`], where there is one.
    pub fn get_build(
        &self,
        build_key: &str,
        trust: Trust,
        index: &TextRead,
        content: FileRead,
    ) -> (lookup: Lookup)
        ensures
            lookup@ == looked_up_build(self@, build_key@, trust, index@, content@),
    {
        let path = match self.index_location(build_key, trust) {
            Ok(path) => path,
            Err(error) => {
                let lookup = Lookup { result: Err(error), steps: Vec::new() };
                assert(lookup@.steps == Seq::<FileStepView>::empty());
                return lookup;
            },
        };
        let steps: Vec<FileStep> = Vec::new();
        assert(step_views(steps@) == Seq::<FileStepView>::empty());
        match index {
            TextRead::Missing => Lookup { result: Ok(None), steps },
            TextRead::Failed(why) => Lookup {
                result: Err(JudgeError::Infrastructure(joined("index read failed: ", why.as_str()))),
                steps,
            },
            TextRead::Found(text) => {
                let key = trim_text(text.as_str());
                let inner = self.get(key.as_str(), trust, content);
                match inner.result {
                    Ok(bytes) => Lookup { result: Ok(bytes), steps: inner.steps },
                    Err(error) => {
                        // The index points at something that no longer
                        // verifies. Drop the pointer too, so the next lookup is
                        // a clean miss.
                        let mut steps = inner.steps;
                        push_removal(&mut steps, path);
                        Lookup { result: Err(error), steps }
                    },
                }
            },
        }
    }

    /// Whether a build key resolves to a verified artifact, given what is at its
    /// [`ArtifactCache::index_location`] and whether there is a file at the
    /// [`ArtifactCache::content_location`] that this names. Does not read the
    /// content, so it is not an integrity check.
    pub fn contains_build(&self, build_key: &str, index: &TextRead, content: bool) -> (yes: bool)
        ensures
            yes == resolves(build_key@, index@, content),
    {
        match index {
            TextRead::Found(text) => is_cid(build_key) && content && is_cid(
                trim_text(text.as_str()).as_str(),
            ),
            _ => false,
        }
    }

    /// Whether a verified artifact is present, given whether there is a file at
    /// its [`ArtifactCache::location`]. Does not read the content, so it is not
    /// an integrity check.
    pub fn contains_verified(&self, cid: &str, exists: bool) -> (yes: bool)
        ensures
            yes == (is_cid_text(cid@) && exists),
    {
        is_cid(cid) && exists
    }
}

// ---------------------------------------------------------------------------
// What the cache promises
// ---------------------------------------------------------------------------

/// The files of a file system that carries out what it is asked to.
pub open spec fn after_command(
    disk: Map<Seq<char>, Seq<u8>>,
    command: FileCommandView,
) -> Map<Seq<char>, Seq<u8>> {
    match command {
        FileCommandView::MakeDirectory(_) => disk,
        FileCommandView::Write { path, bytes } => disk.insert(path, bytes),
        FileCommandView::Rename { from, to } => if disk.contains_key(from) {
            disk.remove(from).insert(to, disk[from])
        } else {
            disk
        },
        FileCommandView::Remove(path) => disk.remove(path),
    }
}

/// The files once the steps of a plan have been carried out.
pub open spec fn after_steps(
    disk: Map<Seq<char>, Seq<u8>>,
    steps: Seq<FileStepView>,
) -> Map<Seq<char>, Seq<u8>>
    decreases steps.len(),
{
    if steps.len() == 0 {
        disk
    } else {
        after_command(after_steps(disk, steps.drop_last()), steps.last().command)
    }
}

/// What comes of reading a file.
pub open spec fn read_of(disk: Map<Seq<char>, Seq<u8>>, path: Seq<char>) -> FileReadView {
    if disk.contains_key(path) {
        FileReadView::Found(disk[path])
    } else {
        FileReadView::Missing
    }
}

/// What comes of reading a file as text.
pub open spec fn text_of(disk: Map<Seq<char>, Seq<u8>>, path: Seq<char>) -> TextReadView {
    if !disk.contains_key(path) {
        TextReadView::Missing
    } else if vstd::utf8::valid_utf8(disk[path]) {
        TextReadView::Found(vstd::utf8::decode_utf8(disk[path]))
    } else {
        TextReadView::Failed("stream did not contain valid UTF-8"@)
    }
}

/// Where an artifact is.
pub open spec fn artifact_place(root: Seq<char>, trust: Trust, cid: Seq<char>) -> Seq<char> {
    place_of(root, artifact_directory(trust), cid)
}

/// Where the index entry of a build is.
pub open spec fn index_place(root: Seq<char>, trust: Trust, build_key: Seq<char>) -> Seq<char> {
    place_of(root, index_directory(trust), build_key)
}

/// What looking up an artifact on a file system gives.
pub open spec fn lookup_on(
    disk: Map<Seq<char>, Seq<u8>>,
    root: Seq<char>,
    cid: Seq<char>,
    trust: Trust,
) -> LookupView {
    looked_up(root, cid, trust, read_of(disk, artifact_place(root, trust, cid)))
}

/// What looking up a build on a file system gives.
pub open spec fn build_lookup_on(
    disk: Map<Seq<char>, Seq<u8>>,
    root: Seq<char>,
    build_key: Seq<char>,
    trust: Trust,
) -> LookupView {
    let index = text_of(disk, index_place(root, trust, build_key));
    let content = match index {
        TextReadView::Found(text) => read_of(disk, artifact_place(root, trust, trimmed(text))),
        _ => FileReadView::Missing,
    };
    looked_up_build(root, build_key, trust, index, content)
}

spec fn directory_of(index: bool, trust: Trust) -> Seq<char> {
    if index {
        index_directory(trust)
    } else {
        artifact_directory(trust)
    }
}

/// A root as it stands in front of a directory.
spec fn root_prefix(root: Seq<char>) -> Seq<char> {
    if root.len() == 0 || root.last() == '/' {
        root
    } else {
        root.push('/')
    }
}

proof fn lemma_directories()
    ensures
        artifact_directory(Trust::Verified).len() == 8,
        artifact_directory(Trust::Quarantined).len() == 10,
        index_directory(Trust::Verified).len() == 14,
        index_directory(Trust::Quarantined).len() == 16,
        artifact_directory(Trust::Verified)[0] == 'v',
        artifact_directory(Trust::Quarantined)[0] == 'q',
        index_directory(Trust::Verified)[0] == 'i',
        index_directory(Trust::Quarantined)[0] == 'i',
        index_directory(Trust::Verified)[6] == 'v',
        index_directory(Trust::Quarantined)[6] == 'q',
        artifact_directory(Trust::Verified).last() == 'd',
        artifact_directory(Trust::Quarantined).last() == 'e',
        index_directory(Trust::Verified).last() == 'd',
        index_directory(Trust::Quarantined).last() == 'e',
{
    reveal_strlit("verified");
    reveal_strlit("quarantine");
    reveal_strlit("index-verified");
    reveal_strlit("index-quarantine");
}

proof fn lemma_place(root: Seq<char>, index: bool, trust: Trust, key: Seq<char>)
    requires
        is_cid_text(key),
    ensures
        place_of(root, directory_of(index, trust), key) == root_prefix(root) + directory_of(
            index,
            trust,
        ) + seq!['/'] + key.skip(3).take(2) + seq!['/'] + key.skip(3),
        key.skip(3).len() == 64,
        key == "b3:"@ + key.skip(3),
{
    lemma_cid_place(key);
    crate::digest::cid_is_prefix_and_digest(key);
    lemma_directories();
    let directory = directory_of(index, trust);
    let hex = key.skip(3);
    let fan = hex.take(2);
    assert(crate::digest::is_lower_hex(hex[0]) && crate::digest::is_lower_hex(hex[1]));
    let top = path_join(root, directory);
    assert(top == root_prefix(root) + directory);
    assert(top.last() == directory.last());
    let middle = path_join(top, fan);
    assert(fan[0] == hex[0]);
    assert(middle == top + seq!['/'] + fan);
    assert(middle.last() == hex[1]);
    assert(path_join(middle, hex) == middle + seq!['/'] + hex);
}

/// Two entries under different directories are at different places, and so are
/// the temporary files next to them; and so are two entries of one directory.
proof fn lemma_apart(
    root: Seq<char>,
    index: bool,
    trust: Trust,
    key: Seq<char>,
    other_index: bool,
    other_trust: Trust,
    other: Seq<char>,
)
    requires
        is_cid_text(key),
        is_cid_text(other),
    ensures
        ({
            let a = place_of(root, directory_of(index, trust), key);
            let b = place_of(root, directory_of(other_index, other_trust), other);
            &&& a == b <==> index == other_index && trust == other_trust && key == other
            &&& a != b + ".partial"@
            &&& a + ".partial"@ != b
            &&& a + ".partial"@ == b + ".partial"@ <==> a == b
        }),
{
    lemma_place(root, index, trust, key);
    lemma_place(root, other_index, other_trust, other);
    lemma_directories();
    reveal_strlit(".partial");
    let a = place_of(root, directory_of(index, trust), key);
    let b = place_of(root, directory_of(other_index, other_trust), other);
    let base = root_prefix(root).len() as int;
    let d = directory_of(index, trust);
    let e = directory_of(other_index, other_trust);
    if index == other_index && trust == other_trust {
        assert(a.len() == b.len());
        if key != other {
            let x = key.skip(3);
            let y = other.skip(3);
            assert(x != y);
            let i = choose|i: int| 0 <= i < 64 && x[i] != y[i];
            if forall|i: int| 0 <= i < 64 ==> x[i] == y[i] {
                assert(x == y);
            }
            assert(a[a.len() - 64 + i] == x[i]);
            assert(b[a.len() - 64 + i] == y[i]);
        }
    } else {
        let at = if index && other_index { 6int } else { 0int };
        assert(d[at] != e[at]);
        assert(a[base + at] == d[at]);
        assert(b[base + at] == e[at]);
        assert((a + ".partial"@)[base + at] == d[at]);
        assert((b + ".partial"@)[base + at] == e[at]);
    }
    if a + ".partial"@ == b + ".partial"@ {
        assert(a == (a + ".partial"@).take(a.len() as int));
        assert(b == (b + ".partial"@).take(b.len() as int));
    }
}

proof fn lemma_after_store(
    disk: Map<Seq<char>, Seq<u8>>,
    folder: Seq<char>,
    path: Seq<char>,
    bytes: Seq<u8>,
    what: Seq<char>,
)
    ensures
        after_steps(disk, store_steps(folder, path, bytes, what)) == disk.remove(
            path + ".partial"@,
        ).insert(path, bytes),
{
    let steps = store_steps(folder, path, bytes, what);
    let partial = path + ".partial"@;
    reveal_with_fuel(after_steps, 4);
    let written = disk.insert(partial, bytes);
    assert(steps.drop_last().drop_last().drop_last() == Seq::<FileStepView>::empty());
    assert(after_steps(disk, steps.drop_last().drop_last()) == disk);
    assert(after_steps(disk, steps.drop_last()) == written);
    assert(written.remove(partial).insert(path, bytes) == disk.remove(partial).insert(path, bytes));
}

/// Carrying out two plans one after the other is carrying out the one made of
/// both.
pub proof fn after_steps_in_two(
    disk: Map<Seq<char>, Seq<u8>>,
    a: Seq<FileStepView>,
    b: Seq<FileStepView>,
)
    ensures
        after_steps(disk, a + b) == after_steps(after_steps(disk, a), b),
    decreases b.len(),
{
    if b.len() == 0 {
        assert(a + b == a);
    } else {
        after_steps_in_two(disk, a, b.drop_last());
        assert((a + b).drop_last() == a + b.drop_last());
        assert((a + b).last() == b.last());
    }
}

proof fn lemma_after_one(disk: Map<Seq<char>, Seq<u8>>, step: FileStepView)
    ensures
        after_steps(disk, seq![step]) == after_command(disk, step.command),
{
    assert(seq![step].drop_last() == Seq::<FileStepView>::empty());
    assert(after_steps(disk, Seq::<FileStepView>::empty()) == disk);
}

/// What was stored is what is read back: the same bytes, under the CID that
/// storing them gave.
pub proof fn stored_artifacts_are_read_back(
    disk: Map<Seq<char>, Seq<u8>>,
    root: Seq<char>,
    bytes: Seq<u8>,
    trust: Trust,
)
    requires
        is_cid_text(cid_text(bytes)),
    ensures
        lookup_on(
            after_steps(disk, put_steps(root, bytes, trust)),
            root,
            cid_text(bytes),
            trust,
        ) == (LookupView { result: Ok(Some(bytes)), steps: seq![] }),
{
    lemma_after_store(
        disk,
        folder_of(root, artifact_directory(trust), cid_text(bytes)),
        artifact_place(root, trust, cid_text(bytes)),
        bytes,
        "cache"@,
    );
}

/// Whatever a file holds, a lookup hands out nothing but bytes that hash to the
/// CID that was asked for.
pub proof fn lookups_are_verified(
    root: Seq<char>,
    cid: Seq<char>,
    trust: Trust,
    read: FileReadView,
)
    ensures
        looked_up(root, cid, trust, read).result matches Ok(Some(bytes)) ==> cid_text(bytes) == cid,
{
}

/// Content that does not hash to its CID is reported as a retryable failure of
/// the infrastructure, and evicted, so that the next lookup is a miss.
pub proof fn corruption_is_detected_and_evicted(
    disk: Map<Seq<char>, Seq<u8>>,
    root: Seq<char>,
    cid: Seq<char>,
    trust: Trust,
)
    requires
        is_cid_text(cid),
        disk.contains_key(artifact_place(root, trust, cid)),
        cid_text(disk[artifact_place(root, trust, cid)]) != cid,
    ensures
        ({
            let lookup = lookup_on(disk, root, cid, trust);
            let after = after_steps(disk, lookup.steps);
            &&& lookup.result matches Err(error) && error is CacheIntegrity && error.verdict()
                == Verdict::InternalError && error.verdict().class_of()
                == VerdictClass::SystemFault
            &&& !after.contains_key(artifact_place(root, trust, cid))
            &&& lookup_on(after, root, cid, trust).result == Ok::<Option<Seq<u8>>, JudgeErrorView>(
                None,
            )
        }),
{
    lemma_after_one(disk, removal(artifact_place(root, trust, cid)));
}

/// A miss is a miss, and a key that is no CID is an error, never a silent miss.
pub proof fn misses_and_malformed_keys_are_told_apart(
    disk: Map<Seq<char>, Seq<u8>>,
    root: Seq<char>,
    cid: Seq<char>,
    trust: Trust,
)
    ensures
        lookup_on(disk, root, cid, trust).result == Ok::<Option<Seq<u8>>, JudgeErrorView>(None)
            <==> is_cid_text(cid) && !disk.contains_key(artifact_place(root, trust, cid)),
        !is_cid_text(cid) ==> lookup_on(disk, root, cid, trust).result == Err::<
            Option<Seq<u8>>,
            JudgeErrorView,
        >(not_a_cid(cid)),
{
}

/// What is quarantined is never served where verified artifacts are asked for:
/// storing it, as an artifact or as a build, changes no verified lookup.
pub proof fn quarantine_is_invisible_to_judging(
    disk: Map<Seq<char>, Seq<u8>>,
    root: Seq<char>,
    build_key: Seq<char>,
    bytes: Seq<u8>,
    cid: Seq<char>,
)
    requires
        is_cid_text(cid_text(bytes)),
        is_cid_text(build_key),
        is_cid_text(cid),
    ensures
        lookup_on(
            after_steps(disk, put_steps(root, bytes, Trust::Quarantined)),
            root,
            cid,
            Trust::Verified,
        ) == lookup_on(disk, root, cid, Trust::Verified),
        lookup_on(
            after_steps(disk, put_build_steps(root, build_key, bytes, Trust::Quarantined)),
            root,
            cid,
            Trust::Verified,
        ) == lookup_on(disk, root, cid, Trust::Verified),
        text_of(
            after_steps(disk, put_build_steps(root, build_key, bytes, Trust::Quarantined)),
            index_place(root, Trust::Verified, cid),
        ) == text_of(disk, index_place(root, Trust::Verified, cid)),
{
    let key = cid_text(bytes);
    lemma_apart(root, false, Trust::Verified, cid, false, Trust::Quarantined, key);
    lemma_apart(root, false, Trust::Verified, cid, true, Trust::Quarantined, build_key);
    lemma_apart(root, true, Trust::Verified, cid, false, Trust::Quarantined, key);
    lemma_apart(root, true, Trust::Verified, cid, true, Trust::Quarantined, build_key);
    lemma_after_put_build(disk, root, build_key, bytes, Trust::Quarantined);
    lemma_after_store(
        disk,
        folder_of(root, artifact_directory(Trust::Quarantined), key),
        artifact_place(root, Trust::Quarantined, key),
        bytes,
        "cache"@,
    );
}

proof fn lemma_after_put_build(
    disk: Map<Seq<char>, Seq<u8>>,
    root: Seq<char>,
    build_key: Seq<char>,
    bytes: Seq<u8>,
    trust: Trust,
)
    ensures
        after_steps(disk, put_build_steps(root, build_key, bytes, trust)) == disk.remove(
            artifact_place(root, trust, cid_text(bytes)) + ".partial"@,
        ).insert(artifact_place(root, trust, cid_text(bytes)), bytes).remove(
            index_place(root, trust, build_key) + ".partial"@,
        ).insert(
            index_place(root, trust, build_key),
            vstd::utf8::encode_utf8(cid_text(bytes)),
        ),
{
    let key = cid_text(bytes);
    let first = put_steps(root, bytes, trust);
    let second = store_steps(
        folder_of(root, index_directory(trust), build_key),
        index_place(root, trust, build_key),
        vstd::utf8::encode_utf8(key),
        "index"@,
    );
    after_steps_in_two(disk, first, second);
    lemma_after_store(
        disk,
        folder_of(root, artifact_directory(trust), key),
        artifact_place(root, trust, key),
        bytes,
        "cache"@,
    );
    lemma_after_store(
        after_steps(disk, first),
        folder_of(root, index_directory(trust), build_key),
        index_place(root, trust, build_key),
        vstd::utf8::encode_utf8(key),
        "index"@,
    );
}

/// Storing the same bytes twice is the same as storing them once.
pub proof fn storing_twice_changes_nothing(
    disk: Map<Seq<char>, Seq<u8>>,
    root: Seq<char>,
    bytes: Seq<u8>,
    trust: Trust,
)
    ensures
        ({
            let steps = put_steps(root, bytes, trust);
            after_steps(after_steps(disk, steps), steps) == after_steps(disk, steps)
        }),
{
    let key = cid_text(bytes);
    let path = artifact_place(root, trust, key);
    let partial = path + ".partial"@;
    reveal_strlit(".partial");
    assert(partial.len() != path.len());
    let folder = folder_of(root, artifact_directory(trust), key);
    let once = after_steps(disk, put_steps(root, bytes, trust));
    lemma_after_store(disk, folder, path, bytes, "cache"@);
    lemma_after_store(once, folder, path, bytes, "cache"@);
    assert(once.remove(partial).insert(path, bytes) == once);
}

/// No temporary file survives storing an artifact; and if storing is cut short,
/// after any number of steps and with anything at all in the temporary file, the
/// entry is what it was before or complete, and never something in between.
pub proof fn partial_writes_are_never_read(
    disk: Map<Seq<char>, Seq<u8>>,
    root: Seq<char>,
    bytes: Seq<u8>,
    trust: Trust,
    done: int,
    garbage: Seq<u8>,
)
    requires
        0 <= done <= 3,
    ensures
        ({
            let steps = put_steps(root, bytes, trust);
            let path = artifact_place(root, trust, cid_text(bytes));
            let partial = path + ".partial"@;
            let cut = after_steps(disk, steps.take(done));
            &&& steps.len() == 3
            &&& !after_steps(disk, steps).contains_key(partial)
            &&& done < 3 ==> read_of(cut, path) == read_of(disk, path)
            &&& done < 3 ==> read_of(cut.insert(partial, garbage), path) == read_of(disk, path)
            &&& done == 3 ==> read_of(cut, path) == FileReadView::Found(bytes)
        }),
{
    let key = cid_text(bytes);
    let path = artifact_place(root, trust, key);
    let partial = path + ".partial"@;
    reveal_strlit(".partial");
    assert(partial.len() != path.len());
    let folder = folder_of(root, artifact_directory(trust), key);
    let steps = put_steps(root, bytes, trust);
    lemma_after_store(disk, folder, path, bytes, "cache"@);
    reveal_with_fuel(after_steps, 3);
    if done == 3 {
        assert(steps.take(3) == steps);
    } else if done == 2 {
        assert(steps.take(2).drop_last().drop_last() == Seq::<FileStepView>::empty());
    } else if done == 1 {
        assert(steps.take(1).drop_last() == Seq::<FileStepView>::empty());
    } else {
        assert(steps.take(0) == Seq::<FileStepView>::empty());
    }
}

/// A quarantined artifact that trusted capacity has reproduced becomes a
/// verified one, and is in quarantine no more. One that it has not reproduced is
/// destroyed, and no verified lookup changes.
pub proof fn promotion_requires_reproduction(
    disk: Map<Seq<char>, Seq<u8>>,
    root: Seq<char>,
    cid: Seq<char>,
    reproduced: Seq<u8>,
    other: Seq<char>,
)
    requires
        is_cid_text(cid),
        is_cid_text(other),
    ensures
        ({
            let after = after_steps(disk, promote_steps(root, cid, reproduced));
            &&& promote_result(cid, reproduced) is Ok <==> cid_text(reproduced) == cid
            &&& lookup_on(after, root, cid, Trust::Quarantined).result == Ok::<
                Option<Seq<u8>>,
                JudgeErrorView,
            >(None)
            &&& promote_result(cid, reproduced) is Ok ==> lookup_on(
                after,
                root,
                cid,
                Trust::Verified,
            ).result == Ok::<Option<Seq<u8>>, JudgeErrorView>(Some(reproduced))
            &&& promote_result(cid, reproduced) matches Err(error) ==> error.verdict()
                == Verdict::InternalError && lookup_on(after, root, other, Trust::Verified)
                == lookup_on(disk, root, other, Trust::Verified)
        }),
{
    let quarantined = artifact_place(root, Trust::Quarantined, cid);
    let gone = removal(quarantined);
    lemma_apart(root, false, Trust::Verified, other, false, Trust::Quarantined, cid);
    lemma_apart(root, false, Trust::Verified, cid, false, Trust::Quarantined, cid);
    if cid_text(reproduced) == cid {
        let first = put_steps(root, reproduced, Trust::Verified);
        lemma_after_store(
            disk,
            folder_of(root, artifact_directory(Trust::Verified), cid),
            artifact_place(root, Trust::Verified, cid),
            reproduced,
            "cache"@,
        );
        assert(first.push(gone).drop_last() == first);
    } else {
        lemma_cid_place(cid);
        lemma_after_one(disk, gone);
    }
}

/// Promoting under a key that no bytes could have been stored under is refused
/// as a mismatch, and touches nothing.
pub proof fn promotion_needs_a_place(root: Seq<char>, cid: Seq<char>, reproduced: Seq<u8>)
    requires
        is_cid_text(cid_text(reproduced)),
        !has_place(cid),
    ensures
        promote_result(cid, reproduced) matches Err(error) && (error matches
            JudgeErrorView::CacheIntegrity { cid: named, .. } && named == cid),
        promote_steps(root, cid, reproduced) == Seq::<FileStepView>::empty(),
{
    if cid_text(reproduced) == cid {
        lemma_cid_place(cid);
    }
}

/// Whether the cache on a file system says that it has a build.
pub open spec fn build_present_on(
    disk: Map<Seq<char>, Seq<u8>>,
    root: Seq<char>,
    build_key: Seq<char>,
) -> bool {
    let index = text_of(disk, index_place(root, Trust::Verified, build_key));
    let content = index matches TextReadView::Found(text) && disk.contains_key(
        artifact_place(root, Trust::Verified, trimmed(text)),
    );
    resolves(build_key, index, content)
}

/// A build that the cache says it has is one that looking it up gives, unless
/// its content has been damaged; and a build that looking it up gives is one
/// that the cache says it has.
pub proof fn builds_that_are_present_resolve(
    disk: Map<Seq<char>, Seq<u8>>,
    root: Seq<char>,
    build_key: Seq<char>,
)
    requires
        is_cid_text(build_key),
    ensures
        ({
            let result = build_lookup_on(disk, root, build_key, Trust::Verified).result;
            &&& result matches Ok(Some(_)) ==> build_present_on(disk, root, build_key)
            &&& result matches Ok(None) ==> !build_present_on(disk, root, build_key)
            &&& build_present_on(disk, root, build_key) ==> {
                ||| result matches Ok(Some(_))
                ||| result matches Err(error) && error is CacheIntegrity
            }
        }),
{
}

/// Once reading an artifact has evicted it, no build key that pointed to it
/// resolves any more.
pub proof fn evicted_builds_are_not_present(
    disk: Map<Seq<char>, Seq<u8>>,
    root: Seq<char>,
    build_key: Seq<char>,
    cid: Seq<char>,
    text: Seq<char>,
)
    requires
        is_cid_text(build_key),
        is_cid_text(cid),
        text_of(disk, index_place(root, Trust::Verified, build_key)) == TextReadView::Found(text),
        trimmed(text) == cid,
        lookup_on(disk, root, cid, Trust::Verified).result is Err,
    ensures
        ({
            let after = after_steps(disk, lookup_on(disk, root, cid, Trust::Verified).steps);
            &&& !build_present_on(after, root, build_key)
            &&& build_lookup_on(after, root, build_key, Trust::Verified).result == Ok::<
                Option<Seq<u8>>,
                JudgeErrorView,
            >(None)
        }),
{
    let steps = lookup_on(disk, root, cid, Trust::Verified).steps;
    let gone = removal(artifact_place(root, Trust::Verified, cid));
    assert(steps == seq![gone]);
    lemma_after_one(disk, gone);
    lemma_apart(root, true, Trust::Verified, build_key, false, Trust::Verified, cid);
}

proof fn lemma_trimmed(s: Seq<char>)
    requires
        s.len() > 0,
        !crate::text::is_space(s[0]),
        !crate::text::is_space(s.last()),
    ensures
        trimmed(s) == s,
{
}

proof fn lemma_cid_trimmed(cid: Seq<char>)
    requires
        is_cid_text(cid),
    ensures
        trimmed(cid) == cid,
{
    crate::digest::cid_is_prefix_and_digest(cid);
    reveal_strlit("b3:");
    assert(cid[0] == "b3:"@[0]);
    assert(cid.last() == cid.skip(3)[63]);
    assert(crate::digest::is_lower_hex(cid.skip(3)[63]));
    lemma_trimmed(cid);
}

/// What was stored under a build key is what is read back under it.
pub proof fn stored_builds_are_read_back(
    disk: Map<Seq<char>, Seq<u8>>,
    root: Seq<char>,
    build_key: Seq<char>,
    bytes: Seq<u8>,
    trust: Trust,
)
    requires
        is_cid_text(cid_text(bytes)),
        is_cid_text(build_key),
    ensures
        build_lookup_on(
            after_steps(disk, put_build_steps(root, build_key, bytes, trust)),
            root,
            build_key,
            trust,
        ) == (LookupView { result: Ok(Some(bytes)), steps: seq![] }),
{
    let key = cid_text(bytes);
    vstd::utf8::encode_utf8_decode_utf8(key);
    vstd::utf8::encode_utf8_valid_utf8(key);
    lemma_cid_trimmed(key);
    lemma_after_put_build(disk, root, build_key, bytes, trust);
    lemma_apart(root, false, trust, key, true, trust, build_key);
}

/// Whatever the index holds, a build that does not verify is an error once and
/// a clean miss from then on: the index entry is dropped with it.
pub proof fn broken_builds_become_clean_misses(
    disk: Map<Seq<char>, Seq<u8>>,
    root: Seq<char>,
    build_key: Seq<char>,
    trust: Trust,
)
    requires
        is_cid_text(build_key),
        text_of(disk, index_place(root, trust, build_key)) is Found,
        build_lookup_on(disk, root, build_key, trust).result is Err,
    ensures
        ({
            let lookup = build_lookup_on(disk, root, build_key, trust);
            let after = after_steps(disk, lookup.steps);
            build_lookup_on(after, root, build_key, trust).result == Ok::<
                Option<Seq<u8>>,
                JudgeErrorView,
            >(None)
        }),
{
    let lookup = build_lookup_on(disk, root, build_key, trust);
    let inner = lookup.steps.drop_last();
    assert(lookup.steps.last() == removal(index_place(root, trust, build_key)));
}

/// Whatever the index and the files hold, a build lookup hands out nothing but
/// bytes that hash to what the index says.
pub proof fn build_lookups_are_verified(
    root: Seq<char>,
    build_key: Seq<char>,
    trust: Trust,
    index: TextReadView,
    content: FileReadView,
)
    ensures
        looked_up_build(root, build_key, trust, index, content).result matches Ok(Some(bytes))
            ==> index matches TextReadView::Found(text) && cid_text(bytes) == trimmed(text),
{
}

/// No failure of the cache is ever a verdict on a submission: whatever goes
/// wrong with a lookup is retried.
pub proof fn cache_failures_are_retryable(
    root: Seq<char>,
    key: Seq<char>,
    trust: Trust,
    index: TextReadView,
    content: FileReadView,
)
    ensures
        looked_up(root, key, trust, content).result matches Err(error) ==> error.verdict()
            == Verdict::InternalError,
        looked_up_build(root, key, trust, index, content).result matches Err(error)
            ==> error.verdict() == Verdict::InternalError,
{
}

// ---------------------------------------------------------------------------
// Where entries are, and what is said and done
// ---------------------------------------------------------------------------

/// Parts of a path stand behind one another with one slash between them; an
/// absolute part stands for itself.
pub proof fn parts_of_a_path(base: Seq<char>, part: Seq<char>)
    ensures
        part.len() > 0 && part[0] == '/' ==> path_join(base, part) == part,
        part.len() == 0 || part[0] != '/' ==> {
            &&& base.len() == 0 ==> path_join(base, part) == part
            &&& base.len() > 0 && base.last() != '/' ==> path_join(base, part) == base + seq!['/']
                + part
            &&& base.len() > 0 && base.last() == '/' ==> path_join(base, part) == base + part
        },
{
    if base.len() == 0 {
        assert(base + part == part);
    }
    assert(base.push('/') + part == base + seq!['/'] + part);
}

/// The first two bytes of a key are two characters of one byte each, or one of
/// two, and there are none where the key does not begin so.
pub proof fn what_the_first_two_bytes_are(s: Seq<char>)
    ensures
        two_bytes(s) matches Some(head) ==> {
            &&& head.len() <= s.len()
            &&& s.take(head.len() as int) == head
            &&& (head.len() == 2 && (head[0] as int) <= 0x7f && (head[1] as int) <= 0x7f) || (
            head.len() == 1 && 0x80 <= head[0] as int && (head[0] as int) <= 0x7ff)
        },
        two_bytes(s) is None <==> s.len() == 0 || (s[0] as int) > 0x7ff || ((s[0] as int) <= 0x7f && (
        s.len() == 1 || (s[1] as int) > 0x7f)),
{
    if let Some(head) = two_bytes(s) {
        if head.len() == 2 {
            assert(head[0] == s[0] && head[1] == s[1]);
        } else {
            assert(head[0] == s[0]);
        }
    }
}

/// An entry is under the root, in the directory of its kind and trust, in the one
/// of its first two digits, and goes by its digest.
pub proof fn entries_are_where_they_belong(root: Seq<char>, hex: Seq<char>, trust: Trust)
    requires
        is_digest(hex),
        root.len() > 0,
        root.last() != '/',
    ensures
        artifact_place(root, trust, "b3:"@ + hex) == root + seq!['/'] + (match trust {
            Trust::Verified => "verified"@,
            Trust::Quarantined => "quarantine"@,
        }) + seq!['/'] + hex.take(2) + seq!['/'] + hex,
        index_place(root, trust, "b3:"@ + hex) == root + seq!['/'] + (match trust {
            Trust::Verified => "index-verified"@,
            Trust::Quarantined => "index-quarantine"@,
        }) + seq!['/'] + hex.take(2) + seq!['/'] + hex,
        folder_of(root, artifact_directory(trust), "b3:"@ + hex) == root + seq!['/'] + (
        match trust {
            Trust::Verified => "verified"@,
            Trust::Quarantined => "quarantine"@,
        }) + seq!['/'] + hex.take(2),
{
    let key = "b3:"@ + hex;
    reveal_strlit("b3:");
    crate::digest::prefixed_digest_is_cid(hex);
    lemma_cid_place(key);
    assert(key.skip(3) == hex);
    reveal_strlit("verified");
    reveal_strlit("quarantine");
    reveal_strlit("index-verified");
    reveal_strlit("index-quarantine");
    assert("verified"@[0] == 'v' && "verified"@.last() == 'd');
    assert("quarantine"@[0] == 'q' && "quarantine"@.last() == 'e');
    assert("index-verified"@[0] == 'i' && "index-verified"@.last() == 'd');
    assert("index-quarantine"@[0] == 'i' && "index-quarantine"@.last() == 'e');
    assert(crate::digest::is_lower_hex(hex[0]) && crate::digest::is_lower_hex(hex[1]));
    assert(hex.take(2)[0] == hex[0] && hex.take(2).last() == hex[1]);
    lemma_place_in(root, artifact_directory(trust), hex);
    lemma_place_in(root, index_directory(trust), hex);
}

proof fn lemma_place_in(root: Seq<char>, directory: Seq<char>, hex: Seq<char>)
    requires
        is_digest(hex),
        root.len() > 0,
        root.last() != '/',
        directory.len() > 0,
        directory[0] != '/',
        directory.last() != '/',
    ensures
        path_join(path_join(root, directory), hex.take(2)) == root + seq!['/'] + directory + seq![
            '/',
        ] + hex.take(2),
        path_join(path_join(path_join(root, directory), hex.take(2)), hex) == root + seq!['/']
            + directory + seq!['/'] + hex.take(2) + seq!['/'] + hex,
{
    assert(crate::digest::is_lower_hex(hex[0]) && crate::digest::is_lower_hex(hex[1]));
    let one = path_join(root, directory);
    parts_of_a_path(root, directory);
    assert(one.last() == directory.last());
    let head = hex.take(2);
    assert(head[0] == hex[0] && head.last() == hex[1]);
    parts_of_a_path(one, head);
    let two = path_join(one, head);
    assert(two.last() == head.last());
    parts_of_a_path(two, hex);
}

/// What a lookup answers, in full: a key that is no CID is an error, a file that
/// is not there a miss, one that cannot be read an error that says why, and one
/// that can its content where that hashes to the key. Otherwise the error names
/// the key and what the content hashes to, and the file, and no other, is removed.
pub proof fn what_a_lookup_answers(root: Seq<char>, cid: Seq<char>, trust: Trust, read: FileReadView)
    ensures
        ({
            let lookup = looked_up(root, cid, trust, read);
            &&& !is_cid_text(cid) ==> lookup.result == Err::<Option<Seq<u8>>, JudgeErrorView>(
                JudgeErrorView::CacheIntegrity { cid, detail: "not a valid BLAKE3 CID"@ },
            )
            &&& is_cid_text(cid) ==> match read {
                FileReadView::Missing => lookup.result == Ok::<Option<Seq<u8>>, JudgeErrorView>(
                    None,
                ),
                FileReadView::Failed(why) => lookup.result == Err::<
                    Option<Seq<u8>>,
                    JudgeErrorView,
                >(JudgeErrorView::Infrastructure("cache read failed: "@ + why)),
                FileReadView::Found(bytes) => {
                    &&& cid_text(bytes) == cid ==> lookup.result == Ok::<
                        Option<Seq<u8>>,
                        JudgeErrorView,
                    >(Some(bytes))
                    &&& cid_text(bytes) != cid ==> lookup.result == Err::<
                        Option<Seq<u8>>,
                        JudgeErrorView,
                    >(
                        JudgeErrorView::CacheIntegrity {
                            cid,
                            detail: "content hashes to "@ + cid_text(bytes),
                        },
                    )
                },
            }
            &&& lookup.steps.len() > 0 <==> is_cid_text(cid) && (read matches FileReadView::Found(
                bytes,
            ) && cid_text(bytes) != cid)
            &&& lookup.steps.len() > 0 ==> lookup.steps.len() == 1 && lookup.steps[0].command
                == FileCommandView::Remove(artifact_place(root, trust, cid))
                && lookup.steps[0].label is None
        }),
{
}

/// What a lookup of a build answers, in full: a key that is no CID is an error,
/// a key without an index entry a miss, an entry that cannot be read an error that
/// says why; and otherwise what looking up the artifact that the entry names gives.
/// Where that is an error, the entry is removed too, and only then.
pub proof fn what_a_build_lookup_answers(
    root: Seq<char>,
    build_key: Seq<char>,
    trust: Trust,
    index: TextReadView,
    content: FileReadView,
)
    ensures
        ({
            let lookup = looked_up_build(root, build_key, trust, index, content);
            &&& !is_cid_text(build_key) ==> lookup.steps.len() == 0 && lookup.result == Err::<
                Option<Seq<u8>>,
                JudgeErrorView,
            >(
                JudgeErrorView::Infrastructure(
                    "build key "@ + debug_text(build_key) + " is not a valid CID"@,
                ),
            )
            &&& is_cid_text(build_key) ==> match index {
                TextReadView::Missing => lookup.steps.len() == 0 && lookup.result == Ok::<
                    Option<Seq<u8>>,
                    JudgeErrorView,
                >(None),
                TextReadView::Failed(why) => lookup.steps.len() == 0 && lookup.result == Err::<
                    Option<Seq<u8>>,
                    JudgeErrorView,
                >(JudgeErrorView::Infrastructure("index read failed: "@ + why)),
                TextReadView::Found(text) => {
                    let inner = looked_up(root, trimmed(text), trust, content);
                    &&& lookup.result == inner.result
                    &&& inner.result is Ok ==> lookup.steps.len() == 0
                    &&& inner.result is Err ==> {
                        &&& lookup.steps.len() == inner.steps.len() + 1
                        &&& lookup.steps.drop_last() == inner.steps
                        &&& lookup.steps.last().command == FileCommandView::Remove(
                            index_place(root, trust, build_key),
                        )
                        &&& lookup.steps.last().label is None
                    }
                },
            }
        }),
{
    if let TextReadView::Found(text) = index {
        let inner = looked_up(root, trimmed(text), trust, content);
        let gone = removal(place_of(root, index_directory(trust), build_key));
        assert(inner.steps.push(gone).drop_last() == inner.steps);
    }
}

/// Storing an artifact puts its bytes where its CID says and changes no other
/// file; and storing a build also puts that CID where its key says.
pub proof fn storing_touches_nothing_else(
    disk: Map<Seq<char>, Seq<u8>>,
    root: Seq<char>,
    build_key: Seq<char>,
    bytes: Seq<u8>,
    trust: Trust,
    path: Seq<char>,
)
    requires
        path != artifact_place(root, trust, cid_text(bytes)),
        path != artifact_place(root, trust, cid_text(bytes)) + ".partial"@,
    ensures
        read_of(after_steps(disk, put_steps(root, bytes, trust)), path) == read_of(disk, path),
        path != index_place(root, trust, build_key) && path != index_place(root, trust, build_key)
            + ".partial"@ ==> read_of(
            after_steps(disk, put_build_steps(root, build_key, bytes, trust)),
            path,
        ) == read_of(disk, path),
{
    let first = put_steps(root, bytes, trust);
    lemma_after_store(
        disk,
        folder_of(root, artifact_directory(trust), cid_text(bytes)),
        artifact_place(root, trust, cid_text(bytes)),
        bytes,
        "cache"@,
    );
    let stored = after_steps(disk, first);
    let folder = folder_of(root, index_directory(trust), build_key);
    let entry = index_place(root, trust, build_key);
    let text = vstd::utf8::encode_utf8(cid_text(bytes));
    after_steps_in_two(disk, first, store_steps(folder, entry, text, "index"@));
    lemma_after_store(stored, folder, entry, text, "index"@);
}

/// The steps of storing a build, in their order, and what a failure of each is
/// called: the directory, the temporary file and the renaming, for the artifact
/// and then for the index.
pub proof fn steps_of_storing_a_build(
    root: Seq<char>,
    build_key: Seq<char>,
    bytes: Seq<u8>,
    trust: Trust,
)
    ensures
        ({
            let steps = put_build_steps(root, build_key, bytes, trust);
            let key = cid_text(bytes);
            let artifact = artifact_place(root, trust, key);
            let entry = index_place(root, trust, build_key);
            &&& steps.len() == 6
            &&& steps.take(3) == put_steps(root, bytes, trust)
            &&& steps[0].command == FileCommandView::MakeDirectory(
                folder_of(root, artifact_directory(trust), key),
            )
            &&& steps[1].command == (FileCommandView::Write {
                path: artifact + ".partial"@,
                bytes,
            })
            &&& steps[2].command == (FileCommandView::Rename {
                from: artifact + ".partial"@,
                to: artifact,
            })
            &&& steps[3].command == FileCommandView::MakeDirectory(
                folder_of(root, index_directory(trust), build_key),
            )
            &&& steps[4].command == (FileCommandView::Write {
                path: entry + ".partial"@,
                bytes: vstd::utf8::encode_utf8(key),
            })
            &&& steps[5].command == (FileCommandView::Rename {
                from: entry + ".partial"@,
                to: entry,
            })
            &&& steps[0].label == Some("cache mkdir failed: "@)
            &&& steps[1].label == Some("cache write failed: "@)
            &&& steps[2].label == Some("cache rename failed: "@)
            &&& steps[3].label == Some("cache mkdir failed: "@)
            &&& steps[4].label == Some("index write failed: "@)
            &&& steps[5].label == Some("index rename failed: "@)
        }),
{
    reveal_strlit("cache");
    reveal_strlit("index");
    reveal_strlit(" write failed: ");
    reveal_strlit(" rename failed: ");
    reveal_strlit("cache write failed: ");
    reveal_strlit("cache rename failed: ");
    reveal_strlit("index write failed: ");
    reveal_strlit("index rename failed: ");
    assert("cache"@ + " write failed: "@ == "cache write failed: "@);
    assert("cache"@ + " rename failed: "@ == "cache rename failed: "@);
    assert("index"@ + " write failed: "@ == "index write failed: "@);
    assert("index"@ + " rename failed: "@ == "index rename failed: "@);
    let steps = put_build_steps(root, build_key, bytes, trust);
    assert(steps.take(3) == put_steps(root, bytes, trust));
}

/// A step that fails is a failure of the infrastructure, by its name and with the
/// reason, and one without a name is of no consequence.
pub proof fn what_a_failed_step_is(step: FileStepView, detail: Seq<char>)
    ensures
        step.label matches Some(label) ==> step.error(detail) == Some(
            JudgeErrorView::Infrastructure(label + detail),
        ),
        step.label is None ==> step.error(detail) is None,
{
}

/// What promoting answers: nothing where the rebuild has the CID that was named,
/// and otherwise what the rebuild has, and what became of what was quarantined.
/// Only a rebuild that has it is ever stored.
pub proof fn what_promoting_answers(root: Seq<char>, cid: Seq<char>, reproduced: Seq<u8>)
    ensures
        cid_text(reproduced) == cid ==> {
            let steps = promote_steps(root, cid, reproduced);
            &&& promote_result(cid, reproduced) is Ok
            &&& steps.len() == 4
            &&& steps.take(3) == put_steps(root, reproduced, Trust::Verified)
            &&& steps[3].command == FileCommandView::Remove(
                artifact_place(root, Trust::Quarantined, cid),
            )
            &&& steps[3].label is None
        },
        cid_text(reproduced) != cid && has_place(cid) ==> {
            let steps = promote_steps(root, cid, reproduced);
            &&& promote_result(cid, reproduced) == Err::<(), JudgeErrorView>(
                JudgeErrorView::CacheIntegrity {
                    cid,
                    detail: "trusted rebuild produced "@ + cid_text(reproduced)
                        + "; quarantined copy destroyed"@,
                },
            )
            &&& steps.len() == 1
            &&& steps[0].command == FileCommandView::Remove(
                artifact_place(root, Trust::Quarantined, cid),
            )
            &&& steps[0].label is None
        },
        cid_text(reproduced) != cid && !has_place(cid) ==> {
            &&& promote_result(cid, reproduced) == Err::<(), JudgeErrorView>(
                JudgeErrorView::CacheIntegrity {
                    cid,
                    detail: "trusted rebuild produced "@ + cid_text(reproduced)
                        + "; nothing is quarantined under this key"@,
                },
            )
            &&& promote_steps(root, cid, reproduced).len() == 0
        },
{
    if cid_text(reproduced) == cid {
        let put = put_steps(root, reproduced, Trust::Verified);
        assert(promote_steps(root, cid, reproduced).take(3) == put);
    }
}

/// A build key resolves exactly where it is a CID, its index entry names one, and
/// what that names is there.
pub proof fn what_resolves(build_key: Seq<char>, index: TextReadView, content: bool)
    ensures
        resolves(build_key, index, content) <==> {
            &&& is_cid_text(build_key)
            &&& index is Found
            &&& is_cid_text(trimmed(index->Found_0))
            &&& content
        },
{
}

/// What is read and what is to be done say what they hold.
pub proof fn reads_and_steps_say_what_they_hold(
    file: FileRead,
    text: TextRead,
    step: FileStep,
    steps: Seq<FileStep>,
    lookup: Lookup,
)
    ensures
        match file {
            FileRead::Found(bytes) => file@ == FileReadView::Found(bytes@),
            FileRead::Missing => file@ is Missing,
            FileRead::Failed(why) => file@ == FileReadView::Failed(why@),
        },
        match text {
            TextRead::Found(said) => text@ == TextReadView::Found(said@),
            TextRead::Missing => text@ is Missing,
            TextRead::Failed(why) => text@ == TextReadView::Failed(why@),
        },
        match step.command {
            FileCommand::MakeDirectory(path) => step@.command == FileCommandView::MakeDirectory(
                path@,
            ),
            FileCommand::Write { path, bytes } => step@.command == (FileCommandView::Write {
                path: path@,
                bytes: bytes@,
            }),
            FileCommand::Rename { from, to } => step@.command == (FileCommandView::Rename {
                from: from@,
                to: to@,
            }),
            FileCommand::Remove(path) => step@.command == FileCommandView::Remove(path@),
        },
        step.label matches Some(label) ==> step@.label == Some(label@),
        step.label is None ==> step@.label is None,
        step_views(steps).len() == steps.len(),
        forall|i: int| 0 <= i < steps.len() ==> #[trigger] step_views(steps)[i] == steps[i]@,
        lookup@.steps == step_views(lookup.steps@),
        match lookup.result {
            Ok(Some(bytes)) => lookup@.result == Ok::<Option<Seq<u8>>, JudgeErrorView>(
                Some(bytes@),
            ),
            Ok(None) => lookup@.result == Ok::<Option<Seq<u8>>, JudgeErrorView>(None),
            Err(error) => lookup@.result == Err::<Option<Seq<u8>>, JudgeErrorView>(error@),
        },
{
}

} // verus!
