//! The build that is running, and whether a newer release should replace it.

use hmac::Mac;
use vstd::prelude::*;
use vstd::slice::slice_subrange;
use crate::custom_ids::{first_index, lemma_first_index};
use crate::cli::{invite_url, spec_invite_url};
use crate::text::{chars_of, same_text, split_once, string_of};

verus! {

/// Where a build came from.
#[derive(Debug, Clone, Copy, PartialEq, Eq)]
pub struct GitMeta {
    pub tag: &'static str,
    pub commit: &'static str,
    pub repo: &'static str,
}

/// The origin of the build, known only where the tag, the commit and the
/// repository are all known.
pub fn init_git_data(
    tag: Option<&'static str>,
    commit: Option<&'static str>,
    repo: Option<&'static str>,
) -> (meta: Option<GitMeta>)
    ensures
        match (tag, commit, repo) {
            (Some(t), Some(c), Some(r)) => meta == Some(GitMeta { tag: t, commit: c, repo: r }),
            _ => meta is None,
        },
{
    match (tag, commit, repo) {
        (Some(tag), Some(commit), Some(repo)) => Some(GitMeta { tag, commit, repo }),
        _ => None,
    }
}

/// The version to report: the tag of the build where its origin is known,
/// else the version of the package.
pub fn current_version(meta: &Option<GitMeta>, package_version: &'static str) -> (v: &'static str)
    ensures
        v == match meta {
            Some(m) => m.tag,
            None => package_version,
        },
{
    match meta {
        None => package_version,
        Some(meta) => meta.tag,
    }
}

/// The value of a hexadecimal digit, in either case.
pub open spec fn hex_value(c: u8) -> Option<u8> {
    if 48 <= c <= 57 {
        Some((c - 48) as u8)
    } else if 97 <= c <= 102 {
        Some((c - 87) as u8)
    } else if 65 <= c <= 70 {
        Some((c - 55) as u8)
    } else {
        None
    }
}

/// The 32 bytes that 64 hexadecimal digits stand for; nothing for any other
/// text.
pub open spec fn spec_hex_digest(data: Seq<u8>) -> Option<Seq<u8>> {
    if data.len() == 64 && (forall|i: int| 0 <= i < 64 ==> hex_value(#[trigger] data[i]) is Some) {
        Some(
            Seq::new(
                32,
                |i: int| (hex_value(data[2 * i])->0 << 4u8) | hex_value(data[2 * i + 1])->0,
            ),
        )
    } else {
        None
    }
}

/// Reads 32 bytes from their hexadecimal writing.
///
/// Trusted: `hex::decode_to_slice` with a buffer of 32 bytes succeeds exactly
/// on 64 hexadecimal digits, upper or lower case, and fills the buffer with
/// the bytes that each pair of digits stands for.
#[verifier::external_body]
fn hex_digest(data: &[u8]) -> (digest: Option<Vec<u8>>)
    ensures
        match digest {
            Some(bytes) => spec_hex_digest(data@) == Some(bytes@),
            None => spec_hex_digest(data@) is None,
        },
{
    let mut out = [0u8; 32];
    match hex::decode_to_slice(data, &mut out) {
        Ok(()) => Some(out.to_vec()),
        Err(_) => None,
    }
}

/// The HMAC-SHA256 tag of `body` under the key `secret`.
pub uninterp spec fn hmac_sha256(secret: Seq<u8>, body: Seq<u8>) -> Seq<u8>;

/// Whether `tag` is the HMAC-SHA256 tag of `body` under the key `secret`.
///
/// Trusted: `Hmac::<Sha256>::new_from_slice`, `update` and `verify_slice` of
/// the `hmac` crate accept the tag exactly where it equals, in length and in
/// every byte, the tag that they compute from the key and the body, which
/// depends on these two alone.
#[verifier::external_body]
fn signature_valid(secret: &[u8], body: &[u8], tag: &[u8]) -> (valid: bool)
    ensures
        valid == (tag@ == hmac_sha256(secret@, body@)),
{
    match hmac::Hmac::<sha2::Sha256>::new_from_slice(secret) {
        Ok(mut mac) => {
            mac.update(body);
            mac.verify_slice(tag).is_ok()
        },
        Err(_) => false,
    }
}

/// Whether a text is a version number as `semver` reads it.
pub uninterp spec fn valid_version(text: Seq<char>) -> bool;

/// Whether, of two version numbers, the first is the later one.
pub uninterp spec fn newer_version(remote: Seq<char>, local: Seq<char>) -> bool;

/// Says whether a text is a version number.
///
/// Trusted: whether `semver::Version::parse` succeeds depends on the text
/// alone.
#[verifier::external_body]
fn is_version(text: &str) -> (valid: bool)
    ensures
        valid == valid_version(text@),
{
    semver::Version::parse(text).is_ok()
}

/// Says whether the first of two version numbers is the later one.
///
/// Trusted: the order of `semver::Version` depends on the two texts alone.
#[verifier::external_body]
fn version_newer(remote: &str, local: &str) -> (newer: bool)
    requires
        valid_version(remote@),
        valid_version(local@),
    ensures
        newer == newer_version(remote@, local@),
{
    match (semver::Version::parse(remote), semver::Version::parse(local)) {
        (Ok(r), Ok(l)) => r > l,
        _ => false,
    }
}

/// An answer to a webhook request.
#[derive(Debug, Clone, Copy, PartialEq, Eq)]
pub struct Reply {
    /// The HTTP status.
    pub status: u16,
    pub text: &'static str,
}

/// The header that names the kind of event.
#[derive(Debug)]
pub enum EventHeader {
    /// The request has no such header.
    Missing,
    /// The header is not text.
    Invalid,
    Value(String),
}

/// What is to be done about a webhook request.
#[derive(Debug)]
pub enum WebhookStep {
    /// Answer at once.
    Reply(Reply),
    /// Look up the latest release of the repository, then decide.
    FetchLatest { owner: String, repo: String },
}

/// The number of bytes in front of the digits in the signature header.
pub const SIGNATURE_PREFIX: usize = 7;

/// The kind of event that announces a finished build.
pub const WORKFLOW_EVENT: &'static str = "workflow_job";

/// What a webhook request calls for, as plain values: the answer to give at
/// once, as status and text, or nothing where the latest release is to be
/// looked up.
pub open spec fn spec_webhook(
    updates_enabled: bool,
    event: EventHeader,
    secret: Option<Seq<u8>>,
    signature: Option<Seq<u8>>,
    body: Seq<u8>,
    action: Option<Seq<char>>,
) -> Option<(u16, Seq<char>)> {
    if !updates_enabled {
        Some((403u16, "Updates disabled"@))
    } else if event is Missing {
        Some((400u16, "Missing event type"@))
    } else if event is Invalid {
        Some((400u16, "Invalid event type"@))
    } else if event->Value_0@ != WORKFLOW_EVENT@ {
        Some((200u16, "Ignored event type"@))
    } else if secret is None {
        Some((403u16, "Github webhooks disabled"@))
    } else if signature is None {
        Some((400u16, "Missing signature"@))
    } else if spec_hex_digest(signature->0.skip(SIGNATURE_PREFIX as int)) is None {
        Some((400u16, "Corrupted signature"@))
    } else if spec_hex_digest(signature->0.skip(SIGNATURE_PREFIX as int))->0 != hmac_sha256(
        secret->0,
        body,
    ) {
        Some((400u16, "Invalid signature"@))
    } else if action is None {
        Some((400u16, "Invalid payload"@))
    } else if action->0 != "completed"@ {
        Some((200u16, "Ignored action value"@))
    } else {
        None
    }
}

/// What the request decides, given the signature that was read from it.
pub open spec fn spec_signed_webhook(
    digest: Option<Seq<u8>>,
    tag_matches: bool,
    action: Option<Seq<char>>,
) -> Option<(u16, Seq<char>)> {
    if digest is None {
        Some((400u16, "Corrupted signature"@))
    } else if !tag_matches {
        Some((400u16, "Invalid signature"@))
    } else if action is None {
        Some((400u16, "Invalid payload"@))
    } else if action->0 != "completed"@ {
        Some((200u16, "Ignored action value"@))
    } else {
        None
    }
}

/// Decides about a request whose signature has been read and compared:
/// `digest` is the signature as bytes, if it could be read, and
/// `tag_matches` says whether it is the tag of the body. `action` is the
/// action named in the body, if the body could be read.
pub fn signed_webhook(digest: Option<&Vec<u8>>, tag_matches: bool, action: Option<&str>) -> (r:
    Option<Reply>)
    ensures
        match r {
            Some(reply) => spec_signed_webhook(match digest {
                Some(d) => Some(d@),
                None => None,
            }, tag_matches, match action {
                Some(a) => Some(a@),
                None => None,
            }) == Some((reply.status, reply.text@)),
            None => spec_signed_webhook(match digest {
                Some(d) => Some(d@),
                None => None,
            }, tag_matches, match action {
                Some(a) => Some(a@),
                None => None,
            }) is None,
        },
{
    if digest.is_none() {
        return Some(Reply { status: 400, text: "Corrupted signature" });
    }
    if !tag_matches {
        return Some(Reply { status: 400, text: "Invalid signature" });
    }
    let action = match action {
        Some(a) => a,
        None => {
            return Some(Reply { status: 400, text: "Invalid payload" });
        },
    };
    if !same_text(action, "completed") {
        return Some(Reply { status: 200, text: "Ignored action value" });
    }
    None
}

/// The owner and the name of a repository written as `owner/name`.
pub open spec fn spec_repo_parts(repo: Seq<char>) -> (Seq<char>, Seq<char>) {
    (repo.take(first_index(repo, '/')), repo.skip(first_index(repo, '/') + 1))
}

/// Decides about a webhook request. Updates must be enabled, the event must
/// announce a finished build, and the body must carry the signature that the
/// shared secret gives it; only then is the action looked at. `action` is the
/// action named in the body, if the body could be read.
pub fn github_webhook(
    meta: &Option<GitMeta>,
    event: &EventHeader,
    secret: Option<&[u8]>,
    signature: Option<&[u8]>,
    body: &[u8],
    action: Option<&str>,
) -> (step: WebhookStep)
    requires
        signature matches Some(header) ==> header@.len() >= SIGNATURE_PREFIX,
        meta matches Some(m) ==> m.repo@.contains('/'),
    ensures
        match step {
            WebhookStep::Reply(reply) => spec_webhook(meta is Some, *event, match secret {
                Some(s) => Some(s@),
                None => None,
            }, match signature {
                Some(s) => Some(s@),
                None => None,
            }, body@, match action {
                Some(a) => Some(a@),
                None => None,
            }) == Some((reply.status, reply.text@)),
            WebhookStep::FetchLatest { owner, repo } => {
                &&& spec_webhook(meta is Some, *event, match secret {
                    Some(s) => Some(s@),
                    None => None,
                }, match signature {
                    Some(s) => Some(s@),
                    None => None,
                }, body@, match action {
                    Some(a) => Some(a@),
                    None => None,
                }) is None
                &&& meta is Some
                &&& (owner@, repo@) == spec_repo_parts(meta->0.repo@)
            },
        },
{
    let meta = match meta {
        Some(m) => m,
        None => {
            return WebhookStep::Reply(Reply { status: 403, text: "Updates disabled" });
        },
    };
    match event {
        EventHeader::Missing => {
            return WebhookStep::Reply(Reply { status: 400, text: "Missing event type" });
        },
        EventHeader::Invalid => {
            return WebhookStep::Reply(Reply { status: 400, text: "Invalid event type" });
        },
        EventHeader::Value(kind) => {
            if !same_text(kind.as_str(), WORKFLOW_EVENT) {
                return WebhookStep::Reply(Reply { status: 200, text: "Ignored event type" });
            }
        },
    }
    let secret = match secret {
        Some(s) => s,
        None => {
            return WebhookStep::Reply(Reply { status: 403, text: "Github webhooks disabled" });
        },
    };
    let header = match signature {
        Some(h) => h,
        None => {
            return WebhookStep::Reply(Reply { status: 400, text: "Missing signature" });
        },
    };
    let digits = slice_subrange(header, SIGNATURE_PREFIX, header.len());
    assert(digits@ =~= header@.skip(SIGNATURE_PREFIX as int));
    let digest = hex_digest(digits);
    let tag_matches = match &digest {
        Some(tag) => signature_valid(secret, body, tag.as_slice()),
        None => false,
    };
    match signed_webhook(digest.as_ref(), tag_matches, action) {
        Some(reply) => WebhookStep::Reply(reply),
        None => {
            match split_once(meta.repo, '/') {
                Some((owner, repo)) => {
                    proof {
                        let whole = meta.repo@;
                        assert(whole[owner@.len() as int] == '/');
                        assert forall|j: int| 0 <= j < owner@.len() implies whole[j] != '/' by {
                            assert(whole[j] == owner@[j]);
                        }
                        lemma_first_index(whole, '/', owner@.len() as int);
                        assert(whole.take(owner@.len() as int) =~= owner@);
                        assert(whole.skip(owner@.len() as int + 1) =~= repo@);
                    }
                    WebhookStep::FetchLatest { owner, repo }
                },
                None => WebhookStep::Reply(Reply { status: 403, text: "Updates disabled" }),
            }
        },
    }
}

/// What is to be done once the latest release was looked up.
#[derive(Debug, Clone, Copy, PartialEq, Eq)]
pub enum ReleaseStep {
    /// Answer at once.
    Reply(Reply),
    /// Download the asset at this position among the assets of the release,
    /// and put it in place of the running program.
    Download(usize),
}

/// A tag without its first character, which marks it as a version.
pub open spec fn spec_strip_mark(tag: Seq<char>) -> Seq<char> {
    if tag.len() == 0 {
        tag
    } else {
        tag.skip(1)
    }
}

/// The name of the asset that holds the program.
pub const ASSET_NAME: &'static str = "makita";

fn strip_mark(tag: &str) -> (s: String)
    ensures
        s@ == spec_strip_mark(tag@),
{
    let chars = chars_of(tag);
    if chars.len() == 0 {
        let s = String::new();
        assert(s@ =~= tag@);
        s
    } else {
        let s = string_of(&chars, 1, chars.len());
        assert(s@ =~= tag@.skip(1));
        s
    }
}

fn find_asset(names: &Vec<String>) -> (r: Option<usize>)
    ensures
        match r {
            Some(i) => i < names@.len() && names@[i as int]@ == ASSET_NAME@ && forall|j: int|
                0 <= j < i ==> names@[j]@ != ASSET_NAME@,
            None => forall|j: int| 0 <= j < names@.len() ==> names@[j]@ != ASSET_NAME@,
        },
{
    let mut i: usize = 0;
    while i < names.len()
        invariant
            i <= names.len(),
            forall|j: int| 0 <= j < i ==> names@[j]@ != ASSET_NAME@,
        decreases names.len() - i,
    {
        if same_text(names[i].as_str(), ASSET_NAME) {
            return Some(i);
        }
        i += 1;
    }
    None
}

/// Decides whether the latest release replaces the running program. That
/// takes a later version than the one that runs, and among the assets of the
/// release one with the name of the program; the first such asset is taken.
/// `tag` is the tag of the running build; `latest` holds the tag of the
/// latest release and the names of its assets, where the release was found.
pub fn release_step(tag: &str, latest: Option<(&str, &Vec<String>)>) -> (step: ReleaseStep)
    ensures
        match latest {
            None => step == ReleaseStep::Reply(
                Reply { status: 500, text: "Failed getting repository" },
            ),
            Some((remote, names)) => if !valid_version(spec_strip_mark(tag@)) {
                step == ReleaseStep::Reply(Reply { status: 500, text: "Invalid local version" })
            } else if !valid_version(spec_strip_mark(remote@)) {
                step == ReleaseStep::Reply(Reply { status: 500, text: "Invalid remote version" })
            } else if !newer_version(spec_strip_mark(remote@), spec_strip_mark(tag@)) {
                step == ReleaseStep::Reply(Reply { status: 400, text: "No update available" })
            } else {
                match step {
                    ReleaseStep::Reply(reply) => reply == (Reply {
                        status: 500,
                        text: "Couldn't find asset",
                    }) && forall|j: int| 0 <= j < names@.len() ==> names@[j]@ != ASSET_NAME@,
                    ReleaseStep::Download(i) => i < names@.len() && names@[i as int]@
                        == ASSET_NAME@ && forall|j: int| 0 <= j < i ==> names@[j]@ != ASSET_NAME@,
                }
            },
        },
{
    let (remote, names) = match latest {
        Some(found) => found,
        None => {
            return ReleaseStep::Reply(Reply { status: 500, text: "Failed getting repository" });
        },
    };
    let local_version = strip_mark(tag);
    if !is_version(local_version.as_str()) {
        return ReleaseStep::Reply(Reply { status: 500, text: "Invalid local version" });
    }
    let remote_version = strip_mark(remote);
    if !is_version(remote_version.as_str()) {
        return ReleaseStep::Reply(Reply { status: 500, text: "Invalid remote version" });
    }
    if !version_newer(remote_version.as_str(), local_version.as_str()) {
        return ReleaseStep::Reply(Reply { status: 400, text: "No update available" });
    }
    match find_asset(names) {
        Some(i) => ReleaseStep::Download(i),
        None => ReleaseStep::Reply(Reply { status: 500, text: "Couldn't find asset" }),
    }
}

/// The answer after the program was replaced and the restart was asked for.
pub fn update_started() -> (reply: Reply)
    ensures
        reply == (Reply { status: 200, text: "Update started" }),
{
    Reply { status: 200, text: "Update started" }
}

/// The answer where the asset could not be had: asking for it failed, or
/// reading it did.
pub fn download_failed(while_reading: bool) -> (reply: Reply)
    ensures
        reply.status == 500,
        reply.text == (if while_reading {
            "Failed downloading update asset"
        } else {
            "Failed requesting update asset"
        }),
{
    if while_reading {
        Reply { status: 500, text: "Failed downloading update asset" }
    } else {
        Reply { status: 500, text: "Failed requesting update asset" }
    }
}

/// The number of characters of a commit that are shown.
pub const SHORT_COMMIT: usize = 7;

/// What the build tells about itself: its tag, commit and repository with
/// their links where its origin is known, else the version of the package.
pub open spec fn spec_build_info(meta: Option<GitMeta>, package_version: Seq<char>) -> Seq<char> {
    match meta {
        Some(m) => "Tag: ["@ + m.tag@ + "](https://github.com/"@ + m.repo@ + "/releases/tag/"@
            + m.tag@ + ")\nCommit: ["@ + m.commit@.take(SHORT_COMMIT as int)
            + "](https://github.com/"@ + m.repo@ + "/commit/"@ + m.commit@
            + ")\nRepo: ["@ + m.repo@ + "](https://github.com/"@ + m.repo@ + ")"@,
        None => "Local Build\nPackage Version: v"@ + package_version,
    }
}

/// What the build tells about itself.
pub fn build_info(meta: &Option<GitMeta>, package_version: &str) -> (s: String)
    requires
        meta matches Some(m) ==> m.commit@.len() >= SHORT_COMMIT,
    ensures
        s@ == spec_build_info(*meta, package_version@),
{
    match meta {
        Some(m) => {
            let commit = chars_of(m.commit);
            let short = string_of(&commit, 0, SHORT_COMMIT);
            assert(short@ =~= m.commit@.take(SHORT_COMMIT as int));
            let mut s = String::from_str("Tag: [");
            s.append(m.tag);
            s.append("](https://github.com/");
            s.append(m.repo);
            s.append("/releases/tag/");
            s.append(m.tag);
            s.append(")\nCommit: [");
            s.append(short.as_str());
            s.append("](https://github.com/");
            s.append(m.repo);
            s.append("/commit/");
            s.append(m.commit);
            s.append(")\nRepo: [");
            s.append(m.repo);
            s.append("](https://github.com/");
            s.append(m.repo);
            s.append(")");
            s
        },
        None => {
            let mut s = String::from_str("Local Build\nPackage Version: v");
            s.append(package_version);
            s
        },
    }
}

/// The links that the bot tells about, the last of them the invitation of
/// the application.
pub fn info_links(application_id: u64) -> (s: String)
    ensures
        s@
            == "[Docs](https://squili.github.io/makita-docs/)\n[Donate](https://donate.squi.live)\n[Server](https://discord.gg/SWMKshyutT)\n[Invite]("@
            + spec_invite_url(application_id) + ")"@,
{
    let mut s = String::from_str(
        "[Docs](https://squili.github.io/makita-docs/)\n[Donate](https://donate.squi.live)\n[Server](https://discord.gg/SWMKshyutT)\n[Invite](",
    );
    s.append(invite_url(application_id).as_str());
    s.append(")");
    s
}

/// Who made the bot, and under which licence it is given out.
pub const BOT_INFO: &'static str =
    "Created by <@719046554744520754>\nLicensed under [AGPL](https://www.gnu.org/licenses/#AGPL)";

} // verus!
