use hmac::{Hmac, Mac};
use makita::updates::{
    build_info, current_version, download_failed, github_webhook, info_links, init_git_data,
    release_step, signed_webhook, update_started, EventHeader, GitMeta, ReleaseStep, Reply,
    WebhookStep, BOT_INFO,
};
use sha2::Sha256;

const SECRET: &[u8] = b"it is a secret";
const BODY: &[u8] = b"{\"action\":\"completed\"}";

fn meta() -> Option<GitMeta> {
    Some(GitMeta { tag: "v1.2.3", commit: "0123456789abcdef", repo: "squili/makita" })
}

fn workflow() -> EventHeader {
    EventHeader::Value("workflow_job".to_string())
}

fn signature_of(secret: &[u8], body: &[u8], upper: bool) -> Vec<u8> {
    let mut mac = Hmac::<Sha256>::new_from_slice(secret).unwrap();
    mac.update(body);
    let tag = mac.finalize().into_bytes();
    let digits = if upper { hex::encode_upper(tag) } else { hex::encode(tag) };
    format!("sha256={}", digits).into_bytes()
}

fn reply(step: WebhookStep) -> Reply {
    match step {
        WebhookStep::Reply(r) => r,
        other => panic!("expected a reply, got {:?}", other),
    }
}

#[test]
fn build_origin_needs_all_three_parts() {
    assert_eq!(
        init_git_data(Some("v1"), Some("abc"), Some("o/r")),
        Some(GitMeta { tag: "v1", commit: "abc", repo: "o/r" })
    );
    assert_eq!(init_git_data(None, Some("abc"), Some("o/r")), None);
    assert_eq!(init_git_data(Some("v1"), None, Some("o/r")), None);
    assert_eq!(init_git_data(Some("v1"), Some("abc"), None), None);
}

#[test]
fn version_is_tag_or_package_version() {
    assert_eq!(current_version(&meta(), "0.1.0"), "v1.2.3");
    assert_eq!(current_version(&None, "0.1.0"), "0.1.0");
}

#[test]
fn webhook_checks_in_order() {
    let good = signature_of(SECRET, BODY, false);
    let step = github_webhook(&None, &EventHeader::Missing, None, None, BODY, None);
    assert_eq!(reply(step), Reply { status: 403, text: "Updates disabled" });
    let step = github_webhook(&meta(), &EventHeader::Missing, None, None, BODY, None);
    assert_eq!(reply(step), Reply { status: 400, text: "Missing event type" });
    let step = github_webhook(&meta(), &EventHeader::Invalid, None, None, BODY, None);
    assert_eq!(reply(step), Reply { status: 400, text: "Invalid event type" });
    let step = github_webhook(&meta(), &EventHeader::Value("push".to_string()), None, None, BODY, None);
    assert_eq!(reply(step), Reply { status: 200, text: "Ignored event type" });
    let step = github_webhook(&meta(), &workflow(), None, Some(&good), BODY, Some("completed"));
    assert_eq!(reply(step), Reply { status: 403, text: "Github webhooks disabled" });
    let step = github_webhook(&meta(), &workflow(), Some(SECRET), None, BODY, Some("completed"));
    assert_eq!(reply(step), Reply { status: 400, text: "Missing signature" });
}

#[test]
fn webhook_rejects_signatures_that_cannot_be_read() {
    for header in [
        &b"sha256="[..],
        &b"sha256=zz"[..],
        &b"sha256=0123"[..],
        &b"sha256=zz23456789abcdef0123456789abcdef0123456789abcdef0123456789abcdef"[..],
        &b"sha256=0123456789abcdef0123456789abcdef0123456789abcdef0123456789abcdef0"[..],
    ] {
        let step = github_webhook(&meta(), &workflow(), Some(SECRET), Some(header), BODY, Some("completed"));
        assert_eq!(reply(step), Reply { status: 400, text: "Corrupted signature" });
    }
}

#[test]
fn webhook_rejects_wrong_signatures() {
    let other_body = signature_of(SECRET, b"something else", false);
    let other_key = signature_of(b"another secret", BODY, false);
    let zeros = b"sha256=0000000000000000000000000000000000000000000000000000000000000000".to_vec();
    for header in [other_body, other_key, zeros] {
        let step = github_webhook(&meta(), &workflow(), Some(SECRET), Some(&header), BODY, Some("completed"));
        assert_eq!(reply(step), Reply { status: 400, text: "Invalid signature" });
    }
}

#[test]
fn webhook_accepts_right_signature_in_either_case() {
    for upper in [false, true] {
        let header = signature_of(SECRET, BODY, upper);
        let step = github_webhook(&meta(), &workflow(), Some(SECRET), Some(&header), BODY, Some("completed"));
        match step {
            WebhookStep::FetchLatest { owner, repo } => {
                assert_eq!(owner, "squili");
                assert_eq!(repo, "makita");
            },
            other => panic!("expected a lookup, got {:?}", other),
        }
    }
}

#[test]
fn webhook_reads_the_action_last() {
    let header = signature_of(SECRET, BODY, false);
    let step = github_webhook(&meta(), &workflow(), Some(SECRET), Some(&header), BODY, None);
    assert_eq!(reply(step), Reply { status: 400, text: "Invalid payload" });
    let step = github_webhook(&meta(), &workflow(), Some(SECRET), Some(&header), BODY, Some("queued"));
    assert_eq!(reply(step), Reply { status: 200, text: "Ignored action value" });
    let digest = vec![0u8; 32];
    assert_eq!(signed_webhook(None, true, Some("completed")), Some(Reply { status: 400, text: "Corrupted signature" }));
    assert_eq!(signed_webhook(Some(&digest), false, Some("completed")), Some(Reply { status: 400, text: "Invalid signature" }));
    assert_eq!(signed_webhook(Some(&digest), true, Some("completed")), None);
}

#[test]
fn repository_is_cut_at_the_first_slash() {
    let meta = Some(GitMeta { tag: "v1.0.0", commit: "c", repo: "owner/name/more" });
    let header = signature_of(SECRET, BODY, false);
    match github_webhook(&meta, &workflow(), Some(SECRET), Some(&header), BODY, Some("completed")) {
        WebhookStep::FetchLatest { owner, repo } => {
            assert_eq!(owner, "owner");
            assert_eq!(repo, "name/more");
        },
        other => panic!("expected a lookup, got {:?}", other),
    }
}

fn names(list: &[&str]) -> Vec<String> {
    list.iter().map(|s| s.to_string()).collect()
}

#[test]
fn release_replaces_only_a_later_version() {
    let assets = names(&["notes.txt", "makita", "makita"]);
    assert_eq!(release_step("v1.2.3", Some(("v1.2.4", &assets))), ReleaseStep::Download(1));
    assert_eq!(release_step("v1.2.3", Some(("v1.10.0", &assets))), ReleaseStep::Download(1));
    assert_eq!(release_step("v1.2.3", Some(("v2.0.0-rc.1", &assets))), ReleaseStep::Download(1));
    let none = ReleaseStep::Reply(Reply { status: 400, text: "No update available" });
    assert_eq!(release_step("v1.2.3", Some(("v1.2.3", &assets))), none);
    assert_eq!(release_step("v1.2.3", Some(("v1.2.2", &assets))), none);
    assert_eq!(release_step("v1.2.3", Some(("v1.2.3-rc.1", &assets))), none);
    assert_eq!(release_step("v1.10.0", Some(("v1.9.0", &assets))), none);
}

#[test]
fn release_failures() {
    let assets = names(&["makita"]);
    assert_eq!(
        release_step("v1.2.3", None),
        ReleaseStep::Reply(Reply { status: 500, text: "Failed getting repository" })
    );
    assert_eq!(
        release_step("1.2.3", Some(("v1.2.4", &assets))),
        ReleaseStep::Reply(Reply { status: 500, text: "Invalid local version" })
    );
    assert_eq!(
        release_step("", Some(("v1.2.4", &assets))),
        ReleaseStep::Reply(Reply { status: 500, text: "Invalid local version" })
    );
    assert_eq!(
        release_step("v1.2.3", Some(("latest", &assets))),
        ReleaseStep::Reply(Reply { status: 500, text: "Invalid remote version" })
    );
    assert_eq!(
        release_step("v1.2.3", Some(("v1.2.4", &names(&["Makita", "makita.exe"])))),
        ReleaseStep::Reply(Reply { status: 500, text: "Couldn't find asset" })
    );
    assert_eq!(
        release_step("v1.2.3", Some(("v1.2.2", &names(&[])))),
        ReleaseStep::Reply(Reply { status: 400, text: "No update available" })
    );
}

#[test]
fn answers_after_the_download() {
    assert_eq!(update_started(), Reply { status: 200, text: "Update started" });
    assert_eq!(download_failed(false), Reply { status: 500, text: "Failed requesting update asset" });
    assert_eq!(download_failed(true), Reply { status: 500, text: "Failed downloading update asset" });
}

#[test]
fn build_tells_about_itself() {
    assert_eq!(build_info(&None, "0.1.0"), "Local Build\nPackage Version: v0.1.0");
    assert_eq!(
        build_info(&meta(), "0.1.0"),
        "Tag: [v1.2.3](https://github.com/squili/makita/releases/tag/v1.2.3)\n\
         Commit: [0123456](https://github.com/squili/makita/commit/0123456789abcdef)\n\
         Repo: [squili/makita](https://github.com/squili/makita)"
    );
    let short = Some(GitMeta { tag: "v1", commit: "abcdefg", repo: "o/r" });
    assert!(build_info(&short, "x").contains("Commit: [abcdefg](https://github.com/o/r/commit/abcdefg)"));
}

#[test]
fn links_of_the_bot() {
    assert_eq!(
        info_links(42),
        "[Docs](https://squili.github.io/makita-docs/)\n[Donate](https://donate.squi.live)\n\
         [Server](https://discord.gg/SWMKshyutT)\n\
         [Invite](https://discord.com/oauth2/authorize?client_id=42&permissions=8&scope=applications.commands+bot)"
    );
    assert!(BOT_INFO.starts_with("Created by <@719046554744520754>"));
}
