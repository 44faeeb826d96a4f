use makita::cli::{invite_inner, invite_url, InviteOpts, InviteSource, Opts, Subcommand};

#[test]
fn invite_link() {
    assert_eq!(
        invite_url(42),
        "https://discord.com/oauth2/authorize?client_id=42&permissions=8&scope=applications.commands+bot"
    );
    assert_eq!(
        invite_inner(719046554744520754),
        "Invite link: https://discord.com/oauth2/authorize?client_id=719046554744520754&permissions=8&scope=applications.commands+bot"
    );
}

#[test]
fn invite_source() {
    assert_eq!(InviteOpts::new(Some(5)).source(), InviteSource::Given(5));
    assert_eq!(InviteOpts::new(None).source(), InviteSource::CurrentUser);
}

#[test]
fn subcommands() {
    let run = Opts { subcommand: Subcommand::Run };
    assert_eq!(run.subcommand, Subcommand::Run);
    assert_ne!(Subcommand::Init, Subcommand::Run);
    assert_eq!(Subcommand::Invite(InviteOpts::new(Some(1))), Subcommand::Invite(InviteOpts::new(Some(1))));
}
