use jutils::commands::guild_config::config::{
    config_components, config_description, config_embed, config_placeholder, menu_categories, toggle_label, Category,
    ComponentKind, ComponentSpec, ConfigSummary, MenuOption,
};
use jutils::commands::leveling::leaderboard::get_leaderboard_as_embedfields;
use jutils::commands::leveling::rank::{card_path, to_rgba, use_animated_card, Background};
use jutils::commands::moderation::{
    audit_log_reason, ban_reply, kick_notice, kick_reply, moderation_duration, moderation_precheck, reason_or_default,
    timeout_reply, warn_reply, warnings_target, ModerationAction,
};
use jutils::utils::command_utils::EmbedContent;
use std::time::Duration;
use jutils::commands::server_qol::mass_edit_names;
use jutils::commands::utils::{
    about_embed, crate_api_url, github_api_url, github_fallback_url, github_reply, github_user_url, guild_embed, invite_code,
    invite_embed, invite_error_embed, latest_version_text, linkable_repository, npm_registry_url, npm_reply,
    package_reply, package_times, timezones_starting_with, user_embed, GithubInfo, GuildSummary, InviteGuild, InviteSummary,
    LookupReply, NpmPackage, PackageInfo, UserSummary,
};
use jutils::database::leveling::UserLevel;
use jutils::utils::command_utils::EmbedStyle;

const ALL: [Category; 14] = [
    Category::Moderation,
    Category::ModerationNameBan,
    Category::ModerationAutoModHook,
    Category::ModerationReports,
    Category::ServerQoL,
    Category::Utilities,
    Category::UtilitiesWiki,
    Category::Leveling,
    Category::Starboard,
    Category::Counting,
    Category::Tickets,
    Category::Tagging,
    Category::ServerStats,
    Category::NoCategory,
];

#[test]
fn category_names() {
    assert_eq!(Category::ModerationNameBan.to_friendly_name(), "Moderation > Name Ban");
    assert_eq!(Category::ServerQoL.to_friendly_name(), "Server Quality of Life");
    assert_eq!(Category::NoCategory.to_friendly_name(), "");
    assert_eq!(Category::ModerationAutoModHook.to_identifier(), "moderation.automodhook");
    assert_eq!(Category::ServerStats.to_identifier(), "serverstats");
}

#[test]
fn category_round_trips() {
    for c in ALL {
        assert_eq!(Category::from_friendly_name(Some(c.to_friendly_name().to_string())), c);
        assert_eq!(Category::from_identifier(Some(c.to_identifier().to_string())), c);
    }
}

#[test]
fn category_unknown_text() {
    assert_eq!(Category::from_friendly_name(None), Category::NoCategory);
    assert_eq!(Category::from_friendly_name(Some("moderation".to_string())), Category::NoCategory);
    assert_eq!(Category::from_identifier(Some("Moderation".to_string())), Category::NoCategory);
    assert_eq!(Category::from_identifier(None), Category::NoCategory);
}

#[test]
fn menu_value_round_trip() {
    for name in ["Utilities > Wiki", "Counting", "nonsense"] {
        let c = Category::from_friendly_name(Some(name.to_string()));
        assert_eq!(Category::from_identifier(Some(c.to_identifier().to_string())), c);
    }
}

#[test]
fn config_menu_texts() {
    assert_eq!(config_placeholder(Category::NoCategory), "Select a category");
    assert_eq!(config_placeholder(Category::Tickets), "Tickets");
    assert_eq!(config_description(Category::Leveling), "**Leveling**");
}

fn u(id: &str, level: i64, xp: i64) -> UserLevel {
    UserLevel { user_id: id.to_string(), level, xp }
}

#[test]
fn leaderboard_fields_pages_of_twelve() {
    let board: Vec<UserLevel> = (0..13).map(|i| u(&format!("{}", 100 + i), 1, 60 - i)).collect();
    let pages = get_leaderboard_as_embedfields(&board, "102");
    assert_eq!(pages.len(), 2);
    assert_eq!(pages[0].len(), 12);
    assert_eq!(pages[1].len(), 1);
    assert_eq!(pages[0][0].name, "1: Level 1, XP: 60");
    assert_eq!(pages[0][0].value, "<@100>");
    assert_eq!(pages[0][2].value, "<@102> (You)");
    assert_eq!(pages[1][0].name, "13: Level 1, XP: 48");
    assert!(pages[0][0].inline);
    let neg = get_leaderboard_as_embedfields(&vec![u("9", -1, -5)], "x");
    assert_eq!(neg[0][0].name, "1: Level -1, XP: -5");
    assert!(get_leaderboard_as_embedfields(&vec![], "x").is_empty());
}

#[test]
fn rgba_of_accent() {
    assert_eq!(to_rgba(0x123456), [0x12, 0x34, 0x56, 255]);
    assert_eq!(to_rgba(0xFF5865F2), [0x58, 0x65, 0xF2, 255]);
}

#[test]
fn animated_card_choice() {
    let allowed = vec!["1".to_string()];
    assert!(use_animated_card(true, &allowed, "1", &Background::Url("https://x/a.gif?size=600")));
    assert!(!use_animated_card(false, &allowed, "1", &Background::Url("https://x/a.gif")));
    assert!(!use_animated_card(true, &allowed, "2", &Background::Url("https://x/a.gif")));
    assert!(!use_animated_card(true, &allowed, "1", &Background::Url("https://x/a.png")));
    assert!(!use_animated_card(true, &allowed, "1", &Background::Color([1, 2, 3, 4])));
    let everyone: Vec<String> = Vec::new();
    assert!(use_animated_card(true, &everyone, "2", &Background::Url("https://x/a.gif")));
    assert!(!use_animated_card(false, &everyone, "2", &Background::Url("https://x/a.gif")));
    assert_eq!(card_path("5", true), ".leveling_temp/5.gif");
    assert_eq!(card_path("5", false), ".leveling_temp/5.png");
}

#[test]
fn moderation_prechecks() {
    let r = moderation_precheck(ModerationAction::Ban, true, true, false, false, "jUtils").unwrap();
    assert_eq!((r.style, r.title.as_str(), r.description.as_deref()), (EmbedStyle::Error, "Failed to ban user", Some("You cannot ban yourself.")));
    let r = moderation_precheck(ModerationAction::Kick, false, true, false, false, "jUtils").unwrap();
    assert_eq!(r.description.as_deref(), Some("jUtils can't kick users that has a higher role!"));
    let r = moderation_precheck(ModerationAction::Kick, false, false, true, true, "jUtils").unwrap();
    assert_eq!((r.title.as_str(), r.description.as_deref()), ("Failed to ban user", Some("No.")));
    let r = moderation_precheck(ModerationAction::Warn, false, false, false, true, "jUtils").unwrap();
    assert_eq!((r.title.as_str(), r.description.as_deref()), ("Failed to warn user", Some("User is a bot.")));
    let r = moderation_precheck(ModerationAction::Timeout, false, true, false, false, "Bot").unwrap();
    assert_eq!((r.style, r.description.as_deref()), (EmbedStyle::Plain, Some("Bot can't time out users that has a higher role!")));
    assert!(moderation_precheck(ModerationAction::Timeout, false, false, true, true, "Bot").is_none());
    assert!(moderation_precheck(ModerationAction::Ban, false, false, true, false, "Bot").is_none());
    assert!(moderation_precheck(ModerationAction::Warn, false, false, false, false, "Bot").is_none());
}

#[test]
fn mass_edit() {
    let names = vec!["cat-chat".to_string(), "dog".to_string()];
    assert_eq!(mass_edit_names("a", "o", &names), Some(vec!["cot-chot".to_string(), "dog".to_string()]));
    assert_eq!(mass_edit_names(r"^(\w+)", "[$1]", &names), Some(vec!["[cat]-chat".to_string(), "[dog]".to_string()]));
    assert_eq!(mass_edit_names("(", "x", &names), None);
    assert_eq!(mass_edit_names("(", "x", &vec![]), None);
    assert_eq!(mass_edit_names("a", "x", &vec![]), Some(vec![]));
}

#[test]
fn lookup_addresses() {
    assert_eq!(crate_api_url("serde"), "https://crates.io/api/v1/crates/serde");
    assert_eq!(npm_registry_url("left-pad"), "https://registry.npmjs.org/left-pad");
    assert_eq!(github_api_url("rust-lang/rust"), "https://api.github.com/repos/rust-lang/rust");
    assert_eq!(github_api_url("octocat"), "https://api.github.com/users/octocat");
    assert_eq!(github_user_url("a/b"), "https://api.github.com/users/a/b");
    assert_eq!(github_fallback_url("a/b"), Some("https://api.github.com/users/a/b".to_string()));
    assert_eq!(github_fallback_url("octocat"), None);
    assert!(linkable_repository("https://github.com/x"));
    assert!(linkable_repository("http://x"));
    assert!(!linkable_repository("git+https://github.com/x"));
}

#[test]
fn invite_codes() {
    assert_eq!(invite_code("https://discord.gg/abc"), "abc");
    assert_eq!(invite_code("discord.com/invite/xyz"), "xyz");
    assert_eq!(invite_code("https://discord.com/invite/q1"), "q1");
    assert_eq!(invite_code("plain"), "plain");
    assert_eq!(invite_code("https://https://discord.gg/discord.gg/z"), "z");
}

#[test]
fn timezone_suggestions() {
    let tz = vec!["Europe/Paris - 10:00".to_string(), "America/Lima - 04:00".to_string(), "Europe/Rome - 10:00".to_string()];
    assert_eq!(timezones_starting_with(tz.clone(), "Europe"), vec![tz[0].clone(), tz[2].clone()]);
    assert_eq!(timezones_starting_with(tz.clone(), ""), tz);
    assert!(timezones_starting_with(tz, "Asia").is_empty());
}

fn reply_parts(r: &LookupReply) -> (String, Option<String>, Vec<(String, String, bool)>, Vec<(String, String)>) {
    (
        r.embed.title.clone(),
        r.embed.description.clone(),
        r.embed.fields.iter().map(|f| (f.name.clone(), f.value.clone(), f.inline)).collect(),
        r.buttons.iter().map(|b| (b.name.clone(), b.url.clone())).collect(),
    )
}

#[test]
fn package_replies() {
    let info = PackageInfo {
        description: Some("Serialization".to_string()),
        created_at: 1_400_000_000,
        downloads: Some(42),
        latest_version: Some("1.0.0".to_string()),
        latest_published_at: 1_700_000_000,
        latest_downloads: Some(7),
        documentation: Some("https://docs.rs/serde".to_string()),
        homepage: None,
        repository: Some("https://github.com/serde-rs/serde".to_string()),
    };
    let r = package_reply("Crate", "serde", &info);
    let (title, description, fields, buttons) = reply_parts(&r);
    assert_eq!(r.embed.style, EmbedStyle::Primary);
    assert_eq!(title, "Crate serde");
    assert_eq!(description.as_deref(), Some("Serialization"));
    assert_eq!(
        fields,
        vec![
            ("Published at".to_string(), "<t:1400000000>".to_string(), true),
            ("Downloads".to_string(), "42".to_string(), true),
            (
                "Latest Version".to_string(),
                "Some(\"1.0.0\")\nPublished at <t:1700000000>\nSome(7) downloads".to_string(),
                true
            ),
        ]
    );
    assert_eq!(
        buttons,
        vec![
            ("Documentation".to_string(), "https://docs.rs/serde".to_string()),
            ("Repository".to_string(), "https://github.com/serde-rs/serde".to_string()),
        ]
    );
    assert!(r.embed.thumbnail.is_none() && r.embed.url.is_none() && r.embed.footer.is_none());

    let bare = PackageInfo {
        description: None,
        created_at: -5,
        downloads: None,
        latest_version: None,
        latest_published_at: 0,
        latest_downloads: None,
        documentation: None,
        homepage: None,
        repository: None,
    };
    let (title, description, fields, buttons) = reply_parts(&package_reply("Package", "x", &bare));
    assert_eq!(title, "Package x");
    assert_eq!(description.as_deref(), Some("No description available"));
    assert_eq!(fields[0].1, "<t:-5>");
    assert_eq!(fields[1].1, "0");
    assert_eq!(fields[2].1, "None\nPublished at <t:0>\nNone downloads");
    assert!(buttons.is_empty());

    assert_eq!(latest_version_text(&Some("\"v\"".to_string()), 3, Some(0)), "Some(\"v\")\nPublished at <t:3>\nSome(0) downloads");
}

#[test]
fn npm_replies() {
    let info = NpmPackage {
        description: None,
        latest: Some("4.18.2".to_string()),
        license: None,
        homepage: Some("https://expressjs.com".to_string()),
        repository_url: Some("git+https://github.com/expressjs/express.git".to_string()),
    };
    let (title, description, fields, buttons) = reply_parts(&npm_reply("express", &info));
    assert_eq!(title, "Package express");
    assert_eq!(description.as_deref(), Some("No description available"));
    assert_eq!(
        fields,
        vec![
            ("Latest Version".to_string(), "4.18.2".to_string(), true),
            ("License".to_string(), "Unknown".to_string(), true),
        ]
    );
    assert_eq!(buttons, vec![("Homepage".to_string(), "https://expressjs.com".to_string())]);

    let linked = NpmPackage { repository_url: Some("https://github.com/a/b".to_string()), ..info };
    let (_, _, _, buttons) = reply_parts(&npm_reply("express", &linked));
    assert_eq!(buttons[1], ("Repository".to_string(), "https://github.com/a/b".to_string()));
}

#[test]
fn github_replies() {
    let repo = GithubInfo::Repository {
        owner_avatar_url: Some("https://avatars/1".to_string()),
        description: None,
        language: Some("Rust".to_string()),
        stars: Some(10),
        forks: None,
        html_url: Some("https://github.com/a/b".to_string()),
    };
    let r = github_reply("a/b", &repo);
    let (title, description, fields, buttons) = reply_parts(&r);
    assert_eq!(title, "GitHub Repository: a/b");
    assert_eq!(r.embed.thumbnail.as_deref(), Some("https://avatars/1"));
    assert_eq!(description.as_deref(), Some("No description available"));
    assert_eq!(
        fields,
        vec![
            ("Language".to_string(), "Rust".to_string(), true),
            ("Stars".to_string(), "10".to_string(), true),
            ("Forks".to_string(), "0".to_string(), true),
        ]
    );
    assert_eq!(buttons, vec![("Repository URL".to_string(), "https://github.com/a/b".to_string())]);

    let user = GithubInfo::User {
        avatar_url: None,
        bio: Some("hi".to_string()),
        followers: Some(1),
        following: Some(2),
        public_repos: Some(3),
        html_url: None,
    };
    let r = github_reply("a", &user);
    let (title, description, fields, buttons) = reply_parts(&r);
    assert_eq!(title, "GitHub User: a");
    assert_eq!(r.embed.thumbnail.as_deref(), Some(""));
    assert_eq!(description.as_deref(), Some("hi"));
    assert_eq!(fields.iter().map(|f| f.1.as_str()).collect::<Vec<_>>(), vec!["1", "2", "3"]);
    assert!(buttons.is_empty());
}

fn embed_parts(e: &EmbedContent) -> (EmbedStyle, String, Option<String>, Vec<(String, String, bool)>) {
    (
        e.style,
        e.title.clone(),
        e.description.clone(),
        e.fields.iter().map(|f| (f.name.clone(), f.value.clone(), f.inline)).collect(),
    )
}

fn f(name: &str, value: &str, inline: bool) -> (String, String, bool) {
    (name.to_string(), value.to_string(), inline)
}

#[test]
fn moderation_replies() {
    assert_eq!(reason_or_default(None), "No reason provided");
    assert_eq!(reason_or_default(Some("spam".to_string())), "spam");
    assert_eq!(audit_log_reason("mod", "spam"), "mod: spam");

    let r = ban_reply(Ok(()), "Bob", "spam".to_string(), "<@1>");
    assert_eq!(
        embed_parts(&r),
        (EmbedStyle::Success, "Bob has been banned".to_string(), Some("spam".to_string()), vec![f("Banned by", "<@1>", true)])
    );
    let r = ban_reply(Err("Missing Permissions".to_string()), "Bob", "spam".to_string(), "<@1>");
    assert_eq!(
        embed_parts(&r),
        (EmbedStyle::Error, "Failed to ban user".to_string(), Some("Missing Permissions".to_string()), vec![])
    );

    let r = kick_reply(Ok(()), true, "Bob", "spam".to_string(), "<@1>");
    assert_eq!(r.title, "Bob has been kicked");
    assert_eq!(r.footer.as_deref(), Some("Cannot DM user. Possibly his DMs are disabled."));
    assert!(kick_reply(Ok(()), false, "Bob", "spam".to_string(), "<@1>").footer.is_none());
    assert_eq!(kick_reply(Err("x".to_string()), true, "Bob", "spam".to_string(), "<@1>").title, "Failed to kick user");
    let n = kick_notice("Guild", "spam".to_string(), "<@1>");
    assert_eq!(
        embed_parts(&n),
        (EmbedStyle::Error, "You are kicked on Guild".to_string(), Some("spam".to_string()), vec![f("Kicked by", "<@1>", true)])
    );

    let r = timeout_reply(Ok(()), Duration::from_secs(3600), "Bob", "spam".to_string(), "<@1>");
    assert_eq!(
        embed_parts(&r),
        (
            EmbedStyle::Plain,
            "Bob has been timed out".to_string(),
            Some("spam".to_string()),
            vec![f("Duration", "01:00:00", true), f("Timed out by", "<@1>", true)]
        )
    );
    assert_eq!(timeout_reply(Err("x".to_string()), Duration::from_secs(1), "Bob", "r".to_string(), "<@1>").title, "Failed to time out user");

    let r = warn_reply(Ok("abc123".to_string()), Duration::from_secs(90), "bob", "spam".to_string(), "<@1>");
    assert_eq!(
        embed_parts(&r),
        (
            EmbedStyle::Success,
            "bob has been warned".to_string(),
            Some("spam".to_string()),
            vec![f("Warn ID", "abc123", true), f("Duration", "01:30", true), f("Warned by", "<@1>", true)]
        )
    );
    let r = warn_reply(Err("db down".to_string()), Duration::from_secs(90), "bob", "spam".to_string(), "<@1>");
    assert_eq!(embed_parts(&r), (EmbedStyle::Error, "Failed to warn user".to_string(), Some("db down".to_string()), vec![]));
}

#[test]
fn config_embeds() {
    let s = ConfigSummary {
        moderation_enabled: true,
        automod_enabled: false,
        automod_rules: 3,
        nameban_enabled: true,
        nameban_action: "kick".to_string(),
        nameban_reason: "Banned name".to_string(),
        nameban_banned_names: vec!["a".to_string(), "b".to_string()],
        counting_enabled: false,
        counting_mode: "normal".to_string(),
        counting_channel: "42".to_string(),
    };
    let r = config_embed("Guild", Category::Moderation, &s);
    assert_eq!(
        embed_parts(&r),
        (EmbedStyle::Primary, "Config for Guild".to_string(), Some("**Moderation**".to_string()), vec![f("Enabled", "True", true)])
    );
    let r = config_embed("Guild", Category::ModerationAutoModHook, &s);
    assert_eq!(embed_parts(&r).3, vec![f("Enabled", "False", true), f("Rules", "3 rules", true)]);
    let r = config_embed("Guild", Category::ModerationNameBan, &s);
    assert_eq!(
        embed_parts(&r).3,
        vec![f("Enabled", "True", true), f("Action", "kick", true), f("Reason", "Banned name", true), f("Banned Names", "a, b", false)]
    );
    let r = config_embed("Guild", Category::Counting, &s);
    assert_eq!(embed_parts(&r).3, vec![f("Enabled", "False", true), f("Counting Mode", "normal", true), f("Channel", "<#42>", true)]);
    let r = config_embed("Guild", Category::Tickets, &s);
    assert!(r.fields.is_empty());
    assert_eq!(config_embed("G", Category::NoCategory, &s).description.as_deref(), Some("****"));
    assert_eq!(toggle_label(true), "Disable");
    assert_eq!(toggle_label(false), "Enable");
}

#[test]
fn guild_info_embed() {
    let g = GuildSummary {
        name: "Rustaceans".to_string(),
        id: 10,
        description: None,
        owner_id: 7,
        features: vec!["COMMUNITY".to_string(), "NEWS".to_string()],
        icon_url: Some("https://cdn/icon.png".to_string()),
        banner_url: None,
        splash_url: None,
        discovery_splash: Some("abc".to_string()),
    };
    let r = guild_embed(&g);
    assert_eq!(
        embed_parts(&r),
        (
            EmbedStyle::Primary,
            "Rustaceans (`10`)".to_string(),
            Some("No description".to_string()),
            vec![f("Owner", "<@7>\n`7`", true), f("Features", "COMMUNITY, NEWS", false)]
        )
    );
    assert_eq!(r.thumbnail.as_deref(), Some("https://cdn/icon.png"));
    assert_eq!(r.image.as_deref(), Some("https://cdn.discordapp.com/discovery-splashes/10/abc.png"));
    let banner = GuildSummary { banner_url: Some("https://cdn/banner.png".to_string()), splash_url: Some("s".to_string()), ..g.clone() };
    assert_eq!(guild_embed(&banner).image.as_deref(), Some("https://cdn/banner.png"));
    let bare = GuildSummary { icon_url: None, discovery_splash: None, ..g };
    let r = guild_embed(&bare);
    assert!(r.thumbnail.is_none() && r.image.is_none());
}

#[test]
fn invite_info_embed() {
    let i = InviteSummary {
        code: "rust".to_string(),
        channel_name: "welcome".to_string(),
        channel_id: 5,
        inviter: Some(("ferris".to_string(), 9)),
        expires_at: None,
        member_count: Some(100),
        presence_count: None,
        guild: Some(InviteGuild {
            id: 3,
            name: "Rust".to_string(),
            description: Some("Crabs".to_string()),
            icon: Some("h".to_string()),
            features: vec!["A".to_string()],
        }),
    };
    let r = invite_embed(&i);
    assert_eq!(
        embed_parts(&r),
        (
            EmbedStyle::Primary,
            "Invite `rust`".to_string(),
            Some("**Rust**\nCrabs".to_string()),
            vec![
                f("Channel", "welcome\n5", true),
                f("Inviter", "ferris\n9", true),
                f("Approx Member Count", "100 members", true),
                f("Features", "A", false),
            ]
        )
    );
    assert_eq!(r.thumbnail.as_deref(), Some("https://cdn.discordapp.com/icons/3/h.png"));
    let lone = InviteSummary { guild: None, inviter: None, expires_at: Some(1700000000), presence_count: Some(4), ..i };
    let r = invite_embed(&lone);
    assert!(r.description.is_none() && r.thumbnail.is_none());
    assert_eq!(
        embed_parts(&r).3,
        vec![
            f("Channel", "welcome\n5", true),
            f("Expires at", "<t:1700000000>", true),
            f("Approx Member Count", "100 members", true),
            f("Approx Online Count", "4 members", true),
        ]
    );
    let e = invite_error_embed("Unknown Invite".to_string());
    assert_eq!(embed_parts(&e), (EmbedStyle::Error, "Cannot get invite!".to_string(), Some("Unknown Invite".to_string()), vec![]));
}

#[test]
fn user_and_about_embeds() {
    let u = UserSummary {
        display_name: "Ferris".to_string(),
        tag: "ferris".to_string(),
        id: 42,
        avatar_url: None,
        bot: false,
        system: false,
        mention: "<@42>".to_string(),
        created_at: 1000,
        joined_at: 2000,
        premium_since: None,
        guild_flags: vec![],
        public_flags: vec!["HOUSE_BRAVERY".to_string()],
        role_mentions: vec!["<@&1>".to_string(), "<@&2>".to_string()],
    };
    let r = user_embed(&u);
    assert_eq!(
        embed_parts(&r),
        (
            EmbedStyle::Plain,
            "Ferris (ferris, `42`)".to_string(),
            None,
            vec![
                f("Bot", "false", true),
                f("System", "false", true),
                f("Mention", "<@42>", true),
                f("Created at", "<t:1000>", true),
                f("Joined at", "<t:2000>", true),
                f("Boosting since", "Not boosting", true),
                f("Guild Flags", "", false),
                f("Public Flags", "HOUSE_BRAVERY", false),
                f("Roles", "<@&1>, <@&2>", false),
            ]
        )
    );
    assert_eq!(r.thumbnail.as_deref(), Some(""));
    let booster = UserSummary { premium_since: Some(3000), ..u };
    assert_eq!(user_embed(&booster).fields[5].value, "<t:3000>");

    let a = about_embed("jUtils".to_string(), "A bot".to_string(), "https://cdn/a.png".to_string(), 5, true, "1.2.3");
    assert_eq!(
        embed_parts(&a),
        (
            EmbedStyle::Primary,
            "jUtils".to_string(),
            Some("A bot".to_string()),
            vec![f("Hosted by", "<@5>", true), f("Using modified jUtils", "version 1.2.3\nby jbcarreon123", true)]
        )
    );
    assert_eq!(about_embed("b".to_string(), "d".to_string(), "i".to_string(), 1, false, "0").fields[1].name, "Using jUtils");
}

fn comp(kind: ComponentKind, id: &str, text: &str) -> ComponentSpec {
    ComponentSpec { kind, custom_id: id.to_string(), text: text.to_string(), options: vec![] }
}

#[test]
fn config_menu_components() {
    let cats = menu_categories();
    assert_eq!(cats.len(), 13);
    assert_eq!(cats[0], Category::Moderation);
    assert_eq!(cats[12], Category::ServerStats);
    let mut statuses = vec![false; 13];
    statuses[9] = true;
    let rows = config_components(Category::Counting, &statuses, 77, "<:y:1>", "<:n:2>", true, "Normal");
    assert_eq!(rows.len(), 3);
    assert_eq!(rows[0].len(), 1);
    let menu = &rows[0][0];
    assert_eq!(menu.kind, ComponentKind::CategoryMenu);
    assert_eq!(menu.custom_id, "jutils.gconfig.selmenu.77.category");
    assert_eq!(menu.text, "Counting");
    assert_eq!(menu.options.len(), 13);
    assert_eq!(
        menu.options[1],
        MenuOption {
            label: "Moderation > Name Ban".to_string(),
            value: "moderation.nameban".to_string(),
            emoji: "<:n:2>".to_string()
        }
    );
    assert_eq!(
        menu.options[9],
        MenuOption { label: "Counting".to_string(), value: "counting".to_string(), emoji: "<:y:1>".to_string() }
    );
    assert_eq!(
        rows[1],
        vec![
            comp(ComponentKind::Button, "jutils.gconfig.button.77.counting.toggle", "Disable"),
            comp(ComponentKind::Button, "jutils.gconfig.button.77.counting.toggle_mode", "Normal"),
        ]
    );
    assert_eq!(rows[2], vec![comp(ComponentKind::ChannelMenu, "jutils.gconfig.selmenu.77.counting.channel", "Set a channel")]);

    let rows = config_components(Category::NoCategory, &vec![true; 13], 5, "<:y:1>", "<:n:2>", false, "Normal");
    assert_eq!(rows.len(), 1);
    assert_eq!(rows[0][0].text, "Select a category");
    assert!(rows[0][0].options.iter().all(|o| o.emoji == "<:y:1>"));
    let rows = config_components(Category::Leveling, &vec![true; 13], 5, "<:y:1>", "<:n:2>", false, "Normal");
    assert_eq!(rows.len(), 1);
    assert_eq!(rows[0][0].text, "Leveling");
}

#[test]
fn warnings_of_whom() {
    assert_eq!(warnings_target(Some(5), true, 9), 5);
    assert_eq!(warnings_target(Some(5), false, 9), 9);
    assert_eq!(warnings_target(None, true, 9), 9);
}

#[test]
fn moderation_durations() {
    assert_eq!(moderation_duration("5m 30s"), Some(Duration::from_secs(330)));
    assert_eq!(moderation_duration("1h"), Some(Duration::from_secs(3600)));
    assert_eq!(moderation_duration("100ms"), Some(Duration::from_millis(100)));
    assert_eq!(moderation_duration("soon"), None);
}

#[test]
fn package_timestamps() {
    assert_eq!(
        package_times("2020-01-01T00:00:00Z", "2020-01-02T00:00:00+01:00"),
        Some((1577836800, 1577919600))
    );
    assert_eq!(package_times("2020-01-01", "2020-01-02T00:00:00Z"), None);
    assert_eq!(package_times("2020-01-01T00:00:00Z", "yesterday"), None);
}
