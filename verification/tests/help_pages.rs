use jutils::send::Field;
use jutils::utils::command_utils::{get_command, get_fmt_params, CommandInfo, CommandParameter, EmbedStyle};
use jutils::utils::embed_utils::{get_perms_as_embedfields, PermissionFlag};
use jutils::utils::get_all_commands_as_embedfields as pages_of_25;
use jutils::utils::embed_utils::get_all_commands_as_embedfields as pages_of_9;

fn cmd(name: &str, aliases: &[&str], category: Option<&str>, hidden: bool, bot_perms: u64) -> CommandInfo {
    CommandInfo {
        name: name.to_string(),
        aliases: aliases.iter().map(|a| a.to_string()).collect(),
        description: if name == "ping" { Some("Pings the bot.".to_string()) } else { None },
        category: category.map(|c| c.to_string()),
        hide_in_help: hidden,
        parameters: vec![
            CommandParameter { name: "user".to_string(), required: true },
            CommandParameter { name: "reason".to_string(), required: false },
        ],
        required_permissions: if name == "ban" { vec!["BAN_MEMBERS".to_string(), "SEND_MESSAGES".to_string()] } else { vec![] },
        required_bot_permissions: bot_perms,
    }
}

fn commands() -> Vec<CommandInfo> {
    vec![
        cmd("ping", &["pong"], Some("Utilities"), false, 1 << 11),
        cmd("ban", &["blacklist", "blkl"], Some("Moderation"), false, (1 << 2) | (1 << 11)),
        cmd("roc", &[], None, true, 1 << 3),
        cmd("about", &[], None, false, 1 << 14),
        cmd("kick", &["pong"], Some("Moderation"), false, 1 << 1),
    ]
}

fn fields(v: &Vec<Field>) -> Vec<(String, String, bool)> {
    v.iter().map(|f| (f.name.clone(), f.value.clone(), f.inline)).collect()
}

#[test]
fn usage_parameters() {
    assert_eq!(get_fmt_params(&commands()[0].parameters), "<user> [reason]");
    assert_eq!(get_fmt_params(&vec![]), "");
}

#[test]
fn help_for_one_command() {
    let e = get_command(&commands(), "!", "ban");
    assert_eq!(e.style, EmbedStyle::Primary);
    assert_eq!(e.title, "ban");
    assert_eq!(e.description.as_deref(), Some("No description"));
    assert_eq!(
        fields(&e.fields),
        vec![
            ("Usage".to_string(), "`!ban <user> [reason]`".to_string(), false),
            ("Category".to_string(), "Moderation".to_string(), true),
            ("Aliases".to_string(), "blacklist, blkl".to_string(), true),
            ("Requires".to_string(), "BAN_MEMBERS, SEND_MESSAGES".to_string(), true),
        ]
    );
}

#[test]
fn help_prefers_last_match_and_skips_hidden() {
    assert_eq!(get_command(&commands(), "!", "pong").title, "kick");
    let hidden = get_command(&commands(), "!", "roc");
    assert_eq!(hidden.style, EmbedStyle::Error);
    assert_eq!(hidden.title, "Cannot find command!");
    assert_eq!(hidden.description.as_deref(), Some("Make sure that the command is correct!"));
    assert!(hidden.fields.is_empty());
    let about = get_command(&commands(), "?", "about");
    assert_eq!(about.fields[1].value, "No category");
    assert_eq!(about.fields.len(), 3);
}

#[test]
fn help_pages_list_visible_commands() {
    let pages = pages_of_9(&commands(), "!", "j!");
    assert_eq!(pages.len(), 1);
    assert_eq!(
        fields(&pages[0]),
        vec![
            ("!ping".to_string(), "Category: Utilities\nPings the bot.".to_string(), true),
            ("!ban".to_string(), "Category: Moderation\nNo description".to_string(), true),
            ("!about".to_string(), "No description".to_string(), true),
            ("!kick".to_string(), "Category: Moderation\nNo description".to_string(), true),
        ]
    );
    let mention = pages_of_25(&commands(), "<@123> ", "j!");
    assert_eq!(mention[0][0].name, "j!ping");
}

#[test]
fn help_pages_split() {
    let many: Vec<CommandInfo> = (0..30).map(|i| cmd(&format!("c{}", i), &[], None, false, 0)).collect();
    let nine = pages_of_9(&many, "!", "!");
    assert_eq!(nine.iter().map(|p| p.len()).collect::<Vec<_>>(), vec![9, 9, 9, 3]);
    let twenty_five = pages_of_25(&many, "!", "!");
    assert_eq!(twenty_five.iter().map(|p| p.len()).collect::<Vec<_>>(), vec![25, 5]);
}

#[test]
fn permission_page() {
    let flags: Vec<PermissionFlag> = [(1u64 << 1, "Kick Members"), (1 << 2, "Ban Members"), (1 << 3, "Administrator"), (1 << 11, "Send Messages"), (1 << 14, "Embed Links")]
        .iter()
        .map(|(b, n)| PermissionFlag { bits: *b, names: n.to_string() })
        .collect();
    let granted = (1u64 << 11) | (1 << 2);
    let f = get_perms_as_embedfields(&commands(), granted, &flags, "Y", "N");
    assert_eq!(
        fields(&f),
        vec![
            ("Utilities".to_string(), "Y Send Messages\n".to_string(), true),
            ("Moderation".to_string(), "N Kick Members\nY Ban Members\nY Send Messages\n".to_string(), true),
            ("No category".to_string(), "N Embed Links\n".to_string(), true),
        ]
    );
    let none = get_perms_as_embedfields(&vec![cmd("x", &[], None, false, 0)], granted, &flags, "Y", "N");
    assert!(none.is_empty());
}
