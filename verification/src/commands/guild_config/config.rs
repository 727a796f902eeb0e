//! The configurable feature categories of a guild, their two textual forms (the
//! friendly name shown in menus and the identifier used in component ids), and the
//! embed that shows a category's settings.

use vstd::prelude::*;
use crate::send::FieldView;
use crate::text::{dec_digits, join, join_spec, owned, push_char, push_dec, push_str, same_text, texts};
use crate::utils::command_utils::{field, no_extras, simple_embed, EmbedContent, EmbedStyle};
use crate::utils::embed_utils::field_views;
use crate::utils::utils::{bool_label, pagination_ids, reaction_text};

verus! {

/// A configurable feature category.
#[derive(PartialEq, Eq, Structural, Debug, Clone, Copy)]
pub enum Category {
    Moderation,
    ModerationNameBan,
    ModerationAutoModHook,
    ModerationReports,
    ServerQoL,
    Utilities,
    UtilitiesWiki,
    Leveling,
    Starboard,
    Counting,
    Tickets,
    Tagging,
    ServerStats,
    NoCategory,
}

/// The name shown to users; empty for `NoCategory`.
pub open spec fn friendly_name_of(c: Category) -> Seq<char> {
    match c {
        Category::Moderation => "Moderation"@,
        Category::ModerationNameBan => "Moderation > Name Ban"@,
        Category::ModerationAutoModHook => "Moderation > Discord AutoMod Hook"@,
        Category::ModerationReports => "Moderation > Reports"@,
        Category::ServerQoL => "Server Quality of Life"@,
        Category::Utilities => "Utilities"@,
        Category::UtilitiesWiki => "Utilities > Wiki"@,
        Category::Leveling => "Leveling"@,
        Category::Starboard => "Starboard"@,
        Category::Counting => "Counting"@,
        Category::Tickets => "Tickets"@,
        Category::Tagging => "Tagging"@,
        Category::ServerStats => "Server Statistics"@,
        Category::NoCategory => ""@,
    }
}

/// The identifier used in component ids; empty for `NoCategory`.
pub open spec fn identifier_of(c: Category) -> Seq<char> {
    match c {
        Category::Moderation => "moderation"@,
        Category::ModerationNameBan => "moderation.nameban"@,
        Category::ModerationAutoModHook => "moderation.automodhook"@,
        Category::ModerationReports => "moderation.reports"@,
        Category::ServerQoL => "serverqol"@,
        Category::Utilities => "utilities"@,
        Category::UtilitiesWiki => "utilities.wiki"@,
        Category::Leveling => "leveling"@,
        Category::Starboard => "starboard"@,
        Category::Counting => "counting"@,
        Category::Tickets => "tickets"@,
        Category::Tagging => "tagging"@,
        Category::ServerStats => "serverstats"@,
        Category::NoCategory => ""@,
    }
}

/// The category whose friendly name is `s`; `NoCategory` for any other text.
pub open spec fn category_of_friendly_name(s: Seq<char>) -> Category {
    if s == "Moderation"@ {
        Category::Moderation
    } else if s == "Moderation > Name Ban"@ {
        Category::ModerationNameBan
    } else if s == "Moderation > Discord AutoMod Hook"@ {
        Category::ModerationAutoModHook
    } else if s == "Moderation > Reports"@ {
        Category::ModerationReports
    } else if s == "Server Quality of Life"@ {
        Category::ServerQoL
    } else if s == "Utilities"@ {
        Category::Utilities
    } else if s == "Utilities > Wiki"@ {
        Category::UtilitiesWiki
    } else if s == "Leveling"@ {
        Category::Leveling
    } else if s == "Starboard"@ {
        Category::Starboard
    } else if s == "Counting"@ {
        Category::Counting
    } else if s == "Tickets"@ {
        Category::Tickets
    } else if s == "Tagging"@ {
        Category::Tagging
    } else if s == "Server Statistics"@ {
        Category::ServerStats
    } else {
        Category::NoCategory
    }
}

/// The category whose identifier is `s`; `NoCategory` for any other text.
pub open spec fn category_of_identifier(s: Seq<char>) -> Category {
    if s == "moderation"@ {
        Category::Moderation
    } else if s == "moderation.nameban"@ {
        Category::ModerationNameBan
    } else if s == "moderation.automodhook"@ {
        Category::ModerationAutoModHook
    } else if s == "moderation.reports"@ {
        Category::ModerationReports
    } else if s == "serverqol"@ {
        Category::ServerQoL
    } else if s == "utilities"@ {
        Category::Utilities
    } else if s == "utilities.wiki"@ {
        Category::UtilitiesWiki
    } else if s == "leveling"@ {
        Category::Leveling
    } else if s == "starboard"@ {
        Category::Starboard
    } else if s == "counting"@ {
        Category::Counting
    } else if s == "tickets"@ {
        Category::Tickets
    } else if s == "tagging"@ {
        Category::Tagging
    } else if s == "serverstats"@ {
        Category::ServerStats
    } else {
        Category::NoCategory
    }
}

impl Category {
    /// The friendly name, as shown in the configuration menu.
    pub fn to_friendly_name(&self) -> (r: &'static str)
        ensures
            r@ == friendly_name_of(*self),
    {
        match self {
            Category::Moderation => "Moderation",
            Category::ModerationNameBan => "Moderation > Name Ban",
            Category::ModerationAutoModHook => "Moderation > Discord AutoMod Hook",
            Category::ModerationReports => "Moderation > Reports",
            Category::ServerQoL => "Server Quality of Life",
            Category::Utilities => "Utilities",
            Category::UtilitiesWiki => "Utilities > Wiki",
            Category::Leveling => "Leveling",
            Category::Starboard => "Starboard",
            Category::Counting => "Counting",
            Category::Tickets => "Tickets",
            Category::Tagging => "Tagging",
            Category::ServerStats => "Server Statistics",
            Category::NoCategory => "",
        }
    }

    /// The category named by `inp`; `NoCategory` when absent or unknown.
    pub fn from_friendly_name(inp: Option<String>) -> (r: Category)
        ensures
            r == match inp { Some(s) => category_of_friendly_name(s@), None => Category::NoCategory },
    {
        match inp {
            None => Category::NoCategory,
            Some(s) => Self::from_friendly_text(s.as_str()),
        }
    }

    fn from_friendly_text(s: &str) -> (r: Category)
        ensures
            r == category_of_friendly_name(s@),
    {
        if same_text(s, "Moderation") {
            Category::Moderation
        } else if same_text(s, "Moderation > Name Ban") {
            Category::ModerationNameBan
        } else if same_text(s, "Moderation > Discord AutoMod Hook") {
            Category::ModerationAutoModHook
        } else if same_text(s, "Moderation > Reports") {
            Category::ModerationReports
        } else if same_text(s, "Server Quality of Life") {
            Category::ServerQoL
        } else if same_text(s, "Utilities") {
            Category::Utilities
        } else if same_text(s, "Utilities > Wiki") {
            Category::UtilitiesWiki
        } else if same_text(s, "Leveling") {
            Category::Leveling
        } else if same_text(s, "Starboard") {
            Category::Starboard
        } else if same_text(s, "Counting") {
            Category::Counting
        } else if same_text(s, "Tickets") {
            Category::Tickets
        } else if same_text(s, "Tagging") {
            Category::Tagging
        } else if same_text(s, "Server Statistics") {
            Category::ServerStats
        } else {
            Category::NoCategory
        }
    }

    /// The identifier, as used in the values of the configuration menu.
    pub fn to_identifier(&self) -> (r: &'static str)
        ensures
            r@ == identifier_of(*self),
    {
        match self {
            Category::Moderation => "moderation",
            Category::ModerationNameBan => "moderation.nameban",
            Category::ModerationAutoModHook => "moderation.automodhook",
            Category::ModerationReports => "moderation.reports",
            Category::ServerQoL => "serverqol",
            Category::Utilities => "utilities",
            Category::UtilitiesWiki => "utilities.wiki",
            Category::Leveling => "leveling",
            Category::Starboard => "starboard",
            Category::Counting => "counting",
            Category::Tickets => "tickets",
            Category::Tagging => "tagging",
            Category::ServerStats => "serverstats",
            Category::NoCategory => "",
        }
    }

    /// The category with identifier `inp`; `NoCategory` when absent or unknown.
    pub fn from_identifier(inp: Option<String>) -> (r: Category)
        ensures
            r == match inp { Some(s) => category_of_identifier(s@), None => Category::NoCategory },
    {
        match inp {
            None => Category::NoCategory,
            Some(s) => Self::from_identifier_text(s.as_str()),
        }
    }

    fn from_identifier_text(s: &str) -> (r: Category)
        ensures
            r == category_of_identifier(s@),
    {
        if same_text(s, "moderation") {
            Category::Moderation
        } else if same_text(s, "moderation.nameban") {
            Category::ModerationNameBan
        } else if same_text(s, "moderation.automodhook") {
            Category::ModerationAutoModHook
        } else if same_text(s, "moderation.reports") {
            Category::ModerationReports
        } else if same_text(s, "serverqol") {
            Category::ServerQoL
        } else if same_text(s, "utilities") {
            Category::Utilities
        } else if same_text(s, "utilities.wiki") {
            Category::UtilitiesWiki
        } else if same_text(s, "leveling") {
            Category::Leveling
        } else if same_text(s, "starboard") {
            Category::Starboard
        } else if same_text(s, "counting") {
            Category::Counting
        } else if same_text(s, "tickets") {
            Category::Tickets
        } else if same_text(s, "tagging") {
            Category::Tagging
        } else if same_text(s, "serverstats") {
            Category::ServerStats
        } else {
            Category::NoCategory
        }
    }

}

/// Reading back the friendly name of any category gives that category.
pub proof fn lemma_friendly_name_round_trip(c: Category)
    ensures
        category_of_friendly_name(friendly_name_of(c)) == c,
{
    reveal_strlit("Moderation");
    reveal_strlit("Moderation > Name Ban");
    reveal_strlit("Moderation > Discord AutoMod Hook");
    reveal_strlit("Moderation > Reports");
    reveal_strlit("Server Quality of Life");
    reveal_strlit("Utilities");
    reveal_strlit("Utilities > Wiki");
    reveal_strlit("Leveling");
    reveal_strlit("Starboard");
    reveal_strlit("Counting");
    reveal_strlit("Tickets");
    reveal_strlit("Tagging");
    reveal_strlit("Server Statistics");
    reveal_strlit("");
    assert("Moderation"@.len() == 10);
    assert("Moderation > Name Ban"@.len() == 21);
    assert("Moderation > Discord AutoMod Hook"@.len() == 33);
    assert("Moderation > Reports"@.len() == 20);
    assert("Server Quality of Life"@.len() == 22);
    assert("Utilities"@.len() == 9);
    assert("Utilities > Wiki"@.len() == 16);
    assert("Leveling"@.len() == 8);
    assert("Starboard"@.len() == 9);
    assert("Counting"@.len() == 8);
    assert("Tickets"@.len() == 7);
    assert("Tagging"@.len() == 7);
    assert("Server Statistics"@.len() == 17);
    assert(""@.len() == 0);
    assert("Utilities"@[0] == 'U' && "Starboard"@[0] == 'S');
    assert("Leveling"@[0] == 'L' && "Counting"@[0] == 'C');
    assert("Tickets"@[1] == 'i' && "Tagging"@[1] == 'a');
}

/// Reading back the identifier of any category gives that category.
pub proof fn lemma_identifier_round_trip(c: Category)
    ensures
        category_of_identifier(identifier_of(c)) == c,
{
    reveal_strlit("moderation");
    reveal_strlit("moderation.nameban");
    reveal_strlit("moderation.automodhook");
    reveal_strlit("moderation.reports");
    reveal_strlit("serverqol");
    reveal_strlit("utilities");
    reveal_strlit("utilities.wiki");
    reveal_strlit("leveling");
    reveal_strlit("starboard");
    reveal_strlit("counting");
    reveal_strlit("tickets");
    reveal_strlit("tagging");
    reveal_strlit("serverstats");
    reveal_strlit("");
    assert("moderation"@.len() == 10);
    assert("moderation.nameban"@.len() == 18);
    assert("moderation.automodhook"@.len() == 22);
    assert("moderation.reports"@.len() == 18);
    assert("serverqol"@.len() == 9);
    assert("utilities"@.len() == 9);
    assert("utilities.wiki"@.len() == 14);
    assert("leveling"@.len() == 8);
    assert("starboard"@.len() == 9);
    assert("counting"@.len() == 8);
    assert("tickets"@.len() == 7);
    assert("tagging"@.len() == 7);
    assert("serverstats"@.len() == 11);
    assert(""@.len() == 0);
    assert("moderation.nameban"@[11] == 'n' && "moderation.reports"@[11] == 'r');
    assert("serverqol"@[0] == 's' && "utilities"@[0] == 'u');
    assert("serverqol"@[1] == 'e' && "starboard"@[1] == 't');
    assert("utilities"@[0] == 'u' && "starboard"@[0] == 's');
    assert("leveling"@[0] == 'l' && "counting"@[0] == 'c');
    assert("tickets"@[1] == 'i' && "tagging"@[1] == 'a');
}

/// Text that names a category other than `NoCategory` is exactly that category's friendly name.
pub proof fn lemma_friendly_name_recognized(s: Seq<char>)
    ensures
        category_of_friendly_name(s) != Category::NoCategory ==> friendly_name_of(category_of_friendly_name(s)) == s,
{
}

/// Text that names a category other than `NoCategory` is exactly that category's identifier.
pub proof fn lemma_identifier_recognized(s: Seq<char>)
    ensures
        category_of_identifier(s) != Category::NoCategory ==> identifier_of(category_of_identifier(s)) == s,
{
}

/// The menu maps each friendly name to an identifier; reading that identifier back
/// gives the category of the friendly name.
pub proof fn lemma_menu_value_round_trip(s: Seq<char>)
    ensures
        category_of_identifier(identifier_of(category_of_friendly_name(s))) == category_of_friendly_name(s),
{
    lemma_identifier_round_trip(category_of_friendly_name(s));
}

/// The placeholder of the category menu: the category's friendly name, or an
/// invitation to choose when no category is shown.
pub fn config_placeholder(category: Category) -> (r: &'static str)
    ensures
        r@ == (if category == Category::NoCategory { "Select a category"@ } else { friendly_name_of(category) }),
{
    if category == Category::NoCategory {
        "Select a category"
    } else {
        category.to_friendly_name()
    }
}

/// The description of the configuration embed: the category's friendly name in bold.
pub fn config_description(category: Category) -> (r: String)
    ensures
        r@ == "**"@ + friendly_name_of(category) + "**"@,
{
    let mut r = crate::text::owned("**");
    crate::text::push_str(&mut r, category.to_friendly_name());
    crate::text::push_str(&mut r, "**");
    r
}

} // verus!

verus! {

/// The settings of a guild that the configuration menu shows.
#[derive(Debug, Clone)]
pub struct ConfigSummary {
    pub moderation_enabled: bool,
    pub automod_enabled: bool,
    /// How many AutoMod rules are hooked.
    pub automod_rules: usize,
    pub nameban_enabled: bool,
    pub nameban_action: String,
    pub nameban_reason: String,
    pub nameban_banned_names: Vec<String>,
    pub counting_enabled: bool,
    pub counting_mode: String,
    /// The id of the counting channel.
    pub counting_channel: String,
}

/// `True` or `False`.
pub open spec fn flag_text(b: bool) -> Seq<char> {
    if b { "True"@ } else { "False"@ }
}

/// The fields showing the settings of `category`; categories without settings to show
/// have none.
pub open spec fn config_fields_spec(category: Category, s: ConfigSummary) -> Seq<FieldView> {
    match category {
        Category::Moderation => seq![FieldView { name: "Enabled"@, value: flag_text(s.moderation_enabled), inline: true }],
        Category::ModerationAutoModHook => seq![
            FieldView { name: "Enabled"@, value: flag_text(s.automod_enabled), inline: true },
            FieldView { name: "Rules"@, value: dec_digits(s.automod_rules as nat) + " rules"@, inline: true },
        ],
        Category::ModerationNameBan => seq![
            FieldView { name: "Enabled"@, value: flag_text(s.nameban_enabled), inline: true },
            FieldView { name: "Action"@, value: s.nameban_action@, inline: true },
            FieldView { name: "Reason"@, value: s.nameban_reason@, inline: true },
            FieldView { name: "Banned Names"@, value: join_spec(texts(s.nameban_banned_names@), ", "@), inline: false },
        ],
        Category::Counting => seq![
            FieldView { name: "Enabled"@, value: flag_text(s.counting_enabled), inline: true },
            FieldView { name: "Counting Mode"@, value: s.counting_mode@, inline: true },
            FieldView { name: "Channel"@, value: "<#"@ + s.counting_channel@ + seq!['>'], inline: true },
        ],
        _ => Seq::empty(),
    }
}

/// Each category with a switch shows its own module's switch first, as `Enabled`:
/// `True` exactly when that module is enabled, whatever the other modules are.
pub proof fn lemma_enabled_field_is_own_flag(s: ConfigSummary)
    ensures
        config_fields_spec(Category::Moderation, s)[0].name == "Enabled"@,
        config_fields_spec(Category::Moderation, s)[0].value == "True"@ <==> s.moderation_enabled,
        config_fields_spec(Category::Moderation, s)[0].value == "False"@ <==> !s.moderation_enabled,
        config_fields_spec(Category::ModerationAutoModHook, s)[0].name == "Enabled"@,
        config_fields_spec(Category::ModerationAutoModHook, s)[0].value == "True"@ <==> s.automod_enabled,
        config_fields_spec(Category::ModerationAutoModHook, s)[0].value == "False"@ <==> !s.automod_enabled,
        config_fields_spec(Category::ModerationNameBan, s)[0].name == "Enabled"@,
        config_fields_spec(Category::ModerationNameBan, s)[0].value == "True"@ <==> s.nameban_enabled,
        config_fields_spec(Category::ModerationNameBan, s)[0].value == "False"@ <==> !s.nameban_enabled,
        config_fields_spec(Category::Counting, s)[0].name == "Enabled"@,
        config_fields_spec(Category::Counting, s)[0].value == "True"@ <==> s.counting_enabled,
        config_fields_spec(Category::Counting, s)[0].value == "False"@ <==> !s.counting_enabled,
{
    reveal_strlit("True");
    reveal_strlit("False");
    assert("True"@.len() != "False"@.len());
}

/// The moderation page shows one field, and it depends on the moderation switch
/// alone: two guilds with the same switch see the same page, whatever else differs.
pub proof fn lemma_moderation_page_depends_on_its_switch(a: ConfigSummary, b: ConfigSummary)
    requires
        a.moderation_enabled == b.moderation_enabled,
    ensures
        config_fields_spec(Category::Moderation, a).len() == 1,
        config_fields_spec(Category::Moderation, a) == config_fields_spec(Category::Moderation, b),
{
}

fn flag_string(b: bool) -> (r: String)
    ensures
        r@ == flag_text(b),
{
    owned(bool_label(b))
}

/// The embed showing the settings of `category` in `guild_name`.
pub fn config_embed(guild_name: &str, category: Category, s: &ConfigSummary) -> (r: EmbedContent)
    ensures
        r.style == EmbedStyle::Primary,
        r.title@ == "Config for "@ + guild_name@,
        r.description is Some && r.description.unwrap()@ == "**"@ + friendly_name_of(category) + "**"@,
        field_views(r.fields@) == config_fields_spec(category, *s),
        no_extras(r),
{
    let mut title = owned("Config for ");
    push_str(&mut title, guild_name);
    let mut fields = Vec::new();
    match category {
        Category::Moderation => {
            fields.push(field("Enabled", flag_string(s.moderation_enabled), true));
            assert(field_views(fields@) =~= config_fields_spec(category, *s));
        },
        Category::ModerationAutoModHook => {
            let mut rules = String::new();
            push_dec(&mut rules, s.automod_rules as u64);
            push_str(&mut rules, " rules");
            fields.push(field("Enabled", flag_string(s.automod_enabled), true));
            fields.push(field("Rules", rules, true));
            assert(field_views(fields@) =~= config_fields_spec(category, *s));
        },
        Category::ModerationNameBan => {
            fields.push(field("Enabled", flag_string(s.nameban_enabled), true));
            fields.push(field("Action", s.nameban_action.clone(), true));
            fields.push(field("Reason", s.nameban_reason.clone(), true));
            fields.push(field("Banned Names", join(&s.nameban_banned_names, ", "), false));
            assert(field_views(fields@) =~= config_fields_spec(category, *s));
        },
        Category::Counting => {
            let mut channel = owned("<#");
            push_str(&mut channel, s.counting_channel.as_str());
            push_char(&mut channel, '>');
            assert(channel@ =~= "<#"@ + s.counting_channel@ + seq!['>']);
            fields.push(field("Enabled", flag_string(s.counting_enabled), true));
            fields.push(field("Counting Mode", s.counting_mode.clone(), true));
            fields.push(field("Channel", channel, true));
            assert(field_views(fields@) =~= config_fields_spec(category, *s));
        },
        _ => {
            assert(field_views(fields@) =~= config_fields_spec(category, *s));
        },
    }
    assert(field_views(fields@) =~= config_fields_spec(category, *s));
    simple_embed(EmbedStyle::Primary, title, Some(config_description(category)), fields)
}

/// The label of the button that switches counting on or off.
pub fn toggle_label(enabled: bool) -> (r: &'static str)
    ensures
        r@ == (if enabled { "Disable"@ } else { "Enable"@ }),
{
    if enabled {
        "Disable"
    } else {
        "Enable"
    }
}

} // verus!

verus! {

/// The categories listed in the configuration menu, in order.
pub open spec fn menu_categories_spec() -> Seq<Category> {
    seq![
        Category::Moderation,
        Category::ModerationNameBan,
        Category::ModerationAutoModHook,
        Category::ModerationReports,
        Category::ServerQoL,
        Category::Utilities,
        Category::UtilitiesWiki,
        Category::Leveling,
        Category::Starboard,
        Category::Counting,
        Category::Tickets,
        Category::Tagging,
        Category::ServerStats,
    ]
}

/// The categories listed in the configuration menu, in order.
pub fn menu_categories() -> (r: Vec<Category>)
    ensures
        r@ == menu_categories_spec(),
{
    let r = vec![
        Category::Moderation,
        Category::ModerationNameBan,
        Category::ModerationAutoModHook,
        Category::ModerationReports,
        Category::ServerQoL,
        Category::Utilities,
        Category::UtilitiesWiki,
        Category::Leveling,
        Category::Starboard,
        Category::Counting,
        Category::Tickets,
        Category::Tagging,
        Category::ServerStats,
    ];
    assert(r@ =~= menu_categories_spec());
    r
}

/// What a component of the configuration message is.
#[derive(Debug, Clone, Copy, PartialEq, Eq, Structural)]
pub enum ComponentKind {
    /// The menu of categories.
    CategoryMenu,
    /// A button.
    Button,
    /// A menu of text channels.
    ChannelMenu,
}

/// An option of the category menu: its label, its value and its emoji (a custom
/// emoji mention).
#[derive(Debug, Clone, PartialEq, Eq)]
pub struct MenuOption {
    pub label: String,
    pub value: String,
    pub emoji: String,
}

/// A component of the configuration message: its kind, its custom id, its text (the
/// placeholder of a menu, the label of a button) and, for the category menu, its
/// options.
#[derive(Debug, Clone, PartialEq, Eq)]
pub struct ComponentSpec {
    pub kind: ComponentKind,
    pub custom_id: String,
    pub text: String,
    pub options: Vec<MenuOption>,
}

/// A component as the contracts see it.
pub struct ComponentView {
    pub kind: ComponentKind,
    pub custom_id: Seq<char>,
    pub text: Seq<char>,
    pub options: Seq<(Seq<char>, Seq<char>, Seq<char>)>,
}

/// The label, value and emoji of a menu option.
pub open spec fn option_view(o: MenuOption) -> (Seq<char>, Seq<char>, Seq<char>) {
    (o.label@, o.value@, o.emoji@)
}

/// The view of a component.
pub open spec fn component_view(c: ComponentSpec) -> ComponentView {
    ComponentView { kind: c.kind, custom_id: c.custom_id@, text: c.text@, options: c.options@.map_values(|o: MenuOption| option_view(o)) }
}

/// The views of rows of components.
pub open spec fn rows_view(rows: Seq<Vec<ComponentSpec>>) -> Seq<Seq<ComponentView>> {
    rows.map_values(|row: Vec<ComponentSpec>| row@.map_values(|c: ComponentSpec| component_view(c)))
}

/// The options of the category menu: for each listed category its friendly name, its
/// identifier, and the check box when `statuses` says it is enabled, else the cross.
pub open spec fn menu_option_views(statuses: Seq<bool>, check_box: Seq<char>, cross_box: Seq<char>) -> Seq<(Seq<char>, Seq<char>, Seq<char>)> {
    Seq::new(menu_categories_spec().len(), |i: int| (
        friendly_name_of(menu_categories_spec()[i]),
        identifier_of(menu_categories_spec()[i]),
        if statuses[i] { check_box } else { cross_box },
    ))
}

/// The rows of the configuration message: the category menu; for counting, also the
/// buttons that toggle it and its mode, and the menu that sets its channel.
pub open spec fn config_rows_spec(
    category: Category,
    statuses: Seq<bool>,
    ctx_id: u64,
    check_box: Seq<char>,
    cross_box: Seq<char>,
    counting_enabled: bool,
    counting_mode: Seq<char>,
) -> Seq<Seq<ComponentView>> {
    let menu_prefix = "jutils."@ + "gconfig.selmenu"@ + seq!['.'] + dec_digits(ctx_id as nat);
    let button_prefix = "jutils."@ + "gconfig.button"@ + seq!['.'] + dec_digits(ctx_id as nat);
    let category_menu = ComponentView {
        kind: ComponentKind::CategoryMenu,
        custom_id: menu_prefix + ".category"@,
        text: if category == Category::NoCategory { "Select a category"@ } else { friendly_name_of(category) },
        options: menu_option_views(statuses, check_box, cross_box),
    };
    if category == Category::Counting {
        seq![
            seq![category_menu],
            seq![
                ComponentView {
                    kind: ComponentKind::Button,
                    custom_id: button_prefix + ".counting.toggle"@,
                    text: if counting_enabled { "Disable"@ } else { "Enable"@ },
                    options: Seq::empty(),
                },
                ComponentView {
                    kind: ComponentKind::Button,
                    custom_id: button_prefix + ".counting.toggle_mode"@,
                    text: counting_mode,
                    options: Seq::empty(),
                },
            ],
            seq![
                ComponentView {
                    kind: ComponentKind::ChannelMenu,
                    custom_id: menu_prefix + ".counting.channel"@,
                    text: "Set a channel"@,
                    options: Seq::empty(),
                },
            ],
        ]
    } else {
        seq![seq![category_menu]]
    }
}

/// `prefix` followed by `suffix`.
fn suffixed(prefix: &String, suffix: &str) -> (r: String)
    ensures
        r@ == prefix@ + suffix@,
{
    let mut r = owned(prefix.as_str());
    push_str(&mut r, suffix);
    r
}

/// A component without options.
fn plain_component(kind: ComponentKind, custom_id: String, text: String) -> (r: ComponentSpec)
    ensures
        component_view(r) == (ComponentView { kind, custom_id: custom_id@, text: text@, options: Seq::empty() }),
{
    let r = ComponentSpec { kind, custom_id, text, options: Vec::new() };
    assert(component_view(r).options =~= Seq::empty());
    r
}

/// The components of the configuration message for `category`, answering interaction
/// `ctx_id`; `statuses` says, in the order of the menu, which categories are enabled.
pub fn config_components(
    category: Category,
    statuses: &Vec<bool>,
    ctx_id: u64,
    check_box: &str,
    cross_box: &str,
    counting_enabled: bool,
    counting_mode: &str,
) -> (r: Vec<Vec<ComponentSpec>>)
    requires
        statuses@.len() == menu_categories_spec().len(),
    ensures
        rows_view(r@) == config_rows_spec(category, statuses@, ctx_id, check_box@, cross_box@, counting_enabled, counting_mode@),
{
    let cats = menu_categories();
    let ghost want = menu_option_views(statuses@, check_box@, cross_box@);
    let mut options: Vec<MenuOption> = Vec::new();
    let mut i: usize = 0;
    while i < cats.len()
        invariant
            i <= cats.len(),
            cats@ == menu_categories_spec(),
            statuses@.len() == cats@.len(),
            want == menu_option_views(statuses@, check_box@, cross_box@),
            options@.map_values(|o: MenuOption| option_view(o)) == want.subrange(0, i as int),
        decreases cats.len() - i,
    {
        let c = cats[i];
        let o = MenuOption {
            label: owned(c.to_friendly_name()),
            value: owned(c.to_identifier()),
            emoji: reaction_text(statuses[i], check_box, cross_box),
        };
        let ghost before = options@;
        options.push(o);
        assert(options@.map_values(|o: MenuOption| option_view(o)) =~= before.map_values(|o: MenuOption| option_view(o)).push(option_view(o)));
        assert(want.subrange(0, i + 1) =~= want.subrange(0, i as int).push(want[i as int]));
        i += 1;
    }
    assert(want.subrange(0, cats@.len() as int) =~= want);
    let (menu_prefix, _, _) = pagination_ids("gconfig.selmenu", ctx_id);
    let (button_prefix, _, _) = pagination_ids("gconfig.button", ctx_id);
    let menu = ComponentSpec {
        kind: ComponentKind::CategoryMenu,
        custom_id: suffixed(&menu_prefix, ".category"),
        text: owned(config_placeholder(category)),
        options,
    };
    let mut rows: Vec<Vec<ComponentSpec>> = Vec::new();
    rows.push(vec![menu]);
    if category == Category::Counting {
        let toggle = plain_component(ComponentKind::Button, suffixed(&button_prefix, ".counting.toggle"), owned(toggle_label(counting_enabled)));
        let mode = plain_component(ComponentKind::Button, suffixed(&button_prefix, ".counting.toggle_mode"), owned(counting_mode));
        let channel = plain_component(ComponentKind::ChannelMenu, suffixed(&menu_prefix, ".counting.channel"), owned("Set a channel"));
        rows.push(vec![toggle, mode]);
        rows.push(vec![channel]);
    }
    let ghost spec = config_rows_spec(category, statuses@, ctx_id, check_box@, cross_box@, counting_enabled, counting_mode@);
    assert(rows_view(rows@)[0] =~= spec[0]);
    if category == Category::Counting {
        assert(rows_view(rows@)[1] =~= spec[1]);
        assert(rows_view(rows@)[2] =~= spec[2]);
    }
    assert(rows_view(rows@) =~= spec);
    rows
}

} // verus!
