//! What the help command shows about one command.

use vstd::prelude::*;
use crate::send::{Field, FieldView};
use crate::text::{join, join_spec, owned, push_char, push_str, same_text, texts};

verus! {

/// One parameter of a command.
#[derive(Debug, Clone)]
pub struct CommandParameter {
    pub name: String,
    pub required: bool,
}

/// What the help pages need to know about a command.
#[derive(Debug, Clone)]
pub struct CommandInfo {
    pub name: String,
    pub aliases: Vec<String>,
    pub description: Option<String>,
    pub category: Option<String>,
    pub hide_in_help: bool,
    pub parameters: Vec<CommandParameter>,
    /// The names of the permissions a member needs to run the command.
    pub required_permissions: Vec<String>,
    /// The permission bits the bot needs to run the command.
    pub required_bot_permissions: u64,
}

/// The colour scheme of an embed.
#[derive(Debug, Clone, Copy, PartialEq, Eq, Structural)]
pub enum EmbedStyle {
    Plain,
    Primary,
    Secondary,
    Success,
    Error,
    Invis,
}

/// The content of an embed the bot sends.
#[derive(Debug, Clone)]
pub struct EmbedContent {
    pub style: EmbedStyle,
    pub title: String,
    pub description: Option<String>,
    pub fields: Vec<Field>,
    /// Where the title links to.
    pub url: Option<String>,
    pub thumbnail: Option<String>,
    pub image: Option<String>,
    /// The author line: a name and the address of an icon.
    pub author: Option<(String, String)>,
    pub footer: Option<String>,
}

/// An embed with no link, pictures, author line or footer.
pub open spec fn no_extras(e: EmbedContent) -> bool {
    &&& e.url is None
    &&& e.thumbnail is None
    &&& e.image is None
    &&& e.author is None
    &&& e.footer is None
}

/// An embed of `style` with a title, a description and fields, and nothing else.
pub fn simple_embed(style: EmbedStyle, title: String, description: Option<String>, fields: Vec<Field>) -> (r: EmbedContent)
    ensures
        r.style == style,
        r.title == title,
        r.description == description,
        r.fields == fields,
        no_extras(r),
{
    EmbedContent { style, title, description, fields, url: None, thumbnail: None, image: None, author: None, footer: None }
}

/// The text of an optional string, or `default` when there is none.
pub open spec fn text_or(o: Option<String>, default: Seq<char>) -> Seq<char> {
    match o {
        Some(s) => s@,
        None => default,
    }
}

/// A parameter in a usage line: `<name>` when required, `[name]` otherwise.
pub open spec fn param_text(p: CommandParameter) -> Seq<char> {
    if p.required {
        seq!['<'] + p.name@ + seq!['>']
    } else {
        seq!['['] + p.name@ + seq![']']
    }
}

/// The parameters of a usage line, separated by single spaces.
pub open spec fn params_text(ps: Seq<CommandParameter>) -> Seq<char> {
    join_spec(ps.map_values(|p: CommandParameter| param_text(p)), seq![' '])
}

/// The parameter list shown in a command's usage line.
pub fn get_fmt_params(params: &Vec<CommandParameter>) -> (r: String)
    ensures
        r@ == params_text(params@),
{
    let ghost views = params@.map_values(|p: CommandParameter| param_text(p));
    let mut r = String::new();
    let mut i: usize = 0;
    while i < params.len()
        invariant
            i <= params.len(),
            views == params@.map_values(|p: CommandParameter| param_text(p)),
            r@ == join_spec(views.subrange(0, i as int), seq![' ']),
        decreases params.len() - i,
    {
        let ghost before = views.subrange(0, i as int);
        let ghost r0 = r@;
        if i > 0 {
            push_char(&mut r, ' ');
        }
        let ghost r1 = r@;
        let p = &params[i];
        if p.required {
            push_char(&mut r, '<');
            push_str(&mut r, p.name.as_str());
            push_char(&mut r, '>');
        } else {
            push_char(&mut r, '[');
            push_str(&mut r, p.name.as_str());
            push_char(&mut r, ']');
        }
        proof {
            assert(r@ =~= r1 + param_text(params@[i as int]));
            let after = views.subrange(0, i + 1);
            assert(after.drop_last() =~= before);
            if i == 0 {
                assert(r@ =~= after[0]);
            } else {
                assert(r@ =~= join_spec(before, seq![' ']) + seq![' '] + after.last());
            }
        }
        i += 1;
    }
    assert(views.subrange(0, params.len() as int) =~= views);
    r
}

/// Whether `list` holds a string with the characters of `s`.
pub fn contains_text(list: &Vec<String>, s: &str) -> (r: bool)
    ensures
        r == exists|j: int| 0 <= j < list@.len() && #[trigger] list@[j]@ == s@,
{
    let mut i: usize = 0;
    while i < list.len()
        invariant
            i <= list.len(),
            forall|j: int| 0 <= j < i ==> #[trigger] list@[j]@ != s@,
        decreases list.len() - i,
    {
        if same_text(list[i].as_str(), s) {
            return true;
        }
        i += 1;
    }
    false
}

/// A command the help command shows for `cmd`: not hidden, and named or aliased `cmd`.
pub open spec fn command_matches(c: CommandInfo, cmd: Seq<char>) -> bool {
    &&& !c.hide_in_help
    &&& (c.name@ == cmd || exists|j: int| 0 <= j < c.aliases@.len() && #[trigger] c.aliases@[j]@ == cmd)
}

/// The index of the last command matching `cmd`, or -1.
pub open spec fn last_match(s: Seq<CommandInfo>, cmd: Seq<char>) -> int
    decreases s.len(),
{
    if s.len() == 0 {
        -1
    } else if command_matches(s.last(), cmd) {
        s.len() - 1
    } else {
        last_match(s.drop_last(), cmd)
    }
}

proof fn lemma_last_match_bound(s: Seq<CommandInfo>, cmd: Seq<char>)
    ensures
        -1 <= last_match(s, cmd) < s.len(),
    decreases s.len(),
{
    if s.len() > 0 {
        lemma_last_match_bound(s.drop_last(), cmd);
    }
}

/// A visible command answers to any of its aliases: when command `i` is shown in help
/// and its alias `j` is `cmd`, the lookup finds a command at `i` or later.
pub proof fn lemma_alias_is_found(s: Seq<CommandInfo>, cmd: Seq<char>, i: int, j: int)
    requires
        0 <= i < s.len(),
        !s[i].hide_in_help,
        0 <= j < s[i].aliases@.len(),
        s[i].aliases@[j]@ == cmd,
    ensures
        last_match(s, cmd) >= i,
    decreases s.len(),
{
    if i < s.len() - 1 {
        if !command_matches(s.last(), cmd) {
            let p = s.drop_last();
            assert(p[i] == s[i]);
            lemma_alias_is_found(p, cmd, i, j);
        }
    } else {
        assert(command_matches(s.last(), cmd));
    }
}

/// A visible command answers to its name: when command `i` is shown in help and is
/// named `cmd`, the lookup finds a command at `i` or later.
pub proof fn lemma_name_is_found(s: Seq<CommandInfo>, cmd: Seq<char>, i: int)
    requires
        0 <= i < s.len(),
        !s[i].hide_in_help,
        s[i].name@ == cmd,
    ensures
        last_match(s, cmd) >= i,
    decreases s.len(),
{
    if i < s.len() - 1 {
        if !command_matches(s.last(), cmd) {
            let p = s.drop_last();
            assert(p[i] == s[i]);
            lemma_name_is_found(p, cmd, i);
        }
    }
}

/// What the lookup finds is a visible command named or aliased `cmd`, and no later
/// command is one; it finds nothing only when no visible command is named or aliased
/// `cmd`.
pub proof fn lemma_found_command_answers(s: Seq<CommandInfo>, cmd: Seq<char>)
    ensures
        last_match(s, cmd) >= 0 ==> {
            let c = s[last_match(s, cmd)];
            &&& last_match(s, cmd) < s.len()
            &&& !c.hide_in_help
            &&& (c.name@ == cmd || exists|j: int| 0 <= j < c.aliases@.len() && #[trigger] c.aliases@[j]@ == cmd)
        },
        forall|k: int| last_match(s, cmd) < k < s.len() ==> !(#[trigger] s[k]).hide_in_help ==> s[k].name@ != cmd
            && forall|j: int| 0 <= j < s[k].aliases@.len() ==> #[trigger] s[k].aliases@[j]@ != cmd,
    decreases s.len(),
{
    lemma_last_match_bound(s, cmd);
    if s.len() > 0 && !command_matches(s.last(), cmd) {
        let p = s.drop_last();
        lemma_found_command_answers(p, cmd);
        assert forall|k: int| last_match(s, cmd) < k < s.len() implies !(#[trigger] s[k]).hide_in_help ==> s[k].name@ != cmd
            && forall|j: int| 0 <= j < s[k].aliases@.len() ==> #[trigger] s[k].aliases@[j]@ != cmd by {
            if k < s.len() - 1 {
                assert(p[k] == s[k]);
            }
        }
        if last_match(s, cmd) >= 0 {
            assert(p[last_match(s, cmd)] == s[last_match(s, cmd)]);
        }
    }
}

/// The index of the command the help command describes for `cmd`: the last one that
/// matches.
pub fn find_command(commands: &Vec<CommandInfo>, cmd: &str) -> (r: Option<usize>)
    ensures
        match r {
            Some(i) => last_match(commands@, cmd@) == i,
            None => last_match(commands@, cmd@) == -1,
        },
{
    let mut found: Option<usize> = None;
    let mut i: usize = 0;
    while i < commands.len()
        invariant
            i <= commands.len(),
            match found {
                Some(k) => last_match(commands@.subrange(0, i as int), cmd@) == k,
                None => last_match(commands@.subrange(0, i as int), cmd@) == -1,
            },
        decreases commands.len() - i,
    {
        let c = &commands[i];
        assert(commands@.subrange(0, i + 1).drop_last() =~= commands@.subrange(0, i as int));
        if !c.hide_in_help && (same_text(c.name.as_str(), cmd) || contains_text(&c.aliases, cmd)) {
            found = Some(i);
        }
        i += 1;
    }
    assert(commands@.subrange(0, commands.len() as int) =~= commands@);
    found
}

/// The fields describing a command: usage, category, aliases, and the permissions it
/// requires when there are any.
pub open spec fn command_fields(c: CommandInfo, prefix: Seq<char>) -> Seq<FieldView> {
    let base = seq![
        FieldView {
            name: "Usage"@,
            value: seq!['`'] + prefix + c.name@ + seq![' '] + params_text(c.parameters@) + seq!['`'],
            inline: false,
        },
        FieldView { name: "Category"@, value: text_or(c.category, "No category"@), inline: true },
        FieldView { name: "Aliases"@, value: join_spec(texts(c.aliases@), ", "@), inline: true },
    ];
    if c.required_permissions@.len() > 0 {
        base.push(FieldView { name: "Requires"@, value: join_spec(texts(c.required_permissions@), ", "@), inline: true })
    } else {
        base
    }
}

pub(crate) fn text_or_default(o: &Option<String>, default: &str) -> (r: String)
    ensures
        r@ == text_or(*o, default@),
{
    match o {
        Some(s) => s.clone(),
        None => owned(default),
    }
}

pub(crate) fn field(name: &str, value: String, inline: bool) -> (f: Field)
    ensures
        f@ == (FieldView { name: name@, value: value@, inline }),
{
    Field { name: owned(name), value, inline }
}

/// The help embed for `cmd`: the description of the last matching command, or an
/// error embed when none matches.
pub fn get_command(commands: &Vec<CommandInfo>, prefix: &str, cmd: &str) -> (r: EmbedContent)
    ensures
        no_extras(r),
        last_match(commands@, cmd@) >= 0 ==> {
            let c = commands@[last_match(commands@, cmd@)];
            &&& r.style == EmbedStyle::Primary
            &&& r.title@ == c.name@
            &&& r.description is Some
            &&& r.description.unwrap()@ == text_or(c.description, "No description"@)
            &&& r.fields@.map_values(|f: Field| f@) == command_fields(c, prefix@)
        },
        last_match(commands@, cmd@) < 0 ==> {
            &&& r.style == EmbedStyle::Error
            &&& r.title@ == "Cannot find command!"@
            &&& r.description is Some
            &&& r.description.unwrap()@ == "Make sure that the command is correct!"@
            &&& r.fields@.len() == 0
        },
{
    match find_command(commands, cmd) {
        Some(i) => {
            proof {
                lemma_last_match_bound(commands@, cmd@);
            }
            let c = &commands[i];
            let mut usage = String::new();
            push_char(&mut usage, '`');
            push_str(&mut usage, prefix);
            push_str(&mut usage, c.name.as_str());
            push_char(&mut usage, ' ');
            let params = get_fmt_params(&c.parameters);
            push_str(&mut usage, params.as_str());
            push_char(&mut usage, '`');
            assert(usage@ =~= seq!['`'] + prefix@ + c.name@ + seq![' '] + params_text(c.parameters@) + seq!['`']);
            let mut fields: Vec<Field> = Vec::new();
            fields.push(field("Usage", usage, false));
            fields.push(field("Category", text_or_default(&c.category, "No category"), true));
            fields.push(field("Aliases", join(&c.aliases, ", "), true));
            if c.required_permissions.len() > 0 {
                fields.push(field("Requires", join(&c.required_permissions, ", "), true));
            }
            let r = simple_embed(
                EmbedStyle::Primary,
                c.name.clone(),
                Some(text_or_default(&c.description, "No description")),
                fields,
            );
            assert(r.fields@.map_values(|f: Field| f@) =~= command_fields(*c, prefix@));
            r
        },
        None => simple_embed(
            EmbedStyle::Error,
            owned("Cannot find command!"),
            Some(owned("Make sure that the command is correct!")),
            Vec::new(),
        ),
    }
}

} // verus!
