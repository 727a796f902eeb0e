//! Lookups of packages, repositories and invites.

use vstd::prelude::*;
use crate::send::{Field, FieldView, LinkComponent};
use crate::text::{
    contains_str, dec_digits, dec_signed, join, join_spec, owned, push_char, push_dec, push_dec_signed, push_str,
    starts_with, starts_with_spec, texts, trim_start_matches, trim_start_spec,
};
use crate::utils::command_utils::{field, no_extras, simple_embed, text_or, text_or_default, EmbedContent, EmbedStyle};
use crate::utils::embed_utils::field_views;

verus! {

/// The crates.io API address of a crate.
pub fn crate_api_url(crate_name: &str) -> (r: String)
    ensures
        r@ == "https://crates.io/api/v1/crates/"@ + crate_name@,
{
    let mut r = owned("https://crates.io/api/v1/crates/");
    push_str(&mut r, crate_name);
    r
}

/// The npm registry address of a package.
pub fn npm_registry_url(package_name: &str) -> (r: String)
    ensures
        r@ == "https://registry.npmjs.org/"@ + package_name@,
{
    let mut r = owned("https://registry.npmjs.org/");
    push_str(&mut r, package_name);
    r
}

/// The GitHub API address of a user.
pub fn github_user_url(name: &str) -> (r: String)
    ensures
        r@ == "https://api.github.com/users/"@ + name@,
{
    let mut r = owned("https://api.github.com/users/");
    push_str(&mut r, name);
    r
}

/// The address to try when the first look-up fails to send: the user address, but
/// only after a repository address was tried (the name holds a `/`).
pub fn github_fallback_url(name: &str) -> (r: Option<String>)
    ensures
        r is Some <==> crate::text::contains_spec(name@, seq!['/']),
        r matches Some(u) ==> u@ == "https://api.github.com/users/"@ + name@,
{
    proof {
        reveal_strlit("/");
        assert("/"@ =~= seq!['/']);
    }
    if contains_str(name, "/") {
        Some(github_user_url(name))
    } else {
        None
    }
}

/// The GitHub API address to look up first: a repository when the name holds a `/`,
/// a user otherwise.
pub fn github_api_url(name: &str) -> (r: String)
    ensures
        r@ == (if crate::text::contains_spec(name@, seq!['/']) {
            "https://api.github.com/repos/"@ + name@
        } else {
            "https://api.github.com/users/"@ + name@
        }),
{
    proof {
        reveal_strlit("/");
        assert("/"@ =~= seq!['/']);
    }
    if contains_str(name, "/") {
        let mut r = owned("https://api.github.com/repos/");
        push_str(&mut r, name);
        r
    } else {
        github_user_url(name)
    }
}

/// A repository address the bot links to: one with an `http://` or `https://` scheme.
pub fn linkable_repository(url: &str) -> (r: bool)
    ensures
        r == (starts_with_spec(url@, "http://"@) || starts_with_spec(url@, "https://"@)),
{
    starts_with(url, "http://") || starts_with(url, "https://")
}

/// The code of an invite given as a link or as the bare code: leading `https://`, then
/// `discord.gg/`, then `discord.com/invite/` are removed (each as often as it repeats).
pub fn invite_code(invite: &str) -> (r: String)
    ensures
        r@ == trim_start_spec(trim_start_spec(trim_start_spec(invite@, "https://"@), "discord.gg/"@), "discord.com/invite/"@),
{
    let a = trim_start_matches(invite, "https://");
    let b = trim_start_matches(a.as_str(), "discord.gg/");
    trim_start_matches(b.as_str(), "discord.com/invite/")
}

} // verus!

verus! {

/// The time zone choices offered while the user types: those starting with `partial`,
/// in order.
pub fn timezones_starting_with(timezones: Vec<String>, partial: &str) -> (r: Vec<String>)
    ensures
        crate::text::texts(r@) == crate::text::texts(timezones@).filter(|t: Seq<char>| starts_with_spec(t, partial@)),
{
    let ghost all = crate::text::texts(timezones@);
    let mut rest = timezones;
    let mut out: Vec<String> = Vec::new();
    let ghost mut done: int = 0;
    assert(all.subrange(0, 0).filter(|t: Seq<char>| starts_with_spec(t, partial@)) =~= Seq::<Seq<char>>::empty());
    while rest.len() > 0
        invariant
            0 <= done <= all.len(),
            crate::text::texts(rest@) == all.subrange(done, all.len() as int),
            crate::text::texts(out@) == all.subrange(0, done).filter(|t: Seq<char>| starts_with_spec(t, partial@)),
        decreases rest.len(),
    {
        let ghost rv = crate::text::texts(rest@);
        assert(rv.len() == rest@.len());
        assert(rv[0] == rest@[0]@);
        assert(rv[0] == all[done]);
        let ghost old_rest = rest@;
        let t = rest.remove(0);
        assert(t@ == all[done]);
        assert forall|k: int| 0 <= k < rest@.len() implies #[trigger] rest@[k]@ == all[done + 1 + k] by {
            assert(rest@[k] == old_rest[k + 1]);
            assert(rv[k + 1] == old_rest[k + 1]@);
            assert(rv[k + 1] == all[done + 1 + k]);
        }
        assert(crate::text::texts(rest@) =~= all.subrange(done + 1, all.len() as int));
        let ghost before = crate::text::texts(out@);
        let keep = starts_with(t.as_str(), partial);
        let ghost tv = t@;
        if keep {
            out.push(t);
            assert(crate::text::texts(out@) =~= before.push(tv));
        }
        proof {
            let pre = all.subrange(0, done);
            let post = all.subrange(0, done + 1);
            assert(post =~= pre.push(tv));
            pre.lemma_filter_push(tv, |t: Seq<char>| starts_with_spec(t, partial@));
            done = done + 1;
        }
    }
    assert(all.subrange(0, done) =~= all);
    out
}

} // verus!

verus! {

/// The reply of a look-up command: its embed and the link buttons under it (no button
/// row when there are none).
#[derive(Debug, Clone)]
pub struct LookupReply {
    pub embed: EmbedContent,
    pub buttons: Vec<LinkComponent>,
}

/// The labels and addresses of link buttons.
pub open spec fn link_views(s: Seq<LinkComponent>) -> Seq<(Seq<char>, Seq<char>)> {
    s.map_values(|l: LinkComponent| (l.name@, l.url@))
}

/// A button labelled `label` when the address is known, none otherwise.
pub open spec fn opt_link(label: Seq<char>, url: Option<String>) -> Seq<(Seq<char>, Seq<char>)> {
    match url {
        Some(u) => seq![(label, u@)],
        None => Seq::empty(),
    }
}

/// A count as the embeds show it: missing counts read as zero.
pub open spec fn count_text(n: Option<u64>) -> Seq<char> {
    match n {
        Some(v) => dec_digits(v as nat),
        None => dec_digits(0),
    }
}

/// `format!("{:?}", s)` of a string: the text in double quotes, with Rust's escapes.
pub uninterp spec fn debug_str_text(s: Seq<char>) -> Seq<char>;

/// `<str as Debug>::fmt`, through `format!("{:?}", s)`.
#[verifier::external_body]
fn debug_str(s: &str) -> (r: String)
    ensures
        r@ == debug_str_text(s@),
{
    format!("{:?}", s)
}

/// The Unix seconds of an RFC 3339 timestamp, as chrono reads it; `None` where the
/// text is not RFC 3339.
pub uninterp spec fn rfc3339_unix_seconds(s: Seq<char>) -> Option<i64>;

/// `chrono::DateTime::parse_from_rfc3339` followed by `timestamp`: the Unix seconds of
/// the instant the text names, or `None` when chrono refuses the text. The result is
/// a function of the text alone.
#[verifier::external_body]
fn parse_rfc3339_seconds(s: &str) -> (r: Option<i64>)
    ensures
        r == rfc3339_unix_seconds(s@),
{
    match chrono::DateTime::parse_from_rfc3339(s) {
        Ok(d) => Some(d.timestamp()),
        Err(_) => None,
    }
}

/// When a package was first published and when its latest version was, in Unix
/// seconds, read from the registry's RFC 3339 timestamps; `None` when either is not
/// RFC 3339.
pub fn package_times(created_at: &str, updated_at: &str) -> (r: Option<(i64, i64)>)
    ensures
        r is Some <==> (rfc3339_unix_seconds(created_at@) is Some && rfc3339_unix_seconds(updated_at@) is Some),
        r matches Some((c, u)) ==> rfc3339_unix_seconds(created_at@) == Some(c) && rfc3339_unix_seconds(updated_at@)
            == Some(u),
{
    match parse_rfc3339_seconds(created_at) {
        None => None,
        Some(c) => match parse_rfc3339_seconds(updated_at) {
            None => None,
            Some(u) => Some((c, u)),
        },
    }
}

/// `{:?}` of an optional value whose own debug text is `inner`.
pub open spec fn debug_option(inner: Option<Seq<char>>) -> Seq<char> {
    match inner {
        Some(t) => "Some("@ + t + seq![')'],
        None => "None"@,
    }
}

/// `{:?}` of an optional count.
pub open spec fn debug_count(n: Option<u64>) -> Seq<char> {
    match n {
        Some(v) => debug_option(Some(dec_digits(v as nat))),
        None => debug_option(None),
    }
}

/// The text of a package's "Latest Version" field: the version (as `{:?}` writes the
/// optional version, given its debug text), when it was published and how often it
/// was downloaded.
pub open spec fn latest_version_spec(version_debug: Option<Seq<char>>, published_at: i64, downloads: Option<u64>) -> Seq<char> {
    debug_option(version_debug) + "\nPublished at <t:"@ + dec_signed(published_at as int) + ">\n"@ + debug_count(
        downloads,
    ) + " downloads"@
}

/// The views of an optional string.
pub open spec fn opt_view(o: Option<String>) -> Option<Seq<char>> {
    match o {
        Some(s) => Some(s@),
        None => None,
    }
}

fn push_debug_option(r: &mut String, inner: &Option<String>)
    ensures
        final(r)@ == old(r)@ + debug_option(opt_view(*inner)),
{
    match inner {
        Some(t) => {
            push_str(r, "Some(");
            push_str(r, t.as_str());
            push_char(r, ')');
        },
        None => push_str(r, "None"),
    }
}

/// The "Latest Version" text from the debug text of the version.
pub fn latest_version_text(version_debug: &Option<String>, published_at: i64, downloads: Option<u64>) -> (r: String)
    ensures
        r@ == latest_version_spec(opt_view(*version_debug), published_at, downloads),
{
    let mut r = String::new();
    push_debug_option(&mut r, version_debug);
    push_str(&mut r, "\nPublished at <t:");
    push_dec_signed(&mut r, published_at);
    push_str(&mut r, ">\n");
    match downloads {
        Some(v) => {
            push_str(&mut r, "Some(");
            push_dec(&mut r, v);
            push_char(&mut r, ')');
        },
        None => push_str(&mut r, "None"),
    }
    push_str(&mut r, " downloads");
    r
}

fn count_string(n: Option<u64>) -> (r: String)
    ensures
        r@ == count_text(n),
{
    let mut r = String::new();
    match n {
        Some(v) => push_dec(&mut r, v),
        None => push_dec(&mut r, 0),
    }
    r
}

fn push_link(v: &mut Vec<LinkComponent>, label: &str, url: &Option<String>)
    ensures
        link_views(final(v)@) == link_views(old(v)@) + opt_link(label@, *url),
{
    match url {
        Some(u) => {
            let ghost before = link_views(v@);
            v.push(LinkComponent { name: owned(label), url: u.clone() });
            assert(link_views(v@) =~= before + opt_link(label@, *url));
        },
        None => {
            assert(link_views(v@) =~= link_views(v@) + opt_link(label@, *url));
        },
    }
}

fn titled(kind: &str, name: &str) -> (r: String)
    ensures
        r@ == kind@ + seq![' '] + name@,
{
    let mut r = owned(kind);
    push_char(&mut r, ' ');
    push_str(&mut r, name);
    r
}

/// What a package registry says about a package.
#[derive(Debug, Clone)]
pub struct PackageInfo {
    pub description: Option<String>,
    /// When the package was first published, in Unix seconds.
    pub created_at: i64,
    pub downloads: Option<u64>,
    pub latest_version: Option<String>,
    /// When the latest version was published, in Unix seconds.
    pub latest_published_at: i64,
    pub latest_downloads: Option<u64>,
    pub documentation: Option<String>,
    pub homepage: Option<String>,
    pub repository: Option<String>,
}

/// The fields of a package's embed.
pub open spec fn package_fields(info: PackageInfo) -> Seq<FieldView> {
    seq![
        FieldView { name: "Published at"@, value: "<t:"@ + dec_signed(info.created_at as int) + seq!['>'], inline: true },
        FieldView { name: "Downloads"@, value: count_text(info.downloads), inline: true },
        FieldView {
            name: "Latest Version"@,
            value: latest_version_spec(
                match info.latest_version {
                    Some(v) => Some(debug_str_text(v@)),
                    None => None,
                },
                info.latest_published_at,
                info.latest_downloads,
            ),
            inline: true,
        },
    ]
}

/// The buttons of a package: documentation, homepage and repository, each when known.
pub open spec fn package_links(info: PackageInfo) -> Seq<(Seq<char>, Seq<char>)> {
    opt_link("Documentation"@, info.documentation) + opt_link("Homepage"@, info.homepage) + opt_link(
        "Repository"@,
        info.repository,
    )
}

/// The reply describing a package, titled `{kind} {name}`.
pub fn package_reply(kind: &str, name: &str, info: &PackageInfo) -> (r: LookupReply)
    ensures
        r.embed.style == EmbedStyle::Primary,
        r.embed.title@ == kind@ + seq![' '] + name@,
        r.embed.description is Some,
        r.embed.description.unwrap()@ == text_or(info.description, "No description available"@),
        field_views(r.embed.fields@) == package_fields(*info),
        no_extras(r.embed),
        link_views(r.buttons@) == package_links(*info),
{
    let mut published = owned("<t:");
    push_dec_signed(&mut published, info.created_at);
    push_char(&mut published, '>');
    let version_debug = match &info.latest_version {
        Some(v) => Some(debug_str(v.as_str())),
        None => None,
    };
    assert(opt_view(version_debug) == (match info.latest_version {
        Some(v) => Some(debug_str_text(v@)),
        None => None::<Seq<char>>,
    }));
    let latest = latest_version_text(&version_debug, info.latest_published_at, info.latest_downloads);
    let mut fields: Vec<Field> = Vec::new();
    fields.push(field("Published at", published, true));
    fields.push(field("Downloads", count_string(info.downloads), true));
    fields.push(field("Latest Version", latest, true));
    assert(published@ =~= "<t:"@ + dec_signed(info.created_at as int) + seq!['>']);
    assert(fields@[0]@ == package_fields(*info)[0]);
    assert(fields@[1]@ == package_fields(*info)[1]);
    assert(fields@[2]@ == package_fields(*info)[2]);
    assert(field_views(fields@) =~= package_fields(*info));
    let mut buttons: Vec<LinkComponent> = Vec::new();
    assert(link_views(buttons@) =~= Seq::empty());
    push_link(&mut buttons, "Documentation", &info.documentation);
    push_link(&mut buttons, "Homepage", &info.homepage);
    push_link(&mut buttons, "Repository", &info.repository);
    assert(link_views(buttons@) =~= package_links(*info));
    LookupReply {
        embed: simple_embed(
            EmbedStyle::Primary,
            titled(kind, name),
            Some(text_or_default(&info.description, "No description available")),
            fields,
        ),
        buttons,
    }
}

/// What the npm registry says about a package.
#[derive(Debug, Clone)]
pub struct NpmPackage {
    pub description: Option<String>,
    pub latest: Option<String>,
    pub license: Option<String>,
    pub homepage: Option<String>,
    /// The address of the repository object, when it has one.
    pub repository_url: Option<String>,
}

/// The buttons of an npm package: its homepage, and its repository when that has an
/// address the bot links to.
pub open spec fn npm_links(info: NpmPackage) -> Seq<(Seq<char>, Seq<char>)> {
    opt_link("Homepage"@, info.homepage) + match info.repository_url {
        Some(u) => if starts_with_spec(u@, "http://"@) || starts_with_spec(u@, "https://"@) {
            seq![("Repository"@, u@)]
        } else {
            Seq::empty()
        },
        None => Seq::empty(),
    }
}

/// The reply describing an npm package.
pub fn npm_reply(package_name: &str, info: &NpmPackage) -> (r: LookupReply)
    ensures
        r.embed.style == EmbedStyle::Primary,
        r.embed.title@ == "Package "@ + package_name@,
        r.embed.description is Some,
        r.embed.description.unwrap()@ == text_or(info.description, "No description available"@),
        field_views(r.embed.fields@) == seq![
            FieldView { name: "Latest Version"@, value: text_or(info.latest, "Unknown"@), inline: true },
            FieldView { name: "License"@, value: text_or(info.license, "Unknown"@), inline: true },
        ],
        no_extras(r.embed),
        link_views(r.buttons@) == npm_links(*info),
{
    let mut fields: Vec<Field> = Vec::new();
    fields.push(field("Latest Version", text_or_default(&info.latest, "Unknown"), true));
    fields.push(field("License", text_or_default(&info.license, "Unknown"), true));
    let mut buttons: Vec<LinkComponent> = Vec::new();
    assert(link_views(buttons@) =~= Seq::empty());
    push_link(&mut buttons, "Homepage", &info.homepage);
    match &info.repository_url {
        Some(u) => {
            if linkable_repository(u.as_str()) {
                let ghost before = link_views(buttons@);
                buttons.push(LinkComponent { name: owned("Repository"), url: u.clone() });
                assert(link_views(buttons@) =~= before + seq![("Repository"@, u@)]);
            }
        },
        None => {},
    }
    assert(link_views(buttons@) =~= npm_links(*info));
    let mut title = owned("Package ");
    push_str(&mut title, package_name);
    LookupReply {
        embed: simple_embed(
            EmbedStyle::Primary,
            title,
            Some(text_or_default(&info.description, "No description available")),
            fields,
        ),
        buttons,
    }
}

/// What the GitHub API says about a repository or a user.
#[derive(Debug, Clone)]
pub enum GithubInfo {
    Repository {
        owner_avatar_url: Option<String>,
        description: Option<String>,
        language: Option<String>,
        stars: Option<u64>,
        forks: Option<u64>,
        html_url: Option<String>,
    },
    User {
        avatar_url: Option<String>,
        bio: Option<String>,
        followers: Option<u64>,
        following: Option<u64>,
        public_repos: Option<u64>,
        html_url: Option<String>,
    },
}

/// The title, thumbnail, description and fields of the reply about `name`.
pub open spec fn github_embed_spec(name: Seq<char>, info: GithubInfo) -> (Seq<char>, Seq<char>, Seq<char>, Seq<FieldView>) {
    match info {
        GithubInfo::Repository { owner_avatar_url, description, language, stars, forks, .. } => (
            "GitHub Repository: "@ + name,
            text_or(owner_avatar_url, ""@),
            text_or(description, "No description available"@),
            seq![
                FieldView { name: "Language"@, value: text_or(language, "Unknown"@), inline: true },
                FieldView { name: "Stars"@, value: count_text(stars), inline: true },
                FieldView { name: "Forks"@, value: count_text(forks), inline: true },
            ],
        ),
        GithubInfo::User { avatar_url, bio, followers, following, public_repos, .. } => (
            "GitHub User: "@ + name,
            text_or(avatar_url, ""@),
            text_or(bio, "No bio available"@),
            seq![
                FieldView { name: "Followers"@, value: count_text(followers), inline: true },
                FieldView { name: "Following"@, value: count_text(following), inline: true },
                FieldView { name: "Public Repos"@, value: count_text(public_repos), inline: true },
            ],
        ),
    }
}

/// The button of the reply: the profile's page, when known.
pub open spec fn github_links(info: GithubInfo) -> Seq<(Seq<char>, Seq<char>)> {
    match info {
        GithubInfo::Repository { html_url, .. } => opt_link("Repository URL"@, html_url),
        GithubInfo::User { html_url, .. } => opt_link("User URL"@, html_url),
    }
}

/// The reply describing a GitHub repository or user named `name`.
pub fn github_reply(name: &str, info: &GithubInfo) -> (r: LookupReply)
    ensures
        r.embed.style == EmbedStyle::Primary,
        r.embed.title@ == github_embed_spec(name@, *info).0,
        r.embed.thumbnail is Some,
        r.embed.thumbnail.unwrap()@ == github_embed_spec(name@, *info).1,
        r.embed.url is None && r.embed.image is None && r.embed.author is None && r.embed.footer is None,
        r.embed.description is Some,
        r.embed.description.unwrap()@ == github_embed_spec(name@, *info).2,
        field_views(r.embed.fields@) == github_embed_spec(name@, *info).3,
        link_views(r.buttons@) == github_links(*info),
{
    let mut buttons: Vec<LinkComponent> = Vec::new();
    assert(link_views(buttons@) =~= Seq::empty());
    let mut fields: Vec<Field> = Vec::new();
    let (title, thumbnail, description) = match info {
        GithubInfo::Repository { owner_avatar_url, description, language, stars, forks, html_url } => {
            fields.push(field("Language", text_or_default(language, "Unknown"), true));
            fields.push(field("Stars", count_string(*stars), true));
            fields.push(field("Forks", count_string(*forks), true));
            push_link(&mut buttons, "Repository URL", html_url);
            (
                titled("GitHub Repository:", name),
                text_or_default(owner_avatar_url, ""),
                text_or_default(description, "No description available"),
            )
        },
        GithubInfo::User { avatar_url, bio, followers, following, public_repos, html_url } => {
            fields.push(field("Followers", count_string(*followers), true));
            fields.push(field("Following", count_string(*following), true));
            fields.push(field("Public Repos", count_string(*public_repos), true));
            push_link(&mut buttons, "User URL", html_url);
            (
                titled("GitHub User:", name),
                text_or_default(avatar_url, ""),
                text_or_default(bio, "No bio available"),
            )
        },
    };
    proof {
        reveal_strlit("GitHub Repository:");
        reveal_strlit("GitHub Repository: ");
        reveal_strlit("GitHub User:");
        reveal_strlit("GitHub User: ");
    }
    assert(field_views(fields@) =~= github_embed_spec(name@, *info).3);
    assert(title@ =~= github_embed_spec(name@, *info).0);
    let mut embed = simple_embed(EmbedStyle::Primary, title, Some(description), fields);
    embed.thumbnail = Some(thumbnail);
    LookupReply { embed, buttons }
}

} // verus!

verus! {

/// What the bot shows about a guild.
#[derive(Debug, Clone)]
pub struct GuildSummary {
    pub name: String,
    pub id: u64,
    pub description: Option<String>,
    pub owner_id: u64,
    pub features: Vec<String>,
    pub icon_url: Option<String>,
    pub banner_url: Option<String>,
    pub splash_url: Option<String>,
    /// The hash of the discovery splash image.
    pub discovery_splash: Option<String>,
}

/// The picture of a guild's embed: its banner, else its splash, else its discovery
/// splash.
pub open spec fn guild_image(g: GuildSummary) -> Option<Seq<char>> {
    match g.banner_url {
        Some(b) => Some(b@),
        None => match g.splash_url {
            Some(s) => Some(s@),
            None => match g.discovery_splash {
                Some(h) => Some(
                    "https://cdn.discordapp.com/discovery-splashes/"@ + dec_digits(g.id as nat) + seq!['/'] + h@ + ".png"@,
                ),
                None => None,
            },
        },
    }
}

/// The embed describing a guild.
pub fn guild_embed(g: &GuildSummary) -> (r: EmbedContent)
    ensures
        r.style == EmbedStyle::Primary,
        r.title@ == g.name@ + " (`"@ + dec_digits(g.id as nat) + "`)"@,
        r.description is Some && r.description.unwrap()@ == text_or(g.description, "No description"@),
        field_views(r.fields@) == seq![
            FieldView {
                name: "Owner"@,
                value: "<@"@ + dec_digits(g.owner_id as nat) + ">\n`"@ + dec_digits(g.owner_id as nat) + seq!['`'],
                inline: true,
            },
            FieldView { name: "Features"@, value: join_spec(texts(g.features@), ", "@), inline: false },
        ],
        opt_view(r.thumbnail) == opt_view(g.icon_url),
        opt_view(r.image) == guild_image(*g),
        r.url is None && r.author is None && r.footer is None,
{
    let mut title = g.name.clone();
    push_str(&mut title, " (`");
    push_dec(&mut title, g.id);
    push_str(&mut title, "`)");
    let mut owner = owned("<@");
    push_dec(&mut owner, g.owner_id);
    push_str(&mut owner, ">\n`");
    push_dec(&mut owner, g.owner_id);
    push_char(&mut owner, '`');
    assert(owner@ =~= "<@"@ + dec_digits(g.owner_id as nat) + ">\n`"@ + dec_digits(g.owner_id as nat) + seq!['`']);
    let mut fields = Vec::new();
    fields.push(field("Owner", owner, true));
    fields.push(field("Features", join(&g.features, ", "), false));
    assert(field_views(fields@) =~= seq![
        FieldView {
            name: "Owner"@,
            value: "<@"@ + dec_digits(g.owner_id as nat) + ">\n`"@ + dec_digits(g.owner_id as nat) + seq!['`'],
            inline: true,
        },
        FieldView { name: "Features"@, value: join_spec(texts(g.features@), ", "@), inline: false },
    ]);
    let mut r = simple_embed(
        EmbedStyle::Primary,
        title,
        Some(text_or_default(&g.description, "No description")),
        fields,
    );
    r.thumbnail = g.icon_url.clone();
    r.image = match &g.banner_url {
        Some(b) => Some(b.clone()),
        None => match &g.splash_url {
            Some(sp) => Some(sp.clone()),
            None => match &g.discovery_splash {
                Some(h) => {
                    let mut u = owned("https://cdn.discordapp.com/discovery-splashes/");
                    push_dec(&mut u, g.id);
                    push_char(&mut u, '/');
                    push_str(&mut u, h.as_str());
                    push_str(&mut u, ".png");
                    Some(u)
                },
                None => None,
            },
        },
    };
    r
}

/// The guild an invite leads to.
#[derive(Debug, Clone)]
pub struct InviteGuild {
    pub id: u64,
    pub name: String,
    pub description: Option<String>,
    /// The hash of the guild's icon.
    pub icon: Option<String>,
    pub features: Vec<String>,
}

/// What the bot shows about an invite.
#[derive(Debug, Clone)]
pub struct InviteSummary {
    pub code: String,
    pub channel_name: String,
    pub channel_id: u64,
    /// The inviter's name and id.
    pub inviter: Option<(String, u64)>,
    /// When the invite expires, in Unix seconds.
    pub expires_at: Option<i64>,
    pub member_count: Option<u64>,
    pub presence_count: Option<u64>,
    pub guild: Option<InviteGuild>,
}

/// `{name}\n{id}`.
pub open spec fn name_and_id(name: Seq<char>, id: u64) -> Seq<char> {
    name + seq!['\n'] + dec_digits(id as nat)
}

/// The fields of an invite's embed, in order.
pub open spec fn invite_fields(i: InviteSummary) -> Seq<FieldView> {
    seq![FieldView { name: "Channel"@, value: name_and_id(i.channel_name@, i.channel_id), inline: true }]
        + match i.inviter {
        Some((n, id)) => seq![FieldView { name: "Inviter"@, value: name_and_id(n@, id), inline: true }],
        None => Seq::empty(),
    } + match i.expires_at {
        Some(t) => seq![FieldView { name: "Expires at"@, value: "<t:"@ + dec_signed(t as int) + seq!['>'], inline: true }],
        None => Seq::empty(),
    } + match i.member_count {
        Some(n) => seq![FieldView { name: "Approx Member Count"@, value: dec_digits(n as nat) + " members"@, inline: true }],
        None => Seq::empty(),
    } + match i.presence_count {
        Some(n) => seq![FieldView { name: "Approx Online Count"@, value: dec_digits(n as nat) + " members"@, inline: true }],
        None => Seq::empty(),
    } + match i.guild {
        Some(g) => seq![FieldView { name: "Features"@, value: join_spec(texts(g.features@), ", "@), inline: false }],
        None => Seq::empty(),
    }
}

fn push_field(fields: &mut Vec<Field>, f: Field)
    ensures
        field_views(final(fields)@) == field_views(old(fields)@) + seq![f@],
{
    let ghost before = field_views(fields@);
    let ghost fv = f@;
    fields.push(f);
    assert(field_views(fields@) =~= before + seq![fv]);
}

fn count_members(n: u64) -> (r: String)
    ensures
        r@ == dec_digits(n as nat) + " members"@,
{
    let mut r = String::new();
    push_dec(&mut r, n);
    push_str(&mut r, " members");
    r
}

fn name_id_text(name: &str, id: u64) -> (r: String)
    ensures
        r@ == name_and_id(name@, id),
{
    let mut r = owned(name);
    push_char(&mut r, '\n');
    push_dec(&mut r, id);
    r
}

/// The embed describing an invite.
pub fn invite_embed(i: &InviteSummary) -> (r: EmbedContent)
    ensures
        r.style == EmbedStyle::Primary,
        r.title@ == "Invite `"@ + i.code@ + seq!['`'],
        field_views(r.fields@) == invite_fields(*i),
        match i.guild {
            Some(g) => {
                &&& r.description is Some
                &&& r.description.unwrap()@ == "**"@ + g.name@ + "**\n"@ + text_or(g.description, "No description"@)
                &&& match g.icon {
                    Some(h) => r.thumbnail is Some && r.thumbnail.unwrap()@ == "https://cdn.discordapp.com/icons/"@
                        + dec_digits(g.id as nat) + seq!['/'] + h@ + ".png"@,
                    None => r.thumbnail is None,
                }
            },
            None => r.description is None && r.thumbnail is None,
        },
        r.url is None && r.image is None && r.author is None && r.footer is None,
{
    let mut title = owned("Invite `");
    push_str(&mut title, i.code.as_str());
    push_char(&mut title, '`');
    let mut fields: Vec<Field> = Vec::new();
    fields.push(field("Channel", name_id_text(i.channel_name.as_str(), i.channel_id), true));
    let ghost f0 = field_views(fields@);
    match &i.inviter {
        Some((n, id)) => push_field(&mut fields, field("Inviter", name_id_text(n.as_str(), *id), true)),
        None => {},
    }
    let ghost f1 = field_views(fields@);
    match i.expires_at {
        Some(t) => {
            let mut v = owned("<t:");
            push_dec_signed(&mut v, t);
            push_char(&mut v, '>');
            assert(v@ =~= "<t:"@ + dec_signed(t as int) + seq!['>']);
            push_field(&mut fields, field("Expires at", v, true));
        },
        None => {},
    }
    let ghost f2 = field_views(fields@);
    match i.member_count {
        Some(n) => push_field(&mut fields, field("Approx Member Count", count_members(n), true)),
        None => {},
    }
    let ghost f3 = field_views(fields@);
    match i.presence_count {
        Some(n) => push_field(&mut fields, field("Approx Online Count", count_members(n), true)),
        None => {},
    }
    let ghost f4 = field_views(fields@);
    let mut description: Option<String> = None;
    let mut thumbnail: Option<String> = None;
    match &i.guild {
        Some(g) => {
            let mut d = owned("**");
            push_str(&mut d, g.name.as_str());
            push_str(&mut d, "**\n");
            let rest = text_or_default(&g.description, "No description");
            push_str(&mut d, rest.as_str());
            description = Some(d);
            match &g.icon {
                Some(h) => {
                    let mut u = owned("https://cdn.discordapp.com/icons/");
                    push_dec(&mut u, g.id);
                    push_char(&mut u, '/');
                    push_str(&mut u, h.as_str());
                    push_str(&mut u, ".png");
                    thumbnail = Some(u);
                },
                None => {},
            }
            push_field(&mut fields, field("Features", join(&g.features, ", "), false));
        },
        None => {},
    }
    proof {
        let iv = *i;
        assert(f0 =~= seq![FieldView { name: "Channel"@, value: name_and_id(iv.channel_name@, iv.channel_id), inline: true }]);
        let p1 = match iv.inviter {
            Some((n, id)) => seq![FieldView { name: "Inviter"@, value: name_and_id(n@, id), inline: true }],
            None => Seq::<FieldView>::empty(),
        };
        let p2 = match iv.expires_at {
            Some(t) => seq![FieldView { name: "Expires at"@, value: "<t:"@ + dec_signed(t as int) + seq!['>'], inline: true }],
            None => Seq::<FieldView>::empty(),
        };
        let p3 = match iv.member_count {
            Some(n) => seq![FieldView { name: "Approx Member Count"@, value: dec_digits(n as nat) + " members"@, inline: true }],
            None => Seq::<FieldView>::empty(),
        };
        let p4 = match iv.presence_count {
            Some(n) => seq![FieldView { name: "Approx Online Count"@, value: dec_digits(n as nat) + " members"@, inline: true }],
            None => Seq::<FieldView>::empty(),
        };
        let p5 = match iv.guild {
            Some(g) => seq![FieldView { name: "Features"@, value: join_spec(texts(g.features@), ", "@), inline: false }],
            None => Seq::<FieldView>::empty(),
        };
        assert(f1 =~= f0 + p1);
        assert(f2 =~= f1 + p2);
        assert(f3 =~= f2 + p3);
        assert(f4 =~= f3 + p4);
        assert(field_views(fields@) =~= f4 + p5);
        assert(field_views(fields@) =~= invite_fields(iv));
    }
    let mut r = simple_embed(EmbedStyle::Primary, title, description, fields);
    r.thumbnail = thumbnail;
    r
}

/// The embed answering an invite that cannot be fetched.
pub fn invite_error_embed(error: String) -> (r: EmbedContent)
    ensures
        r.style == EmbedStyle::Error,
        r.title@ == "Cannot get invite!"@,
        r.description is Some && r.description.unwrap()@ == error@,
        r.fields@.len() == 0,
        no_extras(r),
{
    simple_embed(EmbedStyle::Error, owned("Cannot get invite!"), Some(error), Vec::new())
}

} // verus!

verus! {

/// What the bot shows about a member.
#[derive(Debug, Clone)]
pub struct UserSummary {
    pub display_name: String,
    pub tag: String,
    pub id: u64,
    pub avatar_url: Option<String>,
    pub bot: bool,
    pub system: bool,
    pub mention: String,
    /// When the account was created, in Unix seconds.
    pub created_at: i64,
    /// When the member joined the guild, in Unix seconds.
    pub joined_at: i64,
    /// Since when the member boosts the guild, in Unix seconds.
    pub premium_since: Option<i64>,
    pub guild_flags: Vec<String>,
    pub public_flags: Vec<String>,
    pub role_mentions: Vec<String>,
}

/// `<t:{t}>`: a timestamp Discord shows in the reader's time zone.
pub open spec fn timestamp_text(t: i64) -> Seq<char> {
    "<t:"@ + dec_signed(t as int) + seq!['>']
}

fn timestamp_string(t: i64) -> (r: String)
    ensures
        r@ == timestamp_text(t),
{
    let mut r = owned("<t:");
    push_dec_signed(&mut r, t);
    push_char(&mut r, '>');
    r
}

fn bool_string(b: bool) -> (r: String)
    ensures
        r@ == (if b { "true"@ } else { "false"@ }),
{
    if b {
        owned("true")
    } else {
        owned("false")
    }
}

/// The fields of a member's embed.
pub open spec fn user_fields(u: UserSummary) -> Seq<FieldView> {
    seq![
        FieldView { name: "Bot"@, value: if u.bot { "true"@ } else { "false"@ }, inline: true },
        FieldView { name: "System"@, value: if u.system { "true"@ } else { "false"@ }, inline: true },
        FieldView { name: "Mention"@, value: u.mention@, inline: true },
        FieldView { name: "Created at"@, value: timestamp_text(u.created_at), inline: true },
        FieldView { name: "Joined at"@, value: timestamp_text(u.joined_at), inline: true },
        FieldView {
            name: "Boosting since"@,
            value: match u.premium_since {
                Some(t) => timestamp_text(t),
                None => "Not boosting"@,
            },
            inline: true,
        },
        FieldView { name: "Guild Flags"@, value: join_spec(texts(u.guild_flags@), ", "@), inline: false },
        FieldView { name: "Public Flags"@, value: join_spec(texts(u.public_flags@), ", "@), inline: false },
        FieldView { name: "Roles"@, value: join_spec(texts(u.role_mentions@), ", "@), inline: false },
    ]
}

/// The embed describing a member.
pub fn user_embed(u: &UserSummary) -> (r: EmbedContent)
    ensures
        r.style == EmbedStyle::Plain,
        r.title@ == u.display_name@ + " ("@ + u.tag@ + ", `"@ + dec_digits(u.id as nat) + "`)"@,
        r.description is None,
        r.thumbnail is Some && r.thumbnail.unwrap()@ == text_or(u.avatar_url, ""@),
        field_views(r.fields@) == user_fields(*u),
        r.url is None && r.image is None && r.author is None && r.footer is None,
{
    let mut title = u.display_name.clone();
    push_str(&mut title, " (");
    push_str(&mut title, u.tag.as_str());
    push_str(&mut title, ", `");
    push_dec(&mut title, u.id);
    push_str(&mut title, "`)");
    let boosting = match u.premium_since {
        Some(t) => timestamp_string(t),
        None => owned("Not boosting"),
    };
    let mut fields = Vec::new();
    fields.push(field("Bot", bool_string(u.bot), true));
    fields.push(field("System", bool_string(u.system), true));
    fields.push(field("Mention", u.mention.clone(), true));
    fields.push(field("Created at", timestamp_string(u.created_at), true));
    fields.push(field("Joined at", timestamp_string(u.joined_at), true));
    fields.push(field("Boosting since", boosting, true));
    fields.push(field("Guild Flags", join(&u.guild_flags, ", "), false));
    fields.push(field("Public Flags", join(&u.public_flags, ", "), false));
    fields.push(field("Roles", join(&u.role_mentions, ", "), false));
    assert(field_views(fields@) =~= user_fields(*u));
    let mut r = simple_embed(EmbedStyle::Plain, title, None, fields);
    r.thumbnail = Some(text_or_default(&u.avatar_url, ""));
    r
}

/// The embed about the bot: who hosts it and which version of jUtils it runs.
pub fn about_embed(bot_name: String, description: String, avatar_url: String, hoster: u64, modified: bool, version: &str) -> (r: EmbedContent)
    ensures
        r.style == EmbedStyle::Primary,
        r.title@ == bot_name@,
        r.description is Some && r.description.unwrap()@ == description@,
        r.thumbnail is Some && r.thumbnail.unwrap()@ == avatar_url@,
        field_views(r.fields@) == seq![
            FieldView { name: "Hosted by"@, value: "<@"@ + dec_digits(hoster as nat) + seq!['>'], inline: true },
            FieldView {
                name: "Using"@ + (if modified { " modified "@ } else { " "@ }) + "jUtils"@,
                value: "version "@ + version@ + "\nby jbcarreon123"@,
                inline: true,
            },
        ],
        r.url is None && r.image is None && r.author is None && r.footer is None,
{
    let mut hosted = owned("<@");
    push_dec(&mut hosted, hoster);
    push_char(&mut hosted, '>');
    let mut using = owned("Using");
    if modified {
        push_str(&mut using, " modified ");
    } else {
        push_str(&mut using, " ");
    }
    push_str(&mut using, "jUtils");
    let mut value = owned("version ");
    push_str(&mut value, version);
    push_str(&mut value, "\nby jbcarreon123");
    assert(hosted@ =~= "<@"@ + dec_digits(hoster as nat) + seq!['>']);
    assert(using@ =~= "Using"@ + (if modified { " modified "@ } else { " "@ }) + "jUtils"@);
    assert(value@ =~= "version "@ + version@ + "\nby jbcarreon123"@);
    let mut fields = Vec::new();
    fields.push(field("Hosted by", hosted, true));
    fields.push(Field { name: using, value, inline: true });
    assert(field_views(fields@) =~= seq![
        FieldView { name: "Hosted by"@, value: "<@"@ + dec_digits(hoster as nat) + seq!['>'], inline: true },
        FieldView {
            name: "Using"@ + (if modified { " modified "@ } else { " "@ }) + "jUtils"@,
            value: "version "@ + version@ + "\nby jbcarreon123"@,
            inline: true,
        },
    ]);
    let mut r = simple_embed(EmbedStyle::Primary, bot_name, Some(description), fields);
    r.thumbnail = Some(avatar_url);
    r
}

} // verus!
