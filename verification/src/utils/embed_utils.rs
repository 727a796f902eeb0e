//! Building the fields of the bot's embeds.

use vstd::prelude::*;
use crate::send::{Field, FieldView};
use crate::text::{owned, push_char, push_str, starts_with, starts_with_spec};
use crate::utils::command_utils::{text_or, CommandInfo};

verus! {

/// `s` cut into consecutive pieces of `k` elements; the last one may be shorter.
pub open spec fn chunks_of<T>(s: Seq<T>, k: nat) -> Seq<Seq<T>>
    decreases s.len(),
{
    if s.len() == 0 || k == 0 {
        Seq::empty()
    } else if s.len() <= k {
        seq![s]
    } else {
        seq![s.subrange(0, k as int)] + chunks_of(s.subrange(k as int, s.len() as int), k)
    }
}

/// Concatenation of all the pieces.
pub open spec fn flatten_spec<T>(parts: Seq<Seq<T>>) -> Seq<T>
    decreases parts.len(),
{
    if parts.len() == 0 {
        Seq::empty()
    } else {
        parts[0] + flatten_spec(parts.drop_first())
    }
}

/// Splits `vec` into consecutive chunks of `chunk_size` elements (the last may be shorter).
pub fn chunk<T: Clone>(vec: Vec<T>, chunk_size: usize) -> (r: Vec<Vec<T>>)
    requires
        chunk_size > 0,
    ensures
        r@.map_values(|c: Vec<T>| c@) == chunks_of(vec@, chunk_size as nat),
{
    let ghost all = vec@;
    let mut rest = vec;
    let mut out: Vec<Vec<T>> = Vec::new();
    assert(out@.map_values(|c: Vec<T>| c@) + chunks_of(rest@, chunk_size as nat) =~= chunks_of(all, chunk_size as nat));
    while rest.len() > chunk_size
        invariant
            chunk_size > 0,
            out@.map_values(|c: Vec<T>| c@) + chunks_of(rest@, chunk_size as nat) == chunks_of(all, chunk_size as nat),
        decreases rest.len(),
    {
        let ghost before = out@.map_values(|c: Vec<T>| c@);
        let ghost r0 = rest@;
        let tail = rest.split_off(chunk_size);
        let head = rest;
        rest = tail;
        out.push(head);
        assert(out@.map_values(|c: Vec<T>| c@) =~= before.push(r0.subrange(0, chunk_size as int)));
        assert(chunks_of(r0, chunk_size as nat) == seq![r0.subrange(0, chunk_size as int)] + chunks_of(rest@, chunk_size as nat));
        assert(before.push(r0.subrange(0, chunk_size as int)) + chunks_of(rest@, chunk_size as nat) =~= before + chunks_of(r0, chunk_size as nat));
    }
    if rest.len() > 0 {
        let ghost before = out@.map_values(|c: Vec<T>| c@);
        let ghost last = rest@;
        out.push(rest);
        assert(out@.map_values(|c: Vec<T>| c@) =~= before + chunks_of(last, chunk_size as nat));
    } else {
        assert(out@.map_values(|c: Vec<T>| c@) =~= out@.map_values(|c: Vec<T>| c@) + chunks_of(rest@, chunk_size as nat));
    }
    out
}

/// Chunking loses nothing and reorders nothing: the chunks put back together give
/// back `s`, and every chunk holds between one and `k` elements.
pub proof fn lemma_chunks_flatten<T>(s: Seq<T>, k: nat)
    requires
        k > 0,
    ensures
        flatten_spec(chunks_of(s, k)) == s,
        forall|i: int| 0 <= i < chunks_of(s, k).len() ==> 0 < #[trigger] chunks_of(s, k)[i].len() <= k,
    decreases s.len(),
{
    if s.len() == 0 {
        assert(chunks_of(s, k) =~= Seq::<Seq<T>>::empty());
        assert(s =~= Seq::<T>::empty());
    } else if s.len() <= k {
        let c = chunks_of(s, k);
        assert(c.drop_first() =~= Seq::<Seq<T>>::empty());
        assert(c[0] == s);
        assert(flatten_spec(c.drop_first()) == Seq::<T>::empty());
        assert(flatten_spec(c) =~= s + Seq::<T>::empty());
    } else {
        let rest = s.subrange(k as int, s.len() as int);
        lemma_chunks_flatten(rest, k);
        let c = chunks_of(s, k);
        assert(c.drop_first() =~= chunks_of(rest, k));
        assert(s =~= s.subrange(0, k as int) + rest);
        assert forall|i: int| 0 <= i < c.len() implies 0 < #[trigger] c[i].len() <= k by {
            if i > 0 {
                assert(c[i] == chunks_of(rest, k)[i - 1]);
            }
        }
    }
}

/// The views of a list of fields.
pub open spec fn field_views(s: Seq<Field>) -> Seq<FieldView> {
    s.map_values(|f: Field| f@)
}

/// Chunking and taking views commute.
pub proof fn lemma_chunks_of_views(s: Seq<Field>, k: nat)
    requires
        k > 0,
    ensures
        chunks_of(field_views(s), k) == chunks_of(s, k).map_values(|c: Seq<Field>| field_views(c)),
    decreases s.len(),
{
    let v = field_views(s);
    if s.len() == 0 {
        assert(chunks_of(s, k).map_values(|c: Seq<Field>| field_views(c)) =~= Seq::<Seq<FieldView>>::empty());
    } else if s.len() <= k {
        assert(chunks_of(s, k).map_values(|c: Seq<Field>| field_views(c)) =~= seq![v]);
    } else {
        let rest = s.subrange(k as int, s.len() as int);
        lemma_chunks_of_views(rest, k);
        assert(v.subrange(k as int, v.len() as int) =~= field_views(rest));
        assert(v.subrange(0, k as int) =~= field_views(s.subrange(0, k as int)));
        assert(chunks_of(s, k).map_values(|c: Seq<Field>| field_views(c)) =~= seq![field_views(s.subrange(0, k as int))]
            + chunks_of(rest, k).map_values(|c: Seq<Field>| field_views(c)));
    }
}

/// The prefix shown in the help pages: the configured one when the command was
/// invoked by mentioning the bot.
pub open spec fn help_prefix(ctx_prefix: Seq<char>, configured: Seq<char>) -> Seq<char> {
    if starts_with_spec(ctx_prefix, "<@"@) { configured } else { ctx_prefix }
}

/// The field listing one command on a help page.
pub open spec fn help_field(c: CommandInfo, prefix: Seq<char>) -> FieldView {
    FieldView {
        name: prefix + c.name@,
        value: (match c.category {
            Some(cat) => "Category: "@ + cat@ + seq!['\n'],
            None => Seq::empty(),
        }) + text_or(c.description, "No description"@),
        inline: true,
    }
}

/// The fields of all commands that are not hidden from help, in order.
pub open spec fn help_fields(s: Seq<CommandInfo>, prefix: Seq<char>) -> Seq<FieldView>
    decreases s.len(),
{
    if s.len() == 0 {
        Seq::empty()
    } else if s.last().hide_in_help {
        help_fields(s.drop_last(), prefix)
    } else {
        help_fields(s.drop_last(), prefix).push(help_field(s.last(), prefix))
    }
}

/// The fields listing every command that is not hidden from help.
pub fn commands_as_fields(commands: &Vec<CommandInfo>, ctx_prefix: &str, configured_prefix: &str) -> (r: Vec<Field>)
    ensures
        field_views(r@) == help_fields(commands@, help_prefix(ctx_prefix@, configured_prefix@)),
{
    let pref = if starts_with(ctx_prefix, "<@") { owned(configured_prefix) } else { owned(ctx_prefix) };
    let ghost p = help_prefix(ctx_prefix@, configured_prefix@);
    let mut menu: Vec<Field> = Vec::new();
    let mut i: usize = 0;
    while i < commands.len()
        invariant
            i <= commands.len(),
            pref@ == p,
            field_views(menu@) == help_fields(commands@.subrange(0, i as int), p),
        decreases commands.len() - i,
    {
        assert(commands@.subrange(0, i + 1).drop_last() =~= commands@.subrange(0, i as int));
        let c = &commands[i];
        if !c.hide_in_help {
            let mut name = String::new();
            push_str(&mut name, pref.as_str());
            push_str(&mut name, c.name.as_str());
            let mut value = String::new();
            match &c.category {
                Some(cat) => {
                    push_str(&mut value, "Category: ");
                    push_str(&mut value, cat.as_str());
                    push_char(&mut value, '\n');
                },
                None => {},
            }
            assert(value@ =~= (match c.category {
                Some(cat) => "Category: "@ + cat@ + seq!['\n'],
                None => Seq::<char>::empty(),
            }));
            let ghost catpart = value@;
            match &c.description {
                Some(d) => push_str(&mut value, d.as_str()),
                None => push_str(&mut value, "No description"),
            }
            assert(value@ =~= catpart + text_or(c.description, "No description"@));
            assert(name@ =~= p + c.name@);
            let ghost before = field_views(menu@);
            let f = Field { name, value, inline: true };
            assert(f@ == help_field(*c, p));
            menu.push(f);
            assert(field_views(menu@) =~= before.push(help_field(*c, p)));
        }
        i += 1;
    }
    assert(commands@.subrange(0, commands.len() as int) =~= commands@);
    menu
}

/// Help pages of the commands that are not hidden, in chunks of `page_size` fields.
pub fn help_pages(commands: &Vec<CommandInfo>, ctx_prefix: &str, configured_prefix: &str, page_size: usize) -> (r: Vec<Vec<Field>>)
    requires
        page_size > 0,
    ensures
        r@.map_values(|c: Vec<Field>| field_views(c@)) == chunks_of(
            help_fields(commands@, help_prefix(ctx_prefix@, configured_prefix@)),
            page_size as nat,
        ),
{
    let menu = commands_as_fields(commands, ctx_prefix, configured_prefix);
    let ghost flat = menu@;
    let pages = chunk(menu, page_size);
    proof {
        lemma_chunks_of_views(flat, page_size as nat);
        assert(pages@.map_values(|c: Vec<Field>| field_views(c@)) =~= chunks_of(flat, page_size as nat).map_values(
            |c: Seq<Field>| field_views(c),
        ));
    }
    pages
}

/// The help pages as the help command shows them: nine commands per page.
pub fn get_all_commands_as_embedfields(commands: &Vec<CommandInfo>, ctx_prefix: &str, configured_prefix: &str) -> (r: Vec<Vec<Field>>)
    ensures
        r@.map_values(|c: Vec<Field>| field_views(c@)) == chunks_of(
            help_fields(commands@, help_prefix(ctx_prefix@, configured_prefix@)),
            9,
        ),
{
    help_pages(commands, ctx_prefix, configured_prefix, 9)
}

/// A named permission flag, as the permission set yields it.
#[derive(Debug, Clone)]
pub struct PermissionFlag {
    pub bits: u64,
    /// The names of the flag, separated by spaces.
    pub names: String,
}

/// The distinct categories (as given, `None` included) of the commands that are not
/// hidden, in order of first appearance.
pub open spec fn category_keys(s: Seq<CommandInfo>) -> Seq<Option<Seq<char>>>
    decreases s.len(),
{
    if s.len() == 0 {
        Seq::empty()
    } else {
        let prev = category_keys(s.drop_last());
        let k = category_key(s.last());
        if s.last().hide_in_help || prev.contains(k) { prev } else { prev.push(k) }
    }
}

/// The category of a command, as a key.
pub open spec fn category_key(c: CommandInfo) -> Option<Seq<char>> {
    match c.category {
        Some(x) => Some(x@),
        None => None,
    }
}

/// The name a category is listed under.
pub open spec fn category_label(k: Option<Seq<char>>) -> Seq<char> {
    match k {
        Some(c) => c,
        None => "No category"@,
    }
}

/// The permissions the bot needs for the commands listed under `label`.
pub open spec fn category_perms(s: Seq<CommandInfo>, label: Seq<char>) -> u64
    decreases s.len(),
{
    if s.len() == 0 {
        0
    } else {
        let c = s.last();
        let prev = category_perms(s.drop_last(), label);
        if !c.hide_in_help && text_or(c.category, "No category"@) == label {
            prev | c.required_bot_permissions
        } else {
            prev
        }
    }
}

/// One line per flag contained in `needed`: the check box when the bot has the flag,
/// the cross box otherwise, then the flag's names.
pub open spec fn permission_lines(flags: Seq<PermissionFlag>, needed: u64, granted: u64, check: Seq<char>, cross: Seq<char>) -> Seq<char>
    decreases flags.len(),
{
    if flags.len() == 0 {
        Seq::empty()
    } else {
        let f = flags.last();
        let prev = permission_lines(flags.drop_last(), needed, granted, check, cross);
        if f.bits & needed == f.bits {
            prev + (if f.bits & granted == f.bits { check } else { cross }) + seq![' '] + f.names@ + seq!['\n']
        } else {
            prev
        }
    }
}

/// The fields of the permissions page: per category (in order of first appearance),
/// the lines of the permissions its commands need, leaving out categories needing none.
pub open spec fn permission_fields(
    keys: Seq<Option<Seq<char>>>,
    s: Seq<CommandInfo>,
    flags: Seq<PermissionFlag>,
    granted: u64,
    check: Seq<char>,
    cross: Seq<char>,
) -> Seq<FieldView>
    decreases keys.len(),
{
    if keys.len() == 0 {
        Seq::empty()
    } else {
        let prev = permission_fields(keys.drop_last(), s, flags, granted, check, cross);
        let label = category_label(keys.last());
        let lines = permission_lines(flags, category_perms(s, label), granted, check, cross);
        if lines.len() == 0 { prev } else { prev.push(FieldView { name: label, value: lines, inline: true }) }
    }
}

fn option_text_eq(a: &Option<String>, b: &Option<String>) -> (r: bool)
    ensures
        r == ((match *a { Some(x) => Some(x@), None => None::<Seq<char>> }) == (match *b {
            Some(x) => Some(x@),
            None => None::<Seq<char>>,
        })),
{
    match (a, b) {
        (Some(x), Some(y)) => crate::text::same_text(x.as_str(), y.as_str()),
        (None, None) => true,
        _ => false,
    }
}

fn label_of(k: &Option<String>) -> (r: String)
    ensures
        r@ == text_or(*k, "No category"@),
{
    match k {
        Some(c) => c.clone(),
        None => owned("No category"),
    }
}

fn perms_of(commands: &Vec<CommandInfo>, label: &str) -> (r: u64)
    ensures
        r == category_perms(commands@, label@),
{
    let mut acc: u64 = 0;
    let mut i: usize = 0;
    while i < commands.len()
        invariant
            i <= commands.len(),
            acc == category_perms(commands@.subrange(0, i as int), label@),
        decreases commands.len() - i,
    {
        assert(commands@.subrange(0, i + 1).drop_last() =~= commands@.subrange(0, i as int));
        let c = &commands[i];
        if !c.hide_in_help {
            let name = label_of(&c.category);
            if crate::text::same_text(name.as_str(), label) {
                acc = acc | c.required_bot_permissions;
            }
        }
        i += 1;
    }
    assert(commands@.subrange(0, commands.len() as int) =~= commands@);
    acc
}

fn lines_of(flags: &Vec<PermissionFlag>, needed: u64, granted: u64, check_box: &str, cross_box: &str) -> (r: String)
    ensures
        r@ == permission_lines(flags@, needed, granted, check_box@, cross_box@),
{
    let mut r = String::new();
    let mut i: usize = 0;
    while i < flags.len()
        invariant
            i <= flags.len(),
            r@ == permission_lines(flags@.subrange(0, i as int), needed, granted, check_box@, cross_box@),
        decreases flags.len() - i,
    {
        assert(flags@.subrange(0, i + 1).drop_last() =~= flags@.subrange(0, i as int));
        let f = &flags[i];
        if f.bits & needed == f.bits {
            let ghost r0 = r@;
            if f.bits & granted == f.bits {
                push_str(&mut r, check_box);
            } else {
                push_str(&mut r, cross_box);
            }
            push_char(&mut r, ' ');
            push_str(&mut r, f.names.as_str());
            push_char(&mut r, '\n');
            assert(r@ =~= r0 + (if f.bits & granted == f.bits { check_box@ } else { cross_box@ }) + seq![' '] + f.names@ + seq!['\n']);
        }
        i += 1;
    }
    assert(flags@.subrange(0, flags.len() as int) =~= flags@);
    r
}

/// Views of optional strings.
pub open spec fn option_views(v: Seq<Option<String>>) -> Seq<Option<Seq<char>>> {
    v.map_values(|o: Option<String>| match o { Some(x) => Some(x@), None => None::<Seq<char>> })
}

fn keys_of(commands: &Vec<CommandInfo>) -> (r: Vec<Option<String>>)
    ensures
        option_views(r@) == category_keys(commands@),
{
    let mut keys: Vec<Option<String>> = Vec::new();
    let mut i: usize = 0;
    while i < commands.len()
        invariant
            i <= commands.len(),
            option_views(keys@) == category_keys(commands@.subrange(0, i as int)),
        decreases commands.len() - i,
    {
        assert(commands@.subrange(0, i + 1).drop_last() =~= commands@.subrange(0, i as int));
        let c = &commands[i];
        let ghost k = category_key(*c);
        if !c.hide_in_help {
            let mut seen = false;
            let mut j: usize = 0;
            while j < keys.len()
                invariant
                    j <= keys.len(),
                    k == category_key(*c),
                    seen == exists|m: int| 0 <= m < j && option_views(keys@)[m] == k,
                decreases keys.len() - j,
            {
                assert(option_views(keys@)[j as int] == (match keys@[j as int] {
                    Some(x) => Some(x@),
                    None => None::<Seq<char>>,
                }));
                assert(k == (match c.category {
                    Some(x) => Some(x@),
                    None => None::<Seq<char>>,
                }));
                let same = option_text_eq(&keys[j], &c.category);
                if same {
                    seen = true;
                }
                assert(seen == exists|m: int| 0 <= m < j + 1 && option_views(keys@)[m] == k) by {
                    if same {
                        assert(option_views(keys@)[j as int] == k);
                    }
                }
                j += 1;
            }
            if !seen {
                let ghost before = option_views(keys@);
                let copy = match &c.category {
                    Some(x) => Some(x.clone()),
                    None => None,
                };
                keys.push(copy);
                assert(option_views(keys@) =~= before.push(k));
            }
        }
        i += 1;
    }
    assert(commands@.subrange(0, commands.len() as int) =~= commands@);
    keys
}

/// The permissions page: one field per category of visible commands (in order of first
/// appearance), listing each permission flag those commands need the bot to have,
/// checked when the bot has it; categories needing none are left out.
pub fn get_perms_as_embedfields(
    commands: &Vec<CommandInfo>,
    bot_permissions: u64,
    flags: &Vec<PermissionFlag>,
    check_box: &str,
    cross_box: &str,
) -> (r: Vec<Field>)
    ensures
        field_views(r@) == permission_fields(category_keys(commands@), commands@, flags@, bot_permissions, check_box@, cross_box@),
{
    let keys = keys_of(commands);
    let ghost kv = option_views(keys@);
    let mut menu: Vec<Field> = Vec::new();
    let mut i: usize = 0;
    while i < keys.len()
        invariant
            i <= keys.len(),
            kv == option_views(keys@),
            field_views(menu@) == permission_fields(kv.subrange(0, i as int), commands@, flags@, bot_permissions, check_box@, cross_box@),
        decreases keys.len() - i,
    {
        assert(kv.subrange(0, i + 1).drop_last() =~= kv.subrange(0, i as int));
        let label = label_of(&keys[i]);
        assert(label@ == category_label(kv[i as int]));
        let needed = perms_of(commands, label.as_str());
        let lines = lines_of(flags, needed, bot_permissions, check_box, cross_box);
        if !lines.as_str().is_empty() {
            let ghost before = field_views(menu@);
            let f = Field { name: label, value: lines, inline: true };
            let ghost fv = f@;
            menu.push(f);
            assert(field_views(menu@) =~= before.push(fv));
        }
        i += 1;
    }
    assert(kv.subrange(0, keys.len() as int) =~= kv);
    menu
}

} // verus!
