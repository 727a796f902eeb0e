//! Messages the bot owner has the bot send on its behalf.

use vstd::prelude::*;
use crate::utils::command_utils::{text_or, EmbedContent, EmbedStyle};
use crate::utils::embed_utils::{field_views, flatten_spec};

verus! {

/// One field of an embed.
#[derive(Debug, Clone)]
pub struct Field {
    pub name: String,
    pub value: String,
    pub inline: bool,
}

/// A field as the contracts see it.
pub struct FieldView {
    pub name: Seq<char>,
    pub value: Seq<char>,
    pub inline: bool,
}

impl View for Field {
    type V = FieldView;

    open spec fn view(&self) -> FieldView {
        FieldView { name: self.name@, value: self.value@, inline: self.inline }
    }
}

/// The embed of a message to send.
#[derive(Debug, Clone)]
pub struct Embed {
    pub title: String,
    pub description: String,
    pub url: Option<String>,
    pub thumbnail: Option<String>,
    pub image: Option<String>,
    pub fields: Vec<Field>,
}

/// A link button of a message to send.
#[derive(Debug, Clone)]
pub struct LinkComponent {
    pub name: String,
    pub url: String,
}

/// A message to send in a channel of a guild.
#[derive(Debug, Clone)]
pub struct MessageData {
    pub guild_id: u64,
    pub channel_id: u64,
    pub embed: Embed,
    pub link_components: Vec<LinkComponent>,
}

/// How the link buttons are laid out in rows: the first five share a row, every
/// later one gets a row of its own, and a last row holds what is left over (empty
/// once five buttons were placed).
pub open spec fn link_rows_spec<T>(links: Seq<T>) -> Seq<Seq<T>> {
    if links.len() < 5 {
        seq![links]
    } else {
        seq![links.subrange(0, 5)] + Seq::new((links.len() - 5) as nat, |i: int| seq![links[i + 5]])
            + seq![Seq::<T>::empty()]
    }
}

/// Lays out link buttons in rows as `link_rows_spec` describes.
pub fn link_rows<T>(links: Vec<T>) -> (r: Vec<Vec<T>>)
    ensures
        r@.map_values(|row: Vec<T>| row@) == link_rows_spec(links@),
{
    let ghost all = links@;
    let n = links.len();
    let mut rows: Vec<Vec<T>> = Vec::new();
    let mut btns: Vec<T> = Vec::new();
    let mut c: usize = 0;
    let mut rest = links;
    while rest.len() > 0
        invariant
            c + rest.len() == n,
            n == all.len(),
            rest@ == all.subrange(c as int, n as int),
            c < 5 ==> rows@.len() == 0 && btns@ == all.subrange(0, c as int),
            c >= 5 ==> btns@.len() == 0 && rows@.map_values(|row: Vec<T>| row@) == seq![all.subrange(0, 5)]
                + Seq::new((c - 5) as nat, |i: int| seq![all[i + 5]]),
        decreases rest.len(),
    {
        let ghost before_rows = rows@.map_values(|row: Vec<T>| row@);
        let ghost before_btns = btns@;
        let b = rest.remove(0);
        assert(b == all[c as int]);
        assert(rest@ =~= all.subrange(c + 1, n as int));
        c = c + 1;
        btns.push(b);
        if c >= 5 {
            let row = btns;
            btns = Vec::new();
            rows.push(row);
            if c == 5 {
                assert(before_btns.push(b) =~= all.subrange(0, 5));
                assert(rows@.map_values(|row: Vec<T>| row@) =~= seq![all.subrange(0, 5)]
                    + Seq::new((c - 5) as nat, |i: int| seq![all[i + 5]]));
            } else {
                assert(before_btns.push(b) =~= seq![all[c - 1]]);
                assert(rows@.map_values(|row: Vec<T>| row@) =~= before_rows.push(seq![all[c - 1]]));
                let ghost tail_old = Seq::new((c - 6) as nat, |i: int| seq![all[i + 5]]);
                let ghost tail_new = Seq::new((c - 5) as nat, |i: int| seq![all[i + 5]]);
                assert(tail_new =~= tail_old.push(seq![all[c - 1]]));
                assert(rows@.map_values(|row: Vec<T>| row@) =~= seq![all.subrange(0, 5)]
                    + Seq::new((c - 5) as nat, |i: int| seq![all[i + 5]]));
            }
        } else {
            assert(btns@ =~= all.subrange(0, c as int));
        }
    }
    let ghost before_rows = rows@.map_values(|row: Vec<T>| row@);
    let ghost last = btns@;
    rows.push(btns);
    proof {
        if n < 5 {
            assert(all.subrange(0, n as int) =~= all);
            assert(rows@.map_values(|row: Vec<T>| row@) =~= seq![all]);
        } else {
            assert(rows@.map_values(|row: Vec<T>| row@) =~= before_rows.push(last));
            assert(last =~= Seq::<T>::empty());
        }
    }
    rows
}

proof fn lemma_flatten_append<T>(a: Seq<Seq<T>>, b: Seq<Seq<T>>)
    ensures
        flatten_spec(a + b) == flatten_spec(a) + flatten_spec(b),
    decreases a.len(),
{
    if a.len() == 0 {
        assert(a + b =~= b);
        assert(flatten_spec(a) + flatten_spec(b) =~= flatten_spec(b));
    } else {
        lemma_flatten_append(a.drop_first(), b);
        assert((a + b).drop_first() =~= a.drop_first() + b);
        assert((a + b)[0] == a[0]);
        assert(flatten_spec(a + b) =~= a[0] + (flatten_spec(a.drop_first()) + flatten_spec(b)));
    }
}

spec fn singles<T>(s: Seq<T>, start: int, k: nat) -> Seq<Seq<T>> {
    Seq::new(k, |i: int| seq![s[start + i]])
}

proof fn lemma_flatten_singles<T>(s: Seq<T>, start: int, k: nat)
    requires
        0 <= start,
        start + k <= s.len(),
    ensures
        flatten_spec(singles(s, start, k)) == s.subrange(start, start + k),
    decreases k,
{
    if k == 0 {
        assert(singles(s, start, k) =~= Seq::<Seq<T>>::empty());
        assert(s.subrange(start, start + k) =~= Seq::<T>::empty());
    } else {
        lemma_flatten_singles(s, start + 1, (k - 1) as nat);
        assert(singles(s, start, k).drop_first() =~= singles(s, start + 1, (k - 1) as nat));
        assert(singles(s, start, k)[0] == seq![s[start]]);
        assert(s.subrange(start, start + k) =~= seq![s[start]] + s.subrange(start + 1, start + k));
    }
}

/// Laying out link buttons loses none and keeps their order, and no row holds more
/// than five buttons.
pub proof fn lemma_link_rows_keep_all<T>(links: Seq<T>)
    ensures
        flatten_spec(link_rows_spec(links)) == links,
        forall|i: int| 0 <= i < link_rows_spec(links).len() ==> #[trigger] link_rows_spec(links)[i].len() <= 5,
{
    let rows = link_rows_spec(links);
    if links.len() < 5 {
        assert(rows.drop_first() =~= Seq::<Seq<T>>::empty());
        assert(flatten_spec(rows.drop_first()) == Seq::<T>::empty());
        assert(rows[0] == links);
        assert(flatten_spec(rows) =~= links + Seq::<T>::empty());
    } else {
        let k = (links.len() - 5) as nat;
        let first = seq![links.subrange(0, 5)];
        let mid = Seq::new(k, |i: int| seq![links[i + 5]]);
        let last = seq![Seq::<T>::empty()];
        assert(mid =~= singles(links, 5, k));
        lemma_flatten_singles(links, 5, k);
        lemma_flatten_append(first, mid);
        lemma_flatten_append(first + mid, last);
        assert(first.drop_first() =~= Seq::<Seq<T>>::empty());
        assert(flatten_spec(first.drop_first()) == Seq::<T>::empty());
        assert(flatten_spec(first) =~= links.subrange(0, 5) + Seq::<T>::empty());
        assert(last.drop_first() =~= Seq::<Seq<T>>::empty());
        assert(flatten_spec(last.drop_first()) == Seq::<T>::empty());
        assert(flatten_spec(last) =~= Seq::<T>::empty() + Seq::<T>::empty());
        assert(links =~= links.subrange(0, 5) + links.subrange(5, 5 + k as int) + Seq::<T>::empty());
        assert forall|i: int| 0 <= i < rows.len() implies #[trigger] rows[i].len() <= 5 by {
            if 1 <= i < 1 + k {
                assert(rows[i] == mid[i - 1]);
            }
        }
    }
}

/// The embed sent for a message: plain, with the given title, description and fields,
/// and the link, picture and thumbnail set to the given ones (empty when missing).
pub fn message_embed(e: Embed) -> (r: EmbedContent)
    ensures
        r.style == EmbedStyle::Plain,
        r.title@ == e.title@,
        r.description is Some && r.description.unwrap()@ == e.description@,
        field_views(r.fields@) == field_views(e.fields@),
        r.url is Some && r.url.unwrap()@ == text_or(e.url, Seq::empty()),
        r.image is Some && r.image.unwrap()@ == text_or(e.image, Seq::empty()),
        r.thumbnail is Some && r.thumbnail.unwrap()@ == text_or(e.thumbnail, Seq::empty()),
        r.author is None && r.footer is None,
{
    let url = match e.url {
        Some(u) => u,
        None => String::new(),
    };
    let image = match e.image {
        Some(u) => u,
        None => String::new(),
    };
    let thumbnail = match e.thumbnail {
        Some(u) => u,
        None => String::new(),
    };
    EmbedContent {
        style: EmbedStyle::Plain,
        title: e.title,
        description: Some(e.description),
        fields: e.fields,
        url: Some(url),
        thumbnail: Some(thumbnail),
        image: Some(image),
        author: None,
        footer: None,
    }
}

} // verus!
