//! Choices behind the rank card.

use vstd::prelude::*;
use crate::text::{contains_spec, contains_str, owned, push_str};
use crate::utils::command_utils::contains_text;

verus! {

/// The background of a rank card: an image to download or a plain colour.
#[derive(Debug, Clone, Copy)]
pub enum Background {
    Url(&'static str),
    Color([u8; 4]),
}

/// The colour of an `0xRRGGBB` accent as opaque RGBA.
pub fn to_rgba(colour: u32) -> (r: [u8; 4])
    ensures
        r[0] == (colour / 65536) % 256,
        r[1] == (colour / 256) % 256,
        r[2] == colour % 256,
        r[3] == 255,
{
    let red = (colour >> 16) & 0xFF;
    let green = (colour >> 8) & 0xFF;
    let blue = colour & 0xFF;
    assert(red == (colour / 65536) % 256) by (bit_vector)
        requires
            red == (colour >> 16) & 0xFF,
    ;
    assert(green == (colour / 256) % 256) by (bit_vector)
        requires
            green == (colour >> 8) & 0xFF,
    ;
    assert(blue == colour % 256) by (bit_vector)
        requires
            blue == colour & 0xFF,
    ;
    [red as u8, green as u8, blue as u8, 255]
}

/// Whether the card is rendered animated: animated cards are allowed, the member is
/// on the allowed list (an empty list, as when the setting is omitted, allows every
/// member), and the background is a link containing `.gif`.
pub open spec fn animated_card(allow_animated: bool, allowed: Seq<Seq<char>>, user: Seq<char>, background: Background) -> bool {
    &&& allow_animated
    &&& (allowed.len() == 0 || allowed.contains(user))
    &&& match background {
        Background::Url(url) => contains_spec(url@, ".gif"@),
        Background::Color(_) => false,
    }
}

/// Whether to render `user_id`'s card animated.
pub fn use_animated_card(allow_animated: bool, allowed_users: &Vec<String>, user_id: &str, background: &Background) -> (r: bool)
    ensures
        r == animated_card(allow_animated, crate::text::texts(allowed_users@), user_id@, *background),
{
    if !allow_animated {
        return false;
    }
    if allowed_users.len() > 0 {
        if !contains_text(allowed_users, user_id) {
            proof {
                if crate::text::texts(allowed_users@).contains(user_id@) {
                    let j = choose|j: int| 0 <= j < crate::text::texts(allowed_users@).len() && crate::text::texts(allowed_users@)[j] == user_id@;
                    assert(allowed_users@[j]@ == user_id@);
                }
            }
            return false;
        }
        proof {
            let j = choose|j: int| 0 <= j < allowed_users@.len() && #[trigger] allowed_users@[j]@ == user_id@;
            assert(crate::text::texts(allowed_users@)[j] == user_id@);
        }
    }
    match background {
        Background::Url(url) => contains_str(url, ".gif"),
        Background::Color(_) => false,
    }
}

/// Where the card of `user_id` is kept: `.leveling_temp/{user_id}.gif` or `.png`.
pub fn card_path(user_id: &str, animated: bool) -> (r: String)
    ensures
        r@ == ".leveling_temp/"@ + user_id@ + (if animated { ".gif"@ } else { ".png"@ }),
{
    let mut p = owned(".leveling_temp/");
    push_str(&mut p, user_id);
    if animated {
        push_str(&mut p, ".gif");
    } else {
        push_str(&mut p, ".png");
    }
    p
}

} // verus!
