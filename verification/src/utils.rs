//! Helpers shared by the commands: help pages, time and number formats, moderation
//! checks and leveling support.

pub mod command_utils;
pub mod embed_utils;
pub mod leveling;
pub mod time_utils;
pub mod utils;

pub use embed_utils::chunk;
pub use time_utils::format_duration;
pub use command_utils::get_command;
pub use command_utils::get_fmt_params;
pub use utils::compare_roles;
pub use utils::generate_id;

use vstd::prelude::*;
use crate::send::Field;
use crate::text::{owned, push_str};
use crate::utils::command_utils::CommandInfo;
use crate::utils::embed_utils::{chunks_of, field_views, help_fields, help_pages, help_prefix};

verus! {

/// The help pages of the paginated help menu: twenty-five commands per page.
pub fn get_all_commands_as_embedfields(commands: &Vec<CommandInfo>, ctx_prefix: &str, configured_prefix: &str) -> (r: Vec<Vec<Field>>)
    ensures
        r@.map_values(|c: Vec<Field>| field_views(c@)) == chunks_of(
            help_fields(commands@, help_prefix(ctx_prefix@, configured_prefix@)),
            25,
        ),
{
    help_pages(commands, ctx_prefix, configured_prefix, 25)
}

/// The address a package's information is fetched from: `{base_url}{package_name}{suffix}`.
pub fn package_info_url(base_url: &str, package_name: &str, suffix: &str) -> (r: String)
    ensures
        r@ == base_url@ + package_name@ + suffix@,
{
    let mut r = owned(base_url);
    push_str(&mut r, package_name);
    push_str(&mut r, suffix);
    r
}

} // verus!
