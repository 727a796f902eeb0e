//! Replies to commands that failed.

use vstd::prelude::*;
use crate::send::FieldView;
use crate::text::{join, join_spec, lemma_split_nonempty, owned, push_char, push_str, split_char, split_spec, texts};
use crate::utils::command_utils::{field, no_extras, simple_embed, EmbedContent, EmbedStyle};
use crate::utils::embed_utils::field_views;

verus! {

/// The reply to an unknown command: its first word in backticks, then `: Unknown command`.
pub fn unknown_command_reply(msg_content: &str) -> (r: String)
    ensures
        r@ == seq!['`'] + split_spec(msg_content@, ' ')[0] + "`: Unknown command"@,
{
    let parts = split_char(msg_content, ' ');
    proof {
        lemma_split_nonempty(msg_content@, ' ');
        assert(texts(parts@)[0] == parts@[0]@);
    }
    let mut r = String::new();
    push_char(&mut r, '`');
    push_str(&mut r, parts[0].as_str());
    push_str(&mut r, "`: Unknown command");
    r
}

/// A failure of a command that the bot answers with an error embed.
#[derive(Debug, Clone)]
pub enum CommandFailure {
    /// The arguments could not be parsed; the parser's message.
    ArgumentParse(String),
    /// The command returned an error; its message.
    Command(String),
    /// The member lacks permissions the command requires; their names.
    MissingUserPermissions(Vec<String>),
    /// The command panicked.
    CommandPanic,
}

/// The title, description and fields of the reply to a failure.
pub open spec fn failure_spec(failure: CommandFailure) -> (Seq<char>, Option<Seq<char>>, Seq<FieldView>) {
    match failure {
        CommandFailure::ArgumentParse(m) => ("Argument parse error"@, Some(m@), Seq::empty()),
        CommandFailure::Command(m) => ("An error occured while running the command!"@, Some(m@), Seq::empty()),
        CommandFailure::MissingUserPermissions(names) => (
            "Access denied"@,
            Some("You don't have enough permissions to use this command!"@),
            seq![FieldView { name: "Required Permissions"@, value: join_spec(texts(names@), ", "@), inline: true }],
        ),
        CommandFailure::CommandPanic => ("A panic has occured while executing this command!"@, None, Seq::empty()),
    }
}

/// The error embed answering a failed command.
pub fn failure_reply(failure: CommandFailure) -> (r: EmbedContent)
    ensures
        r.style == EmbedStyle::Error,
        no_extras(r),
        r.title@ == failure_spec(failure).0,
        match failure_spec(failure).1 {
            Some(d) => r.description is Some && r.description.unwrap()@ == d,
            None => r.description is None,
        },
        field_views(r.fields@) == failure_spec(failure).2,
{
    let ghost spec = failure_spec(failure);
    match failure {
        CommandFailure::ArgumentParse(m) => {
            let r = simple_embed(EmbedStyle::Error, owned("Argument parse error"), Some(m), Vec::new());
            assert(field_views(r.fields@) =~= spec.2);
            r
        },
        CommandFailure::Command(m) => {
            let r = simple_embed(
                EmbedStyle::Error,
                owned("An error occured while running the command!"),
                Some(m),
                Vec::new(),
            );
            assert(field_views(r.fields@) =~= spec.2);
            r
        },
        CommandFailure::MissingUserPermissions(names) => {
            let mut fields = Vec::new();
            fields.push(field("Required Permissions", join(&names, ", "), true));
            let r = simple_embed(
                EmbedStyle::Error,
                owned("Access denied"),
                Some(owned("You don't have enough permissions to use this command!")),
                fields,
            );
            assert(field_views(r.fields@) =~= spec.2);
            r
        },
        CommandFailure::CommandPanic => {
            let r = simple_embed(
                EmbedStyle::Error,
                owned("A panic has occured while executing this command!"),
                None,
                Vec::new(),
            );
            assert(field_views(r.fields@) =~= spec.2);
            r
        },
    }
}

} // verus!
