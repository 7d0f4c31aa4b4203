//! Minecraft text components, carried through the library as values of
//! `text_components::TextComponent`, and the trusted wrappers over the
//! constructors and checks of that crate that the library calls.

use text_components::translation::Translation;
use text_components::{Modifier, TextComponent};
use vstd::prelude::*;
use crate::snbt::snbt_parse_ends;

verus! {

/// Declares `text_components::TextComponent`; the library never looks
/// inside one.
#[verifier::external_type_specification]
#[verifier::external_body]
pub struct ExTextComponent(TextComponent);

/// What `TextComponent::plain` builds from a text: a component of that text
/// alone, with no children, formatting or interactions.
pub uninterp spec fn plain_component(text: Seq<char>) -> TextComponent;

/// What `TextComponent::from_snbt` gives for a text: `Some` of the parsed
/// component, or `None` where it reports an error.
pub uninterp spec fn snbt_component(text: Seq<char>) -> Option<TextComponent>;

/// Calls `TextComponent::plain` on `text`.
#[verifier::external_body]
pub(crate) fn text_plain(text: String) -> (c: TextComponent)
    ensures
        c == plain_component(text@),
{
    TextComponent::plain(text)
}

/// Calls `TextComponent::from_snbt` on `text`, keeping the component and
/// dropping the error. The parser does not return on some texts, and
/// panics on others (see [`snbt_parse_ends`]), so only texts it returns on
/// are handed to it.
#[verifier::external_body]
pub(crate) fn text_from_snbt(text: &str) -> (c: Option<TextComponent>)
    requires
        snbt_parse_ends(text@),
    ensures
        c == snbt_component(text@),
{
    TextComponent::from_snbt(text).ok()
}

/// Renders `c` with its `Display` impl (`to_string`). `Display` renders
/// through the process-wide resolver that
/// `text_components::fmt::set_display_resolutor` may install once, so the
/// text is not a function of `c` alone and nothing is stated of it.
#[verifier::external_body]
pub(crate) fn text_render(c: &TextComponent) -> String {
    c.to_string()
}
/// Calls the derived `Clone` of `TextComponent`, which copies every field.
#[verifier::external_body]
pub(crate) fn text_clone(c: &TextComponent) -> (r: TextComponent)
    ensures
        r == *c,
{
    c.clone()
}

/// What `Translation::message` followed by `TranslatedMessage::component`
/// builds: a component translating `key` with the arguments `args`.
pub uninterp spec fn translated_component(key: Seq<char>, args: Seq<TextComponent>) -> TextComponent;

/// What `Modifier::add_child` builds: `parent` with `child` appended to its
/// children.
pub uninterp spec fn with_child(parent: TextComponent, child: TextComponent) -> TextComponent;

/// Calls `Translation::<1>::message` with `arg` and turns the message into a
/// component.
#[verifier::external_body]
pub(crate) fn text_translated(key: &'static str, arg: TextComponent) -> (c: TextComponent)
    ensures
        c == translated_component(key@, seq![arg]),
{
    Translation::<1>(key).message([arg]).component()
}

/// Calls `Translation::<2>::message` with `a` and `b` and turns the message
/// into a component.
#[verifier::external_body]
pub(crate) fn text_translated2(key: &'static str, a: TextComponent, b: TextComponent) -> (c: TextComponent)
    ensures
        c == translated_component(key@, seq![a, b]),
{
    Translation::<2>(key).message([a, b]).component()
}

/// What `Translation::<0>::msg` followed by `TranslatedMessage::component`
/// builds: a component translating `key`, with no argument list.
pub uninterp spec fn bare_translated_component(key: Seq<char>) -> TextComponent;

/// Calls `Translation::<0>::msg` and turns the message into a component.
#[verifier::external_body]
pub(crate) fn text_translated_bare(key: &'static str) -> (c: TextComponent)
    ensures
        c == bare_translated_component(key@),
{
    Translation::<0>(key).msg().component()
}

/// Calls `Modifier::add_child`.
#[verifier::external_body]
pub(crate) fn text_add_child(parent: TextComponent, child: TextComponent) -> (c: TextComponent)
    ensures
        c == with_child(parent, child),
{
    parent.add_child(child)
}

} // verus!
