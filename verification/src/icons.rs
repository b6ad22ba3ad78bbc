//! Nerd Font glyphs used across the interface. Each is an [`Icon`]: the
//! glyph when icons are on, a plain-text fallback when they are off, and,
//! for most, a trailing separator space of its own, so that text following
//! an icon never keeps a gap when the icon disappears. Whether icons are on
//! is the caller's to say (the `[theme] icons` setting).
use vstd::prelude::*;
use crate::text::string_of;

verus! {

broadcast use vstd::string::group_string_axioms;

/// A glyph, its plain-text fallback, and whether a space follows it.
/// Decorative glyphs fall back to nothing; the selection arrow falls back
/// to `>`, since a plain-text list still needs a visible marker.
#[derive(Debug, Clone, Copy, PartialEq, Eq)]
pub struct Icon(pub char, pub &'static str, pub bool);

/// What an icon shows: its glyph when icons are on, else its fallback
/// (`None` when the fallback is empty).
pub open spec fn shown(icon: Icon, enabled: bool) -> Option<Seq<char>> {
    if enabled {
        Some(seq![icon.0])
    } else if icon.1@.len() == 0 {
        None
    } else {
        Some(icon.1@)
    }
}

/// The icon as printed in running text: what it shows, followed by its
/// separator space when it has one; nothing at all when nothing is shown.
pub open spec fn spec_text(icon: Icon, enabled: bool) -> Seq<char> {
    match shown(icon, enabled) {
        Some(t) => if icon.2 {
            t + seq![' ']
        } else {
            t
        },
        None => Seq::empty(),
    }
}

impl Icon {
    /// The glyph or fallback alone, with no separator space, for an icon
    /// that sits tight against surrounding syntax.
    pub fn bare(self, enabled: bool) -> (r: String)
        ensures
            r@ == if enabled {
                seq![self.0]
            } else {
                self.1@
            },
    {
        if enabled {
            let v = vec![self.0];
            string_of(&v)
        } else {
            let v = crate::text::chars_of(self.1);
            string_of(&v)
        }
    }

    /// The icon as printed in running text (see `spec_text`).
    pub fn text(self, enabled: bool) -> (r: String)
        ensures
            r@ == spec_text(self, enabled),
    {
        let mut v: Vec<char> = Vec::new();
        if enabled {
            v.push(self.0);
        } else {
            v = crate::text::chars_of(self.1);
        }
        if v.len() > 0 && self.2 {
            v.push(' ');
        }
        string_of(&v)
    }
}

/// Folder-open.
pub open spec fn spec_notebook() -> Icon {
    Icon('\u{f07c}', "", true)
}

/// Folder-open.
pub fn notebook() -> (i: Icon)
    ensures
        i == spec_notebook(),
{
    Icon('\u{f07c}', "", true)
}

/// File-text-o.
pub open spec fn spec_note() -> Icon {
    Icon('\u{f0f6}', "", true)
}

/// File-text-o.
pub fn note() -> (i: Icon)
    ensures
        i == spec_note(),
{
    Icon('\u{f0f6}', "", true)
}

/// Tag.
pub open spec fn spec_tag() -> Icon {
    Icon('\u{f02b}', "", true)
}

/// Tag.
pub fn tag() -> (i: Icon)
    ensures
        i == spec_tag(),
{
    Icon('\u{f02b}', "", true)
}

/// Search.
pub open spec fn spec_search() -> Icon {
    Icon('\u{f002}', "", true)
}

/// Search.
pub fn search() -> (i: Icon)
    ensures
        i == spec_search(),
{
    Icon('\u{f002}', "", true)
}

/// Calendar.
pub open spec fn spec_calendar() -> Icon {
    Icon('\u{f133}', "", true)
}

/// Calendar.
pub fn calendar() -> (i: Icon)
    ensures
        i == spec_calendar(),
{
    Icon('\u{f133}', "", true)
}

/// Code-fork.
pub open spec fn spec_git() -> Icon {
    Icon('\u{f126}', "", true)
}

/// Code-fork.
pub fn git() -> (i: Icon)
    ensures
        i == spec_git(),
{
    Icon('\u{f126}', "", true)
}

/// Check.
pub open spec fn spec_check() -> Icon {
    Icon('\u{f00c}', "", true)
}

/// Check.
pub fn check() -> (i: Icon)
    ensures
        i == spec_check(),
{
    Icon('\u{f00c}', "", true)
}

/// Exclamation-triangle.
pub open spec fn spec_warning() -> Icon {
    Icon('\u{f071}', "", true)
}

/// Exclamation-triangle.
pub fn warning() -> (i: Icon)
    ensures
        i == spec_warning(),
{
    Icon('\u{f071}', "", true)
}

/// Keyboard.
pub open spec fn spec_keyboard() -> Icon {
    Icon('\u{f11c}', "", true)
}

/// Keyboard.
pub fn keyboard() -> (i: Icon)
    ensures
        i == spec_keyboard(),
{
    Icon('\u{f11c}', "", true)
}

/// Eye.
pub open spec fn spec_eye() -> Icon {
    Icon('\u{f06e}', "", true)
}

/// Eye.
pub fn eye() -> (i: Icon)
    ensures
        i == spec_eye(),
{
    Icon('\u{f06e}', "", true)
}

/// Arrow-right, the list selection marker.
pub open spec fn spec_arrow() -> Icon {
    Icon('\u{f061}', ">", true)
}

/// Arrow-right, the list selection marker.
pub fn arrow() -> (i: Icon)
    ensures
        i == spec_arrow(),
{
    Icon('\u{f061}', ">", true)
}

/// Pencil, edit/rename.
pub open spec fn spec_pencil() -> Icon {
    Icon('\u{f040}', "", true)
}

/// Pencil, edit/rename.
pub fn pencil() -> (i: Icon)
    ensures
        i == spec_pencil(),
{
    Icon('\u{f040}', "", true)
}

/// Power-off, quit.
pub open spec fn spec_power() -> Icon {
    Icon('\u{f011}', "", true)
}

/// Power-off, quit.
pub fn power() -> (i: Icon)
    ensures
        i == spec_power(),
{
    Icon('\u{f011}', "", true)
}

/// Columns, panel focus.
pub open spec fn spec_columns() -> Icon {
    Icon('\u{f0db}', "", true)
}

/// Columns, panel focus.
pub fn columns() -> (i: Icon)
    ensures
        i == spec_columns(),
{
    Icon('\u{f0db}', "", true)
}

/// List-ul, logs.
pub open spec fn spec_list() -> Icon {
    Icon('\u{f03a}', "", true)
}

/// List-ul, logs.
pub fn list() -> (i: Icon)
    ensures
        i == spec_list(),
{
    Icon('\u{f03a}', "", true)
}

/// Clipboard, copy.
pub open spec fn spec_clipboard() -> Icon {
    Icon('\u{f0ea}', "", true)
}

/// Clipboard, copy.
pub fn clipboard() -> (i: Icon)
    ensures
        i == spec_clipboard(),
{
    Icon('\u{f0ea}', "", true)
}

/// Tree, notebook tree view.
pub open spec fn spec_tree() -> Icon {
    Icon('\u{f1bb}', "", true)
}

/// Tree, notebook tree view.
pub fn tree() -> (i: Icon)
    ensures
        i == spec_tree(),
{
    Icon('\u{f1bb}', "", true)
}

/// Download, behind the remote; tight against the count.
pub open spec fn spec_download() -> Icon {
    Icon('\u{f019}', "", false)
}

/// Download, behind the remote; tight against the count.
pub fn download() -> (i: Icon)
    ensures
        i == spec_download(),
{
    Icon('\u{f019}', "", false)
}

/// Upload, ahead of the remote; tight against the count.
pub open spec fn spec_upload() -> Icon {
    Icon('\u{f093}', "", false)
}

/// Upload, ahead of the remote; tight against the count.
pub fn upload() -> (i: Icon)
    ensures
        i == spec_upload(),
{
    Icon('\u{f093}', "", false)
}

/// History, versions and dates.
pub open spec fn spec_history() -> Icon {
    Icon('\u{f1da}', "", true)
}

/// History, versions and dates.
pub fn history() -> (i: Icon)
    ensures
        i == spec_history(),
{
    Icon('\u{f1da}', "", true)
}

/// Coffee.
pub open spec fn spec_coffee() -> Icon {
    Icon('\u{f0f4}', "", true)
}

/// Coffee.
pub fn coffee() -> (i: Icon)
    ensures
        i == spec_coffee(),
{
    Icon('\u{f0f4}', "", true)
}

/// Link, wikilinks and backlinks.
pub open spec fn spec_link() -> Icon {
    Icon('\u{f0c1}', "", true)
}

/// Link, wikilinks and backlinks.
pub fn link() -> (i: Icon)
    ensures
        i == spec_link(),
{
    Icon('\u{f0c1}', "", true)
}

/// Undo, restore from the trash.
pub open spec fn spec_undo() -> Icon {
    Icon('\u{f0e2}', "", true)
}

/// Undo, restore from the trash.
pub fn undo() -> (i: Icon)
    ensures
        i == spec_undo(),
{
    Icon('\u{f0e2}', "", true)
}

/// Gear, settings.
pub open spec fn spec_gear() -> Icon {
    Icon('\u{f013}', "", true)
}

/// Gear, settings.
pub fn gear() -> (i: Icon)
    ensures
        i == spec_gear(),
{
    Icon('\u{f013}', "", true)
}

/// Picture-o, an image.
pub open spec fn spec_image() -> Icon {
    Icon('\u{f03e}', "", true)
}

/// Picture-o, an image.
pub fn image() -> (i: Icon)
    ensures
        i == spec_image(),
{
    Icon('\u{f03e}', "", true)
}

/// File-pdf-o, publish to PDF.
pub open spec fn spec_pdf() -> Icon {
    Icon('\u{f1c1}', "", true)
}

/// File-pdf-o, publish to PDF.
pub fn pdf() -> (i: Icon)
    ensures
        i == spec_pdf(),
{
    Icon('\u{f1c1}', "", true)
}

/// Arrows-alt, zen mode.
pub open spec fn spec_expand() -> Icon {
    Icon('\u{f065}', "", true)
}

/// Arrows-alt, zen mode.
pub fn expand() -> (i: Icon)
    ensures
        i == spec_expand(),
{
    Icon('\u{f065}', "", true)
}

/// Repeat, recurring task.
pub open spec fn spec_repeat() -> Icon {
    Icon('\u{f01e}', "", true)
}

/// Repeat, recurring task.
pub fn repeat() -> (i: Icon)
    ensures
        i == spec_repeat(),
{
    Icon('\u{f01e}', "", true)
}

/// Filter, queries.
pub open spec fn spec_filter() -> Icon {
    Icon('\u{f0b0}', "", true)
}

/// Filter, queries.
pub fn filter() -> (i: Icon)
    ensures
        i == spec_filter(),
{
    Icon('\u{f0b0}', "", true)
}

/// Star, saved queries.
pub open spec fn spec_star() -> Icon {
    Icon('\u{f005}', "", true)
}

/// Star, saved queries.
pub fn star() -> (i: Icon)
    ensures
        i == spec_star(),
{
    Icon('\u{f005}', "", true)
}

} // verus!
