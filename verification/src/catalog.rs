//! The emoji catalog: the fixed list of emoji that the index is built from.

use vstd::prelude::*;
use crate::text::word_views;

verus! {

/// One emoji of the catalog, as plain strings.
pub struct CatalogEntry {
    /// The emoji itself, as it is displayed and copied.
    pub glyph: &'static str,
    /// The canonical name.
    pub name: &'static str,
    /// The shortcode aliases, in catalog order; there may be none.
    pub shortcodes: Vec<&'static str>,
}

/// What a catalog entry holds, as character sequences.
pub struct EntryView {
    pub glyph: Seq<char>,
    pub name: Seq<char>,
    pub shortcodes: Seq<Seq<char>>,
}

impl View for CatalogEntry {
    type V = EntryView;

    open spec fn view(&self) -> EntryView {
        EntryView {
            glyph: self.glyph@,
            name: self.name@,
            shortcodes: word_views(self.shortcodes@),
        }
    }
}

/// What a catalog holds, entry by entry.
pub open spec fn entry_views(entries: Seq<CatalogEntry>) -> Seq<EntryView> {
    Seq::new(entries.len(), |i: int| entries[i]@)
}

/// Trusted: walks `emojis::iter()`, which yields every emoji with the
/// default skin tone in catalog order, and copies out of each what
/// `Emoji::as_str`, `Emoji::name` and `Emoji::shortcodes` return. The table
/// that `emojis::iter()` walks is compiled in and starts with emoji that have
/// no skin tone, so at least one entry comes out. Nothing else is claimed
/// about which emoji the catalog holds.
#[verifier::external_body]
pub(crate) fn catalog_entries() -> (entries: Vec<CatalogEntry>)
    ensures
        entries@.len() > 0,
{
    emojis::iter()
        .map(|emoji| CatalogEntry {
            glyph: emoji.as_str(),
            name: emoji.name(),
            shortcodes: emoji.shortcodes().collect(),
        })
        .collect()
}

} // verus!
