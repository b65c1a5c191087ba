//! The index builder: one searchable descriptor per catalog entry.

use vstd::prelude::*;
use vstd::string::*;
use crate::catalog::{catalog_entries, entry_views, CatalogEntry, EntryView};
use crate::text::{contains, is_substring, lowercase_of, space_joined, to_lowercase, word_views};

verus! {

/// An emoji together with the text it can be found by.
#[derive(Debug)]
pub struct EmojiDescriptor {
    /// The emoji itself.
    pub glyph: &'static str,
    /// The lowercased name and shortcodes, separated by spaces.
    pub keywords: String,
}

/// What a descriptor holds, as character sequences.
pub struct DescriptorView {
    pub glyph: Seq<char>,
    pub keywords: Seq<char>,
}

impl View for EmojiDescriptor {
    type V = DescriptorView;

    open spec fn view(&self) -> DescriptorView {
        DescriptorView { glyph: self.glyph@, keywords: self.keywords@ }
    }
}

impl EmojiDescriptor {
    /// Pairs a glyph with its keyword string.
    pub fn new(glyph: &'static str, keywords: String) -> (descriptor: EmojiDescriptor)
        ensures
            descriptor.glyph == glyph,
            descriptor.keywords == keywords,
    {
        EmojiDescriptor { glyph, keywords }
    }

    /// Whether a lowercased query finds this emoji: whether the query occurs
    /// in the keyword string.
    pub fn matches(&self, normalized_query: &str) -> (found: bool)
        ensures
            found == is_substring(normalized_query@, self.keywords@),
    {
        contains(self.keywords.as_str(), normalized_query)
    }
}

/// The searchable text of an emoji before normalization: the name and the
/// shortcodes, in that order, with a single space between neighbours. An
/// emoji without shortcodes has its name alone.
pub open spec fn keyword_text_of(name: Seq<char>, shortcodes: Seq<Seq<char>>) -> Seq<char> {
    space_joined(seq![name] + shortcodes)
}

/// The keyword string of an emoji: its searchable text in lowercase.
pub open spec fn keywords_of(name: Seq<char>, shortcodes: Seq<Seq<char>>) -> Seq<char> {
    lowercase_of(keyword_text_of(name, shortcodes))
}

/// Builds the searchable text of an emoji, case untouched.
pub fn keyword_text(name: &str, shortcodes: &Vec<&str>) -> (text: String)
    ensures
        text@ == keyword_text_of(name@, word_views(shortcodes@)),
        name@.len() > 0 ==> text@.len() > 0,
{
    let ghost words = seq![name@] + word_views(shortcodes@);
    let mut text = String::from_str(name);
    proof {
        assert(words.take(1) =~= seq![name@]);
    }
    let mut i: usize = 0;
    while i < shortcodes.len()
        invariant
            i <= shortcodes.len(),
            words == seq![name@] + word_views(shortcodes@),
            text@ == space_joined(words.take(i + 1)),
            text@.len() >= name@.len(),
        decreases shortcodes.len() - i,
    {
        proof {
            reveal_strlit(" ");
            assert(" "@ =~= seq![' ']);
            assert(words.take(i + 2).drop_last() =~= words.take(i + 1));
            assert(words.take(i + 2).last() == shortcodes@[i as int]@);
        }
        text.append(" ");
        text.append(shortcodes[i]);
        i = i + 1;
    }
    proof {
        assert(words.take(shortcodes.len() + 1) =~= words);
    }
    text
}

/// Builds the keyword string of an emoji.
pub fn keyword_string(name: &str, shortcodes: &Vec<&str>) -> (keywords: String)
    ensures
        keywords@ == keywords_of(name@, word_views(shortcodes@)),
        name@.len() > 0 ==> keywords@.len() > 0,
{
    let text = keyword_text(name, shortcodes);
    to_lowercase(text.as_str())
}

/// The descriptor that belongs to a catalog entry.
pub open spec fn descriptor_of(entry: EntryView) -> DescriptorView {
    DescriptorView { glyph: entry.glyph, keywords: keywords_of(entry.name, entry.shortcodes) }
}

/// The descriptors of a catalog: one per entry, in catalog order.
pub open spec fn descriptors_of(entries: Seq<EntryView>) -> Seq<DescriptorView> {
    Seq::new(entries.len(), |i: int| descriptor_of(entries[i]))
}

/// What a list of descriptors holds, position by position.
pub open spec fn descriptor_views(descriptors: Seq<EmojiDescriptor>) -> Seq<DescriptorView> {
    Seq::new(descriptors.len(), |i: int| descriptors[i]@)
}

/// Builds the descriptor of one catalog entry.
pub fn describe(entry: &CatalogEntry) -> (descriptor: EmojiDescriptor)
    ensures
        descriptor@ == descriptor_of(entry@),
        descriptor.glyph == entry.glyph,
        entry.name@.len() > 0 ==> descriptor.keywords@.len() > 0,
{
    EmojiDescriptor::new(entry.glyph, keyword_string(entry.name, &entry.shortcodes))
}

/// Builds the descriptors of a whole catalog, keeping its order.
pub fn describe_all(entries: &Vec<CatalogEntry>) -> (descriptors: Vec<EmojiDescriptor>)
    ensures
        descriptor_views(descriptors@) == descriptors_of(entry_views(entries@)),
        descriptors.len() == entries.len(),
        forall|i: int|
            0 <= i < descriptors.len() ==> (#[trigger] descriptors[i]).glyph == entries[i].glyph,
        forall|i: int|
            #![trigger descriptors[i]]
            0 <= i < descriptors.len() && entries[i].name@.len() > 0
                ==> descriptors[i].keywords@.len() > 0,
{
    let mut descriptors: Vec<EmojiDescriptor> = Vec::new();
    let mut i: usize = 0;
    while i < entries.len()
        invariant
            i <= entries.len(),
            descriptors.len() == i,
            forall|k: int| 0 <= k < i ==> (#[trigger] descriptors[k])@ == descriptor_of(entries[k]@),
            forall|k: int| 0 <= k < i ==> (#[trigger] descriptors[k]).glyph == entries[k].glyph,
            forall|k: int|
                #![trigger descriptors[k]]
                0 <= k < i && entries[k].name@.len() > 0 ==> descriptors[k].keywords@.len() > 0,
        decreases entries.len() - i,
    {
        descriptors.push(describe(&entries[i]));
        i = i + 1;
    }
    proof {
        assert(descriptor_views(descriptors@) =~= descriptors_of(entry_views(entries@)));
    }
    descriptors
}

/// A catalog whose descriptors are `descriptors`, and in which each named
/// entry has a non-empty keyword string.
pub open spec fn describes(catalog: Seq<EntryView>, descriptors: Seq<DescriptorView>) -> bool {
    &&& descriptors == descriptors_of(catalog)
    &&& forall|i: int|
        #![trigger catalog[i]]
        0 <= i < catalog.len() && catalog[i].name.len() > 0 ==> descriptors[i].keywords.len() > 0
}

/// Builds the index: one descriptor per emoji of the catalog, in catalog
/// order, each with the keyword string of its name and shortcodes. The index
/// is never empty.
pub fn build_descriptor() -> (descriptors: Vec<EmojiDescriptor>)
    ensures
        descriptors@.len() > 0,
        exists|catalog: Seq<EntryView>| #[trigger] describes(catalog, descriptor_views(descriptors@)),
{
    let entries = catalog_entries();
    let descriptors = describe_all(&entries);
    proof {
        let catalog = entry_views(entries@);
        let built = descriptor_views(descriptors@);
        assert forall|i: int|
            #![trigger catalog[i]]
            0 <= i < catalog.len() && catalog[i].name.len() > 0 implies built[i].keywords.len()
            > 0 by {
            assert(catalog[i] == entries[i]@);
            assert(built[i] == descriptors[i]@);
        }
        assert(describes(catalog, built));
    }
    descriptors
}

} // verus!
