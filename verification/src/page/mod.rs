//! A page of a site, and the metadata it is rendered with.

use crate::config::Config;
use crate::item::taxonomy::Taxonomy;
use crate::names::NameMap;
use crate::time::Timestamp;
use vstd::prelude::*;
use vstd::std_specs::iter::IteratorSpec;
use vstd::string::*;

verus! {

/// For whom an item is written, and how sure its author is of it.
#[derive(Clone, Debug, PartialEq, Eq)]
pub struct Qualifiers {
    pub audience: Option<String>,
    pub epistemic: Option<String>,
}

/// The book that an item is about.
#[derive(Clone, Debug, PartialEq, Eq)]
pub struct Book {
    pub title: Option<String>,
    pub author: Option<String>,
    pub link: Option<String>,
}

/// The series that an item is a part of.
#[derive(Clone, Debug, PartialEq, Eq)]
pub struct Series {
    pub name: Option<String>,
    pub part: u8,
}

/// The reserved fields of the front matter of one item, decoded.
#[derive(Clone, Debug, PartialEq, Eq)]
pub struct Metadata {
    pub title: Option<String>,
    pub date: Option<Timestamp>,
    pub subtitle: Option<String>,
    pub summary: Option<String>,
    pub qualifiers: Option<Qualifiers>,
    pub updated: Option<Timestamp>,
    pub thanks: Option<String>,
    pub tags: Vec<String>,
    pub featured: bool,
    pub book: Option<Book>,
    pub series: Option<Series>,
    pub permalink: Option<String>,
    pub layout: Option<String>,
}

/// The title of an item, its date, or both: an item has at least one.
#[derive(Clone, Debug, PartialEq, Eq)]
pub enum RequiredFields {
    Title(String),
    Date(Timestamp),
    Both { title: String, date: Timestamp },
}

/// The metadata of an item once all of it is settled.
#[derive(Debug, PartialEq, Eq)]
pub struct ResolvedMetadata {
    /// The date, the title, or both.
    pub required: RequiredFields,
    /// The address under which the item is linked.
    pub url: String,
    /// The layout that the item is rendered with.
    pub layout: String,
    pub subtitle: Option<String>,
    pub summary: Option<String>,
    pub qualifiers: Option<Qualifiers>,
    pub updated: Option<Timestamp>,
    pub thanks: Option<String>,
    pub tags: Vec<String>,
    pub featured: bool,
    pub book: Option<Book>,
    pub series: Option<Series>,
    /// The values that the item has in the taxonomies of the site.
    pub taxonomies: NameMap<Taxonomy>,
}

/// The required fields that a title and a date make, if there is either.
pub open spec fn required_of(title: Option<String>, date: Option<Timestamp>) -> Option<
    RequiredFields,
> {
    match (title, date) {
        (Some(title), Some(date)) => Some(RequiredFields::Both { title, date }),
        (None, Some(date)) => Some(RequiredFields::Date(date)),
        (Some(title), None) => Some(RequiredFields::Title(title)),
        (None, None) => None,
    }
}

/// The address of an item: its permalink where it has one, and else the
/// address of the site followed by the path of its source.
pub open spec fn url_of(permalink: Option<String>, site: Seq<char>, src_path: Seq<char>) -> Seq<
    char,
> {
    match permalink {
        Some(address) => address@,
        None => site + src_path,
    }
}

/// The layout of an item: its own where it names one, and else that of the
/// site.
pub open spec fn layout_of(own: Option<String>, site: Seq<char>) -> Seq<char> {
    match own {
        Some(layout) => layout@,
        None => site,
    }
}

impl ResolvedMetadata {
    /// Settles the metadata of the item whose source lies at `src_path`.
    ///
    /// An item with neither title nor date is turned down. Everything else
    /// is taken over as it was decoded, and `taxonomies` as it was read.
    pub fn new(
        src_path: &str,
        item_metadata: Metadata,
        taxonomies: NameMap<Taxonomy>,
        config: &Config,
    ) -> (result: Result<ResolvedMetadata, String>)
        ensures
            result is Err <==> item_metadata.title is None && item_metadata.date is None,
            result matches Err(reason) ==> reason@ == "missing date and title"@,
            result matches Ok(resolved) ==> {
                &&& Some(resolved.required) == required_of(item_metadata.title, item_metadata.date)
                &&& resolved.url@ == url_of(item_metadata.permalink, config.site.url@, src_path@)
                &&& resolved.layout@ == layout_of(
                    item_metadata.layout,
                    config.templates.item_layout(),
                )
                &&& resolved.subtitle == item_metadata.subtitle
                &&& resolved.summary == item_metadata.summary
                &&& resolved.qualifiers == item_metadata.qualifiers
                &&& resolved.updated == item_metadata.updated
                &&& resolved.thanks == item_metadata.thanks
                &&& resolved.tags == item_metadata.tags
                &&& resolved.featured == item_metadata.featured
                &&& resolved.book == item_metadata.book
                &&& resolved.series == item_metadata.series
                &&& resolved.taxonomies == taxonomies
            },
    {
        let required = match (item_metadata.title, item_metadata.date) {
            (Some(title), Some(date)) => RequiredFields::Both { title, date },
            (None, Some(date)) => RequiredFields::Date(date),
            (Some(title), None) => RequiredFields::Title(title),
            (None, None) => {
                return Err("missing date and title".to_owned());
            },
        };
        let url = match item_metadata.permalink {
            Some(address) => address,
            None => {
                let mut address = config.site.url.value();
                address.append(src_path);
                address
            },
        };
        let layout = match item_metadata.layout {
            Some(layout) => layout,
            None => config.templates.item().clone(),
        };
        Ok(
            ResolvedMetadata {
                required,
                url,
                layout,
                subtitle: item_metadata.subtitle,
                summary: item_metadata.summary,
                qualifiers: item_metadata.qualifiers,
                updated: item_metadata.updated,
                thanks: item_metadata.thanks,
                tags: item_metadata.tags,
                featured: item_metadata.featured,
                book: item_metadata.book,
                series: item_metadata.series,
                taxonomies,
            },
        )
    }
}

/// A page with its metadata settled and its contents rendered.
#[derive(Debug, PartialEq, Eq)]
pub struct Page {
    /// What the name of the source file becomes in addresses.
    pub file_slug: String,
    /// The address under which the page is linked.
    pub url: String,
    pub metadata: ResolvedMetadata,
    /// The rendered contents.
    pub contents: String,
}

impl Page {
    /// The page of `metadata` and `contents`. Its slug and its address are
    /// left empty.
    pub fn new(metadata: ResolvedMetadata, contents: String) -> (page: Page)
        ensures
            page.file_slug@.len() == 0,
            page.url@.len() == 0,
            page.metadata == metadata,
            page.contents == contents,
    {
        Page { file_slug: String::new(), url: String::new(), metadata, contents }
    }
}

/// Whether a rule, three dashes in a row, begins at `at`.
pub open spec fn rule_at(text: Seq<char>, at: int) -> bool {
    &&& 0 <= at
    &&& at + 3 <= text.len()
    &&& text[at] == '-'
    &&& text[at + 1] == '-'
    &&& text[at + 2] == '-'
}

/// Whether no rule begins in `text` between `from` and `to`.
pub open spec fn no_rule_between(text: Seq<char>, from: int, to: int) -> bool {
    forall|at: int| from <= at < to ==> !rule_at(text, at)
}

/// Whether `text` opens with a rule and has its next rule at `end`: the
/// header of the item stands between the two, and its body behind them.
pub open spec fn header_ends_at(text: Seq<char>, end: int) -> bool {
    &&& rule_at(text, 0)
    &&& 3 <= end
    &&& rule_at(text, end)
    &&& no_rule_between(text, 3, end)
}

/// Where the first rule of `text` at or behind `from` begins.
pub fn find_rule(text: &str, from: usize) -> (found: Option<usize>)
    ensures
        match found {
            Some(at) => from <= at && rule_at(text@, at as int) && no_rule_between(
                text@,
                from as int,
                at as int,
            ),
            None => no_rule_between(text@, from as int, text@.len() as int),
        },
{
    let length = text.unicode_len();
    let mut run: usize = 0;
    let mut at: usize = 0;
    for c in it: text.chars()
        invariant
            it.seq() == text@,
            length == text@.len(),
            at == it.index(),
            run <= 2,
            run <= at,
            at >= from ==> at - run >= from,
            at < from ==> run == 0,
            forall|k: int| at - run <= k < at ==> text@[k] == '-',
            at - run > from ==> text@[at - run - 1] != '-',
            forall|b: int| from <= b && b + 3 <= at ==> !rule_at(text@, b),
    {
        if at >= from && c == '-' {
            if run == 2 {
                assert(rule_at(text@, at - 2));
                return Some(at - 2);
            }
            run = run + 1;
        } else {
            run = 0;
        }
        at = at + 1;
        assert forall|b: int| from <= b && b + 3 <= at implies !rule_at(text@, b) by {
            if b + 3 == at && rule_at(text@, b) {
                assert(text@[b] == '-' && text@[b + 1] == '-' && text@[b + 2] == '-');
            }
        }
    }
    None
}

/// Parts the source of an item into its header and its body. The source has
/// to open with a rule; the header ends where the next rule begins.
pub fn components(contents: &str) -> (parts: Option<(String, String)>)
    ensures
        match parts {
            Some((header, body)) => exists|end: int|
                #![trigger header_ends_at(contents@, end)]
                header_ends_at(contents@, end) && header@ == contents@.subrange(3, end) && body@
                    == contents@.skip(end + 3),
            None => forall|end: int| !header_ends_at(contents@, end),
        },
{
    let length = contents.unicode_len();
    match find_rule(contents, 0) {
        Some(0) => {},
        _ => {
            return None;
        },
    }
    match find_rule(contents, 3) {
        Some(end) => {
            assert(header_ends_at(contents@, end as int));
            let header = contents.substring_char(3, end).to_owned();
            let body = contents.substring_char(end + 3, length).to_owned();
            assert(contents@.subrange(end + 3, length as int) =~= contents@.skip(end + 3));
            Some((header, body))
        },
        None => None,
    }
}

} // verus!
