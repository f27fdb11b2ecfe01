//! The configuration of a Lightning site.

use crate::names::{distinct, place, NameMap};
use crate::raw::{field, field_of, pairs_of, parse, values_of, yaml_documents, RawValue, Value};
use crate::text::same_text;
use vstd::prelude::*;
use vstd::string::*;

verus! {

/// Where a site keeps what it is built from, and where the result goes.
#[derive(Clone, Debug, PartialEq, Eq)]
pub struct Directories {
    pub content: String,
    pub output: String,
    pub template: String,
}

/// The layouts that pages are rendered with.
#[derive(Clone, Debug, PartialEq, Eq)]
pub struct Templates {
    item: String,
}

impl Templates {
    /// Templates whose layout for a single item is `item`.
    pub fn new(item: String) -> (templates: Templates)
        ensures
            templates.item_layout() == item@,
    {
        Templates { item }
    }

    /// The text of the layout for a single item.
    pub closed spec fn item_layout(&self) -> Seq<char> {
        self.item@
    }

    /// The layout for a single item.
    pub fn item(&self) -> (layout: &String)
        ensures
            layout@ == self.item_layout(),
    {
        &self.item
    }
}

/// The address under which a site is published.
#[derive(Clone, Debug, PartialEq, Eq)]
pub struct ValidatedUrl(String);

impl View for ValidatedUrl {
    type V = Seq<char>;

    closed spec fn view(&self) -> Seq<char> {
        self.0@
    }
}

impl ValidatedUrl {
    /// Takes `unvalidated_url` as the address of a site. Every text is
    /// accepted.
    pub fn new(unvalidated_url: String) -> (url: Result<ValidatedUrl, String>)
        ensures
            url matches Ok(accepted) && accepted@ == unvalidated_url@,
    {
        Ok(ValidatedUrl(unvalidated_url))
    }

    /// The address as text.
    pub fn value(&self) -> (text: String)
        ensures
            text@ == self@,
    {
        self.0.clone()
    }
}

/// What is known of the site as a whole.
#[derive(Debug, PartialEq, Eq)]
pub struct Site {
    pub name: String,
    pub description: String,
    /// Whatever else the configuration says of the site, undecoded.
    pub metadata: Vec<(RawValue, RawValue)>,
    pub url: ValidatedUrl,
}

/// How one taxonomy of a site is defined.
#[derive(Clone, Copy, Debug, PartialEq, Eq)]
pub enum Taxonomy {
    /// A flag: an item has it or has it not.
    Boolean { required: bool },
    /// One or more tags.
    TagLike {
        required: bool,
        /// Whether a tag names a path of nested categories, its levels
        /// parted by `/`.
        hierarchical: bool,
        /// The most values that one item may carry.
        limit: Option<u64>,
        /// Whether a single text with commas in it stands for several values.
        commas_as_lists: bool,
    },
    /// A date and time.
    Temporal { required: bool },
}

impl Taxonomy {
    /// Whether every item has to carry a value of this taxonomy.
    pub open spec fn requires_value(&self) -> bool {
        match self {
            Taxonomy::Boolean { required } => *required,
            Taxonomy::TagLike { required, .. } => *required,
            Taxonomy::Temporal { required } => *required,
        }
    }

    /// Whether the definition makes sense: a limit, where there is one,
    /// admits at least one value.
    pub open spec fn well_formed(&self) -> bool {
        match self {
            Taxonomy::TagLike { limit: Some(limit), .. } => *limit >= 1,
            _ => true,
        }
    }

    /// Whether every item has to carry a value of this taxonomy.
    pub fn is_required(&self) -> (required: bool)
        ensures
            required == self.requires_value(),
    {
        match self {
            Taxonomy::Boolean { required } => *required,
            Taxonomy::TagLike { required, .. } => *required,
            Taxonomy::Temporal { required } => *required,
        }
    }

    /// Whether the definition makes sense.
    pub fn is_well_formed(&self) -> (sound: bool)
        ensures
            sound == self.well_formed(),
    {
        match self {
            Taxonomy::TagLike { limit: Some(limit), .. } => *limit >= 1,
            _ => true,
        }
    }
}

/// Whether every definition of `entries` makes sense.
pub open spec fn all_well_formed(entries: Seq<(Seq<char>, Taxonomy)>) -> bool {
    forall|i: int| 0 <= i < entries.len() ==> (#[trigger] entries[i]).1.well_formed()
}

/// The names of the taxonomies of `entries` that every item has to carry, in
/// the order of `entries`.
pub open spec fn required_names(entries: Seq<(Seq<char>, Taxonomy)>) -> Seq<Seq<char>>
    decreases entries.len(),
{
    if entries.len() == 0 {
        Seq::empty()
    } else if entries.last().1.requires_value() {
        required_names(entries.drop_last()).push(entries.last().0)
    } else {
        required_names(entries.drop_last())
    }
}

/// The taxonomies of a site: definitions under distinct names, in the order
/// in which they were defined.
#[derive(Debug, PartialEq, Eq)]
pub struct Schema {
    entries: NameMap<Taxonomy>,
}

impl View for Schema {
    type V = Seq<(Seq<char>, Taxonomy)>;

    closed spec fn view(&self) -> Seq<(Seq<char>, Taxonomy)> {
        self.entries@
    }
}

impl Schema {
    #[verifier::type_invariant]
    closed spec fn inv(&self) -> bool {
        all_well_formed(self@)
    }

    /// A schema without taxonomies.
    pub fn new() -> (schema: Schema)
        ensures
            schema@ == Seq::<(Seq<char>, Taxonomy)>::empty(),
    {
        Schema { entries: NameMap::new() }
    }

    /// The number of taxonomies. Their names are distinct, and each
    /// definition makes sense.
    pub fn len(&self) -> (count: usize)
        ensures
            count == self@.len(),
            distinct(self@),
            all_well_formed(self@),
    {
        proof {
            use_type_invariant(self);
        }
        self.entries.len()
    }

    /// The name of the taxonomy at `at`.
    pub fn name_at(&self, at: usize) -> (name: &String)
        requires
            at < self@.len(),
        ensures
            name@ == self@[at as int].0,
    {
        self.entries.name_at(at)
    }

    /// The definition of the taxonomy at `at`.
    pub fn entry_at(&self, at: usize) -> (entry: Taxonomy)
        requires
            at < self@.len(),
        ensures
            entry == self@[at as int].1,
            entry.well_formed(),
    {
        proof {
            use_type_invariant(self);
        }
        *self.entries.value_at(at)
    }

    /// The definition of the taxonomy `name`, if the schema has one.
    pub fn lookup(&self, name: &str) -> (found: Option<Taxonomy>)
        ensures
            match place(self@, name@) {
                Some(at) => found == Some(self@[at].1),
                None => found is None,
            },
    {
        match self.entries.get(name) {
            Some(entry) => Some(*entry),
            None => None,
        }
    }

    /// Defines the taxonomy `name` behind those defined so far. A name that
    /// is taken, or a definition that makes no sense, is refused and leaves
    /// the schema as it was.
    pub fn define(&mut self, name: String, entry: Taxonomy) -> (accepted: bool)
        ensures
            accepted == (place(old(self)@, name@) is None && entry.well_formed()),
            accepted ==> final(self)@ == old(self)@.push((name@, entry)),
            !accepted ==> final(self)@ == old(self)@,
    {
        proof {
            use_type_invariant(&*self);
        }
        if !entry.is_well_formed() || self.entries.get(name.as_str()).is_some() {
            return false;
        }
        let mut taken = Schema::new();
        core::mem::swap(self, &mut taken);
        let Schema { entries } = taken;
        let mut entries = entries;
        entries.insert(name, entry);
        *self = Schema { entries };
        true
    }

    /// The names of the taxonomies that every item has to carry, in the
    /// order of their definition.
    pub fn all_required(&self) -> (required: Vec<String>)
        ensures
            crate::text::texts(required@) == required_names(self@),
    {
        let mut required: Vec<String> = Vec::new();
        let mut at: usize = 0;
        assert(self@.take(0) =~= Seq::<(Seq<char>, Taxonomy)>::empty());
        assert(crate::text::texts(required@) =~= required_names(self@.take(0)));
        while at < self.entries.len()
            invariant
                at <= self@.len(),
                self@.len() == self.entries@.len(),
                crate::text::texts(required@) == required_names(self@.take(at as int)),
            decreases self@.len() - at,
        {
            let ghost before = crate::text::texts(required@);
            assert(self@.take(at + 1).drop_last() =~= self@.take(at as int));
            if self.entries.value_at(at).is_required() {
                required.push(self.entries.name_at(at).clone());
                assert(crate::text::texts(required@) =~= before.push(self@[at as int].0));
            }
            at += 1;
        }
        assert(self@.take(at as int) =~= self@);
        required
    }
}

/// Everything a site is configured with.
#[derive(Debug, PartialEq, Eq)]
pub struct Config {
    pub site: Site,
    pub directories: Directories,
    pub taxonomies: Schema,
    pub templates: Templates,
}

/// A key of the configuration document.
#[derive(Clone, Copy, Debug, PartialEq, Eq, Structural)]
pub enum Key {
    ContentDirectory,
    OutputDirectory,
    Structure,
    Directory,
    Taxonomies,
    Rules,
    CommasAsLists,
}

/// What is wrong with the definition of one taxonomy.
#[derive(Clone, Copy, Debug, PartialEq, Eq, Structural)]
pub enum Fault {
    /// The definition is no mapping.
    NotAMap,
    /// The definition does not say of what kind the taxonomy is.
    NoKind,
    /// The kind is none of `boolean`, `tag-like` and `temporal`.
    UnknownKind,
    /// `required` is no truth value.
    BadRequired,
    /// `hierarchical` is no truth value.
    BadHierarchical,
    /// `limit` is no whole number of at least one.
    BadLimit,
    /// The name is defined a second time.
    Duplicate,
}

/// The words in which a fault is reported.
pub open spec fn fault_text(fault: Fault) -> Seq<char> {
    match fault {
        Fault::NotAMap => "its definition is not a map"@,
        Fault::NoKind => "it has no `type`"@,
        Fault::UnknownKind => "its `type` is none of boolean, tag-like, temporal"@,
        Fault::BadRequired => "its `required` is neither true nor false"@,
        Fault::BadHierarchical => "its `hierarchical` is neither true nor false"@,
        Fault::BadLimit => "its `limit` is not a whole number of at least one"@,
        Fault::Duplicate => "it is defined twice"@,
    }
}

impl Fault {
    /// The words in which this fault is reported.
    pub fn text(&self) -> (text: &'static str)
        ensures
            text@ == fault_text(*self),
    {
        match self {
            Fault::NotAMap => "its definition is not a map",
            Fault::NoKind => "it has no `type`",
            Fault::UnknownKind => "its `type` is none of boolean, tag-like, temporal",
            Fault::BadRequired => "its `required` is neither true nor false",
            Fault::BadHierarchical => "its `hierarchical` is neither true nor false",
            Fault::BadLimit => "its `limit` is not a whole number of at least one",
            Fault::Duplicate => "it is defined twice",
        }
    }
}

/// Why a configuration is turned down.
#[derive(Clone, Debug, PartialEq, Eq)]
pub enum ConfigError {
    /// The text is no YAML; the words are those of the scanner.
    Syntax(String),
    /// The text holds no document.
    Empty,
    /// The document is no mapping.
    NotAMap,
    /// A key that has to be there is not.
    Missing(Key),
    /// What stands under a key is not of the type that belongs there.
    Invalid(Key),
    /// A key of `taxonomies` is no text.
    UnnamedTaxonomy,
    /// The taxonomy `name` is ill defined.
    Taxonomy { name: String, fault: Fault },
}

/// The mathematical content of a [`ConfigError`].
pub enum ConfigFault {
    Syntax(Seq<char>),
    Empty,
    NotAMap,
    Missing(Key),
    Invalid(Key),
    UnnamedTaxonomy,
    Taxonomy { name: Seq<char>, fault: Fault },
}

impl View for ConfigError {
    type V = ConfigFault;

    open spec fn view(&self) -> ConfigFault {
        match self {
            ConfigError::Syntax(words) => ConfigFault::Syntax(words@),
            ConfigError::Empty => ConfigFault::Empty,
            ConfigError::NotAMap => ConfigFault::NotAMap,
            ConfigError::Missing(key) => ConfigFault::Missing(*key),
            ConfigError::Invalid(key) => ConfigFault::Invalid(*key),
            ConfigError::UnnamedTaxonomy => ConfigFault::UnnamedTaxonomy,
            ConfigError::Taxonomy { name, fault } => ConfigFault::Taxonomy {
                name: name@,
                fault: *fault,
            },
        }
    }
}

/// The key as it is written in the document.
pub open spec fn key_text(key: Key) -> Seq<char> {
    match key {
        Key::ContentDirectory => "content_directory"@,
        Key::OutputDirectory => "output_directory"@,
        Key::Structure => "structure"@,
        Key::Directory => "directory"@,
        Key::Taxonomies => "taxonomies"@,
        Key::Rules => "rules"@,
        Key::CommasAsLists => "commas_as_lists"@,
    }
}

impl Key {
    /// The key as it is written in the document.
    pub fn text(&self) -> (text: &'static str)
        ensures
            text@ == key_text(*self),
    {
        match self {
            Key::ContentDirectory => "content_directory",
            Key::OutputDirectory => "output_directory",
            Key::Structure => "structure",
            Key::Directory => "directory",
            Key::Taxonomies => "taxonomies",
            Key::Rules => "rules",
            Key::CommasAsLists => "commas_as_lists",
        }
    }
}

/// The text that has to stand under `key`.
pub open spec fn text_under(entries: Seq<(Value, Value)>, key: Key) -> Result<
    Seq<char>,
    ConfigFault,
> {
    match field_of(entries, key_text(key)) {
        None => Err(ConfigFault::Missing(key)),
        Some(Value::String(text)) => Ok(text),
        Some(_) => Err(ConfigFault::Invalid(key)),
    }
}

/// The entries of the mapping that may stand under `key`: none where the
/// key is left out.
pub open spec fn mapping_under(entries: Seq<(Value, Value)>, key: Key) -> Result<
    Seq<(Value, Value)>,
    ConfigFault,
> {
    match field_of(entries, key_text(key)) {
        None => Ok(Seq::empty()),
        Some(Value::Null) => Ok(Seq::empty()),
        Some(Value::Mapping(inner)) => Ok(inner),
        Some(_) => Err(ConfigFault::Invalid(key)),
    }
}

/// The truth value that may stand under the field `name`: `false` where the
/// field is left out, and `None` where something else stands there.
pub open spec fn flag_under(entries: Seq<(Value, Value)>, name: Seq<char>) -> Option<bool> {
    match field_of(entries, name) {
        None => Some(false),
        Some(Value::Null) => Some(false),
        Some(Value::Boolean(flag)) => Some(flag),
        Some(_) => None,
    }
}

/// The limit that may stand under `limit`: the outer `None` where what
/// stands there is no whole number of at least one.
pub open spec fn limit_under(entries: Seq<(Value, Value)>) -> Option<Option<u64>> {
    match field_of(entries, "limit"@) {
        None => Some(None),
        Some(Value::Null) => Some(None),
        Some(Value::Integer(number)) => if number >= 1 {
            Some(Some(number as u64))
        } else {
            None
        },
        Some(_) => None,
    }
}

/// The taxonomy that `definition` defines, where commas make lists as
/// `commas_as_lists` says.
pub open spec fn defined_taxonomy(definition: Value, commas_as_lists: bool) -> Result<
    Taxonomy,
    Fault,
> {
    match definition {
        Value::Mapping(fields) => match field_of(fields, "type"@) {
            None => Err(Fault::NoKind),
            Some(Value::String(kind)) => if kind != "boolean"@ && kind != "tag-like"@ && kind
                != "temporal"@ {
                Err(Fault::UnknownKind)
            } else if flag_under(fields, "required"@) is None {
                Err(Fault::BadRequired)
            } else if kind == "boolean"@ {
                Ok(Taxonomy::Boolean { required: flag_under(fields, "required"@)->0 })
            } else if kind == "temporal"@ {
                Ok(Taxonomy::Temporal { required: flag_under(fields, "required"@)->0 })
            } else if flag_under(fields, "hierarchical"@) is None {
                Err(Fault::BadHierarchical)
            } else if limit_under(fields) is None {
                Err(Fault::BadLimit)
            } else {
                Ok(
                    Taxonomy::TagLike {
                        required: flag_under(fields, "required"@)->0,
                        hierarchical: flag_under(fields, "hierarchical"@)->0,
                        limit: limit_under(fields)->0,
                        commas_as_lists,
                    },
                )
            },
            Some(_) => Err(Fault::UnknownKind),
        },
        _ => Err(Fault::NotAMap),
    }
}

/// The schema that the entries of `taxonomies` define, or what is wrong
/// with the first of them that is ill defined.
pub open spec fn defined_schema(entries: Seq<(Value, Value)>, commas_as_lists: bool) -> Result<
    Seq<(Seq<char>, Taxonomy)>,
    ConfigFault,
>
    decreases entries.len(),
{
    if entries.len() == 0 {
        Ok(Seq::empty())
    } else {
        match defined_schema(entries.drop_last(), commas_as_lists) {
            Err(fault) => Err(fault),
            Ok(before) => match entries.last().0 {
                Value::String(name) => match defined_taxonomy(entries.last().1, commas_as_lists) {
                    Err(fault) => Err(ConfigFault::Taxonomy { name, fault }),
                    Ok(taxonomy) => if place(before, name) is Some {
                        Err(ConfigFault::Taxonomy { name, fault: Fault::Duplicate })
                    } else {
                        Ok(before.push((name, taxonomy)))
                    },
                },
                _ => Err(ConfigFault::UnnamedTaxonomy),
            },
        }
    }
}

/// The truth value that may stand under the field `name`.
fn read_flag(entries: &Vec<(RawValue, RawValue)>, name: &str) -> (flag: Option<bool>)
    ensures
        flag == flag_under(pairs_of(entries@), name@),
{
    match field(entries, name) {
        None => Some(false),
        Some(RawValue::Null) => Some(false),
        Some(RawValue::Boolean(flag)) => Some(*flag),
        Some(_) => None,
    }
}

/// The limit that may stand under `limit`.
fn read_limit(entries: &Vec<(RawValue, RawValue)>) -> (limit: Option<Option<u64>>)
    ensures
        limit == limit_under(pairs_of(entries@)),
{
    match field(entries, "limit") {
        None => Some(None),
        Some(RawValue::Null) => Some(None),
        Some(RawValue::Integer(number)) => if *number >= 1 {
            Some(Some(*number as u64))
        } else {
            None
        },
        Some(_) => None,
    }
}

impl Taxonomy {
    /// Reads the definition of one taxonomy.
    pub fn from_definition(definition: &RawValue, commas_as_lists: bool) -> (defined: Result<
        Taxonomy,
        Fault,
    >)
        ensures
            defined == defined_taxonomy(definition@, commas_as_lists),
            defined matches Ok(taxonomy) ==> taxonomy.well_formed(),
    {
        let fields = match definition {
            RawValue::Mapping(fields) => fields,
            _ => {
                return Err(Fault::NotAMap);
            },
        };
        let kind = match field(fields, "type") {
            None => {
                return Err(Fault::NoKind);
            },
            Some(RawValue::String(kind)) => kind,
            Some(_) => {
                return Err(Fault::UnknownKind);
            },
        };
        let boolean = same_text(kind.as_str(), "boolean");
        let tag_like = same_text(kind.as_str(), "tag-like");
        let temporal = same_text(kind.as_str(), "temporal");
        if !boolean && !tag_like && !temporal {
            return Err(Fault::UnknownKind);
        }
        let required = match read_flag(fields, "required") {
            Some(required) => required,
            None => {
                return Err(Fault::BadRequired);
            },
        };
        if boolean {
            return Ok(Taxonomy::Boolean { required });
        }
        if temporal {
            return Ok(Taxonomy::Temporal { required });
        }
        let hierarchical = match read_flag(fields, "hierarchical") {
            Some(hierarchical) => hierarchical,
            None => {
                return Err(Fault::BadHierarchical);
            },
        };
        let limit = match read_limit(fields) {
            Some(limit) => limit,
            None => {
                return Err(Fault::BadLimit);
            },
        };
        Ok(Taxonomy::TagLike { required, hierarchical, limit, commas_as_lists })
    }
}

impl Schema {
    /// Reads the taxonomies of a site from the entries of `taxonomies`.
    pub fn from_definitions(entries: &Vec<(RawValue, RawValue)>, commas_as_lists: bool) -> (defined:
        Result<Schema, ConfigError>)
        ensures
            match defined {
                Ok(schema) => defined_schema(pairs_of(entries@), commas_as_lists) == Ok::<
                    Seq<(Seq<char>, Taxonomy)>,
                    ConfigFault,
                >(schema@),
                Err(error) => defined_schema(pairs_of(entries@), commas_as_lists) == Err::<
                    Seq<(Seq<char>, Taxonomy)>,
                    ConfigFault,
                >(error@),
            },
    {
        let ghost pairs = pairs_of(entries@);
        let mut schema = Schema::new();
        let mut at: usize = 0;
        assert(pairs.take(0) =~= Seq::<(Value, Value)>::empty());
        while at < entries.len()
            invariant
                at <= entries.len(),
                pairs == pairs_of(entries@),
                defined_schema(pairs.take(at as int), commas_as_lists) == Ok::<
                    Seq<(Seq<char>, Taxonomy)>,
                    ConfigFault,
                >(schema@),
            decreases entries.len() - at,
        {
            proof {
                assert(pairs.take(at + 1).drop_last() =~= pairs.take(at as int));
                assert(pairs.take(at + 1).last() == pairs[at as int]);
                lemma_first_fault_stays(pairs, at + 1, commas_as_lists);
            }
            let name = match &entries[at].0 {
                RawValue::String(name) => name,
                _ => {
                    return Err(ConfigError::UnnamedTaxonomy);
                },
            };
            let taxonomy = match Taxonomy::from_definition(&entries[at].1, commas_as_lists) {
                Ok(taxonomy) => taxonomy,
                Err(fault) => {
                    return Err(ConfigError::Taxonomy { name: name.clone(), fault });
                },
            };
            if !schema.define(name.clone(), taxonomy) {
                return Err(ConfigError::Taxonomy { name: name.clone(), fault: Fault::Duplicate });
            }
            at += 1;
        }
        assert(pairs.take(at as int) =~= pairs);
        Ok(schema)
    }
}

/// A fault among the first entries is the fault of all of them.
proof fn lemma_first_fault_stays(entries: Seq<(Value, Value)>, upto: int, commas_as_lists: bool)
    requires
        0 <= upto <= entries.len(),
    ensures
        defined_schema(entries.take(upto), commas_as_lists) is Err ==> defined_schema(
            entries,
            commas_as_lists,
        ) == defined_schema(entries.take(upto), commas_as_lists),
    decreases entries.len() - upto,
{
    if upto < entries.len() {
        assert(entries.take(upto + 1).drop_last() =~= entries.take(upto));
        lemma_first_fault_stays(entries, upto + 1, commas_as_lists);
    } else {
        assert(entries.take(upto) =~= entries);
    }
}

/// What a configuration document settles.
pub struct Settings {
    pub content: Seq<char>,
    pub output: Seq<char>,
    pub template: Seq<char>,
    pub taxonomies: Seq<(Seq<char>, Taxonomy)>,
}

/// What the mapping `root` of a configuration document settles.
///
/// `content_directory` and `output_directory` are texts. `structure` is a
/// mapping: its `directory` is a text; its `taxonomies`, where there are
/// any, map the name of each taxonomy to its definition; and its `rules`
/// may set `commas_as_lists`, which holds for every tag-like taxonomy.
pub open spec fn settings_of(root: Seq<(Value, Value)>) -> Result<Settings, ConfigFault> {
    if text_under(root, Key::ContentDirectory) is Err {
        Err(text_under(root, Key::ContentDirectory)->Err_0)
    } else if text_under(root, Key::OutputDirectory) is Err {
        Err(text_under(root, Key::OutputDirectory)->Err_0)
    } else {
        match field_of(root, key_text(Key::Structure)) {
            None => Err(ConfigFault::Missing(Key::Structure)),
            Some(Value::Mapping(structure)) => structure_settings(
                structure,
                text_under(root, Key::ContentDirectory)->Ok_0,
                text_under(root, Key::OutputDirectory)->Ok_0,
            ),
            Some(_) => Err(ConfigFault::Invalid(Key::Structure)),
        }
    }
}

/// What the mapping under `structure` settles, beside the two directories
/// that stand above it.
pub open spec fn structure_settings(
    structure: Seq<(Value, Value)>,
    content: Seq<char>,
    output: Seq<char>,
) -> Result<Settings, ConfigFault> {
    if text_under(structure, Key::Directory) is Err {
        Err(text_under(structure, Key::Directory)->Err_0)
    } else if mapping_under(structure, Key::Rules) is Err {
        Err(mapping_under(structure, Key::Rules)->Err_0)
    } else if flag_under(
        mapping_under(structure, Key::Rules)->Ok_0,
        key_text(Key::CommasAsLists),
    ) is None {
        Err(ConfigFault::Invalid(Key::CommasAsLists))
    } else if mapping_under(structure, Key::Taxonomies) is Err {
        Err(mapping_under(structure, Key::Taxonomies)->Err_0)
    } else {
        match defined_schema(
            mapping_under(structure, Key::Taxonomies)->Ok_0,
            flag_under(mapping_under(structure, Key::Rules)->Ok_0, key_text(Key::CommasAsLists))->0,
        ) {
            Err(fault) => Err(fault),
            Ok(taxonomies) => Ok(
                Settings {
                    content,
                    output,
                    template: text_under(structure, Key::Directory)->Ok_0,
                    taxonomies,
                },
            ),
        }
    }
}

/// What the first of `documents` settles; the others are not looked at.
pub open spec fn document_settings(documents: Seq<Value>) -> Result<Settings, ConfigFault> {
    if documents.len() == 0 {
        Err(ConfigFault::Empty)
    } else {
        match documents[0] {
            Value::Mapping(root) => settings_of(root),
            _ => Err(ConfigFault::NotAMap),
        }
    }
}

/// Whether `result` is what reading `documents` as a configuration gives:
/// the fault of the documents, or a configuration with their settings, a
/// site of which nothing is known, and `base.html` as the layout of items.
pub open spec fn reads_as(result: Result<Config, ConfigError>, documents: Seq<Value>) -> bool {
    match result {
        Ok(config) => {
            &&& document_settings(documents) == Ok::<Settings, ConfigFault>(
                Settings {
                    content: config.directories.content@,
                    output: config.directories.output@,
                    template: config.directories.template@,
                    taxonomies: config.taxonomies@,
                },
            )
            &&& config.site.name@.len() == 0
            &&& config.site.description@.len() == 0
            &&& config.site.metadata@.len() == 0
            &&& config.site.url@.len() == 0
            &&& config.templates.item_layout() == "base.html"@
        },
        Err(error) => document_settings(documents) == Err::<Settings, ConfigFault>(error@),
    }
}

/// The text that has to stand under `key`.
fn read_text(entries: &Vec<(RawValue, RawValue)>, key: Key) -> (text: Result<String, ConfigError>)
    ensures
        match text {
            Ok(text) => text_under(pairs_of(entries@), key) == Ok::<Seq<char>, ConfigFault>(text@),
            Err(error) => text_under(pairs_of(entries@), key) == Err::<Seq<char>, ConfigFault>(
                error@,
            ),
        },
{
    match field(entries, key.text()) {
        None => Err(ConfigError::Missing(key)),
        Some(RawValue::String(text)) => Ok(text.clone()),
        Some(_) => Err(ConfigError::Invalid(key)),
    }
}

/// The mapping that may stand under `key`: `None` where the key is left
/// out.
fn read_mapping<'a>(entries: &'a Vec<(RawValue, RawValue)>, key: Key) -> (inner: Result<
    Option<&'a Vec<(RawValue, RawValue)>>,
    ConfigError,
>)
    ensures
        match inner {
            Ok(Some(inner)) => mapping_under(pairs_of(entries@), key) == Ok::<
                Seq<(Value, Value)>,
                ConfigFault,
            >(pairs_of(inner@)),
            Ok(None) => mapping_under(pairs_of(entries@), key) == Ok::<
                Seq<(Value, Value)>,
                ConfigFault,
            >(Seq::empty()),
            Err(error) => mapping_under(pairs_of(entries@), key) == Err::<
                Seq<(Value, Value)>,
                ConfigFault,
            >(error@),
        },
{
    match field(entries, key.text()) {
        None => Ok(None),
        Some(RawValue::Null) => Ok(None),
        Some(RawValue::Mapping(inner)) => Ok(Some(inner)),
        Some(_) => Err(ConfigError::Invalid(key)),
    }
}

impl Config {
    /// Reads a configuration from the documents of its file.
    pub fn from_documents(documents: &Vec<RawValue>) -> (result: Result<Config, ConfigError>)
        ensures
            reads_as(result, values_of(documents@)),
    {
        if documents.len() == 0 {
            return Err(ConfigError::Empty);
        }
        let root = match &documents[0] {
            RawValue::Mapping(root) => root,
            _ => {
                return Err(ConfigError::NotAMap);
            },
        };
        let content = match read_text(root, Key::ContentDirectory) {
            Ok(text) => text,
            Err(error) => {
                return Err(error);
            },
        };
        let output = match read_text(root, Key::OutputDirectory) {
            Ok(text) => text,
            Err(error) => {
                return Err(error);
            },
        };
        let structure = match field(root, Key::Structure.text()) {
            None => {
                return Err(ConfigError::Missing(Key::Structure));
            },
            Some(RawValue::Mapping(structure)) => structure,
            Some(_) => {
                return Err(ConfigError::Invalid(Key::Structure));
            },
        };
        let template = match read_text(structure, Key::Directory) {
            Ok(text) => text,
            Err(error) => {
                return Err(error);
            },
        };
        let nothing: Vec<(RawValue, RawValue)> = Vec::new();
        assert(pairs_of(nothing@) =~= Seq::<(Value, Value)>::empty());
        let rules = match read_mapping(structure, Key::Rules) {
            Ok(Some(rules)) => rules,
            Ok(None) => &nothing,
            Err(error) => {
                return Err(error);
            },
        };
        let commas_as_lists = match read_flag(rules, Key::CommasAsLists.text()) {
            Some(flag) => flag,
            None => {
                return Err(ConfigError::Invalid(Key::CommasAsLists));
            },
        };
        let definitions = match read_mapping(structure, Key::Taxonomies) {
            Ok(Some(definitions)) => definitions,
            Ok(None) => &nothing,
            Err(error) => {
                return Err(error);
            },
        };
        let taxonomies = match Schema::from_definitions(definitions, commas_as_lists) {
            Ok(schema) => schema,
            Err(error) => {
                return Err(error);
            },
        };
        Ok(
            Config {
                site: Site {
                    name: String::new(),
                    description: String::new(),
                    metadata: Vec::new(),
                    url: ValidatedUrl(String::new()),
                },
                directories: Directories { content, output, template },
                taxonomies,
                templates: Templates::new("base.html".to_owned()),
            },
        )
    }
}

/// Reads the configuration of a site from the text of its file: YAML whose
/// first document says where the directories are and which taxonomies the
/// site has.
pub fn load(contents: &str) -> (result: Result<Config, ConfigError>)
    ensures
        match yaml_documents(contents@) {
            Some(documents) => reads_as(result, documents),
            None => result matches Err(ConfigError::Syntax(_)),
        },
{
    match parse(contents) {
        Ok(documents) => Config::from_documents(&documents),
        Err(words) => Err(ConfigError::Syntax(words)),
    }
}

} // verus!
