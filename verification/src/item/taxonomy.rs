//! The taxonomy values of an item, read from its front matter.

use crate::config;
use crate::config::Config;
use crate::names::{distinct, lemma_place, place, NameMap};
use crate::raw::{field, field_of, pairs_of, values_of, RawValue, Value};
use crate::report::{ErrorReport, Reason};
use crate::text::{copy_all, split, split_on, texts};
use crate::time::{rfc3339_timestamp, Timestamp};
use vstd::prelude::*;

verus! {

/// The levels of one tag, outermost first. A tag that is no path has one
/// level.
pub type PathSegments = Vec<String>;

/// The value that an item has in one taxonomy.
#[derive(Clone, Debug, PartialEq, Eq)]
#[allow(inconsistent_fields)]
pub enum Taxonomy {
    Boolean { name: String, value: bool },
    TagLike { name: String, values: Vec<PathSegments> },
    Temporal { name: String, value: Timestamp },
}

/// The mathematical content of a [`Taxonomy`].
#[allow(inconsistent_fields)]
pub enum TaxonomyView {
    Boolean { name: Seq<char>, value: bool },
    TagLike { name: Seq<char>, values: Seq<Seq<Seq<char>>> },
    Temporal { name: Seq<char>, value: Timestamp },
}

/// The texts of a run of segment lists, in order.
pub open spec fn paths(values: Seq<PathSegments>) -> Seq<Seq<Seq<char>>> {
    Seq::new(values.len(), |i: int| texts(values[i]@))
}

impl View for Taxonomy {
    type V = TaxonomyView;

    open spec fn view(&self) -> TaxonomyView {
        match self {
            Taxonomy::Boolean { name, value } => TaxonomyView::Boolean {
                name: name@,
                value: *value,
            },
            Taxonomy::TagLike { name, values } => TaxonomyView::TagLike {
                name: name@,
                values: paths(values@),
            },
            Taxonomy::Temporal { name, value } => TaxonomyView::Temporal {
                name: name@,
                value: *value,
            },
        }
    }
}

/// The values that a text stands for: its pieces between commas where commas
/// make lists, and else the text alone.
pub open spec fn tag_values(text: Seq<char>, commas_as_lists: bool) -> Seq<Seq<char>> {
    if commas_as_lists {
        split(text, ',')
    } else {
        seq![text]
    }
}

/// The segment lists of a run of values: one list for each value, cut at
/// every `/`, where the taxonomy is hierarchical, and else all values
/// together as one list.
pub open spec fn path_segments(values: Seq<Seq<char>>, hierarchical: bool) -> Seq<
    Seq<Seq<char>>,
> {
    if hierarchical {
        Seq::new(values.len(), |i: int| split(values[i], '/'))
    } else {
        seq![values]
    }
}

/// Whether `other` is of the type of `first`. An alias is of no type, not
/// even its own.
pub open spec fn same_type(first: Value, other: Value) -> bool {
    match first {
        Value::Real(_) => other is Real,
        Value::Integer(_) => other is Integer,
        Value::String(_) => other is String,
        Value::Boolean(_) => other is Boolean,
        Value::Sequence(_) => other is Sequence,
        Value::Mapping(_) => other is Mapping,
        Value::Alias(_) => false,
        Value::Null => other is Null,
        Value::BadValue => other is BadValue,
    }
}

/// Whether all of `items` are of the type of the first of them.
pub open spec fn uniform(items: Seq<Value>) -> bool {
    forall|i: int| 0 <= i < items.len() ==> same_type(items[0], #[trigger] items[i])
}

/// Whether all of `items` are texts.
pub open spec fn all_strings(items: Seq<Value>) -> bool {
    forall|i: int| 0 <= i < items.len() ==> (#[trigger] items[i]) is String
}

/// The texts of `items`, in order.
pub open spec fn strings_of(items: Seq<Value>) -> Seq<Seq<char>> {
    Seq::new(items.len(), |i: int| items[i]->String_0)
}

/// The values that the text of a tag-like entry stands for.
pub fn get_taxonomy_values(taxonomy_string: &str, commas_as_lists: bool) -> (values: Vec<String>)
    ensures
        texts(values@) == tag_values(taxonomy_string@, commas_as_lists),
{
    if commas_as_lists {
        split_on(taxonomy_string, ',')
    } else {
        let mut values: Vec<String> = Vec::new();
        values.push(taxonomy_string.to_owned());
        assert(texts(values@) =~= seq![taxonomy_string@]);
        values
    }
}

/// The segment lists of the values of a tag-like entry.
pub fn get_split_taxonomy_values(taxonomy_values: &Vec<String>, hierarchical: bool) -> (segments:
    Vec<PathSegments>)
    ensures
        paths(segments@) == path_segments(texts(taxonomy_values@), hierarchical),
{
    let mut segments: Vec<PathSegments> = Vec::new();
    if hierarchical {
        let mut at: usize = 0;
        while at < taxonomy_values.len()
            invariant
                at <= taxonomy_values.len(),
                segments.len() == at,
                forall|i: int|
                    0 <= i < at ==> texts(#[trigger] segments@[i]@) == split(
                        taxonomy_values@[i]@,
                        '/',
                    ),
            decreases taxonomy_values.len() - at,
        {
            segments.push(split_on(taxonomy_values[at].as_str(), '/'));
            at += 1;
        }
        assert(paths(segments@) =~= path_segments(texts(taxonomy_values@), hierarchical));
    } else {
        segments.push(copy_all(taxonomy_values));
        assert(paths(segments@) =~= seq![texts(taxonomy_values@)]);
    }
    segments
}

/// Whether `other` is of the type of `first`.
fn is_same_variant(first: &RawValue, other: &RawValue) -> (same: bool)
    ensures
        same == same_type(first@, other@),
{
    match first {
        RawValue::Real(_) => matches!(other, RawValue::Real(_)),
        RawValue::Integer(_) => matches!(other, RawValue::Integer(_)),
        RawValue::String(_) => matches!(other, RawValue::String(_)),
        RawValue::Boolean(_) => matches!(other, RawValue::Boolean(_)),
        RawValue::Sequence(_) => matches!(other, RawValue::Sequence(_)),
        RawValue::Mapping(_) => matches!(other, RawValue::Mapping(_)),
        RawValue::Alias(_) => false,
        RawValue::Null => matches!(other, RawValue::Null),
        RawValue::BadValue => matches!(other, RawValue::BadValue),
    }
}

/// Whether all of `values` are of the type of the first of them.
pub fn all_of_same_yaml_type(values: &Vec<RawValue>) -> (same: bool)
    ensures
        same == uniform(values_of(values@)),
{
    let ghost items = values_of(values@);
    let mut at: usize = 0;
    while at < values.len()
        invariant
            at <= values.len(),
            items == values_of(values@),
            forall|i: int| 0 <= i < at ==> same_type(items[0], #[trigger] items[i]),
        decreases values.len() - at,
    {
        if !is_same_variant(&values[0], &values[at]) {
            assert(!same_type(items[0], items[at as int]));
            return false;
        }
        at += 1;
    }
    true
}

/// The texts of `values`, or `None` where one of them is no text.
pub fn extract_values(values: &Vec<RawValue>) -> (extracted: Option<Vec<String>>)
    ensures
        match extracted {
            Some(strings) => all_strings(values_of(values@)) && texts(strings@) == strings_of(
                values_of(values@),
            ),
            None => !all_strings(values_of(values@)),
        },
{
    let ghost items = values_of(values@);
    let mut strings: Vec<String> = Vec::new();
    let mut at: usize = 0;
    while at < values.len()
        invariant
            at <= values.len(),
            items == values_of(values@),
            strings.len() == at,
            forall|i: int| 0 <= i < at ==> (#[trigger] items[i]) is String,
            forall|i: int| 0 <= i < at ==> (#[trigger] strings@[i])@ == items[i]->String_0,
        decreases values.len() - at,
    {
        match &values[at] {
            RawValue::String(text) => {
                strings.push(text.clone());
            },
            _ => {
                assert(!(items[at as int] is String));
                return None;
            },
        }
        at += 1;
    }
    assert(texts(strings@) =~= strings_of(items));
    Some(strings)
}

/// What becomes of one field of an item.
pub enum Outcome {
    /// The item has this value.
    Resolved(TaxonomyView),
    /// The item has no value, and needs none.
    Skipped,
    /// The value is turned down.
    Failed(Reason),
}

/// What becomes of a field that the front matter leaves out.
pub open spec fn absent(entry: config::Taxonomy) -> Outcome {
    if entry.requires_value() {
        Outcome::Failed(Reason::Missing)
    } else {
        Outcome::Skipped
    }
}

/// The values that a raw value stands for where tags are expected: the
/// values of a text, or the texts of a list whose items are all texts.
pub open spec fn tag_like_values(value: Value, commas_as_lists: bool) -> Result<
    Seq<Seq<char>>,
    Reason,
> {
    match value {
        Value::String(text) => Ok(tag_values(text, commas_as_lists)),
        Value::Sequence(items) => if !uniform(items) {
            Err(Reason::MixedTypes)
        } else if !all_strings(items) {
            Err(Reason::NotStrings)
        } else {
            Ok(strings_of(items))
        },
        Value::Mapping(_) => Err(Reason::UnsupportedMapping),
        _ => Err(Reason::NotTagLike),
    }
}

/// What becomes of values where tags are expected: they are turned down
/// where they are more than the limit, and else cut into segments.
pub open spec fn tag_like_outcome(
    values: Seq<Seq<char>>,
    name: Seq<char>,
    hierarchical: bool,
    limit: Option<u64>,
) -> Outcome {
    if limit is Some && values.len() > limit->0 {
        Outcome::Failed(Reason::TooMany { limit: limit->0 })
    } else {
        Outcome::Resolved(
            TaxonomyView::TagLike { name, values: path_segments(values, hierarchical) },
        )
    }
}

/// What becomes of a text where a date is expected, once it was parsed.
pub open spec fn temporal_outcome(name: Seq<char>, parsed: Option<Timestamp>) -> Outcome {
    match parsed {
        Some(value) => Outcome::Resolved(TaxonomyView::Temporal { name, value }),
        None => Outcome::Failed(Reason::NotTemporal),
    }
}

/// What becomes of the field `name`, which the schema defines by `entry` and
/// the front matter gives as `value`. A null value counts as left out.
pub open spec fn outcome(value: Value, name: Seq<char>, entry: config::Taxonomy) -> Outcome {
    if value is Null {
        absent(entry)
    } else {
        match entry {
            config::Taxonomy::Boolean { .. } => match value {
                Value::Boolean(flag) => Outcome::Resolved(
                    TaxonomyView::Boolean { name, value: flag },
                ),
                _ => Outcome::Failed(Reason::NotBoolean),
            },
            config::Taxonomy::TagLike { hierarchical, limit, commas_as_lists, .. } => match tag_like_values(
                value,
                commas_as_lists,
            ) {
                Ok(values) => tag_like_outcome(values, name, hierarchical, limit),
                Err(reason) => Outcome::Failed(reason),
            },
            config::Taxonomy::Temporal { .. } => match value {
                Value::String(text) => temporal_outcome(name, rfc3339_timestamp(text)),
                _ => Outcome::Failed(Reason::NotTemporal),
            },
        }
    }
}

/// The outcome that a result of [`Taxonomy::from_entry`] stands for.
pub open spec fn outcome_of(result: Result<Option<Taxonomy>, Reason>) -> Outcome {
    match result {
        Ok(Some(taxonomy)) => Outcome::Resolved(taxonomy@),
        Ok(None) => Outcome::Skipped,
        Err(reason) => Outcome::Failed(reason),
    }
}

impl Taxonomy {
    /// The name of the taxonomy that this is a value of.
    pub open spec fn name_text(&self) -> Seq<char> {
        match self {
            Taxonomy::Boolean { name, .. } => name@,
            Taxonomy::TagLike { name, .. } => name@,
            Taxonomy::Temporal { name, .. } => name@,
        }
    }

    /// The name of the taxonomy that this is a value of.
    pub fn name(&self) -> (name: &String)
        ensures
            name@ == self.name_text(),
    {
        match self {
            Taxonomy::Boolean { name, .. } => name,
            Taxonomy::TagLike { name, .. } => name,
            Taxonomy::Temporal { name, .. } => name,
        }
    }

    /// The value of the tag-like taxonomy `name` that `values` make up.
    pub fn tag_like(
        values: &Vec<String>,
        name: &str,
        hierarchical: bool,
        limit: Option<u64>,
    ) -> (result: Result<Option<Taxonomy>, Reason>)
        ensures
            outcome_of(result) == tag_like_outcome(texts(values@), name@, hierarchical, limit),
    {
        match limit {
            Some(limit) if values.len() as u64 > limit => Err(Reason::TooMany { limit }),
            _ => Ok(
                Some(
                    Taxonomy::TagLike {
                        name: name.to_owned(),
                        values: get_split_taxonomy_values(values, hierarchical),
                    },
                ),
            ),
        }
    }

    /// The value of the temporal taxonomy `name` that a parsed text makes.
    pub fn temporal(name: &str, parsed: Option<Timestamp>) -> (result: Result<
        Option<Taxonomy>,
        Reason,
    >)
        ensures
            outcome_of(result) == temporal_outcome(name@, parsed),
    {
        match parsed {
            Some(value) => Ok(Some(Taxonomy::Temporal { name: name.to_owned(), value })),
            None => Err(Reason::NotTemporal),
        }
    }

    /// Reads the value of the taxonomy `name` from what the front matter
    /// holds for it: `Ok(None)` where nothing is given and nothing needed,
    /// and the reason where the value does not fit the definition.
    pub fn from_entry(entry: &RawValue, name: &str, config_taxonomy: &config::Taxonomy) -> (result:
        Result<Option<Taxonomy>, Reason>)
        ensures
            outcome_of(result) == outcome(entry@, name@, *config_taxonomy),
    {
        if let RawValue::Null = entry {
            return if config_taxonomy.is_required() {
                Err(Reason::Missing)
            } else {
                Ok(None)
            };
        }
        match config_taxonomy {
            config::Taxonomy::Boolean { .. } => match entry {
                RawValue::Boolean(value) => Ok(
                    Some(Taxonomy::Boolean { name: name.to_owned(), value: *value }),
                ),
                _ => Err(Reason::NotBoolean),
            },
            config::Taxonomy::TagLike { hierarchical, limit, commas_as_lists, .. } => match entry {
                RawValue::String(taxonomy_string) => {
                    let taxonomy_values = get_taxonomy_values(
                        taxonomy_string.as_str(),
                        *commas_as_lists,
                    );
                    Taxonomy::tag_like(&taxonomy_values, name, *hierarchical, *limit)
                },
                RawValue::Sequence(values) => {
                    if !all_of_same_yaml_type(values) {
                        Err(Reason::MixedTypes)
                    } else {
                        match extract_values(values) {
                            Some(taxonomy_values) => Taxonomy::tag_like(
                                &taxonomy_values,
                                name,
                                *hierarchical,
                                *limit,
                            ),
                            None => Err(Reason::NotStrings),
                        }
                    }
                },
                RawValue::Mapping(_) => Err(Reason::UnsupportedMapping),
                _ => Err(Reason::NotTagLike),
            },
            config::Taxonomy::Temporal { .. } => match entry {
                RawValue::String(text) => Taxonomy::temporal(name, Timestamp::parse(text.as_str())),
                _ => Err(Reason::NotTemporal),
            },
        }
    }
}

/// What the front matter holds for the field `name`: the value under the
/// key that the name is read as, and null where there is no such key.
pub open spec fn given(front: Seq<(Value, Value)>, name: Seq<char>) -> Value {
    match field_of(front, name) {
        Some(value) => value,
        None => Value::Null,
    }
}

/// What becomes of the field `name` of the front matter `front`.
pub open spec fn field_outcome(
    front: Seq<(Value, Value)>,
    name: Seq<char>,
    entry: config::Taxonomy,
) -> Outcome {
    outcome(given(front, name), name, entry)
}

/// The values that `front` has in the taxonomies of `schema`, each under the
/// name of its taxonomy, in the order of the schema.
pub open spec fn successes(
    front: Seq<(Value, Value)>,
    schema: Seq<(Seq<char>, config::Taxonomy)>,
) -> Seq<(Seq<char>, TaxonomyView)>
    decreases schema.len(),
{
    if schema.len() == 0 {
        Seq::empty()
    } else {
        let before = successes(front, schema.drop_last());
        match field_outcome(front, schema.last().0, schema.last().1) {
            Outcome::Resolved(value) => before.push((schema.last().0, value)),
            _ => before,
        }
    }
}

/// The taxonomies of `schema` in which `front` has no acceptable value, each
/// with the reason, in the order of the schema.
pub open spec fn failures(
    front: Seq<(Value, Value)>,
    schema: Seq<(Seq<char>, config::Taxonomy)>,
) -> Seq<(Seq<char>, Reason)>
    decreases schema.len(),
{
    if schema.len() == 0 {
        Seq::empty()
    } else {
        let before = failures(front, schema.drop_last());
        match field_outcome(front, schema.last().0, schema.last().1) {
            Outcome::Failed(reason) => before.push((schema.last().0, reason)),
            _ => before,
        }
    }
}

/// What comes of reading `front` against `schema`: all values where nothing
/// fails, and else all failures and no value.
pub open spec fn resolution(
    front: Seq<(Value, Value)>,
    schema: Seq<(Seq<char>, config::Taxonomy)>,
) -> Result<Seq<(Seq<char>, TaxonomyView)>, Seq<(Seq<char>, Reason)>> {
    if failures(front, schema).len() == 0 {
        Ok(successes(front, schema))
    } else {
        Err(failures(front, schema))
    }
}

/// The contents of a run of named taxonomy values.
pub open spec fn taxonomy_views(entries: Seq<(Seq<char>, Taxonomy)>) -> Seq<
    (Seq<char>, TaxonomyView),
> {
    Seq::new(entries.len(), |i: int| (entries[i].0, entries[i].1@))
}

/// The resolution that a result of [`Taxonomy::from_yaml_hash`] stands for.
pub open spec fn resolved_view(result: Result<NameMap<Taxonomy>, ErrorReport>) -> Result<
    Seq<(Seq<char>, TaxonomyView)>,
    Seq<(Seq<char>, Reason)>,
> {
    match result {
        Ok(taxonomies) => Ok(taxonomy_views(taxonomies@)),
        Err(report) => Err(report@),
    }
}

/// Whether `name` is the name of an entry of `schema`.
pub open spec fn defines(schema: Seq<(Seq<char>, config::Taxonomy)>, name: Seq<char>) -> bool {
    exists|i: int| 0 <= i < schema.len() && (#[trigger] schema[i]).0 == name
}

/// Every value and every failure stands under a name of the schema.
pub proof fn lemma_names_come_from_schema(
    front: Seq<(Value, Value)>,
    schema: Seq<(Seq<char>, config::Taxonomy)>,
)
    ensures
        forall|k: int|
            0 <= k < successes(front, schema).len() ==> defines(
                schema,
                (#[trigger] successes(front, schema)[k]).0,
            ),
        forall|k: int|
            0 <= k < failures(front, schema).len() ==> defines(
                schema,
                (#[trigger] failures(front, schema)[k]).0,
            ),
    decreases schema.len(),
{
    if schema.len() > 0 {
        let shorter = schema.drop_last();
        lemma_names_come_from_schema(front, shorter);
        let last = schema.len() - 1;
        assert forall|k: int| 0 <= k < successes(front, schema).len() implies defines(
            schema,
            (#[trigger] successes(front, schema)[k]).0,
        ) by {
            if k < successes(front, shorter).len() {
                let name = successes(front, shorter)[k].0;
                assert(defines(shorter, name));
                let i = choose|i: int| 0 <= i < shorter.len() && (#[trigger] shorter[i]).0 == name;
                assert(schema[i].0 == name);
            } else {
                assert(schema[last].0 == successes(front, schema)[k].0);
            }
        }
        assert forall|k: int| 0 <= k < failures(front, schema).len() implies defines(
            schema,
            (#[trigger] failures(front, schema)[k]).0,
        ) by {
            if k < failures(front, shorter).len() {
                let name = failures(front, shorter)[k].0;
                assert(defines(shorter, name));
                let i = choose|i: int| 0 <= i < shorter.len() && (#[trigger] shorter[i]).0 == name;
                assert(schema[i].0 == name);
            } else {
                assert(schema[last].0 == failures(front, schema)[k].0);
            }
        }
    }
}

/// Among distinct names, the name at `at` is none of those before it.
proof fn lemma_fresh_name(schema: Seq<(Seq<char>, config::Taxonomy)>, at: int)
    requires
        distinct(schema),
        0 <= at < schema.len(),
    ensures
        !defines(schema.take(at), schema[at].0),
{
    if defines(schema.take(at), schema[at].0) {
        let i = choose|i: int|
            0 <= i < schema.take(at).len() && (#[trigger] schema.take(at)[i]).0 == schema[at].0;
        assert(schema[i].0 == schema[at].0);
    }
}

impl Taxonomy {
    /// Reads the values of all taxonomies of the site from the front matter
    /// of one item. Every taxonomy is looked at, whatever became of the
    /// others: where any value is turned down, the result is the report of
    /// all that were, and no value.
    pub fn from_yaml_hash(metadata: &Vec<(RawValue, RawValue)>, config: &Config) -> (result:
        Result<NameMap<Taxonomy>, ErrorReport>)
        ensures
            resolved_view(result) == resolution(pairs_of(metadata@), config.taxonomies@),
            result matches Err(report) ==> report@.len() > 0,
    {
        let schema = &config.taxonomies;
        let count = schema.len();
        let ghost front = pairs_of(metadata@);
        let ghost defined = schema@;
        let absent = RawValue::Null;
        let mut taxonomies: NameMap<Taxonomy> = NameMap::new();
        let mut errs = ErrorReport::new();
        let mut at: usize = 0;
        assert(defined.take(0) =~= Seq::<(Seq<char>, config::Taxonomy)>::empty());
        assert(taxonomy_views(taxonomies@) =~= successes(front, defined.take(0)));
        while at < count
            invariant
                at <= count,
                count == defined.len(),
                defined == schema@,
                front == pairs_of(metadata@),
                distinct(defined),
                absent@ == Value::Null,
                taxonomy_views(taxonomies@) == successes(front, defined.take(at as int)),
                errs@ == failures(front, defined.take(at as int)),
            decreases count - at,
        {
            let name = schema.name_at(at);
            let taxonomy = schema.entry_at(at);
            let value = match field(metadata, name.as_str()) {
                Some(value) => value,
                None => &absent,
            };
            assert(value@ == given(front, name@));
            let ghost earlier = defined.take(at as int);
            let ghost values_before = taxonomies@;
            proof {
                assert(defined.take(at + 1).drop_last() =~= earlier);
                assert(defined.take(at + 1).last() == defined[at as int]);
                lemma_names_come_from_schema(front, earlier);
                lemma_fresh_name(defined, at as int);
                lemma_place(taxonomies@, name@);
                lemma_place(errs@, name@);
                if place(taxonomies@, name@) is Some {
                    let k = place(taxonomies@, name@)->0;
                    assert(taxonomy_views(taxonomies@)[k].0 == name@);
                    assert(defines(earlier, successes(front, earlier)[k].0));
                }
                if place(errs@, name@) is Some {
                    let k = place(errs@, name@)->0;
                    assert(defines(earlier, failures(front, earlier)[k].0));
                }
            }
            match Taxonomy::from_entry(value, name.as_str(), &taxonomy) {
                Ok(Some(taxonomy)) => {
                    taxonomies.insert(name.clone(), taxonomy);
                    assert(taxonomy_views(taxonomies@) =~= taxonomy_views(values_before).push(
                        (name@, taxonomy@),
                    ));
                },
                Ok(None) => {},
                Err(reason) => {
                    errs.insert(name.clone(), reason);
                },
            }
            at += 1;
        }
        assert(defined.take(at as int) =~= defined);
        if errs.is_empty() {
            Ok(taxonomies)
        } else {
            Err(errs)
        }
    }
}

} // verus!
