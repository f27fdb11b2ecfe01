use lightning::config;
use lightning::config::{Config, Directories, Schema, Site, Templates, ValidatedUrl};
use lightning::item::taxonomy::{
    all_of_same_yaml_type, extract_values, get_split_taxonomy_values, get_taxonomy_values,
    Taxonomy,
};
use lightning::raw::RawValue;
use lightning::report::Reason;
use lightning::time::Timestamp;

fn text(value: &str) -> RawValue {
    RawValue::String(value.to_owned())
}

fn strings(values: &[&str]) -> Vec<String> {
    values.iter().map(|value| value.to_string()).collect()
}

fn site(taxonomies: Vec<(&str, config::Taxonomy)>) -> Config {
    let mut schema = Schema::new();
    for (name, entry) in taxonomies {
        assert!(schema.define(name.to_owned(), entry));
    }
    Config {
        site: Site {
            name: String::new(),
            description: String::new(),
            metadata: Vec::new(),
            url: ValidatedUrl::new("https://example.com/".to_owned()).unwrap(),
        },
        directories: Directories {
            content: "content".to_owned(),
            output: "output".to_owned(),
            template: "layout".to_owned(),
        },
        taxonomies: schema,
        templates: Templates::new("base.html".to_owned()),
    }
}

fn tags(hierarchical: bool, limit: Option<u64>, commas_as_lists: bool) -> config::Taxonomy {
    config::Taxonomy::TagLike { required: false, hierarchical, limit, commas_as_lists }
}

fn tag_like(name: &str, values: &[&[&str]]) -> Taxonomy {
    Taxonomy::TagLike {
        name: name.to_owned(),
        values: values.iter().map(|segments| strings(segments)).collect(),
    }
}

#[test]
fn values_of_a_text_follow_the_comma_rule() {
    assert_eq!(get_taxonomy_values("a,b,c", true), strings(&["a", "b", "c"]));
    assert_eq!(get_taxonomy_values("a,b,c", false), strings(&["a,b,c"]));
    assert_eq!(get_taxonomy_values("", true), strings(&[""]));
    assert_eq!(get_taxonomy_values("a, b", true), strings(&["a", " b"]));
}

#[test]
fn hierarchical_values_are_cut_at_slashes() {
    let values = strings(&["fiction/scifi", "poetry"]);
    assert_eq!(
        get_split_taxonomy_values(&values, true),
        vec![strings(&["fiction", "scifi"]), strings(&["poetry"])]
    );
}

#[test]
fn flat_values_stay_together_as_one_list() {
    let values = strings(&["fiction/scifi", "poetry"]);
    assert_eq!(
        get_split_taxonomy_values(&values, false),
        vec![strings(&["fiction/scifi", "poetry"])]
    );
    assert_eq!(get_split_taxonomy_values(&Vec::new(), false), vec![Vec::<String>::new()]);
    assert_eq!(get_split_taxonomy_values(&Vec::new(), true), Vec::<Vec<String>>::new());
}

#[test]
fn a_list_is_uniform_when_all_items_are_of_the_first_type() {
    assert!(all_of_same_yaml_type(&Vec::new()));
    assert!(all_of_same_yaml_type(&vec![text("a"), text("b")]));
    assert!(all_of_same_yaml_type(&vec![RawValue::Integer(1), RawValue::Integer(2)]));
    assert!(all_of_same_yaml_type(&vec![RawValue::Null, RawValue::Null]));
    assert!(!all_of_same_yaml_type(&vec![text("a"), RawValue::Integer(2)]));
    assert!(!all_of_same_yaml_type(&vec![RawValue::Boolean(true), text("a")]));
    assert!(!all_of_same_yaml_type(&vec![RawValue::Alias(1)]));
    assert!(!all_of_same_yaml_type(&vec![RawValue::Alias(1), RawValue::Alias(1)]));
}

#[test]
fn only_lists_of_texts_give_values() {
    assert_eq!(extract_values(&vec![text("a"), text("b")]), Some(strings(&["a", "b"])));
    assert_eq!(extract_values(&Vec::new()), Some(Vec::new()));
    assert_eq!(extract_values(&vec![text("a"), RawValue::Integer(1)]), None);
    assert_eq!(extract_values(&vec![RawValue::Boolean(true)]), None);
}

#[test]
fn a_flag_takes_truth_values_only() {
    let flag = config::Taxonomy::Boolean { required: false };
    assert_eq!(
        Taxonomy::from_entry(&RawValue::Boolean(true), "featured", &flag),
        Ok(Some(Taxonomy::Boolean { name: "featured".to_owned(), value: true }))
    );
    assert_eq!(
        Taxonomy::from_entry(&RawValue::Boolean(false), "featured", &flag),
        Ok(Some(Taxonomy::Boolean { name: "featured".to_owned(), value: false }))
    );
    assert_eq!(Taxonomy::from_entry(&text("true"), "featured", &flag), Err(Reason::NotBoolean));
    assert_eq!(
        Taxonomy::from_entry(&RawValue::Integer(1), "featured", &flag),
        Err(Reason::NotBoolean)
    );
    assert_eq!(Reason::NotBoolean.text(), "must be true, false, or left off entirely");
}

#[test]
fn a_null_value_counts_as_left_out() {
    for required in [false, true] {
        let entries = [
            config::Taxonomy::Boolean { required },
            config::Taxonomy::TagLike {
                required,
                hierarchical: false,
                limit: None,
                commas_as_lists: false,
            },
            config::Taxonomy::Temporal { required },
        ];
        for entry in entries {
            let result = Taxonomy::from_entry(&RawValue::Null, "field", &entry);
            if required {
                assert_eq!(result, Err(Reason::Missing));
            } else {
                assert_eq!(result, Ok(None));
            }
        }
    }
    assert_eq!(Reason::Missing.text(), "is required but not present");
}

#[test]
fn three_values_against_a_limit_of_two_are_turned_down() {
    let limited = tags(false, Some(2), true);
    let as_text = Taxonomy::from_entry(&text("a,b,c"), "tags", &limited);
    assert_eq!(as_text, Err(Reason::TooMany { limit: 2 }));
    let as_list = Taxonomy::from_entry(
        &RawValue::Sequence(vec![text("a"), text("b"), text("c")]),
        "tags",
        &limited,
    );
    assert_eq!(as_list, Err(Reason::TooMany { limit: 2 }));
    assert_eq!(Reason::TooMany { limit: 2 }.text(), "only 2 values allowed");
    assert_eq!(Reason::TooMany { limit: 120 }.text(), "only 120 values allowed");
}

#[test]
fn values_up_to_the_limit_are_taken() {
    let limited = tags(false, Some(2), true);
    assert_eq!(
        Taxonomy::from_entry(&text("a,b"), "tags", &limited),
        Ok(Some(tag_like("tags", &[&["a", "b"]])))
    );
    let without_commas = tags(false, Some(1), false);
    assert_eq!(
        Taxonomy::from_entry(&text("a,b,c"), "tags", &without_commas),
        Ok(Some(tag_like("tags", &[&["a,b,c"]])))
    );
}

#[test]
fn a_hierarchical_tag_resolves_to_its_path() {
    let hierarchical = tags(true, None, false);
    assert_eq!(
        Taxonomy::from_entry(&text("fiction/scifi"), "genre", &hierarchical),
        Ok(Some(tag_like("genre", &[&["fiction", "scifi"]])))
    );
}

#[test]
fn commas_make_lists_only_where_the_rule_says_so() {
    assert_eq!(
        Taxonomy::from_entry(&text("a,b,c"), "tags", &tags(true, None, true)),
        Ok(Some(tag_like("tags", &[&["a"], &["b"], &["c"]])))
    );
    assert_eq!(
        Taxonomy::from_entry(&text("a,b,c"), "tags", &tags(true, None, false)),
        Ok(Some(tag_like("tags", &[&["a,b,c"]])))
    );
    assert_eq!(
        Taxonomy::from_entry(&text("a,b,c"), "tags", &tags(false, None, false)),
        Ok(Some(tag_like("tags", &[&["a,b,c"]])))
    );
    assert_eq!(
        Taxonomy::from_entry(&text("a,b,c"), "tags", &tags(false, None, true)),
        Ok(Some(tag_like("tags", &[&["a", "b", "c"]])))
    );
}

#[test]
fn a_list_of_texts_gives_tags() {
    let list = RawValue::Sequence(vec![text("fiction/scifi"), text("poetry")]);
    assert_eq!(
        Taxonomy::from_entry(&list, "genre", &tags(true, None, false)),
        Ok(Some(tag_like("genre", &[&["fiction", "scifi"], &["poetry"]])))
    );
    assert_eq!(
        Taxonomy::from_entry(&list, "genre", &tags(false, None, false)),
        Ok(Some(tag_like("genre", &[&["fiction/scifi", "poetry"]])))
    );
}

#[test]
fn a_list_of_mixed_types_is_turned_down() {
    let mixed = RawValue::Sequence(vec![text("a"), RawValue::Integer(2)]);
    assert_eq!(
        Taxonomy::from_entry(&mixed, "tags", &tags(false, None, false)),
        Err(Reason::MixedTypes)
    );
    assert_eq!(Reason::MixedTypes.text(), "not all values were of the same type");
}

#[test]
fn a_list_of_one_type_other_than_text_is_turned_down() {
    let numbers = RawValue::Sequence(vec![RawValue::Integer(1), RawValue::Integer(2)]);
    assert_eq!(
        Taxonomy::from_entry(&numbers, "tags", &tags(false, None, false)),
        Err(Reason::NotStrings)
    );
    let nested = RawValue::Sequence(vec![RawValue::Sequence(vec![text("a")])]);
    assert_eq!(
        Taxonomy::from_entry(&nested, "tags", &tags(false, None, false)),
        Err(Reason::NotStrings)
    );
    assert_eq!(Reason::NotStrings.text(), "can only take strings");
}

#[test]
fn a_mapping_where_tags_are_expected_is_unsupported() {
    let mapping = RawValue::Mapping(vec![(text("name"), text("cycle"))]);
    assert_eq!(
        Taxonomy::from_entry(&mapping, "series", &tags(false, None, false)),
        Err(Reason::UnsupportedMapping)
    );
    assert_eq!(Reason::UnsupportedMapping.text(), "unsupported schema variant");
}

#[test]
fn other_scalars_where_tags_are_expected_are_turned_down_without_words() {
    for value in [
        RawValue::Integer(3),
        RawValue::Boolean(true),
        RawValue::Real("1.5".to_owned()),
        RawValue::Alias(1),
        RawValue::BadValue,
    ] {
        assert_eq!(
            Taxonomy::from_entry(&value, "tags", &tags(false, None, false)),
            Err(Reason::NotTagLike)
        );
    }
    assert_eq!(Reason::NotTagLike.text(), "");
}

#[test]
fn a_temporal_value_is_an_rfc_3339_text() {
    let temporal = config::Taxonomy::Temporal { required: false };
    assert_eq!(
        Taxonomy::from_entry(&text("1996-12-19T16:39:57-08:00"), "published", &temporal),
        Ok(Some(Taxonomy::Temporal {
            name: "published".to_owned(),
            value: Timestamp { seconds: 851042397, nanoseconds: 0, offset: -28800 },
        }))
    );
    assert_eq!(
        Taxonomy::from_entry(&text("yesterday"), "published", &temporal),
        Err(Reason::NotTemporal)
    );
    assert_eq!(
        Taxonomy::from_entry(&RawValue::Integer(1996), "published", &temporal),
        Err(Reason::NotTemporal)
    );
    assert_eq!(
        Taxonomy::temporal("published", None),
        Err(Reason::NotTemporal)
    );
    assert_eq!(Reason::NotTemporal.text(), "must be an RFC 3339 date and time");
}

#[test]
fn nothing_required_and_nothing_given_resolves_to_nothing() {
    let config = site(vec![
        ("featured", config::Taxonomy::Boolean { required: false }),
        ("tags", tags(true, Some(3), true)),
        ("published", config::Taxonomy::Temporal { required: false }),
    ]);
    let resolved = Taxonomy::from_yaml_hash(&Vec::new(), &config).unwrap();
    assert_eq!(resolved.len(), 0);
    let empty = site(Vec::new());
    assert_eq!(Taxonomy::from_yaml_hash(&Vec::new(), &empty).unwrap().len(), 0);
}

#[test]
fn a_required_flag_left_out_is_reported_once() {
    let config = site(vec![
        ("tags", tags(false, None, true)),
        ("featured", config::Taxonomy::Boolean { required: true }),
        ("draft", config::Taxonomy::Boolean { required: false }),
    ]);
    let front = vec![(text("tags"), text("a,b")), (text("draft"), RawValue::Boolean(true))];
    let report = Taxonomy::from_yaml_hash(&front, &config).unwrap_err();
    assert_eq!(report.len(), 1);
    assert_eq!(report.name_at(0), "featured");
    assert_eq!(report.reason_at(0), Reason::Missing);
    assert_eq!(report.get("featured"), Some(Reason::Missing));
    assert_eq!(report.get("tags"), None);
}

#[test]
fn three_invalid_taxonomies_give_three_entries() {
    let config = site(vec![
        ("featured", config::Taxonomy::Boolean { required: false }),
        ("tags", tags(false, Some(2), true)),
        ("genre", tags(true, None, false)),
        ("published", config::Taxonomy::Temporal { required: true }),
    ]);
    let front = vec![
        (text("featured"), text("yes")),
        (text("tags"), text("a,b,c")),
        (text("genre"), text("fiction/scifi")),
    ];
    let report = Taxonomy::from_yaml_hash(&front, &config).unwrap_err();
    assert_eq!(report.len(), 3);
    assert_eq!(report.get("featured"), Some(Reason::NotBoolean));
    assert_eq!(report.get("tags"), Some(Reason::TooMany { limit: 2 }));
    assert_eq!(report.get("published"), Some(Reason::Missing));
    assert_eq!(report.get("genre"), None);
    assert_eq!(
        report.render(),
        "\n\t'featured': must be true, false, or left off entirely\
         \n\t'tags': only 2 values allowed\
         \n\t'published': is required but not present"
    );
}

#[test]
fn valid_front_matter_resolves_every_given_taxonomy() {
    let config = site(vec![
        ("featured", config::Taxonomy::Boolean { required: true }),
        ("tags", tags(true, Some(3), true)),
        ("published", config::Taxonomy::Temporal { required: false }),
        ("series", tags(false, None, false)),
    ]);
    let front = vec![
        (text("title"), text("On Reading")),
        (text("tags"), text("fiction/scifi,poetry")),
        (text("featured"), RawValue::Boolean(false)),
        (text("published"), text("2019-03-01T12:00:00Z")),
    ];
    let resolved = Taxonomy::from_yaml_hash(&front, &config).unwrap();
    assert_eq!(resolved.len(), 3);
    assert_eq!(
        resolved.get("featured"),
        Some(&Taxonomy::Boolean { name: "featured".to_owned(), value: false })
    );
    assert_eq!(
        resolved.get("tags"),
        Some(&tag_like("tags", &[&["fiction", "scifi"], &["poetry"]]))
    );
    assert_eq!(
        resolved.get("published"),
        Some(&Taxonomy::Temporal {
            name: "published".to_owned(),
            value: Timestamp { seconds: 1551441600, nanoseconds: 0, offset: 0 },
        })
    );
    assert_eq!(resolved.get("series"), None);
    assert_eq!(resolved.name_at(0), "featured");
    assert_eq!(resolved.value_at(1).name(), "tags");
}

#[test]
fn a_taxonomy_is_found_under_the_key_its_name_is_read_as() {
    let config = site(vec![("2019", config::Taxonomy::Boolean { required: true })]);
    let under_number = vec![(RawValue::Integer(2019), RawValue::Boolean(true))];
    assert!(Taxonomy::from_yaml_hash(&under_number, &config).is_ok());
    let under_text = vec![(text("2019"), RawValue::Boolean(true))];
    let report = Taxonomy::from_yaml_hash(&under_text, &config).unwrap_err();
    assert_eq!(report.get("2019"), Some(Reason::Missing));
}

#[test]
fn resolving_twice_gives_the_same_result() {
    let config = site(vec![
        ("featured", config::Taxonomy::Boolean { required: true }),
        ("tags", tags(true, Some(1), true)),
    ]);
    let good = vec![(text("featured"), RawValue::Boolean(true)), (text("tags"), text("a/b"))];
    assert_eq!(
        Taxonomy::from_yaml_hash(&good, &config),
        Taxonomy::from_yaml_hash(&good, &config)
    );
    let bad = vec![(text("tags"), text("a,b"))];
    let first = Taxonomy::from_yaml_hash(&bad, &config);
    let second = Taxonomy::from_yaml_hash(&bad, &config);
    assert!(first.is_err());
    assert_eq!(first, second);
}
