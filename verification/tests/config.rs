use lightning::config;
use lightning::config::{
    load, Config, ConfigError, Fault, Key, Schema, Taxonomy, Templates, ValidatedUrl,
};
use lightning::raw::RawValue;

fn text(value: &str) -> RawValue {
    RawValue::String(value.to_owned())
}

fn mapping(entries: Vec<(&str, RawValue)>) -> RawValue {
    RawValue::Mapping(entries.into_iter().map(|(key, value)| (text(key), value)).collect())
}

const SITE: &str = "\
content_directory: content
output_directory: output
structure:
  directory: layout
  rules:
    commas_as_lists: true
  taxonomies:
    featured:
      type: boolean
    tags:
      type: tag-like
      required: true
      hierarchical: true
      limit: 3
    published:
      type: temporal
      required: false
";

#[test]
fn a_url_is_taken_as_it_is() {
    let url = ValidatedUrl::new("https://example.com".to_owned()).unwrap();
    assert_eq!(url.value(), "https://example.com");
    assert_eq!(ValidatedUrl::new(String::new()).unwrap().value(), "");
}

#[test]
fn templates_keep_the_layout_of_items() {
    assert_eq!(Templates::new("post.html".to_owned()).item(), "post.html");
}

#[test]
fn a_schema_keeps_definitions_in_order_under_distinct_names() {
    let mut schema = Schema::new();
    assert_eq!(schema.len(), 0);
    assert!(schema.define("featured".to_owned(), Taxonomy::Boolean { required: true }));
    assert!(schema.define("published".to_owned(), Taxonomy::Temporal { required: false }));
    assert!(!schema.define("featured".to_owned(), Taxonomy::Boolean { required: false }));
    assert_eq!(schema.len(), 2);
    assert_eq!(schema.name_at(0), "featured");
    assert_eq!(schema.entry_at(1), Taxonomy::Temporal { required: false });
    assert_eq!(schema.lookup("featured"), Some(Taxonomy::Boolean { required: true }));
    assert_eq!(schema.lookup("tags"), None);
}

#[test]
fn a_schema_refuses_a_limit_of_zero() {
    let mut schema = Schema::new();
    let unusable = Taxonomy::TagLike {
        required: false,
        hierarchical: false,
        limit: Some(0),
        commas_as_lists: false,
    };
    assert!(!unusable.is_well_formed());
    assert!(!schema.define("tags".to_owned(), unusable));
    assert_eq!(schema.len(), 0);
}

#[test]
fn all_required_names_the_required_taxonomies_in_order() {
    let mut schema = Schema::new();
    schema.define("featured".to_owned(), Taxonomy::Boolean { required: true });
    schema.define("draft".to_owned(), Taxonomy::Boolean { required: false });
    schema.define(
        "tags".to_owned(),
        Taxonomy::TagLike { required: true, hierarchical: false, limit: None, commas_as_lists: false },
    );
    schema.define("published".to_owned(), Taxonomy::Temporal { required: true });
    assert_eq!(schema.all_required(), vec!["featured", "tags", "published"]);
    assert!(Schema::new().all_required().is_empty());
    assert!(Taxonomy::Temporal { required: true }.is_required());
    assert!(!Taxonomy::Boolean { required: false }.is_required());
}

#[test]
fn a_configuration_is_read_from_yaml() {
    let config = load(SITE).unwrap();
    assert_eq!(config.directories.content, "content");
    assert_eq!(config.directories.output, "output");
    assert_eq!(config.directories.template, "layout");
    assert_eq!(config.site.name, "");
    assert_eq!(config.site.description, "");
    assert!(config.site.metadata.is_empty());
    assert_eq!(config.site.url.value(), "");
    assert_eq!(config.templates.item(), "base.html");
    assert_eq!(config.taxonomies.len(), 3);
    assert_eq!(config.taxonomies.lookup("featured"), Some(Taxonomy::Boolean { required: false }));
    assert_eq!(
        config.taxonomies.lookup("tags"),
        Some(Taxonomy::TagLike {
            required: true,
            hierarchical: true,
            limit: Some(3),
            commas_as_lists: true,
        })
    );
    assert_eq!(config.taxonomies.lookup("published"), Some(Taxonomy::Temporal { required: false }));
    assert_eq!(config.taxonomies.name_at(0), "featured");
    assert_eq!(config.taxonomies.name_at(2), "published");
}

#[test]
fn a_configuration_without_taxonomies_has_an_empty_schema() {
    let config =
        load("content_directory: a\noutput_directory: b\nstructure:\n  directory: c\n").unwrap();
    assert_eq!(config.taxonomies.len(), 0);
    assert_eq!(config.directories.template, "c");
}

#[test]
fn only_the_first_document_is_read() {
    let text =
        "content_directory: a\noutput_directory: b\nstructure:\n  directory: c\n---\n- other\n";
    assert_eq!(load(text).unwrap().directories.content, "a");
}

#[test]
fn text_that_is_no_yaml_is_a_syntax_error() {
    match load("content_directory: [unclosed") {
        Err(ConfigError::Syntax(words)) => assert!(!words.is_empty()),
        other => panic!("{:?}", other),
    }
}

#[test]
fn an_empty_text_holds_no_configuration() {
    assert_eq!(load(""), Err(ConfigError::Empty));
    assert_eq!(Config::from_documents(&Vec::new()), Err(ConfigError::Empty));
}

#[test]
fn a_configuration_has_to_be_a_mapping() {
    assert_eq!(load("- a\n- b\n"), Err(ConfigError::NotAMap));
    assert_eq!(load("just text"), Err(ConfigError::NotAMap));
}

#[test]
fn the_directories_have_to_be_there() {
    assert_eq!(
        load("output_directory: b\nstructure:\n  directory: c\n"),
        Err(ConfigError::Missing(Key::ContentDirectory))
    );
    assert_eq!(
        load("content_directory: a\nstructure:\n  directory: c\n"),
        Err(ConfigError::Missing(Key::OutputDirectory))
    );
    assert_eq!(
        load("content_directory: a\noutput_directory: b\n"),
        Err(ConfigError::Missing(Key::Structure))
    );
    assert_eq!(
        load("content_directory: a\noutput_directory: b\nstructure:\n  rules: {}\n"),
        Err(ConfigError::Missing(Key::Directory))
    );
}

#[test]
fn the_directories_have_to_be_texts() {
    assert_eq!(
        load("content_directory: 12\noutput_directory: b\nstructure:\n  directory: c\n"),
        Err(ConfigError::Invalid(Key::ContentDirectory))
    );
    assert_eq!(
        load("content_directory: a\noutput_directory: [b]\nstructure:\n  directory: c\n"),
        Err(ConfigError::Invalid(Key::OutputDirectory))
    );
    assert_eq!(
        load("content_directory: a\noutput_directory: b\nstructure: c\n"),
        Err(ConfigError::Invalid(Key::Structure))
    );
    assert_eq!(
        load("content_directory: a\noutput_directory: b\nstructure:\n  directory: true\n"),
        Err(ConfigError::Invalid(Key::Directory))
    );
}

#[test]
fn rules_and_taxonomies_have_to_be_mappings() {
    let head = "content_directory: a\noutput_directory: b\nstructure:\n  directory: c\n";
    assert_eq!(
        load(&format!("{}  rules: yes please\n", head)),
        Err(ConfigError::Invalid(Key::Rules))
    );
    assert_eq!(
        load(&format!("{}  rules:\n    commas_as_lists: often\n", head)),
        Err(ConfigError::Invalid(Key::CommasAsLists))
    );
    assert_eq!(
        load(&format!("{}  taxonomies: [tags]\n", head)),
        Err(ConfigError::Invalid(Key::Taxonomies))
    );
    assert_eq!(
        load(&format!("{}  taxonomies:\n    12: {{type: boolean}}\n", head)),
        Err(ConfigError::UnnamedTaxonomy)
    );
}

#[test]
fn the_keys_are_written_as_in_the_document() {
    assert_eq!(Key::ContentDirectory.text(), "content_directory");
    assert_eq!(Key::OutputDirectory.text(), "output_directory");
    assert_eq!(Key::Structure.text(), "structure");
    assert_eq!(Key::Directory.text(), "directory");
    assert_eq!(Key::Taxonomies.text(), "taxonomies");
    assert_eq!(Key::Rules.text(), "rules");
    assert_eq!(Key::CommasAsLists.text(), "commas_as_lists");
}

#[test]
fn a_definition_says_of_what_kind_a_taxonomy_is() {
    assert_eq!(
        Taxonomy::from_definition(&mapping(vec![("type", text("boolean"))]), true),
        Ok(Taxonomy::Boolean { required: false })
    );
    assert_eq!(
        Taxonomy::from_definition(
            &mapping(vec![("type", text("temporal")), ("required", RawValue::Boolean(true))]),
            true
        ),
        Ok(Taxonomy::Temporal { required: true })
    );
    assert_eq!(
        Taxonomy::from_definition(
            &mapping(vec![
                ("type", text("tag-like")),
                ("hierarchical", RawValue::Boolean(true)),
                ("limit", RawValue::Integer(1)),
            ]),
            false
        ),
        Ok(Taxonomy::TagLike {
            required: false,
            hierarchical: true,
            limit: Some(1),
            commas_as_lists: false,
        })
    );
    assert_eq!(
        Taxonomy::from_definition(&mapping(vec![("type", text("tag-like"))]), true),
        Ok(Taxonomy::TagLike {
            required: false,
            hierarchical: false,
            limit: None,
            commas_as_lists: true,
        })
    );
}

#[test]
fn an_ill_defined_taxonomy_is_named_with_its_fault() {
    assert_eq!(Taxonomy::from_definition(&text("boolean"), false), Err(Fault::NotAMap));
    assert_eq!(
        Taxonomy::from_definition(&mapping(vec![("required", RawValue::Boolean(true))]), false),
        Err(Fault::NoKind)
    );
    assert_eq!(
        Taxonomy::from_definition(&mapping(vec![("type", text("multiple"))]), false),
        Err(Fault::UnknownKind)
    );
    assert_eq!(
        Taxonomy::from_definition(&mapping(vec![("type", RawValue::Integer(1))]), false),
        Err(Fault::UnknownKind)
    );
    assert_eq!(
        Taxonomy::from_definition(
            &mapping(vec![("type", text("boolean")), ("required", text("yes"))]),
            false
        ),
        Err(Fault::BadRequired)
    );
    assert_eq!(
        Taxonomy::from_definition(
            &mapping(vec![("type", text("tag-like")), ("hierarchical", RawValue::Integer(1))]),
            false
        ),
        Err(Fault::BadHierarchical)
    );
    for limit in [RawValue::Integer(0), RawValue::Integer(-3), text("three")] {
        assert_eq!(
            Taxonomy::from_definition(
                &mapping(vec![("type", text("tag-like")), ("limit", limit)]),
                false
            ),
            Err(Fault::BadLimit)
        );
    }
    let head = "content_directory: a\noutput_directory: b\nstructure:\n  directory: c\n";
    assert_eq!(
        load(&format!("{}  taxonomies:\n    tags:\n      type: multiple\n", head)),
        Err(ConfigError::Taxonomy { name: "tags".to_owned(), fault: Fault::UnknownKind })
    );
}

#[test]
fn a_name_defined_twice_is_a_fault() {
    let definitions = vec![
        (text("tags"), mapping(vec![("type", text("boolean"))])),
        (text("tags"), mapping(vec![("type", text("temporal"))])),
    ];
    assert_eq!(
        Schema::from_definitions(&definitions, false),
        Err(ConfigError::Taxonomy { name: "tags".to_owned(), fault: Fault::Duplicate })
    );
}

#[test]
fn the_first_fault_of_a_schema_is_reported() {
    let definitions = vec![
        (text("featured"), mapping(vec![("type", text("boolean"))])),
        (text("tags"), text("tag-like")),
        (RawValue::Integer(3), mapping(vec![("type", text("boolean"))])),
    ];
    assert_eq!(
        Schema::from_definitions(&definitions, false),
        Err(ConfigError::Taxonomy { name: "tags".to_owned(), fault: Fault::NotAMap })
    );
    let first = vec![(text("featured"), mapping(vec![("type", text("boolean"))]))];
    assert_eq!(Schema::from_definitions(&first, false).unwrap().len(), 1);
}

#[test]
fn a_site_keeps_its_fields() {
    let site = config::Site {
        name: "Notes".to_owned(),
        description: "Things read".to_owned(),
        metadata: vec![(text("author"), text("A. Reader"))],
        url: ValidatedUrl::new("https://example.com/".to_owned()).unwrap(),
    };
    assert_eq!(site.name, "Notes");
    assert_eq!(site.metadata.len(), 1);
    assert_eq!(site.url.value(), "https://example.com/");
}

#[test]
fn every_fault_has_its_words() {
    assert_eq!(Fault::NotAMap.text(), "its definition is not a map");
    assert_eq!(Fault::NoKind.text(), "it has no `type`");
    assert_eq!(Fault::UnknownKind.text(), "its `type` is none of boolean, tag-like, temporal");
    assert_eq!(Fault::BadRequired.text(), "its `required` is neither true nor false");
    assert_eq!(Fault::BadHierarchical.text(), "its `hierarchical` is neither true nor false");
    assert_eq!(Fault::BadLimit.text(), "its `limit` is not a whole number of at least one");
    assert_eq!(Fault::Duplicate.text(), "it is defined twice");
}
