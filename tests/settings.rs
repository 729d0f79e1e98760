use lanoma::error::Error;
use lanoma::path::LogicalPath;
use lanoma::profile::{MetadataEntry, MetadataValue, Profile, ProfileBuilder};
use lanoma::shelf::{ExportOptions, Shelf};
use lanoma::templates::Template;

fn entry(key: &str, value: MetadataValue) -> MetadataEntry {
    MetadataEntry { key: key.to_string(), value }
}

#[test]
fn default_compile_command() {
    let profile = Profile::new();
    assert_eq!(profile.compile_note_command(), "latexmk -pdf {{note}}");
    assert_eq!(profile.path(), LogicalPath::new());
}

#[test]
fn custom_compile_command() {
    let mut builder = ProfileBuilder::new();
    builder.path("/home/me/.config/lanoma").name("ME").extra_metadata(vec![
        entry("editor", MetadataValue::Text("vim".to_string())),
        entry("command", MetadataValue::Text("tectonic {{note}}".to_string())),
    ]);
    let profile = builder.build();
    assert_eq!(profile.compile_note_command(), "tectonic {{note}}");
    assert_eq!(profile.config().name, "ME");
    assert_eq!(profile.metadata_path().render(), "/home/me/.config/lanoma/.profile.toml");
    assert_eq!(profile.templates_path().render(), "/home/me/.config/lanoma/.templates");
}

#[test]
fn non_text_command_falls_back() {
    let mut builder = ProfileBuilder::new();
    builder.extra_metadata(vec![entry("command", MetadataValue::Other)]);
    assert_eq!(builder.build().compile_note_command(), "latexmk -pdf {{note}}");
}

#[test]
fn shelf_needs_a_directory() {
    assert!(matches!(Shelf::from("/nowhere", false), Err(Error::ValueError)));
    let shelf = Shelf::from("/srv/shelf", true).unwrap();
    assert_eq!(shelf.path().render(), "/srv/shelf");
}

#[test]
fn shelf_set_path_returns_old_root() {
    let mut shelf = Shelf::new("/a");
    let old = shelf.set_path("/b");
    assert_eq!(old.render(), "/a");
    assert_eq!(shelf.path().render(), "/b");
}

#[test]
fn export_options_strictness() {
    let mut options = ExportOptions::new();
    assert!(!options.strict);
    options.strict(true);
    assert!(options.strict);
}

#[test]
fn error_messages_and_codes() {
    let at = || LogicalPath::parse("/p");
    assert_eq!(Error::ValueError.message(), "Given value is not valid.");
    assert_eq!(Error::InvalidProfileError(at()).message(), "Profile at '/p' is not valid.");
    assert_eq!(
        Error::UnexportedShelfError(at()).message(),
        "The shelf at path '/p' is not yet exported in the filesystem."
    );
    assert_eq!(Error::MissingDataError("name".to_string()).message(), "name is missing.");
    assert_eq!(i32::from(Error::ValueError), 1);
    assert_eq!(i32::from(Error::InvalidProfileError(at())), 2);
    assert_eq!(i32::from(Error::NoShelfDatabase(at())), 3);
    assert_eq!(i32::from(Error::UnexportedShelfError(at())), 4);
    assert_eq!(i32::from(Error::DanglingSubjectError(at())), 5);
    assert_eq!(i32::from(Error::BatchDirectoryError(at())), 7);
    assert_eq!(i32::from(Error::MissingDataError(String::new())), -1);
}

#[test]
fn templates_hold_name_and_source() {
    let t = Template::new();
    assert!(t.name().is_empty() && t.source().is_empty());
    let t = Template::from_source("_default".to_string(), "LOL".to_string());
    assert_eq!(t.name(), "_default");
    assert_eq!(t.source(), "LOL");
}

#[test]
fn profile_export_creates_missing_parts() {
    let mut builder = ProfileBuilder::new();
    builder.path("/home/me/p");
    let profile = builder.build();
    assert!(matches!(profile.export(true, true, true), Err(Error::ProfileAlreadyExists(_))));
    let steps = profile.export(false, false, true).unwrap();
    assert_eq!(steps.directory, Some(LogicalPath::parse("/home/me/p")));
    assert_eq!(steps.metadata_file, Some(LogicalPath::parse("/home/me/p/.profile.toml")));
    assert_eq!(steps.templates_directory, None);
}
