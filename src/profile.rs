//! Profiles: where a user's metadata and templates live, and the settings
//! read from them.

use vstd::prelude::*;
use vstd::string::*;
use crate::compile::DEFAULT_COMPILE_COMMAND;
use crate::path::{LogicalPath, Part, parse_parts};
use crate::error::Error;
use crate::text::same_text;

verus! {

/// The name of a profile's metadata file.
pub const PROFILE_METADATA_FILENAME: &'static str = ".profile.toml";

/// The name of a profile's template directory.
pub const PROFILE_TEMPLATE_FILES_DIR_NAME: &'static str = ".templates";

/// The extension of template files.
pub const TEMPLATE_FILE_EXTENSION: &'static str = "hbs";

/// The name of the template that notes are created from.
pub const PROFILE_NOTE_TEMPLATE_NAME: &'static str = "_default";

/// The name of the template that master notes are created from.
pub const PROFILE_MASTER_NOTE_TEMPLATE_NAME: &'static str = "master/_default";

/// The metadata key that holds a custom compile command.
pub const COMMAND_KEY: &'static str = "command";

/// A metadata value, as far as the library reads it: text, or anything else.
#[derive(Debug)]
pub enum MetadataValue {
    Text(String),
    Other,
}

/// One key of the extra metadata.
#[derive(Debug)]
pub struct MetadataEntry {
    pub key: String,
    pub value: MetadataValue,
}

/// The settings of a profile. The extra metadata is a list of keyed
/// values; where a key occurs more than once, the first entry is the one
/// that is read.
#[derive(Debug)]
pub struct ProfileConfig {
    pub name: String,
    pub extra: Vec<MetadataEntry>,
}

pub open spec fn entry_view(e: MetadataEntry) -> (Seq<char>, Option<Seq<char>>) {
    (e.key@, match e.value {
        MetadataValue::Text(t) => Some(t@),
        MetadataValue::Other => None,
    })
}

pub open spec fn entries_view(es: Seq<MetadataEntry>) -> Seq<(Seq<char>, Option<Seq<char>>)> {
    es.map_values(|e: MetadataEntry| entry_view(e))
}

/// The text under the first entry with the command key, if that entry
/// holds text.
pub open spec fn configured_command(es: Seq<(Seq<char>, Option<Seq<char>>)>) -> Option<Seq<char>>
    decreases es.len(),
{
    if es.len() == 0 {
        None
    } else if es[0].0 == COMMAND_KEY@ {
        es[0].1
    } else {
        configured_command(es.skip(1))
    }
}

/// The command that compiles notes under the given extra metadata.
pub open spec fn compile_command_of(es: Seq<(Seq<char>, Option<Seq<char>>)>) -> Seq<char> {
    match configured_command(es) {
        Some(t) => t,
        None => DEFAULT_COMPILE_COMMAND@,
    }
}

impl ProfileConfig {
    /// No name and no extra metadata.
    pub fn new() -> (r: ProfileConfig)
        ensures
            r.name@.len() == 0,
            r.extra@.len() == 0,
    {
        ProfileConfig { name: String::new(), extra: Vec::new() }
    }
}

/// A profile: a directory that holds the metadata file and the templates.
#[derive(Debug)]
pub struct Profile {
    path: LogicalPath,
    config: ProfileConfig,
}

impl Profile {
    /// A profile with an empty path and empty settings.
    pub fn new() -> (r: Profile)
        ensures
            r.spec_path().len() == 0,
            r.spec_config().name@.len() == 0,
            r.spec_config().extra@.len() == 0,
    {
        Profile { path: LogicalPath::new(), config: ProfileConfig::new() }
    }

    pub closed spec fn spec_path(&self) -> Seq<Part> {
        self.path@
    }

    pub closed spec fn spec_config(&self) -> &ProfileConfig {
        &self.config
    }

    /// A profile at `path` with the given settings.
    pub fn with_config(path: LogicalPath, config: ProfileConfig) -> (r: Profile)
        ensures
            r.spec_path() == path@,
            r.spec_config() == &config,
    {
        Profile { path, config }
    }

    pub fn config(&self) -> (r: &ProfileConfig)
        ensures
            r == self.spec_config(),
    {
        &self.config
    }

    pub fn path(&self) -> (r: LogicalPath)
        ensures
            r@ == self.spec_path(),
    {
        self.path.copy()
    }

    /// The path of the metadata file.
    pub fn metadata_path(&self) -> (r: LogicalPath)
        ensures
            r@ == self.spec_path().push(Part::Named(PROFILE_METADATA_FILENAME@)),
    {
        let mut p = self.path.copy();
        p.push_named(String::from_str(PROFILE_METADATA_FILENAME));
        p
    }

    /// The path of the template directory.
    pub fn templates_path(&self) -> (r: LogicalPath)
        ensures
            r@ == self.spec_path().push(Part::Named(PROFILE_TEMPLATE_FILES_DIR_NAME@)),
    {
        let mut p = self.path.copy();
        p.push_named(String::from_str(PROFILE_TEMPLATE_FILES_DIR_NAME));
        p
    }

    /// The command that compiles notes: the text under the `command` key
    /// of the extra metadata, or `latexmk -pdf {{note}}` where that key is
    /// missing or holds something other than text.
    pub fn compile_note_command(&self) -> (r: String)
        ensures
            r@ == compile_command_of(entries_view(self.spec_config().extra@)),
    {
        let es = &self.config.extra;
        let ghost all = entries_view(es@);
        let mut i: usize = 0;
        assert(all.skip(0) =~= all);
        while i < es.len()
            invariant
                all == entries_view(es@),
                all == entries_view(self.spec_config().extra@),
                i <= es@.len(),
                configured_command(all) == configured_command(all.skip(i as int)),
            decreases es@.len() - i,
        {
            let ghost rest = all.skip(i as int);
            assert(rest[0] == entry_view(es@[i as int]));
            assert(rest.skip(1) =~= all.skip(i + 1));
            if same_text(es[i].key.as_str(), COMMAND_KEY) {
                assert(configured_command(rest) == rest[0].1);
                return match &es[i].value {
                    MetadataValue::Text(t) => t.clone(),
                    MetadataValue::Other => String::from_str(DEFAULT_COMPILE_COMMAND),
                };
            }
            i = i + 1;
        }
        String::from_str(DEFAULT_COMPILE_COMMAND)
    }
}

/// What exporting a profile creates: each part that is missing.
#[derive(Debug)]
pub struct ProfileExport {
    pub directory: Option<LogicalPath>,
    pub metadata_file: Option<LogicalPath>,
    pub templates_directory: Option<LogicalPath>,
}

impl Profile {
    /// What exporting the profile takes, given which of its directory,
    /// metadata file and template directory exist: a profile that has all
    /// three exists already, which is an error; otherwise each missing part
    /// is to be created.
    pub fn export(&self, exported: bool, has_metadata: bool, has_templates: bool) -> (r: Result<ProfileExport, Error>)
        ensures
            exported && has_metadata && has_templates ==> (r matches Err(Error::ProfileAlreadyExists(p))
                && p@ == self.spec_path()),
            !(exported && has_metadata && has_templates) ==> (r matches Ok(e) && {
                &&& (exported <==> e.directory is None)
                &&& (e.directory matches Some(d) ==> d@ == self.spec_path())
                &&& (has_metadata <==> e.metadata_file is None)
                &&& (e.metadata_file matches Some(m) ==> m@ == self.spec_path().push(Part::Named(PROFILE_METADATA_FILENAME@)))
                &&& (has_templates <==> e.templates_directory is None)
                &&& (e.templates_directory matches Some(t) ==> t@ == self.spec_path().push(Part::Named(PROFILE_TEMPLATE_FILES_DIR_NAME@)))
            }),
    {
        if exported && has_metadata && has_templates {
            return Err(Error::ProfileAlreadyExists(self.path()));
        }
        let directory = if exported { None } else { Some(self.path()) };
        let metadata_file = if has_metadata { None } else { Some(self.metadata_path()) };
        let templates_directory = if has_templates { None } else { Some(self.templates_path()) };
        Ok(ProfileExport { directory, metadata_file, templates_directory })
    }
}

/// Builds a profile from optional parts; what is left unset keeps the
/// value of an empty profile.
#[derive(Debug)]
pub struct ProfileBuilder {
    pub path: Option<LogicalPath>,
    pub name: Option<String>,
    pub extra_metadata: Option<Vec<MetadataEntry>>,
}

impl ProfileBuilder {
    /// Nothing set.
    pub fn new() -> (r: ProfileBuilder)
        ensures
            r.path is None,
            r.name is None,
            r.extra_metadata is None,
    {
        ProfileBuilder { path: None, name: None, extra_metadata: None }
    }

    /// Sets the path of the profile.
    pub fn path(&mut self, p: &str) -> (r: &mut ProfileBuilder)
        ensures
            r.path matches Some(q) && q@ == parse_parts(p@),
            r.name == old(self).name,
            r.extra_metadata == old(self).extra_metadata,
            *final(self) == *final(r),
    {
        self.path = Some(LogicalPath::parse(p));
        self
    }

    /// Sets the name of the profile.
    pub fn name(&mut self, name: &str) -> (r: &mut ProfileBuilder)
        ensures
            r.name matches Some(n) && n@ == name@,
            r.path == old(self).path,
            r.extra_metadata == old(self).extra_metadata,
            *final(self) == *final(r),
    {
        self.name = Some(String::from_str(name));
        self
    }

    /// Sets the extra metadata of the profile.
    pub fn extra_metadata(&mut self, extra: Vec<MetadataEntry>) -> (r: &mut ProfileBuilder)
        ensures
            r.extra_metadata == Some(extra),
            r.path == old(self).path,
            r.name == old(self).name,
            *final(self) == *final(r),
    {
        self.extra_metadata = Some(extra);
        self
    }

    /// The profile with what was set.
    pub fn build(self) -> (r: Profile)
        ensures
            self.path matches Some(p) ==> r.spec_path() == p@,
            self.path is None ==> r.spec_path().len() == 0,
            self.name matches Some(n) ==> r.spec_config().name == n,
            self.name is None ==> r.spec_config().name@.len() == 0,
            self.extra_metadata matches Some(e) ==> r.spec_config().extra == e,
            self.extra_metadata is None ==> r.spec_config().extra@.len() == 0,
    {
        let path = match self.path {
            Some(p) => p,
            None => LogicalPath::new(),
        };
        let name = match self.name {
            Some(n) => n,
            None => String::new(),
        };
        let extra = match self.extra_metadata {
            Some(e) => e,
            None => Vec::new(),
        };
        Profile::with_config(path, ProfileConfig { name, extra })
    }
}

} // verus!
