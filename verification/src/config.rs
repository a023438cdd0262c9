//! The configuration: one YAML document that declares the feeds.

use vstd::prelude::*;
use yaml_rust::{ScanError, Yaml};
use crate::entry::{option_text, Entry, EntryView};
use crate::yaml::{
    front, integer, items, load, mapping, mapping_front, member, text, yaml_documents,
    yaml_integer, yaml_items, yaml_mapping, yaml_member, yaml_text,
};

verus! {

/// Why a configuration cannot be used.
#[derive(Debug)]
pub enum ConfigError {
    /// The configuration text is empty.
    Empty,
    /// The configuration text is no YAML.
    Syntax(ScanError),
    /// The configuration text holds no document.
    NoDocument,
    /// The document declares no feed.
    NoFeeds,
    /// The feed at this position of the list is no mapping from a key to
    /// the feed's options.
    MalformedFeed(usize),
}

/// The list under `feeds` in the document `contents`, where there is one.
pub open spec fn feed_list(contents: Yaml) -> Option<Seq<Yaml>> {
    yaml_items(yaml_member(contents, "feeds"@))
}

/// The first entry of a declaration: the key and the value at the front of
/// its map, where it is a mapping that is not empty.
pub open spec fn first_entry(declaration: Yaml) -> Option<(Yaml, Yaml)> {
    match yaml_mapping(declaration) {
        Some(map) => mapping_front(map),
        None => None,
    }
}

/// A declaration is well formed when it is a mapping whose first key is a
/// string.
pub open spec fn well_formed(declaration: Yaml) -> bool {
    first_entry(declaration) matches Some(entry) && yaml_text(entry.0) is Some
}

/// The feed that a well-formed declaration declares: its first key is the
/// feed's key, and the value under it holds the feed's options.
pub open spec fn declared(declaration: Yaml) -> EntryView {
    let entry = first_entry(declaration)->Some_0;
    let key = yaml_text(entry.0)->Some_0;
    EntryView {
        key,
        url: option_text(entry.1, "url"@),
        name: option_text(entry.1, "name"@),
        anchor: option_text(entry.1, "anchor"@),
        content: option_text(entry.1, "content"@),
        selector: option_text(entry.1, "selector"@),
        title: option_text(entry.1, "title"@),
    }
}

/// The entries of a list, each as a value.
pub open spec fn entries_view(entries: Seq<Entry>) -> Seq<EntryView> {
    Seq::new(entries.len(), |i: int| entries[i]@)
}

/// What the text of a configuration loads to.
pub open spec fn parsed(source: Seq<char>) -> Result<Yaml, ConfigError> {
    if source.len() == 0 {
        Err(ConfigError::Empty)
    } else {
        match yaml_documents(source) {
            Err(error) => Err(ConfigError::Syntax(error)),
            Ok(documents) => if documents.len() == 0 {
                Err(ConfigError::NoDocument)
            } else {
                Ok(documents[0])
            },
        }
    }
}

/// The number of records that a configured limit allows: none for a limit
/// of zero or less, and never more than a list can hold.
pub open spec fn allowed(limit: int) -> int {
    if limit <= 0 {
        0
    } else if limit <= usize::MAX {
        limit
    } else {
        usize::MAX as int
    }
}

/// Turns a configured limit into a number of records.
pub fn record_limit(limit: i64) -> (count: usize)
    ensures
        count == allowed(limit as int),
{
    if limit <= 0 {
        0
    } else if limit as u64 <= usize::MAX as u64 {
        limit as usize
    } else {
        usize::MAX
    }
}

/// A loaded configuration.
#[derive(Debug)]
pub struct Config {
    pub contents: Yaml,
}

impl Config {
    /// A configuration that holds the document `contents`.
    pub fn new(contents: Yaml) -> (config: Config)
        ensures
            config.contents == contents,
    {
        Config { contents }
    }

    /// Loads a configuration from its text. The first document of the text
    /// is the configuration; an empty text, a text that is no YAML and a
    /// text without a document are refused.
    pub fn parse(source: &str) -> (r: Result<Config, ConfigError>)
        ensures
            match parsed(source@) {
                Ok(contents) => r matches Ok(config) && config.contents == contents,
                Err(error) => r matches Err(e) && e == error,
            },
    {
        if source.is_empty() {
            return Err(ConfigError::Empty);
        }
        match load(source) {
            Err(error) => Err(ConfigError::Syntax(error)),
            Ok(mut documents) => {
                if documents.len() == 0 {
                    Err(ConfigError::NoDocument)
                } else {
                    Ok(Config::new(documents.swap_remove(0)))
                }
            },
        }
    }

    /// The output directory that the document names under `output`, where
    /// it names one as a string.
    pub fn output(&self) -> (found: Option<String>)
        ensures
            found is Some <==> yaml_text(yaml_member(self.contents, "output"@)) is Some,
            found matches Some(path) ==> path@ == yaml_text(
                yaml_member(self.contents, "output"@),
            )->Some_0,
    {
        match text(member(&self.contents, "output")) {
            Some(path) => Some(path.to_owned()),
            None => None,
        }
    }

    /// The limit that the document names under `limit`, where it names one
    /// as an integer.
    pub fn limit(&self) -> (found: Option<i64>)
        ensures
            found == yaml_integer(yaml_member(self.contents, "limit"@)),
    {
        integer(member(&self.contents, "limit"))
    }

    /// The feeds that the configuration declares, in the order of their
    /// declarations. The document must hold a list under `feeds` with at
    /// least one item, and each item must be a mapping whose first key, a
    /// string, is the feed's key; the first item that is not is the error.
    pub fn feeds(&self) -> (r: Result<Vec<Entry>, ConfigError>)
        ensures
            match feed_list(self.contents) {
                None => r matches Err(e) && e == ConfigError::NoFeeds,
                Some(list) => if list.len() == 0 {
                    r matches Err(e) && e == ConfigError::NoFeeds
                } else if forall|i: int| 0 <= i < list.len() ==> well_formed(#[trigger] list[i]) {
                    r matches Ok(entries) && entries_view(entries@) == Seq::new(
                        list.len(),
                        |i: int| declared(list[i]),
                    )
                } else {
                    r matches Err(e) && e matches ConfigError::MalformedFeed(at) && at < list.len()
                        && !well_formed(list[at as int]) && forall|i: int|
                        0 <= i < at ==> well_formed(#[trigger] list[i])
                },
            },
    {
        let list = match items(member(&self.contents, "feeds")) {
            Some(list) => list,
            None => { return Err(ConfigError::NoFeeds); },
        };
        if list.len() == 0 {
            return Err(ConfigError::NoFeeds);
        }
        let mut entries: Vec<Entry> = Vec::new();
        let mut i: usize = 0;
        while i < list.len()
            invariant
                i <= list.len(),
                entries@.len() == i,
                list@.len() > 0,
                feed_list(self.contents) == Some(list@),
                forall|k: int| 0 <= k < i ==> well_formed(#[trigger] list@[k]),
                forall|k: int| 0 <= k < i ==> (#[trigger] entries@[k])@ == declared(list@[k]),
            decreases list.len() - i,
        {
            let first = match mapping(&list[i]) {
                Some(map) => front(map),
                None => None,
            };
            let entry = match first {
                Some(pair) => match text(pair.0) {
                    Some(key) => Entry::from(&key.to_owned(), pair.1),
                    None => { return Err(ConfigError::MalformedFeed(i)); },
                },
                None => { return Err(ConfigError::MalformedFeed(i)); },
            };
            entries.push(entry);
            i += 1;
        }
        assert(entries_view(entries@) =~= Seq::new(list@.len(), |i: int| declared(list@[i])));
        Ok(entries)
    }
}

} // verus!
