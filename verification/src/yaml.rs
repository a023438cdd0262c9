//! The boundary to `yaml_rust`: a configuration value is carried through
//! the library as it was loaded, and read only through the functions here.

use vstd::prelude::*;
use linked_hash_map::LinkedHashMap;
use yaml_rust::{ScanError, Yaml, YamlLoader};

verus! {

/// A loaded YAML value. Nothing inside it is visible to proofs.
#[verifier::external_type_specification]
#[verifier::external_body]
pub struct ExYaml(Yaml);

/// The map that a YAML mapping is held in: its entries in the order in
/// which they were put in.
#[verifier::external_type_specification]
#[verifier::external_body]
#[verifier::reject_recursive_types(K)]
#[verifier::reject_recursive_types(V)]
#[verifier::reject_recursive_types(S)]
pub struct ExLinkedHashMap<K, V, S>(LinkedHashMap<K, V, S>);

/// Why a text is no YAML.
#[verifier::external_type_specification]
#[verifier::external_body]
pub struct ExScanError(ScanError);

/// What loading `source` gives: its documents in their order, or the reason
/// why it is no YAML.
pub uninterp spec fn yaml_documents(source: Seq<char>) -> Result<Seq<Yaml>, ScanError>;

/// The items of a YAML value that is a sequence, in their order, and `None`
/// for every other value.
pub uninterp spec fn yaml_items(value: Yaml) -> Option<Seq<Yaml>>;

/// The map of a YAML value that is a mapping, and `None` for every other
/// value. Nothing is read from such a map but the entry at its front,
/// which does not depend on how the map hashes its keys.
pub uninterp spec fn yaml_mapping(value: Yaml) -> Option<LinkedHashMap<Yaml, Yaml>>;

/// The key and the value of the entry at the front of a map, and `None`
/// for an empty map.
pub uninterp spec fn mapping_front(mapping: LinkedHashMap<Yaml, Yaml>) -> Option<(Yaml, Yaml)>;

/// The number of a YAML value that is an integer scalar, and `None` for
/// every other value.
pub uninterp spec fn yaml_integer(value: Yaml) -> Option<i64>;

/// What indexing a YAML value by a string key gives: the value stored
/// under that key where the value is a mapping that has it, and the crate's
/// bad value otherwise.
pub uninterp spec fn yaml_member(value: Yaml, key: Seq<char>) -> Yaml;

/// The text of a YAML value that is a string scalar, and `None` for every
/// other value.
pub uninterp spec fn yaml_text(value: Yaml) -> Option<Seq<char>>;

/// `YamlLoader::load_from_str`: all documents of the text, or the scanner's
/// error. The loader descends once for each level of nesting, so a text
/// nested deeply enough runs out of stack as another runs out of memory;
/// nothing is claimed of such a run.
#[verifier::external_body]
pub(crate) fn load(source: &str) -> (loaded: Result<Vec<Yaml>, ScanError>)
    ensures
        loaded is Ok <==> yaml_documents(source@) is Ok,
        loaded matches Ok(documents) ==> documents@ == yaml_documents(source@)->Ok_0,
        loaded matches Err(error) ==> error == yaml_documents(source@)->Err_0,
{
    YamlLoader::load_from_str(source)
}

/// `Yaml::as_vec`: the items of a sequence, `None` for anything else.
#[verifier::external_body]
pub(crate) fn items<'a>(value: &'a Yaml) -> (found: Option<&'a Vec<Yaml>>)
    ensures
        found is Some <==> yaml_items(*value) is Some,
        found matches Some(list) ==> list@ == yaml_items(*value)->Some_0,
{
    value.as_vec()
}

/// `Yaml::as_hash`: the map of a mapping, `None` for anything else.
#[verifier::external_body]
pub(crate) fn mapping<'a>(value: &'a Yaml) -> (found: Option<&'a LinkedHashMap<Yaml, Yaml>>)
    ensures
        found is Some <==> yaml_mapping(*value) is Some,
        found matches Some(map) ==> *map == yaml_mapping(*value)->Some_0,
{
    value.as_hash()
}

/// `LinkedHashMap::front`: the entry at the front of the map, `None` for
/// an empty map.
#[verifier::external_body]
pub(crate) fn front<'a>(mapping: &'a LinkedHashMap<Yaml, Yaml>) -> (found: Option<
    (&'a Yaml, &'a Yaml),
>)
    ensures
        found is Some <==> mapping_front(*mapping) is Some,
        found matches Some(entry) ==> (*entry.0, *entry.1) == mapping_front(*mapping)->Some_0,
{
    mapping.front()
}

/// `Yaml::as_i64`: the number of an integer scalar, `None` for anything
/// else.
#[verifier::external_body]
pub(crate) fn integer(value: &Yaml) -> (found: Option<i64>)
    ensures
        found == yaml_integer(*value),
{
    value.as_i64()
}

/// `<Yaml as Index<&str>>::index`. It never fails: a value that is no
/// mapping, or a mapping without the key, gives the crate's bad value.
#[verifier::external_body]
pub(crate) fn member<'a>(value: &'a Yaml, key: &str) -> (found: &'a Yaml)
    ensures
        *found == yaml_member(*value, key@),
{
    &value[key]
}

/// `Yaml::as_str`: the text of a string scalar, `None` for anything else.
#[verifier::external_body]
pub(crate) fn text<'a>(value: &'a Yaml) -> (found: Option<&'a str>)
    ensures
        found is Some <==> yaml_text(*value) is Some,
        found matches Some(s) ==> s@ == yaml_text(*value)->Some_0,
{
    value.as_str()
}

} // verus!
