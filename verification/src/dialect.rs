//! The two dialects of a manifest: reading text in either, writing the
//! structured one.
use crate::decode::{decode, decoded, present};
use crate::document::{integers_as_text, lookup, with_integers_as_text, Node, Tree};
use crate::encode::{emitted, encode, encoded};
use crate::error::{DriverError, DriverFault};
use crate::json::{json_document, json_pretty, read_json, write_json};
use crate::laws::{
    lemma_absent_stays_absent, lemma_emitted_lookup, lemma_encoded_printable, lemma_round_trip,
};
use crate::normalize::{all_tokens, lemma_split_gives_tokens, normalize, normalized};
use crate::schema::Field;
use crate::text::ends_with;
use crate::treefile::{ManifestView, TreeComposeConfig};
use crate::yaml::{line_too_long, read_yaml, yaml_admits, yaml_document};
use vstd::prelude::*;

verus! {

/// The dialect in which a manifest is written.
#[derive(Clone, Copy, Debug, PartialEq, Eq, Structural)]
pub enum Dialect {
    /// Block-structured and indentation-sensitive: YAML.
    HumanFriendly,
    /// Brackets and quotes, as the composer reads it: JSON.
    Structured,
}

/// The suffix of a path or name that is in the human-friendly dialect.
pub open spec fn spec_is_yaml(name: Seq<char>) -> bool {
    ".yaml"@.is_suffix_of(name)
}

/// The suffix of a name that is in the structured dialect.
pub open spec fn spec_is_json(name: Seq<char>) -> bool {
    ".json"@.is_suffix_of(name)
}

/// The dialect of the manifest at a path: human-friendly where the path ends in
/// `.yaml`, structured for every other path.
pub open spec fn spec_dialect_of(path: Seq<char>) -> Dialect {
    if spec_is_yaml(path) {
        Dialect::HumanFriendly
    } else {
        Dialect::Structured
    }
}

/// Whether `name` ends in `.yaml`.
pub fn is_yaml(name: &str) -> (b: bool)
    ensures
        b == spec_is_yaml(name@),
{
    ends_with(name, ".yaml")
}

/// Whether `name` ends in `.json`.
pub fn is_json(name: &str) -> (b: bool)
    ensures
        b == spec_is_json(name@),
{
    ends_with(name, ".json")
}

/// The dialect of the manifest at `path`.
pub fn dialect_of(path: &str) -> (d: Dialect)
    ensures
        d == spec_dialect_of(path@),
{
    if is_yaml(path) {
        Dialect::HumanFriendly
    } else {
        Dialect::Structured
    }
}

/// The tree of the document that `text` is in `dialect`; none where it is no
/// document of that dialect. A text with a line that the YAML reader does not
/// admit is no document of the human-friendly dialect.
pub open spec fn document(text: Seq<char>, dialect: Dialect) -> Option<Tree> {
    match dialect {
        Dialect::HumanFriendly => if yaml_admits(text) {
            yaml_document(text)
        } else {
            None
        },
        Dialect::Structured => json_document(text),
    }
}

/// What the human-friendly dialect does not support.
pub open spec fn unsupported_include() -> Seq<char> {
    "include in human-friendly dialect"@
}

/// The document as the schema reads it. In the human-friendly dialect a whole
/// number that stands as a value is taken for its decimal text, so that a
/// release may be written as `28`; the structured dialect takes only a quoted
/// string for a text.
pub open spec fn as_read(tree: Tree, dialect: Dialect) -> Tree {
    match dialect {
        Dialect::Structured => tree,
        Dialect::HumanFriendly => integers_as_text(tree),
    }
}

/// The manifest that a document of `dialect` describes: the one that the
/// schema reads from the document `as_read`. In the human-friendly dialect a
/// reference to another manifest is not supported, and the package list is
/// split at white space.
pub open spec fn interpreted(tree: Tree, dialect: Dialect) -> Result<ManifestView, DriverFault> {
    match decoded(as_read(tree, dialect)) {
        Err(e) => Err(DriverFault::SchemaError(e)),
        Ok(m) => match dialect {
            Dialect::Structured => Ok(m),
            Dialect::HumanFriendly => if m.include_path is Some {
                Err(DriverFault::Unsupported(unsupported_include()))
            } else {
                Ok(normalized(m))
            },
        },
    }
}

/// The model of the outcome of reading a manifest.
pub open spec fn outcome_view(r: Result<TreeComposeConfig, DriverError>) -> Result<
    ManifestView,
    DriverFault,
> {
    match r {
        Ok(m) => Ok(m@),
        Err(e) => Err(e@),
    }
}

/// Reads the manifest that a document of `dialect` describes.
pub fn manifest_from_tree(tree: &Node, dialect: Dialect) -> (r: Result<
    TreeComposeConfig,
    DriverError,
>)
    ensures
        outcome_view(r) == interpreted(tree@, dialect),
        r matches Ok(m) ==> m@.valid(),
        r matches Ok(m) ==> dialect == Dialect::HumanFriendly ==> all_tokens(m@.packages),
{
    let read = match dialect {
        Dialect::Structured => decode(tree),
        Dialect::HumanFriendly => decode(&with_integers_as_text(tree)),
    };
    match read {
        Err(e) => Err(DriverError::SchemaError(e)),
        Ok(m) => match dialect {
            Dialect::Structured => Ok(m),
            Dialect::HumanFriendly => {
                if m.include_path.is_some() {
                    Err(DriverError::Unsupported("include in human-friendly dialect".to_owned()))
                } else {
                    proof {
                        lemma_split_gives_tokens(m@.packages);
                    }
                    Ok(normalize(m))
                }
            },
        },
    }
}

/// Reads a manifest from `source`, which is text in `dialect`. Text that is no
/// document of the dialect gives a `ParseError`: with `line_too_long` where a
/// line of human-friendly text is longer than the YAML reader admits, and else
/// with the parser's message. A document gives what `interpreted` says of its
/// tree.
pub fn parse(source: &str, dialect: Dialect) -> (r: Result<TreeComposeConfig, DriverError>)
    ensures
        match document(source@, dialect) {
            None => r matches Err(DriverError::ParseError(_)),
            Some(tree) => outcome_view(r) == interpreted(tree, dialect),
        },
        dialect == Dialect::HumanFriendly && !yaml_admits(source@) ==> (r matches Err(
            DriverError::ParseError(message),
        ) && message@ == line_too_long()),
        r matches Ok(m) ==> m@.valid(),
        r matches Ok(m) ==> dialect == Dialect::HumanFriendly ==> all_tokens(m@.packages),
{
    let read = match dialect {
        Dialect::HumanFriendly => read_yaml(source),
        Dialect::Structured => read_json(source),
    };
    match read {
        Ok(tree) => manifest_from_tree(&tree, dialect),
        Err(message) => Err(DriverError::ParseError(message)),
    }
}

/// Writes a manifest in the structured dialect: the indented JSON text of the
/// document that stands for it.
pub fn emit(m: &TreeComposeConfig) -> (s: String)
    ensures
        s@ == json_pretty(encoded(m@)),
{
    let tree = encode(m);
    proof {
        lemma_encoded_printable(m@);
    }
    match write_json(&tree) {
        Some(s) => s,
        None => unreached(),
    }
}

/// Any text that the structured dialect reads as the document of a manifest
/// whose `ref` is not empty is read as that manifest.
pub proof fn lemma_round_trip_text(m: ManifestView, text: Seq<char>)
    requires
        m.valid(),
        document(text, Dialect::Structured) == Some(encoded(m)),
    ensures
        interpreted(document(text, Dialect::Structured)->0, Dialect::Structured) == Ok::<
            ManifestView,
            DriverFault,
        >(m),
{
    lemma_round_trip(m);
}

/// Taking whole numbers for their text changes no key and makes no value
/// null: what is looked up is the value that was there, so taken.
pub proof fn lemma_lookup_as_text(entries: Seq<(Tree, Tree)>, key: Seq<char>)
    ensures
        lookup(integers_as_text(Tree::Table(entries))->Table_0, key) == match lookup(entries, key) {
            Some(v) => Some(integers_as_text(v)),
            None => None,
        },
    decreases entries.len(),
{
    let taken = integers_as_text(Tree::Table(entries))->Table_0;
    if entries.len() > 0 {
        let rest = entries.drop_first();
        lemma_lookup_as_text(rest, key);
        assert(taken[0] == (entries[0].0, integers_as_text(entries[0].1)));
        assert(taken.drop_first() =~= integers_as_text(Tree::Table(rest))->Table_0);
    }
}

/// What was absent stays absent, in either dialect: where a document gives
/// field `f` no value and describes a manifest, the document written for that
/// manifest has no entry under the key of `f`.
pub proof fn lemma_absent_stays_absent_in(entries: Seq<(Tree, Tree)>, dialect: Dialect, f: Field)
    requires
        interpreted(Tree::Table(entries), dialect) is Ok,
        present(entries, f) is None,
    ensures
        lookup(emitted(interpreted(Tree::Table(entries), dialect)->Ok_0, 0), f.spec_name())
            is None,
{
    let source = as_read(Tree::Table(entries), dialect)->Table_0;
    let read = decoded(Tree::Table(source))->Ok_0;
    let m = interpreted(Tree::Table(entries), dialect)->Ok_0;
    lemma_lookup_as_text(entries, f.spec_name());
    assert(present(source, f) is None);
    lemma_absent_stays_absent(source, f);
    lemma_emitted_lookup(read, 0, f);
    lemma_emitted_lookup(m, 0, f);
}

} // verus!
