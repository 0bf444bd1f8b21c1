//! Structured documents, and the attributes that can be picked out of them.
//!
//! A record is a JSON object or a YAML mapping. Its attributes are the
//! string-valued leaves, each named by the keys that lead to it, joined by
//! slashes, in the order in which the document holds them.
//!
//! JSON is parsed here. YAML is parsed by the caller, who hands over the
//! documents as nodes: a YAML parser may fail to return on a text it cannot
//! digest, and this library does not call what it cannot answer for.

use vstd::prelude::*;
use vstd::string::StringExecFns;

use crate::selector::slash_path;
use crate::text::lemma_contains_add;
use crate::text::str_eq;

verus! {

/// A node of a parsed document, as far as attributes depend on it.
#[derive(Debug)]
pub enum Node {
    /// A string.
    Text(String),
    /// An object or mapping: its fields in the order of the document.
    Mapping(Vec<Field>),
    /// Anything else: a number, a truth value, a list, nothing.
    Other,
}

/// One field of a mapping.
#[derive(Debug)]
pub struct Field {
    /// The key; in YAML it need not be a string.
    pub key: Node,
    /// The value.
    pub value: Node,
}

/// What a node is, as mathematics.
pub enum Tree {
    /// A string.
    Text(Seq<char>),
    /// A mapping: keys and values in the order of the document.
    Mapping(Seq<(Tree, Tree)>),
    /// Anything else.
    Other,
}

/// What a node is, as mathematics.
pub open spec fn tree_of(node: Node) -> Tree
    decreases node,
{
    match node {
        Node::Text(s) => Tree::Text(s@),
        Node::Mapping(fields) => Tree::Mapping(trees_of(fields@)),
        Node::Other => Tree::Other,
    }
}

/// What the fields of a mapping are, as mathematics.
pub open spec fn trees_of(fields: Seq<Field>) -> Seq<(Tree, Tree)>
    decreases fields,
{
    if fields.len() == 0 {
        Seq::empty()
    } else {
        seq![(tree_of(fields[0].key), tree_of(fields[0].value))] + trees_of(fields.drop_first())
    }
}

impl View for Node {
    type V = Tree;

    open spec fn view(&self) -> Tree {
        tree_of(*self)
    }
}

/// The key under which SOPS keeps its own metadata at the root of a document.
pub const METADATA_KEY: &'static str = "sops";

/// What is said of a text that is neither a JSON object nor a YAML mapping.
pub const NOT_STRUCTURED: &'static str = "File is not valid JSON or YAML";

/// The path of the attribute `key` in a mapping that itself lies at `path`;
/// at the root of a document the path is the key alone.
pub open spec fn attribute_path(path: Seq<char>, root: bool, key: Seq<char>) -> Seq<char> {
    if root {
        key
    } else {
        path + seq!['/'] + key
    }
}

/// The attributes that one field contributes: its own path where the value
/// is a string, the attributes of the value where that is a mapping, and
/// nothing otherwise. A field whose key is not a string contributes
/// nothing, and neither does the metadata field at the root.
pub open spec fn field_attributes(key: Tree, value: Tree, path: Seq<char>, root: bool) -> Seq<
    Seq<char>,
>
    decreases value, 1nat,
{
    match key {
        Tree::Text(k) => if root && k == METADATA_KEY@ {
            Seq::empty()
        } else {
            match value {
                Tree::Text(_) => seq![attribute_path(path, root, k)],
                Tree::Mapping(fields) => attributes(fields, attribute_path(path, root, k), false),
                Tree::Other => Seq::empty(),
            }
        },
        _ => Seq::empty(),
    }
}

/// The attributes of the mapping with the fields `fields`, which lies at
/// `path`: what each field contributes, in the order of the fields.
pub open spec fn attributes(fields: Seq<(Tree, Tree)>, path: Seq<char>, root: bool) -> Seq<
    Seq<char>,
>
    decreases fields, 0nat,
{
    if fields.len() == 0 {
        Seq::empty()
    } else {
        field_attributes(fields[0].0, fields[0].1, path, root) + attributes(
            fields.drop_first(),
            path,
            root,
        )
    }
}

/// Attributes are named by slash paths: below the attribute that `keys`
/// lead to, the attribute `key` is named by those keys and `key` behind
/// them. So `lemma_slash_path_selects_its_keys` holds of every attribute
/// whose keys are plain: its name, read as a selector, picks it.
pub proof fn lemma_attribute_path_is_slash_path(keys: Seq<Seq<char>>, key: Seq<char>)
    ensures
        attribute_path(slash_path(keys), keys.len() == 0, key) == slash_path(keys.push(key)),
{
    assert(keys.push(key).drop_last() == keys);
}

/// Whether `keys` lead from a field with this key and value to a string:
/// the first of them is the field's key, and the rest lead on from the
/// field's value. The metadata field at the root leads nowhere.
pub open spec fn field_leads(key: Tree, value: Tree, keys: Seq<Seq<char>>, root: bool) -> bool
    decreases keys.len(), 0nat,
{
    &&& keys.len() > 0
    &&& key == Tree::Text(keys[0])
    &&& !(root && keys[0] == METADATA_KEY@)
    &&& match value {
        Tree::Text(_) => keys.len() == 1,
        Tree::Mapping(inner) => keys.len() > 1 && leads(inner, keys.drop_first(), false),
        Tree::Other => false,
    }
}

/// Whether `keys` lead from the mapping with the fields `fields` to a
/// string, one key for each mapping on the way.
pub open spec fn leads(fields: Seq<(Tree, Tree)>, keys: Seq<Seq<char>>, root: bool) -> bool
    decreases keys.len(), 1nat,
{
    exists|i: int|
        0 <= i < fields.len() && field_leads(
            (#[trigger] fields[i]).0,
            fields[i].1,
            keys,
            root,
        )
}

/// The name of the attribute that `keys` lead to from a mapping at `path`.
pub open spec fn named(path: Seq<char>, root: bool, keys: Seq<Seq<char>>) -> Seq<char>
    decreases keys.len(),
{
    if keys.len() == 0 {
        path
    } else {
        named(attribute_path(path, root, keys[0]), false, keys.drop_first())
    }
}

/// Whether `target` names a string that some keys lead to from a field.
pub open spec fn field_names(
    key: Tree,
    value: Tree,
    path: Seq<char>,
    root: bool,
    target: Seq<char>,
) -> bool {
    exists|keys: Seq<Seq<char>>|
        #[trigger] field_leads(key, value, keys, root) && target == named(path, root, keys)
}

/// Whether `target` names a string that some keys lead to from a mapping.
pub open spec fn names(
    fields: Seq<(Tree, Tree)>,
    path: Seq<char>,
    root: bool,
    target: Seq<char>,
) -> bool {
    exists|keys: Seq<Seq<char>>| #[trigger] leads(fields, keys, root) && target == named(path, root, keys)
}

/// What one field contributes are the names of the strings that keys lead
/// to from it.
proof fn lemma_field_attributes_name_strings(
    key: Tree,
    value: Tree,
    path: Seq<char>,
    root: bool,
    target: Seq<char>,
)
    ensures
        field_attributes(key, value, path, root).contains(target) <==> field_names(
            key,
            value,
            path,
            root,
            target,
        ),
    decreases value, 1nat,
{
    match key {
        Tree::Text(k) => {
            if root && k == METADATA_KEY@ {
            } else {
                let here = attribute_path(path, root, k);
                match value {
                    Tree::Text(_) => {
                        assert(seq![here][0] == here);
                        let one = seq![k];
                        assert(named(path, root, one) == here) by {
                            assert(one.drop_first().len() == 0);
                            assert(named(here, false, one.drop_first()) == here);
                        }
                        if target == here {
                            assert(field_leads(key, value, one, root));
                        }
                        if field_names(key, value, path, root, target) {
                            let keys = choose|keys: Seq<Seq<char>>|
                                #[trigger] field_leads(key, value, keys, root) && target == named(
                                    path,
                                    root,
                                    keys,
                                );
                            assert(keys == one);
                        }
                    },
                    Tree::Mapping(inner) => {
                        lemma_attributes_name_strings(inner, here, false, target);
                        if names(inner, here, false, target) {
                            let rest = choose|rest: Seq<Seq<char>>|
                                #[trigger] leads(inner, rest, false) && target == named(
                                    here,
                                    false,
                                    rest,
                                );
                            assert(exists|i: int|
                                0 <= i < inner.len() && field_leads(
                                    (#[trigger] inner[i]).0,
                                    inner[i].1,
                                    rest,
                                    false,
                                ));
                            let keys = seq![k] + rest;
                            assert(keys.drop_first() == rest);
                            assert(field_leads(key, value, keys, root));
                        }
                        if field_names(key, value, path, root, target) {
                            let keys = choose|keys: Seq<Seq<char>>|
                                #[trigger] field_leads(key, value, keys, root) && target == named(
                                    path,
                                    root,
                                    keys,
                                );
                            assert(leads(inner, keys.drop_first(), false));
                        }
                    },
                    Tree::Other => {},
                }
            }
        },
        _ => {},
    }
}

/// The attributes of a mapping are exactly the names of the strings that
/// keys lead to from it: every string in a mapping within mappings is
/// reported under the keys on the way to it, and nothing else is.
pub proof fn lemma_attributes_name_strings(
    fields: Seq<(Tree, Tree)>,
    path: Seq<char>,
    root: bool,
    target: Seq<char>,
)
    ensures
        attributes(fields, path, root).contains(target) <==> names(fields, path, root, target),
    decreases fields, 0nat,
{
    if fields.len() == 0 {
    } else {
        let rest = fields.drop_first();
        let first = field_attributes(fields[0].0, fields[0].1, path, root);
        lemma_contains_add(first, attributes(rest, path, root), target);
        lemma_field_attributes_name_strings(fields[0].0, fields[0].1, path, root, target);
        lemma_attributes_name_strings(rest, path, root, target);
        if first.contains(target) {
            let keys = choose|keys: Seq<Seq<char>>|
                #[trigger] field_leads(fields[0].0, fields[0].1, keys, root) && target == named(
                    path,
                    root,
                    keys,
                );
            assert(leads(fields, keys, root));
        }
        if names(rest, path, root, target) {
            let keys = choose|keys: Seq<Seq<char>>|
                #[trigger] leads(rest, keys, root) && target == named(path, root, keys);
            let i = choose|i: int|
                0 <= i < rest.len() && field_leads((#[trigger] rest[i]).0, rest[i].1, keys, root);
            assert(rest[i] == fields[i + 1]);
            assert(leads(fields, keys, root));
        }
        if names(fields, path, root, target) {
            let keys = choose|keys: Seq<Seq<char>>|
                #[trigger] leads(fields, keys, root) && target == named(path, root, keys);
            let i = choose|i: int|
                0 <= i < fields.len() && field_leads(
                    (#[trigger] fields[i]).0,
                    fields[i].1,
                    keys,
                    root,
                );
            if i == 0 {
                assert(field_names(fields[0].0, fields[0].1, path, root, target));
            } else {
                assert(rest[i - 1] == fields[i]);
                assert(leads(rest, keys, root));
            }
        }
    }
}

/// At the root of a document, the name that keys lead to is those keys
/// joined by slashes.
pub proof fn lemma_named_is_slash_path(keys: Seq<Seq<char>>)
    requires
        keys.len() > 0,
    ensures
        named(Seq::empty(), true, keys) == slash_path(keys),
{
    lemma_named_below(seq![keys[0]], keys.drop_first());
    assert(seq![keys[0]] + keys.drop_first() == keys);
    assert(named(Seq::empty(), true, keys) == named(keys[0], false, keys.drop_first()));
}

/// Below the attribute that `front` leads to, the name that `rest` leads to
/// is all the keys joined by slashes.
proof fn lemma_named_below(front: Seq<Seq<char>>, rest: Seq<Seq<char>>)
    requires
        front.len() > 0,
    ensures
        named(slash_path(front), false, rest) == slash_path(front + rest),
    decreases rest.len(),
{
    if rest.len() == 0 {
        assert(front + rest == front);
    } else {
        let next = front.push(rest[0]);
        assert(next.drop_last() == front);
        lemma_named_below(next, rest.drop_first());
        assert(next + rest.drop_first() == front + rest);
    }
}

/// Why a text has no attributes.
#[derive(Clone, Copy, Debug, PartialEq, Eq, Structural)]
pub enum DocumentError {
    /// The text is neither a JSON object nor a YAML mapping.
    NotStructured,
}

impl DocumentError {
    /// The message shown to the user.
    pub fn message(&self) -> (message: String)
        ensures
            message@ == NOT_STRUCTURED@,
    {
        String::from_str(NOT_STRUCTURED)
    }
}

/// The attributes of a text, given what the two parsers make of it: those
/// of the JSON value where that is an object, else those of the first YAML
/// document where that is a mapping, else none at all.
pub open spec fn document_attributes(json: Option<Tree>, yaml: Option<Seq<Tree>>) -> Result<
    Seq<Seq<char>>,
    DocumentError,
> {
    match json {
        Some(Tree::Mapping(fields)) => Ok(attributes(fields, Seq::empty(), true)),
        _ => match yaml {
            Some(docs) => if docs.len() > 0 {
                match docs[0] {
                    Tree::Mapping(fields) => Ok(attributes(fields, Seq::empty(), true)),
                    _ => Err(DocumentError::NotStructured),
                }
            } else {
                Err(DocumentError::NotStructured)
            },
            None => Err(DocumentError::NotStructured),
        },
    }
}

/// Appends the attributes of the mapping `node` to `out`.
fn collect_attributes(node: &Node, path: &str, root: bool, out: &mut Vec<String>)
    requires
        node is Mapping,
    ensures
        final(out).deep_view() == old(out).deep_view() + attributes(
            node@->Mapping_0,
            path@,
            root,
        ),
    decreases node,
{
    match node {
        Node::Mapping(fields) => {
            let ghost start = out.deep_view();
            let mut i: usize = 0;
            assert(fields@.skip(0) == fields@);
            while i < fields.len()
                invariant
                    i <= fields@.len(),
                    *node == Node::Mapping(*fields),
                    start + attributes(trees_of(fields@), path@, root) == out.deep_view()
                        + attributes(trees_of(fields@.skip(i as int)), path@, root),
                decreases fields@.len() - i,
            {
                let field = &fields[i];
                proof {
                    let rest = fields@.skip(i as int);
                    assert(rest[0] == fields@[i as int]);
                    assert(rest.drop_first() == fields@.skip(i + 1));
                    let trees = trees_of(rest);
                    assert(trees[0] == (field.key@, field.value@));
                    assert(trees.drop_first() == trees_of(rest.drop_first()));
                    assert(decreases_to!(*node => node->Mapping_0));
                }
                collect_field(field, path, root, out);
                i += 1;
            }
            assert(fields@.skip(i as int).len() == 0);
        },
        _ => {},
    }
}

/// Appends what one field contributes to `out`.
fn collect_field(field: &Field, path: &str, root: bool, out: &mut Vec<String>)
    ensures
        final(out).deep_view() == old(out).deep_view() + field_attributes(
            field.key@,
            field.value@,
            path@,
            root,
        ),
    decreases field,
{
    match &field.key {
        Node::Text(key) => {
            if root && str_eq(key.as_str(), METADATA_KEY) {
                return ;
            }
            let here = if root {
                key.clone()
            } else {
                proof {
                    reveal_strlit("/");
                }
                let mut here = String::from_str(path);
                here.append("/");
                here.append(key.as_str());
                assert("/"@ == seq!['/']);
                here
            };
            assert(here@ == attribute_path(path@, root, key@));
            match &field.value {
                Node::Text(_) => {
                    let ghost before = out.deep_view();
                    out.push(here);
                    assert(out.deep_view() =~= before.push(here@));
                },
                Node::Mapping(_) => {
                    collect_attributes(&field.value, here.as_str(), false, out);
                },
                Node::Other => {},
            }
        },
        _ => {},
    }
}

/// The attributes of a document whose root is the mapping `root`.
pub fn attributes_of(root: &Node) -> (found: Vec<String>)
    requires
        root is Mapping,
    ensures
        found.deep_view() == attributes(root@->Mapping_0, Seq::empty(), true),
{
    let mut found: Vec<String> = Vec::new();
    assert(found.deep_view() =~= Seq::<Seq<char>>::empty());
    collect_attributes(root, "", true, &mut found);
    proof {
        reveal_strlit("");
        assert(""@ =~= Seq::<char>::empty());
    }
    found
}

/// The views of a sequence of nodes.
pub open spec fn views_of(nodes: Seq<Node>) -> Seq<Tree> {
    nodes.map_values(|n: Node| n@)
}

/// The attributes of a text, given what the two parsers made of it: `json`
/// from the JSON parser and `yaml`, one node for each document, from the
/// YAML parser, each `None` where its parser refused the text.
///
/// A JSON object goes first. Otherwise the first YAML document counts, if
/// it is a mapping. Otherwise the text is not structured data, and no
/// attribute is reported.
pub fn attributes_from(json: &Option<Node>, yaml: &Option<Vec<Node>>) -> (result: Result<
    Vec<String>,
    DocumentError,
>)
    ensures
        match result {
            Ok(found) => Ok(found.deep_view()),
            Err(e) => Err(e),
        } == document_attributes(
            match json {
                Some(node) => Some(node@),
                None => None,
            },
            match yaml {
                Some(docs) => Some(views_of(docs@)),
                None => None,
            },
        ),
{
    if let Some(node) = json {
        if let Node::Mapping(_) = node {
            return Ok(attributes_of(node));
        }
    }
    if let Some(docs) = yaml {
        if docs.len() > 0 {
            assert(views_of(docs@)[0] == docs@[0]@);
            if let Node::Mapping(_) = &docs[0] {
                return Ok(attributes_of(&docs[0]));
            }
        }
    }
    Err(DocumentError::NotStructured)
}

/// What `serde_json::from_str` makes of a text as a `serde_json::Value`:
/// the value as a tree, or nothing where the text is not JSON.
pub uninterp spec fn json_document(text: Seq<char>) -> Option<Tree>;

/// A JSON value as `serde_json` holds it.
#[verifier::external_type_specification]
#[verifier::external_body]
pub struct ExJsonValue(serde_json::Value);

/// Copies a `serde_json::Value` into a node: a string as text, an object
/// as a mapping with its entries in the order `serde_json` keeps them, and
/// every other variant as `Other`.
#[verifier::external_body]
fn json_node(value: &serde_json::Value) -> Node {
    match value {
        serde_json::Value::String(s) => Node::Text(s.clone()),
        serde_json::Value::Object(map) => Node::Mapping(
            map.iter().map(|(k, v)| Field { key: Node::Text(k.clone()), value: json_node(v) }).collect(),
        ),
        _ => Node::Other,
    }
}

/// `serde_json::from_str`, read as a `serde_json::Value`. The result is
/// the parser's value, copied by `json_node`; it depends on the text alone.
/// Nothing is claimed of which texts are JSON or of what they hold.
#[verifier::external_body]
fn parse_json(text: &str) -> (parsed: Option<Node>)
    ensures
        json_document(text@) == match parsed {
            Some(node) => Some(node@),
            None => None,
        },
{
    serde_json::from_str::<serde_json::Value>(text).ok().map(|value| json_node(&value))
}

/// Whether the YAML parser has to be asked about a text: it has unless the
/// text is a JSON object.
pub fn needs_yaml(content: &str) -> (needed: bool)
    ensures
        needed == !(json_document(content@) matches Some(Tree::Mapping(_))),
{
    match parse_json(content) {
        Some(Node::Mapping(_)) => false,
        _ => true,
    }
}

/// The attributes of an encrypted record, read from its text.
///
/// `yaml` is what a YAML parser made of the same text: one node for each
/// document, or `None` where it refused the text. It is looked at only
/// where `needs_yaml` holds of the text.
///
/// The text is read as JSON first and, unless that gives an object, as
/// YAML. Every key with a string value is reported by its path from the
/// root, keys joined by `/`, in the order of the document. The metadata
/// key at the root is left out, and lists are not looked into. A text that
/// is neither a JSON object nor a YAML mapping is an error.
pub fn discover_attributes(content: &str, yaml: &Option<Vec<Node>>) -> (result: Result<
    Vec<String>,
    DocumentError,
>)
    ensures
        match result {
            Ok(found) => Ok(found.deep_view()),
            Err(e) => Err(e),
        } == document_attributes(
            json_document(content@),
            match yaml {
                Some(docs) => Some(views_of(docs@)),
                None => None,
            },
        ),
{
    let json = parse_json(content);
    attributes_from(&json, yaml)
}

} // verus!
