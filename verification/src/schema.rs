//! The shape of a configuration as a TOML document, and the way between the
//! two.
//!
//! A configuration is stored as a document with two keys: `providers`, a
//! table with one sub-table per provider, keyed by the provider's name, and
//! `current_provider`, a string. A provider's table may hold the strings
//! `description` and `api_key`; a setting that is absent has no key. Keys
//! that the schema does not name are ignored on reading.

use crate::config::{text_view, ConfigView, ProviderConfig, ProviderView, SecondBrainConfig};
use crate::document::{
    parse_error_text, parse_table, plain, render_error_text, render_table, table_get,
    table_insert, table_keys, table_new, table_nodes, toml_document, toml_text, value_as_str,
    value_as_table, value_node, value_of_table, value_of_text, Node,
};
use crate::error::ConfigError;
use vstd::prelude::*;

verus! {

/// The entries of the table that stands for a provider's settings.
pub open spec fn provider_fields(provider: ProviderView) -> Map<Seq<char>, Node> {
    let described = match provider.description {
        Some(text) => Map::<Seq<char>, Node>::empty().insert("description"@, Node::Text(text)),
        None => Map::<Seq<char>, Node>::empty(),
    };
    match provider.api_key {
        Some(text) => described.insert("api_key"@, Node::Text(text)),
        None => described,
    }
}

/// The entries of the `providers` table: one table per provider.
pub open spec fn providers_table(providers: Map<Seq<char>, ProviderView>) -> Map<
    Seq<char>,
    Node,
> {
    providers.map_values(|provider: ProviderView| Node::Table(provider_fields(provider)))
}

/// The document that stands for a configuration.
pub open spec fn document_of(config: ConfigView) -> Map<Seq<char>, Node> {
    Map::<Seq<char>, Node>::empty().insert(
        "providers"@,
        Node::Table(providers_table(config.providers)),
    ).insert("current_provider"@, Node::Text(config.current_provider))
}

/// What a table gives for an optional text at `key`: no text where the key
/// is absent, the text where a string stands there, and `None` where
/// anything else does.
pub open spec fn optional_text(fields: Map<Seq<char>, Node>, key: Seq<char>) -> Option<
    Option<Seq<char>>,
> {
    if !fields.contains_key(key) {
        Some(None)
    } else {
        match fields[key] {
            Node::Text(text) => Some(Some(text)),
            _ => None,
        }
    }
}

/// The settings that a value stands for, or `None` where it is no table or
/// one of its two settings is no string.
pub open spec fn provider_of(node: Node) -> Option<ProviderView> {
    match node {
        Node::Table(fields) => match (
            optional_text(fields, "description"@),
            optional_text(fields, "api_key"@),
        ) {
            (Some(description), Some(api_key)) => Some(ProviderView { description, api_key }),
            _ => None,
        },
        _ => None,
    }
}

/// Whether a document has the shape of a configuration.
pub open spec fn well_shaped(document: Map<Seq<char>, Node>) -> bool {
    &&& document.contains_key("providers"@)
    &&& document["providers"@] is Table
    &&& forall|name: Seq<char>| #[trigger]
        document["providers"@]->Table_0.contains_key(name) ==> provider_of(
            document["providers"@]->Table_0[name],
        ) is Some
    &&& document.contains_key("current_provider"@)
    &&& document["current_provider"@] is Text
}

/// The configuration that a document stands for, or `None` where it does not
/// have the shape of one.
pub open spec fn config_of(document: Map<Seq<char>, Node>) -> Option<ConfigView> {
    if well_shaped(document) {
        Some(
            ConfigView {
                providers: document["providers"@]->Table_0.map_values(
                    |node: Node| provider_of(node)->Some_0,
                ),
                current_provider: document["current_provider"@]->Text_0,
            },
        )
    } else {
        None
    }
}

/// The message for a provider whose value does not stand for settings.
pub open spec fn provider_fault(name: Seq<char>) -> Seq<char> {
    "provider `"@ + name
        + "` is not a table of optional `description` and `api_key` strings"@
}

/// Whether `message` names what keeps a document from having the shape of a
/// configuration: the first of these that applies. `providers` is missing,
/// or is no table; a provider does not stand for settings (the message names
/// one such provider); `current_provider` is missing, or is no string.
pub open spec fn names_fault(document: Map<Seq<char>, Node>, message: Seq<char>) -> bool {
    if !document.contains_key("providers"@) {
        message == "missing field `providers`"@
    } else if !(document["providers"@] is Table) {
        message == "field `providers` is not a table"@
    } else if exists|name: Seq<char>| #[trigger]
        document["providers"@]->Table_0.contains_key(name) && provider_of(
            document["providers"@]->Table_0[name],
        ) is None {
        exists|name: Seq<char>| #[trigger]
            document["providers"@]->Table_0.contains_key(name) && provider_of(
                document["providers"@]->Table_0[name],
            ) is None && message == provider_fault(name)
    } else if !document.contains_key("current_provider"@) {
        message == "missing field `current_provider`"@
    } else {
        message == "field `current_provider` is not a string"@
    }
}

/// Whether `error` is the parse error owed for a text that stands for no
/// configuration. Where the text is a TOML document, the message names what
/// its shape lacks; where it is none, the message is the one that `toml`
/// gives, of which nothing is said.
pub open spec fn parse_failure(text: Seq<char>, error: ConfigError) -> bool {
    &&& error is Parse
    &&& match toml_document(text) {
        Some(document) => names_fault(document, error->Parse_0@),
        None => true,
    }
}

/// The configuration that a text stands for, or `None` where the text is no
/// TOML document or the document does not have the shape of a configuration.
pub open spec fn parsed_config(text: Seq<char>) -> Option<ConfigView> {
    match toml_document(text) {
        Some(document) => config_of(document),
        None => None,
    }
}

/// The text that stands for a configuration, or `None` where rendering fails.
pub open spec fn rendered_config(config: ConfigView) -> Option<Seq<char>> {
    toml_text(document_of(config))
}

/// The two keys of a document differ, and so do the two keys of a
/// provider's table.
proof fn lemma_keys_differ()
    ensures
        "providers"@ != "current_provider"@,
        "description"@ != "api_key"@,
{
    reveal_strlit("providers");
    reveal_strlit("current_provider");
    reveal_strlit("description");
    reveal_strlit("api_key");
    assert("providers"@.len() != "current_provider"@.len());
    assert("description"@.len() != "api_key"@.len());
}

/// The table of a provider's settings reads back as those settings.
pub proof fn lemma_provider_round_trip(provider: ProviderView)
    ensures
        provider_of(Node::Table(provider_fields(provider))) == Some(provider),
        plain(Node::Table(provider_fields(provider))),
{
    lemma_keys_differ();
    let fields = provider_fields(provider);
    assert forall|key: Seq<char>| fields.contains_key(key) implies plain(#[trigger] fields[key]) by {
    }
}

/// The document of a configuration reads back as that configuration: what
/// is written out for a configuration has the shape of one, and stands for
/// the configuration it was written for.
pub proof fn lemma_document_round_trip(config: ConfigView)
    ensures
        well_shaped(document_of(config)),
        config_of(document_of(config)) == Some(config),
{
    lemma_keys_differ();
    let document = document_of(config);
    let table = providers_table(config.providers);
    assert(document["providers"@] == Node::Table(table));
    assert forall|name: Seq<char>| #[trigger] table.contains_key(name) implies provider_of(
        table[name],
    ) == Some(config.providers[name]) by {
        lemma_provider_round_trip(config.providers[name]);
    }
    assert(well_shaped(document));
    let read = table.map_values(|node: Node| provider_of(node)->Some_0);
    assert(read =~= config.providers);
}

/// Storing and loading: where `toml` reads the text that it wrote for a
/// configuration's document as that same document, the text loads as the
/// configuration that was stored.
pub proof fn lemma_stored_text_loads_back(config: ConfigView, text: Seq<char>)
    requires
        rendered_config(config) == Some(text),
        toml_document(text) == Some(document_of(config)),
    ensures
        parsed_config(text) == Some(config),
{
    lemma_document_round_trip(config);
}

/// What is shown after a provider was added with a description and a key:
/// the document holds, at the provider's name in `providers`, a table with
/// exactly that description and that key.
pub proof fn lemma_added_provider_is_shown(
    config: ConfigView,
    name: Seq<char>,
    description: Seq<char>,
    api_key: Seq<char>,
)
    ensures
        ({
            let added = config.with_provider(
                name,
                ProviderView { description: Some(description), api_key: Some(api_key) },
            );
            let shown = document_of(added)["providers"@];
            &&& document_of(added).contains_key("providers"@)
            &&& shown is Table
            &&& shown->Table_0.contains_key(name)
            &&& shown->Table_0[name] == Node::Table(
                Map::<Seq<char>, Node>::empty().insert(
                    "description"@,
                    Node::Text(description),
                ).insert("api_key"@, Node::Text(api_key)),
            )
        }),
{
    lemma_keys_differ();
}

/// The document of a configuration is made of text and tables alone.
proof fn lemma_document_plain(config: ConfigView)
    ensures
        plain(Node::Table(document_of(config))),
{
    lemma_keys_differ();
    let document = document_of(config);
    let table = providers_table(config.providers);
    assert forall|name: Seq<char>| table.contains_key(name) implies plain(#[trigger] table[name]) by {
        lemma_provider_round_trip(config.providers[name]);
    }
    assert(plain(Node::Table(table)));
    assert forall|key: Seq<char>| document.contains_key(key) implies plain(
        #[trigger] document[key],
    ) by {
    }
}

/// Reads the optional text at `key` of a provider's table. The outer `None`
/// says that something other than a string stands there.
fn read_optional_text(fields: &toml::map::Map<String, toml::Value>, key: &str) -> (r: Option<
    Option<String>,
>)
    ensures
        match optional_text(table_nodes(*fields), key@) {
            Some(text) => r is Some && text_view(r->Some_0) == text,
            None => r is None,
        },
{
    match table_get(fields, key) {
        None => Some(None),
        Some(value) => match value_as_str(value) {
            Some(text) => Some(Some(text.to_owned())),
            None => None,
        },
    }
}

/// Reads a provider's settings from the value that stands at its name.
fn provider_from_value(value: &toml::Value) -> (r: Option<ProviderConfig>)
    ensures
        match provider_of(value_node(*value)) {
            Some(provider) => r is Some && r->Some_0@ == provider,
            None => r is None,
        },
{
    match value_as_table(value) {
        None => None,
        Some(fields) => {
            let description = read_optional_text(fields, "description");
            let api_key = read_optional_text(fields, "api_key");
            match (description, api_key) {
                (Some(description), Some(api_key)) => Some(ProviderConfig { description, api_key }),
                _ => None,
            }
        },
    }
}

/// Reads every provider of the `providers` table into `config`. Returns the
/// name of a provider whose value does not stand for settings, if there is
/// one; `config` is then left with the providers read so far.
fn read_providers(
    config: &mut SecondBrainConfig,
    table: &toml::map::Map<String, toml::Value>,
) -> (r: Option<String>)
    requires
        old(config)@ == ConfigView::empty(),
    ensures
        final(config)@.current_provider == old(config)@.current_provider,
        match r {
            Some(name) => table_nodes(*table).contains_key(name@) && provider_of(
                table_nodes(*table)[name@],
            ) is None,
            None => {
                &&& forall|name: Seq<char>| #[trigger]
                    table_nodes(*table).contains_key(name) ==> provider_of(
                        table_nodes(*table)[name],
                    ) is Some
                &&& final(config)@.providers == table_nodes(*table).map_values(
                    |node: Node| provider_of(node)->Some_0,
                )
            },
        },
{
    let names = table_keys(table);
    let ghost nodes = table_nodes(*table);
    let mut i: usize = 0;
    while i < names.len()
        invariant
            i <= names@.len(),
            nodes == table_nodes(*table),
            config@.current_provider == old(config)@.current_provider,
            forall|j: int| 0 <= j < names@.len() ==> nodes.contains_key((#[trigger] names@[j])@),
            forall|j: int| 0 <= j < i ==> provider_of(nodes[(#[trigger] names@[j])@]) is Some,
            forall|name: Seq<char>| #[trigger]
                config@.providers.contains_key(name) <==> exists|j: int|
                    0 <= j < i && (#[trigger] names@[j])@ == name,
            forall|name: Seq<char>| #[trigger]
                config@.providers.contains_key(name) ==> Some(config@.providers[name])
                    == provider_of(nodes[name]),
        decreases names@.len() - i,
    {
        let name = names[i].clone();
        let ghost before = config@;
        match table_get(table, name.as_str()) {
            None => {
                return Some(name);
            },
            Some(value) => match provider_from_value(value) {
                None => {
                    return Some(name);
                },
                Some(provider) => {
                    config.insert_provider(name, provider);
                },
            },
        }
        proof {
            let key = names@[i as int]@;
            assert forall|name: Seq<char>| #[trigger]
                config@.providers.contains_key(name) <==> exists|j: int|
                    0 <= j < i + 1 && (#[trigger] names@[j])@ == name by {
                if before.providers.contains_key(name) {
                    let j = choose|j: int| 0 <= j < i && (#[trigger] names@[j])@ == name;
                    assert(0 <= j < i + 1 && names@[j]@ == name);
                }
                if name == key {
                    assert(0 <= i < i + 1 && names@[i as int]@ == name);
                }
                if exists|j: int| 0 <= j < i + 1 && (#[trigger] names@[j])@ == name {
                    let j = choose|j: int| 0 <= j < i + 1 && (#[trigger] names@[j])@ == name;
                    if j < i {
                        assert(before.providers.contains_key(name));
                    }
                }
            }
        }
        i += 1;
    }
    proof {
        assert forall|name: Seq<char>| #[trigger] nodes.contains_key(name) implies provider_of(
            nodes[name],
        ) is Some && config@.providers.contains_key(name) by {
            let j = choose|j: int| 0 <= j < names@.len() && (#[trigger] names@[j])@ == name;
            assert(names@[j]@ == name);
        }
        assert forall|name: Seq<char>| #[trigger]
            config@.providers.contains_key(name) implies nodes.contains_key(name) by {
            let j = choose|j: int| 0 <= j < i && (#[trigger] names@[j])@ == name;
            assert(nodes.contains_key(names@[j]@));
        }
        assert(config@.providers =~= nodes.map_values(|node: Node| provider_of(node)->Some_0));
    }
    None
}

/// Reads a configuration from a TOML document. Succeeds exactly on the
/// documents that have the shape of a configuration, with the configuration
/// that the document stands for; every other document is a parse error whose
/// message names what the shape lacks.
pub fn config_from_table(table: &toml::map::Map<String, toml::Value>) -> (r: Result<
    SecondBrainConfig,
    ConfigError,
>)
    ensures
        match config_of(table_nodes(*table)) {
            Some(config) => r is Ok && r->Ok_0@ == config,
            None => r is Err && r->Err_0 is Parse && names_fault(
                table_nodes(*table),
                r->Err_0->Parse_0@,
            ),
        },
{
    let mut config = SecondBrainConfig::default();
    match table_get(table, "providers") {
        None => {
            return Err(ConfigError::Parse("missing field `providers`".to_owned()));
        },
        Some(value) => match value_as_table(value) {
            None => {
                return Err(ConfigError::Parse("field `providers` is not a table".to_owned()));
            },
            Some(providers) => match read_providers(&mut config, providers) {
                Some(name) => {
                    let message = "provider `".to_owned().concat(name.as_str()).concat(
                        "` is not a table of optional `description` and `api_key` strings",
                    );
                    assert(message@ == provider_fault(name@));
                    return Err(ConfigError::Parse(message));
                },
                None => {},
            },
        },
    }
    match table_get(table, "current_provider") {
        None => Err(ConfigError::Parse("missing field `current_provider`".to_owned())),
        Some(value) => match value_as_str(value) {
            None => Err(ConfigError::Parse("field `current_provider` is not a string".to_owned())),
            Some(text) => {
                config.set_current_provider(text.to_owned());
                Ok(config)
            },
        },
    }
}

/// Reads a configuration from the text of a configuration file. Succeeds
/// exactly on the texts that are TOML documents with the shape of a
/// configuration; every other text is a parse error, with the message of
/// `toml` where the text is no TOML document.
pub fn parse_config(text: &str) -> (r: Result<SecondBrainConfig, ConfigError>)
    ensures
        match parsed_config(text@) {
            Some(config) => r is Ok && r->Ok_0@ == config,
            None => r is Err && parse_failure(text@, r->Err_0),
        },
{
    match parse_table(text) {
        Ok(table) => config_from_table(&table),
        Err(error) => Err(ConfigError::Parse(parse_error_text(&error))),
    }
}

/// Builds the table of a provider's settings.
fn table_of_provider(provider: &ProviderConfig) -> (r: toml::map::Map<String, toml::Value>)
    ensures
        table_nodes(r) == provider_fields(provider@),
{
    let mut fields = table_new();
    match &provider.description {
        Some(text) => {
            table_insert(&mut fields, "description".to_owned(), value_of_text(text.clone()));
        },
        None => {},
    }
    match &provider.api_key {
        Some(text) => {
            table_insert(&mut fields, "api_key".to_owned(), value_of_text(text.clone()));
        },
        None => {},
    }
    fields
}

/// Builds the document that stands for a configuration.
pub fn table_of_config(config: &SecondBrainConfig) -> (r: toml::map::Map<String, toml::Value>)
    ensures
        table_nodes(r) == document_of(config@),
{
    let names = config.provider_names();
    let mut providers = table_new();
    let mut i: usize = 0;
    while i < names.len()
        invariant
            i <= names@.len(),
            forall|j: int|
                0 <= j < names@.len() ==> config@.providers.contains_key((#[trigger] names@[j])@),
            forall|name: Seq<char>| #[trigger]
                table_nodes(providers).contains_key(name) <==> exists|j: int|
                    0 <= j < i && (#[trigger] names@[j])@ == name,
            forall|name: Seq<char>| #[trigger]
                table_nodes(providers).contains_key(name) ==> table_nodes(providers)[name]
                    == Node::Table(provider_fields(config@.providers[name])),
        decreases names@.len() - i,
    {
        let ghost before = table_nodes(providers);
        let ghost key = names@[i as int]@;
        match config.provider(names[i].as_str()) {
            Some(provider) => {
                let fields = table_of_provider(provider);
                table_insert(&mut providers, names[i].clone(), value_of_table(fields));
            },
            None => {},
        }
        proof {
            assert forall|name: Seq<char>| #[trigger]
                table_nodes(providers).contains_key(name) <==> exists|j: int|
                    0 <= j < i + 1 && (#[trigger] names@[j])@ == name by {
                if before.contains_key(name) {
                    let j = choose|j: int| 0 <= j < i && (#[trigger] names@[j])@ == name;
                    assert(0 <= j < i + 1 && names@[j]@ == name);
                }
                if name == key {
                    assert(0 <= i < i + 1 && names@[i as int]@ == name);
                }
                if exists|j: int| 0 <= j < i + 1 && (#[trigger] names@[j])@ == name {
                    let j = choose|j: int| 0 <= j < i + 1 && (#[trigger] names@[j])@ == name;
                    if j < i {
                        assert(before.contains_key(name));
                    }
                }
            }
        }
        i += 1;
    }
    proof {
        assert forall|name: Seq<char>| #[trigger]
            config@.providers.contains_key(name) implies table_nodes(providers).contains_key(
            name,
        ) by {
            let j = choose|j: int| 0 <= j < names@.len() && (#[trigger] names@[j])@ == name;
            assert(names@[j]@ == name);
        }
        assert forall|name: Seq<char>| #[trigger]
            table_nodes(providers).contains_key(name) implies config@.providers.contains_key(
            name,
        ) by {
            let j = choose|j: int| 0 <= j < i && (#[trigger] names@[j])@ == name;
            assert(config@.providers.contains_key(names@[j]@));
        }
        assert(table_nodes(providers) =~= providers_table(config@.providers));
    }
    let mut document = table_new();
    table_insert(&mut document, "providers".to_owned(), value_of_table(providers));
    table_insert(
        &mut document,
        "current_provider".to_owned(),
        value_of_text(config.current_provider().to_owned()),
    );
    document
}

/// Writes a configuration out as the text of a configuration file: the text
/// that `toml` renders for the configuration's document. Where rendering
/// fails, the failure is a serialization error.
pub fn render_config(config: &SecondBrainConfig) -> (r: Result<String, ConfigError>)
    ensures
        match rendered_config(config@) {
            Some(text) => r is Ok && r->Ok_0@ == text,
            None => r is Err && r->Err_0 is Serialization,
        },
{
    let document = table_of_config(config);
    proof {
        lemma_document_plain(config@);
    }
    match render_table(&document) {
        Ok(text) => Ok(text),
        Err(error) => Err(ConfigError::Serialization(render_error_text(&error))),
    }
}

} // verus!
