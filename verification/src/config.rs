//! The configuration record and the edits made to it.
//!
//! A configuration maps provider names to provider settings and names the
//! provider that is currently selected. Contracts speak of a configuration
//! through its view, a [`ConfigView`], in which the providers form a `Map`.

use vstd::prelude::*;

verus! {

/// The settings of a provider as a mathematical value.
pub struct ProviderView {
    pub description: Option<Seq<char>>,
    pub api_key: Option<Seq<char>>,
}

/// A configuration as a mathematical value.
pub struct ConfigView {
    pub providers: Map<Seq<char>, ProviderView>,
    pub current_provider: Seq<char>,
}

impl ConfigView {
    /// The configuration of a fresh installation: no provider, no selection.
    pub open spec fn empty() -> ConfigView {
        ConfigView { providers: Map::empty(), current_provider: Seq::empty() }
    }

    /// This configuration with `provider` at `name`, in place of whatever
    /// stood there.
    pub open spec fn with_provider(self, name: Seq<char>, provider: ProviderView) -> ConfigView {
        ConfigView { providers: self.providers.insert(name, provider), ..self }
    }

    /// This configuration without an entry at `name`.
    pub open spec fn without_provider(self, name: Seq<char>) -> ConfigView {
        ConfigView { providers: self.providers.remove(name), ..self }
    }

    /// This configuration with `name` selected.
    pub open spec fn with_current(self, name: Seq<char>) -> ConfigView {
        ConfigView { current_provider: name, ..self }
    }
}

/// A provider that was added is found under its name, with exactly the
/// settings it was added with.
pub proof fn lemma_added_provider_is_found(
    config: ConfigView,
    name: Seq<char>,
    provider: ProviderView,
)
    ensures
        config.with_provider(name, provider).providers.contains_key(name),
        config.with_provider(name, provider).providers[name] == provider,
        config.with_provider(name, provider).current_provider == config.current_provider,
        forall|other: Seq<char>|
            other != name ==> (#[trigger] config.with_provider(name, provider).providers.contains_key(
                other,
            ) <==> config.providers.contains_key(other)),
{
}

/// Adding under one name twice leaves what the second addition alone would
/// have: one entry at that name, with the second settings.
pub proof fn lemma_add_replaces(
    config: ConfigView,
    name: Seq<char>,
    first: ProviderView,
    second: ProviderView,
)
    ensures
        config.with_provider(name, first).with_provider(name, second) == config.with_provider(
            name,
            second,
        ),
        config.with_provider(name, first).with_provider(name, second).providers[name] == second,
        config.providers.dom().finite() ==> config.with_provider(name, first).with_provider(
            name,
            second,
        ).providers.len() == config.with_provider(name, first).providers.len(),
{
    let once = config.with_provider(name, first);
    let twice = once.with_provider(name, second);
    assert(twice.providers =~= config.with_provider(name, second).providers);
    assert(twice.providers.dom() =~= once.providers.dom());
}

/// Removing a name that has no entry changes nothing.
pub proof fn lemma_remove_absent(config: ConfigView, name: Seq<char>)
    requires
        !config.providers.contains_key(name),
    ensures
        config.without_provider(name) == config,
{
    assert(config.without_provider(name).providers =~= config.providers);
}

/// Removing a provider leaves no entry at its name, whatever name is
/// selected: a selection may be left naming a provider that is gone.
pub proof fn lemma_remove_keeps_selection(config: ConfigView, name: Seq<char>)
    ensures
        !config.without_provider(name).providers.contains_key(name),
        config.without_provider(name).current_provider == config.current_provider,
{
}

/// Selecting a name makes it the current provider whether or not a provider
/// of that name exists, and touches no provider.
pub proof fn lemma_select_any_name(config: ConfigView, name: Seq<char>)
    ensures
        config.with_current(name).current_provider == name,
        config.with_current(name).providers == config.providers,
{
}

/// The view of an optional string.
pub open spec fn text_view(text: Option<String>) -> Option<Seq<char>> {
    match text {
        Some(s) => Some(s@),
        None => None,
    }
}

/// Settings of one provider.
#[derive(Debug)]
pub struct ProviderConfig {
    pub description: Option<String>,
    pub api_key: Option<String>,
}

impl View for ProviderConfig {
    type V = ProviderView;

    open spec fn view(&self) -> ProviderView {
        ProviderView {
            description: text_view(self.description),
            api_key: text_view(self.api_key),
        }
    }
}

impl Default for ProviderConfig {
    fn default() -> (r: Self)
        ensures
            r@ == (ProviderView { description: None, api_key: None }),
    {
        ProviderConfig { description: None, api_key: None }
    }
}

/// Whether two optional texts are the same.
fn same_text(left: &Option<String>, right: &Option<String>) -> (r: bool)
    ensures
        r == (text_view(*left) == text_view(*right)),
{
    match (left, right) {
        (Some(a), Some(b)) => *a == *b,
        (None, None) => true,
        _ => false,
    }
}

impl PartialEq for ProviderConfig {
    /// Two providers are equal where their settings are.
    fn eq(&self, other: &ProviderConfig) -> (r: bool) {
        same_text(&self.description, &other.description) && same_text(
            &self.api_key,
            &other.api_key,
        )
    }
}

impl vstd::std_specs::cmp::PartialEqSpecImpl for ProviderConfig {
    open spec fn obeys_eq_spec() -> bool {
        true
    }

    open spec fn eq_spec(&self, other: &ProviderConfig) -> bool {
        self@ == other@
    }
}

/// Whether no two entries carry the same name.
spec fn names_distinct(entries: Seq<(String, ProviderConfig)>) -> bool {
    forall|i: int, j: int|
        0 <= i < j < entries.len() ==> (#[trigger] entries[i]).0@ != (#[trigger] entries[j]).0@
}

/// Whether an entry carries `name`.
spec fn has_name(entries: Seq<(String, ProviderConfig)>, name: Seq<char>) -> bool {
    exists|i: int| 0 <= i < entries.len() && (#[trigger] entries[i]).0@ == name
}

/// The position of an entry that carries `name`.
spec fn position_of(entries: Seq<(String, ProviderConfig)>, name: Seq<char>) -> int {
    choose|i: int| 0 <= i < entries.len() && (#[trigger] entries[i]).0@ == name
}

/// The map that a list of entries stands for.
spec fn entries_map(entries: Seq<(String, ProviderConfig)>) -> Map<
    Seq<char>,
    ProviderView,
> {
    Map::new(
        |name: Seq<char>| has_name(entries, name),
        |name: Seq<char>| entries[position_of(entries, name)].1@,
    )
}

/// Under distinct names, the entry at position `i` is what the map holds at
/// its name.
proof fn lemma_entry_in_map(entries: Seq<(String, ProviderConfig)>, i: int)
    requires
        names_distinct(entries),
        0 <= i < entries.len(),
    ensures
        entries_map(entries).contains_key(entries[i].0@),
        entries_map(entries)[entries[i].0@] == entries[i].1@,
{
    let name = entries[i].0@;
    assert(has_name(entries, name));
    let p = position_of(entries, name);
    assert(0 <= p < entries.len() && entries[p].0@ == name);
    assert(p == i);
}

/// A name that no entry carries is no key of the map.
proof fn lemma_absent_from_map(entries: Seq<(String, ProviderConfig)>, name: Seq<char>)
    requires
        forall|i: int| 0 <= i < entries.len() ==> (#[trigger] entries[i]).0@ != name,
    ensures
        !entries_map(entries).contains_key(name),
{
}

/// The position of the entry named `name`, if there is one.
fn find_entry(entries: &Vec<(String, ProviderConfig)>, name: &String) -> (r: Option<usize>)
    ensures
        match r {
            Some(i) => i < entries@.len() && entries@[i as int].0@ == name@,
            None => forall|i: int| 0 <= i < entries@.len() ==> (#[trigger] entries@[i]).0@ != name@,
        },
{
    let mut i: usize = 0;
    while i < entries.len()
        invariant
            i <= entries@.len(),
            forall|j: int| 0 <= j < i ==> (#[trigger] entries@[j]).0@ != name@,
        decreases entries@.len() - i,
    {
        if entries[i].0 == *name {
            return Some(i);
        }
        i += 1;
    }
    None
}

/// Replaces the entry named `name`, or appends one where there is none.
fn put_entry(entries: &mut Vec<(String, ProviderConfig)>, name: String, provider: ProviderConfig)
    requires
        names_distinct(old(entries)@),
    ensures
        names_distinct(final(entries)@),
        entries_map(final(entries)@) == entries_map(old(entries)@).insert(name@, provider@),
{
    let ghost before = entries@;
    let ghost key = name@;
    let ghost value = provider@;
    let found = find_entry(entries, &name);
    let ghost slot: int = match found {
        Some(i) => i as int,
        None => before.len() as int,
    };
    match found {
        Some(i) => {
            entries.set(i, (name, provider));
        },
        None => {
            entries.push((name, provider));
        },
    }
    proof {
        let after = entries@;
        assert(after[slot].0@ == key && after[slot].1@ == value);
        assert(forall|p: int| 0 <= p < after.len() && p != slot ==> after[p] == before[p]);
        assert(forall|p: int| 0 <= p < before.len() && p != slot ==> after[p] == before[p]);
        assert(names_distinct(after));
        assert forall|k: Seq<char>|
            entries_map(after).contains_key(k) <==> #[trigger] entries_map(before).insert(
                key,
                value,
            ).contains_key(k) by {
            if has_name(after, k) {
                let p = position_of(after, k);
                if p != slot {
                    assert(before[p].0@ == k);
                }
            }
            if has_name(before, k) {
                let p = position_of(before, k);
                if p != slot {
                    assert(after[p].0@ == k);
                }
            }
        }
        assert forall|k: Seq<char>| #[trigger]
            entries_map(after).contains_key(k) implies entries_map(after)[k] == entries_map(
            before,
        ).insert(key, value)[k] by {
            let p = position_of(after, k);
            lemma_entry_in_map(after, p);
            if p != slot {
                lemma_entry_in_map(before, p);
            }
        }
        assert(entries_map(after) =~= entries_map(before).insert(key, value));
    }
}

/// Takes out the entry named `name`, if there is one, and hands back its
/// settings.
fn drop_entry(entries: &mut Vec<(String, ProviderConfig)>, name: &String) -> (r: Option<
    ProviderConfig,
>)
    requires
        names_distinct(old(entries)@),
    ensures
        names_distinct(final(entries)@),
        entries_map(final(entries)@) == entries_map(old(entries)@).remove(name@),
        match r {
            Some(provider) => entries_map(old(entries)@).contains_key(name@) && provider@
                == entries_map(old(entries)@)[name@],
            None => !entries_map(old(entries)@).contains_key(name@),
        },
{
    let ghost before = entries@;
    let ghost key = name@;
    match find_entry(entries, name) {
        Some(i) => {
            let removed = entries.remove(i);
            proof {
                let after = entries@;
                let slot = i as int;
                lemma_entry_in_map(before, slot);
                assert(forall|p: int| 0 <= p < slot ==> after[p] == before[p]);
                assert(forall|p: int| slot <= p < after.len() ==> after[p] == before[p + 1]);
                assert(names_distinct(after));
                assert forall|k: Seq<char>|
                    entries_map(after).contains_key(k) <==> #[trigger] entries_map(before).remove(
                        key,
                    ).contains_key(k) by {
                    if has_name(after, k) {
                        let p = position_of(after, k);
                        if p < slot {
                            assert(before[p].0@ == k);
                        } else {
                            assert(before[p + 1].0@ == k);
                        }
                    }
                    if has_name(before, k) && k != key {
                        let p = position_of(before, k);
                        if p < slot {
                            assert(after[p].0@ == k);
                        } else {
                            assert(after[p - 1].0@ == k);
                        }
                    }
                }
                assert forall|k: Seq<char>| #[trigger]
                    entries_map(after).contains_key(k) implies entries_map(after)[k]
                    == entries_map(before).remove(key)[k] by {
                    let p = position_of(after, k);
                    lemma_entry_in_map(after, p);
                    if p < slot {
                        lemma_entry_in_map(before, p);
                    } else {
                        lemma_entry_in_map(before, p + 1);
                    }
                }
                assert(entries_map(after) =~= entries_map(before).remove(key));
            }
            Some(removed.1)
        },
        None => {
            proof {
                lemma_absent_from_map(before, key);
                assert(entries_map(before) =~= entries_map(before).remove(key));
            }
            None
        },
    }
}

/// Under distinct names, the map has as many keys as there are entries.
proof fn lemma_entries_map_len(entries: Seq<(String, ProviderConfig)>)
    requires
        names_distinct(entries),
    ensures
        entries_map(entries).dom().finite(),
        entries_map(entries).len() == entries.len(),
    decreases entries.len(),
{
    if entries.len() == 0 {
        assert(entries_map(entries) =~= Map::empty());
    } else {
        let front = entries.drop_last();
        let last = entries.last();
        assert(forall|p: int| 0 <= p < front.len() ==> front[p] == entries[p]);
        assert(names_distinct(front));
        lemma_entries_map_len(front);
        assert(!has_name(front, last.0@)) by {
            if has_name(front, last.0@) {
                let p = position_of(front, last.0@);
                assert(entries[p].0@ == entries[entries.len() - 1].0@);
            }
        }
        assert forall|k: Seq<char>|
            entries_map(entries).contains_key(k) <==> #[trigger] entries_map(front).insert(
                last.0@,
                last.1@,
            ).contains_key(k) by {
            if has_name(entries, k) {
                let p = position_of(entries, k);
                if p < front.len() {
                    assert(front[p].0@ == k);
                }
            }
            if has_name(front, k) {
                let p = position_of(front, k);
                assert(entries[p].0@ == k);
            }
            if k == last.0@ {
                assert(entries[entries.len() - 1].0@ == k);
            }
        }
        assert(entries_map(entries).dom() =~= entries_map(front).dom().insert(last.0@));
    }
}

/// Whether every entry of `left` stands in `right` with the same settings.
fn covered(left: &Vec<(String, ProviderConfig)>, right: &Vec<(String, ProviderConfig)>) -> (r:
    bool)
    requires
        names_distinct(left@),
        names_distinct(right@),
    ensures
        r == forall|name: Seq<char>| #[trigger]
            entries_map(left@).contains_key(name) ==> entries_map(right@).contains_key(name)
                && entries_map(right@)[name] == entries_map(left@)[name],
{
    let mut i: usize = 0;
    while i < left.len()
        invariant
            i <= left@.len(),
            names_distinct(left@),
            names_distinct(right@),
            forall|j: int|
                0 <= j < i ==> entries_map(right@).contains_key((#[trigger] left@[j]).0@)
                    && entries_map(right@)[left@[j].0@] == left@[j].1@,
        decreases left@.len() - i,
    {
        proof {
            lemma_entry_in_map(left@, i as int);
        }
        match find_entry(right, &left[i].0) {
            Some(at) => {
                proof {
                    lemma_entry_in_map(right@, at as int);
                }
                if !(left[i].1 == right[at].1) {
                    return false;
                }
            },
            None => {
                proof {
                    lemma_absent_from_map(right@, left@[i as int].0@);
                }
                return false;
            },
        }
        i += 1;
    }
    proof {
        assert forall|name: Seq<char>| #[trigger]
            entries_map(left@).contains_key(name) implies entries_map(right@).contains_key(name)
            && entries_map(right@)[name] == entries_map(left@)[name] by {
            let p = position_of(left@, name);
            lemma_entry_in_map(left@, p);
            assert(entries_map(right@).contains_key(left@[p].0@));
        }
    }
    true
}

/// The root record: the providers by name, and the name of the selected one.
///
/// Nothing ties the selected name to the providers: it may name a provider
/// that was never added or that has been removed.
#[derive(Debug)]
pub struct SecondBrainConfig {
    providers: Vec<(String, ProviderConfig)>,
    current_provider: String,
}

impl View for SecondBrainConfig {
    type V = ConfigView;

    closed spec fn view(&self) -> ConfigView {
        ConfigView {
            providers: entries_map(self.providers@),
            current_provider: self.current_provider@,
        }
    }
}

impl Default for SecondBrainConfig {
    fn default() -> (r: Self)
        ensures
            r@ == ConfigView::empty(),
    {
        let r = SecondBrainConfig { providers: Vec::new(), current_provider: String::new() };
        assert(r@.providers =~= Map::empty());
        r
    }
}

impl PartialEq for SecondBrainConfig {
    /// Two configurations are equal where they select the same name and
    /// hold the same providers with the same settings, in whatever order
    /// these were added.
    fn eq(&self, other: &SecondBrainConfig) -> (r: bool) {
        proof {
            use_type_invariant(self);
            use_type_invariant(other);
        }
        let same = self.current_provider == other.current_provider && covered(
            &self.providers,
            &other.providers,
        ) && covered(&other.providers, &self.providers);
        proof {
            if same {
                assert(entries_map(self.providers@) =~= entries_map(other.providers@));
            }
        }
        same
    }
}

impl vstd::std_specs::cmp::PartialEqSpecImpl for SecondBrainConfig {
    open spec fn obeys_eq_spec() -> bool {
        true
    }

    open spec fn eq_spec(&self, other: &SecondBrainConfig) -> bool {
        self@ == other@
    }
}

impl SecondBrainConfig {
    #[verifier::type_invariant]
    spec fn distinct(&self) -> bool {
        names_distinct(self.providers@)
    }

    /// Puts `provider` at `name`. An entry that stood there is replaced as a
    /// whole: the last write wins, nothing is merged.
    pub fn insert_provider(&mut self, name: String, provider: ProviderConfig)
        ensures
            final(self)@ == old(self)@.with_provider(name@, provider@),
    {
        proof {
            use_type_invariant(&*self);
        }
        let mut entries: Vec<(String, ProviderConfig)> = Vec::new();
        std::mem::swap(&mut self.providers, &mut entries);
        put_entry(&mut entries, name, provider);
        std::mem::swap(&mut self.providers, &mut entries);
    }

    /// Adds a provider with a description and a key, in place of any provider
    /// of that name.
    pub fn add_provider(&mut self, name: String, description: String, api_key: String)
        ensures
            final(self)@ == old(self)@.with_provider(
                name@,
                ProviderView { description: Some(description@), api_key: Some(api_key@) },
            ),
    {
        self.insert_provider(
            name,
            ProviderConfig { description: Some(description), api_key: Some(api_key) },
        );
    }

    /// Removes the provider named `name` and hands back its settings. Where
    /// there is none, nothing changes and `None` is returned.
    pub fn remove_provider(&mut self, name: &str) -> (r: Option<ProviderConfig>)
        ensures
            final(self)@ == old(self)@.without_provider(name@),
            match r {
                Some(provider) => old(self)@.providers.contains_key(name@) && provider@ == old(
                    self,
                )@.providers[name@],
                None => !old(self)@.providers.contains_key(name@) && final(self)@ == old(self)@,
            },
    {
        proof {
            use_type_invariant(&*self);
        }
        let key = name.to_owned();
        let mut entries: Vec<(String, ProviderConfig)> = Vec::new();
        std::mem::swap(&mut self.providers, &mut entries);
        let ghost before = entries@;
        let removed = drop_entry(&mut entries, &key);
        std::mem::swap(&mut self.providers, &mut entries);
        proof {
            if removed is None {
                assert(entries_map(before).remove(name@) =~= entries_map(before));
            }
        }
        removed
    }

    /// Selects the provider named `name`. Whether such a provider exists is
    /// not asked.
    pub fn set_current_provider(&mut self, name: String)
        ensures
            final(self)@ == old(self)@.with_current(name@),
    {
        proof {
            use_type_invariant(&*self);
        }
        self.current_provider = name;
    }

    /// The name of the selected provider.
    pub fn current_provider(&self) -> (r: &str)
        ensures
            r@ == self@.current_provider,
    {
        self.current_provider.as_str()
    }

    /// The settings of the provider named `name`, if there is one.
    pub fn provider(&self, name: &str) -> (r: Option<&ProviderConfig>)
        ensures
            match r {
                Some(provider) => self@.providers.contains_key(name@) && provider@
                    == self@.providers[name@],
                None => !self@.providers.contains_key(name@),
            },
    {
        proof {
            use_type_invariant(self);
        }
        let key = name.to_owned();
        match find_entry(&self.providers, &key) {
            Some(i) => {
                proof {
                    lemma_entry_in_map(self.providers@, i as int);
                }
                Some(&self.providers[i].1)
            },
            None => {
                proof {
                    lemma_absent_from_map(self.providers@, key@);
                }
                None
            },
        }
    }

    /// The number of providers.
    pub fn provider_count(&self) -> (r: usize)
        ensures
            self@.providers.dom().finite(),
            r == self@.providers.len(),
    {
        proof {
            use_type_invariant(self);
            lemma_entries_map_len(self.providers@);
        }
        self.providers.len()
    }

    /// The names of the providers, each once. Nothing is promised of their
    /// order.
    pub fn provider_names(&self) -> (r: Vec<String>)
        ensures
            r@.len() == self@.providers.len(),
            forall|i: int, j: int|
                0 <= i < j < r@.len() ==> (#[trigger] r@[i])@ != (#[trigger] r@[j])@,
            forall|i: int| 0 <= i < r@.len() ==> self@.providers.contains_key((#[trigger] r@[i])@),
            forall|name: Seq<char>| #[trigger]
                self@.providers.contains_key(name) ==> exists|i: int|
                    0 <= i < r@.len() && (#[trigger] r@[i])@ == name,
    {
        proof {
            use_type_invariant(self);
            lemma_entries_map_len(self.providers@);
        }
        let mut names: Vec<String> = Vec::new();
        let mut i: usize = 0;
        while i < self.providers.len()
            invariant
                i <= self.providers@.len(),
                names@.len() == i,
                forall|j: int| 0 <= j < i ==> (#[trigger] names@[j])@ == self.providers@[j].0@,
            decreases self.providers@.len() - i,
        {
            names.push(self.providers[i].0.clone());
            i += 1;
        }
        proof {
            let entries = self.providers@;
            assert forall|a: int, b: int| 0 <= a < b < names@.len() implies (#[trigger] names@[a])@
                != (#[trigger] names@[b])@ by {
                assert(entries[a].0@ != entries[b].0@);
            }
            assert forall|a: int| 0 <= a < names@.len() implies self@.providers.contains_key(
                (#[trigger] names@[a])@,
            ) by {
                lemma_entry_in_map(entries, a);
            }
            assert forall|name: Seq<char>| #[trigger]
                self@.providers.contains_key(name) implies exists|a: int|
                0 <= a < names@.len() && (#[trigger] names@[a])@ == name by {
                let p = position_of(entries, name);
                assert(names@[p]@ == name);
            }
        }
        names
    }
}

} // verus!
