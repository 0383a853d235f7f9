//! The credential table: every named credential that the gateway serves.

use crate::source::{config_section_list, config_sections, fields_map};
use crate::text::text_view;
use config::Config;
use vstd::prelude::*;
use vstd::string::StringExecFns;

verus! {

/// One API credential: the public key and the secret that signs requests.
/// The secret never appears in a message or an error of this library.
pub struct Key {
    pub api_key: String,
    pub secret: String,
}

pub struct KeyView {
    pub api_key: Seq<char>,
    pub secret: Seq<char>,
}

impl View for Key {
    type V = KeyView;

    open spec fn view(&self) -> KeyView {
        KeyView { api_key: self.api_key@, secret: self.secret@ }
    }
}

impl Clone for Key {
    fn clone(&self) -> (res: Self)
        ensures
            res@ == self@,
    {
        Key { api_key: self.api_key.clone(), secret: self.secret.clone() }
    }
}

/// A credential under the name by which requests select it.
pub struct Credential {
    pub name: String,
    pub key: Key,
}

/// Whether no two of `entries` share a name.
pub open spec fn distinct_names(entries: Seq<Credential>) -> bool {
    forall|i: int, j: int|
        0 <= i < j < entries.len() ==> (#[trigger] entries[i]).name@ != (#[trigger] entries[j]).name@
}

/// Whether one of `entries` goes by `name`.
pub open spec fn names(entries: Seq<Credential>, name: Seq<char>) -> bool {
    exists|i: int| 0 <= i < entries.len() && (#[trigger] entries[i]).name@ == name
}

/// The mapping that `entries` stand for; of two entries with one name the
/// later counts.
pub open spec fn credentials_map(entries: Seq<Credential>) -> Map<Seq<char>, KeyView>
    decreases entries.len(),
{
    if entries.len() == 0 {
        Map::empty()
    } else {
        credentials_map(entries.drop_last()).insert(entries.last().name@, entries.last().key@)
    }
}

/// The names that a sequence of credentials maps are those of its entries.
pub proof fn lemma_credentials_map_names(entries: Seq<Credential>, name: Seq<char>)
    ensures
        credentials_map(entries).contains_key(name) <==> names(entries, name),
    decreases entries.len(),
{
    if entries.len() > 0 {
        let front = entries.drop_last();
        lemma_credentials_map_names(front, name);
        if names(front, name) {
            let i = choose|i: int| 0 <= i < front.len() && (#[trigger] front[i]).name@ == name;
            assert(entries[i].name@ == name);
        }
        if entries.last().name@ == name {
            assert(entries[entries.len() - 1].name@ == name);
        }
        if names(entries, name) {
            let i = choose|i: int| 0 <= i < entries.len() && (#[trigger] entries[i]).name@ == name;
            if i < front.len() {
                assert(front[i].name@ == name);
            }
        }
    }
}

/// Where names are distinct, each entry's name maps to that entry's key.
pub proof fn lemma_credentials_map_entry(entries: Seq<Credential>, i: int)
    requires
        distinct_names(entries),
        0 <= i < entries.len(),
    ensures
        credentials_map(entries).contains_key(entries[i].name@),
        credentials_map(entries)[entries[i].name@] == entries[i].key@,
    decreases entries.len(),
{
    let front = entries.drop_last();
    if i < entries.len() - 1 {
        assert(distinct_names(front)) by {
            assert forall|a: int, b: int| 0 <= a < b < front.len() implies (#[trigger] front[a]).name@
                != (#[trigger] front[b]).name@ by {
                assert(entries[a].name@ != entries[b].name@);
            }
        }
        lemma_credentials_map_entry(front, i);
        assert(front[i] == entries[i]);
        assert(entries[i].name@ != entries[entries.len() - 1].name@);
    }
}

/// Where names are distinct, the mapping has as many names as there are
/// entries.
pub proof fn lemma_credentials_map_len(entries: Seq<Credential>)
    requires
        distinct_names(entries),
    ensures
        credentials_map(entries).dom().finite(),
        credentials_map(entries).dom().len() == entries.len(),
    decreases entries.len(),
{
    if entries.len() > 0 {
        let front = entries.drop_last();
        assert(distinct_names(front)) by {
            assert forall|a: int, b: int| 0 <= a < b < front.len() implies (#[trigger] front[a]).name@
                != (#[trigger] front[b]).name@ by {
                assert(entries[a].name@ != entries[b].name@);
            }
        }
        lemma_credentials_map_len(front);
        let last = entries.last().name@;
        lemma_credentials_map_names(front, last);
        if names(front, last) {
            let i = choose|i: int| 0 <= i < front.len() && (#[trigger] front[i]).name@ == last;
            assert(entries[i].name@ != entries[entries.len() - 1].name@);
        }
        assert(credentials_map(entries).dom() =~= credentials_map(front).dom().insert(last));
    }
}

/// `entries` with `added` put in: in the place of the entry of the same
/// name where there is one, else at the end.
pub open spec fn put(entries: Seq<Credential>, added: Credential) -> Seq<Credential> {
    if names(entries, added.name@) {
        Seq::new(
            entries.len(),
            |i: int|
                if entries[i].name@ == added.name@ {
                    added
                } else {
                    entries[i]
                },
        )
    } else {
        entries.push(added)
    }
}

/// The position of the entry that goes by `name`.
fn position(entries: &Vec<Credential>, name: &String) -> (res: Option<usize>)
    ensures
        match res {
            Some(i) => i < entries@.len() && entries@[i as int].name@ == name@,
            None => !names(entries@, name@),
        },
{
    let mut i: usize = 0;
    while i < entries.len()
        invariant
            i <= entries.len(),
            forall|j: int| 0 <= j < i ==> (#[trigger] entries@[j]).name@ != name@,
        decreases entries.len() - i,
    {
        if entries[i].name == *name {
            return Some(i);
        }
        i += 1;
    }
    None
}

/// Replacing the key of one entry changes the mapping at that entry's name
/// and nowhere else.
proof fn lemma_replace(before: Seq<Credential>, i: int, added: Credential)
    requires
        distinct_names(before),
        0 <= i < before.len(),
        before[i].name@ == added.name@,
    ensures
        distinct_names(before.update(i, added)),
        credentials_map(before.update(i, added)) == credentials_map(before).insert(
            added.name@,
            added.key@,
        ),
{
    let after = before.update(i, added);
    assert(distinct_names(after)) by {
        assert forall|a: int, b: int| 0 <= a < b < after.len() implies (#[trigger] after[a]).name@
            != (#[trigger] after[b]).name@ by {
            assert(before[a].name@ != before[b].name@);
        }
    }
    let target = credentials_map(before).insert(added.name@, added.key@);
    assert forall|n: Seq<char>| credentials_map(after).contains_key(n) <==> #[trigger] target.contains_key(n) by {
        lemma_credentials_map_names(after, n);
        lemma_credentials_map_names(before, n);
        if names(after, n) {
            let j = choose|j: int| 0 <= j < after.len() && (#[trigger] after[j]).name@ == n;
            assert(before[j].name@ == n);
        }
        if names(before, n) {
            let j = choose|j: int| 0 <= j < before.len() && (#[trigger] before[j]).name@ == n;
            assert(after[j].name@ == n);
        }
        if n == added.name@ {
            assert(after[i].name@ == n);
        }
    }
    assert forall|n: Seq<char>| #[trigger] credentials_map(after).contains_key(n) implies credentials_map(after)[n] == target[n] by {
        lemma_credentials_map_names(after, n);
        let j = choose|j: int| 0 <= j < after.len() && (#[trigger] after[j]).name@ == n;
        lemma_credentials_map_entry(after, j);
        lemma_credentials_map_entry(before, j);
        if j != i {
            assert(before[j].name@ != before[i].name@);
        }
    }
    assert(credentials_map(after) =~= target);
}

/// The credential table: a mapping from names to credentials, kept as a
/// list so that startup can walk it, with the entries in the order in which
/// their names first came.
pub struct KeyTable {
    entries: Vec<Credential>,
}

impl KeyTable {
    #[verifier::type_invariant]
    spec fn well_formed(self) -> bool {
        distinct_names(self.entries@)
    }

    /// The entries, in order.
    pub closed spec fn entries(&self) -> Seq<Credential> {
        self.entries@
    }

    /// The mapping from names to credentials.
    pub open spec fn view(&self) -> Map<Seq<char>, KeyView> {
        credentials_map(self.entries())
    }

    /// A table without credentials.
    pub fn new() -> (res: Self)
        ensures
            res.entries() == Seq::<Credential>::empty(),
            res@ == Map::<Seq<char>, KeyView>::empty(),
    {
        KeyTable { entries: Vec::new() }
    }

    /// The number of credentials.
    pub fn len(&self) -> (res: usize)
        ensures
            res == self.entries().len(),
            self@.dom().finite(),
            res == self@.dom().len(),
            distinct_names(self.entries()),
    {
        proof {
            use_type_invariant(self);
            lemma_credentials_map_len(self.entries@);
        }
        self.entries.len()
    }

    /// Whether the table holds no credential.
    pub fn is_empty(&self) -> (res: bool)
        ensures
            res == (self.entries().len() == 0),
            res == (self@ == Map::<Seq<char>, KeyView>::empty()),
    {
        proof {
            if self.entries@.len() > 0 {
                lemma_credentials_map_names(self.entries@, self.entries@[0].name@);
                assert(self@.contains_key(self.entries@[0].name@));
            }
        }
        self.entries.len() == 0
    }

    /// The entry at position `i`.
    pub fn entry(&self, i: usize) -> (res: &Credential)
        requires
            i < self.entries().len(),
        ensures
            *res == self.entries()[i as int],
            self@.contains_key(res.name@),
            self@[res.name@] == res.key@,
    {
        proof {
            use_type_invariant(self);
            lemma_credentials_map_entry(self.entries@, i as int);
        }
        &self.entries[i]
    }

    /// The credential that goes by `name`, if there is one.
    pub fn get(&self, name: &str) -> (res: Option<&Key>)
        ensures
            match res {
                Some(key) => self@.contains_key(name@) && self@[name@] == key@,
                None => !self@.contains_key(name@),
            },
    {
        let wanted = name.to_owned();
        proof {
            use_type_invariant(self);
            lemma_credentials_map_names(self.entries@, name@);
        }
        match position(&self.entries, &wanted) {
            Some(i) => {
                proof {
                    lemma_credentials_map_entry(self.entries@, i as int);
                }
                Some(&self.entries[i].key)
            },
            None => None,
        }
    }

    /// Puts `key` under `name`; a credential that went by `name` before is
    /// replaced and keeps its place.
    pub fn insert(&mut self, name: String, key: Key)
        ensures
            final(self)@ == old(self)@.insert(name@, key@),
            final(self).entries() == put(old(self).entries(), Credential { name, key }),
    {
        proof {
            use_type_invariant(&*self);
        }
        let mut taken = KeyTable::new();
        std::mem::swap(self, &mut taken);
        let mut entries = taken.entries;
        let ghost before = entries@;
        let ghost added = Credential { name, key };
        let found = position(&entries, &name);
        match found {
            Some(i) => {
                entries.set(i, Credential { name, key });
                proof {
                    lemma_replace(before, i as int, added);
                    assert(before[i as int].name@ == added.name@);
                    assert forall|j: int| 0 <= j < before.len() && j != i implies (
                    #[trigger] before[j]).name@ != added.name@ by {
                        if j < i {
                            assert(before[j].name@ != before[i as int].name@);
                        } else {
                            assert(before[i as int].name@ != before[j].name@);
                        }
                    }
                    assert(entries@ =~= put(before, added));
                }
            },
            None => {
                entries.push(Credential { name, key });
                proof {
                    let after = entries@;
                    assert(after.drop_last() =~= before);
                    assert(after == put(before, added));
                    assert(distinct_names(after)) by {
                        assert forall|a: int, b: int| 0 <= a < b < after.len() implies (
                        #[trigger] after[a]).name@ != (#[trigger] after[b]).name@ by {
                            if b < before.len() {
                                assert(before[a].name@ != before[b].name@);
                            } else {
                                assert(before[a].name@ != added.name@);
                            }
                        }
                    }
                }
            },
        }
        *self = KeyTable { entries };
    }
}

/// What a section of the key settings lacks to be a credential.
#[derive(Debug, Clone, Copy, PartialEq, Eq)]
pub enum KeyProblem {
    /// Neither `apiKey` nor `api_key` is set.
    ApiKeyMissing,
    /// Both `apiKey` and `api_key` are set.
    ApiKeyTwice,
    /// The public key is set, but is a table, a list or nil.
    ApiKeyNotText,
    /// `secret` is not set.
    SecretMissing,
    /// `secret` is set, but is a table, a list or nil.
    SecretNotText,
}

impl KeyProblem {
    /// The problem in words.
    pub open spec fn text(self) -> Seq<char> {
        match self {
            KeyProblem::ApiKeyMissing => "missing field `apiKey`"@,
            KeyProblem::ApiKeyTwice => "duplicate field `apiKey`"@,
            KeyProblem::ApiKeyNotText => "invalid type for field `apiKey`"@,
            KeyProblem::SecretMissing => "missing field `secret`"@,
            KeyProblem::SecretNotText => "invalid type for field `secret`"@,
        }
    }

    /// The problem in words.
    pub fn describe(&self) -> (res: &'static str)
        ensures
            res@ == self.text(),
    {
        match self {
            KeyProblem::ApiKeyMissing => "missing field `apiKey`",
            KeyProblem::ApiKeyTwice => "duplicate field `apiKey`",
            KeyProblem::ApiKeyNotText => "invalid type for field `apiKey`",
            KeyProblem::SecretMissing => "missing field `secret`",
            KeyProblem::SecretNotText => "invalid type for field `secret`",
        }
    }
}

/// Why the credential table could not be loaded.
#[derive(Debug, PartialEq, Eq)]
pub enum KeysError {
    /// The settings are not sections of values.
    Shape,
    /// The section of this name is no credential.
    Credential { name: String, problem: KeyProblem },
}

impl KeysError {
    /// What to tell the operator: for a section that is no credential, the
    /// problem, ` for key `, and the section's name. It holds no value of
    /// the section.
    pub fn message(&self) -> (res: String)
        ensures
            self is Shape ==> res@ == "keys are not sections of values"@,
            self matches KeysError::Credential { name, problem } ==> res@ == problem.text()
                + " for key "@ + name@,
    {
        match self {
            KeysError::Shape => String::from_str("keys are not sections of values"),
            KeysError::Credential { name, problem } => {
                let mut text = String::from_str(problem.describe());
                text.append(" for key ");
                text.append(name.as_str());
                text
            },
        }
    }
}

/// The credential that the values of one section make: the public key under
/// `apiKey` or under `api_key`, the secret under `secret`, both as text.
/// Other values do not count.
pub open spec fn key_of(fields: Map<Seq<char>, Option<Seq<char>>>) -> Result<KeyView, KeyProblem> {
    if fields.contains_key("apiKey"@) && fields.contains_key("api_key"@) {
        Err(KeyProblem::ApiKeyTwice)
    } else if !fields.contains_key("apiKey"@) && !fields.contains_key("api_key"@) {
        Err(KeyProblem::ApiKeyMissing)
    } else {
        let found = if fields.contains_key("apiKey"@) {
            fields["apiKey"@]
        } else {
            fields["api_key"@]
        };
        match found {
            None => Err(KeyProblem::ApiKeyNotText),
            Some(api_key) => if !fields.contains_key("secret"@) {
                Err(KeyProblem::SecretMissing)
            } else {
                match fields["secret"@] {
                    None => Err(KeyProblem::SecretNotText),
                    Some(secret) => Ok(KeyView { api_key, secret }),
                }
            },
        }
    }
}

/// The table that `sections` make, taken in order: the first section that
/// is no credential is the error, with its name; else every section is a
/// credential under its name, the later of two with one name.
pub open spec fn keys_from(sections: Seq<(String, Vec<(String, Option<String>)>)>) -> Result<
    Map<Seq<char>, KeyView>,
    (Seq<char>, KeyProblem),
>
    decreases sections.len(),
{
    if sections.len() == 0 {
        Ok(Map::empty())
    } else {
        match keys_from(sections.drop_last()) {
            Err(e) => Err(e),
            Ok(keys) => match key_of(fields_map(sections.last().1@)) {
                Ok(key) => Ok(keys.insert(sections.last().0@, key)),
                Err(problem) => Err((sections.last().0@, problem)),
            },
        }
    }
}

/// Once a run of sections has failed, every longer run has, in the same
/// way.
pub proof fn lemma_keys_failure_stays(sections: Seq<(String, Vec<(String, Option<String>)>)>, k: int)
    requires
        0 <= k <= sections.len(),
        keys_from(sections.take(k)) is Err,
    ensures
        keys_from(sections) == keys_from(sections.take(k)),
    decreases sections.len() - k,
{
    if k < sections.len() {
        assert(sections.take(k + 1).drop_last() =~= sections.take(k));
        lemma_keys_failure_stays(sections, k + 1);
    } else {
        assert(sections.take(k) =~= sections);
    }
}

/// A failure names a section that is no credential, and says why.
pub proof fn lemma_keys_failure(sections: Seq<(String, Vec<(String, Option<String>)>)>)
    requires
        keys_from(sections) is Err,
    ensures
        exists|i: int|
            0 <= i < sections.len() && (#[trigger] sections[i]).0@ == keys_from(sections)->Err_0.0
                && key_of(fields_map(sections[i].1@)) == Err::<KeyView, _>(
                keys_from(sections)->Err_0.1,
            ),
    decreases sections.len(),
{
    let front = sections.drop_last();
    if keys_from(front) is Err {
        lemma_keys_failure(front);
        let i = choose|i: int|
            0 <= i < front.len() && (#[trigger] front[i]).0@ == keys_from(front)->Err_0.0 && key_of(
                fields_map(front[i].1@),
            ) == Err::<KeyView, _>(keys_from(front)->Err_0.1);
        assert(sections[i] == front[i]);
    } else {
        let i = sections.len() - 1;
        assert(sections[i].0@ == keys_from(sections)->Err_0.0);
    }
}

/// Where sections make a table, each of them is a credential; the table
/// has their names and no others, and, where no name comes twice, under
/// each name the credential of that section.
pub proof fn lemma_keys_success(sections: Seq<(String, Vec<(String, Option<String>)>)>, i: int)
    requires
        keys_from(sections) is Ok,
        0 <= i < sections.len(),
    ensures
        key_of(fields_map(sections[i].1@)) is Ok,
        keys_from(sections)->Ok_0.contains_key(sections[i].0@),
        (forall|j: int| i < j < sections.len() ==> (#[trigger] sections[j]).0@ != sections[i].0@)
            ==> keys_from(sections)->Ok_0[sections[i].0@] == key_of(
            fields_map(sections[i].1@),
        )->Ok_0,
    decreases sections.len(),
{
    let front = sections.drop_last();
    if i < sections.len() - 1 {
        lemma_keys_success(front, i);
        assert(front[i] == sections[i]);
        if forall|j: int| i < j < sections.len() ==> (#[trigger] sections[j]).0@ != sections[i].0@ {
            assert forall|j: int| i < j < front.len() implies (#[trigger] front[j]).0@
                != front[i].0@ by {
                assert(sections[j].0@ != sections[i].0@);
            }
            assert(sections[sections.len() - 1].0@ != sections[i].0@);
        }
    }
}

/// Where sections make a table, every name of the table is that of a
/// section.
pub proof fn lemma_keys_names(sections: Seq<(String, Vec<(String, Option<String>)>)>, name: Seq<char>)
    requires
        keys_from(sections) is Ok,
        keys_from(sections)->Ok_0.contains_key(name),
    ensures
        exists|i: int| 0 <= i < sections.len() && (#[trigger] sections[i]).0@ == name,
    decreases sections.len(),
{
    if sections.len() > 0 {
        let front = sections.drop_last();
        if sections.last().0@ == name {
            assert(sections[sections.len() - 1].0@ == name);
        } else {
            lemma_keys_names(front, name);
            let i = choose|i: int| 0 <= i < front.len() && (#[trigger] front[i]).0@ == name;
            assert(sections[i] == front[i]);
        }
    }
}

/// Where `name` is set last at position `i` of `fields`, the mapping has it
/// with the text set there.
proof fn lemma_field_found(fields: Seq<(String, Option<String>)>, i: int, name: Seq<char>)
    requires
        0 <= i < fields.len(),
        fields[i].0@ == name,
        forall|j: int| i < j < fields.len() ==> (#[trigger] fields[j]).0@ != name,
    ensures
        fields_map(fields).contains_key(name),
        fields_map(fields)[name] == text_view(fields[i].1),
    decreases fields.len(),
{
    if i < fields.len() - 1 {
        let front = fields.drop_last();
        assert(fields[fields.len() - 1].0@ != name);
        assert(front[i] == fields[i]);
        assert forall|j: int| i < j < front.len() implies (#[trigger] front[j]).0@ != name by {
            assert(fields[j].0@ != name);
        }
        lemma_field_found(front, i, name);
    }
}

/// Where `name` is set nowhere in `fields`, the mapping does not have it.
proof fn lemma_field_absent(fields: Seq<(String, Option<String>)>, name: Seq<char>)
    requires
        forall|j: int| 0 <= j < fields.len() ==> (#[trigger] fields[j]).0@ != name,
    ensures
        !fields_map(fields).contains_key(name),
    decreases fields.len(),
{
    if fields.len() > 0 {
        let front = fields.drop_last();
        assert(fields[fields.len() - 1].0@ != name);
        assert forall|j: int| 0 <= j < front.len() implies (#[trigger] front[j]).0@ != name by {
            assert(fields[j].0@ != name);
        }
        lemma_field_absent(front, name);
    }
}

/// The value set under `name`, if any; where it is set more than once, the
/// last.
fn field<'a>(fields: &'a Vec<(String, Option<String>)>, name: &str) -> (res: Option<
    &'a Option<String>,
>)
    ensures
        match res {
            Some(value) => fields_map(fields@).contains_key(name@) && fields_map(fields@)[name@]
                == text_view(*value),
            None => !fields_map(fields@).contains_key(name@),
        },
{
    let wanted = name.to_owned();
    let mut i: usize = fields.len();
    while i > 0
        invariant
            i <= fields.len(),
            wanted@ == name@,
            forall|j: int| i <= j < fields.len() ==> (#[trigger] fields@[j]).0@ != name@,
        decreases i,
    {
        i -= 1;
        if fields[i].0 == wanted {
            proof {
                lemma_field_found(fields@, i as int, name@);
            }
            return Some(&fields[i].1);
        }
    }
    proof {
        lemma_field_absent(fields@, name@);
    }
    None
}

impl Key {
    /// The credential that the values of one section make.
    pub fn from_fields(fields: &Vec<(String, Option<String>)>) -> (res: Result<Key, KeyProblem>)
        ensures
            match res {
                Ok(key) => key_of(fields_map(fields@)) == Ok::<_, KeyProblem>(key@),
                Err(problem) => key_of(fields_map(fields@)) == Err::<KeyView, _>(problem),
            },
    {
        let found = match (field(fields, "apiKey"), field(fields, "api_key")) {
            (Some(_), Some(_)) => {
                return Err(KeyProblem::ApiKeyTwice);
            },
            (None, None) => {
                return Err(KeyProblem::ApiKeyMissing);
            },
            (Some(value), None) => value,
            (None, Some(value)) => value,
        };
        let api_key = match found {
            Some(text) => text.clone(),
            None => {
                return Err(KeyProblem::ApiKeyNotText);
            },
        };
        match field(fields, "secret") {
            None => Err(KeyProblem::SecretMissing),
            Some(None) => Err(KeyProblem::SecretNotText),
            Some(Some(secret)) => Ok(Key { api_key, secret: secret.clone() }),
        }
    }
}

impl KeyTable {
    /// The table that `sections` make, taken in order.
    pub fn from_sections(sections: Vec<(String, Vec<(String, Option<String>)>)>) -> (res: Result<
        KeyTable,
        KeysError,
    >)
        ensures
            match res {
                Ok(table) => keys_from(sections@) == Ok::<_, (Seq<char>, KeyProblem)>(table@),
                Err(KeysError::Credential { name, problem }) => keys_from(sections@) == Err::<
                    Map<Seq<char>, KeyView>,
                    _,
                >((name@, problem)),
                Err(KeysError::Shape) => false,
            },
    {
        let mut table = KeyTable::new();
        let mut i: usize = 0;
        while i < sections.len()
            invariant
                i <= sections.len(),
                keys_from(sections@.take(i as int)) == Ok::<_, (Seq<char>, KeyProblem)>(table@),
            decreases sections.len() - i,
        {
            proof {
                assert(sections@.take(i + 1).drop_last() =~= sections@.take(i as int));
            }
            match Key::from_fields(&sections[i].1) {
                Ok(key) => {
                    table.insert(sections[i].0.clone(), key);
                },
                Err(problem) => {
                    proof {
                        lemma_keys_failure_stays(sections@, i + 1);
                    }
                    return Err(KeysError::Credential { name: sections[i].0.clone(), problem });
                },
            }
            i += 1;
        }
        proof {
            assert(sections@.take(sections@.len() as int) =~= sections@);
        }
        Ok(table)
    }
}

/// Loads the credential table from `settings`, in which it was read: every
/// section is one credential under the section's name, with the public key
/// as `apiKey` or `api_key` and the secret as `secret`. The table is loaded
/// as a whole or not at all.
pub fn load_keys(settings: Config) -> (res: Result<KeyTable, KeysError>)
    ensures
        match config_sections(settings) {
            None => res matches Err(KeysError::Shape),
            Some(all) => match res {
                Ok(table) => {
                    &&& table@.dom() =~= all.dom()
                    &&& forall|name: Seq<char>| #[trigger]
                        all.contains_key(name) ==> key_of(all[name]) == Ok::<_, KeyProblem>(
                            table@[name],
                        )
                },
                Err(KeysError::Credential { name, problem }) => {
                    &&& all.contains_key(name@)
                    &&& key_of(all[name@]) == Err::<KeyView, _>(problem)
                },
                Err(KeysError::Shape) => false,
            },
        },
{
    match config_section_list(settings) {
        None => Err(KeysError::Shape),
        Some(sections) => {
            let ghost all = config_sections(settings)->Some_0;
            let ghost listed = sections@;
            let res = KeyTable::from_sections(sections);
            proof {
                if keys_from(listed) is Err {
                    lemma_keys_failure(listed);
                } else {
                    let table = keys_from(listed)->Ok_0;
                    assert forall|name: Seq<char>| #[trigger] all.contains_key(name) implies key_of(
                        all[name],
                    ) == Ok::<_, KeyProblem>(table[name]) && table.contains_key(name) by {
                        let i = choose|i: int|
                            0 <= i < listed.len() && (#[trigger] listed[i]).0@ == name;
                        lemma_keys_success(listed, i);
                    }
                    assert forall|name: Seq<char>| table.contains_key(name) implies all.contains_key(
                        name,
                    ) by {
                        lemma_keys_names(listed, name);
                    }
                }
            }
            res
        },
    }
}

} // verus!
