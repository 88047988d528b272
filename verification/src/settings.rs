//! What the terminal keeps in its configuration directory `~/.txio`: the
//! chain and network last switched to, the login token, `key = value`
//! settings, and the trusted `.env` file. The library decides what is
//! written and how what was read is understood; the caller does the file work.
use vstd::prelude::*;
use crate::json::{Json, spec_member, str_eq};
use crate::network::{Network, spec_resolve_network};
use crate::text::{is_whitespace, spec_trim, trim};

verus! {

/// The directory, under the home directory, that holds the files below.
pub fn config_dir_name() -> (r: &'static str)
    ensures
        r@ == ".txio"@,
{
    ".txio"
}

/// A file in the configuration directory.
#[derive(Clone, Copy, Debug, PartialEq, Eq, Structural)]
pub enum ConfigFile {
    CurrentChain,
    CurrentNetwork,
    Token,
    Settings,
    TrustedEnv,
}

impl ConfigFile {
    pub open spec fn spec_file_name(self) -> Seq<char> {
        match self {
            ConfigFile::CurrentChain => "current_chain"@,
            ConfigFile::CurrentNetwork => "current_network"@,
            ConfigFile::Token => "token"@,
            ConfigFile::Settings => "config.json"@,
            ConfigFile::TrustedEnv => ".env"@,
        }
    }

    pub fn file_name(&self) -> (r: &'static str)
        ensures
            r@ == self.spec_file_name(),
    {
        match self {
            ConfigFile::CurrentChain => "current_chain",
            ConfigFile::CurrentNetwork => "current_network",
            ConfigFile::Token => "token",
            ConfigFile::Settings => "config.json",
            ConfigFile::TrustedEnv => ".env",
        }
    }
}

/// A file to write: which one, its whole new contents, and whether it must
/// be readable and writable by its owner only (mode 0600), also when it
/// existed before with looser permissions.
#[derive(Debug)]
pub struct FileWrite {
    pub file: ConfigFile,
    pub contents: String,
    pub owner_only: bool,
}

/// Persists the default chain: `current_chain` holds the name as given.
pub fn save_current_chain(chain: &str) -> (r: FileWrite)
    ensures
        r.file == ConfigFile::CurrentChain,
        r.contents@ == chain@,
        !r.owner_only,
{
    FileWrite { file: ConfigFile::CurrentChain, contents: String::from_str(chain), owner_only: false }
}

/// The write that persists a network name in `current_network`.
pub fn write_network_file(network: &str) -> (r: FileWrite)
    ensures
        r.file == ConfigFile::CurrentNetwork,
        r.contents@ == network@,
        !r.owner_only,
{
    FileWrite {
        file: ConfigFile::CurrentNetwork,
        contents: String::from_str(network),
        owner_only: false,
    }
}

/// Persists the default network.
pub fn save_current_network(network: &str) -> (r: FileWrite)
    ensures
        r.file == ConfigFile::CurrentNetwork,
        r.contents@ == network@,
        !r.owner_only,
{
    write_network_file(network)
}

/// Another name for `save_current_network`.
pub fn save_network(network: &str) -> (r: FileWrite)
    ensures
        r.file == ConfigFile::CurrentNetwork,
        r.contents@ == network@,
        !r.owner_only,
{
    save_current_network(network)
}

/// Persists the login token, readable by its owner only.
pub fn save_token(token: &str) -> (r: FileWrite)
    ensures
        r.file == ConfigFile::Token,
        r.contents@ == token@,
        r.owner_only,
{
    FileWrite { file: ConfigFile::Token, contents: String::from_str(token), owner_only: true }
}

pub open spec fn spec_read_trimmed(contents: Option<Seq<char>>) -> Option<Seq<char>> {
    match contents {
        Some(c) => Some(spec_trim(c)),
        None => None,
    }
}

fn read_trimmed(contents: Option<String>) -> (r: Option<String>)
    ensures
        r matches Some(s) ==> spec_read_trimmed(crate::chains::opt_view(contents)) == Some(s@),
        r is None ==> contents is None,
{
    match contents {
        Some(c) => Some(trim(c.as_str())),
        None => None,
    }
}

/// What `current_network` says, given its contents (`None` when the file
/// is missing or unreadable): the contents without surrounding whitespace.
pub fn read_network_file(contents: Option<String>) -> (r: Option<String>)
    ensures
        r matches Some(s) ==> spec_read_trimmed(crate::chains::opt_view(contents)) == Some(s@),
        r is None ==> contents is None,
{
    read_trimmed(contents)
}

/// The persisted default network, read like `read_network_file`.
pub fn get_current_network(contents: Option<String>) -> (r: Option<String>)
    ensures
        r matches Some(s) ==> spec_read_trimmed(crate::chains::opt_view(contents)) == Some(s@),
        r is None ==> contents is None,
{
    read_network_file(contents)
}

/// The persisted default chain, given the contents of `current_chain`.
pub fn get_current_chain(contents: Option<String>) -> (r: Option<String>)
    ensures
        r matches Some(s) ==> spec_read_trimmed(crate::chains::opt_view(contents)) == Some(s@),
        r is None ==> contents is None,
{
    read_trimmed(contents)
}

/// The login token, given the contents of `token`.
pub fn get_token(contents: Option<String>) -> (r: Option<String>)
    ensures
        r matches Some(s) ==> spec_read_trimmed(crate::chains::opt_view(contents)) == Some(s@),
        r is None ==> contents is None,
{
    read_trimmed(contents)
}

/// Reading back a persisted network name gives the name without
/// surrounding whitespace, so a name without such whitespace comes back unchanged.
pub proof fn law_network_file_round_trip(network: Seq<char>)
    ensures
        spec_read_trimmed(Some(network)) == Some(spec_trim(network)),
        network.len() == 0 || (!is_whitespace(network[0]) && !is_whitespace(network.last()))
            ==> spec_read_trimmed(Some(network)) == Some(network),
{
    crate::text::lemma_trim_unchanged(network);
}

/// A network saved with `save_current_network` under its own name is the
/// network the next command resolves to when no flag names another.
pub proof fn law_saved_network_is_resolved(n: Network)
    ensures
        spec_resolve_network(None, spec_read_trimmed(Some(n.spec_name()))) == n,
{
    reveal_strlit("mainnet");
    reveal_strlit("testnet");
    reveal_strlit("devnet");
    reveal_strlit("localnet");
    let name = n.spec_name();
    assert(name.len() > 0 && !is_whitespace(name[0]) && !is_whitespace(name.last()));
    law_network_file_round_trip(name);
    crate::network::law_persisted_name_round_trips(n);
}

// ───────────────────────── settings ─────────────────────────

pub open spec fn spec_keys_distinct(members: Seq<(String, Json)>) -> bool {
    forall|i: int, j: int|
        0 <= i < members.len() && 0 <= j < members.len() && i != j ==> #[trigger] members[i].0@
            != #[trigger] members[j].0@
}

/// The `key = value` settings of `config.json`: distinct keys, each with a
/// JSON value, in the order they were read or added.
#[derive(Debug)]
pub struct SettingsMap {
    members: Vec<(String, Json)>,
}

/// The string-valued members of `members`, in order.
pub open spec fn spec_string_entries(members: Seq<(String, Json)>) -> Seq<(Seq<char>, Seq<char>)>
    decreases members.len(),
{
    if members.len() == 0 {
        Seq::empty()
    } else {
        let rest = spec_string_entries(members.drop_last());
        match members.last().1.spec_as_str() {
            Some(v) => rest.push((members.last().0@, v)),
            None => rest,
        }
    }
}

/// Every listed string entry comes from a member with that key and string value.
proof fn lemma_string_entries_sound(m: Seq<(String, Json)>, i: int)
    requires
        0 <= i < spec_string_entries(m).len(),
    ensures
        exists|j: int|
            0 <= j < m.len() && #[trigger] m[j].0@ == spec_string_entries(m)[i].0
                && m[j].1.spec_as_str() == Some(spec_string_entries(m)[i].1),
    decreases m.len(),
{
    let rest = spec_string_entries(m.drop_last());
    if i < rest.len() {
        lemma_string_entries_sound(m.drop_last(), i);
        let j = choose|j: int|
            0 <= j < m.drop_last().len() && #[trigger] m.drop_last()[j].0@ == rest[i].0
                && m.drop_last()[j].1.spec_as_str() == Some(rest[i].1);
        assert(m[j] == m.drop_last()[j]);
        assert(spec_string_entries(m)[i] == rest[i]);
    } else {
        let j = m.len() - 1;
        assert(m[j] == m.last());
        assert(m[j].0@ == spec_string_entries(m)[i].0);
    }
}

/// Every member with a string value is listed.
proof fn lemma_string_entries_complete(m: Seq<(String, Json)>, j: int)
    requires
        0 <= j < m.len(),
        m[j].1.spec_as_str() is Some,
    ensures
        exists|i: int|
            0 <= i < spec_string_entries(m).len() && spec_string_entries(m)[i].0 == m[j].0@,
    decreases m.len(),
{
    let rest = spec_string_entries(m.drop_last());
    if j < m.len() - 1 {
        assert(m.drop_last()[j] == m[j]);
        lemma_string_entries_complete(m.drop_last(), j);
        let i = choose|i: int| 0 <= i < rest.len() && rest[i].0 == m.drop_last()[j].0@;
        assert(spec_string_entries(m)[i] == rest[i]);
    } else {
        assert(spec_string_entries(m)[rest.len() as int].0 == m[j].0@);
    }
}

/// `spec_member` finds the first member with the key.
proof fn lemma_member_at(m: Seq<(String, Json)>, key: Seq<char>, i: int)
    requires
        0 <= i < m.len(),
        m[i].0@ == key,
        forall|j: int| 0 <= j < i ==> #[trigger] m[j].0@ != key,
    ensures
        spec_member(m, key) == Some(m[i].1),
    decreases i,
{
    if i > 0 {
        assert forall|j: int| 0 <= j < i - 1 implies #[trigger] m.drop_first()[j].0@ != key by {
            assert(m.drop_first()[j] == m[j + 1]);
        }
        lemma_member_at(m.drop_first(), key, i - 1);
    }
}

proof fn lemma_member_absent(m: Seq<(String, Json)>, key: Seq<char>)
    requires
        forall|j: int| 0 <= j < m.len() ==> #[trigger] m[j].0@ != key,
    ensures
        spec_member(m, key) is None,
    decreases m.len(),
{
    if m.len() > 0 {
        assert forall|j: int| 0 <= j < m.len() - 1 implies #[trigger] m.drop_first()[j].0@ != key by {
            assert(m.drop_first()[j] == m[j + 1]);
        }
        lemma_member_absent(m.drop_first(), key);
    }
}

/// With distinct keys, the member with the key is the one found.
proof fn lemma_member_distinct(m: Seq<(String, Json)>, key: Seq<char>, i: int)
    requires
        spec_keys_distinct(m),
        0 <= i < m.len(),
        m[i].0@ == key,
    ensures
        spec_member(m, key) == Some(m[i].1),
{
    assert forall|j: int| 0 <= j < i implies #[trigger] m[j].0@ != key by {
        assert(m[j].0@ != m[i].0@);
    }
    lemma_member_at(m, key, i);
}

/// The value under `key` in `m`, by index: with distinct keys, the member
/// whose key it is, if any.
proof fn lemma_member_cases(m: Seq<(String, Json)>, key: Seq<char>)
    requires
        spec_keys_distinct(m),
    ensures
        (exists|i: int| 0 <= i < m.len() && m[i].0@ == key) || spec_member(m, key) is None,
{
    if !(exists|i: int| 0 <= i < m.len() && m[i].0@ == key) {
        lemma_member_absent(m, key);
    }
}

impl SettingsMap {
    #[verifier::type_invariant]
    spec fn keys_distinct(self) -> bool {
        spec_keys_distinct(self.members@)
    }

    /// The value stored under `key`.
    pub closed spec fn spec_lookup(self, key: Seq<char>) -> Option<Json> {
        spec_member(self.members@, key)
    }

    /// The string stored under `key`; a value that is no string reads as none.
    pub open spec fn spec_string_at(self, key: Seq<char>) -> Option<Seq<char>> {
        match self.spec_lookup(key) {
            Some(Json::String(s)) => Some(s@),
            _ => None,
        }
    }

    /// The string-valued settings, in order.
    pub closed spec fn spec_entries(self) -> Seq<(Seq<char>, Seq<char>)> {
        spec_string_entries(self.members@)
    }

    /// No settings.
    pub fn new() -> (r: Self)
        ensures
            forall|k: Seq<char>| #[trigger] r.spec_lookup(k) is None,
            r.spec_entries().len() == 0,
    {
        SettingsMap { members: Vec::new() }
    }

    /// The index of the member with key `key`.
    fn find(&self, key: &str) -> (r: Option<usize>)
        ensures
            r matches Some(i) ==> i < self.members@.len() && self.members@[i as int].0@ == key@,
            r is None ==> forall|j: int|
                0 <= j < self.members@.len() ==> #[trigger] self.members@[j].0@ != key@,
    {
        let mut i: usize = 0;
        while i < self.members.len()
            invariant
                i <= self.members@.len(),
                forall|j: int| 0 <= j < i ==> #[trigger] self.members@[j].0@ != key@,
            decreases self.members.len() - i,
        {
            if str_eq(self.members[i].0.as_str(), key) {
                return Some(i);
            }
            i = i + 1;
        }
        None
    }

    /// Stores `value` under `key`, in place of any value there was.
    pub fn insert_json(&mut self, key: &str, value: Json)
        ensures
            final(self).spec_lookup(key@) == Some(value),
            forall|k: Seq<char>| k != key@ ==> #[trigger] final(self).spec_lookup(k) == old(self).spec_lookup(k),
    {
        proof {
            use_type_invariant(&*self);
        }
        let ghost old_m = self.members@;
        match self.find(key) {
            Some(i) => {
                let entry = (String::from_str(key), value);
                let mut members: Vec<(String, Json)> = Vec::new();
                std::mem::swap(&mut members, &mut self.members);
                members.set(i, entry);
                let ghost new_m = members@;
                proof {
                    assert forall|a: int, b: int|
                        0 <= a < new_m.len() && 0 <= b < new_m.len() && a != b implies #[trigger] new_m[a].0@
                        != #[trigger] new_m[b].0@ by {
                        assert(old_m[a].0@ != old_m[b].0@);
                        if a == i {
                            assert(new_m[a].0@ == old_m[a].0@);
                        }
                        if b == i {
                            assert(new_m[b].0@ == old_m[b].0@);
                        }
                    }
                    lemma_member_distinct(new_m, key@, i as int);
                    assert forall|k: Seq<char>| k != key@ implies spec_member(new_m, k) == spec_member(
                        old_m,
                        k,
                    ) by {
                        lemma_member_cases(old_m, k);
                        if exists|j: int| 0 <= j < old_m.len() && old_m[j].0@ == k {
                            let j = choose|j: int| 0 <= j < old_m.len() && old_m[j].0@ == k;
                            lemma_member_distinct(old_m, k, j);
                            lemma_member_distinct(new_m, k, j);
                        } else {
                            assert forall|j: int| 0 <= j < new_m.len() implies #[trigger] new_m[j].0@
                                != k by {
                                assert(old_m[j].0@ != k);
                            }
                            lemma_member_absent(new_m, k);
                        }
                    }
                }
                self.members = members;
            },
            None => {
                let mut members: Vec<(String, Json)> = Vec::new();
                std::mem::swap(&mut members, &mut self.members);
                members.push((String::from_str(key), value));
                let ghost new_m = members@;
                proof {
                    assert forall|a: int, b: int|
                        0 <= a < new_m.len() && 0 <= b < new_m.len() && a != b implies #[trigger] new_m[a].0@
                        != #[trigger] new_m[b].0@ by {
                        if a < old_m.len() && b < old_m.len() {
                            assert(old_m[a].0@ != old_m[b].0@);
                        } else if a < old_m.len() {
                            assert(old_m[a].0@ != key@);
                        } else {
                            assert(old_m[b].0@ != key@);
                        }
                    }
                    lemma_member_distinct(new_m, key@, old_m.len() as int);
                    assert forall|k: Seq<char>| k != key@ implies spec_member(new_m, k) == spec_member(
                        old_m,
                        k,
                    ) by {
                        lemma_member_cases(old_m, k);
                        if exists|j: int| 0 <= j < old_m.len() && old_m[j].0@ == k {
                            let j = choose|j: int| 0 <= j < old_m.len() && old_m[j].0@ == k;
                            lemma_member_distinct(old_m, k, j);
                            lemma_member_distinct(new_m, k, j);
                        } else {
                            assert forall|j: int| 0 <= j < new_m.len() implies #[trigger] new_m[j].0@
                                != k by {
                                if j < old_m.len() {
                                    assert(old_m[j].0@ != k);
                                }
                            }
                            lemma_member_absent(new_m, k);
                        }
                    }
                }
                self.members = members;
            },
        }
    }

    /// Stores the string `value` under `key`.
    pub fn insert(&mut self, key: &str, value: &str)
        ensures
            final(self).spec_lookup(key@) matches Some(Json::String(s)) && s@ == value@,
            forall|k: Seq<char>| k != key@ ==> #[trigger] final(self).spec_lookup(k) == old(self).spec_lookup(k),
    {
        self.insert_json(key, Json::String(String::from_str(value)));
    }

    /// Removes `key` and its value, if present.
    pub fn remove(&mut self, key: &str)
        ensures
            final(self).spec_lookup(key@) is None,
            forall|k: Seq<char>| k != key@ ==> #[trigger] final(self).spec_lookup(k) == old(self).spec_lookup(k),
    {
        proof {
            use_type_invariant(&*self);
        }
        let ghost old_m = self.members@;
        match self.find(key) {
            Some(i) => {
                let mut members: Vec<(String, Json)> = Vec::new();
                std::mem::swap(&mut members, &mut self.members);
                let _removed = members.remove(i);
                let ghost new_m = members@;
                proof {
                    assert(new_m =~= old_m.remove(i as int));
                    assert forall|a: int, b: int|
                        0 <= a < new_m.len() && 0 <= b < new_m.len() && a != b implies #[trigger] new_m[a].0@
                        != #[trigger] new_m[b].0@ by {
                        let oa = if a < i { a } else { a + 1 };
                        let ob = if b < i { b } else { b + 1 };
                        assert(new_m[a] == old_m[oa]);
                        assert(new_m[b] == old_m[ob]);
                        assert(old_m[oa].0@ != old_m[ob].0@);
                    }
                    assert forall|j: int| 0 <= j < new_m.len() implies #[trigger] new_m[j].0@ != key@ by {
                        let oj = if j < i { j } else { j + 1 };
                        assert(new_m[j] == old_m[oj]);
                        assert(old_m[oj].0@ != old_m[i as int].0@);
                    }
                    lemma_member_absent(new_m, key@);
                    assert forall|k: Seq<char>| k != key@ implies spec_member(new_m, k) == spec_member(
                        old_m,
                        k,
                    ) by {
                        lemma_member_cases(old_m, k);
                        if exists|j: int| 0 <= j < old_m.len() && old_m[j].0@ == k {
                            let j = choose|j: int| 0 <= j < old_m.len() && old_m[j].0@ == k;
                            lemma_member_distinct(old_m, k, j);
                            assert(j != i);
                            let nj = if j < i { j } else { j - 1 };
                            assert(new_m[nj] == old_m[j]);
                            lemma_member_distinct(new_m, k, nj);
                        } else {
                            assert forall|j: int| 0 <= j < new_m.len() implies #[trigger] new_m[j].0@
                                != k by {
                                let oj = if j < i { j } else { j + 1 };
                                assert(new_m[j] == old_m[oj]);
                            }
                            lemma_member_absent(new_m, k);
                        }
                    }
                }
                self.members = members;
            },
            None => {
                proof {
                    lemma_member_absent(old_m, key@);
                }
            },
        }
    }

    /// The string stored under `key`; a value that is no string reads as none.
    pub fn get(&self, key: &str) -> (r: Option<String>)
        ensures
            crate::chains::opt_view(r) == self.spec_string_at(key@),
    {
        proof {
            use_type_invariant(self);
        }
        match self.find(key) {
            Some(i) => {
                proof {
                    lemma_member_distinct(self.members@, key@, i as int);
                }
                match &self.members[i].1 {
                    Json::String(s) => Some(String::from_str(s.as_str())),
                    _ => None,
                }
            },
            None => {
                proof {
                    lemma_member_absent(self.members@, key@);
                }
                None
            },
        }
    }

    /// The string-valued settings as `(key, value)` pairs, in order: each
    /// listed pair is a stored string setting, and every stored string
    /// setting is listed.
    pub fn entries(&self) -> (r: Vec<(String, String)>)
        ensures
            r@.len() == self.spec_entries().len(),
            forall|i: int|
                0 <= i < r@.len() ==> (#[trigger] r@[i]).0@ == self.spec_entries()[i].0 && r@[i].1@
                    == self.spec_entries()[i].1,
            forall|i: int|
                0 <= i < r@.len() ==> self.spec_string_at((#[trigger] r@[i]).0@) == Some(r@[i].1@),
            forall|k: Seq<char>|
                #[trigger] self.spec_string_at(k) is Some ==> exists|i: int|
                    0 <= i < r@.len() && (#[trigger] r@[i]).0@ == k,
    {
        proof {
            use_type_invariant(self);
        }
        let mut out: Vec<(String, String)> = Vec::new();
        let mut i: usize = 0;
        while i < self.members.len()
            invariant
                i <= self.members@.len(),
                out@.len() == spec_string_entries(self.members@.take(i as int)).len(),
                forall|k: int|
                    0 <= k < out@.len() ==> (#[trigger] out@[k]).0@ == spec_string_entries(
                        self.members@.take(i as int),
                    )[k].0 && out@[k].1@ == spec_string_entries(self.members@.take(i as int))[k].1,
            decreases self.members.len() - i,
        {
            let ghost prev = self.members@.take(i as int);
            let ghost next = self.members@.take(i + 1);
            assert(next.drop_last() =~= prev);
            match &self.members[i].1 {
                Json::String(v) => {
                    out.push((String::from_str(self.members[i].0.as_str()), String::from_str(v.as_str())));
                },
                _ => {},
            }
            i = i + 1;
        }
        assert(self.members@.take(self.members@.len() as int) =~= self.members@);
        proof {
            let m = self.members@;
            assert forall|i: int| 0 <= i < out@.len() implies self.spec_string_at(
                (#[trigger] out@[i]).0@,
            ) == Some(out@[i].1@) by {
                lemma_string_entries_sound(m, i);
                let j = choose|j: int|
                    0 <= j < m.len() && #[trigger] m[j].0@ == spec_string_entries(m)[i].0
                        && m[j].1.spec_as_str() == Some(spec_string_entries(m)[i].1);
                lemma_member_distinct(m, m[j].0@, j);
            }
            assert forall|k: Seq<char>| #[trigger] self.spec_string_at(k) is Some implies exists|i: int|
                0 <= i < out@.len() && (#[trigger] out@[i]).0@ == k by {
                lemma_member_cases(m, k);
                let j = choose|j: int| 0 <= j < m.len() && m[j].0@ == k;
                lemma_member_distinct(m, k, j);
                lemma_string_entries_complete(m, j);
                let i = choose|i: int|
                    0 <= i < spec_string_entries(m).len() && spec_string_entries(m)[i].0 == m[j].0@;
                assert(out@[i].0@ == k);
            }
        }
        out
    }

    /// The members, for writing the settings back out.
    pub fn members(&self) -> (r: &Vec<(String, Json)>)
        ensures
            forall|k: Seq<char>| #[trigger] spec_member(r@, k) == self.spec_lookup(k),
    {
        &self.members
    }
}

/// Sets `key` to the string `value` in the settings read from
/// `config.json` (`None` when there is no such file); the result is written back.
pub fn save_config(existing: Option<SettingsMap>, key: &str, value: &str) -> (r: SettingsMap)
    ensures
        r.spec_string_at(key@) == Some(value@),
        forall|k: Seq<char>|
            k != key@ ==> #[trigger] r.spec_lookup(k) == match existing {
                Some(m) => m.spec_lookup(k),
                None => None,
            },
{
    let mut map = match existing {
        Some(m) => m,
        None => SettingsMap::new(),
    };
    map.insert(key, value);
    map
}

/// The write of `config.json` with the settings after `save_config`, as
/// serialized text: readable and writable by its owner only, also when
/// the file existed before with looser permissions.
pub fn save_config_write(contents: &str) -> (r: FileWrite)
    ensures
        r.file == ConfigFile::Settings,
        r.contents@ == contents@,
        r.owner_only,
{
    FileWrite { file: ConfigFile::Settings, contents: String::from_str(contents), owner_only: true }
}

/// The write of `config.json` with the settings after `remove_config`:
/// the existing file is rewritten in place, its permissions unchanged.
pub fn remove_config_write(contents: &str) -> (r: FileWrite)
    ensures
        r.file == ConfigFile::Settings,
        r.contents@ == contents@,
        !r.owner_only,
{
    FileWrite { file: ConfigFile::Settings, contents: String::from_str(contents), owner_only: false }
}

/// The string setting under `key`; none without a settings file.
pub fn get_config(existing: &Option<SettingsMap>, key: &str) -> (r: Option<String>)
    ensures
        crate::chains::opt_view(r) == match existing {
            Some(m) => m.spec_string_at(key@),
            None => None,
        },
{
    match existing {
        Some(m) => m.get(key),
        None => None,
    }
}

/// All string settings, in order; none without a settings file.
pub fn list_config(existing: &Option<SettingsMap>) -> (r: Vec<(String, String)>)
    ensures
        match existing {
            Some(m) => r@.len() == m.spec_entries().len() && (forall|i: int|
                0 <= i < r@.len() ==> (#[trigger] r@[i]).0@ == m.spec_entries()[i].0 && r@[i].1@
                    == m.spec_entries()[i].1) && (forall|i: int|
                0 <= i < r@.len() ==> m.spec_string_at((#[trigger] r@[i]).0@) == Some(r@[i].1@))
                && (forall|k: Seq<char>|
                #[trigger] m.spec_string_at(k) is Some ==> exists|i: int|
                    0 <= i < r@.len() && (#[trigger] r@[i]).0@ == k),
            None => r@.len() == 0,
        },
{
    match existing {
        Some(m) => m.entries(),
        None => Vec::new(),
    }
}

/// Removes `key` from the settings; without a settings file there is
/// nothing to write (`None`).
pub fn remove_config(existing: Option<SettingsMap>, key: &str) -> (r: Option<SettingsMap>)
    ensures
        existing is None ==> r is None,
        existing matches Some(m) ==> (r matches Some(n) && n.spec_lookup(key@) is None && forall|
            k: Seq<char>,
        | k != key@ ==> #[trigger] n.spec_lookup(k) == m.spec_lookup(k)),
{
    match existing {
        Some(m) => {
            let mut m = m;
            m.remove(key);
            Some(m)
        },
        None => None,
    }
}

// ───────────────────────── environment ─────────────────────────

/// A file of environment overrides.
#[derive(Debug, Clone, Copy, PartialEq, Eq, Structural)]
pub enum EnvSource {
    /// The file given with `--env-file`; failing to load it is an error.
    Explicit,
    /// `~/.txio/.env`, loaded on a best-effort basis.
    Trusted,
}

/// The `.env` files to load, in the order given, and whether to warn that a
/// `.env` in the working directory was left out (it is never loaded).
#[derive(Debug)]
pub struct EnvLoadPlan {
    pub sources: Vec<EnvSource>,
    pub warn_unloaded_cwd_env: bool,
}

/// The files loaded: the explicit one first when given, then the trusted
/// one when it exists.
pub open spec fn spec_env_sources(explicit_provided: bool, trusted_exists: bool) -> Seq<EnvSource> {
    (if explicit_provided { seq![EnvSource::Explicit] } else { Seq::empty() }) + (if trusted_exists {
        seq![EnvSource::Trusted]
    } else {
        Seq::empty()
    })
}

/// Whether to warn that a `./.env` was found but not loaded: only when
/// no `--env-file` was given and the file exists.
pub fn should_warn_unloaded_cwd_env(explicit_provided: bool, cwd_env_exists: bool) -> (r: bool)
    ensures
        r == (!explicit_provided && cwd_env_exists),
{
    !explicit_provided && cwd_env_exists
}

/// Plans the loading of environment overrides: the `--env-file` file
/// first, then `~/.txio/.env`; `./.env` never.
pub fn load_environment(explicit_provided: bool, trusted_exists: bool, cwd_env_exists: bool) -> (r: EnvLoadPlan)
    ensures
        r.sources@ == spec_env_sources(explicit_provided, trusted_exists),
        r.warn_unloaded_cwd_env == (!explicit_provided && cwd_env_exists),
{
    let mut sources: Vec<EnvSource> = Vec::new();
    if explicit_provided {
        sources.push(EnvSource::Explicit);
    }
    if trusted_exists {
        sources.push(EnvSource::Trusted);
    }
    assert(sources@ =~= spec_env_sources(explicit_provided, trusted_exists));
    EnvLoadPlan {
        sources,
        warn_unloaded_cwd_env: should_warn_unloaded_cwd_env(explicit_provided, cwd_env_exists),
    }
}

/// The environment after loading `files` in order over `env`, where
/// loading a file sets only the variables not set yet.
pub open spec fn spec_load_env(
    env: Map<Seq<char>, Seq<char>>,
    files: Seq<Map<Seq<char>, Seq<char>>>,
) -> Map<Seq<char>, Seq<char>>
    decreases files.len(),
{
    if files.len() == 0 {
        env
    } else {
        spec_load_env(files[0].union_prefer_right(env), files.drop_first())
    }
}

/// The variables a planned source holds.
pub open spec fn spec_source_vars(
    source: EnvSource,
    explicit_vars: Map<Seq<char>, Seq<char>>,
    trusted_vars: Map<Seq<char>, Seq<char>>,
) -> Map<Seq<char>, Seq<char>> {
    match source {
        EnvSource::Explicit => explicit_vars,
        EnvSource::Trusted => trusted_vars,
    }
}

/// Loading the planned files gives each variable the value of the
/// process environment when it was set there, else the value of the
/// `--env-file` file, else that of `~/.txio/.env`; a variable of none of
/// them stays unset.
pub proof fn law_env_precedence(
    explicit_provided: bool,
    trusted_exists: bool,
    before: Map<Seq<char>, Seq<char>>,
    explicit_vars: Map<Seq<char>, Seq<char>>,
    trusted_vars: Map<Seq<char>, Seq<char>>,
    key: Seq<char>,
)
    ensures
        ({
            let files = spec_env_sources(explicit_provided, trusted_exists).map_values(
                |s: EnvSource| spec_source_vars(s, explicit_vars, trusted_vars),
            );
            let after = spec_load_env(before, files);
            &&& before.contains_key(key) ==> after.contains_key(key) && after[key] == before[key]
            &&& !before.contains_key(key) && explicit_provided && explicit_vars.contains_key(key)
                ==> after.contains_key(key) && after[key] == explicit_vars[key]
            &&& !before.contains_key(key) && !(explicit_provided && explicit_vars.contains_key(key))
                && trusted_exists && trusted_vars.contains_key(key) ==> after.contains_key(key)
                && after[key] == trusted_vars[key]
            &&& !before.contains_key(key) && !(explicit_provided && explicit_vars.contains_key(key))
                && !(trusted_exists && trusted_vars.contains_key(key)) ==> !after.contains_key(key)
        }),
{
    let sources = spec_env_sources(explicit_provided, trusted_exists);
    let files = sources.map_values(|s: EnvSource| spec_source_vars(s, explicit_vars, trusted_vars));
    reveal_with_fuel(spec_load_env, 3);
    if explicit_provided && trusted_exists {
        assert(files =~= seq![explicit_vars, trusted_vars]);
        assert(files.drop_first() =~= seq![trusted_vars]);
        assert(files.drop_first().drop_first() =~= Seq::<Map<Seq<char>, Seq<char>>>::empty());
    } else if explicit_provided {
        assert(files =~= seq![explicit_vars]);
        assert(files.drop_first() =~= Seq::<Map<Seq<char>, Seq<char>>>::empty());
    } else if trusted_exists {
        assert(files =~= seq![trusted_vars]);
        assert(files.drop_first() =~= Seq::<Map<Seq<char>, Seq<char>>>::empty());
    } else {
        assert(files =~= Seq::<Map<Seq<char>, Seq<char>>>::empty());
    }
}

} // verus!
