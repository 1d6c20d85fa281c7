//! Configuration: what the environment sets, and what the database sets over
//! it.
use vstd::prelude::*;
use vstd::string::*;

use crate::text::all_space;
use crate::text::blank;
use crate::text::is_blank;
use crate::text::opt_copy;
use crate::text::opt_view;
use crate::text::or_empty;
use crate::text::same;
use crate::text::trim;
use crate::text::trimmed;
use crate::text::trimming_cuts_white_space_alone;

verus! {

/// The value that the first of `entries` with this name has.
pub open spec fn lookup<V>(entries: Seq<(String, V)>, name: Seq<char>) -> Option<V>
    decreases entries.len(),
{
    if entries.len() == 0 {
        None
    } else if entries[0].0@ == name {
        Some(entries[0].1)
    } else {
        lookup(entries.drop_first(), name)
    }
}

/// The position of the first of `entries` with this name.
fn find_entry<V>(entries: &Vec<(String, V)>, name: &str) -> (r: Option<usize>)
    ensures
        match r {
            Some(i) => i < entries@.len() && entries@[i as int].0@ == name@ && lookup(
                entries@,
                name@,
            ) == Some(entries@[i as int].1) && forall|j: int|
                0 <= j < i ==> (#[trigger] entries@[j]).0@ != name@,
            None => lookup(entries@, name@) is None && forall|j: int|
                0 <= j < entries@.len() ==> (#[trigger] entries@[j]).0@ != name@,
        },
{
    let mut i: usize = 0;
    proof {
        assert(entries@.skip(0) =~= entries@);
    }
    while i < entries.len()
        invariant
            i <= entries@.len(),
            lookup(entries@, name@) == lookup(entries@.skip(i as int), name@),
            forall|j: int| 0 <= j < i ==> (#[trigger] entries@[j]).0@ != name@,
        decreases entries@.len() - i,
    {
        proof {
            assert(entries@.skip(i as int)[0] == entries@[i as int]);
            assert(entries@.skip(i as int).drop_first() =~= entries@.skip(i + 1));
        }
        if same(entries[i].0.as_str(), name) {
            return Some(i);
        }
        i += 1;
    }
    None
}

/// The variables of the process environment.
#[derive(Debug)]
pub struct EnvVars {
    pub entries: Vec<(String, String)>,
}

impl EnvVars {
    /// The value of a variable, if it is set.
    pub open spec fn value(&self, name: Seq<char>) -> Option<Seq<char>> {
        opt_view(lookup(self.entries@, name))
    }

    /// The value of a variable, if it is set.
    pub fn get(&self, name: &str) -> (r: Option<String>)
        ensures
            opt_view(r) == self.value(name@),
    {
        match find_entry(&self.entries, name) {
            Some(i) => Some(String::from_str(self.entries[i].1.as_str())),
            None => None,
        }
    }
}

/// A value that is there and not empty.
pub open spec fn not_empty(v: Option<Seq<char>>) -> Option<Seq<char>> {
    match v {
        Some(s) => if s.len() > 0 {
            Some(s)
        } else {
            None
        },
        None => None,
    }
}

/// A value without white space around it, if anything is left of it.
pub open spec fn not_blank(v: Option<Seq<char>>) -> Option<Seq<char>> {
    match v {
        Some(s) => not_empty(Some(trimmed(s))),
        None => None,
    }
}

/// The first of two values that is there.
pub open spec fn first_of(a: Option<Seq<char>>, b: Option<Seq<char>>) -> Option<Seq<char>> {
    match a {
        Some(s) => Some(s),
        None => b,
    }
}

/// A value that may be missing, or what stands for it.
pub open spec fn or_else(v: Option<Seq<char>>, default: Seq<char>) -> Seq<char> {
    match v {
        Some(s) => s,
        None => default,
    }
}

/// The variable if it is set and not empty.
fn read_env(env: &EnvVars, name: &str) -> (r: Option<String>)
    ensures
        opt_view(r) == not_empty(env.value(name@)),
{
    match env.get(name) {
        Some(s) => if s.as_str().is_empty() {
            None
        } else {
            Some(s)
        },
        None => None,
    }
}

/// The variable without white space around it, if anything is left of it.
pub fn read_non_empty_env(env: &EnvVars, name: &str) -> (r: Option<String>)
    ensures
        opt_view(r) == not_blank(env.value(name@)),
{
    match env.get(name) {
        Some(s) => {
            let t: String = trim(s.as_str());
            if t.as_str().is_empty() {
                None
            } else {
                Some(t)
            }
        },
        None => None,
    }
}

/// The variable, or what stands for it.
fn env_or(env: &EnvVars, name: &str, default: &str) -> (r: String)
    ensures
        r@ == or_else(env.value(name@), default@),
{
    match env.get(name) {
        Some(s) => s,
        None => String::from_str(default),
    }
}

/// The first of two variables that is set and not blank.
fn env_either(env: &EnvVars, name: &str, other: &str) -> (r: Option<String>)
    ensures
        opt_view(r) == first_of(not_blank(env.value(name@)), not_blank(env.value(other@))),
{
    match read_non_empty_env(env, name) {
        Some(s) => Some(s),
        None => read_non_empty_env(env, other),
    }
}

/// What the environment sets.
#[derive(Debug, Clone)]
pub struct Settings {
    pub bot_token: Option<String>,
    pub channel_name: Option<String>,
    pub picgo_api_key: Option<String>,
    pub base_url: String,
    pub _mode: String,
    pub _file_route: String,
    pub data_dir: String,
    pub oidc: OidcSettings,
}

/// How users log in.
#[derive(Debug, Clone)]
pub struct OidcSettings {
    pub issuer_url: Option<String>,
    pub client_id: Option<String>,
    pub client_secret: Option<String>,
}

impl Settings {
    /// The settings that the environment gives.
    pub fn from_env(env: &EnvVars) -> (r: Self)
        ensures
            opt_view(r.bot_token) == not_empty(env.value("BOT_TOKEN"@)),
            opt_view(r.channel_name) == not_empty(env.value("CHANNEL_NAME"@)),
            opt_view(r.picgo_api_key) == not_empty(env.value("PICGO_API_KEY"@)),
            r.base_url@ == or_else(env.value("BASE_URL"@), "http://127.0.0.1:8000"@),
            r._mode@ == or_else(env.value("MODE"@), "p"@),
            r._file_route@ == or_else(env.value("FILE_ROUTE"@), "/d/"@),
            r.data_dir@ == or_else(env.value("DATA_DIR"@), "app/data"@),
            oidc_from_env(*env, r.oidc),
            settings_from_env(*env, r),
    {
        Settings {
            bot_token: read_env(env, "BOT_TOKEN"),
            channel_name: read_env(env, "CHANNEL_NAME"),
            picgo_api_key: read_env(env, "PICGO_API_KEY"),
            base_url: env_or(env, "BASE_URL", "http://127.0.0.1:8000"),
            _mode: env_or(env, "MODE", "p"),
            _file_route: env_or(env, "FILE_ROUTE", "/d/"),
            data_dir: env_or(env, "DATA_DIR", "app/data"),
            oidc: OidcSettings::from_env(env),
        }
    }
}

/// `s` is what the environment says. An empty token, channel or key is none;
/// what has a default has it only where the environment says nothing.
pub open spec fn settings_from_env(env: EnvVars, s: Settings) -> bool {
    &&& opt_view(s.bot_token) == not_empty(env.value("BOT_TOKEN"@))
    &&& opt_view(s.channel_name) == not_empty(env.value("CHANNEL_NAME"@))
    &&& opt_view(s.picgo_api_key) == not_empty(env.value("PICGO_API_KEY"@))
    &&& s.base_url@ == or_else(env.value("BASE_URL"@), "http://127.0.0.1:8000"@)
    &&& s._mode@ == or_else(env.value("MODE"@), "p"@)
    &&& s._file_route@ == or_else(env.value("FILE_ROUTE"@), "/d/"@)
    &&& s.data_dir@ == or_else(env.value("DATA_DIR"@), "app/data"@)
    &&& oidc_from_env(env, s.oidc)
}

/// `o` is what the environment says on logging in. The names that begin with
/// `OIDC_` come before those that begin with `AUTHELIA_`.
pub open spec fn oidc_from_env(env: EnvVars, o: OidcSettings) -> bool {
    &&& opt_view(o.issuer_url) == first_of(
        not_blank(env.value("OIDC_ISSUER_URL"@)),
        not_blank(env.value("AUTHELIA_ISSUER_URL"@)),
    )
    &&& opt_view(o.client_id) == first_of(
        not_blank(env.value("OIDC_CLIENT_ID"@)),
        not_blank(env.value("AUTHELIA_CLIENT_ID"@)),
    )
    &&& opt_view(o.client_secret) == first_of(
        not_blank(env.value("OIDC_CLIENT_SECRET"@)),
        not_blank(env.value("AUTHELIA_CLIENT_SECRET"@)),
    )
}

/// The value is there and more than white space.
pub open spec fn is_given(v: Option<Seq<char>>) -> bool {
    match v {
        Some(s) => !blank(s),
        None => false,
    }
}

fn given(v: &Option<String>) -> (r: bool)
    ensures
        r == is_given(opt_view(*v)),
{
    match v {
        Some(s) => !is_blank(s.as_str()),
        None => false,
    }
}

impl OidcSettings {
    /// The settings that the environment gives.
    pub fn from_env(env: &EnvVars) -> (r: Self)
        ensures
            oidc_from_env(*env, r),
    {
        OidcSettings {
            issuer_url: env_either(env, "OIDC_ISSUER_URL", "AUTHELIA_ISSUER_URL"),
            client_id: env_either(env, "OIDC_CLIENT_ID", "AUTHELIA_CLIENT_ID"),
            client_secret: env_either(env, "OIDC_CLIENT_SECRET", "AUTHELIA_CLIENT_SECRET"),
        }
    }

    /// Issuer, client and secret are all given.
    pub open spec fn configured(&self) -> bool {
        &&& is_given(opt_view(self.issuer_url))
        &&& is_given(opt_view(self.client_id))
        &&& is_given(opt_view(self.client_secret))
    }

    /// Whether users can log in: issuer, client and secret are all given.
    pub fn is_configured(&self) -> (r: bool)
        ensures
            r == self.configured(),
    {
        given(&self.issuer_url) && given(&self.client_id) && given(&self.client_secret)
    }

    /// A copy of the settings.
    pub fn copy(&self) -> (r: Self)
        ensures
            opt_view(r.issuer_url) == opt_view(self.issuer_url),
            opt_view(r.client_id) == opt_view(self.client_id),
            opt_view(r.client_secret) == opt_view(self.client_secret),
    {
        OidcSettings {
            issuer_url: opt_copy(&self.issuer_url),
            client_id: opt_copy(&self.client_id),
            client_secret: opt_copy(&self.client_secret),
        }
    }
}

/// Settings by name. A name may be known without a value.
#[derive(Debug)]
pub struct AppSettingsMap {
    entries: Vec<(String, Option<String>)>,
}

/// No two entries have the same name.
pub open spec fn names_differ<V>(entries: Seq<(String, V)>) -> bool {
    forall|i: int, j: int|
        0 <= i < j < entries.len() ==> (#[trigger] entries[i]).0@ != (#[trigger] entries[j]).0@
}

/// The entries as a map.
pub open spec fn entries_map(entries: Seq<(String, Option<String>)>) -> Map<
    Seq<char>,
    Option<Seq<char>>,
> {
    Map::new(
        |k: Seq<char>| lookup(entries, k) is Some,
        |k: Seq<char>| opt_view(lookup(entries, k)->0),
    )
}

proof fn lemma_lookup<V>(entries: Seq<(String, V)>, name: Seq<char>, i: int)
    requires
        0 <= i < entries.len(),
        entries[i].0@ == name,
        forall|j: int| 0 <= j < i ==> (#[trigger] entries[j]).0@ != name,
    ensures
        lookup(entries, name) == Some(entries[i].1),
    decreases entries.len(),
{
    if i > 0 {
        let rest = entries.drop_first();
        assert(entries[0].0@ != name);
        assert forall|j: int| 0 <= j < i - 1 implies (#[trigger] rest[j]).0@ != name by {
            assert(rest[j] == entries[j + 1]);
        }
        lemma_lookup(rest, name, i - 1);
    }
}

proof fn lemma_lookup_other<V>(a: Seq<(String, V)>, b: Seq<(String, V)>, name: Seq<char>, i: int)
    requires
        0 <= i < a.len(),
        a[i].0@ == b[i].0@,
        a[i].0@ != name,
        b == a.update(i, b[i]),
    ensures
        lookup(a, name) == lookup(b, name),
    decreases a.len(),
{
    assert(b.len() == a.len());
    if i == 0 {
        assert(a.drop_first() =~= b.drop_first());
    } else {
        assert(a[0] == b[0]);
        let x = a.drop_first();
        let y = b.drop_first();
        assert(y =~= x.update(i - 1, y[i - 1]));
        lemma_lookup_other(x, y, name, i - 1);
    }
}

proof fn lemma_lookup_push<V>(a: Seq<(String, V)>, e: (String, V), name: Seq<char>)
    ensures
        lookup(a.push(e), name) == match lookup(a, name) {
            Some(v) => Some(v),
            None => if e.0@ == name {
                Some(e.1)
            } else {
                None
            },
        },
    decreases a.len(),
{
    reveal_with_fuel(lookup, 2);
    if a.len() == 0 {
        assert(a.push(e).drop_first() =~= Seq::<(String, V)>::empty());
    } else {
        assert(a.push(e).drop_first() =~= a.drop_first().push(e));
        lemma_lookup_push(a.drop_first(), e, name);
    }
}

impl View for AppSettingsMap {
    type V = Map<Seq<char>, Option<Seq<char>>>;

    closed spec fn view(&self) -> Map<Seq<char>, Option<Seq<char>>> {
        entries_map(self.entries@)
    }
}

/// The value of a setting; none if the name is not known or has no value.
pub open spec fn setting(m: Map<Seq<char>, Option<Seq<char>>>, name: Seq<char>) -> Option<
    Seq<char>,
> {
    if m.dom().contains(name) {
        m[name]
    } else {
        None
    }
}

impl AppSettingsMap {
    #[verifier::type_invariant]
    spec fn well_formed(self) -> bool {
        names_differ(self.entries@)
    }

    /// No settings.
    pub fn new() -> (r: Self)
        ensures
            r@ == Map::<Seq<char>, Option<Seq<char>>>::empty(),
    {
        let r: AppSettingsMap = AppSettingsMap { entries: Vec::new() };
        proof {
            assert(r@ =~= Map::<Seq<char>, Option<Seq<char>>>::empty());
        }
        r
    }

    /// The value of a setting, if it has one.
    pub fn get(&self, name: &str) -> (r: Option<String>)
        ensures
            opt_view(r) == setting(self@, name@),
    {
        match find_entry(&self.entries, name) {
            Some(i) => opt_copy(&self.entries[i].1),
            None => None,
        }
    }

    /// The value of a setting, or the empty text.
    pub fn text(&self, name: &str) -> (r: String)
        ensures
            r@ == or_empty(setting(self@, name@)),
    {
        match self.get(name) {
            Some(s) => s,
            None => String::new(),
        }
    }

    /// Sets a setting.
    pub fn insert(&mut self, name: &str, value: Option<String>)
        ensures
            final(self)@ == old(self)@.insert(name@, opt_view(value)),
    {
        proof {
            use_type_invariant(&*self);
        }
        let mut entries: Vec<(String, Option<String>)> = Vec::new();
        std::mem::swap(&mut entries, &mut self.entries);
        let ghost a = entries@;
        let ghost before = entries_map(a);
        match find_entry(&entries, name) {
            Some(i) => {
                entries.set(i, (String::from_str(name), value));
                proof {
                    let b = entries@;
                    assert(b =~= a.update(i as int, b[i as int]));
                    assert forall|x: int, y: int| 0 <= x < y < b.len() implies (#[trigger] b[x]).0@
                        != (#[trigger] b[y]).0@ by {
                        assert(a[x].0@ != a[y].0@);
                    }
                    assert forall|j: int| 0 <= j < i implies (#[trigger] b[j]).0@ != name@ by {
                        assert(a[j].0@ != name@);
                    }
                    lemma_lookup(b, name@, i as int);
                    assert forall|k: Seq<char>| k != name@ implies #[trigger] lookup(a, k)
                        == lookup(b, k) by {
                        lemma_lookup_other(a, b, k, i as int);
                    }
                    assert(entries_map(b) =~= before.insert(name@, opt_view(value)));
                }
            },
            None => {
                entries.push((String::from_str(name), value));
                proof {
                    let b = entries@;
                    assert forall|x: int, y: int| 0 <= x < y < b.len() implies (#[trigger] b[x]).0@
                        != (#[trigger] b[y]).0@ by {
                        assert(a[x].0@ != name@);
                        if y < a.len() {
                            assert(a[x].0@ != a[y].0@);
                        }
                    }
                    assert forall|k: Seq<char>| #[trigger] lookup(b, k) == match lookup(a, k) {
                        Some(v) => Some(v),
                        None => if k == name@ {
                            Some(value)
                        } else {
                            None
                        },
                    } by {
                        lemma_lookup_push(a, b.last(), k);
                        assert(b =~= a.push(b.last()));
                    }
                    assert(entries_map(b) =~= before.insert(name@, opt_view(value)));
                }
            },
        }
        self.entries = entries;
    }

    /// A copy of the settings.
    pub fn copy(&self) -> (r: Self)
        ensures
            r@ == self@,
    {
        let mut out: AppSettingsMap = AppSettingsMap::new();
        let mut i: usize = 0;
        proof {
            use_type_invariant(self);
            assert(self.entries@.take(0) =~= Seq::empty());
            assert(entries_map(self.entries@.take(0)) =~= out@);
        }
        while i < self.entries.len()
            invariant
                i <= self.entries@.len(),
                out@ == entries_map(self.entries@.take(i as int)),
                names_differ(self.entries@),
            decreases self.entries@.len() - i,
        {
            let ghost done = self.entries@.take(i as int);
            let name: &str = self.entries[i].0.as_str();
            out.insert(name, opt_copy(&self.entries[i].1));
            proof {
                let e = self.entries@[i as int];
                let next = self.entries@.take(i + 1);
                assert(next =~= done.push(e));
                lemma_entries_push(done, e);
            }
            i += 1;
        }
        proof {
            assert(self.entries@.take(i as int) =~= self.entries@);
        }
        out
    }
}

proof fn lemma_entries_push(a: Seq<(String, Option<String>)>, e: (String, Option<String>))
    requires
        names_differ(a.push(e)),
    ensures
        entries_map(a.push(e)) == entries_map(a).insert(e.0@, opt_view(e.1)),
        lookup(a, e.0@) is None,
{
    let b = a.push(e);
    assert forall|j: int| 0 <= j < a.len() implies (#[trigger] a[j]).0@ != e.0@ by {
        assert(b[j].0@ != b[a.len() as int].0@);
    }
    lemma_lookup_absent(a, e.0@);
    assert forall|k: Seq<char>| #[trigger] lookup(b, k) == match lookup(a, k) {
        Some(v) => Some(v),
        None => if e.0@ == k {
            Some(e.1)
        } else {
            None
        },
    } by {
        lemma_lookup_push(a, e, k);
    }
    assert(entries_map(b) =~= entries_map(a).insert(e.0@, opt_view(e.1)));
}

proof fn lemma_lookup_absent<V>(a: Seq<(String, V)>, name: Seq<char>)
    requires
        forall|j: int| 0 <= j < a.len() ==> (#[trigger] a[j]).0@ != name,
    ensures
        lookup(a, name) is None,
    decreases a.len(),
{
    if a.len() > 0 {
        assert(a[0].0@ != name);
        let rest = a.drop_first();
        assert forall|j: int| 0 <= j < rest.len() implies (#[trigger] rest[j]).0@ != name by {
            assert(rest[j] == a[j + 1]);
        }
        lemma_lookup_absent(rest, name);
    }
}

/// The four settings that the environment gives.
pub open spec fn env_settings(s: Settings) -> Map<Seq<char>, Option<Seq<char>>> {
    Map::empty().insert("BOT_TOKEN"@, opt_view(s.bot_token)).insert(
        "CHANNEL_NAME"@,
        opt_view(s.channel_name),
    ).insert("PICGO_API_KEY"@, opt_view(s.picgo_api_key)).insert("BASE_URL"@, Some(s.base_url@))
}

/// `env` with the settings of `db` over it. A setting of `db` counts if it is
/// more than white space, and without the white space around it.
pub open spec fn overlaid(
    env: Map<Seq<char>, Option<Seq<char>>>,
    db: Map<Seq<char>, Option<Seq<char>>>,
) -> Map<Seq<char>, Option<Seq<char>>> {
    Map::new(
        |k: Seq<char>| env.dom().contains(k) || not_blank(setting(db, k)) is Some,
        |k: Seq<char>|
            if not_blank(setting(db, k)) is Some {
                not_blank(setting(db, k))
            } else {
                env[k]
            },
    )
}

/// The settings in force: those of the database over those of the
/// environment; the latter alone if the database could not be read.
pub fn get_app_settings(settings: &Settings, db: Option<&AppSettingsMap>) -> (r: AppSettingsMap)
    ensures
        r@ == match db {
            Some(m) => overlaid(env_settings(*settings), m@),
            None => env_settings(*settings),
        },
{
    let mut out: AppSettingsMap = AppSettingsMap::new();
    out.insert("BOT_TOKEN", opt_copy(&settings.bot_token));
    out.insert("CHANNEL_NAME", opt_copy(&settings.channel_name));
    out.insert("PICGO_API_KEY", opt_copy(&settings.picgo_api_key));
    out.insert("BASE_URL", Some(String::from_str(settings.base_url.as_str())));
    let ghost env = env_settings(*settings);
    if let Some(m) = db {
        let mut i: usize = 0;
        proof {
            use_type_invariant(m);
            assert(m.entries@.take(0) =~= Seq::empty());
            assert(overlaid(env, entries_map(m.entries@.take(0))) =~= env);
        }
        while i < m.entries.len()
            invariant
                i <= m.entries@.len(),
                names_differ(m.entries@),
                out@ == overlaid(env, entries_map(m.entries@.take(i as int))),
            decreases m.entries@.len() - i,
        {
            let ghost done = m.entries@.take(i as int);
            let ghost e = m.entries@[i as int];
            proof {
                assert(m.entries@.take(i + 1) =~= done.push(e));
                lemma_entries_push(done, e);
            }
            if let Some(v) = &m.entries[i].1 {
                let t: String = trim(v.as_str());
                if !t.as_str().is_empty() {
                    out.insert(m.entries[i].0.as_str(), Some(t));
                }
            }
            proof {
                assert(out@ =~= overlaid(env, entries_map(done.push(e))));
            }
            i += 1;
        }
        proof {
            assert(m.entries@.take(i as int) =~= m.entries@);
        }
    }
    out
}

/// The settings of the database over those of the environment, once more
/// over the result, change nothing.
pub proof fn settings_in_force_are_stable(
    env: Map<Seq<char>, Option<Seq<char>>>,
    db: Map<Seq<char>, Option<Seq<char>>>,
)
    ensures
        overlaid(overlaid(env, db), db) == overlaid(env, db),
{
    assert(overlaid(overlaid(env, db), db) =~= overlaid(env, db));
}

/// A database without values leaves the settings of the environment in force.
pub proof fn empty_database_leaves_environment(
    env: Map<Seq<char>, Option<Seq<char>>>,
    db: Map<Seq<char>, Option<Seq<char>>>,
)
    requires
        forall|k: Seq<char>| #[trigger] db.dom().contains(k) ==> not_blank(db[k]) is None,
    ensures
        overlaid(env, db) == env,
{
    assert forall|k: Seq<char>| not_blank(#[trigger] setting(db, k)) is None by {
        if db.dom().contains(k) {
            assert(not_blank(db[k]) is None);
        }
    }
    assert(overlaid(env, db) =~= env);
}

/// The bot can run: token and channel are both given.
pub open spec fn bot_ready(m: Map<Seq<char>, Option<Seq<char>>>) -> bool {
    &&& !blank(or_empty(setting(m, "BOT_TOKEN"@)))
    &&& !blank(or_empty(setting(m, "CHANNEL_NAME"@)))
}

/// Whether the bot can run: token and channel are both given.
pub fn is_bot_ready(app_settings: &AppSettingsMap) -> (r: bool)
    ensures
        r == bot_ready(app_settings@),
{
    let token: String = app_settings.text("BOT_TOKEN");
    let channel: String = app_settings.text("CHANNEL_NAME");
    !is_blank(token.as_str()) && !is_blank(channel.as_str())
}

/// A variable has the value of its entry, the first one if there are several,
/// wherever it stands; one without an entry has none.
pub proof fn variables_have_the_value_of_their_entry(env: EnvVars, name: Seq<char>, i: int)
    requires
        0 <= i <= env.entries@.len(),
        forall|j: int| 0 <= j < i ==> (#[trigger] env.entries@[j]).0@ != name,
        i < env.entries@.len() ==> env.entries@[i].0@ == name,
    ensures
        i < env.entries@.len() ==> env.value(name) == Some(env.entries@[i].1@),
        i == env.entries@.len() ==> env.value(name) is None,
{
    if i < env.entries@.len() {
        lemma_lookup(env.entries@, name, i);
    } else {
        lemma_lookup_absent(env.entries@, name);
    }
}

/// A value counts unless it is missing or white space alone, and then without
/// the white space around it.
pub proof fn values_count_unless_blank(v: Option<Seq<char>>)
    ensures
        not_blank(v) is Some <==> v is Some && !all_space(v->0),
        not_blank(v) is Some ==> not_blank(v) == Some(trimmed(v->0)),
        is_given(v) <==> v is Some && !all_space(v->0),
        not_empty(v) is Some <==> v is Some && v->0.len() > 0,
        not_empty(v) is Some ==> not_empty(v) == v,
{
    if let Some(s) = v {
        trimming_cuts_white_space_alone(s);
    }
}

/// The names that begin with `OIDC_` come first; a blank one leaves the place
/// to the one that begins with `AUTHELIA_`.
pub proof fn oidc_names_come_first(env: EnvVars, o: OidcSettings)
    requires
        oidc_from_env(env, o),
    ensures
        env.value("OIDC_ISSUER_URL"@) matches Some(v) && !all_space(v) ==> opt_view(o.issuer_url)
            == Some(trimmed(env.value("OIDC_ISSUER_URL"@)->0)),
        env.value("OIDC_CLIENT_ID"@) matches Some(v) && !all_space(v) ==> opt_view(o.client_id)
            == Some(trimmed(env.value("OIDC_CLIENT_ID"@)->0)),
        env.value("OIDC_CLIENT_SECRET"@) matches Some(v) && !all_space(v) ==> opt_view(
            o.client_secret,
        ) == Some(trimmed(env.value("OIDC_CLIENT_SECRET"@)->0)),
        !(env.value("OIDC_ISSUER_URL"@) matches Some(v) && !all_space(v)) ==> opt_view(
            o.issuer_url,
        ) == not_blank(env.value("AUTHELIA_ISSUER_URL"@)),
        !(env.value("OIDC_CLIENT_ID"@) matches Some(v) && !all_space(v)) ==> opt_view(
            o.client_id,
        ) == not_blank(env.value("AUTHELIA_CLIENT_ID"@)),
        !(env.value("OIDC_CLIENT_SECRET"@) matches Some(v) && !all_space(v)) ==> opt_view(
            o.client_secret,
        ) == not_blank(env.value("AUTHELIA_CLIENT_SECRET"@)),
{
    values_count_unless_blank(env.value("OIDC_ISSUER_URL"@));
    values_count_unless_blank(env.value("OIDC_CLIENT_ID"@));
    values_count_unless_blank(env.value("OIDC_CLIENT_SECRET"@));
}

/// Users can log in if and only if issuer, client and secret are all there and
/// none is white space alone.
pub proof fn logins_need_all_three(o: OidcSettings)
    ensures
        o.configured() <==> o.issuer_url is Some && !all_space(o.issuer_url->0@) && o.client_id
            is Some && !all_space(o.client_id->0@) && o.client_secret is Some && !all_space(
            o.client_secret->0@,
        ),
{
    values_count_unless_blank(opt_view(o.issuer_url));
    values_count_unless_blank(opt_view(o.client_id));
    values_count_unless_blank(opt_view(o.client_secret));
}

/// A setting of the database that is more than white space is in force; any
/// other leaves the setting of the environment in force.
pub proof fn the_database_comes_first(
    env: Map<Seq<char>, Option<Seq<char>>>,
    db: Map<Seq<char>, Option<Seq<char>>>,
    name: Seq<char>,
)
    ensures
        db.dom().contains(name) && db[name] is Some && !all_space(db[name]->0) ==> setting(
            overlaid(env, db),
            name,
        ) == Some(trimmed(db[name]->0)),
        !(db.dom().contains(name) && db[name] is Some && !all_space(db[name]->0)) ==> setting(
            overlaid(env, db),
            name,
        ) == setting(env, name),
{
    values_count_unless_blank(setting(db, name));
}

/// The environment gives each of the four settings its own value, and no
/// other setting.
pub proof fn the_environment_gives_four_settings(s: Settings, name: Seq<char>)
    ensures
        setting(env_settings(s), "BOT_TOKEN"@) == opt_view(s.bot_token),
        setting(env_settings(s), "CHANNEL_NAME"@) == opt_view(s.channel_name),
        setting(env_settings(s), "PICGO_API_KEY"@) == opt_view(s.picgo_api_key),
        setting(env_settings(s), "BASE_URL"@) == Some(s.base_url@),
        env_settings(s).dom().contains(name) <==> name == "BOT_TOKEN"@ || name == "CHANNEL_NAME"@
            || name == "PICGO_API_KEY"@ || name == "BASE_URL"@,
{
    crate::database::lemma_setting_names();
}

/// The bot can run if and only if token and channel are both more than white
/// space.
pub proof fn bots_need_a_token_and_a_channel(m: Map<Seq<char>, Option<Seq<char>>>)
    ensures
        bot_ready(m) <==> setting(m, "BOT_TOKEN"@) is Some && !all_space(
            setting(m, "BOT_TOKEN"@)->0,
        ) && setting(m, "CHANNEL_NAME"@) is Some && !all_space(setting(m, "CHANNEL_NAME"@)->0),
{
    trimming_cuts_white_space_alone(or_empty(setting(m, "BOT_TOKEN"@)));
    trimming_cuts_white_space_alone(or_empty(setting(m, "CHANNEL_NAME"@)));
}

/// A variable that is set and not empty is the setting of its name, as it
/// stands; one that is not set leaves the setting out, or leaves its default.
pub proof fn variables_are_the_settings(env: EnvVars, s: Settings)
    requires
        settings_from_env(env, s),
    ensures
        env.value("BOT_TOKEN"@) matches Some(v) && v.len() > 0 ==> opt_view(s.bot_token)
            == env.value("BOT_TOKEN"@),
        env.value("CHANNEL_NAME"@) matches Some(v) && v.len() > 0 ==> opt_view(s.channel_name)
            == env.value("CHANNEL_NAME"@),
        env.value("PICGO_API_KEY"@) matches Some(v) && v.len() > 0 ==> opt_view(s.picgo_api_key)
            == env.value("PICGO_API_KEY"@),
        !(env.value("BOT_TOKEN"@) matches Some(v) && v.len() > 0) ==> s.bot_token is None,
        !(env.value("CHANNEL_NAME"@) matches Some(v) && v.len() > 0) ==> s.channel_name is None,
        !(env.value("PICGO_API_KEY"@) matches Some(v) && v.len() > 0) ==> s.picgo_api_key is None,
        env.value("BASE_URL"@) matches Some(v) ==> s.base_url@ == v,
        env.value("MODE"@) matches Some(v) ==> s._mode@ == v,
        env.value("FILE_ROUTE"@) matches Some(v) ==> s._file_route@ == v,
        env.value("DATA_DIR"@) matches Some(v) ==> s.data_dir@ == v,
        env.value("BASE_URL"@) is None ==> s.base_url@ == "http://127.0.0.1:8000"@,
        env.value("MODE"@) is None ==> s._mode@ == "p"@,
        env.value("FILE_ROUTE"@) is None ==> s._file_route@ == "/d/"@,
        env.value("DATA_DIR"@) is None ==> s.data_dir@ == "app/data"@,
{
}

} // verus!
