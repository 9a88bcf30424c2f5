//! The agent's data: its local configuration, what the server sends about
//! printers and jobs, and the state shown to the user.
use vstd::prelude::*;
use crate::text::{is_blank, is_white_space, owned, str_eq};

verus! {

/// The server every installation talks to.
pub const DOMAIN_URL: &'static str = "https://restapp.allsender.tech";

/// The version of this agent.
pub const APP_VERSION: &'static str = "3.1.2";

// ---------------------------------------------------------------------------
// Mapping from a server area (printer id, as text) to a local printer name
// ---------------------------------------------------------------------------

/// Keys of `e` are pairwise different.
pub open spec fn distinct_keys(e: Seq<(String, String)>) -> bool {
    forall|i: int, j: int|
        0 <= i < e.len() && 0 <= j < e.len() && i != j ==> #[trigger] e[i].0@ != #[trigger] e[j].0@
}

/// The map that a list of key/value entries describes.
pub open spec fn entries_map(e: Seq<(String, String)>) -> Map<Seq<char>, Seq<char>> {
    Map::new(
        |k: Seq<char>| exists|i: int| 0 <= i < e.len() && #[trigger] e[i].0@ == k,
        |k: Seq<char>| e[choose|i: int| 0 <= i < e.len() && #[trigger] e[i].0@ == k].1@,
    )
}

pub proof fn lemma_entries_map_at(e: Seq<(String, String)>, i: int)
    requires
        distinct_keys(e),
        0 <= i < e.len(),
    ensures
        entries_map(e).contains_key(e[i].0@),
        entries_map(e)[e[i].0@] == e[i].1@,
{
    let k = e[i].0@;
    assert(e[i].0@ == k);
    let j = choose|j: int| 0 <= j < e.len() && #[trigger] e[j].0@ == k;
    assert(e[j].0@ == k);
    if j != i {
        assert(e[i].0@ != e[j].0@);
    }
}

pub proof fn lemma_entries_map_dom_len(e: Seq<(String, String)>)
    requires
        distinct_keys(e),
    ensures
        entries_map(e).dom().finite(),
        entries_map(e).dom().len() == e.len(),
    decreases e.len(),
{
    if e.len() == 0 {
        assert(entries_map(e).dom() =~= Set::empty());
    } else {
        let f = e.drop_last();
        assert(distinct_keys(f)) by {
            assert forall|i: int, j: int|
                0 <= i < f.len() && 0 <= j < f.len() && i != j implies #[trigger] f[i].0@
                != #[trigger] f[j].0@ by {
                assert(f[i] == e[i] && f[j] == e[j]);
            }
        }
        lemma_entries_map_dom_len(f);
        let last = e[e.len() - 1].0@;
        assert(entries_map(e).dom() =~= entries_map(f).dom().insert(last)) by {
            assert forall|k: Seq<char>| entries_map(e).dom().contains(k) implies #[trigger] entries_map(
                f,
            ).dom().insert(last).contains(k) by {
                let i = choose|i: int| 0 <= i < e.len() && #[trigger] e[i].0@ == k;
                if i < e.len() - 1 {
                    assert(f[i] == e[i]);
                }
            }
            assert forall|k: Seq<char>| entries_map(f).dom().insert(last).contains(k) implies #[trigger] entries_map(
                e,
            ).dom().contains(k) by {
                if k != last {
                    let i = choose|i: int| 0 <= i < f.len() && #[trigger] f[i].0@ == k;
                    assert(e[i] == f[i]);
                } else {
                    assert(e[e.len() - 1].0@ == k);
                }
            }
        }
        assert(!entries_map(f).dom().contains(last)) by {
            if entries_map(f).dom().contains(last) {
                let i = choose|i: int| 0 <= i < f.len() && #[trigger] f[i].0@ == last;
                assert(f[i] == e[i]);
                assert(e[i].0@ != e[e.len() - 1].0@);
            }
        }
    }
}

/// A map from keys to values, both texts, in which no key occurs twice.
/// It holds the area → Windows printer associations of the configuration.
#[derive(Debug)]
pub struct AreaMap {
    entries: Vec<(String, String)>,
}

impl AreaMap {
    #[verifier::type_invariant]
    spec fn keys_distinct(self) -> bool {
        distinct_keys(self.entries@)
    }

    /// Number of entries.
    pub closed spec fn spec_len(&self) -> nat {
        self.entries@.len()
    }

    /// The key and value of the entry at position `i`.
    pub closed spec fn entry_at(&self, i: int) -> (Seq<char>, Seq<char>) {
        (self.entries@[i].0@, self.entries@[i].1@)
    }
}

impl View for AreaMap {
    type V = Map<Seq<char>, Seq<char>>;

    closed spec fn view(&self) -> Map<Seq<char>, Seq<char>> {
        entries_map(self.entries@)
    }
}

impl AreaMap {
    /// The empty map.
    pub fn new() -> (m: AreaMap)
        ensures
            m@ == Map::<Seq<char>, Seq<char>>::empty(),
            m.spec_len() == 0,
    {
        let m = AreaMap { entries: Vec::new() };
        assert(m@ =~= Map::<Seq<char>, Seq<char>>::empty());
        m
    }

    /// Number of entries.
    pub fn len(&self) -> (n: usize)
        ensures
            n == self.spec_len(),
            n == self@.dom().len(),
    {
        proof {
            use_type_invariant(self);
            lemma_entries_map_dom_len(self.entries@);
        }
        self.entries.len()
    }

    /// Whether the map has no entry.
    pub fn is_empty(&self) -> (b: bool)
        ensures
            b == (self.spec_len() == 0),
            b == (self@.dom().len() == 0),
            b == (self@ == Map::<Seq<char>, Seq<char>>::empty()),
    {
        proof {
            use_type_invariant(self);
            lemma_entries_map_dom_len(self.entries@);
            if self.spec_len() > 0 {
                lemma_entries_map_at(self.entries@, 0);
            } else {
                assert(self@ =~= Map::<Seq<char>, Seq<char>>::empty());
            }
        }
        self.entries.len() == 0
    }

    /// The key and value at position `i`, for walking over the map.
    pub fn entry(&self, i: usize) -> (kv: (&String, &String))
        requires
            i < self.spec_len(),
        ensures
            (kv.0@, kv.1@) == self.entry_at(i as int),
            self@.contains_key(kv.0@),
            self@[kv.0@] == kv.1@,
    {
        proof {
            use_type_invariant(self);
            lemma_entries_map_at(self.entries@, i as int);
        }
        let e = &self.entries[i];
        (&e.0, &e.1)
    }

    /// The value for `key`, if the map holds one.
    pub fn get(&self, key: &str) -> (r: Option<&String>)
        ensures
            match r {
                Some(v) => self@.contains_key(key@) && self@[key@] == v@,
                None => !self@.contains_key(key@),
            },
    {
        proof {
            use_type_invariant(self);
        }
        let mut i: usize = 0;
        while i < self.entries.len()
            invariant
                i <= self.entries.len(),
                distinct_keys(self.entries@),
                forall|j: int| 0 <= j < i ==> #[trigger] self.entries@[j].0@ != key@,
            decreases self.entries.len() - i,
        {
            if str_eq(self.entries[i].0.as_str(), key) {
                proof {
                    lemma_entries_map_at(self.entries@, i as int);
                }
                return Some(&self.entries[i].1);
            }
            i = i + 1;
        }
        None
    }

    /// Associates `value` with `key`, replacing an earlier value of `key`.
    pub fn insert(&mut self, key: String, value: String)
        ensures
            final(self)@ == old(self)@.insert(key@, value@),
    {
        proof {
            use_type_invariant(&*self);
        }
        let ghost before = self.entries@;
        let mut entries: Vec<(String, String)> = Vec::new();
        std::mem::swap(&mut entries, &mut self.entries);
        assert(entries@ == before);
        let mut i: usize = 0;
        while i < entries.len()
            invariant
                entries@ == before,
                entries_map(before) == old(self)@,
                distinct_keys(before),
                i <= entries.len(),
                forall|j: int| 0 <= j < i ==> #[trigger] entries@[j].0@ != key@,
            decreases entries.len() - i,
        {
            if str_eq(entries[i].0.as_str(), key.as_str()) {
                let ghost kv = (key, value);
                entries.set(i, (key, value));
                proof {
                    lemma_replace(before, i as int, kv);
                    assert(entries@ == before.update(i as int, kv));
                }
                self.entries = entries;
                return;
            }
            i = i + 1;
        }
        let ghost kv = (key, value);
        entries.push((key, value));
        proof {
            lemma_append(before, kv);
        }
        self.entries = entries;
    }
}

proof fn lemma_replace(e: Seq<(String, String)>, i: int, kv: (String, String))
    requires
        distinct_keys(e),
        0 <= i < e.len(),
        e[i].0@ == kv.0@,
    ensures
        distinct_keys(e.update(i, kv)),
        entries_map(e.update(i, kv)) == entries_map(e).insert(kv.0@, kv.1@),
{
    let f = e.update(i, kv);
    assert(distinct_keys(f)) by {
        assert forall|a: int, b: int|
            0 <= a < f.len() && 0 <= b < f.len() && a != b implies #[trigger] f[a].0@
            != #[trigger] f[b].0@ by {
            assert(f[a].0@ == e[a].0@ && f[b].0@ == e[b].0@);
        }
    }
    let m = entries_map(e).insert(kv.0@, kv.1@);
    assert forall|k: Seq<char>| #[trigger] entries_map(f).contains_key(k) <==> m.contains_key(k) by {
        if entries_map(f).contains_key(k) {
            let a = choose|a: int| 0 <= a < f.len() && #[trigger] f[a].0@ == k;
            assert(e[a].0@ == k);
        }
        if m.contains_key(k) && k != kv.0@ {
            let a = choose|a: int| 0 <= a < e.len() && #[trigger] e[a].0@ == k;
            assert(f[a].0@ == k);
        }
        if k == kv.0@ {
            assert(f[i].0@ == k);
        }
    }
    assert forall|k: Seq<char>| #[trigger] entries_map(f).contains_key(k) implies entries_map(f)[k]
        == m[k] by {
        let a = choose|a: int| 0 <= a < f.len() && #[trigger] f[a].0@ == k;
        assert(f[a].0@ == k);
        lemma_entries_map_at(f, a);
        if a != i {
            assert(e[a] == f[a]);
            lemma_entries_map_at(e, a);
        }
    }
    assert(entries_map(f) =~= m);
}

proof fn lemma_append(e: Seq<(String, String)>, kv: (String, String))
    requires
        distinct_keys(e),
        forall|j: int| 0 <= j < e.len() ==> #[trigger] e[j].0@ != kv.0@,
    ensures
        distinct_keys(e.push(kv)),
        entries_map(e.push(kv)) == entries_map(e).insert(kv.0@, kv.1@),
{
    let f = e.push(kv);
    let n = e.len() as int;
    assert(distinct_keys(f)) by {
        assert forall|a: int, b: int|
            0 <= a < f.len() && 0 <= b < f.len() && a != b implies #[trigger] f[a].0@
            != #[trigger] f[b].0@ by {
            if a < n && b < n {
                assert(f[a] == e[a] && f[b] == e[b]);
            } else if a < n {
                assert(f[a] == e[a]);
            } else {
                assert(f[b] == e[b]);
            }
        }
    }
    let m = entries_map(e).insert(kv.0@, kv.1@);
    assert forall|k: Seq<char>| #[trigger] entries_map(f).contains_key(k) <==> m.contains_key(k) by {
        if entries_map(f).contains_key(k) && k != kv.0@ {
            let a = choose|a: int| 0 <= a < f.len() && #[trigger] f[a].0@ == k;
            assert(a < n);
            assert(e[a] == f[a]);
        }
        if m.contains_key(k) && k != kv.0@ {
            let a = choose|a: int| 0 <= a < e.len() && #[trigger] e[a].0@ == k;
            assert(f[a] == e[a]);
        }
        if k == kv.0@ {
            assert(f[n].0@ == k);
        }
    }
    assert forall|k: Seq<char>| #[trigger] entries_map(f).contains_key(k) implies entries_map(f)[k]
        == m[k] by {
        let a = choose|a: int| 0 <= a < f.len() && #[trigger] f[a].0@ == k;
        assert(f[a].0@ == k);
        lemma_entries_map_at(f, a);
        if a != n {
            assert(e[a] == f[a]);
            lemma_entries_map_at(e, a);
        }
    }
    assert(entries_map(f) =~= m);
}

impl Clone for AreaMap {
    /// A copy with the same entries.
    fn clone(&self) -> (r: Self)
        ensures
            r@ == self@,
            r.spec_len() == self.spec_len(),
    {
        proof {
            use_type_invariant(self);
        }
        let mut entries: Vec<(String, String)> = Vec::new();
        let mut i: usize = 0;
        while i < self.entries.len()
            invariant
                i <= self.entries.len(),
                entries@.len() == i,
                forall|j: int| 0 <= j < i ==> #[trigger] entries@[j] == self.entries@[j],
            decreases self.entries.len() - i,
        {
            let k = self.entries[i].0.clone();
            let v = self.entries[i].1.clone();
            entries.push((k, v));
            i = i + 1;
        }
        assert(entries@ =~= self.entries@);
        AreaMap { entries }
    }
}

// ---------------------------------------------------------------------------
// Device identifier
// ---------------------------------------------------------------------------

/// A lower-case hexadecimal digit.
pub open spec fn is_lower_hex(c: char) -> bool {
    ('0' <= c && c <= '9') || ('a' <= c && c <= 'f')
}

/// The hyphenated lower-case form of a UUID: 36 characters, `-` at
/// positions 8, 13, 18 and 23, hexadecimal digits elsewhere.
pub open spec fn is_hyphenated_uuid(s: Seq<char>) -> bool {
    &&& s.len() == 36
    &&& forall|i: int|
        0 <= i < 36 ==> if i == 8 || i == 13 || i == 18 || i == 23 {
            #[trigger] s[i] == '-'
        } else {
            is_lower_hex(s[i])
        }
}

/// The hyphenated form of a random (version 4, RFC 4122 variant) UUID: the
/// version digit `4` at position 14 and a variant digit `8`, `9`, `a` or `b`
/// at position 19.
pub open spec fn is_v4_uuid(s: Seq<char>) -> bool {
    &&& is_hyphenated_uuid(s)
    &&& s[14] == '4'
    &&& (s[19] == '8' || s[19] == '9' || s[19] == 'a' || s[19] == 'b')
}

/// A hyphenated UUID is never blank.
pub proof fn lemma_uuid_not_blank(s: Seq<char>)
    requires
        is_hyphenated_uuid(s),
    ensures
        !is_blank(s),
{
    assert(is_lower_hex(s[0]));
    assert(!is_white_space(s[0]));
}

/// `uuid::Uuid::new_v4().to_string()`: a fresh random identifier. The
/// crate sets the version bits to 4 and the variant bits to `10`, and its
/// `Display` writes the hyphenated lower-case form; which other digits come
/// out is random and is not stated.
#[verifier::external_body]
pub(crate) fn new_device_id() -> (id: String)
    ensures
        is_v4_uuid(id@),
{
    uuid::Uuid::new_v4().to_string()
}

// ---------------------------------------------------------------------------
// Configuration and server data
// ---------------------------------------------------------------------------

/// Local configuration of the agent.
#[derive(Clone, Debug)]
pub struct AppConfig {
    pub schema_version: u32,
    pub domain_url: String,
    pub branch_key: String,
    pub domain_locked: bool,
    pub locale: String,
    pub autostart: bool,
    pub open_drawer_after_print: bool,
    pub poll_ms: u64,
    pub idle_poll_ms: u64,
    /// server printer.id -> Windows printer name
    pub printer_mappings: AreaMap,
    /// server printer.id -> fallback Windows printer name
    pub backup_mappings: AreaMap,
    pub copies: u32,
    pub app_version: String,
    pub device_id: String,
    pub restaurant_name: Option<String>,
    pub branch_name: Option<String>,
}

impl AppConfig {
    /// The settings of a fresh installation, apart from its device id.
    pub open spec fn is_fresh(&self) -> bool {
        &&& self.schema_version == 1
        &&& self.domain_url@ == DOMAIN_URL@
        &&& self.branch_key@ == Seq::<char>::empty()
        &&& self.domain_locked
        &&& self.locale@ == "es"@
        &&& self.autostart
        &&& !self.open_drawer_after_print
        &&& self.poll_ms == 4_000
        &&& self.idle_poll_ms == 10_000
        &&& self.printer_mappings@ == Map::<Seq<char>, Seq<char>>::empty()
        &&& self.backup_mappings@ == Map::<Seq<char>, Seq<char>>::empty()
        &&& self.copies == 1
        &&& self.app_version@ == APP_VERSION@
        &&& is_v4_uuid(self.device_id@)
        &&& self.restaurant_name is None
        &&& self.branch_name is None
    }
}

impl Default for AppConfig {
    /// The configuration of a fresh installation, with a new device id.
    fn default() -> (cfg: Self)
        ensures
            cfg.is_fresh(),
    {
        AppConfig {
            schema_version: 1,
            domain_url: owned(DOMAIN_URL),
            branch_key: String::new(),
            domain_locked: true,
            locale: owned("es"),
            autostart: true,
            open_drawer_after_print: false,
            poll_ms: 4_000,
            idle_poll_ms: 10_000,
            printer_mappings: AreaMap::new(),
            backup_mappings: AreaMap::new(),
            copies: 1,
            app_version: owned(APP_VERSION),
            device_id: new_device_id(),
            restaurant_name: None,
            branch_name: None,
        }
    }
}

/// Answer of the connection test.
#[derive(Clone, Debug)]
pub struct ConnectionResult {
    pub ok: bool,
    pub message: String,
    pub recommended_poll_ms: Option<u64>,
    pub recommended_idle_poll_ms: Option<u64>,
    pub branch_name: Option<String>,
    pub restaurant_name: Option<String>,
    pub logo_url: Option<String>,
    pub locale: Option<String>,
}

/// A printer (area) as the server describes it.
#[derive(Clone, Debug)]
pub struct ServerPrinter {
    pub id: i64,
    pub name: String,
    pub printing_choice: Option<String>,
    pub print_type: Option<String>,
    pub print_format: Option<String>,
    pub share_name: Option<String>,
    pub printer_name: Option<String>,
    pub printer_type: Option<String>,
    pub open_cash_drawer: Option<bool>,
}

/// A printer installed on this machine.
#[derive(Clone, Debug)]
pub struct LocalPrinter {
    pub name: String,
    pub is_default: bool,
    pub is_network: bool,
    pub is_shared: bool,
    pub available: bool,
}

/// A print job handed out by the server.
#[derive(Clone, Debug)]
pub struct PrintJob {
    pub id: i64,
    pub branch_id: Option<i64>,
    pub restaurant_id: Option<i64>,
    pub printer_id: Option<i64>,
    pub status: Option<String>,
    pub image_filename: Option<String>,
    pub image_path: Option<String>,
    pub printer: Option<ServerPrinter>,
}

/// What the print service shows about itself.
#[derive(Clone, Debug)]
pub struct RuntimeStatus {
    pub running: bool,
    pub state: String,
    pub printed_today: u64,
    pub last_print_at: Option<String>,
    pub last_message: Option<String>,
}

impl Default for RuntimeStatus {
    /// A paused service that has printed nothing.
    fn default() -> (s: Self)
        ensures
            !s.running,
            s.state@ == "paused"@,
            s.printed_today == 0,
            s.last_print_at is None,
            s.last_message is None,
    {
        RuntimeStatus {
            running: false,
            state: owned("paused"),
            printed_today: 0,
            last_print_at: None,
            last_message: None,
        }
    }
}

/// The "about" panel.
#[derive(Clone, Debug)]
pub struct AboutInfo {
    pub app_name: String,
    pub version: String,
    pub company: String,
    pub device_id: String,
    pub domain_url: String,
}

/// The "about" panel for a configuration: fixed product data and the
/// configuration's device id.
pub fn about_info(cfg: &AppConfig) -> (info: AboutInfo)
    ensures
        info.app_name@ == "RestaAPP Printer"@,
        info.version@ == APP_VERSION@,
        info.company@ == "GRUPOOHLA SRL"@,
        info.device_id@ == cfg.device_id@,
        info.domain_url@ == DOMAIN_URL@,
{
    AboutInfo {
        app_name: owned("RestaAPP Printer"),
        version: owned(APP_VERSION),
        company: owned("GRUPOOHLA SRL"),
        device_id: cfg.device_id.clone(),
        domain_url: owned(DOMAIN_URL),
    }
}

} // verus!
