//! The library index (`<library>.index.toml`): per-file metadata keyed by the
//! file's path inside the library, with the operations that read and change
//! it, and the configuration that names the active library.
use vstd::prelude::*;
use crate::date::{is_date_text_of, today};
use crate::sort::{SortOrder, is_rearrangement, lemma_permutation_onto, sort_by, sorted_by};
use crate::text::{
    opt_view,
    chars_of, concat, has_prefix, lex_le, lemma_lex_antisym, lemma_lex_refl, lemma_lex_total,
    lemma_lex_trans, lines, lines_of, str_le, trim, trimmed, views,
};

verus! {

// ─── Configuration ───────────────────────────────────────────────────────────

/// The `[libraries]` table of `~/.basalto/config.toml`.
pub struct LibrariesConfig {
    pub active: String,
}

/// `~/.basalto/config.toml`, as far as this program reads it.
pub struct Config {
    pub libraries: LibrariesConfig,
}

impl Config {
    /// The configuration of a missing or unreadable file: no active library named.
    pub fn empty() -> (c: Config)
        ensures
            c.libraries.active@.len() == 0,
    {
        Config { libraries: LibrariesConfig { active: String::new() } }
    }
}

/// The name of the library in use: the configured one, or `main` when none is configured.
pub open spec fn active_library_name(configured: Seq<char>) -> Seq<char> {
    if configured.len() == 0 {
        "main"@
    } else {
        configured
    }
}

/// The name of the active library.
pub fn active_library(config: &Config) -> (r: String)
    ensures
        r@ == active_library_name(config.libraries.active@),
{
    let name = config.libraries.active.clone();
    if name.as_str().unicode_len() == 0 {
        String::from_str("main")
    } else {
        name
    }
}

/// Where a library's files are kept: `<home>/.basalto/cache/libraries/<library>`.
pub fn lib_path(home: &str, library: &str) -> (r: String)
    ensures
        r@ == home@ + "/.basalto/cache/libraries/"@ + library@,
{
    concat(concat(home, "/.basalto/cache/libraries/").as_str(), library)
}

/// Where a library's index is kept: `<home>/.basalto/<library>.index.toml`.
pub fn index_path(home: &str, library: &str) -> (r: String)
    ensures
        r@ == home@ + "/.basalto/"@ + library@ + ".index.toml"@,
{
    concat(concat(concat(home, "/.basalto/").as_str(), library).as_str(), ".index.toml")
}

// ─── Plugins ─────────────────────────────────────────────────────────────────

/// A plugin of the Basalto ecosystem and whether it is enabled.
pub struct PluginInfo {
    pub name: String,
    pub enabled: bool,
}

/// A plugin file without an `enabled` key counts as enabled.
pub fn default_true() -> (r: bool)
    ensures
        r,
{
    true
}

/// Plugins in order of name.
pub struct PluginsByName;

impl SortOrder<PluginInfo> for PluginsByName {
    open spec fn le(a: PluginInfo, b: PluginInfo) -> bool {
        lex_le(a.name@, b.name@)
    }

    proof fn lemma_total(a: PluginInfo, b: PluginInfo) {
        lemma_lex_total(a.name@, b.name@);
    }

    proof fn lemma_trans(a: PluginInfo, b: PluginInfo, c: PluginInfo) {
        lemma_lex_trans(a.name@, b.name@, c.name@);
    }

    fn le_exec(a: &PluginInfo, b: &PluginInfo) -> (r: bool) {
        str_le(a.name.as_str(), b.name.as_str())
    }
}

/// Whether `needle` occurs in `s` as a contiguous run.
pub open spec fn occurs_in(needle: Seq<char>, s: Seq<char>) -> bool {
    exists|i: int| 0 <= i <= s.len() - needle.len() && #[trigger] s.subrange(i, i + needle.len()) == needle
}

/// Whether `needle` occurs in `s` (std's `str::contains` with a string).
pub fn str_contains(s: &str, needle: &str) -> (r: bool)
    ensures
        r == occurs_in(needle@, s@),
{
    let v = chars_of(s);
    let n = chars_of(needle);
    if n.len() > v.len() {
        return false;
    }
    let last = v.len() - n.len();
    let mut i: usize = 0;
    while i <= last
        invariant
            v@ == s@,
            n@ == needle@,
            last == v.len() - n.len(),
            i <= last + 1,
            forall|j: int| 0 <= j < i ==> #[trigger] s@.subrange(j, j + n@.len()) != needle@,
        decreases last + 1 - i,
    {
        let mut k: usize = 0;
        while k < n.len() && v[i + k] == n[k]
            invariant
                i <= last,
                last == v.len() - n.len(),
                k <= n.len(),
                forall|j: int| 0 <= j < k ==> v@[i + j] == n@[j],
            decreases n.len() - k,
        {
            k = k + 1;
        }
        if k == n.len() {
            assert(s@.subrange(i as int, i + n@.len()) =~= needle@);
            return true;
        }
        assert(s@.subrange(i as int, i + n@.len())[k as int] != needle@[k as int]);
        i = i + 1;
    }
    false
}

/// Whether the terminal interface counts as configured: a library is
/// configured, or the configuration file has a `[tui]` table.
pub open spec fn tui_configured_spec(active: Seq<char>, config_text: Option<Seq<char>>) -> bool {
    active.len() != 0 || (config_text is Some && occurs_in("[tui]"@, config_text->0))
}

/// Whether the terminal interface counts as configured.
pub fn tui_configured(config: &Config, config_text: Option<String>) -> (r: bool)
    ensures
        r == tui_configured_spec(
            config.libraries.active@,
            match config_text {
                Some(t) => Some(t@),
                None => None,
            },
        ),
{
    if config.libraries.active.as_str().unicode_len() != 0 {
        return true;
    }
    match config_text {
        Some(t) => str_contains(t.as_str(), "[tui]"),
        None => false,
    }
}

/// The plugin list shown by the program: the plugins found, in order of
/// name, then `basalto-tui` itself, enabled when it is configured and installed.
pub fn plugin_list(found: Vec<PluginInfo>, tui_enabled: bool) -> (r: Vec<PluginInfo>)
    ensures
        r@.len() == found@.len() + 1,
        is_rearrangement(r@.drop_last(), found@),
        sorted_by::<PluginInfo, PluginsByName>(r@.drop_last()),
        forall|i: int, j: int| 0 <= i < j < r@.len() - 1 ==> lex_le(r@[i].name@, r@[j].name@),
        r@.last().name@ == "basalto-tui"@,
        r@.last().enabled == tui_enabled,
{
    let mut list = sort_by::<PluginInfo, PluginsByName>(found);
    let ghost sorted = list@;
    list.push(PluginInfo { name: String::from_str("basalto-tui"), enabled: tui_enabled });
    assert(list@.drop_last() =~= sorted);
    proof {
        lemma_plugins_ascending(sorted);
    }
    list
}

/// The plugin list: the plugins found in the plugins directory (each with
/// its `enabled` key), in order of name, then `basalto-tui` itself, enabled
/// when the interface is configured (by `config`, or by a `[tui]` table in
/// the configuration file's text `config_text`) and `installed` answers its
/// `--version`.
pub fn load_plugins(found: Vec<PluginInfo>, config: &Config, config_text: Option<String>, installed: bool) -> (r:
    Vec<PluginInfo>)
    ensures
        r@.len() == found@.len() + 1,
        is_rearrangement(r@.drop_last(), found@),
        sorted_by::<PluginInfo, PluginsByName>(r@.drop_last()),
        forall|i: int, j: int| 0 <= i < j < r@.len() - 1 ==> lex_le(r@[i].name@, r@[j].name@),
        r@.last().name@ == "basalto-tui"@,
        r@.last().enabled == (tui_configured_spec(config.libraries.active@, opt_view(config_text)) && installed),
{
    let ghost text = opt_view(config_text);
    let configured = tui_configured(config, config_text);
    assert(configured == tui_configured_spec(config.libraries.active@, text));
    plugin_list(found, configured && installed)
}

// ─── Entries ─────────────────────────────────────────────────────────────────

/// The metadata of one file of the library.
pub struct EntryMeta {
    pub description: String,
    pub tags: Vec<String>,
    /// Not stored in the index: set when a directory is listed.
    pub is_dir: bool,
    pub usos: u32,
    pub agregado: String,
}

/// The metadata of a file as values: the texts as character sequences.
#[verifier::ext_equal]
pub struct MetaView {
    pub description: Seq<char>,
    pub tags: Seq<Seq<char>>,
    pub is_dir: bool,
    pub usos: u32,
    pub agregado: Seq<char>,
}

impl View for EntryMeta {
    type V = MetaView;

    open spec fn view(&self) -> MetaView {
        MetaView {
            description: self.description@,
            tags: views(self.tags@),
            is_dir: self.is_dir,
            usos: self.usos,
            agregado: self.agregado@,
        }
    }
}

/// The metadata of a file that the index does not know.
pub open spec fn is_blank_meta(m: MetaView) -> bool {
    &&& m.description.len() == 0
    &&& m.tags.len() == 0
    &&& !m.is_dir
    &&& m.usos == 0
    &&& m.agregado.len() == 0
}

impl EntryMeta {
    /// Metadata with nothing filled in.
    pub fn blank() -> (m: EntryMeta)
        ensures
            is_blank_meta(m@),
    {
        let m = EntryMeta {
            description: String::new(),
            tags: Vec::new(),
            is_dir: false,
            usos: 0,
            agregado: String::new(),
        };
        assert(views(m.tags@) =~= Seq::<Seq<char>>::empty());
        m
    }

    /// A copy of this metadata.
    pub fn duplicate(&self) -> (m: EntryMeta)
        ensures
            m@ == self@,
    {
        let tags = self.tags.clone();
        assert(views(tags@) =~= views(self.tags@));
        EntryMeta {
            description: self.description.clone(),
            tags,
            is_dir: self.is_dir,
            usos: self.usos,
            agregado: self.agregado.clone(),
        }
    }
}

impl Default for EntryMeta {
    fn default() -> (m: EntryMeta)
        ensures
            is_blank_meta(m@),
    {
        EntryMeta::blank()
    }
}

/// A copy of an index entry.
pub fn duplicate_entry(e: &(String, EntryMeta)) -> (r: (String, EntryMeta))
    ensures
        r.0@ == e.0@,
        r.1@ == e.1@,
{
    (e.0.clone(), e.1.duplicate())
}

/// Entries in order of key.
pub struct EntriesByKey;

impl SortOrder<(String, EntryMeta)> for EntriesByKey {
    open spec fn le(a: (String, EntryMeta), b: (String, EntryMeta)) -> bool {
        lex_le(a.0@, b.0@)
    }

    proof fn lemma_total(a: (String, EntryMeta), b: (String, EntryMeta)) {
        lemma_lex_total(a.0@, b.0@);
    }

    proof fn lemma_trans(a: (String, EntryMeta), b: (String, EntryMeta), c: (String, EntryMeta)) {
        lemma_lex_trans(a.0@, b.0@, c.0@);
    }

    fn le_exec(a: &(String, EntryMeta), b: &(String, EntryMeta)) -> (r: bool) {
        str_le(a.0.as_str(), b.0.as_str())
    }
}

/// The index of a library: metadata keyed by path, each key at most once.
pub struct LibraryIndex {
    pub files: Vec<(String, EntryMeta)>,
}

/// No key occurs twice in `s`.
pub open spec fn unique_keys(s: Seq<(String, EntryMeta)>) -> bool {
    forall|i: int, j: int| 0 <= i < j < s.len() ==> s[i].0@ != s[j].0@
}

/// The index of the entry with key `k` in `s`, when there is one.
pub open spec fn has_key(s: Seq<(String, EntryMeta)>, k: Seq<char>) -> bool {
    exists|i: int| 0 <= i < s.len() && #[trigger] s[i].0@ == k
}

impl LibraryIndex {
    /// The index holds each key at most once.
    pub open spec fn wf(&self) -> bool {
        unique_keys(self.files@)
    }

    /// The index as a map from key to metadata.
    pub open spec fn view(&self) -> Map<Seq<char>, MetaView> {
        Map::new(
            |k: Seq<char>| has_key(self.files@, k),
            |k: Seq<char>|
                self.files@[choose|i: int| 0 <= i < self.files@.len() && #[trigger] self.files@[i].0@ == k].1@,
        )
    }

    /// An index with no entries.
    pub fn new() -> (r: LibraryIndex)
        ensures
            r.wf(),
            r.view() == Map::<Seq<char>, MetaView>::empty(),
    {
        let r = LibraryIndex { files: Vec::new() };
        assert(r.view() =~= Map::<Seq<char>, MetaView>::empty());
        r
    }

    /// In a well-formed index, the entry at `i` is what the map gives for its key.
    pub proof fn lemma_view_at(&self, i: int)
        requires
            self.wf(),
            0 <= i < self.files@.len(),
        ensures
            self.view().contains_key(self.files@[i].0@),
            self.view()[self.files@[i].0@] == self.files@[i].1@,
    {
        let k = self.files@[i].0@;
        assert(has_key(self.files@, k));
        let j = choose|j: int| 0 <= j < self.files@.len() && #[trigger] self.files@[j].0@ == k;
        if j != i {
            if j < i {
                assert(self.files@[j].0@ != self.files@[i].0@);
            } else {
                assert(self.files@[i].0@ != self.files@[j].0@);
            }
        }
    }

    /// Where the entry with key `key` is, if the index has one.
    pub fn position(&self, key: &str) -> (r: Option<usize>)
        requires
            self.wf(),
        ensures
            match r {
                Some(i) => i < self.files@.len() && self.files@[i as int].0@ == key@,
                None => !self.view().contains_key(key@),
            },
    {
        let n = self.files.len();
        for i in 0..n
            invariant
                n == self.files.len(),
                forall|j: int| 0 <= j < i ==> self.files@[j].0@ != key@,
        {
            if self.files[i].0 == String::from_str(key) {
                return Some(i);
            }
        }
        None
    }

    /// The metadata of `key`, if the index has it.
    pub fn get(&self, key: &str) -> (r: Option<&EntryMeta>)
        requires
            self.wf(),
        ensures
            match r {
                Some(m) => self.view().contains_key(key@) && m@ == self.view()[key@],
                None => !self.view().contains_key(key@),
            },
    {
        match self.position(key) {
            Some(i) => {
                proof {
                    self.lemma_view_at(i as int);
                }
                Some(&self.files[i].1)
            },
            None => None,
        }
    }

    /// Sets the metadata of `key`, adding the key when it is new.
    pub fn insert(&mut self, key: String, meta: EntryMeta)
        requires
            old(self).wf(),
        ensures
            final(self).wf(),
            final(self).view() == old(self).view().insert(key@, meta@),
    {
        let ghost k = key@;
        let ghost m = meta@;
        match self.position(key.as_str()) {
            Some(i) => {
                self.files.set(i, (key, meta));
                proof {
                    assert forall|a: int, b: int| 0 <= a < b < self.files@.len() implies self.files@[a].0@
                        != self.files@[b].0@ by {
                        assert(old(self).files@[a].0@ != old(self).files@[b].0@);
                    }
                    self.lemma_view_at(i as int);
                    assert forall|kk: Seq<char>| #[trigger] self.view().contains_key(kk) == old(
                        self,
                    ).view().insert(k, m).contains_key(kk) by {
                        if has_key(old(self).files@, kk) {
                            let j = choose|j: int| 0 <= j < old(self).files@.len() && #[trigger] old(self).files@[j].0@ == kk;
                            if j == i {
                                assert(self.files@[j].0@ == kk);
                            } else {
                                assert(self.files@[j].0@ == kk);
                            }
                        }
                        if has_key(self.files@, kk) {
                            let j = choose|j: int| 0 <= j < self.files@.len() && #[trigger] self.files@[j].0@ == kk;
                            if j != i {
                                assert(old(self).files@[j].0@ == kk);
                            }
                        }
                    }
                    assert forall|kk: Seq<char>| #[trigger] self.view().contains_key(kk) implies self.view()[kk]
                        == old(self).view().insert(k, m)[kk] by {
                        let j = choose|j: int| 0 <= j < self.files@.len() && #[trigger] self.files@[j].0@ == kk;
                        self.lemma_view_at(j);
                        if j != i {
                            old(self).lemma_view_at(j);
                        }
                    }
                    assert(self.view() =~= old(self).view().insert(k, m));
                }
            },
            None => {
                self.files.push((key, meta));
                proof {
                    let n = old(self).files@.len() as int;
                    assert forall|a: int, b: int| 0 <= a < b < self.files@.len() implies self.files@[a].0@
                        != self.files@[b].0@ by {
                        if b == n {
                            assert(old(self).files@[a].0@ != k) by {
                                if old(self).files@[a].0@ == k {
                                    assert(has_key(old(self).files@, k));
                                }
                            }
                        } else {
                            assert(old(self).files@[a].0@ != old(self).files@[b].0@);
                        }
                    }
                    self.lemma_view_at(n);
                    assert forall|kk: Seq<char>| #[trigger] self.view().contains_key(kk) == old(
                        self,
                    ).view().insert(k, m).contains_key(kk) by {
                        if has_key(old(self).files@, kk) {
                            let j = choose|j: int| 0 <= j < old(self).files@.len() && #[trigger] old(self).files@[j].0@ == kk;
                            assert(self.files@[j].0@ == kk);
                        }
                        if has_key(self.files@, kk) {
                            let j = choose|j: int| 0 <= j < self.files@.len() && #[trigger] self.files@[j].0@ == kk;
                            if j != n {
                                assert(old(self).files@[j].0@ == kk);
                            }
                        }
                    }
                    assert forall|kk: Seq<char>| #[trigger] self.view().contains_key(kk) implies self.view()[kk]
                        == old(self).view().insert(k, m)[kk] by {
                        let j = choose|j: int| 0 <= j < self.files@.len() && #[trigger] self.files@[j].0@ == kk;
                        self.lemma_view_at(j);
                        if j != n {
                            old(self).lemma_view_at(j);
                        }
                    }
                    assert(self.view() =~= old(self).view().insert(k, m));
                }
            },
        }
    }

    /// Removes the entry of `key`, if there is one.
    pub fn remove(&mut self, key: &str)
        requires
            old(self).wf(),
        ensures
            final(self).wf(),
            final(self).view() == old(self).view().remove(key@),
    {
        let ghost k = key@;
        match self.position(key) {
            Some(i) => {
                self.files.remove(i);
                proof {
                    let o = old(self).files@;
                    assert forall|a: int, b: int| 0 <= a < b < self.files@.len() implies self.files@[a].0@
                        != self.files@[b].0@ by {
                        let oa = if a < i { a } else { a + 1 };
                        let ob = if b < i { b } else { b + 1 };
                        assert(o[oa].0@ != o[ob].0@);
                    }
                    assert forall|kk: Seq<char>| #[trigger] self.view().contains_key(kk) == old(
                        self,
                    ).view().remove(k).contains_key(kk) by {
                        if has_key(o, kk) && kk != k {
                            let j = choose|j: int| 0 <= j < o.len() && #[trigger] o[j].0@ == kk;
                            if j < i {
                                assert(self.files@[j].0@ == kk);
                            } else {
                                assert(j != i);
                                assert(self.files@[j - 1].0@ == kk);
                            }
                        }
                        if has_key(self.files@, kk) {
                            let j = choose|j: int| 0 <= j < self.files@.len() && #[trigger] self.files@[j].0@ == kk;
                            let oj = if j < i { j } else { j + 1 };
                            assert(o[oj].0@ == kk);
                            assert(kk != k) by {
                                if kk == k {
                                    assert(o[i as int].0@ == k);
                                    if oj < i {
                                        assert(o[oj].0@ != o[i as int].0@);
                                    } else {
                                        assert(o[i as int].0@ != o[oj].0@);
                                    }
                                }
                            }
                        }
                    }
                    assert forall|kk: Seq<char>| #[trigger] self.view().contains_key(kk) implies self.view()[kk]
                        == old(self).view().remove(k)[kk] by {
                        let j = choose|j: int| 0 <= j < self.files@.len() && #[trigger] self.files@[j].0@ == kk;
                        self.lemma_view_at(j);
                        let oj = if j < i { j } else { j + 1 };
                        old(self).lemma_view_at(oj);
                    }
                    assert(self.view() =~= old(self).view().remove(k));
                }
            },
            None => {
                assert(self.view() =~= old(self).view().remove(k));
            },
        }
    }
}

/// Adds `key` to the index with the given description and tags, no uses, and
/// today's date, replacing what the index held for it.
pub fn add_entry(files: &mut LibraryIndex, key: &str, desc: &str, tags: Vec<String>)
    requires
        old(files).wf(),
    ensures
        final(files).wf(),
        final(files).view().dom() == old(files).view().dom().insert(key@),
        forall|k: Seq<char>| k != key@ ==> #[trigger] final(files).view().contains_key(k) ==> final(files).view()[k]
            == old(files).view()[k],
        final(files).view()[key@].description == desc@,
        final(files).view()[key@].tags == views(tags@),
        !final(files).view()[key@].is_dir,
        final(files).view()[key@].usos == 0,
        exists|secs: u64| is_date_text_of(final(files).view()[key@].agregado, secs),
{
    let ghost tv = views(tags@);
    let agregado = today();
    let ghost secs = choose|secs: u64| is_date_text_of(agregado@, secs);
    let meta = EntryMeta { description: String::from_str(desc), tags, is_dir: false, usos: 0, agregado };
    let ghost m = meta@;
    files.insert(String::from_str(key), meta);
    assert(files.view()[key@] == m);
    assert(is_date_text_of(files.view()[key@].agregado, secs));
}

/// Counts one more use of `key`, if the index has it.
pub fn increment_usos(files: &mut LibraryIndex, key: &str)
    requires
        old(files).wf(),
        old(files).view().contains_key(key@) ==> old(files).view()[key@].usos < u32::MAX,
    ensures
        final(files).wf(),
        !old(files).view().contains_key(key@) ==> final(files).view() == old(files).view(),
        old(files).view().contains_key(key@) ==> final(files).view() == old(files).view().insert(
            key@,
            MetaView { usos: (old(files).view()[key@].usos + 1) as u32, ..old(files).view()[key@] },
        ),
{
    match files.position(key) {
        Some(i) => {
            proof {
                files.lemma_view_at(i as int);
            }
            let (k, mut meta) = files.files.remove(i);
            meta.usos = meta.usos + 1;
            files.files.insert(i, (k, meta));
            proof {
                assert forall|a: int| 0 <= a < files.files@.len() && a != i implies #[trigger] files.files@[a]
                    == old(files).files@[a] by {}
                assert forall|a: int, b: int| 0 <= a < b < files.files@.len() implies files.files@[a].0@
                    != files.files@[b].0@ by {
                    assert(old(files).files@[a].0@ != old(files).files@[b].0@);
                }
                let new_m = files.files@[i as int].1@;
                let k2 = key@;
                assert forall|kk: Seq<char>| #[trigger] files.view().contains_key(kk) == old(
                    files,
                ).view().contains_key(kk) by {
                    if has_key(old(files).files@, kk) {
                        let j = choose|j: int| 0 <= j < old(files).files@.len() && #[trigger] old(files).files@[j].0@ == kk;
                        assert(files.files@[j].0@ == kk);
                    }
                    if has_key(files.files@, kk) {
                        let j = choose|j: int| 0 <= j < files.files@.len() && #[trigger] files.files@[j].0@ == kk;
                        assert(old(files).files@[j].0@ == kk);
                    }
                }
                assert forall|kk: Seq<char>| #[trigger] files.view().contains_key(kk) implies files.view()[kk]
                    == old(files).view().insert(k2, new_m)[kk] by {
                    let j = choose|j: int| 0 <= j < files.files@.len() && #[trigger] files.files@[j].0@ == kk;
                    files.lemma_view_at(j);
                    old(files).lemma_view_at(j);
                }
                assert(files.view() =~= old(files).view().insert(k2, new_m));
            }
        },
        None => {},
    }
}

/// Removes `key` from the index.
pub fn remove_entry(files: &mut LibraryIndex, key: &str)
    requires
        old(files).wf(),
    ensures
        final(files).wf(),
        final(files).view() == old(files).view().remove(key@),
{
    files.remove(key);
}

/// `entries` lists exactly the entries of `files`, each once, in order of key.
pub open spec fn lists_index(entries: Seq<(String, EntryMeta)>, files: Map<Seq<char>, MetaView>) -> bool {
    &&& forall|i: int| 0 <= i < entries.len() ==> files.contains_key(#[trigger] entries[i].0@)
        && files[entries[i].0@] == entries[i].1@
    &&& forall|k: Seq<char>| #[trigger] files.contains_key(k) ==> exists|i: int|
        0 <= i < entries.len() && #[trigger] entries[i].0@ == k
    &&& forall|i: int, j: int| 0 <= i < j < entries.len() ==> entries[i].0@ != entries[j].0@
    &&& sorted_by::<(String, EntryMeta), EntriesByKey>(entries)
    &&& forall|i: int, j: int| 0 <= i < j < entries.len() ==> lex_le(entries[i].0@, entries[j].0@)
}

/// Every entry of the index, in order of key.
pub fn load_all_entries(files: &LibraryIndex) -> (r: Vec<(String, EntryMeta)>)
    requires
        files.wf(),
    ensures
        lists_index(r@, files.view()),
        r@.len() == files.files@.len(),
{
    let mut copy: Vec<(String, EntryMeta)> = Vec::new();
    let n = files.files.len();
    let mut i: usize = 0;
    while i < n
        invariant
            n == files.files.len(),
            i <= n,
            copy@.len() == i,
            forall|j: int| 0 <= j < i ==> (#[trigger] copy@[j]).0@ == files.files@[j].0@ && copy@[j].1@
                == files.files@[j].1@,
        decreases n - i,
    {
        copy.push(duplicate_entry(&files.files[i]));
        i = i + 1;
    }
    let ghost c = copy@;
    let r = sort_by::<(String, EntryMeta), EntriesByKey>(copy);
    proof {
        lemma_entries_ascending(r@);
    }
    proof {
        let p = choose|p: Seq<int>| crate::sort::is_permutation(p, c.len()) && r@.len() == c.len() && forall|i: int|
            0 <= i < r@.len() ==> #[trigger] r@[i] == c[p[i]];
        assert forall|i: int| 0 <= i < r@.len() implies files.view().contains_key(#[trigger] r@[i].0@)
            && files.view()[r@[i].0@] == r@[i].1@ by {
            assert(r@[i] == c[p[i]]);
            files.lemma_view_at(p[i]);
        }
        assert forall|k: Seq<char>| #[trigger] files.view().contains_key(k) implies exists|i: int|
            0 <= i < r@.len() && #[trigger] r@[i].0@ == k by {
            let j = choose|j: int| 0 <= j < files.files@.len() && #[trigger] files.files@[j].0@ == k;
            lemma_permutation_onto(p, c.len(), j);
            let i = choose|i: int| 0 <= i < c.len() && p[i] == j;
            assert(r@[i] == c[p[i]]);
            assert(c[j].0@ == k);
        }
        assert forall|i: int, j: int| 0 <= i < j < r@.len() implies r@[i].0@ != r@[j].0@ by {
            assert(r@[i] == c[p[i]]);
            assert(r@[j] == c[p[j]]);
            if p[i] < p[j] {
                assert(files.files@[p[i]].0@ != files.files@[p[j]].0@);
            } else {
                assert(files.files@[p[j]].0@ != files.files@[p[i]].0@);
            }
        }
    }
    r
}

// ─── Tags ────────────────────────────────────────────────────────────────────

/// How many times the tag `t` occurs in `tags`.
pub open spec fn count_tag(tags: Seq<String>, t: Seq<char>) -> nat
    decreases tags.len(),
{
    if tags.len() == 0 {
        0
    } else {
        count_tag(tags.drop_last(), t) + if tags.last()@ == t {
            1nat
        } else {
            0nat
        }
    }
}

/// How many times the tag `t` occurs over all the entries of `entries`.
pub open spec fn tag_total(entries: Seq<(String, EntryMeta)>, t: Seq<char>) -> nat
    decreases entries.len(),
{
    if entries.len() == 0 {
        0
    } else {
        tag_total(entries.drop_last(), t) + count_tag(entries.last().1.tags@, t)
    }
}

/// How many tags the entries carry in all.
pub open spec fn tags_in_all(entries: Seq<(String, EntryMeta)>) -> nat
    decreases entries.len(),
{
    if entries.len() == 0 {
        0
    } else {
        tags_in_all(entries.drop_last()) + entries.last().1.tags@.len()
    }
}

/// Tags by number of uses, most used first, then by name.
pub struct TagsByUse;

impl SortOrder<(String, usize)> for TagsByUse {
    open spec fn le(a: (String, usize), b: (String, usize)) -> bool {
        a.1 > b.1 || (a.1 == b.1 && lex_le(a.0@, b.0@))
    }

    proof fn lemma_total(a: (String, usize), b: (String, usize)) {
        lemma_lex_total(a.0@, b.0@);
    }

    proof fn lemma_trans(a: (String, usize), b: (String, usize), c: (String, usize)) {
        if a.1 == b.1 && b.1 == c.1 {
            lemma_lex_trans(a.0@, b.0@, c.0@);
        }
    }

    fn le_exec(a: &(String, usize), b: &(String, usize)) -> (r: bool) {
        a.1 > b.1 || (a.1 == b.1 && str_le(a.0.as_str(), b.0.as_str()))
    }
}

/// `counts` gives, once each, every tag that occurs in `entries` with its
/// number of occurrences.
pub open spec fn counts_tags(counts: Seq<(String, usize)>, entries: Seq<(String, EntryMeta)>) -> bool {
    &&& forall|i: int, j: int| 0 <= i < j < counts.len() ==> counts[i].0@ != counts[j].0@
    &&& forall|i: int| 0 <= i < counts.len() ==> #[trigger] counts[i].1 == tag_total(entries, counts[i].0@)
        && counts[i].1 > 0
    &&& forall|t: Seq<char>| #[trigger] tag_total(entries, t) > 0 ==> exists|i: int|
        0 <= i < counts.len() && #[trigger] counts[i].0@ == t
}

/// Counting a tag over the entries taken so far, one tag more.
proof fn lemma_count_step(tags: Seq<String>, k: int, t: Seq<char>)
    requires
        0 <= k < tags.len(),
    ensures
        count_tag(tags.take(k + 1), t) == count_tag(tags.take(k), t) + if tags[k]@ == t {
            1nat
        } else {
            0nat
        },
{
    assert(tags.take(k + 1).drop_last() =~= tags.take(k));
}

/// The tags of the index with how often each is used, most used first.
pub fn load_all_tags(files: &LibraryIndex) -> (r: Vec<(String, usize)>)
    requires
        tags_in_all(files.files@) <= usize::MAX,
    ensures
        counts_tags(r@, files.files@),
        sorted_by::<(String, usize), TagsByUse>(r@),
        forall|i: int, j: int|
            0 <= i < j < r@.len() ==> r@[i].1 > r@[j].1 || (r@[i].1 == r@[j].1 && lex_le(r@[i].0@, r@[j].0@)),
{
    let mut counts: Vec<(String, usize)> = Vec::new();
    let n = files.files.len();
    for e in 0..n
        invariant
            n == files.files.len(),
            tags_in_all(files.files@) <= usize::MAX,
            counts_tags(counts@, files.files@.take(e as int)),
            tags_in_all(files.files@.take(e as int)) <= tags_in_all(files.files@),
            forall|i: int| 0 <= i < counts.len() ==> #[trigger] counts@[i].1 <= tags_in_all(files.files@.take(e as int)),
    {
        let ghost done = files.files@.take(e as int);
        let ghost next = files.files@.take(e + 1);
        assert(next.drop_last() =~= done);
        let tags = &files.files[e].1.tags;
        let m = tags.len();
        proof {
            lemma_tags_in_all_prefix(files.files@, e + 1);
        }
        for k in 0..m
            invariant
                n == files.files.len(),
                e < n,
                m == tags.len(),
                *tags == files.files@[e as int].1.tags,
                next == files.files@.take(e + 1),
                done == files.files@.take(e as int),
                next.drop_last() == done,
                tags_in_all(next) <= usize::MAX,
                tags_in_all(next) == tags_in_all(done) + tags@.len(),
                forall|i: int, j: int| 0 <= i < j < counts.len() ==> counts@[i].0@ != counts@[j].0@,
                forall|i: int| 0 <= i < counts.len() ==> #[trigger] counts@[i].1 == tag_total(done, counts@[i].0@)
                    + count_tag(tags@.take(k as int), counts@[i].0@) && counts@[i].1 > 0,
                forall|t: Seq<char>| tag_total(done, t) + count_tag(tags@.take(k as int), t) > 0 ==> exists|i: int|
                    0 <= i < counts.len() && #[trigger] counts@[i].0@ == t,
                forall|i: int| 0 <= i < counts.len() ==> #[trigger] counts@[i].1 <= tags_in_all(done) + k,
        {
            let tag = &tags[k];
            proof {
                lemma_count_step(tags@, k as int, tag@);
                assert forall|t: Seq<char>| t != tag@ implies count_tag(tags@.take(k + 1), t) == count_tag(
                    tags@.take(k as int),
                    t,
                ) by {
                    lemma_count_step(tags@, k as int, t);
                }
            }
            let mut found: Option<usize> = None;
            let c = counts.len();
            for p in 0..c
                invariant
                    c == counts.len(),
                    found is None ==> forall|j: int| 0 <= j < p ==> counts@[j].0@ != tag@,
                    found matches Some(q) ==> q < c && counts@[q as int].0@ == tag@,
            {
                if found.is_none() && counts[p].0 == *tag {
                    found = Some(p);
                }
            }
            let ghost before = counts@;
            match found {
                Some(q) => {
                    let (name, cnt) = counts.remove(q);
                    counts.insert(q, (name, cnt + 1));
                    proof {
                        assert(counts@[q as int].0@ == tag@);
                        assert(counts@ =~= before.update(q as int, (before[q as int].0, (before[q as int].1 + 1) as usize)));
                        assert forall|i: int| 0 <= i < counts.len() implies #[trigger] counts@[i].1 == tag_total(
                            done,
                            counts@[i].0@,
                        ) + count_tag(tags@.take(k + 1), counts@[i].0@) && counts@[i].1 > 0 by {
                            lemma_count_step(tags@, k as int, counts@[i].0@);
                            if i != q {
                                assert(before[i].0@ != tag@) by {
                                    if i < q {
                                        assert(before[i].0@ != before[q as int].0@);
                                    } else {
                                        assert(before[q as int].0@ != before[i].0@);
                                    }
                                }
                            }
                        }
                    }
                },
                None => {
                    counts.push((tag.clone(), 1));
                    proof {
                        assert(counts@[before.len() as int].0@ == tag@);
                        assert(tag_total(done, tag@) + count_tag(tags@.take(k as int), tag@) == 0) by {
                            if tag_total(done, tag@) + count_tag(tags@.take(k as int), tag@) > 0 {
                                let i = choose|i: int| 0 <= i < before.len() && #[trigger] before[i].0@ == tag@;
                            }
                        }
                        assert forall|i: int| 0 <= i < counts.len() implies #[trigger] counts@[i].1 == tag_total(
                            done,
                            counts@[i].0@,
                        ) + count_tag(tags@.take(k + 1), counts@[i].0@) && counts@[i].1 > 0 by {
                            lemma_count_step(tags@, k as int, counts@[i].0@);
                            if i < before.len() {
                                assert(before[i].0@ != tag@);
                            }
                        }
                    }
                },
            }
            proof {
                assert(exists|i: int| 0 <= i < counts.len() && #[trigger] counts@[i].0@ == tag@);
                assert(counts.len() >= before.len());
                assert(forall|i: int| 0 <= i < before.len() ==> #[trigger] counts@[i].0@ == before[i].0@);
                assert forall|t: Seq<char>| tag_total(done, t) + count_tag(tags@.take(k + 1), t) > 0 implies exists|i: int|
                    0 <= i < counts.len() && #[trigger] counts@[i].0@ == t by {
                    lemma_count_step(tags@, k as int, t);
                    if t == tag@ {
                    } else {
                        let i = choose|i: int| 0 <= i < before.len() && #[trigger] before[i].0@ == t;
                        assert(counts@[i].0@ == t);
                    }
                }
            }
        }
        proof {
            assert(tags@.take(m as int) =~= tags@);
            assert(next.last().1.tags@ == tags@);
            assert forall|t: Seq<char>| #[trigger] tag_total(next, t) == tag_total(done, t) + count_tag(tags@, t) by {}
            assert forall|i: int| 0 <= i < counts.len() implies #[trigger] counts@[i].1 == tag_total(next, counts@[i].0@)
                && counts@[i].1 > 0 by {
                assert(tag_total(next, counts@[i].0@) == tag_total(done, counts@[i].0@) + count_tag(tags@, counts@[i].0@));
            }
            assert forall|t: Seq<char>| #[trigger] tag_total(next, t) > 0 implies exists|i: int|
                0 <= i < counts.len() && #[trigger] counts@[i].0@ == t by {
                assert(tag_total(next, t) == tag_total(done, t) + count_tag(tags@, t));
            }
            assert(counts_tags(counts@, next));
        }
    }
    assert(files.files@.take(n as int) =~= files.files@);
    let r = sort_tags(counts, Ghost(files.files@));
    proof {
        lemma_tags_by_use(r@);
    }
    r
}

/// The tags of all entries are at least those of a prefix of them.
proof fn lemma_tags_in_all_prefix(s: Seq<(String, EntryMeta)>, k: int)
    requires
        0 <= k <= s.len(),
    ensures
        tags_in_all(s.take(k)) <= tags_in_all(s),
        k > 0 ==> tags_in_all(s.take(k)) == tags_in_all(s.take(k - 1)) + s[k - 1].1.tags@.len(),
    decreases s.len() - k,
{
    if k > 0 {
        assert(s.take(k).drop_last() =~= s.take(k - 1));
    }
    if k < s.len() {
        lemma_tags_in_all_prefix(s, k + 1);
    } else {
        assert(s.take(k) =~= s);
    }
}

/// Sorts tag counts, keeping what they count.
fn sort_tags(counts: Vec<(String, usize)>, Ghost(entries): Ghost<Seq<(String, EntryMeta)>>) -> (r: Vec<(String, usize)>)
    requires
        counts_tags(counts@, entries),
    ensures
        counts_tags(r@, entries),
        sorted_by::<(String, usize), TagsByUse>(r@),
{
    broadcast use vstd::seq_lib::group_to_multiset_ensures;

    let r = sort_by::<(String, usize), TagsByUse>(counts);
    proof {
        assert forall|i: int| 0 <= i < r@.len() implies counts@.contains(#[trigger] r@[i]) by {
            assert(r@.to_multiset().count(r@[i]) > 0);
        }
        assert forall|i: int, j: int| 0 <= i < j < r@.len() implies r@[i].0@ != r@[j].0@ by {
            let a = choose|a: int| 0 <= a < counts@.len() && counts@[a] == r@[i];
            let b = choose|b: int| 0 <= b < counts@.len() && counts@[b] == r@[j];
            if r@[i].0@ == r@[j].0@ {
                assert(a == b) by {
                    if a < b {
                        assert(counts@[a].0@ != counts@[b].0@);
                    } else if b < a {
                        assert(counts@[b].0@ != counts@[a].0@);
                    }
                }
                assert(r@[i] == r@[j]);
                assert(r@.to_multiset().count(r@[i]) >= 2) by {
                    lemma_count_two(r@, i, j);
                }
                assert(counts@.to_multiset().count(r@[i]) <= 1) by {
                    lemma_unique_count(counts@, a);
                }
            }
        }
        assert forall|t: Seq<char>| #[trigger] tag_total(entries, t) > 0 implies exists|i: int|
            0 <= i < r@.len() && #[trigger] r@[i].0@ == t by {
            let a = choose|a: int| 0 <= a < counts@.len() && #[trigger] counts@[a].0@ == t;
            assert(counts@.to_multiset().count(counts@[a]) > 0);
            assert(r@.contains(counts@[a]));
        }
    }
    r
}

/// Two positions holding the same element count twice.
proof fn lemma_count_two<A>(s: Seq<A>, i: int, j: int)
    requires
        0 <= i < j < s.len(),
        s[i] == s[j],
    ensures
        s.to_multiset().count(s[i]) >= 2,
{
    broadcast use vstd::seq_lib::group_to_multiset_ensures;

    let s1 = s.remove(j);
    assert(s1[i] == s[i]);
    assert(s1.to_multiset().count(s[i]) >= 1);
    assert(s.to_multiset().count(s[i]) == s1.to_multiset().count(s[i]) + 1);
}

/// In a list of tag counts with distinct names, each element occurs once.
proof fn lemma_unique_count(s: Seq<(String, usize)>, a: int)
    requires
        0 <= a < s.len(),
        forall|i: int, j: int| 0 <= i < j < s.len() ==> s[i].0@ != s[j].0@,
    ensures
        s.to_multiset().count(s[a]) <= 1,
{
    broadcast use vstd::seq_lib::group_to_multiset_ensures;

    let s1 = s.remove(a);
    assert(!s1.contains(s[a])) by {
        if s1.contains(s[a]) {
            let k = choose|k: int| 0 <= k < s1.len() && s1[k] == s[a];
            let ok = if k < a { k } else { k + 1 };
            assert(s[ok] == s[a]);
            if ok < a {
                assert(s[ok].0@ != s[a].0@);
            } else {
                assert(s[a].0@ != s[ok].0@);
            }
        }
    }
    assert(s1.to_multiset().count(s[a]) == 0);
}

// ─── Pushing the library ─────────────────────────────────────────────────────

/// Whether a line holds only white space.
pub open spec fn is_blank(l: Seq<char>) -> bool {
    trimmed(l).len() == 0
}

/// The lines of a `git push` report: its output lines then its error lines,
/// blank lines dropped, and a verdict line when nothing else is left.
pub open spec fn push_report(out: Seq<char>, err: Seq<char>, success: bool) -> Seq<Seq<char>> {
    let all = lines_of(out) + lines_of(err);
    let kept = all.filter(|l: Seq<char>| !is_blank(l));
    if kept.len() == 0 {
        seq![
            if success {
                "✓ push exitoso"@
            } else {
                "✗ push falló"@
            },
        ]
    } else {
        kept
    }
}

/// The lines to show after `git push` ran with the given output, error
/// output and exit status.
pub fn push_output_lines(out: &str, err: &str, success: bool) -> (r: Vec<String>)
    ensures
        views(r@) == push_report(out@, err@, success),
{
    let mut all = lines(out);
    let mut e = lines(err);
    let ghost a0 = views(all@);
    let ghost e0 = views(e@);
    all.append(&mut e);
    assert(views(all@) =~= a0 + e0);
    let ghost full = views(all@);
    let mut kept: Vec<String> = Vec::new();
    let n = all.len();
    for i in 0..n
        invariant
            n == all.len(),
            full == views(all@),
            views(kept@) == full.take(i as int).filter(|l: Seq<char>| !is_blank(l)),
    {
        let t = trim(all[i].as_str());
        let ghost before = views(kept@);
        assert(full.take(i + 1).drop_last() =~= full.take(i as int));
        proof {
            reveal_with_fuel(Seq::filter, 1);
        }
        if t.as_str().unicode_len() != 0 {
            kept.push(all[i].clone());
            assert(views(kept@) =~= before.push(full[i as int]));
        } else {
            assert(views(kept@) =~= before);
        }
    }
    assert(full.take(n as int) =~= full);
    if kept.len() == 0 {
        let msg = if success {
            String::from_str("✓ push exitoso")
        } else {
            String::from_str("✗ push falló")
        };
        let mut r = Vec::new();
        r.push(msg);
        assert(views(r@) =~= push_report(out@, err@, success));
        r
    } else {
        kept
    }
}

/// The report when `git push` could not be run at all.
pub fn push_error_lines(err: &str) -> (r: Vec<String>)
    ensures
        views(r@) == seq!["error: "@ + err@],
{
    let mut r = Vec::new();
    r.push(concat("error: ", err));
    assert(views(r@) =~= seq!["error: "@ + err@]);
    r
}

/// The report of `git push`: its output, error output and whether it
/// succeeded, or the error that kept it from running.
pub fn run_push(outcome: Result<(String, String, bool), String>) -> (r: Vec<String>)
    ensures
        views(r@) == match outcome {
            Ok((out, err, success)) => push_report(out@, err@, success),
            Err(e) => seq!["error: "@ + e@],
        },
{
    match outcome {
        Ok((out, err, success)) => push_output_lines(out.as_str(), err.as_str(), success),
        Err(e) => push_error_lines(e.as_str()),
    }
}

// ─── Directory listings ──────────────────────────────────────────────────────

/// Listing items in display order: directories before files, each group by name.
pub struct DirsFirst;

impl SortOrder<(String, bool)> for DirsFirst {
    open spec fn le(a: (String, bool), b: (String, bool)) -> bool {
        (a.1 && !b.1) || (a.1 == b.1 && lex_le(a.0@, b.0@))
    }

    proof fn lemma_total(a: (String, bool), b: (String, bool)) {
        lemma_lex_total(a.0@, b.0@);
    }

    proof fn lemma_trans(a: (String, bool), b: (String, bool), c: (String, bool)) {
        if a.1 == b.1 && b.1 == c.1 {
            lemma_lex_trans(a.0@, b.0@, c.0@);
        }
    }

    fn le_exec(a: &(String, bool), b: &(String, bool)) -> (r: bool) {
        (a.1 && !b.1) || (a.1 == b.1 && str_le(a.0.as_str(), b.0.as_str()))
    }
}

/// The metadata of the `..` entry that leads back to the parent directory.
pub open spec fn parent_meta() -> MetaView {
    MetaView { description: seq![], tags: seq![], is_dir: true, usos: 0, agregado: seq![] }
}

/// Names starting with a dot are hidden.
pub open spec fn is_hidden(name: Seq<char>) -> bool {
    name.len() > 0 && name[0] == '.'
}

/// The index key of `name` inside the directory `rel_path` of the library.
pub open spec fn key_in(rel_path: Seq<char>, name: Seq<char>) -> Seq<char> {
    if rel_path.len() == 0 {
        name
    } else {
        rel_path + seq!['/'] + name
    }
}

/// The metadata shown for a listed item: what the index holds for its key,
/// or nothing, marked as a directory or not.
pub open spec fn listed_meta(index: Map<Seq<char>, MetaView>, key: Seq<char>, is_dir: bool) -> MetaView {
    if index.contains_key(key) {
        MetaView { is_dir, ..index[key] }
    } else {
        MetaView { description: seq![], tags: seq![], is_dir, usos: 0, agregado: seq![] }
    }
}

/// `entries` shows the listing `items` of directory `rel_path`: the visible
/// items, directories first then by name, each with its metadata, after a
/// `..` entry when the directory is not the library's root.
pub open spec fn shows_listing(
    entries: Seq<(String, EntryMeta)>,
    rel_path: Seq<char>,
    items: Seq<(String, bool)>,
    index: Map<Seq<char>, MetaView>,
) -> bool {
    let off: int = if rel_path.len() == 0 {
        0
    } else {
        1
    };
    let visible = items.filter(|e: (String, bool)| !is_hidden(e.0@));
    let shown = entries.skip(off).map_values(|e: (String, EntryMeta)| (e.0, e.1.is_dir));
    &&& entries.len() == off + visible.len()
    &&& off == 1 ==> entries[0].0@ == ".."@ && entries[0].1@ == parent_meta()
    &&& is_rearrangement(shown, visible)
    &&& sorted_by::<(String, bool), DirsFirst>(shown)
    &&& forall|i: int, j: int|
        #![trigger shown[i], shown[j]]
        0 <= i < j < shown.len() ==> (shown[i].1 && !shown[j].1) || (shown[i].1 == shown[j].1 && lex_le(
            shown[i].0@,
            shown[j].0@,
        ))
    &&& forall|i: int| off <= i < entries.len() ==> #[trigger] entries[i].1@ == listed_meta(
        index,
        key_in(rel_path, entries[i].0@),
        entries[i].1.is_dir,
    )
}

/// The metadata of a listed item.
fn meta_for(index: &LibraryIndex, rel_path: &str, name: &str, is_dir: bool) -> (m: EntryMeta)
    requires
        index.wf(),
    ensures
        m@ == listed_meta(index.view(), key_in(rel_path@, name@), is_dir),
{
    let key = if rel_path.unicode_len() == 0 {
        String::from_str(name)
    } else {
        crate::text::join_slash(rel_path, name)
    };
    assert(key@ =~= key_in(rel_path@, name@));
    let mut m = match index.get(key.as_str()) {
        Some(found) => found.duplicate(),
        None => EntryMeta::blank(),
    };
    m.is_dir = is_dir;
    assert(m@ =~= listed_meta(index.view(), key_in(rel_path@, name@), is_dir));
    m
}

/// The entries of the library directory `rel_path` given the items of its
/// listing (`None` when it could not be read) and the index.
pub fn load_dir(rel_path: &str, listing: Option<Vec<(String, bool)>>, index: &LibraryIndex) -> (r: Vec<
    (String, EntryMeta),
>)
    requires
        index.wf(),
    ensures
        listing is None ==> r@.len() == 0,
        listing matches Some(items) ==> shows_listing(r@, rel_path@, items@, index.view()),
{
    let items = match listing {
        Some(items) => items,
        None => {
            return Vec::new();
        },
    };
    let ghost all = items@;
    let ghost f = |e: (String, bool)| !is_hidden(e.0@);
    let mut vis: Vec<(String, bool)> = Vec::new();
    let n = items.len();
    for i in 0..n
        invariant
            n == all.len(),
            all == items@,
            f == (|e: (String, bool)| !is_hidden(e.0@)),
            vis@ == all.take(i as int).filter(f),
    {
        let e = (items[i].0.clone(), items[i].1);
        proof {
            assert(e == all[i as int]);
            assert(all.take(i + 1).drop_last() =~= all.take(i as int));
            assert(all.take(i + 1).last() == e);
            reveal_with_fuel(Seq::filter, 1);
            assert(all.take(i + 1).filter(f) == if f(e) {
                all.take(i as int).filter(f).push(e)
            } else {
                all.take(i as int).filter(f)
            });
        }
        let hidden = crate::text::starts_with_char(e.0.as_str(), '.');
        assert(is_hidden(e.0@) == hidden);
        assert(f(e) == !hidden);
        if !hidden {
            vis.push(e);
        }
    }
    assert(all.take(n as int) =~= all);
    let sorted = sort_by::<(String, bool), DirsFirst>(vis);
    let mut r: Vec<(String, EntryMeta)> = Vec::new();
    let dir = rel_path.unicode_len() != 0;
    if dir {
        let mut up = EntryMeta::blank();
        up.is_dir = true;
        assert(up@ =~= parent_meta());
        r.push((String::from_str(".."), up));
    }
    let ghost off: int = if dir { 1 } else { 0 };
    let m = sorted.len();
    for k in 0..m
        invariant
            m == sorted.len(),
            r@.len() == off + k,
            off == (if rel_path@.len() == 0 { 0int } else { 1int }),
            off == 1 ==> r@[0].0@ == ".."@ && r@[0].1@ == parent_meta(),
            forall|j: int| 0 <= j < k ==> (#[trigger] r@[off + j]).0 == sorted@[j].0 && r@[off + j].1.is_dir
                == sorted@[j].1,
            forall|i: int| off <= i < r@.len() ==> #[trigger] r@[i].1@ == listed_meta(
                index.view(),
                key_in(rel_path@, r@[i].0@),
                r@[i].1.is_dir,
            ),
            index.wf(),
    {
        let name = sorted[k].0.clone();
        let meta = meta_for(index, rel_path, name.as_str(), sorted[k].1);
        r.push((name, meta));
    }
    proof {
        let shown = r@.skip(off).map_values(|e: (String, EntryMeta)| (e.0, e.1.is_dir));
        assert forall|j: int| 0 <= j < m implies #[trigger] shown[j] == sorted@[j] by {
            assert(r@.skip(off)[j] == r@[off + j]);
        }
        assert(shown =~= sorted@);
        lemma_dirs_first(sorted@);
    }
    r
}

/// Plugins sorted by name are in ascending order of name.
proof fn lemma_plugins_ascending(s: Seq<PluginInfo>)
    requires
        sorted_by::<PluginInfo, PluginsByName>(s),
    ensures
        forall|i: int, j: int| 0 <= i < j < s.len() ==> lex_le(s[i].name@, s[j].name@),
{
    assert forall|i: int, j: int| 0 <= i < j < s.len() implies lex_le(s[i].name@, s[j].name@) by {
        assert(PluginsByName::le(s[i], s[j]));
    }
}

/// Entries sorted by key are in ascending order of key.
proof fn lemma_entries_ascending(s: Seq<(String, EntryMeta)>)
    requires
        sorted_by::<(String, EntryMeta), EntriesByKey>(s),
    ensures
        forall|i: int, j: int| 0 <= i < j < s.len() ==> lex_le(s[i].0@, s[j].0@),
{
    assert forall|i: int, j: int| 0 <= i < j < s.len() implies lex_le(s[i].0@, s[j].0@) by {
        assert(EntriesByKey::le(s[i], s[j]));
    }
}

/// Tag counts sorted by use are most used first, then in order of name.
proof fn lemma_tags_by_use(s: Seq<(String, usize)>)
    requires
        sorted_by::<(String, usize), TagsByUse>(s),
    ensures
        forall|i: int, j: int|
            #![trigger s[i], s[j]]
            0 <= i < j < s.len() ==> s[i].1 > s[j].1 || (s[i].1 == s[j].1 && lex_le(s[i].0@, s[j].0@)),
{
    assert forall|i: int, j: int|
        #![trigger s[i], s[j]]
        0 <= i < j < s.len() implies (s[i].1 > s[j].1 || (s[i].1 == s[j].1 && lex_le(s[i].0@, s[j].0@))) by {
        assert(TagsByUse::le(s[i], s[j]));
    }
}

/// Listing items sorted folders first are folders first, each group in
/// order of name.
proof fn lemma_dirs_first(s: Seq<(String, bool)>)
    requires
        sorted_by::<(String, bool), DirsFirst>(s),
    ensures
        forall|i: int, j: int|
            #![trigger s[i], s[j]]
            0 <= i < j < s.len() ==> (s[i].1 && !s[j].1) || (s[i].1 == s[j].1 && lex_le(s[i].0@, s[j].0@)),
{
    assert forall|i: int, j: int|
        #![trigger s[i], s[j]]
        0 <= i < j < s.len() implies ((s[i].1 && !s[j].1) || (s[i].1 == s[j].1 && lex_le(s[i].0@, s[j].0@))) by {
        assert(DirsFirst::le(s[i], s[j]));
    }
}

} // verus!
