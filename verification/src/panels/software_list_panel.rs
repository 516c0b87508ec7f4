//! Software-list browser: load state, search over prepared text, and the
//! best-effort media path check.
//!
//! Reading the hash XML and walking the media directories happen on a worker
//! thread of the application; this module decides what to do with each message
//! the worker sends and keeps the filter result consistent with the search.
use vstd::prelude::*;

use crate::models::{names, SoftwareEntry, SoftwareListSummary};
use crate::text::{
    chars_of, contains_chars, eq_ignore_ascii_case, eq_ignore_ascii_case_spec, lowercase,
    push_char, push_str, same_text, seq_contains, to_lowercase, trim_spec, trim_str,
};

verus! {

/// Whether an entry's media was found under a readable configured root.
#[derive(Debug, Clone, Copy, PartialEq, Eq, Structural)]
pub enum MediaPathPresence {
    PathFound,
    NotFound,
    NotChecked,
}

/// Media paths found under the configured software-list roots, as
/// `list:software` keys in lowercase.
pub struct MediaPathIndex {
    pub keys: Vec<String>,
    pub checked_root_count: usize,
}

impl MediaPathIndex {
    /// An index of no readable root.
    pub fn new() -> (r: Self)
        ensures
            r.keys@.len() == 0,
            r.checked_root_count == 0,
    {
        MediaPathIndex { keys: Vec::new(), checked_root_count: 0 }
    }

    /// Records a media path of `list_name` named `software_name`.
    pub fn insert(&mut self, list_name: &str, software_name: &str)
        ensures
            names(final(self).keys@).to_set() == names(old(self).keys@).to_set().insert(
                media_key_spec(list_name@, software_name@),
            ),
            final(self).checked_root_count == old(self).checked_root_count,
    {
        let key = media_path_key(list_name, software_name);
        if !crate::models::contains_name(&self.keys, key.as_str()) {
            let ghost before = names(self.keys@);
            self.keys.push(key);
            assert(names(self.keys@) =~= before + seq![media_key_spec(list_name@, software_name@)]);
            proof {
                Seq::lemma_to_set_insert_commutes(before, media_key_spec(list_name@, software_name@));
            }
        } else {
            assert(names(self.keys@).to_set() =~= names(self.keys@).to_set().insert(
                media_key_spec(list_name@, software_name@),
            ));
        }
    }

    /// Counts one more readable root.
    pub fn count_checked_root(&mut self)
        requires
            old(self).checked_root_count < usize::MAX,
        ensures
            final(self).checked_root_count == old(self).checked_root_count + 1,
            final(self).keys == old(self).keys,
    {
        self.checked_root_count = self.checked_root_count + 1;
    }
}

/// The software lists as the loader prepared them for the panel.
pub struct PreparedSoftwareListData {
    pub lists: Vec<SoftwareListSummary>,
    pub entries: Vec<SoftwareEntry>,
    pub warnings: Vec<String>,
    pub normalized_search_text: Vec<String>,
    pub media_paths: MediaPathIndex,
    pub path_found_entry_count: usize,
}

/// A message of the loading worker.
pub enum SoftwareListWorkerMessage {
    Progress { completed: usize, total: usize },
    Stage(&'static str),
    Finished(Result<PreparedSoftwareListData, String>),
}

/// What one poll of the worker channel produced.
pub enum WorkerPoll {
    Message(SoftwareListWorkerMessage),
    Empty,
    Disconnected,
}

/// What the caller does after handing one poll result to the panel.
#[derive(Debug, Clone, Copy, PartialEq, Eq, Structural)]
pub enum PollOutcome {
    /// Poll again now: more messages may be waiting.
    Continue,
    /// Stop for this frame and keep the channel.
    KeepWaiting,
    /// Stop and drop the channel: loading has ended.
    Done,
}

/// The software-list browser.
pub struct SoftwareListPanel {
    pub lists: Vec<SoftwareListSummary>,
    pub entries: Vec<SoftwareEntry>,
    pub warnings: Vec<String>,
    pub error: Option<String>,
    pub loaded_hash_path: Option<String>,
    pub loaded_software_rom_paths: Vec<String>,
    /// A worker is loading and its channel is held.
    pub loading: bool,
    pub loading_stage: Option<&'static str>,
    pub loading_progress: Option<(usize, usize)>,
    pub media_paths: MediaPathIndex,
    pub path_found_entry_count: usize,
    pub normalized_search_text: Vec<String>,
    pub filtered_indices: Vec<usize>,
    pub cached_query: String,
    pub cached_selected_list: Option<String>,
    pub filter_cache_valid: bool,
    pub search_text: String,
    pub selected_list: Option<String>,
}

/// The characters of an optional string.
pub open spec fn opt_view(s: Option<String>) -> Option<Seq<char>> {
    match s {
        Some(s) => Some(s@),
        None => None,
    }
}

/// The search query as the filter compares it: trimmed and lowercase.
pub open spec fn normalized_query_spec(query: Seq<char>) -> Seq<char> {
    lowercase(trim_spec(query))
}

/// The separator between the fields of an entry's search text.
pub open spec fn field_separator() -> Seq<char> {
    seq!['\u{1f}']
}

/// The lowercase search text of an entry: name, description, publisher,
/// year, list name and list description, separated by U+001F.
pub open spec fn entry_search_text_spec(e: SoftwareEntry) -> Seq<char> {
    let ghost sep = field_separator();
    lowercase(
        e.name@ + sep + e.description@ + sep + e.publisher@ + sep + e.year@ + sep + e.list_name@
            + sep + e.list_description@,
    )
}

/// Whether the entry at `i` passes the list choice and the normalized query.
pub open spec fn entry_selected(
    entries: Seq<SoftwareEntry>,
    normalized: Seq<String>,
    query: Seq<char>,
    selected: Option<Seq<char>>,
    i: int,
) -> bool {
    &&& match selected {
        Some(l) => entries[i].list_name@ == l,
        None => true,
    }
    &&& (query.len() == 0 || (i < normalized.len() && seq_contains(normalized[i]@, query)))
}

/// The indices among the first `n` entries that pass the filter, in order.
pub open spec fn entry_filter_spec(
    entries: Seq<SoftwareEntry>,
    normalized: Seq<String>,
    query: Seq<char>,
    selected: Option<Seq<char>>,
    n: int,
) -> Seq<usize>
    decreases n,
{
    if n <= 0 {
        Seq::empty()
    } else {
        let prev = entry_filter_spec(entries, normalized, query, selected, n - 1);
        if entry_selected(entries, normalized, query, selected, n - 1) {
            prev.push((n - 1) as usize)
        } else {
            prev
        }
    }
}

/// The lowercase `list:software` key of a media path.
pub open spec fn media_key_spec(list_name: Seq<char>, software_name: Seq<char>) -> Seq<char> {
    lowercase(list_name) + seq![':'] + lowercase(software_name)
}

/// Whether an entry's media was found.
pub open spec fn presence_spec(entry: SoftwareEntry, index: MediaPathIndex) -> MediaPathPresence {
    if index.checked_root_count == 0 {
        MediaPathPresence::NotChecked
    } else if names(index.keys@).contains(media_key_spec(entry.list_name@, entry.name@)) {
        MediaPathPresence::PathFound
    } else {
        MediaPathPresence::NotFound
    }
}

/// Number of the first `n` entries whose media was found.
pub open spec fn path_found_count_spec(
    entries: Seq<SoftwareEntry>,
    index: MediaPathIndex,
    n: int,
) -> nat
    decreases n,
{
    if n <= 0 {
        0
    } else {
        path_found_count_spec(entries, index, n - 1) + if presence_spec(entries[n - 1], index)
            == MediaPathPresence::PathFound {
            1nat
        } else {
            0nat
        }
    }
}

/// The load-independent parts of the panel are empty.
pub open spec fn results_cleared(p: SoftwareListPanel) -> bool {
    &&& p.lists@.len() == 0
    &&& p.entries@.len() == 0
    &&& p.warnings@.len() == 0
    &&& p.error is None
    &&& !p.loading
    &&& p.loading_progress is None
    &&& p.media_paths.keys@.len() == 0
    &&& p.media_paths.checked_root_count == 0
    &&& p.path_found_entry_count == 0
    &&& p.normalized_search_text@.len() == 0
    &&& p.filtered_indices@.len() == 0
    &&& !p.filter_cache_valid
}

/// `p` with the load-dependent results (those `results_cleared` speaks of)
/// taken from `q`.
pub open spec fn with_results_of(p: SoftwareListPanel, q: SoftwareListPanel) -> SoftwareListPanel {
    SoftwareListPanel {
        lists: q.lists,
        entries: q.entries,
        warnings: q.warnings,
        error: q.error,
        loading: q.loading,
        loading_progress: q.loading_progress,
        media_paths: q.media_paths,
        path_found_entry_count: q.path_found_entry_count,
        normalized_search_text: q.normalized_search_text,
        filtered_indices: q.filtered_indices,
        filter_cache_valid: q.filter_cache_valid,
        ..p
    }
}

/// The panel after taking over a worker's result: the results come from
/// `data`, a selected list that `data` no longer has is dropped, and the
/// filter result is out of date.
pub open spec fn with_prepared_data(p: SoftwareListPanel, data: PreparedSoftwareListData) -> SoftwareListPanel {
    SoftwareListPanel {
        lists: data.lists,
        entries: data.entries,
        warnings: data.warnings,
        normalized_search_text: data.normalized_search_text,
        media_paths: data.media_paths,
        path_found_entry_count: data.path_found_entry_count,
        selected_list: match p.selected_list {
            Some(s) => if list_names(data.lists@).contains(s@) {
                Some(s)
            } else {
                None
            },
            None => None,
        },
        filter_cache_valid: false,
        ..p
    }
}

/// Names of the software lists.
pub open spec fn list_names(lists: Seq<SoftwareListSummary>) -> Seq<Seq<char>> {
    lists.map_values(|l: SoftwareListSummary| l.name@)
}

impl SoftwareListPanel {
    /// A panel with nothing loaded.
    pub fn new() -> (r: Self)
        ensures
            results_cleared(r),
            r.loaded_hash_path is None,
            r.loaded_software_rom_paths@.len() == 0,
            r.loading_stage is None,
            r.cached_query@.len() == 0,
            r.cached_selected_list is None,
            r.search_text@.len() == 0,
            r.selected_list is None,
    {
        SoftwareListPanel {
            lists: Vec::new(),
            entries: Vec::new(),
            warnings: Vec::new(),
            error: None,
            loaded_hash_path: None,
            loaded_software_rom_paths: Vec::new(),
            loading: false,
            loading_stage: None,
            loading_progress: None,
            media_paths: MediaPathIndex::new(),
            path_found_entry_count: 0,
            normalized_search_text: Vec::new(),
            filtered_indices: Vec::new(),
            cached_query: String::new(),
            cached_selected_list: None,
            filter_cache_valid: false,
            search_text: String::new(),
            selected_list: None,
        }
    }

    /// Forgets which paths were loaded and drops the worker, so the next frame reloads.
    pub fn invalidate(&mut self)
        ensures
            final(self).loaded_software_rom_paths@.len() == 0,
            *final(self) == (SoftwareListPanel {
                loaded_hash_path: None,
                loaded_software_rom_paths: final(self).loaded_software_rom_paths,
                loading: false,
                ..*old(self)
            }),
    {
        self.loaded_hash_path = None;
        self.loaded_software_rom_paths = Vec::new();
        self.loading = false;
    }

    /// Whether the configured paths differ from the loaded ones.
    pub fn needs_reload(&self, hash_path: &str, software_rom_paths: &Vec<String>) -> (r: bool)
        ensures
            r == !(opt_view(self.loaded_hash_path) == Some(hash_path@) && names(
                self.loaded_software_rom_paths@,
            ) == names(software_rom_paths@)),
    {
        let same_hash = match &self.loaded_hash_path {
            Some(p) => same_text(p.as_str(), hash_path),
            None => false,
        };
        !(same_hash && crate::redesign::library::same_names(
            &self.loaded_software_rom_paths,
            software_rom_paths,
        ))
    }

    /// Starts loading the given paths: clears the previous results and
    /// records the paths; the caller then starts the worker.
    pub fn begin_load(&mut self, hash_path: &str, software_rom_paths: &Vec<String>)
        ensures
            results_cleared(
                SoftwareListPanel { loading: false, ..*final(self) },
            ),
            final(self).loading,
            opt_view(final(self).loaded_hash_path) == Some(hash_path@),
            names(final(self).loaded_software_rom_paths@) == names(software_rom_paths@),
            *final(self) == (SoftwareListPanel {
                loading: true,
                loading_stage: Some("Reading MAME hash XML"),
                loaded_hash_path: final(self).loaded_hash_path,
                loaded_software_rom_paths: final(self).loaded_software_rom_paths,
                ..with_results_of(*old(self), *final(self))
            }),
    {
        self.clear_results_for_load();
        self.loaded_hash_path = Some(hash_path.to_owned());
        self.loaded_software_rom_paths = clone_strings(software_rom_paths);
        self.loading_stage = Some("Reading MAME hash XML");
        self.loading = true;
    }

    /// Handles one poll of the worker channel.
    pub fn poll_worker(&mut self, poll: WorkerPoll) -> (r: PollOutcome)
        requires
            old(self).loading,
        ensures
            r == PollOutcome::Done <==> !final(self).loading,
            match poll {
                WorkerPoll::Message(SoftwareListWorkerMessage::Progress { completed, total }) => {
                    &&& r == PollOutcome::Continue
                    &&& *final(self) == (SoftwareListPanel {
                        loading_stage: Some("Reading MAME hash XML"),
                        loading_progress: Some((completed, total)),
                        ..*old(self)
                    })
                },
                WorkerPoll::Message(SoftwareListWorkerMessage::Stage(stage)) => {
                    &&& r == PollOutcome::Continue
                    &&& *final(self) == (SoftwareListPanel {
                        loading_stage: Some(stage),
                        loading_progress: None,
                        ..*old(self)
                    })
                },
                WorkerPoll::Message(SoftwareListWorkerMessage::Finished(Ok(data))) => {
                    &&& r == PollOutcome::Done
                    &&& *final(self) == with_prepared_data(
                        SoftwareListPanel {
                            loading: false,
                            loading_stage: None,
                            loading_progress: None,
                            ..*old(self)
                        },
                        data,
                    )
                },
                WorkerPoll::Message(SoftwareListWorkerMessage::Finished(Err(e))) => {
                    &&& r == PollOutcome::Done
                    &&& *final(self) == (SoftwareListPanel {
                        loading: false,
                        loading_stage: None,
                        loading_progress: None,
                        error: Some(e),
                        ..*old(self)
                    })
                },
                WorkerPoll::Empty => {
                    &&& r == PollOutcome::KeepWaiting
                    &&& *final(self) == *old(self)
                },
                WorkerPoll::Disconnected => {
                    &&& r == PollOutcome::Done
                    &&& opt_view(final(self).error) == Some(
                        "Software-list loader stopped unexpectedly"@,
                    )
                    &&& *final(self) == (SoftwareListPanel {
                        loading: false,
                        loading_stage: None,
                        loading_progress: None,
                        error: final(self).error,
                        ..*old(self)
                    })
                },
            },
    {
        match poll {
            WorkerPoll::Message(SoftwareListWorkerMessage::Progress { completed, total }) => {
                self.loading_stage = Some("Reading MAME hash XML");
                self.loading_progress = Some((completed, total));
                PollOutcome::Continue
            },
            WorkerPoll::Message(SoftwareListWorkerMessage::Stage(stage)) => {
                self.loading_stage = Some(stage);
                self.loading_progress = None;
                PollOutcome::Continue
            },
            WorkerPoll::Message(SoftwareListWorkerMessage::Finished(result)) => {
                self.loading = false;
                self.loading_stage = None;
                self.loading_progress = None;
                match result {
                    Ok(data) => self.apply_prepared_data(data),
                    Err(error) => self.error = Some(error),
                }
                PollOutcome::Done
            },
            WorkerPoll::Empty => PollOutcome::KeepWaiting,
            WorkerPoll::Disconnected => {
                self.loading = false;
                self.loading_stage = None;
                self.loading_progress = None;
                self.error = Some("Software-list loader stopped unexpectedly".to_owned());
                PollOutcome::Done
            },
        }
    }

    /// Takes over the worker's result; a selected list that no longer exists is dropped.
    pub fn apply_prepared_data(&mut self, data: PreparedSoftwareListData)
        ensures
            *final(self) == with_prepared_data(*old(self), data),
    {
        self.lists = data.lists;
        self.entries = data.entries;
        self.warnings = data.warnings;
        self.normalized_search_text = data.normalized_search_text;
        self.media_paths = data.media_paths;
        self.path_found_entry_count = data.path_found_entry_count;
        let keep = match &self.selected_list {
            Some(selected) => has_list(&self.lists, selected.as_str()),
            None => false,
        };
        if !keep {
            self.selected_list = None;
        }
        self.invalidate_filter_cache();
    }

    /// Clears the results before a new load.
    pub fn clear_results_for_load(&mut self)
        ensures
            results_cleared(*final(self)),
            *final(self) == with_results_of(*old(self), *final(self)),
    {
        self.lists = Vec::new();
        self.entries = Vec::new();
        self.warnings = Vec::new();
        self.error = None;
        self.loading = false;
        self.loading_progress = None;
        self.media_paths = MediaPathIndex::new();
        self.path_found_entry_count = 0;
        self.normalized_search_text = Vec::new();
        self.filtered_indices = Vec::new();
        self.invalidate_filter_cache();
    }

    /// Forgets everything loaded, including the paths and the list choice.
    pub fn clear_loaded_data(&mut self)
        ensures
            results_cleared(*final(self)),
            final(self).loaded_software_rom_paths@.len() == 0,
            *final(self) == (SoftwareListPanel {
                loaded_hash_path: None,
                loaded_software_rom_paths: final(self).loaded_software_rom_paths,
                selected_list: None,
                ..with_results_of(*old(self), *final(self))
            }),
    {
        self.clear_results_for_load();
        self.loaded_hash_path = None;
        self.loaded_software_rom_paths = Vec::new();
        self.selected_list = None;
    }

    /// Recomputes the filter result unless it is valid for the current query
    /// and list choice.
    pub fn refresh_filter_cache_if_needed(&mut self)
        ensures
            ({
                let query = normalized_query_spec(old(self).search_text@);
                let key_same = old(self).filter_cache_valid && old(self).cached_query@ == query
                    && opt_view(old(self).cached_selected_list) == opt_view(
                    old(self).selected_list,
                );
                &&& key_same ==> *final(self) == *old(self)
                &&& !key_same ==> final(self).filtered_indices@ == entry_filter_spec(
                    old(self).entries@,
                    old(self).normalized_search_text@,
                    query,
                    opt_view(old(self).selected_list),
                    old(self).entries@.len() as int,
                )
                &&& final(self).filter_cache_valid
                &&& final(self).cached_query@ == query
                &&& opt_view(final(self).cached_selected_list) == opt_view(
                    old(self).selected_list,
                )
            }),
            *final(self) == (SoftwareListPanel {
                filtered_indices: final(self).filtered_indices,
                cached_query: final(self).cached_query,
                cached_selected_list: final(self).cached_selected_list,
                filter_cache_valid: true,
                ..*old(self)
            }),
    {
        let query = normalize_search_query(self.search_text.as_str());
        let same_list = match (&self.cached_selected_list, &self.selected_list) {
            (Some(a), Some(b)) => same_text(a.as_str(), b.as_str()),
            (None, None) => true,
            _ => false,
        };
        if self.filter_cache_valid && same_text(self.cached_query.as_str(), query.as_str())
            && same_list {
            return ;
        }
        let selected: Option<&str> = match &self.selected_list {
            Some(s) => Some(s.as_str()),
            None => None,
        };
        self.filtered_indices = filter_entry_indices(
            &self.entries,
            &self.normalized_search_text,
            query.as_str(),
            selected,
        );
        self.cached_query = query;
        self.cached_selected_list = self.selected_list.clone();
        self.filter_cache_valid = true;
    }

    /// Marks the filter result as out of date.
    pub fn invalidate_filter_cache(&mut self)
        ensures
            *final(self) == (SoftwareListPanel { filter_cache_valid: false, ..*old(self) }),
    {
        self.filter_cache_valid = false;
    }

    /// Caveat shown next to path-presence results.
    pub fn presence_disclaimer() -> (r: &'static str)
        ensures
            r@ == "Best-effort path presence only. Archive and CHD contents are not audited, and merged set layouts may differ."@,
    {
        "Best-effort path presence only. Archive and CHD contents are not audited, and merged set layouts may differ."
    }

    /// Label of a software list in the list chooser.
    pub fn list_label(name: &str) -> (r: String)
        ensures
            r@ == name@,
    {
        name.to_owned()
    }

    /// Label of an entry's `supported` attribute.
    pub fn support_label(supported: &str) -> (r: &'static str)
        ensures
            r@ == support_label_spec(supported@),
    {
        if same_text(supported, "no") {
            "No"
        } else if same_text(supported, "partial") {
            "Partial"
        } else {
            "Yes"
        }
    }
}

/// Label of an entry's `supported` attribute.
pub open spec fn support_label_spec(supported: Seq<char>) -> Seq<char> {
    if supported == "no"@ {
        "No"@
    } else if supported == "partial"@ {
        "Partial"@
    } else {
        "Yes"@
    }
}

/// Copies a vector of strings.
pub fn clone_strings(v: &Vec<String>) -> (r: Vec<String>)
    ensures
        names(r@) == names(v@),
{
    let mut r: Vec<String> = Vec::new();
    let mut i: usize = 0;
    while i < v.len()
        invariant
            i <= v.len(),
            names(r@) == names(v@).take(i as int),
        decreases v.len() - i,
    {
        let ghost before = r@;
        let c = v[i].clone();
        assert(c@ == v@[i as int]@);
        r.push(c);
        assert(names(r@) =~= names(before).push(c@));
        assert(names(v@).take(i + 1) =~= names(v@).take(i as int).push(v@[i as int]@));
        i = i + 1;
    }
    assert(names(v@).take(i as int) =~= names(v@));
    r
}

/// Whether a software list of that name exists.
pub fn has_list(lists: &Vec<SoftwareListSummary>, name: &str) -> (r: bool)
    ensures
        r == list_names(lists@).contains(name@),
{
    let mut i: usize = 0;
    while i < lists.len()
        invariant
            i <= lists.len(),
            forall|k: int| 0 <= k < i ==> (#[trigger] lists@[k]).name@ != name@,
        decreases lists.len() - i,
    {
        if same_text(lists[i].name.as_str(), name) {
            assert(list_names(lists@)[i as int] == name@);
            return true;
        }
        i = i + 1;
    }
    assert forall|k: int| 0 <= k < list_names(lists@).len() implies list_names(lists@)[k]
        != name@ by {
        assert(list_names(lists@)[k] == lists@[k].name@);
    }
    false
}

/// The search query as the filter compares it: trimmed, then lowercase.
pub fn normalize_search_query(query: &str) -> (r: String)
    ensures
        r@ == normalized_query_spec(query@),
{
    to_lowercase(trim_str(query))
}

/// The lowercase search text of an entry, its fields separated by U+001F.
pub fn normalized_entry_search_text(entry: &SoftwareEntry) -> (r: String)
    ensures
        r@ == entry_search_text_spec(*entry),
{
    let mut joined = String::new();
    push_str(&mut joined, entry.name.as_str());
    push_char(&mut joined, '\u{1f}');
    push_str(&mut joined, entry.description.as_str());
    push_char(&mut joined, '\u{1f}');
    push_str(&mut joined, entry.publisher.as_str());
    push_char(&mut joined, '\u{1f}');
    push_str(&mut joined, entry.year.as_str());
    push_char(&mut joined, '\u{1f}');
    push_str(&mut joined, entry.list_name.as_str());
    push_char(&mut joined, '\u{1f}');
    push_str(&mut joined, entry.list_description.as_str());
    let ghost sep = field_separator();
    assert(joined@ =~= entry.name@ + sep + entry.description@ + sep + entry.publisher@ + sep
        + entry.year@ + sep + entry.list_name@ + sep + entry.list_description@);
    to_lowercase(joined.as_str())
}

/// Indices of the entries that pass the list choice and contain the
/// normalized query in their prepared search text, in entry order.
pub fn filter_entry_indices(
    entries: &Vec<SoftwareEntry>,
    normalized_search_text: &Vec<String>,
    normalized_query: &str,
    selected_list: Option<&str>,
) -> (r: Vec<usize>)
    ensures
        r@ == entry_filter_spec(
            entries@,
            normalized_search_text@,
            normalized_query@,
            match selected_list {
                Some(s) => Some(s@),
                None => None,
            },
            entries@.len() as int,
        ),
{
    let ghost sel = match selected_list {
        Some(s) => Some(s@),
        None => None,
    };
    let query = chars_of(normalized_query);
    let mut r: Vec<usize> = Vec::new();
    let mut i: usize = 0;
    while i < entries.len()
        invariant
            i <= entries.len(),
            query@ == normalized_query@,
            sel == match selected_list {
                Some(s) => Some(s@),
                None => None,
            },
            r@ == entry_filter_spec(
                entries@,
                normalized_search_text@,
                normalized_query@,
                sel,
                i as int,
            ),
        decreases entries.len() - i,
    {
        let list_ok = match selected_list {
            Some(selected) => same_text(entries[i].list_name.as_str(), selected),
            None => true,
        };
        let text_ok = query.len() == 0 || (i < normalized_search_text.len() && contains_chars(
            &chars_of(normalized_search_text[i].as_str()),
            &query,
        ));
        if list_ok && text_ok {
            r.push(i);
        }
        i = i + 1;
    }
    r
}

/// The filter result lists distinct entries in increasing order.
pub proof fn lemma_entry_filter_sorted(
    entries: Seq<SoftwareEntry>,
    normalized: Seq<String>,
    query: Seq<char>,
    selected: Option<Seq<char>>,
    n: int,
)
    requires
        0 <= n <= usize::MAX,
    ensures
        forall|a: int, b: int|
            0 <= a < b < entry_filter_spec(entries, normalized, query, selected, n).len() ==> #[trigger] entry_filter_spec(
                entries,
                normalized,
                query,
                selected,
                n,
            )[a] < #[trigger] entry_filter_spec(entries, normalized, query, selected, n)[b],
        forall|a: int|
            0 <= a < entry_filter_spec(entries, normalized, query, selected, n).len() ==> #[trigger] entry_filter_spec(
                entries,
                normalized,
                query,
                selected,
                n,
            )[a] < n,
    decreases n,
{
    if n > 0 {
        lemma_entry_filter_sorted(entries, normalized, query, selected, n - 1);
        let prev = entry_filter_spec(entries, normalized, query, selected, n - 1);
        let cur = entry_filter_spec(entries, normalized, query, selected, n);
        assert forall|a: int| 0 <= a < cur.len() implies #[trigger] cur[a] < n by {
            if a < prev.len() {
                assert(cur[a] == prev[a]);
            }
        }
        assert forall|a: int, b: int| 0 <= a < b < cur.len() implies #[trigger] cur[a]
            < #[trigger] cur[b] by {
            assert(cur[a] == prev[a]);
            if b < prev.len() {
                assert(cur[b] == prev[b]);
            }
        }
    }
}

/// The lowercase `list:software` key of a media path.
pub fn media_path_key(list_name: &str, software_name: &str) -> (r: String)
    ensures
        r@ == media_key_spec(list_name@, software_name@),
{
    let mut key = to_lowercase(list_name);
    push_char(&mut key, ':');
    let name = to_lowercase(software_name);
    push_str(&mut key, name.as_str());
    key
}

/// Whether an entry's media was found under a readable configured root.
pub fn media_path_presence(entry: &SoftwareEntry, index: &MediaPathIndex) -> (r: MediaPathPresence)
    ensures
        r == presence_spec(*entry, *index),
{
    if index.checked_root_count == 0 {
        return MediaPathPresence::NotChecked;
    }
    let key = media_path_key(entry.list_name.as_str(), entry.name.as_str());
    if crate::models::contains_name(&index.keys, key.as_str()) {
        MediaPathPresence::PathFound
    } else {
        MediaPathPresence::NotFound
    }
}

/// Number of entries whose media was found.
pub fn count_path_found(entries: &Vec<SoftwareEntry>, index: &MediaPathIndex) -> (n: usize)
    ensures
        n == path_found_count_spec(entries@, *index, entries@.len() as int),
{
    let mut n: usize = 0;
    let mut i: usize = 0;
    while i < entries.len()
        invariant
            i <= entries.len(),
            n == path_found_count_spec(entries@, *index, i as int),
            n <= i,
        decreases entries.len() - i,
    {
        if media_path_presence(&entries[i], index) == MediaPathPresence::PathFound {
            n = n + 1;
        }
        i = i + 1;
    }
    n
}

/// A media archive has the `zip` or `7z` extension, in any ASCII case.
pub open spec fn supported_extension_spec(ext: Seq<char>) -> bool {
    eq_ignore_ascii_case_spec(ext, "zip"@) || eq_ignore_ascii_case_spec(ext, "7z"@)
}

/// Whether a file extension names a supported media archive.
pub fn is_supported_archive_extension(ext: &str) -> (r: bool)
    ensures
        r == supported_extension_spec(ext@),
{
    eq_ignore_ascii_case(ext, "zip") || eq_ignore_ascii_case(ext, "7z")
}

/// Whether the loader reports progress now: at the first and last step, and
/// after at least eight more steps since the last report.
pub fn should_report_progress(completed: usize, total: usize, last_reported: usize) -> (r: bool)
    ensures
        r == (completed == 0 || completed == total || (completed >= last_reported && completed
            - last_reported >= 8)),
{
    completed == 0 || completed == total || completed.saturating_sub(last_reported) >= 8
}


/// Prepares freshly loaded lists for the panel: the search text of every
/// entry and the number of entries whose media path was found.
pub fn prepare_software_list_data(
    lists: Vec<SoftwareListSummary>,
    entries: Vec<SoftwareEntry>,
    warnings: Vec<String>,
    media_paths: MediaPathIndex,
) -> (r: PreparedSoftwareListData)
    ensures
        r.lists == lists,
        r.entries == entries,
        r.warnings == warnings,
        r.media_paths == media_paths,
        r.normalized_search_text@.len() == entries@.len(),
        forall|k: int| 0 <= k < entries@.len() ==> (#[trigger] r.normalized_search_text@[k])@ == entry_search_text_spec(entries@[k]),
        r.path_found_entry_count == path_found_count_spec(entries@, media_paths, entries@.len() as int),
{
    let mut normalized: Vec<String> = Vec::new();
    let mut k: usize = 0;
    while k < entries.len()
        invariant
            k <= entries@.len(),
            normalized@.len() == k,
            forall|j: int| 0 <= j < k ==> (#[trigger] normalized@[j])@ == entry_search_text_spec(entries@[j]),
        decreases entries@.len() - k,
    {
        normalized.push(normalized_entry_search_text(&entries[k]));
        k = k + 1;
    }
    let found = count_path_found(&entries, &media_paths);
    PreparedSoftwareListData {
        lists,
        entries,
        warnings,
        normalized_search_text: normalized,
        media_paths,
        path_found_entry_count: found,
    }
}

} // verus!
