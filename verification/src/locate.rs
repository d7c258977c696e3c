//! Finding an application's executable: where it may be is looked at place by place,
//! and what was seen decides what is looked at next.

use vstd::prelude::*;
use vstd::utf8::{decode_utf8, valid_utf8};

use crate::command::{powershell, source_line, source_script, CommandLine, Invocation};
use crate::external::{decode_text, lowercase, to_lowercase};
use crate::path::{
    after_last, ends_in_name, extension, extension_of, file_name, file_stem,
    law_obvious_name_is_the_name, law_possible_names_end_alike, obvious_name, possible_name,
    stem_of, Separators,
};
use crate::text::{ends_with, has_char, option_view, same_text, trim, trimmed};

verus! {

/// An entry of a directory.
#[derive(Debug, PartialEq, Eq)]
pub struct DirEntry<S = String> {
    /// The whole path.
    pub path: S,
    /// The entry is a directory itself.
    pub is_dir: bool,
    /// The part of the name after its last dot, if it has one.
    pub extension: Option<S>,
    /// The name without that part.
    pub stem: Option<S>,
}

/// A place where the executable may be.
#[derive(Debug, PartialEq, Eq)]
pub enum Probe<S = String> {
    /// Wherever the shell finds a command of this name.
    Command(S),
    /// At this path.
    File(S),
    /// Somewhere in the directories inside this directory.
    Tree(S),
}

/// What is to be looked at.
#[derive(Debug, PartialEq, Eq)]
pub enum Look<S = String, L = Invocation> {
    /// Run this command, which prints where it finds the application.
    Source(L),
    /// Find out whether this file exists.
    Exists(S),
    /// List this directory.
    ReadDir(S),
    /// Nothing more: this is where the executable is, if it is anywhere.
    Found(Option<S>),
}

/// What was seen.
#[derive(Debug, PartialEq, Eq)]
pub enum Seen<B = Vec<u8>, E = Vec<DirEntry>> {
    /// Whether the command succeeded and what it printed; nothing if it could not be run.
    Source(Option<(bool, B)>),
    /// Whether the file exists.
    Exists(bool),
    /// The directory's entries; none if it could not be listed.
    Entries(E),
}

/// What is being looked at.
pub enum Stage<S = String, E = Vec<DirEntry>> {
    /// The first of the places that are left.
    Asked,
    /// The path that the shell named.
    CheckingSource(S),
    /// The directory at this path; the entries that come after it wait.
    Walking { listing: S, waiting: E },
    /// Nothing.
    Finished,
}

/// A search for an executable.
pub struct Locator {
    app_name: String,
    probes: Vec<Probe>,
    at: usize,
    stage: Stage,
}

/// A search, in contracts. The places are those that are left.
pub struct LocatorState {
    pub app_name: Seq<char>,
    pub probes: Seq<Probe<Seq<char>>>,
    pub stage: Stage<Seq<char>, Seq<DirEntry<Seq<char>>>>,
}

/// A look, in contracts.
pub type LookView = Look<Seq<char>, CommandLine>;

/// What was seen, in contracts.
pub type SeenView = Seen<Seq<u8>, Seq<DirEntry<Seq<char>>>>;

/// Entries of directories, in contracts.
pub type Entries = Seq<DirEntry<Seq<char>>>;

impl View for DirEntry {
    type V = DirEntry<Seq<char>>;

    open spec fn view(&self) -> DirEntry<Seq<char>> {
        DirEntry {
            path: self.path@,
            is_dir: self.is_dir,
            extension: option_view(self.extension),
            stem: option_view(self.stem),
        }
    }
}

/// The contents of entries.
pub open spec fn entry_views(entries: Seq<DirEntry>) -> Entries {
    entries.map_values(|e: DirEntry| e@)
}

impl View for Probe {
    type V = Probe<Seq<char>>;

    open spec fn view(&self) -> Probe<Seq<char>> {
        match self {
            Probe::Command(name) => Probe::Command(name@),
            Probe::File(path) => Probe::File(path@),
            Probe::Tree(path) => Probe::Tree(path@),
        }
    }
}

/// The contents of places.
pub open spec fn probe_views(probes: Seq<Probe>) -> Seq<Probe<Seq<char>>> {
    probes.map_values(|p: Probe| p@)
}

impl View for Look {
    type V = LookView;

    open spec fn view(&self) -> LookView {
        match self {
            Look::Source(line) => Look::Source(line@),
            Look::Exists(path) => Look::Exists(path@),
            Look::ReadDir(path) => Look::ReadDir(path@),
            Look::Found(path) => Look::Found(option_view(*path)),
        }
    }
}

impl View for Seen {
    type V = SeenView;

    open spec fn view(&self) -> SeenView {
        match self {
            Seen::Source(Some((success, output))) => Seen::Source(Some((*success, output@))),
            Seen::Source(None) => Seen::Source(None),
            Seen::Exists(exists) => Seen::Exists(*exists),
            Seen::Entries(entries) => Seen::Entries(entry_views(entries@)),
        }
    }
}

/// The waiting entries, the next one first; they are kept in the opposite order.
pub open spec fn stack_view(stack: Seq<DirEntry>) -> Entries {
    Seq::new(stack.len(), |i: int| stack[stack.len() - 1 - i]@)
}

impl View for Locator {
    type V = LocatorState;

    closed spec fn view(&self) -> LocatorState {
        LocatorState {
            app_name: self.app_name@,
            probes: probe_views(self.probes@).skip(self.at as int),
            stage: match self.stage {
                Stage::Asked => Stage::Asked,
                Stage::CheckingSource(path) => Stage::CheckingSource(path@),
                Stage::Walking { listing, waiting } => Stage::Walking {
                    listing: listing@,
                    waiting: stack_view(waiting@),
                },
                Stage::Finished => Stage::Finished,
            },
        }
    }
}

/// The places where package managers put an application, in order: what the shell finds,
/// then Chocolatey's shim and packages, winget's packages in the user's data, Scoop's
/// current version, and the program directories.
pub open spec fn binary_places(
    app_name: Seq<char>,
    local_app_data: Option<Seq<char>>,
    user: Option<Seq<char>>,
) -> Seq<Probe<Seq<char>>> {
    seq![
        Probe::Command(app_name),
        Probe::File("C:\\ProgramData\\chocolatey\\bin\\"@ + app_name + ".exe"@),
        Probe::Tree("C:\\ProgramData\\chocolatey\\lib\\"@ + app_name),
    ] + match local_app_data {
        Some(dir) => seq![Probe::Tree(dir + "\\Microsoft\\WinGet\\Packages"@)],
        None => seq![],
    } + match user {
        Some(user) => seq![
            Probe::File(
                "C:\\Users\\"@ + user + "\\scoop\\apps\\"@ + app_name + "\\current\\"@ + app_name
                    + ".exe"@,
            ),
        ],
        None => seq![],
    } + seq![
        Probe::File("C:\\Program Files\\"@ + app_name + "\\"@ + app_name + ".exe"@),
        Probe::File("C:\\Program Files (x86)\\"@ + app_name + "\\"@ + app_name + ".exe"@),
    ]
}

/// The setting names an executable by its path.
pub open spec fn is_executable_path(setting: Seq<char>) -> bool {
    (setting.contains('\\') || setting.contains('/')) && ".exe"@.is_suffix_of(lowercase(setting))
}

/// The places where the application of the settings may be: at the path that the setting
/// is, if it is one; then wherever a command or package of that name is.
pub open spec fn resolve_places(
    setting: Seq<char>,
    local_app_data: Option<Seq<char>>,
    user: Option<Seq<char>>,
) -> Seq<Probe<Seq<char>>> {
    (if is_executable_path(setting) {
        seq![Probe::File(setting)]
    } else {
        seq![]
    }) + (if setting.len() == 0 {
        seq![]
    } else {
        seq![Probe::Command(setting)] + binary_places(setting, local_app_data, user)
    })
}

/// The path that the shell named, if it named one.
pub open spec fn named_source(output: Option<(bool, Seq<u8>)>) -> Option<Seq<char>> {
    match output {
        Some((true, bytes)) if valid_utf8(bytes) && trimmed(decode_utf8(bytes)).len() > 0 => Some(
            trimmed(decode_utf8(bytes)),
        ),
        _ => None,
    }
}

/// The entry is the application's executable: a file with the extension `exe`, named
/// like the application but for upper and lower case.
pub open spec fn is_wanted(entry: DirEntry<Seq<char>>, app_name: Seq<char>) -> bool {
    &&& !entry.is_dir
    &&& entry.extension == Some("exe"@)
    &&& entry.stem matches Some(stem) && lowercase(stem) == lowercase(app_name)
}

/// The directories among entries.
pub open spec fn directories(entries: Entries) -> Entries
    decreases entries.len(),
{
    if entries.len() == 0 {
        seq![]
    } else if entries[0].is_dir {
        seq![entries[0]] + directories(entries.drop_first())
    } else {
        directories(entries.drop_first())
    }
}

/// How a place is looked at.
pub open spec fn look_at(probe: Probe<Seq<char>>) -> LookView {
    match probe {
        Probe::Command(name) => Look::Source(powershell(source_script(name))),
        Probe::File(path) => Look::Exists(path),
        Probe::Tree(path) => Look::ReadDir(path),
    }
}

/// The search begins at the first place.
pub open spec fn search(app_name: Seq<char>, probes: Seq<Probe<Seq<char>>>) -> (
    LocatorState,
    LookView,
) {
    if probes.len() == 0 {
        (LocatorState { app_name, probes, stage: Stage::Finished }, Look::Found(None))
    } else {
        (LocatorState { app_name, probes, stage: Stage::Asked }, look_at(probes[0]))
    }
}

/// The search goes on at the next place.
pub open spec fn search_on(s: LocatorState) -> (LocatorState, LookView) {
    search(s.app_name, s.probes.drop_first())
}

/// The search ends at a path.
pub open spec fn search_ends(s: LocatorState, path: Seq<char>) -> (LocatorState, LookView) {
    (LocatorState { stage: Stage::Finished, ..s }, Look::Found(Some(path)))
}

/// The search goes on with the entries that wait: up to the executable or the next
/// directory, or on to the next place.
pub open spec fn walk(s: LocatorState, waiting: Entries) -> (LocatorState, LookView)
    decreases waiting.len(),
{
    if waiting.len() == 0 {
        search_on(s)
    } else if waiting[0].is_dir {
        (
            LocatorState {
                stage: Stage::Walking { listing: waiting[0].path, waiting: waiting.drop_first() },
                ..s
            },
            Look::ReadDir(waiting[0].path),
        )
    } else if is_wanted(waiting[0], s.app_name) {
        search_ends(s, waiting[0].path)
    } else {
        walk(s, waiting.drop_first())
    }
}

/// Where a walk leads does not rest on what was looked at before; it ends the search if
/// and only if something was found or there is nothing left to look at.
pub proof fn lemma_walk(s: LocatorState, t: LocatorState, waiting: Entries)
    requires
        s.app_name == t.app_name,
        s.probes == t.probes,
    ensures
        walk(s, waiting) == walk(t, waiting),
        walk(s, waiting).1 is Found == (walk(s, waiting).0.stage is Finished),
    decreases waiting.len(),
{
    if waiting.len() > 0 && !waiting[0].is_dir && !is_wanted(waiting[0], s.app_name) {
        lemma_walk(s, t, waiting.drop_first());
    }
}

/// What was seen answers what was looked at.
pub open spec fn locator_expects(s: LocatorState, seen: SeenView) -> bool {
    match s.stage {
        Stage::Asked => s.probes.len() > 0 && match s.probes[0] {
            Probe::Command(_) => seen is Source,
            Probe::File(_) => seen is Exists,
            Probe::Tree(_) => seen is Entries,
        },
        Stage::CheckingSource(_) => s.probes.len() > 0 && seen is Exists,
        Stage::Walking { .. } => s.probes.len() > 0 && seen is Entries,
        Stage::Finished => false,
    }
}

/// What is looked at next.
pub open spec fn locator_step(s: LocatorState, seen: SeenView) -> (LocatorState, LookView) {
    match (s.stage, seen) {
        (Stage::Asked, Seen::Source(output)) => match named_source(output) {
            Some(path) => (
                LocatorState { stage: Stage::CheckingSource(path), ..s },
                Look::Exists(path),
            ),
            None => search_on(s),
        },
        (Stage::Asked, Seen::Exists(exists)) => match s.probes[0] {
            Probe::File(path) if exists => search_ends(s, path),
            _ => search_on(s),
        },
        (Stage::CheckingSource(path), Seen::Exists(exists)) => if exists {
            search_ends(s, path)
        } else {
            search_on(s)
        },
        (Stage::Asked, Seen::Entries(entries)) => walk(s, directories(entries)),
        (Stage::Walking { listing, waiting }, Seen::Entries(entries)) => walk(s, entries + waiting),
        _ => arbitrary(),
    }
}

/// The entry at a path, of which the last part is known.
pub open spec fn entry_named(path: Seq<char>, is_dir: bool, name: Option<Seq<char>>) -> DirEntry<
    Seq<char>,
> {
    match name {
        Some(name) => DirEntry {
            path,
            is_dir,
            extension: extension_of(name),
            stem: Some(stem_of(name)),
        },
        None => DirEntry { path, is_dir, extension: None, stem: None },
    }
}

impl DirEntry {
    /// The entry at a path. Its last part is the one that Unix or Windows takes; where all
    /// operating systems agree, it is that one. On an extension they agree more often.
    pub fn new(path: String, is_dir: bool) -> (r: DirEntry)
        ensures
            exists|name: Option<Seq<char>>| #[trigger]
                possible_name(path@, name) && r@ == entry_named(path@, is_dir, name),
            obvious_name(path@) is Some ==> r@ == entry_named(path@, is_dir, obvious_name(path@)),
            ends_in_name(path@) ==> r.stem is Some,
            ends_in_name(path@) && extension_of(after_last(path@, Separators::Both)) is Some
                ==> option_view(r.extension) == extension_of(after_last(path@, Separators::Both)),
    {
        let name = file_name(path.as_str());
        let ghost named = option_view(name);
        proof {
            assert(possible_name(path@, named));
            if obvious_name(path@) is Some {
                law_obvious_name_is_the_name(path@, named);
            }
            if ends_in_name(path@) {
                law_possible_names_end_alike(path@, named);
            }
        }
        DirEntry::named(path, is_dir, name)
    }

    /// The entry at a path, of which the last part is known.
    pub fn named(path: String, is_dir: bool, name: Option<String>) -> (r: DirEntry)
        ensures
            r@ == entry_named(path@, is_dir, option_view(name)),
    {
        match name {
            Some(name) => {
                let extension = extension(name.as_str());
                let stem = file_stem(name.as_str());
                DirEntry { path, is_dir, extension, stem: Some(stem) }
            },
            None => DirEntry { path, is_dir, extension: None, stem: None },
        }
    }

    /// Tells whether the entry is an executable with a name that is the application's,
    /// given the two names in lower case.
    pub fn is_executable_named(&self, lowered_stem: &str, lowered_name: &str) -> (r: bool)
        ensures
            r == (!self.is_dir && option_view(self.extension) == Some("exe"@) && self.stem is Some
                && lowered_stem@ == lowered_name@),
    {
        if self.is_dir || self.stem.is_none() {
            return false;
        }
        match &self.extension {
            Some(extension) => same_text(extension.as_str(), "exe") && same_text(
                lowered_stem,
                lowered_name,
            ),
            None => false,
        }
    }

    /// Tells whether the entry is the application's executable.
    fn is_wanted(&self, app_name: &str) -> (r: bool)
        ensures
            r == is_wanted(self@, app_name@),
    {
        match &self.stem {
            Some(stem) => self.is_executable_named(
                to_lowercase(stem.as_str()).as_str(),
                to_lowercase(app_name).as_str(),
            ),
            None => false,
        }
    }
}

/// Tells whether a setting names an executable by its path, given the setting in lower
/// case.
pub fn names_executable(setting: &str, lowered: &str) -> (r: bool)
    ensures
        r == ((setting@.contains('\\') || setting@.contains('/')) && ".exe"@.is_suffix_of(
            lowered@,
        )),
{
    (has_char(setting, '\\') || has_char(setting, '/')) && ends_with(lowered, ".exe")
}

/// The path that the shell named, if it named one.
pub fn source_path(output: Option<(bool, Vec<u8>)>) -> (r: Option<String>)
    ensures
        option_view(r) == named_source(
            match output {
                Some((success, bytes)) => Some((success, bytes@)),
                None => None,
            },
        ),
{
    match output {
        Some((true, bytes)) => match decode_text(bytes) {
            Ok(text) => {
                let path = trim(text.as_str());
                if path.is_empty() {
                    None
                } else {
                    Some(path.to_string())
                }
            },
            Err(_) => None,
        },
        _ => None,
    }
}

/// Lists the places where package managers put an application.
fn binary_probes(
    app_name: &str,
    local_app_data: &Option<String>,
    user: &Option<String>,
) -> (r: Vec<Probe>)
    ensures
        probe_views(r@) == binary_places(
            app_name@,
            option_view(*local_app_data),
            option_view(*user),
        ),
{
    let mut r = vec![
        Probe::Command(app_name.to_string()),
        Probe::File(
            "C:\\ProgramData\\chocolatey\\bin\\".to_string().concat(app_name).concat(".exe"),
        ),
        Probe::Tree("C:\\ProgramData\\chocolatey\\lib\\".to_string().concat(app_name)),
    ];
    if let Some(dir) = local_app_data {
        r.push(Probe::Tree(dir.clone().concat("\\Microsoft\\WinGet\\Packages")));
    }
    if let Some(user) = user {
        r.push(
            Probe::File(
                "C:\\Users\\".to_string().concat(user.as_str()).concat("\\scoop\\apps\\").concat(
                    app_name,
                ).concat("\\current\\").concat(app_name).concat(".exe"),
            ),
        );
    }
    r.push(
        Probe::File(
            "C:\\Program Files\\".to_string().concat(app_name).concat("\\").concat(
                app_name,
            ).concat(".exe"),
        ),
    );
    r.push(
        Probe::File(
            "C:\\Program Files (x86)\\".to_string().concat(app_name).concat("\\").concat(
                app_name,
            ).concat(".exe"),
        ),
    );
    assert(probe_views(r@) =~= binary_places(
        app_name@,
        option_view(*local_app_data),
        option_view(*user),
    ));
    r
}

/// Lists the places where the application of the settings may be.
fn resolve_probes(
    setting: &str,
    local_app_data: &Option<String>,
    user: &Option<String>,
) -> (r: Vec<Probe>)
    ensures
        probe_views(r@) == resolve_places(
            setting@,
            option_view(*local_app_data),
            option_view(*user),
        ),
{
    let mut r: Vec<Probe> = Vec::new();
    if names_executable(setting, to_lowercase(setting).as_str()) {
        r.push(Probe::File(setting.to_string()));
    }
    if !setting.is_empty() {
        r.push(Probe::Command(setting.to_string()));
        let ghost before = r@;
        let mut more = binary_probes(setting, local_app_data, user);
        let ghost added = more@;
        r.append(&mut more);
        assert(probe_views(r@) =~= probe_views(before) + probe_views(added));
    }
    assert(probe_views(r@) =~= resolve_places(
        setting@,
        option_view(*local_app_data),
        option_view(*user),
    ));
    r
}

/// The stack that gives back entries in the order in which they are listed, before those
/// that wait already.
fn stacked(entries: Vec<DirEntry>, waiting: Vec<DirEntry>, only_dirs: bool) -> (r: Vec<DirEntry>)
    ensures
        stack_view(r@) == (if only_dirs {
            directories(entry_views(entries@))
        } else {
            entry_views(entries@)
        }) + stack_view(waiting@),
{
    let mut entries = entries;
    let mut r = waiting;
    let ghost all = entry_views(entries@);
    let ghost below = stack_view(waiting@);
    assert(all.skip(all.len() as int) =~= seq![]);
    assert(directories(all.skip(all.len() as int)) =~= seq![]);
    assert(stack_view(r@) =~= all.skip(all.len() as int) + below);
    assert(stack_view(r@) =~= directories(all.skip(all.len() as int)) + below);
    while entries.len() > 0
        invariant
            entry_views(entries@) == all.take(entries.len() as int),
            entries.len() <= all.len(),
            stack_view(r@) == (if only_dirs {
                directories(all.skip(entries.len() as int))
            } else {
                all.skip(entries.len() as int)
            }) + below,
        decreases entries.len(),
    {
        let ghost n = entries.len() as int;
        let ghost last = entries@[n - 1];
        let ghost before = r@;
        let ghost listed = entries@;
        proof {
            assert(entry_views(entries@)[n - 1] == all[n - 1]);
            assert(all.skip(n - 1).drop_first() =~= all.skip(n));
            assert(all.skip(n - 1)[0] == last@);
        }
        match entries.pop() {
            Some(entry) => {
                if !only_dirs || entry.is_dir {
                    r.push(entry);
                    assert(stack_view(r@) =~= seq![entry@] + stack_view(before));
                }
            },
            None => {},
        }
        assert(entry_views(entries@) =~= all.take(n - 1)) by {
            assert forall|i: int| 0 <= i < n - 1 implies entry_views(entries@)[i] == all[i] by {
                assert(entry_views(listed)[i] == all.take(n)[i]);
            }
        }
        assert(stack_view(r@) =~= (if only_dirs {
            directories(all.skip(n - 1))
        } else {
            all.skip(n - 1)
        }) + below);
    }
    assert(all.skip(0) =~= all);
    r
}

impl Locator {
    /// The look at the first of the places that are left.
    fn look(&mut self) -> (r: Look)
        requires
            old(self).at <= old(self).probes.len(),
        ensures
            (final(self)@, r@) == search(old(self)@.app_name, old(self)@.probes),
            final(self).wf(),
    {
        if self.at >= self.probes.len() {
            self.stage = Stage::Finished;
            return Look::Found(None);
        }
        self.stage = Stage::Asked;
        assert(self@.probes[0] == self.probes@[self.at as int]@);
        match &self.probes[self.at] {
            Probe::Command(name) => Look::Source(source_line(name.as_str())),
            Probe::File(path) => Look::Exists(path.clone()),
            Probe::Tree(path) => Look::ReadDir(path.clone()),
        }
    }

    /// What holds of a search at all times: there are places left as long as it goes on.
    pub closed spec fn wf(self) -> bool {
        &&& self.at <= self.probes.len()
        &&& self.stage is Finished || self.at < self.probes.len()
    }

    /// Begins a search at the first of some places.
    pub fn start(app_name: &str, probes: Vec<Probe>) -> (r: (Locator, Look))
        ensures
            (r.0@, r.1@) == search(app_name@, probe_views(probes@)),
            r.0.wf(),
    {
        let mut locator = Locator {
            app_name: app_name.to_string(),
            probes,
            at: 0,
            stage: Stage::Finished,
        };
        assert(locator@.probes =~= probe_views(probes@));
        let look = locator.look();
        (locator, look)
    }

    /// Goes on at the next place.
    fn next_place(&mut self) -> (r: Look)
        requires
            old(self).at < old(self).probes.len(),
        ensures
            (final(self)@, r@) == search_on(old(self)@),
            final(self).wf(),
    {
        let ghost before = self@;
        self.at = self.at + 1;
        assert(self@.probes =~= before.probes.drop_first());
        self.look()
    }

    /// Ends the search at a path.
    fn finish(&mut self, path: String) -> (r: Look)
        requires
            old(self).at < old(self).probes.len(),
        ensures
            (final(self)@, r@) == search_ends(old(self)@, path@),
            final(self).wf(),
    {
        self.stage = Stage::Finished;
        Look::Found(Some(path))
    }

    /// Goes on with the entries that wait.
    fn find_exe_recursive(&mut self, entries: Vec<DirEntry>) -> (r: Look)
        requires
            old(self).at < old(self).probes.len(),
        ensures
            (final(self)@, r@) == walk(old(self)@, stack_view(entries@)),
            final(self).wf(),
    {
        let mut waiting = entries;
        while waiting.len() > 0
            invariant
                *self == *old(self),
                self.at < self.probes.len(),
                walk(self@, stack_view(waiting@)) == walk(self@, stack_view(entries@)),
            decreases waiting.len(),
        {
            let ghost stack = stack_view(waiting@);
            let ghost rest = waiting@.drop_last();
            proof {
                assert(stack[0] == waiting@.last()@);
                assert(stack.drop_first() =~= stack_view(rest));
            }
            match waiting.pop() {
                Some(entry) => {
                    if entry.is_dir {
                        let path = entry.path.clone();
                        self.stage = Stage::Walking { listing: entry.path, waiting };
                        return Look::ReadDir(path);
                    }
                    if entry.is_wanted(self.app_name.as_str()) {
                        return self.finish(entry.path);
                    }
                },
                None => {},
            }
        }
        self.next_place()
    }

    /// Takes in what was seen, and decides what is looked at next.
    pub fn step(&mut self, seen: Seen) -> (r: Look)
        requires
            old(self).wf(),
            locator_expects(old(self)@, seen@),
        ensures
            (final(self)@, r@) == locator_step(old(self)@, seen@),
            final(self).wf(),
            r is Found == (final(self)@.stage is Finished),
    {
        assert(self.at < self.probes.len() ==> self@.probes[0] == self.probes@[self.at as int]@);
        match seen {
            Seen::Source(output) => match source_path(output) {
                Some(path) => {
                    self.stage = Stage::CheckingSource(path.clone());
                    Look::Exists(path)
                },
                None => self.next_place(),
            },
            Seen::Exists(exists) => {
                if !exists {
                    return self.next_place();
                }
                let path = match (&self.stage, &self.probes[self.at]) {
                    (Stage::CheckingSource(path), _) => path.clone(),
                    (_, Probe::File(path)) => path.clone(),
                    _ => String::new(),
                };
                self.finish(path)
            },
            Seen::Entries(entries) => {
                let mut stage: Stage = Stage::Finished;
                std::mem::swap(&mut self.stage, &mut stage);
                let ghost here = self@;
                match stage {
                    Stage::Walking { listing: _, waiting } => {
                        let all = stacked(entries, waiting, false);
                        proof {
                            lemma_walk(here, old(self)@, stack_view(all@));
                        }
                        self.find_exe_recursive(all)
                    },
                    _ => {
                        let none: Vec<DirEntry> = Vec::new();
                        let ghost dirs = directories(entry_views(entries@));
                        assert(dirs + stack_view(none@) =~= dirs);
                        let all = stacked(entries, none, true);
                        proof {
                            lemma_walk(here, old(self)@, stack_view(all@));
                        }
                        self.find_exe_recursive(all)
                    },
                }
            },
        }
    }
}

/// Begins to look for the application where the shell finds a command of its name.
pub fn find_app_by_name(app_name: &str) -> (r: (Locator, Look))
    ensures
        (r.0@, r.1@) == search(app_name@, seq![Probe::Command(app_name@)]),
        r.0.wf(),
{
    let probes = vec![Probe::Command(app_name.to_string())];
    assert(probe_views(probes@) =~= seq![Probe::Command(app_name@)]);
    Locator::start(app_name, probes)
}

/// Begins to look for the application where package managers put it.
pub fn find_app_binary(
    app_name: &str,
    local_app_data: &Option<String>,
    user: &Option<String>,
) -> (r: (Locator, Look))
    ensures
        (r.0@, r.1@) == search(
            app_name@,
            binary_places(app_name@, option_view(*local_app_data), option_view(*user)),
        ),
        r.0.wf(),
{
    Locator::start(app_name, binary_probes(app_name, local_app_data, user))
}

/// The places where an application may be that was just installed: those where package
/// managers put it, and once more where the shell finds it.
pub open spec fn installed_places(
    app_name: Seq<char>,
    local_app_data: Option<Seq<char>>,
    user: Option<Seq<char>>,
) -> Seq<Probe<Seq<char>>> {
    binary_places(app_name, local_app_data, user).push(Probe::Command(app_name))
}

/// Begins to look for an application that was just installed.
pub fn find_installed(
    app_name: &str,
    local_app_data: &Option<String>,
    user: &Option<String>,
) -> (r: (Locator, Look))
    ensures
        (r.0@, r.1@) == search(
            app_name@,
            installed_places(app_name@, option_view(*local_app_data), option_view(*user)),
        ),
        r.0.wf(),
{
    let mut probes = binary_probes(app_name, local_app_data, user);
    let ghost before = probes@;
    probes.push(Probe::Command(app_name.to_string()));
    assert(probe_views(probes@) =~= probe_views(before).push(Probe::Command(app_name@)));
    Locator::start(app_name, probes)
}

/// Begins to look for the application of the settings.
pub fn resolve_app_path(
    app_path_from_config: &str,
    local_app_data: &Option<String>,
    user: &Option<String>,
) -> (r: (Locator, Look))
    ensures
        (r.0@, r.1@) == search(
            app_path_from_config@,
            resolve_places(app_path_from_config@, option_view(*local_app_data), option_view(*user)),
        ),
        r.0.wf(),
{
    Locator::start(
        app_path_from_config,
        resolve_probes(app_path_from_config, local_app_data, user),
    )
}

} // verus!
