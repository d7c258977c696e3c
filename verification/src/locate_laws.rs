//! What a whole search comes to, on a file system that does not change meanwhile.

use vstd::prelude::*;
use vstd::utf8::{encode_utf8, encode_utf8_decode_utf8, encode_utf8_valid_utf8, valid_utf8};

use crate::command::{powershell, source_script, CommandLine};
use crate::config_laws::{is_blank, is_tight, law_white_space_around_is_trimmed};
use crate::external::lowercase;
use crate::locate::{
    binary_places, directories, entry_named, installed_places, is_executable_path, is_wanted,
    lemma_walk, locator_expects, locator_step, named_source, resolve_places, search, search_ends,
    walk, DirEntry, Entries, LocatorState, Look, LookView, Probe, Seen, SeenView, Stage,
};
use crate::path::{
    extension_of, law_name_is_stem_and_extension, law_stem_and_extension_of_a_name,
    lemma_stem_not_empty, stem_of,
};

verus! {

/// A file system and a shell that stay as they are.
pub struct World {
    /// Whether there is a file at a path.
    pub exists: spec_fn(Seq<char>) -> bool,
    /// The entries of the directory at a path.
    pub entries: spec_fn(Seq<char>) -> Entries,
    /// Whether a command succeeds and what it prints, if it can be run.
    pub output: spec_fn(CommandLine) -> Option<(bool, Seq<u8>)>,
}

/// What is seen when one looks.
pub open spec fn answer(world: World, look: LookView) -> SeenView {
    match look {
        Look::Source(line) => Seen::Source((world.output)(line)),
        Look::Exists(path) => Seen::Exists((world.exists)(path)),
        Look::ReadDir(path) => Seen::Entries((world.entries)(path)),
        Look::Found(_) => arbitrary(),
    }
}

/// A search after so many more looks, or where it ended.
pub open spec fn run(world: World, at: (LocatorState, LookView), looks: nat) -> (
    LocatorState,
    LookView,
)
    decreases looks,
{
    if looks == 0 || at.1 is Found {
        at
    } else {
        run(world, locator_step(at.0, answer(world, at.1)), (looks - 1) as nat)
    }
}

/// The executable among entries and in the directories among them, to a certain depth:
/// the first that comes when each directory is gone through where it stands.
pub open spec fn first_in(world: World, entries: Entries, app_name: Seq<char>, depth: nat) -> Option<
    Seq<char>,
>
    decreases depth, entries.len(),
{
    if entries.len() == 0 {
        None
    } else if entries[0].is_dir {
        let inside = if depth == 0 {
            None
        } else {
            first_in(world, (world.entries)(entries[0].path), app_name, (depth - 1) as nat)
        };
        if inside is Some {
            inside
        } else {
            first_in(world, entries.drop_first(), app_name, depth)
        }
    } else if is_wanted(entries[0], app_name) {
        Some(entries[0].path)
    } else {
        first_in(world, entries.drop_first(), app_name, depth)
    }
}

/// Directories are nested no deeper than this.
pub open spec fn nested_within(world: World, entries: Entries, depth: nat) -> bool
    decreases depth, entries.len(),
{
    if entries.len() == 0 {
        true
    } else {
        &&& entries[0].is_dir ==> depth > 0 && nested_within(
            world,
            (world.entries)(entries[0].path),
            (depth - 1) as nat,
        )
        &&& nested_within(world, entries.drop_first(), depth)
    }
}

/// The executable at a place.
pub open spec fn found_at(
    world: World,
    app_name: Seq<char>,
    probe: Probe<Seq<char>>,
    depth: nat,
) -> Option<Seq<char>> {
    match probe {
        Probe::Command(name) => match named_source(
            (world.output)(powershell(source_script(name))),
        ) {
            Some(path) if (world.exists)(path) => Some(path),
            _ => None,
        },
        Probe::File(path) => if (world.exists)(path) {
            Some(path)
        } else {
            None
        },
        Probe::Tree(path) => first_in(world, directories((world.entries)(path)), app_name, depth),
    }
}

/// The executable at the first of the places that has one.
pub open spec fn found_first(
    world: World,
    app_name: Seq<char>,
    probes: Seq<Probe<Seq<char>>>,
    depth: nat,
) -> Option<Seq<char>>
    decreases probes.len(),
{
    if probes.len() == 0 {
        None
    } else if found_at(world, app_name, probes[0], depth) is Some {
        found_at(world, app_name, probes[0], depth)
    } else {
        found_first(world, app_name, probes.drop_first(), depth)
    }
}

/// No directory at the places nests deeper than this.
pub open spec fn places_within(
    world: World,
    probes: Seq<Probe<Seq<char>>>,
    depth: nat,
) -> bool {
    forall|i: int|
        0 <= i < probes.len() ==> match #[trigger] probes[i] {
            Probe::Tree(path) => nested_within(
                world,
                directories((world.entries)(path)),
                depth,
            ),
            _ => true,
        }
}

/// Looks can be counted in two parts.
proof fn lemma_run_on(world: World, at: (LocatorState, LookView), a: nat, b: nat)
    ensures
        run(world, run(world, at, a), b) == run(world, at, a + b),
    decreases a,
{
    if a > 0 && !(at.1 is Found) {
        lemma_run_on(world, locator_step(at.0, answer(world, at.1)), (a - 1) as nat, b);
    }
}

/// Going through entries before others that wait ends at the executable among them, or
/// goes on with the others.
proof fn lemma_walk_run(
    world: World,
    s: LocatorState,
    entries: Entries,
    waiting: Entries,
    depth: nat,
) -> (looks: nat)
    requires
        s.probes.len() > 0,
        nested_within(world, entries, depth),
    ensures
        run(world, walk(s, entries + waiting), looks) == match first_in(
            world,
            entries,
            s.app_name,
            depth,
        ) {
            Some(path) => search_ends(s, path),
            None => walk(s, waiting),
        },
    decreases depth, entries.len(),
{
    let all = entries + waiting;
    if entries.len() == 0 {
        assert(all =~= waiting);
        0
    } else {
        let rest = entries.drop_first();
        assert(all.drop_first() =~= rest + waiting);
        assert(all[0] == entries[0]);
        if entries[0].is_dir {
            let inside = (world.entries)(entries[0].path);
            let here = walk(s, all);
            let next = locator_step(here.0, answer(world, here.1));
            lemma_walk(here.0, s, inside + (rest + waiting));
            assert(next == walk(s, inside + (rest + waiting)));
            let a = lemma_walk_run(world, s, inside, rest + waiting, (depth - 1) as nat);
            let b = lemma_walk_run(world, s, rest, waiting, depth);
            assert(run(world, here, 1 + a) == run(world, next, a));
            lemma_run_on(world, here, 1 + a, b);
            if first_in(world, inside, s.app_name, (depth - 1) as nat) is Some {
                1 + a
            } else {
                1 + a + b
            }
        } else if is_wanted(entries[0], s.app_name) {
            0
        } else {
            lemma_walk_run(world, s, rest, waiting, depth)
        }
    }
}

/// Looking at the first place ends there, or goes on at the next.
proof fn lemma_place_run(
    world: World,
    app_name: Seq<char>,
    probes: Seq<Probe<Seq<char>>>,
    depth: nat,
) -> (looks: nat)
    requires
        probes.len() > 0,
        places_within(world, probes, depth),
    ensures
        match found_at(world, app_name, probes[0], depth) {
            Some(path) => run(world, search(app_name, probes), looks).1 == LookView::Found(
                Some(path),
            ),
            None => run(world, search(app_name, probes), looks) == search(
                app_name,
                probes.drop_first(),
            ),
        },
{
    let here = search(app_name, probes);
    let next = locator_step(here.0, answer(world, here.1));
    assert(run(world, here, 1) == run(world, next, 0));
    match probes[0] {
        Probe::Command(name) => {
            if named_source((world.output)(powershell(source_script(name)))) is Some {
                let last = locator_step(next.0, answer(world, next.1));
                assert(run(world, next, 1) == run(world, last, 0));
                lemma_run_on(world, here, 1, 1);
                2
            } else {
                1
            }
        },
        Probe::File(path) => 1,
        Probe::Tree(path) => {
            let dirs = directories((world.entries)(path));
            let none: Entries = seq![];
            assert(dirs + none =~= dirs);
            let looks = lemma_walk_run(world, here.0, dirs, none, depth);
            lemma_run_on(world, here, 1, looks);
            1 + looks
        },
    }
}

/// A search over directories that are not nested without end comes to an end, and ends
/// with the executable at the first of the places that has one, or with nothing if none
/// has.
pub proof fn law_search_finds_the_first(
    world: World,
    app_name: Seq<char>,
    probes: Seq<Probe<Seq<char>>>,
    depth: nat,
) -> (looks: nat)
    requires
        places_within(world, probes, depth),
    ensures
        run(world, search(app_name, probes), looks).1 == LookView::Found(
            found_first(world, app_name, probes, depth),
        ),
    decreases probes.len(),
{
    if probes.len() == 0 {
        0
    } else {
        let rest = probes.drop_first();
        assert forall|i: int| 0 <= i < rest.len() implies match #[trigger] rest[i] {
            Probe::Tree(path) => nested_within(
                world,
                directories((world.entries)(path)),
                depth,
            ),
            _ => true,
        } by {
            assert(rest[i] == probes[i + 1]);
        }
        let a = lemma_place_run(world, app_name, probes, depth);
        if found_at(world, app_name, probes[0], depth) is Some {
            a
        } else {
            let b = law_search_finds_the_first(world, app_name, rest, depth);
            lemma_run_on(world, search(app_name, probes), a, b);
            a + b
        }
    }
}

/// A setting that is the path of an executable that exists is taken as it is.
pub proof fn law_existing_path_is_taken(
    world: World,
    setting: Seq<char>,
    local_app_data: Option<Seq<char>>,
    user: Option<Seq<char>>,
    depth: nat,
)
    requires
        is_executable_path(setting),
        (world.exists)(setting),
    ensures
        found_first(world, setting, resolve_places(setting, local_app_data, user), depth) == Some(
            setting,
        ),
{
    assert(resolve_places(setting, local_app_data, user)[0] == Probe::File(setting));
}

/// What a search ends with was seen: it is the path of a file that was looked for and
/// exists, or that of an executable in a directory that was listed.
pub proof fn law_found_path_was_seen(s: LocatorState, look: LookView, seen: SeenView)
    requires
        locator_expects(s, seen),
        looked_at(s) == look,
    ensures
        locator_step(s, seen).1 matches Look::Found(Some(path)) ==> {
            ||| look == LookView::Exists(path) && seen == SeenView::Exists(true)
            ||| exists|i: int| #![trigger in_reach(s, seen)[i]]
                0 <= i < in_reach(s, seen).len() && in_reach(s, seen)[i].path == path && is_wanted(
                    in_reach(s, seen)[i],
                    s.app_name,
                )
        },
{
    if seen is Entries {
        lemma_walk_finds(s, in_reach(s, seen));
    }
}

/// What a search is looking at.
pub open spec fn looked_at(s: LocatorState) -> LookView {
    match s.stage {
        Stage::Asked => search(s.app_name, s.probes).1,
        Stage::CheckingSource(path) => Look::Exists(path),
        Stage::Walking { listing, waiting } => Look::ReadDir(listing),
        Stage::Finished => arbitrary(),
    }
}

/// The entries that are gone through next: those that were listed, and those that wait.
pub open spec fn in_reach(s: LocatorState, seen: SeenView) -> Entries {
    match (s.stage, seen) {
        (Stage::Asked, Seen::Entries(entries)) => directories(entries),
        (Stage::Walking { listing, waiting }, Seen::Entries(entries)) => entries + waiting,
        _ => seq![],
    }
}

/// A walk ends only at an executable among the entries.
proof fn lemma_walk_finds(s: LocatorState, waiting: Entries)
    ensures
        walk(s, waiting).1 matches Look::Found(Some(path)) ==> exists|i: int|
            0 <= i < waiting.len() && (#[trigger] waiting[i]).path == path && is_wanted(
                waiting[i],
                s.app_name,
            ),
    decreases waiting.len(),
{
    if waiting.len() > 0 && !waiting[0].is_dir && !is_wanted(waiting[0], s.app_name) {
        let rest = waiting.drop_first();
        lemma_walk_finds(s, rest);
        if let Look::Found(Some(path)) = walk(s, waiting).1 {
            let i = choose|i: int|
                0 <= i < rest.len() && (#[trigger] rest[i]).path == path && is_wanted(
                    rest[i],
                    s.app_name,
                );
            assert(waiting[i + 1] == rest[i]);
        }
    }
}

/// What is found at two groups of places is what is found at the first, or else at the
/// second.
proof fn lemma_found_concat(
    world: World,
    app_name: Seq<char>,
    a: Seq<Probe<Seq<char>>>,
    b: Seq<Probe<Seq<char>>>,
    depth: nat,
)
    ensures
        found_first(world, app_name, a + b, depth) == if found_first(
            world,
            app_name,
            a,
            depth,
        ) is Some {
            found_first(world, app_name, a, depth)
        } else {
            found_first(world, app_name, b, depth)
        },
    decreases a.len(),
{
    if a.len() == 0 {
        assert(a + b =~= b);
    } else {
        lemma_found_concat(world, app_name, a.drop_first(), b, depth);
        assert((a + b).drop_first() =~= a.drop_first() + b);
        assert((a + b)[0] == a[0]);
    }
}

/// What is found at one place.
proof fn lemma_found_one(
    world: World,
    app_name: Seq<char>,
    probe: Probe<Seq<char>>,
    depth: nat,
)
    ensures
        found_first(world, app_name, seq![probe], depth) == found_at(world, app_name, probe, depth),
{
    let rest = seq![probe].drop_first();
    assert(rest =~= seq![]);
    assert(found_first(world, app_name, rest, depth) is None);
}

/// Where the shell finds a command of this name, if there is a file.
pub open spec fn shell_finds(world: World, name: Seq<char>) -> Option<Seq<char>> {
    match named_source((world.output)(powershell(source_script(name)))) {
        Some(path) if (world.exists)(path) => Some(path),
        _ => None,
    }
}

/// The executable in a directory inside this one, or deeper.
pub open spec fn packages_hold(
    world: World,
    dir: Seq<char>,
    app_name: Seq<char>,
    depth: nat,
) -> Option<Seq<char>> {
    first_in(
        world,
        (world.entries)(dir).filter(|e: DirEntry<Seq<char>>| e.is_dir),
        app_name,
        depth,
    )
}

/// A file that may be there.
pub open spec fn file_if_there(world: World, path: Seq<char>) -> Option<Seq<char>> {
    if (world.exists)(path) {
        Some(path)
    } else {
        None
    }
}

/// The first of two that is there.
pub open spec fn or_else(a: Option<Seq<char>>, b: Option<Seq<char>>) -> Option<Seq<char>> {
    if a is Some {
        a
    } else {
        b
    }
}

/// The directories among entries are the entries that are directories, in their order.
pub proof fn law_directories_are_all_of_them(entries: Entries)
    ensures
        directories(entries) == entries.filter(|e: DirEntry<Seq<char>>| e.is_dir),
    decreases entries.len(),
{
    let pred = |e: DirEntry<Seq<char>>| e.is_dir;
    reveal(Seq::filter);
    if entries.len() > 0 {
        let rest = entries.drop_first();
        law_directories_are_all_of_them(rest);
        assert(entries =~= seq![entries[0]] + rest);
        Seq::filter_distributes_over_add(seq![entries[0]], rest, pred);
        let one = seq![entries[0]];
        assert(one.drop_last() =~= seq![]);
        assert(one.drop_last().filter(pred) =~= seq![]);
        assert(one.filter(pred) =~= if entries[0].is_dir {
            one
        } else {
            seq![]
        });
        assert(directories(entries) =~= entries.filter(pred));
    } else {
        assert(entries.filter(pred) =~= seq![]);
    }
}

/// The search by the package managers' places finds what the shell finds; or else
/// Chocolatey's shim, what Chocolatey's packages hold, what winget's packages in the user's
/// data hold, what Scoop has as the current version for the user, and what stands in the
/// program directories. What comes first in this order is found, and nothing only if there
/// is nothing at any of these places.
pub proof fn law_package_places_are_searched_in_order(
    world: World,
    name: Seq<char>,
    local_app_data: Option<Seq<char>>,
    user: Option<Seq<char>>,
    depth: nat,
)
    ensures
        found_first(world, name, binary_places(name, local_app_data, user), depth) == or_else(
            shell_finds(world, name),
            or_else(
                file_if_there(world, "C:\\ProgramData\\chocolatey\\bin\\"@ + name + ".exe"@),
                or_else(
                    packages_hold(
                        world,
                        "C:\\ProgramData\\chocolatey\\lib\\"@ + name,
                        name,
                        depth,
                    ),
                    or_else(
                        match local_app_data {
                            Some(data) => packages_hold(
                                world,
                                data + "\\Microsoft\\WinGet\\Packages"@,
                                name,
                                depth,
                            ),
                            None => None,
                        },
                        or_else(
                            match user {
                                Some(user) => file_if_there(
                                    world,
                                    "C:\\Users\\"@ + user + "\\scoop\\apps\\"@ + name
                                        + "\\current\\"@ + name + ".exe"@,
                                ),
                                None => None,
                            },
                            or_else(
                                file_if_there(
                                    world,
                                    "C:\\Program Files\\"@ + name + "\\"@ + name + ".exe"@,
                                ),
                                file_if_there(
                                    world,
                                    "C:\\Program Files (x86)\\"@ + name + "\\"@ + name + ".exe"@,
                                ),
                            ),
                        ),
                    ),
                ),
            ),
        ),
{
    let shell = Probe::Command(name);
    let shim = Probe::File("C:\\ProgramData\\chocolatey\\bin\\"@ + name + ".exe"@);
    let choco = Probe::Tree("C:\\ProgramData\\chocolatey\\lib\\"@ + name);
    let programs = Probe::File("C:\\Program Files\\"@ + name + "\\"@ + name + ".exe"@);
    let programs86 = Probe::File("C:\\Program Files (x86)\\"@ + name + "\\"@ + name + ".exe"@);
    let nothing: Seq<Probe<Seq<char>>> = seq![];
    let winget = match local_app_data {
        Some(data) => seq![Probe::Tree(data + "\\Microsoft\\WinGet\\Packages"@)],
        None => nothing,
    };
    let scoop = match user {
        Some(user) => seq![
            Probe::File(
                "C:\\Users\\"@ + user + "\\scoop\\apps\\"@ + name + "\\current\\"@ + name
                    + ".exe"@,
            ),
        ],
        None => nothing,
    };
    let p3 = seq![programs] + seq![programs86];
    let p2 = scoop + p3;
    let p1 = winget + p2;
    let q2 = seq![choco] + p1;
    let q1 = seq![shim] + q2;
    assert(binary_places(name, local_app_data, user) =~= seq![shell] + q1);
    lemma_found_concat(world, name, seq![shell], q1, depth);
    lemma_found_concat(world, name, seq![shim], q2, depth);
    lemma_found_concat(world, name, seq![choco], p1, depth);
    lemma_found_concat(world, name, winget, p2, depth);
    lemma_found_concat(world, name, scoop, p3, depth);
    lemma_found_concat(world, name, seq![programs], seq![programs86], depth);
    lemma_found_one(world, name, shell, depth);
    lemma_found_one(world, name, shim, depth);
    lemma_found_one(world, name, choco, depth);
    lemma_found_one(world, name, programs, depth);
    lemma_found_one(world, name, programs86, depth);
    assert(found_first(world, name, nothing, depth) is None);
    law_directories_are_all_of_them(
        (world.entries)("C:\\ProgramData\\chocolatey\\lib\\"@ + name),
    );
    if let Some(data) = local_app_data {
        lemma_found_one(world, name, winget[0], depth);
        law_directories_are_all_of_them(
            (world.entries)(data + "\\Microsoft\\WinGet\\Packages"@),
        );
    }
    if user is Some {
        lemma_found_one(world, name, scoop[0], depth);
    }
}

/// The search for a setting takes it as it is if it is the path of an executable that exists,
/// whatever the case of its extension; else it finds what the search by the package managers'
/// places finds for the setting as a name. For an empty setting nothing is found.
pub proof fn law_setting_is_a_path_or_a_name(
    world: World,
    setting: Seq<char>,
    local_app_data: Option<Seq<char>>,
    user: Option<Seq<char>>,
    depth: nat,
)
    ensures
        setting.len() > 0 ==> found_first(
            world,
            setting,
            resolve_places(setting, local_app_data, user),
            depth,
        ) == if (setting.contains('/') || setting.contains('\\')) && ".exe"@.is_suffix_of(
            lowercase(setting),
        ) && (world.exists)(setting) {
            Some(setting)
        } else {
            found_first(world, setting, binary_places(setting, local_app_data, user), depth)
        },
        setting.len() == 0 ==> found_first(
            world,
            setting,
            resolve_places(setting, local_app_data, user),
            depth,
        ) is None,
{
    let places = resolve_places(setting, local_app_data, user);
    let binary = binary_places(setting, local_app_data, user);
    let shell = seq![Probe::Command(setting)];
    lemma_found_one(world, setting, Probe::Command(setting), depth);
    lemma_found_one(world, setting, Probe::File(setting), depth);
    if setting.len() > 0 {
        lemma_found_concat(world, setting, shell, binary, depth);
        law_package_places_are_searched_in_order(world, setting, local_app_data, user, depth);
        if is_executable_path(setting) {
            assert(places =~= seq![Probe::File(setting)] + (shell + binary));
            lemma_found_concat(world, setting, seq![Probe::File(setting)], shell + binary, depth);
        } else {
            assert(places =~= shell + binary);
        }
    } else {
        assert(!setting.contains('/') && !setting.contains('\\'));
        assert(places =~= seq![]);
    }
}

/// A setting that is not empty is found if the shell names an existing path for it, or if
/// the search by the package managers' places finds it. If the setting is no path of an
/// executable, the shell is asked first.
pub proof fn law_what_is_installed_is_found(
    world: World,
    setting: Seq<char>,
    local_app_data: Option<Seq<char>>,
    user: Option<Seq<char>>,
    depth: nat,
)
    requires
        setting.len() > 0,
    ensures
        shell_finds(world, setting) is Some || found_first(
            world,
            setting,
            binary_places(setting, local_app_data, user),
            depth,
        ) is Some ==> found_first(
            world,
            setting,
            resolve_places(setting, local_app_data, user),
            depth,
        ) is Some,
        !setting.contains('/') && !setting.contains('\\') ==> {
            &&& search(setting, resolve_places(setting, local_app_data, user)).1
                == LookView::Source(powershell(source_script(setting)))
            &&& shell_finds(world, setting) is Some ==> found_first(
                world,
                setting,
                resolve_places(setting, local_app_data, user),
                depth,
            ) == shell_finds(world, setting)
        },
{
    law_setting_is_a_path_or_a_name(world, setting, local_app_data, user, depth);
    law_package_places_are_searched_in_order(world, setting, local_app_data, user, depth);
    if !setting.contains('/') && !setting.contains('\\') {
        assert(resolve_places(setting, local_app_data, user)[0] == Probe::Command(setting));
    }
}

/// The search after an installation finds what the search by the package managers' places
/// finds for the same user and the same data directory, and asks the shell once more at the
/// end.
pub proof fn law_search_after_an_installation_misses_nothing(
    world: World,
    name: Seq<char>,
    local_app_data: Option<Seq<char>>,
    user: Option<Seq<char>>,
    depth: nat,
)
    ensures
        found_first(world, name, installed_places(name, local_app_data, user), depth)
            == found_first(world, name, binary_places(name, local_app_data, user), depth),
        installed_places(name, local_app_data, user).last() == Probe::Command(name),
        installed_places(name, local_app_data, user).len() == binary_places(
            name,
            local_app_data,
            user,
        ).len() + 1,
        local_app_data is Some && packages_hold(
            world,
            local_app_data->0 + "\\Microsoft\\WinGet\\Packages"@,
            name,
            depth,
        ) is Some ==> found_first(
            world,
            name,
            installed_places(name, local_app_data, user),
            depth,
        ) is Some,
        user is Some && (world.exists)(
            "C:\\Users\\"@ + user->0 + "\\scoop\\apps\\"@ + name + "\\current\\"@ + name
                + ".exe"@,
        ) ==> found_first(
            world,
            name,
            installed_places(name, local_app_data, user),
            depth,
        ) is Some,
{
    let places = binary_places(name, local_app_data, user);
    let shell = seq![Probe::Command(name)];
    assert(installed_places(name, local_app_data, user) =~= places + shell);
    lemma_found_concat(world, name, places, shell, depth);
    lemma_found_one(world, name, Probe::Command(name), depth);
    law_package_places_are_searched_in_order(world, name, local_app_data, user, depth);
}

/// Nothing in a tree is missed: where the executable is among the entries, or in one of the
/// directories among them, something is found.
pub proof fn law_nothing_in_a_tree_is_missed(
    world: World,
    entries: Entries,
    app_name: Seq<char>,
    depth: nat,
    i: int,
)
    requires
        0 <= i < entries.len(),
        is_wanted(entries[i], app_name) || (entries[i].is_dir && depth > 0 && first_in(
            world,
            (world.entries)(entries[i].path),
            app_name,
            (depth - 1) as nat,
        ) is Some),
    ensures
        first_in(world, entries, app_name, depth) is Some,
    decreases entries.len(),
{
    if i > 0 {
        assert(entries.drop_first()[i - 1] == entries[i]);
        law_nothing_in_a_tree_is_missed(world, entries.drop_first(), app_name, depth, i - 1);
    }
}

/// An executable in a directory inside that of a package manager is found.
pub proof fn law_executable_in_a_package_is_found(
    world: World,
    dir: Seq<char>,
    app_name: Seq<char>,
    depth: nat,
    i: int,
    j: int,
)
    requires
        depth > 0,
        0 <= i < (world.entries)(dir).len(),
        (world.entries)(dir)[i].is_dir,
        0 <= j < (world.entries)((world.entries)(dir)[i].path).len(),
        is_wanted((world.entries)((world.entries)(dir)[i].path)[j], app_name),
    ensures
        packages_hold(world, dir, app_name, depth) is Some,
{
    let pred = |e: DirEntry<Seq<char>>| e.is_dir;
    let entries = (world.entries)(dir);
    let dirs = entries.filter(pred);
    let inside = (world.entries)(entries[i].path);
    law_nothing_in_a_tree_is_missed(world, inside, app_name, (depth - 1) as nat, j);
    entries.lemma_filter_contains(pred, i);
    let k = choose|k: int| 0 <= k < dirs.len() && dirs[k] == entries[i];
    law_nothing_in_a_tree_is_missed(world, dirs, app_name, depth, k);
}

/// A file is the application's executable if and only if its name is the application's, but
/// for upper and lower case, followed by `.exe`. A directory never is.
pub proof fn law_executables_are_told_by_their_names(
    path: Seq<char>,
    is_dir: bool,
    name: Seq<char>,
    app_name: Seq<char>,
)
    ensures
        is_wanted(entry_named(path, is_dir, Some(name)), app_name) == (!is_dir && name.len() > 4
            && ".exe"@.is_suffix_of(name) && lowercase(name.take(name.len() - 4)) == lowercase(
            app_name,
        )),
        !is_wanted(entry_named(path, is_dir, None), app_name),
        entry_named(path, is_dir, Some(name)).path == path,
        entry_named(path, is_dir, Some(name)).is_dir == is_dir,
{
    reveal_strlit(".exe");
    reveal_strlit("exe");
    law_name_is_stem_and_extension(name);
    let n = name.len() as int;
    if n > 4 && ".exe"@.is_suffix_of(name) {
        let stem = name.take(n - 4);
        assert(name.skip(n - 4) =~= ".exe"@);
        assert(".exe"@ =~= seq!['.'] + "exe"@);
        assert(name =~= stem + name.skip(n - 4));
        assert(name =~= stem + seq!['.'] + "exe"@);
        assert(!"exe"@.contains('.'));
        law_stem_and_extension_of_a_name(stem, "exe"@);
    }
    if let Some(extension) = extension_of(name) {
        if extension == "exe"@ {
            assert(name.skip(n - 4) =~= ".exe"@);
            assert(name.take(n - 4) =~= stem_of(name));
            assert(stem_of(name).len() > 0) by {
                lemma_stem_not_empty(name);
            }
        }
    }
}

/// What the shell prints is the path, white space around it aside, if the command succeeded
/// and printed any; else there is none.
pub proof fn law_shell_names_what_it_prints(
    left: Seq<char>,
    path: Seq<char>,
    right: Seq<char>,
    bytes: Seq<u8>,
)
    requires
        is_blank(left),
        is_blank(right),
        is_tight(path),
    ensures
        named_source(Some((true, encode_utf8(left + path + right)))) == Some(path),
        named_source(Some((true, encode_utf8(left)))) is None,
        named_source(Some((false, bytes))) is None,
        !valid_utf8(bytes) ==> named_source(Some((true, bytes))) is None,
        named_source(None) is None,
{
    law_white_space_around_is_trimmed(left, path, right);
    encode_utf8_valid_utf8(left + path + right);
    encode_utf8_decode_utf8(left + path + right);
    encode_utf8_valid_utf8(left);
    encode_utf8_decode_utf8(left);
}

} // verus!
