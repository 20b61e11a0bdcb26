//! How the backend is started: its search path, its arguments and its
//! environment.

use vstd::prelude::*;

use crate::error::HostError;
use crate::failure;
use crate::failure::backend_failure_message;
use crate::json;
use crate::runtime_paths::RuntimePaths;
use crate::shell_env;
use crate::supervisor::MANAGED_RESTART_EXIT_CODE;
use crate::text;
use crate::text::{decimal_text, same_text};

verus! {

/// The profile that the backend runs with.
pub fn dsh_profile_name() -> (name: &'static str)
    ensures
        name@ == "web"@,
{
    "web"
}

/// The directories that lead from the home of the runtime to the profile.
pub fn profile_parts() -> (parts: (&'static str, &'static str))
    ensures
        parts.0@ == "profiles"@,
        parts.1@ == "web"@,
{
    ("profiles", dsh_profile_name())
}

/// The plugin that finds other plugins.
pub fn find_plugin_package() -> (name: &'static str)
    ensures
        name@ == "@microspotlight/openharness-find-plugin"@,
{
    "@microspotlight/openharness-find-plugin"
}

// ---------------------------------------------------------------------------
// The profile
// ---------------------------------------------------------------------------

/// The value that a profile's manifest has for its bundles.
pub open spec fn profile_bundles(manifest: json::JsonTree) -> Option<json::JsonTree> {
    json::pointed(manifest, text::split_on("/dsh/profile/bundles"@, '/').skip(1))
}

/// A manifest lists a bundle.
pub open spec fn declares(manifest: json::JsonTree, bundle: Seq<char>) -> bool {
    profile_bundles(manifest) matches Some(json::JsonTree::List(bundles)) && bundles.contains(
        json::JsonTree::Text(bundle),
    )
}

/// Whether a profile's manifest lists a bundle.
pub fn manifest_declares_bundle(manifest: &serde_json::Value, bundle: &str) -> (declared: bool)
    ensures
        declared == declares(json::json_tree(*manifest), bundle@),
{
    proof {
        reveal_strlit("/dsh/profile/bundles");
    }
    let bundles = match json::follow_pointer(manifest, "/dsh/profile/bundles") {
        Some(bundles) => bundles,
        None => {
            return false;
        },
    };
    let items = match bundles.as_array() {
        Some(items) => items,
        None => {
            return false;
        },
    };
    let ghost all = items@.map_values(|item: serde_json::Value| json::json_tree(item));
    let mut i: usize = 0;
    while i < items.len()
        invariant
            i <= items@.len(),
            all == items@.map_values(|item: serde_json::Value| json::json_tree(item)),
            profile_bundles(json::json_tree(*manifest)) == Some(json::JsonTree::List(all)),
            forall|j: int| 0 <= j < i ==> all[j] != json::JsonTree::Text(bundle@),
        decreases items@.len() - i,
    {
        match items[i].as_str() {
            Some(name) => {
                if same_text(name, bundle) {
                    assert(all[i as int] == json::JsonTree::Text(bundle@));
                    return true;
                }
            },
            None => {},
        }
        i = i + 1;
    }
    assert(all.len() == items@.len());
    false
}

/// Whether a profile lists a bundle, given its manifest where that could be read.
/// A manifest that is no JSON lists nothing.
pub fn profile_declares_bundle(manifest: Option<&[u8]>, bundle: &str) -> (declared: bool)
    ensures
        declared == (match manifest {
            Some(content) => json::json_document(content@) matches Some(tree) && declares(
                tree,
                bundle@,
            ),
            None => false,
        }),
{
    match manifest {
        Some(content) => match json::parse_bytes(content) {
            Some(value) => manifest_declares_bundle(&value, bundle),
            None => false,
        },
        None => false,
    }
}

/// Bundles are looked for in the list `dsh.profile.bundles` of the manifest, and
/// nowhere else.
pub proof fn law_bundles_are_listed_under_the_profile(manifest: json::JsonTree)
    ensures
        profile_bundles(manifest) == json::pointed(
            manifest,
            seq!["dsh"@, "profile"@, "bundles"@],
        ),
{
    reveal_strlit("/dsh/profile/bundles");
    reveal_strlit("");
    reveal_strlit("/");
    reveal_strlit("dsh");
    reveal_strlit("profile");
    reveal_strlit("bundles");
    let parts = seq![""@, "dsh"@, "profile"@, "bundles"@];
    assert forall|i: int| 0 <= i < parts.len() implies !(#[trigger] parts[i]).contains('/') by {
    }
    text::law_join_split(parts, '/');
    reveal_with_fuel(text::join, 5);
    assert(parts.drop_last() =~= seq![""@, "dsh"@, "profile"@]);
    assert(parts.drop_last().drop_last() =~= seq![""@, "dsh"@]);
    assert(parts.drop_last().drop_last().drop_last() =~= seq![""@]);
    assert(text::join(parts, seq!['/']) =~= "/dsh/profile/bundles"@);
    assert(parts.skip(1) =~= seq!["dsh"@, "profile"@, "bundles"@]);
}

// ---------------------------------------------------------------------------
// The search path
// ---------------------------------------------------------------------------

/// A directory of a search path.
pub struct SearchDirectory<P> {
    pub path: P,
    /// What the platform compares paths by: two paths are the same directory
    /// exactly where their keys are the same.
    pub key: Vec<Vec<u8>>,
    /// The path is the empty text.
    pub empty: bool,
}

/// The key of a directory as a value.
pub open spec fn key_view(key: Vec<Vec<u8>>) -> Seq<Seq<u8>> {
    key@.map_values(|part: Vec<u8>| part@)
}

/// Some directories name the one with a key.
pub open spec fn lists<P>(directories: Seq<SearchDirectory<P>>, key: Seq<Seq<u8>>) -> bool {
    exists|i: int| 0 <= i < directories.len() && key_view((#[trigger] directories[i]).key) == key
}

/// Some directories without those that name a directory before them.
pub open spec fn distinct<P>(directories: Seq<SearchDirectory<P>>) -> Seq<SearchDirectory<P>>
    decreases directories.len(),
{
    if directories.len() == 0 {
        Seq::empty()
    } else {
        let before = distinct(directories.drop_last());
        if lists(before, key_view(directories.last().key)) {
            before
        } else {
            before.push(directories.last())
        }
    }
}

/// The directories that are named.
pub open spec fn named<P>(directories: Seq<SearchDirectory<P>>) -> Seq<SearchDirectory<P>> {
    directories.filter(|directory: SearchDirectory<P>| !directory.empty)
}

/// The search path of the backend: the bundled directories first, then those of
/// the login shell, then the inherited ones, each of them once.
pub open spec fn search_path<P>(
    bundled: Seq<SearchDirectory<P>>,
    shell: Seq<SearchDirectory<P>>,
    inherited: Seq<SearchDirectory<P>>,
) -> Seq<SearchDirectory<P>> {
    distinct(bundled + named(shell) + named(inherited))
}

fn same_bytes(a: &Vec<u8>, b: &Vec<u8>) -> (same: bool)
    ensures
        same == (a@ == b@),
{
    if a.len() != b.len() {
        return false;
    }
    let mut i: usize = 0;
    while i < a.len()
        invariant
            i <= a@.len(),
            a@.len() == b@.len(),
            a@.take(i as int) == b@.take(i as int),
        decreases a@.len() - i,
    {
        if a[i] != b[i] {
            return false;
        }
        i = i + 1;
    }
    assert(a@.take(i as int) == a@);
    assert(b@.take(i as int) == b@);
    true
}

fn same_key(a: &Vec<Vec<u8>>, b: &Vec<Vec<u8>>) -> (same: bool)
    ensures
        same == (key_view(*a) == key_view(*b)),
{
    let ghost left = key_view(*a);
    let ghost right = key_view(*b);
    if a.len() != b.len() {
        assert(left.len() != right.len());
        return false;
    }
    let mut i: usize = 0;
    while i < a.len()
        invariant
            i <= a@.len(),
            a@.len() == b@.len(),
            left == key_view(*a),
            right == key_view(*b),
            left.take(i as int) == right.take(i as int),
        decreases a@.len() - i,
    {
        if !same_bytes(&a[i], &b[i]) {
            assert(left[i as int] != right[i as int]);
            return false;
        }
        proof {
            assert(left[i as int] == right[i as int]);
            assert(left.take(i + 1) == left.take(i as int).push(left[i as int]));
            assert(right.take(i + 1) == right.take(i as int).push(right[i as int]));
        }
        i = i + 1;
    }
    assert(left.take(i as int) == left);
    assert(right.take(i as int) == right);
    true
}

/// The directories that some references refer to.
pub open spec fn referred<P>(references: Seq<&SearchDirectory<P>>) -> Seq<SearchDirectory<P>> {
    references.map_values(|reference: &SearchDirectory<P>| *reference)
}

fn add_directory<'a, P>(
    found: &mut Vec<&'a SearchDirectory<P>>,
    directory: &'a SearchDirectory<P>,
    Ghost(all): Ghost<Seq<SearchDirectory<P>>>,
)
    requires
        referred(old(found)@) == distinct(all),
    ensures
        referred(final(found)@) == distinct(all.push(*directory)),
{
    proof {
        assert(all.push(*directory).drop_last() == all);
    }
    let ghost before = distinct(all);
    let mut i: usize = 0;
    while i < found.len()
        invariant
            i <= found@.len(),
            found@ == old(found)@,
            before == referred(found@),
            before == distinct(all),
            all.push(*directory).drop_last() == all,
            forall|j: int|
                0 <= j < i ==> key_view((#[trigger] before[j]).key) != key_view(directory.key),
        decreases found@.len() - i,
    {
        if same_key(&found[i].key, &directory.key) {
            assert(key_view(before[i as int].key) == key_view(directory.key));
            assert(lists(before, key_view(directory.key)));
            return;
        }
        i = i + 1;
    }
    found.push(directory);
    assert(referred(found@) == before.push(*directory));
}

fn add_named<'a, P>(
    found: &mut Vec<&'a SearchDirectory<P>>,
    directories: &'a Vec<SearchDirectory<P>>,
    Ghost(all): Ghost<Seq<SearchDirectory<P>>>,
)
    requires
        referred(old(found)@) == distinct(all),
    ensures
        referred(final(found)@) == distinct(all + named(directories@)),
{
    let mut i: usize = 0;
    proof {
        reveal(Seq::filter);
        assert(directories@.take(0) == Seq::<SearchDirectory<P>>::empty());
        assert(all + named(directories@.take(0)) == all);
    }
    while i < directories.len()
        invariant
            i <= directories@.len(),
            referred(found@) == distinct(all + named(directories@.take(i as int))),
        decreases directories@.len() - i,
    {
        let ghost so_far = named(directories@.take(i as int));
        proof {
            reveal(Seq::filter);
            assert(directories@.take(i + 1).drop_last() == directories@.take(i as int));
            assert(directories@.take(i + 1).last() == directories@[i as int]);
        }
        if !directories[i].empty {
            add_directory(found, &directories[i], Ghost(all + so_far));
            assert(all + named(directories@.take(i + 1)) == (all + so_far).push(
                directories@[i as int],
            ));
        }
        i = i + 1;
    }
    assert(directories@.take(i as int) == directories@);
}

/// The paths of some directories.
pub open spec fn paths_of<P>(directories: Seq<SearchDirectory<P>>) -> Seq<P> {
    directories.map_values(|directory: SearchDirectory<P>| directory.path)
}

/// The search path of the backend: the package manager and Node of the bundle come
/// first, then the directories of the login shell, then the inherited ones; none
/// comes twice.
pub fn managed_runtime_path<'a, P>(
    package_manager_bin: &'a SearchDirectory<P>,
    node_directory: &'a SearchDirectory<P>,
    shell: &'a Vec<SearchDirectory<P>>,
    inherited: &'a Vec<SearchDirectory<P>>,
) -> (paths: Vec<&'a P>)
    ensures
        paths@.map_values(|path: &P| *path) == paths_of(
            search_path(seq![*package_manager_bin, *node_directory], shell@, inherited@),
        ),
{
    let ghost bundled = seq![*package_manager_bin, *node_directory];
    let ghost none = Seq::<SearchDirectory<P>>::empty();
    let mut found: Vec<&'a SearchDirectory<P>> = Vec::new();
    assert(referred(found@) == none);
    add_directory(&mut found, package_manager_bin, Ghost(none));
    add_directory(&mut found, node_directory, Ghost(none.push(*package_manager_bin)));
    assert(none.push(*package_manager_bin).push(*node_directory) == bundled);
    add_named(&mut found, shell, Ghost(bundled));
    add_named(&mut found, inherited, Ghost(bundled + named(shell@)));
    let mut paths: Vec<&'a P> = Vec::new();
    let mut i: usize = 0;
    let ghost all = referred(found@);
    while i < found.len()
        invariant
            i <= found@.len(),
            all == referred(found@),
            paths@.map_values(|path: &P| *path) == paths_of(all).take(i as int),
        decreases found@.len() - i,
    {
        let ghost before = paths@;
        let path = &found[i].path;
        paths.push(path);
        proof {
            assert(paths_of(all)[i as int] == *path);
            assert(paths@.map_values(|path: &P| *path) == before.map_values(
                |path: &P| *path,
            ).push(*path));
        }
        i = i + 1;
    }
    assert(paths_of(all).take(i as int) == paths_of(all));
    paths
}

/// The search path to hand over, given the joined one where it could be joined:
/// the inherited one takes its place, and there may be none.
pub fn path_or_inherited<P>(joined: Option<P>, inherited: Option<P>) -> (path: Option<P>)
    ensures
        path == (if joined is Some {
            joined
        } else {
            inherited
        }),
{
    if joined.is_some() {
        joined
    } else {
        inherited
    }
}

proof fn lemma_distinct<P>(directories: Seq<SearchDirectory<P>>)
    ensures
        directories.len() > 0 ==> distinct(directories).len() > 0 && distinct(directories)[0]
            == directories[0],
        forall|i: int, j: int|
            0 <= i < j < distinct(directories).len() ==> key_view(
                (#[trigger] distinct(directories)[i]).key,
            ) != key_view((#[trigger] distinct(directories)[j]).key),
        forall|k: int|
            0 <= k < directories.len() ==> lists(
                distinct(directories),
                key_view((#[trigger] directories[k]).key),
            ),
    decreases directories.len(),
{
    if directories.len() > 0 {
        let init = directories.drop_last();
        let last = directories.last();
        let before = distinct(init);
        let after = distinct(directories);
        lemma_distinct(init);
        assert(forall|i: int| 0 <= i < before.len() ==> after[i] == before[i]);
        assert forall|k: int| 0 <= k < directories.len() implies lists(
            after,
            key_view((#[trigger] directories[k]).key),
        ) by {
            if k < init.len() {
                assert(init[k] == directories[k]);
                assert(lists(before, key_view(init[k].key)));
                let i = choose|i: int|
                    0 <= i < before.len() && key_view((#[trigger] before[i]).key) == key_view(
                        init[k].key,
                    );
                assert(after[i] == before[i]);
            } else if after.len() > before.len() {
                assert(after[after.len() - 1] == last);
            }
        }
    }
}

/// The search path starts with the package manager of the bundle, names no
/// directory twice, and leaves out no directory that has a name.
pub proof fn law_search_path_prefers_the_bundle<P>(
    bundled: Seq<SearchDirectory<P>>,
    shell: Seq<SearchDirectory<P>>,
    inherited: Seq<SearchDirectory<P>>,
)
    requires
        bundled.len() > 0,
    ensures
        search_path(bundled, shell, inherited).len() > 0,
        search_path(bundled, shell, inherited)[0] == bundled[0],
        forall|i: int, j: int|
            0 <= i < j < search_path(bundled, shell, inherited).len() ==> key_view(
                (#[trigger] search_path(bundled, shell, inherited)[i]).key,
            ) != key_view((#[trigger] search_path(bundled, shell, inherited)[j]).key),
        forall|k: int|
            0 <= k < (bundled + named(shell) + named(inherited)).len() ==> lists(
                search_path(bundled, shell, inherited),
                key_view((#[trigger] (bundled + named(shell) + named(inherited))[k]).key),
            ),
{
    lemma_distinct(bundled + named(shell) + named(inherited));
}

/// The search path of the login shell: the value of the first `PATH` among its
/// variables.
pub fn shell_search_path(variables: &Vec<(String, String)>) -> (value: Option<&str>)
    ensures
        match value {
            Some(value) => exists|i: int|
                {
                    &&& 0 <= i < variables@.len()
                    &&& (#[trigger] variables@[i]).0@ == "PATH"@
                    &&& value@ == variables@[i].1@
                    &&& forall|j: int| 0 <= j < i ==> (#[trigger] variables@[j]).0@ != "PATH"@
                },
            None => !shell_env::has_path(shell_env::env_views(variables@)),
        },
{
    let mut i: usize = 0;
    while i < variables.len()
        invariant
            i <= variables@.len(),
            forall|j: int| 0 <= j < i ==> (#[trigger] variables@[j]).0@ != "PATH"@,
        decreases variables@.len() - i,
    {
        if same_text(variables[i].0.as_str(), "PATH") {
            assert(variables@[i as int].0@ == "PATH"@);
            return Some(variables[i].1.as_str());
        }
        i = i + 1;
    }
    assert forall|j: int| 0 <= j < variables@.len() implies (#[trigger] shell_env::env_views(
        variables@,
    )[j]).0 != "PATH"@ by {
        assert(variables@[j].0@ != "PATH"@);
    }
    None
}

// ---------------------------------------------------------------------------
// Arguments and environment
// ---------------------------------------------------------------------------

/// A value that the backend gets.
pub enum LaunchValue<'a, P> {
    Path(&'a P),
    Text(String),
}

/// The contents of a [`LaunchValue`].
pub enum ValueView<P> {
    Path(P),
    Text(Seq<char>),
}

impl<'a, P> LaunchValue<'a, P> {
    /// The value itself.
    pub open spec fn contents(self) -> ValueView<P> {
        match self {
            LaunchValue::Path(path) => ValueView::Path(*path),
            LaunchValue::Text(value) => ValueView::Text(value@),
        }
    }
}

/// The contents of some arguments.
pub open spec fn argument_views<'a, P>(arguments: Seq<LaunchValue<'a, P>>) -> Seq<ValueView<P>> {
    arguments.map_values(|argument: LaunchValue<'a, P>| argument.contents())
}

/// The arguments of Node that start the backend: it serves the profile on a free
/// port of this machine, opens no browser, and is patched for the desktop. The
/// plugin finder is added where the profile does not have it.
pub open spec fn harness_arguments<P>(runtime: RuntimePaths<P>, profile_has_find_plugin: bool) -> Seq<
    ValueView<P>,
> {
    let finder = if profile_has_find_plugin {
        Seq::empty()
    } else {
        seq![ValueView::Text("--patch"@), ValueView::Path(runtime.find_plugin_patch)]
    };
    seq![
        ValueView::Path(runtime.dsh_entry),
        ValueView::Text("--profile"@),
        ValueView::Text("web"@),
        ValueView::Text("--patch"@),
        ValueView::Path(runtime.patch),
    ] + finder + seq![
        ValueView::Text("--host"@),
        ValueView::Text("127.0.0.1"@),
        ValueView::Text("--port"@),
        ValueView::Text("0"@),
        ValueView::Text("--no-open"@),
    ]
}

fn word<'a, P>(value: &str) -> (argument: LaunchValue<'a, P>)
    ensures
        argument.contents() == ValueView::<P>::Text(value@),
{
    LaunchValue::Text(value.to_owned())
}

/// The arguments of Node that start the backend.
pub fn configure_harness_args<P>(runtime: &RuntimePaths<P>, profile_has_find_plugin: bool) -> (arguments:
    Vec<LaunchValue<'_, P>>)
    ensures
        argument_views(arguments@) == harness_arguments(*runtime, profile_has_find_plugin),
{
    let mut arguments: Vec<LaunchValue<'_, P>> = Vec::new();
    arguments.push(LaunchValue::Path(&runtime.dsh_entry));
    arguments.push(word("--profile"));
    arguments.push(word(dsh_profile_name()));
    arguments.push(word("--patch"));
    arguments.push(LaunchValue::Path(&runtime.patch));
    if !profile_has_find_plugin {
        arguments.push(word("--patch"));
        arguments.push(LaunchValue::Path(&runtime.find_plugin_patch));
    }
    arguments.push(word("--host"));
    arguments.push(word("127.0.0.1"));
    arguments.push(word("--port"));
    arguments.push(word("0"));
    arguments.push(word("--no-open"));
    assert(argument_views(arguments@) =~= harness_arguments(*runtime, profile_has_find_plugin));
    arguments
}

/// What the host knows when it sets up the environment of the backend.
pub struct LaunchPlaces<P> {
    /// The joined search path.
    pub search_path: P,
    pub dsh_home: P,
    pub profile_directory: P,
}

/// A variable of the login shell, and whether the host inherited a value that is
/// not empty for it.
pub struct ShellVariable {
    pub key: String,
    pub value: String,
    pub inherited: bool,
}

/// The variables of the login shell that the backend gets: not the search path,
/// which is handed over separately, and not those that the host inherited.
pub open spec fn passed_variables<P>(variables: Seq<ShellVariable>) -> Seq<(Seq<char>, ValueView<P>)>
    decreases variables.len(),
{
    if variables.len() == 0 {
        Seq::empty()
    } else {
        let before = passed_variables(variables.drop_last());
        let last = variables.last();
        if last.key@ != "PATH"@ && !last.inherited {
            before.push((last.key@, ValueView::Text(last.value@)))
        } else {
            before
        }
    }
}

/// The variables that the backend always gets.
pub open spec fn fixed_variables<P>(runtime: RuntimePaths<P>, places: LaunchPlaces<P>) -> Seq<
    (Seq<char>, ValueView<P>),
> {
    seq![
        ("PATH"@, ValueView::Path(places.search_path)),
        ("DSH_HOME"@, ValueView::Path(places.dsh_home)),
        ("DSH_TELEMETRY_DISABLED"@, ValueView::Text("1"@)),
        ("OPENHARNESS_MANAGED_RUNTIME"@, ValueView::Text("1"@)),
        ("OPENHARNESS_MANAGED_RUNTIME_PROTOCOL"@, ValueView::Text("1"@)),
        ("OPENHARNESS_PROFILE_NAME"@, ValueView::Text("web"@)),
        ("OPENHARNESS_PROFILE_DIRECTORY"@, ValueView::Path(places.profile_directory)),
        ("OPENHARNESS_RUNTIME_ROOT"@, ValueView::Path(runtime.root)),
        ("OPENHARNESS_NODE_PATH"@, ValueView::Path(runtime.node)),
        ("OPENHARNESS_DSH_ENTRY"@, ValueView::Path(runtime.dsh_entry)),
        ("OPENHARNESS_PACKAGE_MANAGER_BIN"@, ValueView::Path(runtime.package_manager_bin)),
        ("OPENHARNESS_RESTART_EXIT_CODE"@, ValueView::Text(text::decimal(MANAGED_RESTART_EXIT_CODE as nat))),
    ]
}

/// The contents of an environment.
pub open spec fn environment_views<'a, P>(environment: Seq<(String, LaunchValue<'a, P>)>) -> Seq<
    (Seq<char>, ValueView<P>),
> {
    environment.map_values(
        |variable: (String, LaunchValue<'a, P>)| (variable.0@, variable.1.contents()),
    )
}

/// The environment that the backend gets on top of the inherited one, in the order
/// in which it is set.
pub fn harness_environment<'a, P>(
    runtime: &'a RuntimePaths<P>,
    places: &'a LaunchPlaces<P>,
    variables: &Vec<ShellVariable>,
) -> (environment: Vec<(String, LaunchValue<'a, P>)>)
    ensures
        environment_views(environment@) == fixed_variables(*runtime, *places) + passed_variables(
            variables@,
        ),
{
    let mut environment: Vec<(String, LaunchValue<'a, P>)> = Vec::new();
    environment.push(("PATH".to_string(), LaunchValue::Path(&places.search_path)));
    environment.push(("DSH_HOME".to_string(), LaunchValue::Path(&places.dsh_home)));
    environment.push(("DSH_TELEMETRY_DISABLED".to_string(), word("1")));
    environment.push(("OPENHARNESS_MANAGED_RUNTIME".to_string(), word("1")));
    environment.push(("OPENHARNESS_MANAGED_RUNTIME_PROTOCOL".to_string(), word("1")));
    environment.push(("OPENHARNESS_PROFILE_NAME".to_string(), word(dsh_profile_name())));
    environment.push(
        (
            "OPENHARNESS_PROFILE_DIRECTORY".to_string(),
            LaunchValue::Path(&places.profile_directory),
        ),
    );
    environment.push(("OPENHARNESS_RUNTIME_ROOT".to_string(), LaunchValue::Path(&runtime.root)));
    environment.push(("OPENHARNESS_NODE_PATH".to_string(), LaunchValue::Path(&runtime.node)));
    environment.push(("OPENHARNESS_DSH_ENTRY".to_string(), LaunchValue::Path(&runtime.dsh_entry)));
    environment.push(
        (
            "OPENHARNESS_PACKAGE_MANAGER_BIN".to_string(),
            LaunchValue::Path(&runtime.package_manager_bin),
        ),
    );
    environment.push(
        (
            "OPENHARNESS_RESTART_EXIT_CODE".to_string(),
            LaunchValue::Text(decimal_text(MANAGED_RESTART_EXIT_CODE as u64)),
        ),
    );
    let ghost fixed = environment_views(environment@);
    assert(fixed =~= fixed_variables(*runtime, *places));
    let mut i: usize = 0;
    proof {
        assert(variables@.take(0) == Seq::<ShellVariable>::empty());
        assert(fixed + passed_variables(variables@.take(0)) == fixed);
    }
    while i < variables.len()
        invariant
            i <= variables@.len(),
            environment_views(environment@) == fixed + passed_variables(variables@.take(i as int)),
        decreases variables@.len() - i,
    {
        proof {
            assert(variables@.take(i + 1).drop_last() == variables@.take(i as int));
            assert(variables@.take(i + 1).last() == variables@[i as int]);
        }
        if !same_text(variables[i].key.as_str(), "PATH") && !variables[i].inherited {
            let ghost before = environment@;
            let variable = (
                variables[i].key.as_str().to_owned(),
                word(variables[i].value.as_str()),
            );
            environment.push(variable);
            proof {
                assert(environment_views(environment@) == environment_views(before).push(
                    (variable.0@, variable.1.contents()),
                ));
                assert(fixed + passed_variables(variables@.take(i + 1)) == (fixed
                    + passed_variables::<P>(variables@.take(i as int))).push(
                    (variable.0@, variable.1.contents()),
                ));
            }
        }
        i = i + 1;
    }
    assert(variables@.take(i as int) == variables@);
    environment
}

/// What a variable is set to by an environment: the last entry counts.
pub open spec fn value_in<P>(environment: Seq<(Seq<char>, ValueView<P>)>, key: Seq<char>) -> Option<
    ValueView<P>,
>
    decreases environment.len(),
{
    if environment.len() == 0 {
        None
    } else if environment.last().0 == key {
        Some(environment.last().1)
    } else {
        value_in(environment.drop_last(), key)
    }
}

proof fn lemma_passed_variables<P>(
    fixed: Seq<(Seq<char>, ValueView<P>)>,
    variables: Seq<ShellVariable>,
    key: Seq<char>,
)
    requires
        forall|i: int|
            0 <= i < variables.len() && (#[trigger] variables[i]).key@ == key ==> key == "PATH"@
                || variables[i].inherited,
    ensures
        value_in(fixed + passed_variables(variables), key) == value_in(fixed, key),
    decreases variables.len(),
{
    let passed = passed_variables::<P>(variables);
    if variables.len() > 0 {
        let init = variables.drop_last();
        assert forall|i: int|
            0 <= i < init.len() && (#[trigger] init[i]).key@ == key implies key == "PATH"@
            || init[i].inherited by {
            assert(variables[i] == init[i]);
        }
        lemma_passed_variables(fixed, init, key);
        let last = variables[variables.len() - 1];
        if last.key@ != "PATH"@ && !last.inherited {
            assert((fixed + passed).drop_last() == fixed + passed_variables::<P>(init));
        }
    } else {
        assert(fixed + passed == fixed);
    }
}

/// Telemetry of the bundled runtime is always disabled, and the search path is the
/// one that the host made, whatever the login shell prints.
pub proof fn law_telemetry_is_disabled<P>(
    runtime: RuntimePaths<P>,
    places: LaunchPlaces<P>,
    variables: Seq<ShellVariable>,
    output: Seq<u8>,
)
    requires
        variables.map_values(|variable: ShellVariable| (variable.key@, variable.value@))
            == shell_env::shell_variables(output),
    ensures
        value_in(
            fixed_variables(runtime, places) + passed_variables(variables),
            "DSH_TELEMETRY_DISABLED"@,
        ) == Some(ValueView::<P>::Text("1"@)),
        value_in(fixed_variables(runtime, places) + passed_variables(variables), "PATH"@) == Some(
            ValueView::Path(places.search_path),
        ),
{
    let fixed = fixed_variables(runtime, places);
    let imported = shell_env::shell_variables(output);
    lemma_fixed_variables(runtime, places);
    shell_env::law_only_known_variables_are_imported(output);
    reveal_strlit("DSH_TELEMETRY_DISABLED");
    reveal_strlit("DEEPSEEK_");
    reveal_strlit("PATH");
    assert forall|i: int|
        0 <= i < variables.len() && (#[trigger] variables[i]).key@
            == "DSH_TELEMETRY_DISABLED"@ implies variables[i].inherited by {
        assert(imported[i].0 == variables[i].key@);
        assert(shell_env::is_imported_key(variables[i].key@));
        assert("DSH_TELEMETRY_DISABLED"@.take(9)[1] == 'S');
        assert("DEEPSEEK_"@[1] == 'E');
    }
    lemma_passed_variables(fixed, variables, "DSH_TELEMETRY_DISABLED"@);
    lemma_passed_variables(fixed, variables, "PATH"@);
}

proof fn lemma_fixed_variables<P>(runtime: RuntimePaths<P>, places: LaunchPlaces<P>)
    ensures
        value_in(fixed_variables(runtime, places), "DSH_TELEMETRY_DISABLED"@) == Some(
            ValueView::<P>::Text("1"@),
        ),
        value_in(fixed_variables(runtime, places), "PATH"@) == Some(
            ValueView::Path(places.search_path),
        ),
{
    reveal_strlit("PATH");
    reveal_strlit("DSH_HOME");
    reveal_strlit("DSH_TELEMETRY_DISABLED");
    reveal_strlit("OPENHARNESS_MANAGED_RUNTIME");
    reveal_strlit("OPENHARNESS_MANAGED_RUNTIME_PROTOCOL");
    reveal_strlit("OPENHARNESS_PROFILE_NAME");
    reveal_strlit("OPENHARNESS_PROFILE_DIRECTORY");
    reveal_strlit("OPENHARNESS_RUNTIME_ROOT");
    reveal_strlit("OPENHARNESS_NODE_PATH");
    reveal_strlit("OPENHARNESS_DSH_ENTRY");
    reveal_strlit("OPENHARNESS_PACKAGE_MANAGER_BIN");
    reveal_strlit("OPENHARNESS_RESTART_EXIT_CODE");
    let fixed = fixed_variables(runtime, places);
    assert(fixed[1].0.len() == 8);
    assert forall|i: int| 2 < i < fixed.len() implies (#[trigger] fixed[i]).0[0] == 'O' && fixed[i].0.len()
        > 4 by {
        assert(i == 3 || i == 4 || i == 5 || i == 6 || i == 7 || i == 8 || i == 9 || i == 10 || i
            == 11);
    }
    lemma_value_at(fixed, 2);
    lemma_value_at(fixed, 0);
}

/// An entry counts where no later one has its key.
proof fn lemma_value_at<P>(environment: Seq<(Seq<char>, ValueView<P>)>, at: int)
    requires
        0 <= at < environment.len(),
        forall|i: int|
            at < i < environment.len() ==> (#[trigger] environment[i]).0 != environment[at].0,
    ensures
        value_in(environment, environment[at].0) == Some(environment[at].1),
    decreases environment.len(),
{
    if at < environment.len() - 1 {
        assert(environment[environment.len() - 1].0 != environment[at].0);
        lemma_value_at(environment.drop_last(), at);
    }
}

/// A variable that the host inherited keeps its value: the login shell's value is
/// not passed on.
pub proof fn law_inherited_variables_take_precedence<P>(
    runtime: RuntimePaths<P>,
    places: LaunchPlaces<P>,
    variables: Seq<ShellVariable>,
    key: Seq<char>,
)
    requires
        forall|i: int|
            0 <= i < variables.len() && (#[trigger] variables[i]).key@ == key
                ==> variables[i].inherited,
    ensures
        value_in(fixed_variables(runtime, places) + passed_variables(variables), key) == value_in(
            fixed_variables(runtime, places),
            key,
        ),
{
    lemma_passed_variables(fixed_variables(runtime, places), variables, key);
}

// ---------------------------------------------------------------------------
// How a start fails
// ---------------------------------------------------------------------------

/// Why the backend could not be started.
pub enum LaunchFailure {
    /// The bundled runtime is not in place.
    NoRuntime { complaint: String },
    /// The home of the runtime could not be made.
    NoHome { cause: String },
    /// The process could not be started.
    NotSpawned { cause: String },
    /// The process did not report where it listens.
    NotReady { error: HostError },
}

/// What is reported of a failed start, given the backend's last output and the
/// place of the log.
pub open spec fn launch_report(
    failure: LaunchFailure,
    recent: Seq<Seq<char>>,
    log_path: Option<Seq<char>>,
) -> Seq<char> {
    match failure {
        LaunchFailure::NoRuntime { complaint } => complaint@,
        LaunchFailure::NoHome { cause } => cause@,
        LaunchFailure::NotSpawned { cause } => "failed to spawn dsh: "@ + cause@,
        LaunchFailure::NotReady { error } => failure::failure_message(
            error.message@,
            recent,
            log_path,
        ),
    }
}

/// What is reported of a failed start. Output there is only where the process was
/// started.
pub fn launch_failure_detail(
    failure: LaunchFailure,
    recent: &Vec<String>,
    log_path: Option<&str>,
) -> (detail: String)
    ensures
        detail@ == launch_report(failure, text::views(recent@), text::opt_str(log_path)),
{
    match failure {
        LaunchFailure::NoRuntime { complaint } => complaint,
        LaunchFailure::NoHome { cause } => cause,
        LaunchFailure::NotSpawned { cause } => {
            let mut detail = "failed to spawn dsh: ".to_string();
            detail.append(cause.as_str());
            detail
        },
        LaunchFailure::NotReady { error } => backend_failure_message(
            error.message.as_str(),
            recent,
            log_path,
        ),
    }
}

/// The line of the log that announces a start.
pub fn launch_log_line(entry: &str) -> (line: String)
    ensures
        line@ == "--- dsh web started: "@ + entry@,
{
    let mut line = "--- dsh web started: ".to_string();
    line.append(entry);
    line
}

// ---------------------------------------------------------------------------
// What a start rests on
// ---------------------------------------------------------------------------

/// Two directories have the same key exactly where their keys have the same parts
/// in the same order.
pub proof fn law_keys_are_compared_part_by_part(a: Vec<Vec<u8>>, b: Vec<Vec<u8>>)
    ensures
        key_view(a) == key_view(b) ==> a@.len() == b@.len(),
        key_view(a) == key_view(b) ==> forall|i: int|
            0 <= i < a@.len() ==> (#[trigger] a@[i])@ == b@[i]@,
        a@.len() == b@.len() && (forall|i: int| 0 <= i < a@.len() ==> (#[trigger] a@[i])@ == b@[i]@)
            ==> key_view(a) == key_view(b),
{
    let left = key_view(a);
    let right = key_view(b);
    assert(left.len() == a@.len() && right.len() == b@.len());
    if left == right {
        assert forall|i: int| 0 <= i < a@.len() implies (#[trigger] a@[i])@ == b@[i]@ by {
            assert(left[i] == a@[i]@);
            assert(right[i] == b@[i]@);
        }
    }
    if a@.len() == b@.len() && (forall|i: int|
        0 <= i < a@.len() ==> (#[trigger] a@[i])@ == b@[i]@) {
        assert forall|i: int| 0 <= i < left.len() implies left[i] == right[i] by {
            assert(a@[i]@ == b@[i]@);
        }
        assert(left =~= right);
    }
}

/// Which of some directories are kept where each is kept once.
proof fn lemma_distinct_is_a_selection<P>(directories: Seq<SearchDirectory<P>>) -> (at: Seq<int>)
    ensures
        at.len() == distinct(directories).len(),
        forall|k: int|
            0 <= k < at.len() ==> 0 <= #[trigger] at[k] < directories.len() && distinct(
                directories,
            )[k] == directories[at[k]],
        forall|k: int, l: int| 0 <= k < l < at.len() ==> #[trigger] at[k] < #[trigger] at[l],
        forall|k: int, i: int|
            0 <= k < at.len() && 0 <= i < at[k] ==> key_view((#[trigger] directories[i]).key)
                != key_view((#[trigger] distinct(directories)[k]).key),
    decreases directories.len(),
{
    if directories.len() == 0 {
        Seq::empty()
    } else {
        let init = directories.drop_last();
        let last = directories.last();
        let end = directories.len() - 1;
        let before = distinct(init);
        let after = distinct(directories);
        let earlier = lemma_distinct_is_a_selection(init);
        lemma_distinct(init);
        let at = if lists(before, key_view(last.key)) {
            earlier
        } else {
            earlier.push(end)
        };
        assert forall|k: int| 0 <= k < at.len() implies 0 <= #[trigger] at[k] < directories.len()
            && after[k] == directories[at[k]] by {
            if k < earlier.len() {
                assert(earlier[k] < init.len());
            }
        }
        assert forall|k: int, l: int| 0 <= k < l < at.len() implies #[trigger] at[k]
            < #[trigger] at[l] by {
            assert(earlier[k] < init.len());
            if l < earlier.len() {
                assert(earlier[k] < earlier[l]);
            }
        }
        assert forall|k: int, i: int| 0 <= k < at.len() && 0 <= i < at[k] implies key_view(
            (#[trigger] directories[i]).key,
        ) != key_view((#[trigger] after[k]).key) by {
            if k < earlier.len() {
                assert(0 <= earlier[k] < init.len());
                assert(init[i] == directories[i]);
                assert(before[k] == after[k]);
            } else {
                assert(init[i] == directories[i]);
                assert(lists(before, key_view(init[i].key)));
                assert(after[k] == last);
            }
        }
        at
    }
}

/// Which of some directories are named.
proof fn lemma_named_is_a_selection<P>(directories: Seq<SearchDirectory<P>>) -> (at: Seq<int>)
    ensures
        at.len() == named(directories).len(),
        forall|k: int|
            0 <= k < at.len() ==> 0 <= #[trigger] at[k] < directories.len() && named(directories)[k]
                == directories[at[k]] && !directories[at[k]].empty,
        forall|k: int, l: int| 0 <= k < l < at.len() ==> #[trigger] at[k] < #[trigger] at[l],
        forall|i: int|
            0 <= i < directories.len() && !(#[trigger] directories[i]).empty ==> at.contains(i),
    decreases directories.len(),
{
    reveal(Seq::filter);
    if directories.len() == 0 {
        Seq::empty()
    } else {
        let init = directories.drop_last();
        let end = directories.len() - 1;
        let old_at = lemma_named_is_a_selection(init);
        let at = if directories.last().empty {
            old_at
        } else {
            old_at.push(end)
        };
        assert forall|k: int| 0 <= k < at.len() implies 0 <= #[trigger] at[k] < directories.len()
            && named(directories)[k] == directories[at[k]] && !directories[at[k]].empty by {
            if k < old_at.len() {
                assert(old_at[k] < init.len());
                assert(init[old_at[k]] == directories[old_at[k]]);
            }
        }
        assert forall|k: int, l: int| 0 <= k < l < at.len() implies #[trigger] at[k]
            < #[trigger] at[l] by {
            assert(old_at[k] < init.len());
            if l < old_at.len() {
                assert(old_at[k] < old_at[l]);
            }
        }
        assert forall|i: int|
            0 <= i < directories.len() && !(#[trigger] directories[i]).empty implies at.contains(
            i,
        ) by {
            if i < end {
                assert(init[i] == directories[i]);
                let k = old_at.index_of(i);
                assert(at[k] == i);
            } else {
                assert(at[old_at.len() as int] == end);
            }
        }
        at
    }
}

/// The search path is what the caller gave, bundled directories, those of the
/// login shell and inherited ones one after another, without the directories that
/// are not named and without those that were named before. The rest keep their
/// order: the path is made of ascending places of the three lists.
pub proof fn law_search_path_keeps_the_order<P>(
    bundled: Seq<SearchDirectory<P>>,
    shell: Seq<SearchDirectory<P>>,
    inherited: Seq<SearchDirectory<P>>,
) -> (at: Seq<int>)
    ensures
        ({
            let whole = bundled + shell + inherited;
            let path = search_path(bundled, shell, inherited);
            &&& at.len() == path.len()
            &&& forall|k: int|
                0 <= k < at.len() ==> 0 <= #[trigger] at[k] < whole.len() && path[k] == whole[at[k]]
            &&& forall|k: int, l: int| 0 <= k < l < at.len() ==> #[trigger] at[k] < #[trigger] at[l]
            &&& forall|k: int|
                0 <= k < at.len() && #[trigger] at[k] >= bundled.len() ==> !path[k].empty
            &&& forall|k: int, i: int|
                0 <= k < at.len() && 0 <= i < at[k] && (i < bundled.len() || !whole[i].empty)
                    ==> key_view((#[trigger] whole[i]).key) != key_view((#[trigger] path[k]).key)
            &&& forall|i: int|
                0 <= i < whole.len() && (i < bundled.len() || !whole[i].empty) ==> exists|k: int|
                    0 <= k < path.len() && key_view((#[trigger] whole[i]).key) == key_view(
                        (#[trigger] path[k]).key,
                    )
        }),
{
    let whole = bundled + shell + inherited;
    let middle = bundled + named(shell) + named(inherited);
    let path = search_path(bundled, shell, inherited);
    let places = lemma_middle_places(bundled, shell, inherited);
    let kept = lemma_distinct_is_a_selection(middle);
    lemma_distinct(middle);
    let at = Seq::new(kept.len(), |k: int| places[kept[k]]);
    assert forall|k: int| 0 <= k < at.len() implies 0 <= #[trigger] at[k] < whole.len() && path[k]
        == whole[at[k]] && (at[k] >= bundled.len() ==> !path[k].empty) by {
        assert(0 <= kept[k] < middle.len());
        assert(0 <= places[kept[k]] < whole.len());
    }
    assert forall|k: int, l: int| 0 <= k < l < at.len() implies #[trigger] at[k]
        < #[trigger] at[l] by {
        assert(kept[k] < kept[l]);
        assert(places[kept[k]] < places[kept[l]]);
    }
    assert forall|k: int, i: int|
        0 <= k < at.len() && 0 <= i < at[k] && (i < bundled.len() || !whole[i].empty) implies key_view(
        (#[trigger] whole[i]).key,
    ) != key_view((#[trigger] path[k]).key) by {
        assert(at[k] < whole.len());
        assert(places.contains(i));
        let m = places.index_of(i);
        assert(middle[m] == whole[i]);
        assert(0 <= kept[k] < middle.len());
        if m > kept[k] {
            assert(places[kept[k]] < places[m]);
        }
        assert(key_view(middle[m].key) != key_view(distinct(middle)[k].key));
    }
    assert forall|i: int|
        0 <= i < whole.len() && (i < bundled.len() || !whole[i].empty) implies exists|k: int|
        0 <= k < path.len() && key_view((#[trigger] whole[i]).key) == key_view(
            (#[trigger] path[k]).key,
        ) by {
        assert(places.contains(i));
        let m = places.index_of(i);
        assert(middle[m] == whole[i]);
        assert(lists(path, key_view(middle[m].key)));
    }
    at
}

proof fn lemma_middle_places<P>(
    bundled: Seq<SearchDirectory<P>>,
    shell: Seq<SearchDirectory<P>>,
    inherited: Seq<SearchDirectory<P>>,
) -> (places: Seq<int>)
    ensures
        ({
            let whole = bundled + shell + inherited;
            let middle = bundled + named(shell) + named(inherited);
            &&& places.len() == middle.len()
            &&& forall|k: int|
                0 <= k < places.len() ==> 0 <= #[trigger] places[k] < whole.len() && middle[k]
                    == whole[places[k]] && (places[k] >= bundled.len() ==> !whole[places[k]].empty)
            &&& forall|k: int, l: int|
                0 <= k < l < places.len() ==> #[trigger] places[k] < #[trigger] places[l]
            &&& forall|i: int|
                0 <= i < whole.len() && (i < bundled.len() || !whole[i].empty)
                    ==> #[trigger] places.contains(i)
        }),
{
    let whole = bundled + shell + inherited;
    let middle = bundled + named(shell) + named(inherited);
    let first = bundled.len() as int;
    let second = (bundled.len() + shell.len()) as int;
    let of_shell = lemma_named_is_a_selection(shell);
    let of_inherited = lemma_named_is_a_selection(inherited);
    let n = of_shell.len() as int;
    let places = Seq::new(
        middle.len(),
        |k: int|
            if k < first {
                k
            } else if k < first + n {
                first + of_shell[k - first]
            } else {
                second + of_inherited[k - first - n]
            },
    );
    assert forall|k: int| 0 <= k < places.len() implies 0 <= #[trigger] places[k] < whole.len()
        && middle[k] == whole[places[k]] && (places[k] >= first ==> !whole[places[k]].empty) by {
        if k >= first + n {
            let m = k - first - n;
            assert(0 <= of_inherited[m] < inherited.len());
            assert(whole[places[k]] == inherited[of_inherited[m]]);
        } else if k >= first {
            let m = k - first;
            assert(0 <= of_shell[m] < shell.len());
            assert(whole[places[k]] == shell[of_shell[m]]);
        }
    }
    assert forall|k: int, l: int| 0 <= k < l < places.len() implies #[trigger] places[k]
        < #[trigger] places[l] by {
        if k >= first + n {
            assert(of_inherited[k - first - n] < of_inherited[l - first - n]);
        } else if l >= first + n {
            assert(0 <= of_inherited[l - first - n]);
            if k >= first {
                assert(of_shell[k - first] < shell.len());
            }
        } else if k >= first {
            assert(of_shell[k - first] < of_shell[l - first]);
        } else if l >= first {
            assert(0 <= of_shell[l - first]);
        }
    }
    assert forall|i: int|
        0 <= i < whole.len() && (i < first || !whole[i].empty) implies #[trigger] places.contains(
        i,
    ) by {
        if i < first {
            assert(places[i] == i);
        } else if i < second {
            assert(shell[i - first] == whole[i]);
            let k = of_shell.index_of(i - first);
            assert(of_shell[k] == i - first);
            assert(places[first + k] == i);
        } else {
            assert(inherited[i - second] == whole[i]);
            let k = of_inherited.index_of(i - second);
            assert(of_inherited[k] == i - second);
            assert(places[first + n + k] == i);
        }
    }
    places
}

/// A directory that stands before another one, in the login shell's list or in the
/// inherited one, stands before it in the search path, where both are named, they
/// are not the same, and nothing before them is either of them.
pub proof fn law_earlier_directories_come_first<P>(
    bundled: Seq<SearchDirectory<P>>,
    shell: Seq<SearchDirectory<P>>,
    inherited: Seq<SearchDirectory<P>>,
    i: int,
    j: int,
) -> (places: (int, int))
    requires
        ({
            let whole = bundled + shell + inherited;
            &&& bundled.len() <= i < j < whole.len()
            &&& !whole[i].empty
            &&& !whole[j].empty
            &&& key_view(whole[i].key) != key_view(whole[j].key)
            &&& forall|k: int|
                0 <= k < i ==> key_view((#[trigger] whole[k]).key) != key_view(whole[i].key)
            &&& forall|k: int|
                0 <= k < j ==> key_view((#[trigger] whole[k]).key) != key_view(whole[j].key)
        }),
    ensures
        ({
            let whole = bundled + shell + inherited;
            let path = search_path(bundled, shell, inherited);
            &&& 0 <= places.0 < places.1 < path.len()
            &&& path[places.0] == whole[i]
            &&& path[places.1] == whole[j]
        }),
{
    let whole = bundled + shell + inherited;
    let at = law_search_path_keeps_the_order(bundled, shell, inherited);
    let path = search_path(bundled, shell, inherited);
    let a = choose|k: int|
        0 <= k < path.len() && key_view(whole[i].key) == key_view((#[trigger] path[k]).key);
    let b = choose|k: int|
        0 <= k < path.len() && key_view(whole[j].key) == key_view((#[trigger] path[k]).key);
    assert(0 <= at[a] < whole.len() && path[a] == whole[at[a]]);
    assert(0 <= at[b] < whole.len() && path[b] == whole[at[b]]);
    assert(at[a] == i);
    assert(at[b] == j);
    if b < a {
        assert(at[b] < at[a]);
    }
    (a, b)
}

/// The paths that are handed over are those of the directories, one for one.
pub proof fn law_paths_are_those_of_the_directories<P>(directories: Seq<SearchDirectory<P>>)
    ensures
        paths_of(directories).len() == directories.len(),
        forall|i: int|
            0 <= i < directories.len() ==> #[trigger] paths_of(directories)[i]
                == directories[i].path,
{
}

/// The backend is patched for the desktop whatever the profile has, and gets the
/// plugin finder exactly where the profile does not have it.
pub proof fn law_patches_of_the_backend<P>(runtime: RuntimePaths<P>, profile_has_find_plugin: bool)
    requires
        runtime.find_plugin_patch != runtime.patch,
        runtime.find_plugin_patch != runtime.dsh_entry,
    ensures
        ({
            let arguments = harness_arguments(runtime, profile_has_find_plugin);
            &&& exists|i: int|
                0 <= i < arguments.len() - 1 && #[trigger] arguments[i]
                    == ValueView::<P>::Text("--patch"@)
                    && arguments[i + 1] == ValueView::Path(runtime.patch)
            &&& !profile_has_find_plugin ==> exists|i: int|
                0 <= i < arguments.len() - 1 && #[trigger] arguments[i]
                    == ValueView::<P>::Text("--patch"@)
                    && arguments[i + 1] == ValueView::Path(runtime.find_plugin_patch)
            &&& arguments.contains(ValueView::Path(runtime.find_plugin_patch))
                == !profile_has_find_plugin
            &&& arguments.len() == (if profile_has_find_plugin {
                10
            } else {
                12int
            })
        }),
{
    let arguments = harness_arguments(runtime, profile_has_find_plugin);
    assert(arguments[3] == ValueView::<P>::Text("--patch"@));
    assert(arguments[4] == ValueView::Path(runtime.patch));
    if profile_has_find_plugin {
        assert forall|i: int| 0 <= i < arguments.len() implies #[trigger] arguments[i]
            != ValueView::Path(runtime.find_plugin_patch) by {
        }
    } else {
        assert(arguments[5] == ValueView::<P>::Text("--patch"@));
        assert(arguments[6] == ValueView::Path(runtime.find_plugin_patch));
    }
}

/// The backend is started from its entry, with the web profile, on a free port of
/// this machine's own address, without opening a browser; and a patch comes only
/// where it is announced.
pub proof fn law_arguments_of_the_backend<P>(
    runtime: RuntimePaths<P>,
    profile_has_find_plugin: bool,
)
    ensures
        ({
            let arguments = harness_arguments(runtime, profile_has_find_plugin);
            &&& arguments.len() > 0
            &&& arguments[0] == ValueView::Path(runtime.dsh_entry)
            &&& exists|i: int|
                0 < i < arguments.len() - 1 && #[trigger] arguments[i]
                    == ValueView::<P>::Text("--profile"@)
                    && arguments[i + 1] == ValueView::<P>::Text("web"@)
            &&& exists|i: int|
                0 < i < arguments.len() - 1 && #[trigger] arguments[i]
                    == ValueView::<P>::Text("--host"@)
                    && arguments[i + 1] == ValueView::<P>::Text("127.0.0.1"@)
            &&& exists|i: int|
                0 < i < arguments.len() - 1 && #[trigger] arguments[i]
                    == ValueView::<P>::Text("--port"@)
                    && arguments[i + 1] == ValueView::<P>::Text("0"@)
            &&& arguments.contains(ValueView::<P>::Text("--no-open"@))
            &&& forall|i: int|
                0 < i < arguments.len() && (#[trigger] arguments[i]) is Path ==> arguments[i - 1]
                    == ValueView::<P>::Text("--patch"@)
        }),
{
    let arguments = harness_arguments(runtime, profile_has_find_plugin);
    let n = arguments.len() as int;
    assert(arguments[1] == ValueView::<P>::Text("--profile"@));
    assert(arguments[n - 5] == ValueView::<P>::Text("--host"@));
    assert(arguments[n - 3] == ValueView::<P>::Text("--port"@));
    assert(arguments[n - 1] == ValueView::<P>::Text("--no-open"@));
}

proof fn lemma_fixed_keys<P>(runtime: RuntimePaths<P>, places: LaunchPlaces<P>)
    ensures
        forall|i: int, j: int|
            0 <= i < j < fixed_variables(runtime, places).len() ==> (#[trigger] fixed_variables(
                runtime,
                places,
            )[i]).0 != (#[trigger] fixed_variables(runtime, places)[j]).0,
        forall|i: int|
            0 < i < fixed_variables(runtime, places).len() ==> !shell_env::is_imported_key(
                (#[trigger] fixed_variables(runtime, places)[i]).0,
            ),
        fixed_variables(runtime, places).len() == 12,
{
    reveal_strlit("PATH");
    reveal_strlit("DSH_HOME");
    reveal_strlit("DSH_TELEMETRY_DISABLED");
    reveal_strlit("OPENHARNESS_MANAGED_RUNTIME");
    reveal_strlit("OPENHARNESS_MANAGED_RUNTIME_PROTOCOL");
    reveal_strlit("OPENHARNESS_PROFILE_NAME");
    reveal_strlit("OPENHARNESS_PROFILE_DIRECTORY");
    reveal_strlit("OPENHARNESS_RUNTIME_ROOT");
    reveal_strlit("OPENHARNESS_NODE_PATH");
    reveal_strlit("OPENHARNESS_DSH_ENTRY");
    reveal_strlit("OPENHARNESS_PACKAGE_MANAGER_BIN");
    reveal_strlit("OPENHARNESS_RESTART_EXIT_CODE");
    reveal_strlit("DEEPSEEK_");
    let fixed = fixed_variables(runtime, places);
    let lengths = seq![4int, 8, 22, 27, 36, 24, 29, 24, 21, 21, 31, 29];
    let marks = seq!['P', 'D', 'D', 'M', 'M', 'P', 'P', 'R', 'N', 'D', 'P', 'R'];
    assert forall|i: int| 0 <= i < fixed.len() implies (#[trigger] fixed[i]).0.len() == lengths[i]
        && (i >= 3 ==> fixed[i].0[12] == marks[i] && fixed[i].0[0] == 'O') by {
        assert(i == 0 || i == 1 || i == 2 || i == 3 || i == 4 || i == 5 || i == 6 || i == 7 || i
            == 8 || i == 9 || i == 10 || i == 11);
    }
    assert forall|i: int, j: int| 0 <= i < j < fixed.len() implies (#[trigger] fixed[i]).0 != (
    #[trigger] fixed[j]).0 by {
        assert(fixed[i].0.len() == lengths[i] && fixed[j].0.len() == lengths[j]);
        if lengths[i] == lengths[j] {
            assert(marks[i] != marks[j]);
            assert(fixed[i].0[12] != fixed[j].0[12]);
        }
    }
    assert forall|i: int| 0 < i < fixed.len() implies !shell_env::is_imported_key(
        (#[trigger] fixed[i]).0,
    ) by {
        assert(fixed[i].0.len() == lengths[i] && fixed[i].0.len() > 4);
        let prefix = "DEEPSEEK_"@;
        if fixed[i].0.len() >= 9 {
            if i >= 3 {
                assert(fixed[i].0.take(9)[0] == 'O');
            } else {
                assert(i == 2);
                assert(fixed[i].0.take(9)[1] == 'S');
            }
            assert(prefix[0] == 'D' && prefix[1] == 'E');
        }
    }
}

/// The backend gets what the host decides, whatever the login shell prints: where
/// it lives, which profile it runs, and with which exit code it asks for a restart.
pub proof fn law_host_decides_the_environment<P>(
    runtime: RuntimePaths<P>,
    places: LaunchPlaces<P>,
    variables: Seq<ShellVariable>,
    output: Seq<u8>,
)
    requires
        variables.map_values(|variable: ShellVariable| (variable.key@, variable.value@))
            == shell_env::shell_variables(output),
    ensures
        ({
            let environment = fixed_variables(runtime, places) + passed_variables(variables);
            &&& value_in(environment, "PATH"@) == Some(ValueView::Path(places.search_path))
            &&& value_in(environment, "DSH_HOME"@) == Some(ValueView::Path(places.dsh_home))
            &&& value_in(environment, "DSH_TELEMETRY_DISABLED"@) == Some(
                ValueView::<P>::Text("1"@),
            )
            &&& value_in(environment, "OPENHARNESS_MANAGED_RUNTIME"@) == Some(
                ValueView::<P>::Text("1"@),
            )
            &&& value_in(environment, "OPENHARNESS_MANAGED_RUNTIME_PROTOCOL"@) == Some(
                ValueView::<P>::Text("1"@),
            )
            &&& value_in(environment, "OPENHARNESS_PROFILE_NAME"@) == Some(
                ValueView::<P>::Text("web"@),
            )
            &&& value_in(environment, "OPENHARNESS_PROFILE_DIRECTORY"@) == Some(
                ValueView::Path(places.profile_directory),
            )
            &&& value_in(environment, "OPENHARNESS_RUNTIME_ROOT"@) == Some(
                ValueView::Path(runtime.root),
            )
            &&& value_in(environment, "OPENHARNESS_NODE_PATH"@) == Some(
                ValueView::Path(runtime.node),
            )
            &&& value_in(environment, "OPENHARNESS_DSH_ENTRY"@) == Some(
                ValueView::Path(runtime.dsh_entry),
            )
            &&& value_in(environment, "OPENHARNESS_PACKAGE_MANAGER_BIN"@) == Some(
                ValueView::Path(runtime.package_manager_bin),
            )
            &&& value_in(environment, "OPENHARNESS_RESTART_EXIT_CODE"@) == Some(
                ValueView::<P>::Text("75"@),
            )
        }),
{
    let fixed = fixed_variables(runtime, places);
    let imported = shell_env::shell_variables(output);
    lemma_fixed_keys(runtime, places);
    shell_env::law_only_known_variables_are_imported(output);
    assert forall|k: int| 0 <= k < fixed.len() implies value_in(
        fixed + passed_variables(variables),
        (#[trigger] fixed[k]).0,
    ) == Some(fixed[k].1) by {
        let key = fixed[k].0;
        assert forall|i: int|
            0 <= i < variables.len() && (#[trigger] variables[i]).key@ == key implies key
            == "PATH"@ || variables[i].inherited by {
            assert(imported[i].0 == variables[i].key@);
            assert(shell_env::is_imported_key(key));
        }
        lemma_passed_variables(fixed, variables, key);
        lemma_value_at(fixed, k);
    }
    reveal_strlit("75");
    reveal_with_fuel(text::decimal, 3);
    assert(text::decimal(75) =~= "75"@);
    assert(fixed[0].0 == "PATH"@ && fixed[1].0 == "DSH_HOME"@ && fixed[2].0
        == "DSH_TELEMETRY_DISABLED"@ && fixed[3].0 == "OPENHARNESS_MANAGED_RUNTIME"@ && fixed[4].0
        == "OPENHARNESS_MANAGED_RUNTIME_PROTOCOL"@ && fixed[5].0 == "OPENHARNESS_PROFILE_NAME"@
        && fixed[6].0 == "OPENHARNESS_PROFILE_DIRECTORY"@ && fixed[7].0
        == "OPENHARNESS_RUNTIME_ROOT"@ && fixed[8].0 == "OPENHARNESS_NODE_PATH"@ && fixed[9].0
        == "OPENHARNESS_DSH_ENTRY"@ && fixed[10].0 == "OPENHARNESS_PACKAGE_MANAGER_BIN"@
        && fixed[11].0 == "OPENHARNESS_RESTART_EXIT_CODE"@);
}

/// A variable of the login shell reaches the backend where the host did not
/// inherit it and it is not the search path: its last value counts.
pub proof fn law_shell_variables_are_passed_on<P>(
    runtime: RuntimePaths<P>,
    places: LaunchPlaces<P>,
    variables: Seq<ShellVariable>,
    i: int,
)
    requires
        0 <= i < variables.len(),
        variables[i].key@ != "PATH"@,
        !variables[i].inherited,
        forall|j: int|
            i < j < variables.len() && (#[trigger] variables[j]).key@ == variables[i].key@
                ==> variables[j].inherited,
    ensures
        value_in(
            fixed_variables(runtime, places) + passed_variables(variables),
            variables[i].key@,
        ) == Some(ValueView::<P>::Text(variables[i].value@)),
{
    lemma_last_passed(fixed_variables(runtime, places), variables, i);
}

proof fn lemma_last_passed<P>(
    fixed: Seq<(Seq<char>, ValueView<P>)>,
    variables: Seq<ShellVariable>,
    i: int,
)
    requires
        0 <= i < variables.len(),
        variables[i].key@ != "PATH"@,
        !variables[i].inherited,
        forall|j: int|
            i < j < variables.len() && (#[trigger] variables[j]).key@ == variables[i].key@
                ==> variables[j].inherited,
    ensures
        value_in(fixed + passed_variables(variables), variables[i].key@) == Some(
            ValueView::<P>::Text(variables[i].value@),
        ),
    decreases variables.len(),
{
    let init = variables.drop_last();
    let last = variables[variables.len() - 1];
    let passed = passed_variables::<P>(variables);
    if i == variables.len() - 1 {
        assert((fixed + passed).last() == (last.key@, ValueView::<P>::Text(last.value@)));
    } else {
        assert(init[i] == variables[i]);
        assert forall|j: int|
            i < j < init.len() && (#[trigger] init[j]).key@
                == init[i].key@ implies init[j].inherited by {
            assert(init[j] == variables[j]);
        }
        lemma_last_passed(fixed, init, i);
        if last.key@ != "PATH"@ && !last.inherited {
            assert(last.key@ != variables[i].key@);
            assert((fixed + passed).drop_last() == fixed + passed_variables::<P>(init));
            assert((fixed + passed).last().0 == last.key@);
        }
    }
}

/// A manifest lists a bundle exactly where the text is among the items of the list
/// that stands under `bundles` in the table under `profile` in the table under
/// `dsh`.
pub proof fn law_declared_bundles(manifest: json::JsonTree, bundle: Seq<char>)
    ensures
        declares(manifest, bundle) <==> {
            &&& manifest matches json::JsonTree::Table(top)
            &&& top.contains_key("dsh"@)
            &&& top["dsh"@] matches json::JsonTree::Table(dsh)
            &&& dsh.contains_key("profile"@)
            &&& dsh["profile"@] matches json::JsonTree::Table(profile)
            &&& profile.contains_key("bundles"@)
            &&& profile["bundles"@] matches json::JsonTree::List(items)
            &&& exists|i: int|
                0 <= i < items.len() && #[trigger] items[i] == json::JsonTree::Text(bundle)
        },
{
    law_bundles_are_listed_under_the_profile(manifest);
    reveal_strlit("dsh");
    reveal_strlit("profile");
    reveal_strlit("bundles");
    let tokens = seq!["dsh"@, "profile"@, "bundles"@];
    reveal_with_fuel(json::pointed, 4);
    assert(tokens.drop_last() =~= seq!["dsh"@, "profile"@]);
    assert(tokens.drop_last().drop_last() =~= seq!["dsh"@]);
    assert(tokens.drop_last().drop_last().drop_last() =~= Seq::<Seq<char>>::empty());
    text::law_decimal_round_trip(text::numeral_value("dsh"@));
    text::law_decimal_round_trip(text::numeral_value("profile"@));
    text::law_decimal_round_trip(text::numeral_value("bundles"@));
    assert(!text::is_digit("dsh"@[0]) && !text::is_digit("profile"@[0]) && !text::is_digit(
        "bundles"@[0],
    ));
}

/// What is reported of a failed start holds what went wrong; the backend's output
/// and the place of the log come with it where the backend was started.
pub proof fn law_launch_reports_hold_the_cause(
    complaint: String,
    cause: String,
    error: HostError,
    recent: Seq<Seq<char>>,
    log_path: Option<Seq<char>>,
)
    ensures
        launch_report(LaunchFailure::NotReady { error }, recent, log_path)
            == failure::failure_message(error.message@, recent, log_path),
        launch_report(LaunchFailure::NoRuntime { complaint }, recent, log_path) == complaint@,
        launch_report(LaunchFailure::NoHome { cause }, recent, log_path) == cause@,
        launch_report(LaunchFailure::NotSpawned { cause }, recent, log_path).len() == cause@.len()
            + 21,
        launch_report(LaunchFailure::NotSpawned { cause }, recent, log_path).skip(21) == cause@,
{
    reveal_strlit("failed to spawn dsh: ");
    let report = launch_report(LaunchFailure::NotSpawned { cause }, recent, log_path);
    assert(report.skip(21) =~= cause@);
}

/// What the backend is handed is what was written: a path stays that path, and a
/// text that text, one for one and in order.
pub proof fn law_contents_of_a_start<'a, P>(
    path: &'a P,
    text: String,
    arguments: Seq<LaunchValue<'a, P>>,
    environment: Seq<(String, LaunchValue<'a, P>)>,
    i: int,
)
    ensures
        LaunchValue::Path(path).contents() == ValueView::Path(*path),
        LaunchValue::<'a, P>::Text(text).contents() == ValueView::<P>::Text(text@),
        argument_views(arguments).len() == arguments.len(),
        0 <= i < arguments.len() ==> argument_views(arguments)[i] == arguments[i].contents(),
        environment_views(environment).len() == environment.len(),
        0 <= i < environment.len() ==> environment_views(environment)[i].0 == environment[i].0@
            && environment_views(environment)[i].1 == environment[i].1.contents(),
{
}

// ---------------------------------------------------------------------------
// What the operations give
// ---------------------------------------------------------------------------

/// The search path that is made: the paths of the package manager, of Node, of the
/// login shell's directories and of the inherited ones, in the order in which the
/// caller gave them; without those that have no name, and without those that name a
/// directory again. `at` gives the place of each.
pub proof fn law_managed_search_path<'a, P>(
    package_manager_bin: &'a SearchDirectory<P>,
    node_directory: &'a SearchDirectory<P>,
    shell: &'a Vec<SearchDirectory<P>>,
    inherited: &'a Vec<SearchDirectory<P>>,
    paths: Vec<&'a P>,
) -> (at: Seq<int>)
    requires
        call_ensures(
            managed_runtime_path::<P>,
            (package_manager_bin, node_directory, shell, inherited),
            paths,
        ),
    ensures
        ({
            let bundled = seq![*package_manager_bin, *node_directory];
            let whole = bundled + shell@ + inherited@;
            let path = search_path(bundled, shell@, inherited@);
            &&& at.len() == paths@.len()
            &&& at.len() > 0 && at[0] == 0
            &&& path.len() == paths@.len()
            &&& forall|k: int|
                0 <= k < at.len() ==> 0 <= #[trigger] at[k] < whole.len() && *paths@[k]
                    == whole[at[k]].path && path[k] == whole[at[k]] && (at[k] < 2
                    || !whole[at[k]].empty)
            &&& forall|k: int, l: int| 0 <= k < l < at.len() ==> #[trigger] at[k] < #[trigger] at[l]
            &&& forall|k: int, i: int|
                0 <= k < at.len() && 0 <= i < at[k] && (i < 2 || !whole[i].empty) ==> key_view(
                    (#[trigger] whole[i]).key,
                ) != key_view((#[trigger] path[k]).key)
            &&& forall|i: int|
                0 <= i < whole.len() && (i < 2 || !whole[i].empty) ==> exists|k: int|
                    0 <= k < path.len() && key_view((#[trigger] whole[i]).key) == key_view(
                        (#[trigger] path[k]).key,
                    )
        }),
{
    let bundled = seq![*package_manager_bin, *node_directory];
    let whole = bundled + shell@ + inherited@;
    let path = search_path(bundled, shell@, inherited@);
    let at = law_search_path_keeps_the_order(bundled, shell@, inherited@);
    law_search_path_prefers_the_bundle(bundled, shell@, inherited@);
    let handed = paths@.map_values(|path: &P| *path);
    assert(bundled.len() == 2);
    assert(handed == paths_of(path));
    assert(handed.len() == paths@.len());
    assert(paths_of(path).len() == path.len());
    assert forall|k: int| 0 <= k < at.len() implies 0 <= #[trigger] at[k] < whole.len() && *paths@[k]
        == whole[at[k]].path && path[k] == whole[at[k]] && (at[k] < 2 || !whole[at[k]].empty) by {
        assert(handed[k] == *paths@[k]);
        assert(paths_of(path)[k] == path[k].path);
    }
    assert(at[0] == 0) by {
        assert(path[0] == whole[at[0]]);
        if at[0] > 0 {
            assert(whole[0] == bundled[0]);
            assert(key_view(whole[0].key) != key_view(path[0].key));
        }
    }
    at
}

/// The arguments that are made hold `--patch` directly followed by the desktop's
/// patch, whatever the profile has, and the plugin finder's patch exactly where the
/// profile does not have it.
pub proof fn law_configured_arguments<P>(
    runtime: &RuntimePaths<P>,
    profile_has_find_plugin: bool,
    arguments: Vec<LaunchValue<'_, P>>,
)
    requires
        call_ensures(configure_harness_args::<P>, (runtime, profile_has_find_plugin), arguments),
        runtime.find_plugin_patch != runtime.patch,
        runtime.find_plugin_patch != runtime.dsh_entry,
    ensures
        exists|i: int|
            {
                &&& 0 <= i < arguments@.len() - 1
                &&& #[trigger] arguments@[i] matches LaunchValue::Text(option)
                &&& option@ == "--patch"@
                &&& arguments@[i + 1] matches LaunchValue::Path(path)
                &&& *path == runtime.patch
            },
        (exists|i: int|
            0 <= i < arguments@.len() && (#[trigger] arguments@[i] matches LaunchValue::Path(path)
                && *path == runtime.find_plugin_patch)) == !profile_has_find_plugin,
        arguments@.len() > 0 && (arguments@[0] matches LaunchValue::Path(path) && *path
            == runtime.dsh_entry),
{
    let all = argument_views(arguments@);
    assert(all == harness_arguments(*runtime, profile_has_find_plugin));
    assert(all.len() == arguments@.len());
    assert forall|i: int| 0 <= i < all.len() implies #[trigger] all[i]
        == arguments@[i].contents() by {
    }
    assert(all[0] == ValueView::Path(runtime.dsh_entry));
    assert(all[3] == ValueView::<P>::Text("--patch"@));
    assert(all[4] == ValueView::Path(runtime.patch));
    assert(arguments@[3].contents() == all[3]);
    assert(arguments@[4].contents() == all[4]);
    assert(arguments@[0].contents() == all[0]);
    law_patches_of_the_backend(*runtime, profile_has_find_plugin);
    let find = ValueView::Path(runtime.find_plugin_patch);
    if !profile_has_find_plugin {
        let i = all.index_of(find);
        assert(all[i] == arguments@[i].contents());
    } else {
        assert forall|i: int| 0 <= i < arguments@.len() implies !(#[trigger] arguments@[i]
            matches LaunchValue::Path(path) && *path == runtime.find_plugin_patch) by {
            assert(all[i] == arguments@[i].contents());
            if all[i] == find {
                assert(all.contains(find));
            }
        }
    }
}

/// The shell's search path is the value of its first `PATH`; the joined search path
/// is handed over where there is one, and the inherited one takes its place.
pub proof fn law_sources_of_the_search_path<P>(
    variables: &Vec<(String, String)>,
    value: Option<&str>,
    joined: Option<P>,
    inherited: Option<P>,
    path: Option<P>,
    i: int,
)
    ensures
        call_ensures(shell_search_path, (variables,), value) && 0 <= i < variables@.len()
            && variables@[i].0@ == "PATH"@ && (forall|j: int|
            0 <= j < i ==> (#[trigger] variables@[j]).0@ != "PATH"@) ==> value is Some && value->0@
            == variables@[i].1@,
        call_ensures(shell_search_path, (variables,), value) && (forall|j: int|
            0 <= j < variables@.len() ==> (#[trigger] variables@[j]).0@ != "PATH"@)
            ==> value is None,
        call_ensures(path_or_inherited::<P>, (joined, inherited), path) && joined is Some ==> path
            == joined,
        call_ensures(path_or_inherited::<P>, (joined, inherited), path) && joined is None ==> path
            == inherited,
{
    if call_ensures(shell_search_path, (variables,), value) && value is None && 0 <= i
        < variables@.len() {
        assert(shell_env::env_views(variables@)[i].0 == variables@[i].0@);
    }
}

/// A profile is taken to list a bundle exactly where its manifest could be read and
/// has the name among the items under `dsh`, `profile` and `bundles`.
pub proof fn law_listed_bundles(manifest: Option<&[u8]>, bundle: &str, declared: bool)
    requires
        call_ensures(profile_declares_bundle, (manifest, bundle), declared),
    ensures
        manifest is None ==> !declared,
        manifest matches Some(content) ==> (json::json_document(content@) is None ==> !declared),
        manifest matches Some(content) ==> (json::json_document(content@) matches Some(tree)
            ==> declared == declares(tree, bundle@)),
{
}

/// The environment that is made sets what the host decides, and then the variables of
/// the login shell, in their order: all but those that the host inherited, and the
/// search path. `from` gives the place of each among the shell's variables.
pub proof fn law_made_environments<'a, P>(
    runtime: &'a RuntimePaths<P>,
    places: &'a LaunchPlaces<P>,
    variables: &Vec<ShellVariable>,
    environment: Vec<(String, LaunchValue<'a, P>)>,
) -> (from: Seq<int>)
    requires
        call_ensures(harness_environment::<P>, (runtime, places, variables), environment),
    ensures
        environment@.len() == 12 + from.len(),
        environment@[0].0@ == "PATH"@ && environment@[0].1.contents() == ValueView::Path(
            places.search_path,
        ),
        environment@[1].0@ == "DSH_HOME"@ && environment@[1].1.contents() == ValueView::Path(
            places.dsh_home,
        ),
        environment@[2].0@ == "DSH_TELEMETRY_DISABLED"@ && environment@[2].1.contents()
            == ValueView::<P>::Text("1"@),
        environment@[8].0@ == "OPENHARNESS_NODE_PATH"@ && environment@[8].1.contents()
            == ValueView::Path(runtime.node),
        environment@[9].0@ == "OPENHARNESS_DSH_ENTRY"@ && environment@[9].1.contents()
            == ValueView::Path(runtime.dsh_entry),
        forall|k: int, l: int| 0 <= k < l < from.len() ==> #[trigger] from[k] < #[trigger] from[l],
        forall|k: int|
            0 <= k < from.len() ==> {
                &&& 0 <= #[trigger] from[k] < variables@.len()
                &&& environment@[12 + k].0@ == variables@[from[k]].key@
                &&& environment@[12 + k].1.contents() == ValueView::<P>::Text(
                    variables@[from[k]].value@,
                )
            },
        forall|i: int|
            0 <= i < variables@.len() ==> #[trigger] from.contains(i) == (
            !variables@[i].inherited && variables@[i].key@ != "PATH"@),
{
    let all = environment_views(environment@);
    let fixed = fixed_variables(*runtime, *places);
    let passed = passed_variables::<P>(variables@);
    assert(all == fixed + passed);
    assert(all.len() == environment@.len());
    assert(fixed.len() == 12);
    assert forall|i: int| 0 <= i < environment@.len() implies all[i] == (
        (#[trigger] environment@[i]).0@,
        environment@[i].1.contents(),
    ) by {
    }
    assert(all[0] == fixed[0] && all[1] == fixed[1] && all[2] == fixed[2] && all[8] == fixed[8]
        && all[9] == fixed[9]);
    assert(all[0].0 == environment@[0].0@ && all[1].0 == environment@[1].0@ && all[2].0
        == environment@[2].0@ && all[8].0 == environment@[8].0@ && all[9].0
        == environment@[9].0@);
    let from = lemma_passed_is_a_selection::<P>(variables@);
    assert forall|k: int| 0 <= k < from.len() implies {
        &&& 0 <= #[trigger] from[k] < variables@.len()
        &&& environment@[12 + k].0@ == variables@[from[k]].key@
        &&& environment@[12 + k].1.contents() == ValueView::<P>::Text(variables@[from[k]].value@)
    } by {
        assert(all[12 + k] == passed[k]);
        assert(all[12 + k].0 == environment@[12 + k].0@);
    }
    from
}

/// Which of the shell's variables are passed on.
proof fn lemma_passed_is_a_selection<P>(variables: Seq<ShellVariable>) -> (from: Seq<int>)
    ensures
        from.len() == passed_variables::<P>(variables).len(),
        forall|k: int|
            0 <= k < from.len() ==> 0 <= #[trigger] from[k] < variables.len() && passed_variables::<
                P,
            >(variables)[k] == (
                variables[from[k]].key@,
                ValueView::<P>::Text(variables[from[k]].value@),
            ),
        forall|k: int, l: int| 0 <= k < l < from.len() ==> #[trigger] from[k] < #[trigger] from[l],
        forall|i: int|
            0 <= i < variables.len() ==> #[trigger] from.contains(i) == (!variables[i].inherited
                && variables[i].key@ != "PATH"@),
    decreases variables.len(),
{
    if variables.len() == 0 {
        Seq::empty()
    } else {
        let init = variables.drop_last();
        let last = variables.last();
        let end = variables.len() - 1;
        let earlier = lemma_passed_is_a_selection::<P>(init);
        let passed = passed_variables::<P>(variables);
        let goes = last.key@ != "PATH"@ && !last.inherited;
        let from = if goes {
            earlier.push(end)
        } else {
            earlier
        };
        assert forall|k: int| 0 <= k < from.len() implies 0 <= #[trigger] from[k] < variables.len()
            && passed[k] == (
            variables[from[k]].key@,
            ValueView::<P>::Text(variables[from[k]].value@),
        ) by {
            if k < earlier.len() {
                assert(from[k] == earlier[k] && earlier[k] < init.len());
                assert(init[earlier[k]] == variables[from[k]]);
            }
        }
        assert forall|k: int, l: int| 0 <= k < l < from.len() implies #[trigger] from[k]
            < #[trigger] from[l] by {
            assert(from[k] == earlier[k] && earlier[k] < init.len());
            if l < earlier.len() {
                assert(from[l] == earlier[l]);
            }
        }
        assert forall|i: int| 0 <= i < variables.len() implies #[trigger] from.contains(i) == (
        !variables[i].inherited && variables[i].key@ != "PATH"@) by {
            if i < end {
                assert(init[i] == variables[i]);
                assert(earlier.contains(i) == (!init[i].inherited && init[i].key@ != "PATH"@));
                if earlier.contains(i) {
                    let k = earlier.index_of(i);
                    assert(from[k] == i);
                }
                if from.contains(i) {
                    let k = from.index_of(i);
                    assert(k < earlier.len());
                    assert(earlier[k] == i);
                }
            } else {
                if goes {
                    assert(from[earlier.len() as int] == end);
                } else if from.contains(i) {
                    let k = from.index_of(i);
                    assert(earlier[k] < init.len());
                }
            }
        }
        from
    }
}

/// What is reported of a start that failed, and what the log says of one.
pub proof fn law_reported_starts(
    failure: LaunchFailure,
    recent: &Vec<String>,
    log_path: Option<&str>,
    detail: String,
    entry: &str,
    line: String,
)
    ensures
        call_ensures(launch_failure_detail, (failure, recent, log_path), detail) ==> {
            &&& failure matches LaunchFailure::NoRuntime { complaint } ==> detail@ == complaint@
            &&& failure matches LaunchFailure::NoHome { cause } ==> detail@ == cause@
            &&& failure matches LaunchFailure::NotSpawned { cause } ==> detail@
                == "failed to spawn dsh: "@ + cause@
            &&& failure matches LaunchFailure::NotReady { error } ==> detail@
                == failure::failure_message(
                error.message@,
                text::views(recent@),
                text::opt_str(log_path),
            )
        },
        call_ensures(launch_log_line, (entry,), line) ==> line@ == "--- dsh web started: "@ + entry@,
{
}

} // verus!
