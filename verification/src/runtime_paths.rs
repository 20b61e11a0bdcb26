//! Where the bundled runtime is, and what of it has to be there.
//!
//! A path inside the bundle is the list of the pieces that are joined, one after
//! another, to the directory of the bundle.

use vstd::prelude::*;

use crate::json;
use crate::text;
use crate::text::{chars_of, joined, same_text, split_text, text_after};

verus! {

// ---------------------------------------------------------------------------
// The entry of the runtime's package
// ---------------------------------------------------------------------------

/// A part of a path that leads to another place than a member of a directory.
pub open spec fn is_special_part(part: Seq<char>) -> bool {
    part.len() == 0 || part == "."@ || part == ".."@
}

/// A relative path that stays inside its directory on every platform.
pub open spec fn stays_inside(entry: Seq<char>) -> bool {
    &&& !entry.contains('\\')
    &&& !entry.contains(':')
    &&& forall|i: int|
        0 <= i < text::split_on(entry, '/').len() ==> !is_special_part(
            #[trigger] text::split_on(entry, '/')[i],
        )
}

/// The entry that a package's manifest declares: its `bin`, or the member `dsh` of
/// its `bin`.
pub open spec fn declared_entry(manifest: json::JsonTree) -> Option<Seq<char>> {
    match json::table_entry(manifest, "bin"@) {
        Some(json::JsonTree::Text(entry)) => Some(entry),
        Some(bin) => match json::table_entry(bin, "dsh"@) {
            Some(json::JsonTree::Text(entry)) => Some(entry),
            _ => None,
        },
        None => None,
    }
}

/// The entry of a package, given what was read of its manifest, or what is wrong;
/// `place` is where the manifest is.
pub open spec fn entry_of(
    place: Seq<char>,
    reading: Result<json::JsonTree, Seq<char>>,
) -> Result<Seq<char>, Seq<char>> {
    match reading {
        Err(complaint) => Err(place + ": "@ + complaint),
        Ok(manifest) => match declared_entry(manifest) {
            None => Err(place + ": missing bin.dsh"@),
            Some(entry) => if stays_inside(entry) {
                Ok(entry)
            } else {
                Err(place + ": invalid relative CLI entry "@ + entry)
            },
        },
    }
}

/// The outcome of looking for the entry.
pub open spec fn found_entry(entry: Result<String, String>) -> Result<Seq<char>, Seq<char>> {
    match entry {
        Ok(entry) => Ok(entry@),
        Err(complaint) => Err(complaint@),
    }
}

fn holds(chars: &Vec<char>, c: char) -> (yes: bool)
    ensures
        yes == chars@.contains(c),
{
    let mut i: usize = 0;
    while i < chars.len()
        invariant
            i <= chars@.len(),
            forall|j: int| 0 <= j < i ==> chars@[j] != c,
        decreases chars@.len() - i,
    {
        if chars[i] == c {
            assert(chars@[i as int] == c);
            return true;
        }
        i = i + 1;
    }
    false
}

fn is_inside(entry: &str) -> (inside: bool)
    ensures
        inside == stays_inside(entry@),
{
    let chars = chars_of(entry);
    if holds(&chars, '\\') || holds(&chars, ':') {
        return false;
    }
    let parts = split_text(entry, '/');
    let ghost all = text::split_on(entry@, '/');
    let mut i: usize = 0;
    while i < parts.len()
        invariant
            i <= parts@.len(),
            all == text::split_on(entry@, '/'),
            all == text::views(parts@),
            !entry@.contains('\\'),
            !entry@.contains(':'),
            forall|j: int| 0 <= j < i ==> !is_special_part(#[trigger] all[j]),
        decreases parts@.len() - i,
    {
        let part = parts[i].as_str();
        assert(all[i as int] == part@);
        if part.is_empty() || same_text(part, ".") || same_text(part, "..") {
            assert(is_special_part(all[i as int]));
            return false;
        }
        i = i + 1;
    }
    assert(all.len() == parts@.len());
    true
}

fn complain(place: &str, about: &str) -> (complaint: String)
    ensures
        complaint@ == place@ + about@,
{
    let mut complaint = place.to_owned();
    complaint.append(about);
    complaint
}

/// The entry of a package whose manifest is the given JSON value.
pub fn manifest_entry(place: &str, manifest: &serde_json::Value) -> (entry: Result<String, String>)
    ensures
        found_entry(entry) == entry_of(place@, json::read_as(json::json_tree(*manifest))),
{
    let bin = json::member_or_null(manifest, "bin");
    let declared = match bin.as_str() {
        Some(entry) => Some(entry),
        None => json::member_or_null(bin, "dsh").as_str(),
    };
    match declared {
        None => Err(complain(place, ": missing bin.dsh")),
        Some(entry) => {
            if is_inside(entry) {
                Ok(entry.to_owned())
            } else {
                let mut complaint = complain(place, ": invalid relative CLI entry ");
                complaint.append(entry);
                Err(complaint)
            }
        },
    }
}

/// The entry of a package, relative to the package, given the text of its
/// manifest or why it could not be read; `place` is where the manifest is.
pub fn package_entry(place: &str, manifest: Result<String, String>) -> (entry: Result<String, String>)
    ensures
        found_entry(entry) == entry_of(
            place@,
            match manifest {
                Ok(document) => json::json_reading(document@),
                Err(complaint) => Err(complaint@),
            },
        ),
{
    let failure = match manifest {
        Ok(document) => match json::parse_text(document.as_str()) {
            Ok(value) => {
                return manifest_entry(place, &value);
            },
            Err(complaint) => complaint,
        },
        Err(complaint) => complaint,
    };
    let mut complaint = complain(place, ": ");
    complaint.append(failure.as_str());
    Err(complaint)
}

/// No entry leads out of its package: it is not empty, and none of its parts goes
/// up, stays in place, or names a drive.
pub proof fn law_entries_stay_inside(
    place: Seq<char>,
    reading: Result<json::JsonTree, Seq<char>>,
    entry: Seq<char>,
)
    requires
        entry_of(place, reading) == Ok::<Seq<char>, Seq<char>>(entry),
    ensures
        entry.len() > 0,
        !entry.contains(':'),
        !text::split_on(entry, '/').contains(".."@),
        entry[0] != '/',
{
    let parts = text::split_on(entry, '/');
    text::law_split_join(entry, '/');
    if parts.contains(".."@) {
        let i = parts.index_of(".."@);
        assert(is_special_part(parts[i]));
    }
    if entry.len() == 0 {
        assert(is_special_part(parts[0]));
    } else if entry[0] == '/' {
        lemma_leading_separator(entry, '/');
        assert(is_special_part(parts[0]));
    }
}

proof fn lemma_leading_separator(s: Seq<char>, sep: char)
    requires
        s.len() > 0,
        s[0] == sep,
    ensures
        text::split_on(s, sep).len() > 1,
        text::split_on(s, sep)[0].len() == 0,
    decreases s.len(),
{
    let init = s.drop_last();
    if s.len() > 1 {
        lemma_leading_separator(init, sep);
    } else {
        assert(text::split_on(init, sep) == seq![Seq::<char>::empty()]);
        assert(s.last() == sep);
    }
}

// ---------------------------------------------------------------------------
// Paths for the child process
// ---------------------------------------------------------------------------

/// What the child process gets in place of a path.
pub enum ChildPath {
    /// The path itself.
    Unchanged,
    /// This one.
    Plain(String),
}

/// The plain form of a verbatim Windows path; nothing for other paths.
pub open spec fn plain_form(path: Seq<char>, windows: bool) -> Option<Seq<char>> {
    if !windows {
        None
    } else if text::starts_with(path, "\\\\?\\UNC\\"@) {
        Some("\\\\"@ + path.skip("\\\\?\\UNC\\"@.len() as int))
    } else if text::starts_with(path, "\\\\?\\"@) {
        Some(path.skip("\\\\?\\"@.len() as int))
    } else {
        None
    }
}

/// The form of a path that the child process understands. Windows gives verbatim
/// (`\\?\`) paths, which Node's module loader takes apart wrongly, so they lose
/// their prefix; other paths stay as they are.
pub fn child_path(path: &str, windows: bool) -> (child: ChildPath)
    ensures
        match plain_form(path@, windows) {
            Some(plain) => child matches ChildPath::Plain(found) && found@ == plain,
            None => child is Unchanged,
        },
{
    if !windows {
        return ChildPath::Unchanged;
    }
    match text_after(path, "\\\\?\\UNC\\") {
        Some(rest) => {
            let mut plain = "\\\\".to_string();
            plain.append(rest.as_str());
            return ChildPath::Plain(plain);
        },
        None => {},
    }
    match text_after(path, "\\\\?\\") {
        Some(plain) => ChildPath::Plain(plain),
        None => ChildPath::Unchanged,
    }
}

/// A verbatim path of a drive loses its prefix and nothing else, so what the child
/// gets is no longer verbatim.
pub proof fn law_plain_forms_are_not_verbatim(rest: Seq<char>)
    requires
        !text::starts_with(rest, "\\\\?\\"@),
        !text::starts_with(rest, "UNC\\"@),
    ensures
        plain_form("\\\\?\\"@ + rest, true) == Some(rest),
        plain_form(rest, true) is None,
{
    reveal_strlit("\\\\?\\");
    reveal_strlit("\\\\?\\UNC\\");
    reveal_strlit("UNC\\");
    let path = "\\\\?\\"@ + rest;
    assert(path.take(4) == "\\\\?\\"@);
    assert(path.skip(4) == rest);
    if text::starts_with(path, "\\\\?\\UNC\\"@) {
        assert(path.take(8).skip(4) == "UNC\\"@);
        assert(rest.take(4) == path.take(8).skip(4));
    }
    if text::starts_with(rest, "\\\\?\\UNC\\"@) {
        assert(rest.take(4) == rest.take(8).take(4));
        assert("\\\\?\\UNC\\"@.take(4) == "\\\\?\\"@);
    }
}

// ---------------------------------------------------------------------------
// The files of the runtime
// ---------------------------------------------------------------------------

/// The paths of a runtime that is in place.
pub struct RuntimePaths<P> {
    pub root: P,
    pub node: P,
    pub dsh_entry: P,
    pub patch: P,
    pub find_plugin_patch: P,
    pub package_manager_bin: P,
}

/// The directory that holds the runtime: bundling keeps the directory `runtime`
/// or flattens it.
pub open spec fn root_parts(nested: bool) -> Seq<Seq<char>> {
    if nested {
        seq!["runtime"@]
    } else {
        Seq::empty()
    }
}

/// The Node executable.
pub open spec fn node_parts(nested: bool, windows: bool) -> Seq<Seq<char>> {
    root_parts(nested).push(
        if windows {
            "node.exe"@
        } else {
            "node"@
        },
    )
}

/// Something in the directory of the agent.
pub open spec fn dsh_parts(nested: bool, name: Seq<char>) -> Seq<Seq<char>> {
    root_parts(nested).push("dsh"@).push(name)
}

/// The package of the agent.
pub open spec fn package_parts(nested: bool) -> Seq<Seq<char>> {
    dsh_parts(nested, "node_modules/@deepseek-ai/dsh"@)
}

/// The directory of the package manager.
pub open spec fn manager_parts(nested: bool) -> Seq<Seq<char>> {
    dsh_parts(nested, "openharness-bin"@)
}

/// The launcher of the package manager.
pub open spec fn launcher_parts(nested: bool, windows: bool) -> Seq<Seq<char>> {
    manager_parts(nested).push(
        if windows {
            "pnpm.cmd"@
        } else {
            "pnpm"@
        },
    )
}

/// What has to be looked at to find out whether a runtime is in place.
pub struct RuntimeFiles {
    pub root: Vec<String>,
    pub node: Vec<String>,
    pub package: Vec<String>,
    pub manifest: Vec<String>,
    pub patch: Vec<String>,
    pub find_plugin_patch: Vec<String>,
    pub package_manager_bin: Vec<String>,
    pub launcher: Vec<String>,
}

fn extended(base: &Vec<String>, part: &str) -> (path: Vec<String>)
    ensures
        text::views(path@) == text::views(base@).push(part@),
{
    let mut path: Vec<String> = Vec::new();
    let mut i: usize = 0;
    while i < base.len()
        invariant
            i <= base@.len(),
            text::views(path@) == text::views(base@).take(i as int),
        decreases base@.len() - i,
    {
        let ghost before = path@;
        let copy = base[i].as_str().to_owned();
        path.push(copy);
        proof {
            assert(text::views(path@) == text::views(before).push(copy@));
            assert(text::views(base@)[i as int] == copy@);
        }
        i = i + 1;
    }
    let ghost before = path@;
    let last = part.to_owned();
    path.push(last);
    proof {
        assert(text::views(base@).take(i as int) == text::views(base@));
        assert(text::views(path@) == text::views(before).push(last@));
    }
    path
}

/// What has to be looked at to find out whether a runtime is in place.
pub fn runtime_files(nested: bool, windows: bool) -> (files: RuntimeFiles)
    ensures
        text::views(files.root@) == root_parts(nested),
        text::views(files.node@) == node_parts(nested, windows),
        text::views(files.package@) == package_parts(nested),
        text::views(files.manifest@) == package_parts(nested).push("package.json"@),
        text::views(files.patch@) == dsh_parts(nested, "openharness.patch.yml"@),
        text::views(files.find_plugin_patch@) == dsh_parts(nested, "openharness-find.patch.yml"@),
        text::views(files.package_manager_bin@) == manager_parts(nested),
        text::views(files.launcher@) == launcher_parts(nested, windows),
{
    let empty: Vec<String> = Vec::new();
    assert(text::views(empty@) == Seq::<Seq<char>>::empty());
    let root = if nested {
        extended(&empty, "runtime")
    } else {
        empty
    };
    assert(text::views(root@) =~= root_parts(nested));
    let dsh = extended(&root, "dsh");
    let package = extended(&dsh, "node_modules/@deepseek-ai/dsh");
    let package_manager_bin = extended(&dsh, "openharness-bin");
    RuntimeFiles {
        node: extended(
            &root,
            if windows {
                "node.exe"
            } else {
                "node"
            },
        ),
        manifest: extended(&package, "package.json"),
        patch: extended(&dsh, "openharness.patch.yml"),
        find_plugin_patch: extended(&dsh, "openharness-find.patch.yml"),
        launcher: extended(
            &package_manager_bin,
            if windows {
                "pnpm.cmd"
            } else {
                "pnpm"
            },
        ),
        root,
        package,
        package_manager_bin,
    }
}

// ---------------------------------------------------------------------------
// Choosing a runtime
// ---------------------------------------------------------------------------

/// A path, how it reads, and whether it is a file.
pub struct FileProbe {
    pub display: String,
    pub is_file: bool,
}

/// What was found where a runtime may be.
pub struct RuntimeProbe {
    /// How the directory of the runtime reads.
    pub root: String,
    pub node: FileProbe,
    pub patch: FileProbe,
    pub find_plugin_patch: FileProbe,
    pub launcher: FileProbe,
    /// The entry of the agent relative to its package, and what is there; or why
    /// there is none.
    pub entry: Result<(String, FileProbe), String>,
}

/// A complaint about a file, where it is not there.
pub open spec fn file_complaint(file: FileProbe) -> Seq<Seq<char>> {
    if file.is_file {
        Seq::empty()
    } else {
        seq![file.display@]
    }
}

/// What is missing or invalid where a runtime may be.
pub open spec fn missing(probe: RuntimeProbe) -> Seq<Seq<char>> {
    file_complaint(probe.node) + file_complaint(probe.patch) + file_complaint(
        probe.find_plugin_patch,
    ) + file_complaint(probe.launcher) + (match probe.entry {
        Ok((_, file)) => file_complaint(file),
        Err(complaint) => seq![complaint@],
    })
}

fn note_missing(file: &FileProbe, complaints: &mut Vec<String>)
    ensures
        text::views(final(complaints)@) == text::views(old(complaints)@) + file_complaint(*file),
{
    if !file.is_file {
        let display = file.display.as_str().to_owned();
        complaints.push(display);
        assert(text::views(complaints@) == text::views(old(complaints)@).push(display@));
    }
}

fn missing_files(probe: &RuntimeProbe) -> (complaints: Vec<String>)
    ensures
        text::views(complaints@) == missing(*probe),
{
    let mut complaints: Vec<String> = Vec::new();
    note_missing(&probe.node, &mut complaints);
    note_missing(&probe.patch, &mut complaints);
    note_missing(&probe.find_plugin_patch, &mut complaints);
    note_missing(&probe.launcher, &mut complaints);
    match &probe.entry {
        Ok((_, file)) => {
            note_missing(file, &mut complaints);
        },
        Err(complaint) => {
            let ghost before = complaints@;
            let copy = complaint.as_str().to_owned();
            complaints.push(copy);
            assert(text::views(complaints@) == text::views(before).push(copy@));
        },
    }
    assert(text::views(complaints@) =~= missing(*probe));
    complaints
}

/// The complaint about a place where no runtime is.
pub open spec fn place_complaint(probe: RuntimeProbe) -> Seq<char> {
    probe.root@ + ": missing or invalid files: "@ + text::join(missing(probe), ", "@)
}

fn complain_of_place(probe: &RuntimeProbe) -> (complaint: String)
    ensures
        complaint@ == place_complaint(*probe),
{
    let mut complaint = complain(probe.root.as_str(), ": missing or invalid files: ");
    complaint.append(joined(&missing_files(probe), ", ").as_str());
    complaint
}

/// The paths are those of the runtime of one of the two layouts.
pub open spec fn locates(
    paths: RuntimePaths<Vec<String>>,
    nested: bool,
    windows: bool,
    entry: Seq<char>,
) -> bool {
    &&& text::views(paths.root@) == root_parts(nested)
    &&& text::views(paths.node@) == node_parts(nested, windows)
    &&& text::views(paths.dsh_entry@) == package_parts(nested).push(entry)
    &&& text::views(paths.patch@) == dsh_parts(nested, "openharness.patch.yml"@)
    &&& text::views(paths.find_plugin_patch@) == dsh_parts(nested, "openharness-find.patch.yml"@)
    &&& text::views(paths.package_manager_bin@) == manager_parts(nested)
}

fn runtime_paths(nested: bool, windows: bool, entry: &str) -> (paths: RuntimePaths<Vec<String>>)
    ensures
        locates(paths, nested, windows, entry@),
{
    let files = runtime_files(nested, windows);
    let dsh_entry = extended(&files.package, entry);
    RuntimePaths {
        root: files.root,
        node: files.node,
        dsh_entry,
        patch: files.patch,
        find_plugin_patch: files.find_plugin_patch,
        package_manager_bin: files.package_manager_bin,
    }
}

/// A complete runtime is at a place.
pub open spec fn is_complete(probe: RuntimeProbe) -> bool {
    missing(probe).len() == 0
}

/// Finds the bundled runtime of a platform: in the directory `runtime` where that
/// is complete, else in the directory above it where that is; else everything that
/// is missing at both places is reported.
pub fn resolve_runtime_for_platform(windows: bool, nested: &RuntimeProbe, flat: &RuntimeProbe) -> (found:
    Result<RuntimePaths<Vec<String>>, String>)
    ensures
        match found {
            Ok(paths) => if is_complete(*nested) {
                locates(paths, true, windows, nested.entry->Ok_0.0@)
            } else {
                is_complete(*flat) && locates(paths, false, windows, flat.entry->Ok_0.0@)
            },
            Err(complaint) => !is_complete(*nested) && !is_complete(*flat) && complaint@
                == "bundled runtime not found; "@ + place_complaint(*nested) + "; "@
                + place_complaint(*flat),
        },
{
    let nested_missing = missing_files(nested);
    assert(missing(*nested).len() == nested_missing@.len());
    match &nested.entry {
        Ok((entry, _)) => {
            if nested_missing.is_empty() {
                return Ok(runtime_paths(true, windows, entry.as_str()));
            }
        },
        Err(_) => {},
    }
    let flat_missing = missing_files(flat);
    assert(missing(*flat).len() == flat_missing@.len());
    match &flat.entry {
        Ok((entry, _)) => {
            if flat_missing.is_empty() {
                return Ok(runtime_paths(false, windows, entry.as_str()));
            }
        },
        Err(_) => {},
    }
    let mut complaint = "bundled runtime not found; ".to_string();
    complaint.append(complain_of_place(nested).as_str());
    complaint.append("; ");
    complaint.append(complain_of_place(flat).as_str());
    Err(complaint)
}

/// A runtime is used only where every file of it is there.
pub proof fn law_complete_runtimes_have_every_file(probe: RuntimeProbe)
    ensures
        is_complete(probe) <==> {
            &&& probe.node.is_file
            &&& probe.patch.is_file
            &&& probe.find_plugin_patch.is_file
            &&& probe.launcher.is_file
            &&& probe.entry matches Ok((_, file)) && file.is_file
        },
{
}

// ---------------------------------------------------------------------------
// What the bundle promises
// ---------------------------------------------------------------------------

/// A relative path stays inside its directory exactly where none of its parts is
/// empty, a dot or two dots, and none holds a backslash or a colon.
pub proof fn law_paths_that_stay_inside(parts: Seq<Seq<char>>)
    requires
        parts.len() > 0,
        forall|i: int| 0 <= i < parts.len() ==> !(#[trigger] parts[i]).contains('/'),
    ensures
        stays_inside(text::join(parts, seq!['/'])) <==> forall|i: int|
            0 <= i < parts.len() ==> {
                &&& (#[trigger] parts[i]).len() > 0
                &&& parts[i] != seq!['.']
                &&& parts[i] != seq!['.', '.']
                &&& !parts[i].contains('\\')
                &&& !parts[i].contains(':')
            },
{
    let entry = text::join(parts, seq!['/']);
    reveal_strlit(".");
    reveal_strlit("..");
    assert("."@ =~= seq!['.']);
    assert(".."@ =~= seq!['.', '.']);
    text::law_join_split(parts, '/');
    lemma_join_holds(parts, '\\');
    lemma_join_holds(parts, ':');
    if stays_inside(entry) {
        assert forall|i: int| 0 <= i < parts.len() implies {
            &&& (#[trigger] parts[i]).len() > 0
            &&& parts[i] != seq!['.']
            &&& parts[i] != seq!['.', '.']
            &&& !parts[i].contains('\\')
            &&& !parts[i].contains(':')
        } by {
            assert(!is_special_part(text::split_on(entry, '/')[i]));
        }
    }
    if forall|i: int|
        0 <= i < parts.len() ==> {
            &&& (#[trigger] parts[i]).len() > 0
            &&& parts[i] != seq!['.']
            &&& parts[i] != seq!['.', '.']
            &&& !parts[i].contains('\\')
            &&& !parts[i].contains(':')
        } {
        assert forall|i: int| 0 <= i < text::split_on(entry, '/').len() implies !is_special_part(
            #[trigger] text::split_on(entry, '/')[i],
        ) by {
            assert(parts[i].len() > 0);
        }
    }
}

proof fn lemma_join_holds(parts: Seq<Seq<char>>, c: char)
    requires
        c != '/',
    ensures
        text::join(parts, seq!['/']).contains(c) <==> exists|i: int|
            0 <= i < parts.len() && (#[trigger] parts[i]).contains(c),
    decreases parts.len(),
{
    let whole = text::join(parts, seq!['/']);
    if parts.len() == 1 {
        assert(whole == parts[0]);
    } else if parts.len() > 1 {
        let init = parts.drop_last();
        let head = text::join(init, seq!['/']);
        let last = parts[parts.len() - 1];
        lemma_join_holds(init, c);
        assert(whole == head + seq!['/'] + last);
        if whole.contains(c) {
            let k = whole.index_of(c);
            if k < head.len() {
                assert(head[k] == c);
                let i = choose|i: int| 0 <= i < init.len() && (#[trigger] init[i]).contains(c);
                assert(parts[i] == init[i]);
            } else {
                assert(k > head.len());
                assert(last[k - head.len() - 1] == c);
            }
        }
        if exists|i: int| 0 <= i < parts.len() && (#[trigger] parts[i]).contains(c) {
            let i = choose|i: int| 0 <= i < parts.len() && (#[trigger] parts[i]).contains(c);
            if i < init.len() {
                assert(init[i].contains(c));
                let k = head.index_of(c);
                assert(whole[k] == c);
            } else {
                let k = last.index_of(c);
                assert(whole[head.len() + 1 + k] == c);
            }
        }
    }
}

/// The entry of a package is the text under `bin` of its manifest, or the text
/// under `dsh` of the table there; a manifest with neither declares none.
pub proof fn law_declared_entries(manifest: json::JsonTree, entry: Seq<char>)
    ensures
        declared_entry(manifest) == Some(entry) <==> {
            &&& manifest matches json::JsonTree::Table(members)
            &&& members.contains_key("bin"@)
            &&& (members["bin"@] == json::JsonTree::Text(entry) || (members["bin"@]
                matches json::JsonTree::Table(bin) && bin.contains_key("dsh"@) && bin["dsh"@]
                == json::JsonTree::Text(entry)))
        },
{
}

/// A package has an entry exactly where its manifest can be read, declares one, and
/// that one stays inside; every complaint says first where the manifest is.
pub proof fn law_entries_of_packages(
    place: Seq<char>,
    reading: Result<json::JsonTree, Seq<char>>,
    entry: Seq<char>,
)
    ensures
        entry_of(place, reading) == Ok::<Seq<char>, Seq<char>>(entry) <==> {
            &&& reading matches Ok(manifest)
            &&& declared_entry(manifest) == Some(entry)
            &&& stays_inside(entry)
        },
        entry_of(place, reading) matches Err(complaint) ==> text::starts_with(complaint, place),
        reading matches Err(cause) ==> entry_of(place, reading) == Err::<Seq<char>, Seq<char>>(
            place + seq![':', ' '] + cause,
        ),
        reading matches Ok(manifest) ==> (declared_entry(manifest) is None ==> entry_of(
            place,
            reading,
        ) == Err::<Seq<char>, Seq<char>>(place + ": missing bin.dsh"@)),
        reading matches Ok(manifest) ==> (declared_entry(manifest) == Some(entry) && !stays_inside(
            entry,
        ) ==> entry_of(place, reading) == Err::<Seq<char>, Seq<char>>(
            place + ": invalid relative CLI entry "@ + entry,
        )),
{
    reveal_strlit(": ");
    assert(": "@ =~= seq![':', ' ']);
    if let Err(complaint) = entry_of(place, reading) {
        assert(complaint.take(place.len() as int) =~= place);
    }
}

/// A verbatim network path becomes a plain one; what is not verbatim stays, and so
/// does every path where the platform is not Windows.
pub proof fn law_plain_forms(rest: Seq<char>, path: Seq<char>)
    ensures
        plain_form(seq!['\\', '\\', '?', '\\', 'U', 'N', 'C', '\\'] + rest, true) == Some(
            seq!['\\', '\\'] + rest,
        ),
        plain_form(path, false) is None,
        !text::starts_with(path, seq!['\\', '\\', '?', '\\']) ==> plain_form(path, true) is None,
{
    reveal_strlit("\\\\?\\UNC\\");
    reveal_strlit("\\\\?\\");
    reveal_strlit("\\\\");
    let prefix = seq!['\\', '\\', '?', '\\', 'U', 'N', 'C', '\\'];
    let verbatim = seq!['\\', '\\', '?', '\\'];
    assert("\\\\?\\UNC\\"@ =~= prefix);
    assert("\\\\?\\"@ =~= verbatim);
    assert("\\\\"@ =~= seq!['\\', '\\']);
    let whole = prefix + rest;
    assert(whole.take(8) =~= prefix);
    assert(whole.skip(8) =~= rest);
    if !text::starts_with(path, verbatim) && text::starts_with(path, prefix) {
        assert(path.take(4) =~= path.take(8).take(4));
        assert(prefix.take(4) =~= verbatim);
    }
}

/// Where the parts of a runtime are: the layout of the bundle decides whether a
/// directory `runtime` leads to them, and the platform what the programs are called.
pub proof fn law_places_in_the_bundle(nested: bool, windows: bool, name: Seq<char>)
    ensures
        ({
            let root = if nested {
                seq!["runtime"@]
            } else {
                Seq::<Seq<char>>::empty()
            };
            &&& root_parts(nested) == root
            &&& node_parts(nested, windows) == root + seq![
                if windows {
                    "node.exe"@
                } else {
                    "node"@
                },
            ]
            &&& dsh_parts(nested, name) == root + seq!["dsh"@, name]
            &&& package_parts(nested) == root + seq!["dsh"@, "node_modules/@deepseek-ai/dsh"@]
            &&& manager_parts(nested) == root + seq!["dsh"@, "openharness-bin"@]
            &&& launcher_parts(nested, windows) == root + seq![
                "dsh"@,
                "openharness-bin"@,
                if windows {
                    "pnpm.cmd"@
                } else {
                    "pnpm"@
                },
            ]
        }),
{
    let root = if nested {
        seq!["runtime"@]
    } else {
        Seq::<Seq<char>>::empty()
    };
    let node = if windows {
        "node.exe"@
    } else {
        "node"@
    };
    let pnpm = if windows {
        "pnpm.cmd"@
    } else {
        "pnpm"@
    };
    assert(root_parts(nested) =~= root);
    assert(node_parts(nested, windows) =~= root + seq![node]);
    assert(dsh_parts(nested, name) =~= root + seq!["dsh"@, name]);
    assert(package_parts(nested) =~= root + seq!["dsh"@, "node_modules/@deepseek-ai/dsh"@]);
    assert(manager_parts(nested) =~= root + seq!["dsh"@, "openharness-bin"@]);
    assert(launcher_parts(nested, windows) =~= root + seq!["dsh"@, "openharness-bin"@, pnpm]);
}

/// The paths of a runtime lead to its own files: each to the one that it is named
/// for.
pub proof fn law_located_runtimes(
    paths: RuntimePaths<Vec<String>>,
    nested: bool,
    windows: bool,
    entry: Seq<char>,
)
    requires
        locates(paths, nested, windows, entry),
    ensures
        ({
            let root = if nested {
                seq!["runtime"@]
            } else {
                Seq::<Seq<char>>::empty()
            };
            &&& text::views(paths.root@) == root
            &&& text::views(paths.node@).last() == (if windows {
                "node.exe"@
            } else {
                "node"@
            })
            &&& text::views(paths.dsh_entry@) == root + seq![
                "dsh"@,
                "node_modules/@deepseek-ai/dsh"@,
                entry,
            ]
            &&& text::views(paths.patch@) == root + seq!["dsh"@, "openharness.patch.yml"@]
            &&& text::views(paths.find_plugin_patch@) == root + seq![
                "dsh"@,
                "openharness-find.patch.yml"@,
            ]
            &&& text::views(paths.package_manager_bin@) == root + seq!["dsh"@, "openharness-bin"@]
        }),
{
    let root = if nested {
        seq!["runtime"@]
    } else {
        Seq::<Seq<char>>::empty()
    };
    law_places_in_the_bundle(nested, windows, "openharness.patch.yml"@);
    law_places_in_the_bundle(nested, windows, "openharness-find.patch.yml"@);
    assert(package_parts(nested).push(entry) =~= root + seq![
        "dsh"@,
        "node_modules/@deepseek-ai/dsh"@,
        entry,
    ]);
}

/// What is missing is reported by name: each file that is not there, and the
/// complaint about an entry that there is not; and nothing else. The order is that of
/// the files: Node, both patches, the launcher, the entry.
pub proof fn law_missing_files_are_named(probe: RuntimeProbe, name: Seq<char>)
    ensures
        missing(probe).contains(name) <==> {
            ||| !probe.node.is_file && name == probe.node.display@
            ||| !probe.patch.is_file && name == probe.patch.display@
            ||| !probe.find_plugin_patch.is_file && name == probe.find_plugin_patch.display@
            ||| !probe.launcher.is_file && name == probe.launcher.display@
            ||| probe.entry matches Ok((_, file)) && !file.is_file && name == file.display@
            ||| probe.entry matches Err(complaint) && name == complaint@
        },
        ({
            let told = |file: FileProbe|
                if file.is_file {
                    Seq::<Seq<char>>::empty()
                } else {
                    seq![file.display@]
                };
            missing(probe) == told(probe.node) + told(probe.patch) + told(probe.find_plugin_patch)
                + told(probe.launcher) + (if probe.entry is Ok {
                told(probe.entry->Ok_0.1)
            } else {
                seq![probe.entry->Err_0@]
            })
        }),
        text::starts_with(place_complaint(probe), probe.root@),
        place_complaint(probe).skip(probe.root@.len() as int + 28) == text::join(
            missing(probe),
            seq![',', ' '],
        ),
{
    reveal_strlit(": missing or invalid files: ");
    reveal_strlit(", ");
    assert(", "@ =~= seq![',', ' ']);
    let complaint = place_complaint(probe);
    assert(complaint.take(probe.root@.len() as int) =~= probe.root@);
    assert(complaint.skip(probe.root@.len() as int + 28) =~= text::join(missing(probe), ", "@));
    let a = file_complaint(probe.node);
    let b = file_complaint(probe.patch);
    let c = file_complaint(probe.find_plugin_patch);
    let d = file_complaint(probe.launcher);
    let e = match probe.entry {
        Ok((_, file)) => file_complaint(file),
        Err(complaint) => seq![complaint@],
    };
    assert(missing(probe) == a + b + c + d + e);
    lemma_listed_in_one_of_two(a, b, name);
    lemma_listed_in_one_of_two(a + b, c, name);
    lemma_listed_in_one_of_two(a + b + c, d, name);
    lemma_listed_in_one_of_two(a + b + c + d, e, name);
    lemma_one_complaint(probe.node, name);
    lemma_one_complaint(probe.patch, name);
    lemma_one_complaint(probe.find_plugin_patch, name);
    lemma_one_complaint(probe.launcher, name);
    match probe.entry {
        Ok((_, file)) => {
            lemma_one_complaint(file, name);
        },
        Err(complaint) => {
            assert(e[0] == complaint@);
        },
    }
}

proof fn lemma_one_complaint(file: FileProbe, name: Seq<char>)
    ensures
        file_complaint(file).contains(name) == (!file.is_file && name == file.display@),
{
    if !file.is_file {
        assert(file_complaint(file)[0] == file.display@);
    }
}

proof fn lemma_listed_in_one_of_two(a: Seq<Seq<char>>, b: Seq<Seq<char>>, name: Seq<char>)
    ensures
        (a + b).contains(name) == (a.contains(name) || b.contains(name)),
{
    if a.contains(name) {
        let i = a.index_of(name);
        assert((a + b)[i] == name);
    }
    if b.contains(name) {
        let i = b.index_of(name);
        assert((a + b)[a.len() + i] == name);
    }
    if (a + b).contains(name) {
        let i = (a + b).index_of(name);
        if i < a.len() {
            assert(a[i] == name);
        } else {
            assert(b[i - a.len()] == name);
        }
    }
}

/// The entry of a package whose manifest declares one that stays inside is that one;
/// where a manifest declares none, or one that leads elsewhere, a complaint comes.
pub proof fn law_entries_of_manifests(
    place: &str,
    manifest: &serde_json::Value,
    entry: Result<String, String>,
    declared: Seq<char>,
)
    requires
        call_ensures(manifest_entry, (place, manifest), entry),
    ensures
        declared_entry(json::json_tree(*manifest)) == Some(declared) && stays_inside(declared)
            ==> entry is Ok && entry->Ok_0@ == declared,
        declared_entry(json::json_tree(*manifest)) == Some(declared) && !stays_inside(declared)
            ==> entry is Err,
        declared_entry(json::json_tree(*manifest)) is None ==> entry is Err,
        entry is Ok ==> declared_entry(json::json_tree(*manifest)) == Some(entry->Ok_0@)
            && stays_inside(entry->Ok_0@),
        entry matches Err(complaint) ==> text::starts_with(complaint@, place@),
{
    let reading = json::read_as(json::json_tree(*manifest));
    law_entries_of_packages(place@, reading, declared);
    if let Err(complaint) = entry {
        assert(entry_of(place@, reading) == Err::<Seq<char>, Seq<char>>(complaint@));
    }
}

/// A manifest that could not be read gives no entry, and the complaint names it and
/// the cause.
pub proof fn law_unreadable_manifests(place: &str, cause: String, entry: Result<String, String>)
    requires
        call_ensures(package_entry, (place, Err(cause)), entry),
    ensures
        entry is Err,
        entry->Err_0@ == place@ + seq![':', ' '] + cause@,
{
    law_entries_of_packages(place@, Err(cause@), Seq::empty());
}

/// The child process gets a path as it is, but for verbatim ones on Windows, which
/// lose their prefix.
pub proof fn law_paths_for_the_child(path: &str, windows: bool, child: ChildPath, rest: Seq<char>)
    requires
        call_ensures(child_path, (path, windows), child),
    ensures
        !windows ==> child is Unchanged,
        !text::starts_with(path@, seq!['\\', '\\', '?', '\\']) ==> child is Unchanged,
        windows && path@ == seq!['\\', '\\', '?', '\\', 'U', 'N', 'C', '\\'] + rest ==> (child
            matches ChildPath::Plain(plain) && plain@ == seq!['\\', '\\'] + rest),
        windows && path@ == seq!['\\', '\\', '?', '\\'] + rest && !text::starts_with(
            rest,
            seq!['U', 'N', 'C', '\\'],
        ) ==> (child matches ChildPath::Plain(plain) && plain@ == rest),
{
    law_plain_forms(rest, path@);
    reveal_strlit("\\\\?\\UNC\\");
    reveal_strlit("\\\\?\\");
    let prefix = seq!['\\', '\\', '?', '\\', 'U', 'N', 'C', '\\'];
    let verbatim = seq!['\\', '\\', '?', '\\'];
    assert("\\\\?\\UNC\\"@ =~= prefix);
    assert("\\\\?\\"@ =~= verbatim);
    if path@ == verbatim + rest {
        assert(path@.take(4) =~= verbatim);
        assert(path@.skip(4) =~= rest);
        if text::starts_with(path@, prefix) {
            assert(rest.take(4) =~= path@.take(8).skip(4));
            assert(prefix.skip(4) =~= seq!['U', 'N', 'C', '\\']);
        }
    }
}

/// The runtime is taken from the directory `runtime` where all of it is there, from
/// the directory above where it is there and not below, and nowhere else; what is
/// found leads to the files of the layout that was found.
pub proof fn law_found_runtimes(
    windows: bool,
    nested: &RuntimeProbe,
    flat: &RuntimeProbe,
    found: Result<RuntimePaths<Vec<String>>, String>,
)
    requires
        call_ensures(resolve_runtime_for_platform, (windows, nested, flat), found),
    ensures
        ({
            let whole = |probe: RuntimeProbe|
                {
                    &&& probe.node.is_file
                    &&& probe.patch.is_file
                    &&& probe.find_plugin_patch.is_file
                    &&& probe.launcher.is_file
                    &&& probe.entry is Ok
                    &&& probe.entry->Ok_0.1.is_file
                };
            &&& (found is Ok) == (whole(*nested) || whole(*flat))
            &&& found matches Err(complaint) ==> complaint@ == "bundled runtime not found; "@
                + place_complaint(*nested) + "; "@ + place_complaint(*flat)
            &&& found matches Ok(paths) ==> {
                let root = if whole(*nested) {
                    seq!["runtime"@]
                } else {
                    Seq::<Seq<char>>::empty()
                };
                let entry = if whole(*nested) {
                    nested.entry->Ok_0.0@
                } else {
                    flat.entry->Ok_0.0@
                };
                &&& text::views(paths.root@) == root
                &&& text::views(paths.dsh_entry@) == root + seq![
                    "dsh"@,
                    "node_modules/@deepseek-ai/dsh"@,
                    entry,
                ]
                &&& text::views(paths.patch@) == root + seq!["dsh"@, "openharness.patch.yml"@]
                &&& text::views(paths.find_plugin_patch@) == root + seq![
                    "dsh"@,
                    "openharness-find.patch.yml"@,
                ]
                &&& text::views(paths.package_manager_bin@) == root + seq![
                    "dsh"@,
                    "openharness-bin"@,
                ]
            }
        }),
{
    law_complete_runtimes_have_every_file(*nested);
    law_complete_runtimes_have_every_file(*flat);
    if let Ok(paths) = found {
        if is_complete(*nested) {
            law_located_runtimes(paths, true, windows, nested.entry->Ok_0.0@);
        } else {
            law_located_runtimes(paths, false, windows, flat.entry->Ok_0.0@);
        }
    }
}

/// What has to be looked at for a runtime, by the names of its files.
pub proof fn law_files_to_look_at(nested: bool, windows: bool, files: RuntimeFiles)
    requires
        call_ensures(runtime_files, (nested, windows), files),
    ensures
        ({
            let root = if nested {
                seq!["runtime"@]
            } else {
                Seq::<Seq<char>>::empty()
            };
            let package = root + seq!["dsh"@, "node_modules/@deepseek-ai/dsh"@];
            &&& text::views(files.root@) == root
            &&& text::views(files.node@) == root + seq![
                if windows {
                    "node.exe"@
                } else {
                    "node"@
                },
            ]
            &&& text::views(files.package@) == package
            &&& text::views(files.manifest@) == package + seq!["package.json"@]
            &&& text::views(files.patch@) == root + seq!["dsh"@, "openharness.patch.yml"@]
            &&& text::views(files.find_plugin_patch@) == root + seq![
                "dsh"@,
                "openharness-find.patch.yml"@,
            ]
            &&& text::views(files.launcher@) == root + seq![
                "dsh"@,
                "openharness-bin"@,
                if windows {
                    "pnpm.cmd"@
                } else {
                    "pnpm"@
                },
            ]
        }),
{
    let root = if nested {
        seq!["runtime"@]
    } else {
        Seq::<Seq<char>>::empty()
    };
    law_places_in_the_bundle(nested, windows, "openharness.patch.yml"@);
    law_places_in_the_bundle(nested, windows, "openharness-find.patch.yml"@);
    let package = root + seq!["dsh"@, "node_modules/@deepseek-ai/dsh"@];
    assert(package_parts(nested).push("package.json"@) =~= package + seq!["package.json"@]);
}

} // verus!
