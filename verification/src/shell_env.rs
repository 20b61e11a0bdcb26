//! The environment of the user's login shell.

use vstd::prelude::*;

use crate::error::{ErrorKind, HostError};
use crate::text::{
    chars_of, decimal, decimal_text, find_chars, find_from, lemma_find_from, split_on, starts_with,
    text_after, text_between,
};

verus! {

/// Seconds after which reading the login shell's environment is given up.
pub const SHELL_ENV_TIMEOUT: u64 = 5;

/// Seconds to wait for the output of a login shell that has exited.
pub const SHELL_ENV_READ_TIMEOUT: u64 = 1;

/// Bytes of a login shell's environment that are accepted.
pub const SHELL_ENV_OUTPUT_LIMIT: usize = 1_048_576;

// ---------------------------------------------------------------------------
// Reading the environment
// ---------------------------------------------------------------------------

/// Calls `std::str::from_utf8`, which gives the decoded text of valid UTF-8 and
/// an error for anything else.
#[verifier::external_body]
fn decode(bytes: &[u8]) -> (text: Option<String>)
    ensures
        match text {
            Some(text) => vstd::utf8::valid_utf8(bytes@) && text@ == vstd::utf8::decode_utf8(
                bytes@,
            ),
            None => !vstd::utf8::valid_utf8(bytes@),
        },
{
    std::str::from_utf8(bytes).ok().map(str::to_owned)
}

/// A character that a variable's name may start with.
pub open spec fn starts_key(c: char) -> bool {
    'A' <= c <= 'Z' || 'a' <= c <= 'z' || c == '_'
}

/// A character that may stand in a variable's name.
pub open spec fn continues_key(c: char) -> bool {
    starts_key(c) || '0' <= c <= '9'
}

/// A variable's name: a letter or underscore, then letters, digits and
/// underscores, all of them ASCII.
pub open spec fn is_env_key(key: Seq<char>) -> bool {
    &&& key.len() > 0
    &&& starts_key(key[0])
    &&& forall|i: int| 0 <= i < key.len() ==> continues_key(#[trigger] key[i])
}

/// The variables that are imported.
pub open spec fn is_imported_key(key: Seq<char>) -> bool {
    key == "PATH"@ || starts_with(key, "DEEPSEEK_"@)
}

/// The variable that one entry sets, where it is to be imported.
pub open spec fn env_entry(entry: Seq<u8>) -> Option<(Seq<char>, Seq<char>)> {
    if !vstd::utf8::valid_utf8(entry) {
        None
    } else {
        let text = vstd::utf8::decode_utf8(entry);
        match find_from(text, "="@, 0) {
            Some(i) => {
                let key = text.take(i);
                let value = text.skip(i + 1);
                if value.len() > 0 && is_env_key(key) && is_imported_key(key) {
                    Some((key, value))
                } else {
                    None
                }
            },
            None => None,
        }
    }
}

/// The imported variables of some entries, in order.
pub open spec fn env_entries(entries: Seq<Seq<u8>>) -> Seq<(Seq<char>, Seq<char>)>
    decreases entries.len(),
{
    if entries.len() == 0 {
        Seq::empty()
    } else {
        let before = env_entries(entries.drop_last());
        match env_entry(entries.last()) {
            Some(variable) => before.push(variable),
            None => before,
        }
    }
}

/// The imported variables of a shell's output: what precedes the first NUL is
/// the shell's own chatter, after it come the entries, separated by NULs.
pub open spec fn shell_variables(output: Seq<u8>) -> Seq<(Seq<char>, Seq<char>)> {
    env_entries(split_on(output, 0u8).skip(1))
}

/// The contents of some variables.
pub open spec fn env_views(variables: Seq<(String, String)>) -> Seq<(Seq<char>, Seq<char>)> {
    variables.map_values(|variable: (String, String)| (variable.0@, variable.1@))
}

/// Whether a text is a variable's name.
pub fn valid_env_key(key: &str) -> (valid: bool)
    ensures
        valid == is_env_key(key@),
{
    let chars = chars_of(key);
    if chars.len() == 0 {
        return false;
    }
    let first = chars[0];
    if !(('A' <= first && first <= 'Z') || ('a' <= first && first <= 'z') || first == '_') {
        return false;
    }
    let mut i: usize = 0;
    while i < chars.len()
        invariant
            i <= chars@.len(),
            chars@ == key@,
            chars@.len() > 0,
            starts_key(chars@[0]),
            forall|j: int| 0 <= j < i ==> continues_key(#[trigger] chars@[j]),
        decreases chars@.len() - i,
    {
        let c = chars[i];
        if !(('A' <= c && c <= 'Z') || ('a' <= c && c <= 'z') || c == '_' || ('0' <= c && c <= '9')) {
            assert(!continues_key(chars@[i as int]));
            return false;
        }
        i = i + 1;
    }
    true
}

/// The variable that one entry sets, where it is to be imported.
fn parse_entry(entry: &[u8]) -> (variable: Option<(String, String)>)
    ensures
        match variable {
            Some(variable) => env_entry(entry@) == Some((variable.0@, variable.1@)),
            None => env_entry(entry@) is None,
        },
{
    let text = match decode(entry) {
        Some(text) => text,
        None => {
            return None;
        },
    };
    let chars = chars_of(text.as_str());
    let at = match find_chars(&chars, "=") {
        Some(at) => at,
        None => {
            return None;
        },
    };
    proof {
        reveal_strlit("=");
        lemma_find_from(text@, "="@, 0);
    }
    let count = chars.len();
    assert(at + 1 <= count);
    let key = text_between(&chars, 0, at);
    let value = text_between(&chars, at + 1, count);
    assert(key@ == text@.take(at as int));
    assert(value@ == text@.skip(at + 1));
    if !value.as_str().is_empty() && valid_env_key(key.as_str()) && (crate::text::same_text(
        key.as_str(),
        "PATH",
    ) || text_after(key.as_str(), "DEEPSEEK_").is_some()) {
        Some((key, value))
    } else {
        None
    }
}

/// The imported variables of a shell's output.
pub fn parse_shell_env(output: &[u8]) -> (variables: Vec<(String, String)>)
    ensures
        env_views(variables@) == shell_variables(output@),
{
    let parts = split_bytes(output, 0u8);
    let ghost all = split_on(output@, 0u8);
    let ghost entries = all.skip(1);
    let mut variables: Vec<(String, String)> = Vec::new();
    let mut i: usize = 1;
    proof {
        crate::text::law_split_join(output@, 0u8);
        assert(entries.take(0) == Seq::<Seq<u8>>::empty());
    }
    while i < parts.len()
        invariant
            1 <= i <= parts@.len(),
            all == parts@.map_values(|part: Vec<u8>| part@),
            entries == all.skip(1),
            env_views(variables@) == env_entries(entries.take(i - 1)),
        decreases parts@.len() - i,
    {
        proof {
            assert(entries.take(i as int).drop_last() == entries.take(i - 1));
            assert(entries.take(i as int).last() == parts@[i as int]@);
        }
        match parse_entry(parts[i].as_slice()) {
            Some(variable) => {
                let ghost before = variables@;
                variables.push(variable);
                assert(env_views(variables@) == env_views(before).push((variable.0@, variable.1@)));
            },
            None => {},
        }
        i = i + 1;
    }
    assert(entries.take(i - 1) == entries);
    variables
}

/// The pieces of a byte string between the occurrences of `sep`.
fn split_bytes(bytes: &[u8], sep: u8) -> (parts: Vec<Vec<u8>>)
    ensures
        parts@.map_values(|part: Vec<u8>| part@) == split_on(bytes@, sep),
{
    let mut parts: Vec<Vec<u8>> = Vec::new();
    let mut part: Vec<u8> = Vec::new();
    let mut i: usize = 0;
    let ghost pieces = |parts: Seq<Vec<u8>>| parts.map_values(|part: Vec<u8>| part@);
    proof {
        assert(part@ == Seq::<u8>::empty());
        assert(bytes@.take(0) == Seq::<u8>::empty());
        assert(pieces(parts@).push(part@) == split_on(bytes@.take(0), sep));
    }
    while i < bytes.len()
        invariant
            i <= bytes@.len(),
            pieces == (|parts: Seq<Vec<u8>>| parts.map_values(|part: Vec<u8>| part@)),
            pieces(parts@).push(part@) == split_on(bytes@.take(i as int), sep),
        decreases bytes@.len() - i,
    {
        proof {
            assert(bytes@.take(i + 1).drop_last() == bytes@.take(i as int));
            assert(pieces(parts@).push(part@).drop_last() == pieces(parts@));
        }
        if bytes[i] == sep {
            let ghost before = parts@;
            let ghost last = part;
            parts.push(part);
            part = Vec::new();
            proof {
                assert(pieces(parts@) == pieces(before).push(last@));
                assert(part@ == Seq::<u8>::empty());
            }
        } else {
            part.push(bytes[i]);
        }
        i = i + 1;
    }
    let ghost before = parts@;
    let ghost last = part;
    parts.push(part);
    proof {
        assert(pieces(parts@) == pieces(before).push(last@));
        assert(bytes@.take(bytes@.len() as int) == bytes@);
    }
    parts
}

/// The arguments that make a login shell print its environment: a NUL, then the
/// entries, each ended by a NUL.
pub fn login_shell_arguments() -> (arguments: (&'static str, &'static str))
    ensures
        arguments.0@ == "-lic"@,
        arguments.1@ == "printf '\\0'; exec /usr/bin/env -0"@,
{
    ("-lic", "printf '\\0'; exec /usr/bin/env -0")
}

/// The variables of the login shell, given what it printed or why that could not
/// be read. Where the platform has no login shell there are none.
pub fn load_shell_env(output: Option<Result<Vec<u8>, HostError>>) -> (loaded: Result<
    Vec<(String, String)>,
    HostError,
>)
    ensures
        match output {
            None => loaded matches Ok(variables) && variables@.len() == 0,
            Some(Ok(printed)) => loaded matches Ok(variables) && env_views(variables@)
                == shell_variables(printed@),
            Some(Err(cause)) => loaded matches Err(error) && error == cause,
        },
{
    match output {
        None => Ok(Vec::new()),
        Some(Ok(printed)) => Ok(parse_shell_env(printed.as_slice())),
        Some(Err(cause)) => Err(cause),
    }
}

/// Only `PATH` and `DEEPSEEK_` variables with well-formed names and non-empty
/// values are imported, whatever a shell prints.
pub proof fn law_only_known_variables_are_imported(output: Seq<u8>)
    ensures
        forall|i: int|
            0 <= i < shell_variables(output).len() ==> {
                let variable = #[trigger] shell_variables(output)[i];
                &&& is_env_key(variable.0)
                &&& is_imported_key(variable.0)
                &&& variable.1.len() > 0
            },
{
    lemma_entries_are_known(split_on(output, 0u8).skip(1));
}

proof fn lemma_entries_are_known(entries: Seq<Seq<u8>>)
    ensures
        forall|i: int|
            0 <= i < env_entries(entries).len() ==> {
                let variable = #[trigger] env_entries(entries)[i];
                &&& is_env_key(variable.0)
                &&& is_imported_key(variable.0)
                &&& variable.1.len() > 0
            },
    decreases entries.len(),
{
    if entries.len() > 0 {
        let before = env_entries(entries.drop_last());
        lemma_entries_are_known(entries.drop_last());
        assert forall|i: int| 0 <= i < env_entries(entries).len() implies {
            let variable = #[trigger] env_entries(entries)[i];
            &&& is_env_key(variable.0)
            &&& is_imported_key(variable.0)
            &&& variable.1.len() > 0
        } by {
            if i < before.len() {
                assert(env_entries(entries)[i] == before[i]);
            }
        }
    }
}

/// Output without the leading NUL that announces the entries sets nothing.
pub proof fn law_unmarked_output_is_ignored(output: Seq<u8>)
    requires
        forall|i: int| 0 <= i < output.len() ==> output[i] != 0,
    ensures
        shell_variables(output).len() == 0,
{
    crate::text::lemma_one_part(output, 0u8);
}

// ---------------------------------------------------------------------------
// Reporting on the environment
// ---------------------------------------------------------------------------

/// Whether some variables hold a search path.
pub open spec fn has_path(variables: Seq<(Seq<char>, Seq<char>)>) -> bool {
    exists|i: int| 0 <= i < variables.len() && (#[trigger] variables[i]).0 == "PATH"@
}

/// How many of some variables configure the model provider.
pub open spec fn deepseek_count(variables: Seq<(Seq<char>, Seq<char>)>) -> nat
    decreases variables.len(),
{
    if variables.len() == 0 {
        0
    } else {
        deepseek_count(variables.drop_last()) + (if starts_with(
            variables.last().0,
            "DEEPSEEK_"@,
        ) {
            1nat
        } else {
            0nat
        })
    }
}

/// The text of a truth value.
pub open spec fn bool_text(value: bool) -> Seq<char> {
    if value {
        "true"@
    } else {
        "false"@
    }
}

/// The environment to use, and a line on how it was obtained. The line names no
/// value.
pub fn load_shell_env_or_empty(loaded: Result<Vec<(String, String)>, String>) -> (result: (
    Vec<(String, String)>,
    String,
))
    ensures
        match loaded {
            Ok(variables) => {
                &&& result.0 == variables
                &&& result.1@ == "[harness] login shell environment loaded (PATH: "@ + bool_text(
                    has_path(env_views(variables@)),
                ) + ", DeepSeek variables: "@ + decimal(deepseek_count(env_views(variables@))) + ")"@
            },
            Err(cause) => {
                &&& result.0@.len() == 0
                &&& result.1@
                    == "[harness] login shell environment unavailable; using inherited environment: "@
                    + cause@
            },
        },
{
    match loaded {
        Ok(variables) => {
            let mut found = false;
            let mut count: usize = 0;
            let mut i: usize = 0;
            let ghost all = env_views(variables@);
            while i < variables.len()
                invariant
                    i <= variables@.len(),
                    all == env_views(variables@),
                    count <= i,
                    count == deepseek_count(all.take(i as int)),
                    found == (exists|j: int| 0 <= j < i && (#[trigger] all[j]).0 == "PATH"@),
                decreases variables@.len() - i,
            {
                proof {
                    assert(all.take(i + 1).drop_last() == all.take(i as int));
                    assert(all[i as int] == (variables@[i as int].0@, variables@[i as int].1@));
                }
                if crate::text::same_text(variables[i].0.as_str(), "PATH") {
                    found = true;
                    assert(all[i as int].0 == "PATH"@);
                }
                if text_after(variables[i].0.as_str(), "DEEPSEEK_").is_some() {
                    count = count + 1;
                }
                i = i + 1;
            }
            assert(all.take(i as int) == all);
            let mut report = "[harness] login shell environment loaded (PATH: ".to_string();
            report.append(if found { "true" } else { "false" });
            report.append(", DeepSeek variables: ");
            report.append(decimal_text(count as u64).as_str());
            report.append(")");
            (variables, report)
        },
        Err(cause) => {
            let mut report =
                "[harness] login shell environment unavailable; using inherited environment: ".to_string();
            report.append(cause.as_str());
            (Vec::new(), report)
        },
    }
}

// ---------------------------------------------------------------------------
// Running the shell with a time limit
// ---------------------------------------------------------------------------

/// What a look at the running shell shows.
pub enum PollEvent {
    /// It exited.
    Exited,
    /// It still runs; the deadline may have passed.
    Running { deadline_passed: bool },
    /// Looking failed.
    Failed(HostError),
}

/// What to do after a look at the running shell.
pub enum PollStep {
    /// Collect its output.
    Collect,
    /// Look again after so many milliseconds.
    Sleep(u64),
    /// End it with all its children, and fail.
    Abort(HostError),
}

/// What to do once the shell has exited.
pub enum CollectStep {
    /// This is the output.
    Output(Vec<u8>),
    /// Fail.
    Fail(HostError),
    /// End what is left of it, and fail.
    Abort(HostError),
}

/// Decides what follows from a look at a shell that may run for `timeout`
/// seconds.
pub fn poll_step(event: PollEvent, timeout: u64) -> (step: PollStep)
    ensures
        match event {
            PollEvent::Exited => step is Collect,
            PollEvent::Running { deadline_passed } => if deadline_passed {
                step matches PollStep::Abort(error) && error.kind == ErrorKind::TimedOut
                    && error.message@ == "login shell environment timed out after "@ + decimal(
                    timeout as nat,
                ) + " seconds"@
            } else {
                step == PollStep::Sleep(10)
            },
            PollEvent::Failed(cause) => step == PollStep::Abort(cause),
        },
{
    match event {
        PollEvent::Exited => PollStep::Collect,
        PollEvent::Running { deadline_passed } => {
            if deadline_passed {
                let mut message = "login shell environment timed out after ".to_string();
                message.append(decimal_text(timeout).as_str());
                message.append(" seconds");
                PollStep::Abort(HostError::new(ErrorKind::TimedOut, message))
            } else {
                PollStep::Sleep(10)
            }
        },
        PollEvent::Failed(error) => PollStep::Abort(error),
    }
}

/// Decides what follows once the shell exited with the given success and status,
/// and its output arrived, could not be read, or did not come in time.
pub fn collect_step(
    success: bool,
    status: &str,
    output: Option<Result<Vec<u8>, HostError>>,
) -> (step: CollectStep)
    ensures
        match output {
            None => step matches CollectStep::Abort(error) && error.kind == ErrorKind::TimedOut
                && error.message@ == "timed out reading login shell environment"@,
            Some(Err(cause)) => step == CollectStep::Fail(cause),
            Some(Ok(bytes)) => if success {
                step == CollectStep::Output(bytes)
            } else {
                step matches CollectStep::Fail(error) && error.kind == ErrorKind::Other
                    && error.message@ == "login shell environment command exited with "@ + status@
            },
        },
{
    match output {
        None => CollectStep::Abort(
            HostError::new(
                ErrorKind::TimedOut,
                "timed out reading login shell environment".to_string(),
            ),
        ),
        Some(Err(error)) => CollectStep::Fail(error),
        Some(Ok(bytes)) => {
            if success {
                CollectStep::Output(bytes)
            } else {
                let mut message = "login shell environment command exited with ".to_string();
                message.append(status);
                CollectStep::Fail(HostError::new(ErrorKind::Other, message))
            }
        },
    }
}

// ---------------------------------------------------------------------------
// What is imported
// ---------------------------------------------------------------------------

/// A name is made of ASCII letters, digits and underscores, and does not start
/// with a digit. Only `PATH` and names that start with `DEEPSEEK_` are imported.
pub proof fn law_names_of_variables(key: Seq<char>)
    ensures
        is_env_key(key) <==> {
            &&& key.len() > 0
            &&& !('0' <= key[0] <= '9')
            &&& forall|i: int|
                0 <= i < key.len() ==> ('A' <= #[trigger] key[i] <= 'Z' || 'a' <= key[i] <= 'z'
                    || key[i] == '_' || '0' <= key[i] <= '9')
        },
        is_imported_key(key) <==> key == seq!['P', 'A', 'T', 'H'] || (key.len() >= 9 && key.take(9)
            == seq!['D', 'E', 'E', 'P', 'S', 'E', 'E', 'K', '_']),
{
    reveal_strlit("PATH");
    reveal_strlit("DEEPSEEK_");
    assert("PATH"@ =~= seq!['P', 'A', 'T', 'H']);
    assert("DEEPSEEK_"@ =~= seq!['D', 'E', 'E', 'P', 'S', 'E', 'E', 'K', '_']);
    if is_env_key(key) {
        assert forall|i: int| 0 <= i < key.len() implies ('A' <= #[trigger] key[i] <= 'Z' || 'a'
            <= key[i] <= 'z' || key[i] == '_' || '0' <= key[i] <= '9') by {
            assert(continues_key(key[i]));
        }
    }
    if key.len() > 0 && !('0' <= key[0] <= '9') && (forall|i: int|
        0 <= i < key.len() ==> ('A' <= #[trigger] key[i] <= 'Z' || 'a' <= key[i] <= 'z' || key[i]
            == '_' || '0' <= key[i] <= '9')) {
        assert(starts_key(key[0]));
        assert forall|i: int| 0 <= i < key.len() implies continues_key(#[trigger] key[i]) by {
        }
    }
}

/// An entry of a name, an equals sign and a value sets the variable of that name to
/// that value, whatever the value holds, where the name is one that is imported and
/// the value is not empty; otherwise it sets nothing.
pub proof fn law_entries_set_their_variable(key: Seq<char>, value: Seq<char>)
    requires
        !key.contains('='),
    ensures
        env_entry(vstd::utf8::encode_utf8(key + seq!['='] + value)) == (if value.len() > 0
            && is_env_key(key) && is_imported_key(key) {
            Some((key, value))
        } else {
            None
        }),
{
    let text = key + seq!['='] + value;
    let n = key.len() as int;
    vstd::utf8::encode_utf8_valid_utf8(text);
    vstd::utf8::encode_utf8_decode_utf8(text);
    reveal_strlit("=");
    lemma_find_from(text, "="@, 0);
    assert(text.subrange(n, n + 1) =~= "="@);
    assert(crate::text::occurs_at(text, "="@, n));
    assert forall|j: int| 0 <= j < n implies !crate::text::occurs_at(text, "="@, j) by {
        assert(text.subrange(j, j + 1)[0] == text[j]);
        assert(text[j] == key[j]);
        assert(key.contains(key[j]));
    }
    assert(find_from(text, "="@, 0) == Some(n));
    assert(text.take(n) =~= key);
    assert(text.skip(n + 1) =~= value);
}

/// Bytes that are no UTF-8, and texts without an equals sign, set nothing.
pub proof fn law_other_entries_set_nothing(bytes: Seq<u8>, text: Seq<char>)
    ensures
        !vstd::utf8::valid_utf8(bytes) ==> env_entry(bytes) is None,
        !text.contains('=') ==> env_entry(vstd::utf8::encode_utf8(text)) is None,
{
    if !text.contains('=') {
        vstd::utf8::encode_utf8_valid_utf8(text);
        vstd::utf8::encode_utf8_decode_utf8(text);
        reveal_strlit("=");
        lemma_find_from(text, "="@, 0);
        if let Some(i) = find_from(text, "="@, 0) {
            assert(text.subrange(i, i + 1)[0] == text[i]);
            assert(text.contains(text[i]));
        }
    }
}

/// One more entry, behind a NUL, sets its variable behind those before it, and
/// changes none of them. What stands before the first NUL sets nothing.
pub proof fn law_entries_are_read_in_order(output: Seq<u8>, entry: Seq<u8>)
    requires
        !entry.contains(0u8),
    ensures
        env_entry(entry) matches Some(variable) ==> shell_variables(output + seq![0u8] + entry)
            == shell_variables(output).push(variable),
        env_entry(entry) is None ==> shell_variables(output + seq![0u8] + entry) == shell_variables(
            output,
        ),
        shell_variables(entry).len() == 0,
{
    let whole = output + seq![0u8] + entry;
    let parts = split_on(output, 0u8);
    crate::text::law_split_concatenates(output, 0u8, entry);
    crate::text::law_split_join(output, 0u8);
    crate::text::lemma_one_part(entry, 0u8);
    let all = split_on(whole, 0u8);
    assert(all =~= parts.push(entry));
    assert(all.skip(1).drop_last() =~= parts.skip(1));
    assert(all.skip(1).last() == entry);
    assert(split_on(entry, 0u8).skip(1) =~= Seq::<Seq<u8>>::empty());
}

/// Each variable whose name starts with `DEEPSEEK_` is counted once, and no other.
pub proof fn law_provider_variables_are_counted(
    variables: Seq<(Seq<char>, Seq<char>)>,
    key: Seq<char>,
    value: Seq<char>,
)
    ensures
        deepseek_count(Seq::<(Seq<char>, Seq<char>)>::empty()) == 0,
        deepseek_count(variables.push((key, value))) == deepseek_count(variables) + (if key.len()
            >= 9 && key.take(9) == seq!['D', 'E', 'E', 'P', 'S', 'E', 'E', 'K', '_'] {
            1int
        } else {
            0
        }),
        has_path(variables.push((key, value))) == (has_path(variables) || key == seq![
            'P',
            'A',
            'T',
            'H',
        ]),
{
    reveal_strlit("PATH");
    reveal_strlit("DEEPSEEK_");
    assert("PATH"@ =~= seq!['P', 'A', 'T', 'H']);
    assert("DEEPSEEK_"@ =~= seq!['D', 'E', 'E', 'P', 'S', 'E', 'E', 'K', '_']);
    let more = variables.push((key, value));
    assert(more.drop_last() =~= variables);
    if has_path(variables) {
        let i = choose|i: int| 0 <= i < variables.len() && (#[trigger] variables[i]).0 == "PATH"@;
        assert(more[i].0 == "PATH"@);
    }
    if key == "PATH"@ {
        assert(more[variables.len() as int].0 == "PATH"@);
    }
    if has_path(more) {
        let i = choose|i: int| 0 <= i < more.len() && (#[trigger] more[i]).0 == "PATH"@;
        if i < variables.len() {
            assert(variables[i].0 == "PATH"@);
        }
    }
}

/// The limits on the login shell, and how a truth value is written.
pub proof fn law_shell_constants(value: bool)
    ensures
        SHELL_ENV_TIMEOUT == 5,
        SHELL_ENV_READ_TIMEOUT == 1,
        SHELL_ENV_OUTPUT_LIMIT == 1048576,
        bool_text(value) == (if value {
            seq!['t', 'r', 'u', 'e']
        } else {
            seq!['f', 'a', 'l', 's', 'e']
        }),
{
    reveal_strlit("true");
    reveal_strlit("false");
    assert(bool_text(true) =~= seq!['t', 'r', 'u', 'e']);
    assert(bool_text(false) =~= seq!['f', 'a', 'l', 's', 'e']);
}

/// The contents of some variables are their names and values, one for one.
pub proof fn law_contents_of_variables(variables: Seq<(String, String)>, i: int)
    ensures
        env_views(variables).len() == variables.len(),
        0 <= i < variables.len() ==> env_views(variables)[i].0 == variables[i].0@ && env_views(
            variables,
        )[i].1 == variables[i].1@,
{
}

/// A text is taken for a name exactly where it is one; what is imported of a shell's
/// output is what its entries set, and what could not be read is handed on.
pub proof fn law_imported_environments(
    key: &str,
    valid: bool,
    output: &[u8],
    variables: Vec<(String, String)>,
    printed: Vec<u8>,
    cause: HostError,
    loaded: Result<Vec<(String, String)>, HostError>,
)
    ensures
        call_ensures(valid_env_key, (key,), valid) ==> valid == (key@.len() > 0 && !('0' <= key@[0]
            <= '9') && forall|i: int|
            0 <= i < key@.len() ==> ('A' <= #[trigger] key@[i] <= 'Z' || 'a' <= key@[i] <= 'z'
                || key@[i] == '_' || '0' <= key@[i] <= '9')),
        call_ensures(parse_shell_env, (output,), variables) ==> env_views(variables@)
            == shell_variables(output@),
        call_ensures(load_shell_env, (None,), loaded) ==> loaded is Ok && loaded->Ok_0@.len() == 0,
        call_ensures(load_shell_env, (Some(Ok(printed)),), loaded) ==> loaded is Ok && env_views(
            loaded->Ok_0@,
        ) == shell_variables(printed@),
        call_ensures(load_shell_env, (Some(Err(cause)),), loaded) ==> loaded is Err && loaded->Err_0
            == cause,
{
    law_names_of_variables(key@);
}

/// A shell that runs is looked at again every ten milliseconds until its time is up;
/// one that exited is asked for its output; a look that failed ends it.
pub proof fn law_looks_at_the_shell(event: PollEvent, timeout: u64, step: PollStep)
    requires
        call_ensures(poll_step, (event, timeout), step),
    ensures
        event is Exited ==> step is Collect,
        event matches PollEvent::Running { deadline_passed } ==> (!deadline_passed ==> step
            == PollStep::Sleep(10)),
        event matches PollEvent::Running { deadline_passed } ==> (deadline_passed ==> (step
            matches PollStep::Abort(error) && error.kind == ErrorKind::TimedOut && error.message@
            == "login shell environment timed out after "@ + decimal(timeout as nat)
            + " seconds"@)),
        event matches PollEvent::Failed(cause) ==> step == PollStep::Abort(cause),
{
}

/// The output of a shell is taken only where the shell succeeded; what failed is told,
/// and output that did not come in time ends what is left of the shell.
pub proof fn law_collected_output(
    success: bool,
    status: &str,
    output: Option<Result<Vec<u8>, HostError>>,
    step: CollectStep,
)
    requires
        call_ensures(collect_step, (success, status, output), step),
    ensures
        output is None ==> (step matches CollectStep::Abort(error) && error.kind
            == ErrorKind::TimedOut),
        output matches Some(Err(cause)) ==> step == CollectStep::Fail(cause),
        output matches Some(Ok(bytes)) ==> (success ==> step == CollectStep::Output(bytes)),
        output matches Some(Ok(bytes)) ==> (!success ==> (step matches CollectStep::Fail(error)
            && error.kind == ErrorKind::Other && error.message@
            == "login shell environment command exited with "@ + status@)),
        step is Output ==> success,
{
}

/// The environment that was loaded is used, and reported without a value of it; where
/// none was, an empty one is, and the report says why.
pub proof fn law_reported_environments(
    variables: Vec<(String, String)>,
    cause: String,
    result: (Vec<(String, String)>, String),
)
    ensures
        call_ensures(load_shell_env_or_empty, (Ok(variables),), result) ==> result.0 == variables
            && result.1@ == "[harness] login shell environment loaded (PATH: "@ + (if has_path(
            env_views(variables@),
        ) {
            "true"@
        } else {
            "false"@
        }) + ", DeepSeek variables: "@ + decimal(deepseek_count(env_views(variables@))) + ")"@,
        call_ensures(load_shell_env_or_empty, (Err(cause),), result) ==> result.0@.len() == 0
            && result.1@
            == "[harness] login shell environment unavailable; using inherited environment: "@
            + cause@,
{
}

} // verus!
