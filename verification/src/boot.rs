//! The line on which the backend reports where it listens.

use vstd::prelude::*;

use crate::error::{ErrorKind, HostError};
use crate::text::{
    chars_of, contains_text, find_chars, find_from, has_text, is_digit, is_white_space, lemma_find_from,
    lemma_trim_end, lemma_words_of_trimmed, occurs_at, opt_view, same_text, text_between, trim_end,
    white_space, words,
};

verus! {

/// The host of a URL. Addresses are big-endian numbers.
#[derive(Clone, Debug)]
pub enum UrlHost {
    Domain(String),
    Ipv4(u32),
    Ipv6(u128),
}

/// The parts of a URL that the host reads.
#[derive(Clone, Debug)]
pub struct BackendUrl {
    /// The whole URL in canonical form.
    pub text: String,
    pub scheme: String,
    pub username: String,
    pub password: Option<String>,
    pub host: Option<UrlHost>,
    /// The port that is written out.
    pub port: Option<u16>,
    pub query: Option<String>,
}

/// The contents of a [`UrlHost`].
pub enum HostView {
    Domain(Seq<char>),
    Ipv4(u32),
    Ipv6(u128),
}

/// The contents of a [`BackendUrl`].
pub struct UrlView {
    pub text: Seq<char>,
    pub scheme: Seq<char>,
    pub username: Seq<char>,
    pub password: Option<Seq<char>>,
    pub host: Option<HostView>,
    pub port: Option<u16>,
    pub query: Option<Seq<char>>,
}

impl View for UrlHost {
    type V = HostView;

    open spec fn view(&self) -> HostView {
        match self {
            UrlHost::Domain(domain) => HostView::Domain(domain@),
            UrlHost::Ipv4(address) => HostView::Ipv4(*address),
            UrlHost::Ipv6(address) => HostView::Ipv6(*address),
        }
    }
}

impl View for BackendUrl {
    type V = UrlView;

    open spec fn view(&self) -> UrlView {
        UrlView {
            text: self.text@,
            scheme: self.scheme@,
            username: self.username@,
            password: opt_view(self.password),
            host: match self.host {
                Some(host) => Some(host@),
                None => None,
            },
            port: self.port,
            query: opt_view(self.query),
        }
    }
}

impl BackendUrl {
    /// The whole URL in canonical form.
    pub fn as_str(&self) -> (text: &str)
        ensures
            text@ == self@.text,
    {
        self.text.as_str()
    }

    /// The query, without its question mark.
    pub fn query(&self) -> (query: Option<&str>)
        ensures
            crate::text::opt_str(query) == self@.query,
    {
        match &self.query {
            Some(query) => Some(query.as_str()),
            None => None,
        }
    }
}

/// What `url::Url::parse` reads out of a text.
pub uninterp spec fn url_reading(text: Seq<char>) -> Option<UrlView>;

/// Calls `url::Url::parse` and copies the parts of the URL, which the getters of
/// `url::Url` give: its serialization, scheme, user name, password, host, port
/// and query. What they are is named, not said; they depend on the text alone.
/// There is no port where the one that is written is the default of the scheme.
#[verifier::external_body]
fn read_url(text: &str) -> (url: Option<BackendUrl>)
    ensures
        match url {
            Some(url) => url_reading(text@) == Some(url@),
            None => url_reading(text@) is None,
        },
{
    let url = url::Url::parse(text).ok()?;
    let host = url.host().map(|host| match host {
        url::Host::Domain(domain) => UrlHost::Domain(domain.to_owned()),
        url::Host::Ipv4(address) => UrlHost::Ipv4(u32::from(address)),
        url::Host::Ipv6(address) => UrlHost::Ipv6(u128::from(address)),
    });
    Some(BackendUrl {
        text: url.as_str().to_owned(),
        scheme: url.scheme().to_owned(),
        username: url.username().to_owned(),
        password: url.password().map(str::to_owned),
        host, port: url.port(), query: url.query().map(str::to_owned),
    })
}

/// The upper-case ASCII letters as lower-case ones, everything else unchanged.
pub open spec fn ascii_lower(c: char) -> char {
    if 'A' <= c <= 'Z' {
        ((c as u8) + 32) as u8 as char
    } else {
        c
    }
}

/// Whether two texts are the same up to the case of ASCII letters.
pub open spec fn same_ignoring_ascii_case(a: Seq<char>, b: Seq<char>) -> bool {
    a.map_values(|c: char| ascii_lower(c)) == b.map_values(|c: char| ascii_lower(c))
}

/// Whether a host is this machine: an address of 127.0.0.0/8, the address ::1,
/// or the name `localhost` in any case.
pub open spec fn is_loopback(host: HostView) -> bool {
    match host {
        HostView::Domain(domain) => same_ignoring_ascii_case(domain, "localhost"@),
        HostView::Ipv4(address) => 0x7f00_0000 <= address < 0x8000_0000,
        HostView::Ipv6(address) => address == 1,
    }
}

/// Whether the host may open a URL: HTTP, without credentials, with a port that is
/// written out, on this machine.
pub open spec fn is_acceptable(url: UrlView) -> bool {
    &&& url.scheme == "http"@
    &&& url.username.len() == 0
    &&& url.password is None
    &&& url.port is Some
    &&& url.host matches Some(host) && is_loopback(host)
}

/// What precedes the URL on the boot line.
pub open spec fn boot_marker() -> Seq<char> {
    "dsh web: "@
}

/// The first word after the first marker of a line.
pub open spec fn boot_candidate(line: Seq<char>) -> Option<Seq<char>> {
    match find_from(line, boot_marker(), 0) {
        Some(i) => {
            let found = words(line.skip(i + boot_marker().len()));
            if found.len() > 0 {
                Some(found[0])
            } else {
                None
            }
        },
        None => None,
    }
}

/// The port that HTTP has where none is written.
pub const DEFAULT_HTTP_PORT: u16 = 80;

/// A slash, as browsers take it after the scheme.
pub open spec fn is_slash(c: char) -> bool {
    c == '/' || c == '\\'
}

/// A character behind the host and port of a URL.
pub open spec fn ends_authority(c: char) -> bool {
    is_slash(c) || c == '?' || c == '#' || c <= ' '
}

/// The first index from `i` on without a slash.
pub open spec fn after_slashes(s: Seq<char>, i: int) -> int
    decreases s.len() - i,
{
    if 0 <= i < s.len() && is_slash(s[i]) {
        after_slashes(s, i + 1)
    } else {
        i
    }
}

/// The first index from `i` on that is behind the host and port.
pub open spec fn authority_end(s: Seq<char>, i: int) -> int
    decreases s.len() - i,
{
    if 0 <= i < s.len() && !ends_authority(s[i]) {
        authority_end(s, i + 1)
    } else {
        i
    }
}

/// What of a URL's text names the host and port: what stands between the slashes
/// after the scheme and the path.
pub open spec fn authority(s: Seq<char>) -> Seq<char> {
    match find_from(s, ":"@, 0) {
        Some(colon) => {
            let start = after_slashes(s, colon + 1);
            s.subrange(start, authority_end(s, start))
        },
        None => Seq::empty(),
    }
}

/// Whether a text ends in a colon and at least one digit.
pub open spec fn ends_in_port(s: Seq<char>) -> bool {
    exists|colon: int|
        {
            &&& 0 <= colon < s.len() - 1
            &&& #[trigger] s[colon] == ':'
            &&& forall|i: int| colon < i < s.len() ==> is_digit(#[trigger] s[i])
        }
}

/// Whether the text of a URL writes out a port.
pub open spec fn writes_port(s: Seq<char>) -> bool {
    ends_in_port(authority(s))
}

/// A URL together with the default port of HTTP, where its text writes that out.
pub open spec fn with_written_port(candidate: Seq<char>, url: UrlView) -> UrlView {
    if url.port is None && url.scheme == "http"@ && writes_port(candidate) {
        UrlView { port: Some(DEFAULT_HTTP_PORT), ..url }
    } else {
        url
    }
}

/// The URL to open, given a text and what was read of it, where the host may open
/// it.
pub open spec fn accepted_url(candidate: Seq<char>, url: UrlView) -> Option<UrlView> {
    let written = with_written_port(candidate, url);
    if is_acceptable(written) {
        Some(written)
    } else {
        None
    }
}

/// The acceptable URL that a line reports.
pub open spec fn reported_url(line: Seq<char>) -> Option<UrlView> {
    match boot_candidate(line) {
        Some(candidate) => match url_reading(candidate) {
            Some(url) => accepted_url(candidate, url),
            None => None,
        },
        None => None,
    }
}

fn lower(c: char) -> (lowered: char)
    ensures
        lowered == ascii_lower(c),
{
    if 'A' <= c && c <= 'Z' {
        ((c as u8) + 32u8) as char
    } else {
        c
    }
}

fn equal_ignoring_ascii_case(a: &str, b: &str) -> (same: bool)
    ensures
        same == same_ignoring_ascii_case(a@, b@),
{
    let left = chars_of(a);
    let right = chars_of(b);
    let ghost lowered_left = a@.map_values(|c: char| ascii_lower(c));
    let ghost lowered_right = b@.map_values(|c: char| ascii_lower(c));
    if left.len() != right.len() {
        assert(lowered_left.len() != lowered_right.len());
        return false;
    }
    let mut i: usize = 0;
    while i < left.len()
        invariant
            i <= left@.len(),
            left@.len() == right@.len(),
            left@ == a@,
            right@ == b@,
            lowered_left == a@.map_values(|c: char| ascii_lower(c)),
            lowered_right == b@.map_values(|c: char| ascii_lower(c)),
            forall|j: int| 0 <= j < i ==> lowered_left[j] == lowered_right[j],
        decreases left@.len() - i,
    {
        if lower(left[i]) != lower(right[i]) {
            assert(lowered_left[i as int] != lowered_right[i as int]);
            return false;
        }
        i = i + 1;
    }
    assert(lowered_left =~= lowered_right);
    true
}

fn port_is_written(candidate: &str) -> (written: bool)
    ensures
        written == writes_port(candidate@),
{
    let chars = chars_of(candidate);
    let count = chars.len();
    proof {
        reveal_strlit(":");
        lemma_find_from(candidate@, ":"@, 0);
    }
    let colon = match find_chars(&chars, ":") {
        Some(colon) => colon,
        None => {
            return false;
        },
    };
    assert(colon + 1 <= count);
    let mut start: usize = colon + 1;
    while start < count && (chars[start] == '/' || chars[start] == '\\')
        invariant
            colon + 1 <= start <= count,
            count == chars@.len(),
            after_slashes(chars@, colon + 1) == after_slashes(chars@, start as int),
        decreases count - start,
    {
        start = start + 1;
    }
    let mut end: usize = start;
    while end < count && !(chars[end] == '/' || chars[end] == '\\' || chars[end] == '?' || chars[end]
        == '#' || chars[end] <= ' ')
        invariant
            start <= end <= count,
            count == chars@.len(),
            authority_end(chars@, start as int) == authority_end(chars@, end as int),
        decreases count - end,
    {
        end = end + 1;
    }
    let ghost named = authority(candidate@);
    assert(named == chars@.subrange(start as int, end as int));
    let mut at: usize = end;
    while at > start && '0' <= chars[at - 1] && chars[at - 1] <= '9'
        invariant
            start <= at <= end <= count,
            count == chars@.len(),
            named == chars@.subrange(start as int, end as int),
            forall|i: int| at - start <= i < named.len() ==> is_digit(#[trigger] named[i]),
        decreases at,
    {
        assert(named[at - 1 - start] == chars@[at - 1]);
        at = at - 1;
    }
    let written = at < end && at > start && chars[at - 1] == ':';
    proof {
        if at > start {
            assert(named[at - 1 - start] == chars@[at - 1]);
        }
        if ends_in_port(named) {
            let k = choose|k: int|
                {
                    &&& 0 <= k < named.len() - 1
                    &&& #[trigger] named[k] == ':'
                    &&& forall|i: int| k < i < named.len() ==> is_digit(#[trigger] named[i])
                };
            assert(!is_digit(named[k]));
            assert(k < at - start);
            if k < at - 1 - start {
                assert(is_digit(named[at - 1 - start]));
            }
            assert(k == at - 1 - start);
        }
    }
    written
}

/// Passes a URL on only if the host may open it, given the text that it was read
/// out of: a default port counts where the text writes it out.
pub fn accept_url(candidate: &str, url: BackendUrl) -> (accepted: Option<BackendUrl>)
    ensures
        match accepted {
            Some(accepted) => accepted_url(candidate@, url@) == Some(accepted@),
            None => accepted_url(candidate@, url@) is None,
        },
{
    if !same_text(url.scheme.as_str(), "http") || !url.username.as_str().is_empty()
        || url.password.is_some() {
        return None;
    }
    let loopback = match &url.host {
        Some(UrlHost::Domain(domain)) => equal_ignoring_ascii_case(domain.as_str(), "localhost"),
        Some(UrlHost::Ipv4(address)) => 0x7f00_0000 <= *address && *address < 0x8000_0000,
        Some(UrlHost::Ipv6(address)) => *address == 1,
        None => false,
    };
    if !loopback {
        return None;
    }
    let mut accepted = url;
    if accepted.port.is_none() {
        if !port_is_written(candidate) {
            return None;
        }
        accepted.port = Some(DEFAULT_HTTP_PORT);
    }
    Some(accepted)
}

/// A port that is written behind a host is seen, whatever follows it, and a host
/// without a colon writes none.
pub proof fn law_written_ports_are_seen(host: Seq<char>, port: Seq<char>, rest: Seq<char>)
    requires
        host.len() > 0,
        forall|i: int| 0 <= i < host.len() ==> !ends_authority(#[trigger] host[i]),
        port.len() > 0,
        forall|i: int| 0 <= i < port.len() ==> is_digit(#[trigger] port[i]),
        rest.len() > 0 ==> ends_authority(rest[0]),
    ensures
        writes_port("http://"@ + (host + seq![':'] + port) + rest),
        !host.contains(':') ==> !writes_port("http://"@ + host + rest),
{
    let named = host + seq![':'] + port;
    assert forall|i: int| 0 <= i < named.len() implies !ends_authority(#[trigger] named[i]) by {
        if i > host.len() {
            assert(is_digit(port[i - host.len() - 1]));
        }
    }
    lemma_authority(named, rest);
    assert(named[host.len() as int] == ':');
    assert forall|i: int| host.len() < i < named.len() implies is_digit(#[trigger] named[i]) by {
        assert(named[i] == port[i - host.len() - 1]);
    }
    lemma_authority(host, rest);
}

proof fn lemma_authority(named: Seq<char>, rest: Seq<char>)
    requires
        named.len() > 0,
        forall|i: int| 0 <= i < named.len() ==> !ends_authority(#[trigger] named[i]),
        rest.len() > 0 ==> ends_authority(rest[0]),
    ensures
        authority("http://"@ + named + rest) == named,
{
    let s = "http://"@ + named + rest;
    reveal_strlit("http://");
    reveal_strlit(":");
    lemma_find_from(s, ":"@, 0);
    assert(s.subrange(4, 5) == ":"@);
    assert(occurs_at(s, ":"@, 4));
    assert forall|j: int| 0 <= j < 4 implies !occurs_at(s, ":"@, j) by {
        assert(s.subrange(j, j + 1)[0] == s[j]);
    }
    assert(s[7] == named[0]);
    reveal_with_fuel(after_slashes, 3);
    assert(after_slashes(s, 5) == 7);
    let end: int = 7 + named.len() as int;
    lemma_authority_end(s, 7, end);
    assert(s.subrange(7, end) == named);
}

proof fn lemma_authority_end(s: Seq<char>, i: int, end: int)
    requires
        0 <= i <= end <= s.len(),
        forall|j: int| i <= j < end ==> !ends_authority(#[trigger] s[j]),
        end < s.len() ==> ends_authority(s[end]),
    ensures
        authority_end(s, i) == end,
    decreases end - i,
{
    if i < end {
        lemma_authority_end(s, i + 1, end);
    }
}

/// The first word of a text is where its first run of characters that are not
/// white space is.
proof fn lemma_first_word(s: Seq<char>, start: int, end: int)
    requires
        0 <= start < end <= s.len(),
        forall|i: int| 0 <= i < start ==> is_white_space(#[trigger] s[i]),
        forall|i: int| start <= i < end ==> !is_white_space(#[trigger] s[i]),
        end == s.len() || is_white_space(s[end]),
    ensures
        words(s).len() > 0,
        words(s)[0] == s.subrange(start, end),
        s.len() == end ==> words(s).len() == 1,
    decreases s.len(),
{
    let init = s.drop_last();
    if s.len() == end {
        if end == start + 1 {
            lemma_no_words(init);
            assert(s.subrange(start, end) == seq![s.last()]);
            if s.len() > 1 {
                assert(is_white_space(s[s.len() - 2]));
            }
        } else {
            lemma_first_word(init, start, end - 1);
            assert(!is_white_space(s[s.len() - 2]));
            assert(s.subrange(start, end) == init.subrange(start, end - 1).push(s.last()));
            assert(words(init).last() == words(init)[0]);
        }
    } else {
        lemma_first_word(init, start, end);
        assert(init.subrange(start, end) == s.subrange(start, end));
        if !is_white_space(s.last()) && s.len() > 1 && !is_white_space(s[s.len() - 2]) {
            lemma_two_words(init, start, end);
        }
    }
}

/// White space after the first word and a character after that make a second
/// word.
proof fn lemma_two_words(s: Seq<char>, start: int, end: int)
    requires
        0 <= start < end < s.len(),
        forall|i: int| 0 <= i < start ==> is_white_space(#[trigger] s[i]),
        forall|i: int| start <= i < end ==> !is_white_space(#[trigger] s[i]),
        is_white_space(s[end]),
        !is_white_space(s.last()),
    ensures
        words(s).len() > 1,
    decreases s.len(),
{
    let init = s.drop_last();
    lemma_first_word(init, start, end);
    if !is_white_space(s[s.len() - 2]) {
        lemma_two_words(init, start, end);
    }
}

proof fn lemma_no_words(s: Seq<char>)
    requires
        forall|i: int| 0 <= i < s.len() ==> is_white_space(#[trigger] s[i]),
    ensures
        words(s).len() == 0,
    decreases s.len(),
{
    if s.len() > 0 {
        lemma_no_words(s.drop_last());
    }
}

/// The first word after the first marker of a line.
pub fn startup_candidate(line: &str) -> (candidate: Option<String>)
    ensures
        opt_view(candidate) == boot_candidate(line@),
{
    let chars = chars_of(line);
    let found = match find_chars(&chars, "dsh web: ") {
        Some(found) => found,
        None => {
            return None;
        },
    };
    let marker = chars_of("dsh web: ");
    proof {
        lemma_find_from(line@, boot_marker(), 0);
    }
    let count = chars.len();
    let from = found + marker.len();
    let ghost rest = line@.skip(from as int);
    let mut start: usize = from;
    while start < count && white_space(chars[start])
        invariant
            count == chars@.len(),
            chars@ == line@,
            from <= start <= count,
            rest == line@.skip(from as int),
            forall|i: int| 0 <= i < start - from ==> is_white_space(#[trigger] rest[i]),
        decreases count - start,
    {
        start = start + 1;
    }
    if start == count {
        proof {
            lemma_no_words(rest);
        }
        return None;
    }
    let mut end: usize = start;
    while end < count && !white_space(chars[end])
        invariant
            count == chars@.len(),
            chars@ == line@,
            from <= start <= end <= count,
            rest == line@.skip(from as int),
            forall|i: int| start - from <= i < end - from ==> !is_white_space(#[trigger] rest[i]),
        decreases count - end,
    {
        end = end + 1;
    }
    proof {
        assert(end > start);
        assert(end == count || is_white_space(rest[end - from]));
        lemma_first_word(rest, start - from, end - from);
        assert(rest.subrange(start - from, end - from) == chars@.subrange(
            start as int,
            end as int,
        ));
    }
    Some(text_between(&chars, start, end))
}

/// The URL of the `dsh web: http://127.0.0.1:PORT` boot line, accepting only
/// loopback HTTP URLs with an explicit port and no credentials.
pub fn parse_url(line: &str) -> (url: Option<BackendUrl>)
    ensures
        match url {
            Some(url) => reported_url(line@) == Some(url@),
            None => reported_url(line@) is None,
        },
        url matches Some(url) ==> is_acceptable(url@),
{
    match startup_candidate(line) {
        Some(candidate) => match read_url(candidate.as_str()) {
            Some(url) => accept_url(candidate.as_str(), url),
            None => None,
        },
        None => None,
    }
}

/// What is logged in place of a line with a boot marker.
pub open spec fn redaction() -> Seq<char> {
    "dsh web: [startup URL omitted]"@
}

/// What of a line is logged: the boot URL can hold an authentication token, so a
/// line with the marker is replaced as a whole.
pub open spec fn logged_line(line: Seq<char>) -> Seq<char> {
    if contains_text(line, boot_marker()) {
        redaction()
    } else {
        line
    }
}

/// What of a line is logged.
pub fn runtime_log_line(line: &str) -> (logged: &str)
    ensures
        logged@ == logged_line(line@),
{
    if has_text(line, "dsh web: ") {
        "dsh web: [startup URL omitted]"
    } else {
        line
    }
}

/// A line that reports a URL never reaches the log: what is logged in its place
/// is the same for all such lines.
pub proof fn law_reported_urls_are_not_logged(line: Seq<char>)
    requires
        boot_candidate(line) is Some,
    ensures
        logged_line(line) == redaction(),
{
    lemma_find_from(line, boot_marker(), 0);
}

/// Redacting a line again changes nothing.
pub proof fn law_redaction_is_idempotent(line: Seq<char>)
    ensures
        logged_line(logged_line(line)) == logged_line(line),
{
}

/// White space at the end of a line does not change what it reports.
pub proof fn law_trimming_keeps_the_report(line: Seq<char>)
    ensures
        boot_candidate(trim_end(line)) == boot_candidate(line),
        reported_url(trim_end(line)) == reported_url(line),
{
    let marker = boot_marker();
    let short = trim_end(line);
    let n = short.len() as int;
    reveal_strlit("dsh web: ");
    lemma_trim_end(line);
    lemma_find_from(line, marker, 0);
    lemma_find_from(short, marker, 0);
    assert forall|j: int| occurs_at(short, marker, j) implies occurs_at(line, marker, j) by {
        assert(line.subrange(j, j + marker.len()) == short.subrange(j, j + marker.len()));
    }
    if let Some(i) = find_from(line, marker, 0) {
        assert(line.subrange(i, i + 9)[7] == ':');
        assert(line[i + 7] == ':');
        assert(i + 8 <= n);
        let rest = line.skip(i + 9);
        if i + 9 <= n {
            assert(short.subrange(i, i + 9) == line.subrange(i, i + 9));
            assert(occurs_at(short, marker, i));
            assert(find_from(short, marker, 0) == Some(i));
            lemma_words_of_trimmed(rest);
            lemma_trim_of_skip(line, i + 9);
        } else {
            assert(find_from(short, marker, 0) is None) by {
                if let Some(j) = find_from(short, marker, 0) {
                    assert(occurs_at(line, marker, j));
                    assert(j >= i);
                    assert(j + 9 <= n);
                }
            }
            assert forall|k: int| 0 <= k < rest.len() implies is_white_space(
                #[trigger] rest[k],
            ) by {
                assert(rest[k] == line[i + 9 + k]);
            }
            lemma_no_words(rest);
        }
    }
}

/// Trimming the end of a text trims the end of what is left after its start.
proof fn lemma_trim_of_skip(s: Seq<char>, from: int)
    requires
        0 <= from <= trim_end(s).len(),
    ensures
        trim_end(s.skip(from)) == trim_end(s).skip(from),
    decreases s.len(),
{
    lemma_trim_end(s);
    if s.len() > 0 && is_white_space(s.last()) {
        let init = s.drop_last();
        lemma_trim_of_skip(init, from);
        assert(s.skip(from).drop_last() == init.skip(from));
        assert(s.skip(from).last() == s.last());
    } else if from < s.len() {
        assert(s.skip(from).last() == s.last());
    }
}

// ---------------------------------------------------------------------------
// Waiting for the boot line
// ---------------------------------------------------------------------------

/// Seconds to wait for the boot line.
pub const STARTUP_TIMEOUT: u64 = 30;

/// What happened while the host waited for the boot line.
pub enum StartupEvent {
    /// The time is up.
    DeadlinePassed,
    /// The backend printed a line.
    Line(String),
    /// The backend's output could not be read.
    ReadFailed(HostError),
    /// The backend closed its output.
    Disconnected,
}

/// What to do after a [`StartupEvent`].
pub enum StartupStep {
    /// Keep waiting.
    Wait,
    /// The backend listens here.
    Ready(BackendUrl),
    /// The start failed.
    Failed(HostError),
}

/// The failure when no URL came in time.
pub fn startup_timeout_error() -> (error: HostError)
    ensures
        error.kind == ErrorKind::TimedOut,
        error.message@ == "timed out waiting for the dsh web server to report its URL"@,
{
    HostError::new(
        ErrorKind::TimedOut,
        "timed out waiting for the dsh web server to report its URL".to_string(),
    )
}

/// Decides what follows from one event of the wait for the boot line.
pub fn startup_step(event: StartupEvent) -> (step: StartupStep)
    ensures
        match event {
            StartupEvent::DeadlinePassed => step matches StartupStep::Failed(error) && error.kind
                == ErrorKind::TimedOut && error.message@
                == "timed out waiting for the dsh web server to report its URL"@,
            StartupEvent::Line(line) => match reported_url(line@) {
                Some(found) => step matches StartupStep::Ready(url) && url@ == found,
                None => step is Wait,
            },
            StartupEvent::ReadFailed(cause) => step == StartupStep::Failed(cause),
            StartupEvent::Disconnected => step matches StartupStep::Failed(error) && error.kind
                == ErrorKind::UnexpectedEof && error.message@
                == "dsh web exited before reporting its URL"@,
        },
{
    match event {
        StartupEvent::DeadlinePassed => StartupStep::Failed(startup_timeout_error()),
        StartupEvent::Line(line) => match parse_url(line.as_str()) {
            Some(url) => StartupStep::Ready(url),
            None => StartupStep::Wait,
        },
        StartupEvent::ReadFailed(error) => StartupStep::Failed(error),
        StartupEvent::Disconnected => StartupStep::Failed(
            HostError::new(
                ErrorKind::UnexpectedEof,
                "dsh web exited before reporting its URL".to_string(),
            ),
        ),
    }
}

// ---------------------------------------------------------------------------
// What is opened, and what is not
// ---------------------------------------------------------------------------

/// A name is `localhost` up to the case of its letters exactly where each of its
/// nine characters is the letter in its place, small or capital.
pub proof fn law_localhost_in_any_case(domain: Seq<char>)
    ensures
        is_loopback(HostView::Domain(domain)) <==> {
            &&& domain.len() == 9
            &&& domain[0] == 'l' || domain[0] == 'L'
            &&& domain[1] == 'o' || domain[1] == 'O'
            &&& domain[2] == 'c' || domain[2] == 'C'
            &&& domain[3] == 'a' || domain[3] == 'A'
            &&& domain[4] == 'l' || domain[4] == 'L'
            &&& domain[5] == 'h' || domain[5] == 'H'
            &&& domain[6] == 'o' || domain[6] == 'O'
            &&& domain[7] == 's' || domain[7] == 'S'
            &&& domain[8] == 't' || domain[8] == 'T'
        },
{
    reveal_strlit("localhost");
    let name = "localhost"@;
    let left = domain.map_values(|c: char| ascii_lower(c));
    let right = name.map_values(|c: char| ascii_lower(c));
    assert(right =~= name);
    assert(left.len() == domain.len());
    if left == right {
        assert(left[0] == 'l' && left[1] == 'o' && left[2] == 'c' && left[3] == 'a' && left[4] == 'l'
            && left[5] == 'h' && left[6] == 'o' && left[7] == 's' && left[8] == 't');
    }
    if domain.len() == 9 && (forall|i: int| 0 <= i < 9 ==> left[i] == name[i]) {
        assert(left =~= right);
    }
}

/// A URL is opened exactly where it is HTTP, holds no user name and no password,
/// writes out a port, and leads to this machine: to an IPv4 address that starts
/// with 127, to the IPv6 address 1, or to `localhost`. It is opened as it was read;
/// where the port is the default one, it is filled in.
pub proof fn law_accepted_urls(candidate: Seq<char>, url: UrlView)
    ensures
        accepted_url(candidate, url) is Some <==> {
            &&& url.scheme == "http"@
            &&& url.username.len() == 0
            &&& url.password is None
            &&& url.port is Some || writes_port(candidate)
            &&& url.host matches Some(host)
            &&& match host {
                HostView::Domain(domain) => is_loopback(HostView::Domain(domain)),
                HostView::Ipv4(address) => address as int / 16777216 == 127,
                HostView::Ipv6(address) => address == 1,
            }
        },
        accepted_url(candidate, url) matches Some(opened) ==> {
            &&& opened.text == url.text
            &&& opened.scheme == url.scheme
            &&& opened.username == url.username
            &&& opened.password == url.password
            &&& opened.host == url.host
            &&& opened.query == url.query
            &&& url.port is Some ==> opened.port == url.port
            &&& url.port is None ==> opened.port == Some(80u16)
        },
{
}

/// What a line reports is never anything but plain HTTP on this machine, without
/// credentials and with a port.
pub proof fn law_reported_urls_are_local(line: Seq<char>)
    ensures
        reported_url(line) matches Some(url) ==> {
            &&& url.scheme == "http"@
            &&& url.username.len() == 0
            &&& url.password is None
            &&& url.port is Some
            &&& url.host matches Some(host)
            &&& host matches HostView::Ipv4(address) ==> address as int / 16777216 == 127
            &&& host matches HostView::Ipv6(address) ==> address == 1
        },
        reported_url(line) is Some ==> contains_text(line, "dsh web: "@),
        boot_candidate(line) is None ==> reported_url(line) is None,
        boot_candidate(line) matches Some(word) ==> (url_reading(word) is None ==> reported_url(line)
            is None),
        boot_candidate(line) matches Some(word) ==> (url_reading(word) matches Some(url)
            ==> reported_url(line) == accepted_url(word, url)),
{
    lemma_find_from(line, boot_marker(), 0);
}

/// The candidate of a line is the first word behind its first marker; white space
/// between them does not count.
pub proof fn law_candidate_is_the_word_behind_the_marker(
    before: Seq<char>,
    blank: Seq<char>,
    word: Seq<char>,
    rest: Seq<char>,
)
    requires
        ({
            let line = before + "dsh web: "@ + blank + word + rest;
            forall|j: int|
                0 <= j < before.len() ==> #[trigger] line.subrange(j, j + 9) != "dsh web: "@
        }),
        forall|i: int| 0 <= i < blank.len() ==> is_white_space(#[trigger] blank[i]),
        forall|i: int| 0 <= i < word.len() ==> !is_white_space(#[trigger] word[i]),
        rest.len() > 0 ==> is_white_space(rest[0]),
        word.len() == 0 ==> rest.len() == 0,
    ensures
        word.len() > 0 ==> boot_candidate(before + "dsh web: "@ + blank + word + rest) == Some(word),
        word.len() == 0 ==> boot_candidate(before + "dsh web: "@ + blank) is None,
{
    let line = before + "dsh web: "@ + blank + word + rest;
    let marker = "dsh web: "@;
    reveal_strlit("dsh web: ");
    let n = before.len() as int;
    let tail = line.skip(n + 9);
    assert(line.subrange(n, n + 9) =~= marker);
    assert(occurs_at(line, marker, n));
    lemma_find_from(line, marker, 0);
    let i = find_from(line, marker, 0)->0;
    assert(find_from(line, marker, 0) is Some);
    assert(i <= n);
    if i < n {
        assert(line.subrange(i, i + 9) != marker);
        assert(occurs_at(line, marker, i));
    }
    assert(i == n);
    assert(tail =~= blank + word + rest);
    let start = blank.len() as int;
    let end = (blank.len() + word.len()) as int;
    assert forall|k: int| 0 <= k < start implies is_white_space(#[trigger] tail[k]) by {
        assert(tail[k] == blank[k]);
    }
    assert forall|k: int| start <= k < end implies !is_white_space(#[trigger] tail[k]) by {
        assert(tail[k] == word[k - start]);
    }
    if word.len() > 0 {
        if rest.len() > 0 {
            assert(tail[end] == rest[0]);
        }
        lemma_first_word(tail, start, end);
        assert(tail.subrange(start, end) =~= word);
    } else {
        assert(line =~= before + marker + blank);
        lemma_no_words(tail);
    }
}

/// A line without the marker has no candidate and is logged as it is; one with the
/// marker anywhere is logged as the same notice, whatever else it holds.
pub proof fn law_marked_lines_are_redacted(line: Seq<char>, before: Seq<char>, after: Seq<char>)
    ensures
        (forall|j: int| 0 <= j <= line.len() - 9 ==> #[trigger] line.subrange(j, j + 9)
            != "dsh web: "@) ==> boot_candidate(line) is None && logged_line(line) == line,
        logged_line(before + "dsh web: "@ + after) == "dsh web: [startup URL omitted]"@,
{
    reveal_strlit("dsh web: ");
    let marker = "dsh web: "@;
    if forall|j: int| 0 <= j <= line.len() - 9 ==> #[trigger] line.subrange(j, j + 9) != marker {
        lemma_find_from(line, marker, 0);
        assert forall|j: int| !#[trigger] occurs_at(line, marker, j) by {
            if occurs_at(line, marker, j) {
                assert(line.subrange(j, j + 9) != marker);
            }
        }
    }
    let whole = before + marker + after;
    let n = before.len() as int;
    assert(whole.subrange(n, n + 9) =~= marker);
    assert(occurs_at(whole, marker, n));
}

/// The host and port of a URL end at a slash in either direction, a question mark,
/// a number sign, a space, or a control character below that.
pub proof fn law_ends_of_an_authority(c: char)
    ensures
        ends_authority(c) == (c == '/' || c == '\\' || c == '?' || c == '#' || c as int <= 32),
{
}

/// A URL writes out a port exactly where what stands between the slashes behind
/// its scheme and its path ends in a colon and digits, however many slashes there
/// are.
pub proof fn law_written_ports(
    scheme: Seq<char>,
    slashes: Seq<char>,
    named: Seq<char>,
    rest: Seq<char>,
)
    requires
        !scheme.contains(':'),
        forall|i: int|
            0 <= i < slashes.len() ==> (#[trigger] slashes[i] == '/' || slashes[i] == '\\'),
        named.len() > 0,
        forall|i: int|
            0 <= i < named.len() ==> #[trigger] named[i] != '/' && named[i] != '\\' && named[i]
                != '?' && named[i] != '#' && named[i] as int > 32,
        rest.len() > 0 ==> rest[0] == '/' || rest[0] == '\\' || rest[0] == '?' || rest[0] == '#'
            || rest[0] as int <= 32,
    ensures
        writes_port(scheme + seq![':'] + slashes + named + rest) <==> exists|colon: int|
            {
                &&& 0 <= colon < named.len() - 1
                &&& #[trigger] named[colon] == ':'
                &&& forall|i: int| colon < i < named.len() ==> '0' <= #[trigger] named[i] <= '9'
            },
{
    let s = scheme + seq![':'] + slashes + named + rest;
    let n = scheme.len() as int;
    let start = n + 1 + slashes.len();
    let end = start + named.len();
    reveal_strlit(":");
    lemma_find_from(s, ":"@, 0);
    assert(s.subrange(n, n + 1) =~= ":"@);
    assert(occurs_at(s, ":"@, n));
    assert forall|j: int| 0 <= j < n implies !occurs_at(s, ":"@, j) by {
        assert(s.subrange(j, j + 1)[0] == s[j]);
        assert(s[j] == scheme[j]);
        assert(scheme.contains(scheme[j]));
    }
    assert(find_from(s, ":"@, 0) == Some(n));
    assert forall|j: int| n + 1 <= j < start implies is_slash(#[trigger] s[j]) by {
        assert(s[j] == slashes[j - n - 1]);
    }
    assert(s[start] == named[0]);
    lemma_after_slashes(s, n + 1, start);
    assert forall|j: int| start <= j < end implies !ends_authority(#[trigger] s[j]) by {
        assert(s[j] == named[j - start]);
    }
    if end < s.len() {
        assert(s[end] == rest[0]);
    }
    lemma_authority_end(s, start, end);
    assert(authority(s) =~= named);
    assert(ends_in_port(named) == writes_port(s));
    if ends_in_port(named) {
        let colon = choose|colon: int|
            {
                &&& 0 <= colon < named.len() - 1
                &&& #[trigger] named[colon] == ':'
                &&& forall|i: int| colon < i < named.len() ==> is_digit(#[trigger] named[i])
            };
        assert(named[colon] == ':');
        assert forall|i: int| colon < i < named.len() implies '0' <= #[trigger] named[i] <= '9' by {
            assert(is_digit(named[i]));
        }
    }
    if exists|colon: int|
        {
            &&& 0 <= colon < named.len() - 1
            &&& #[trigger] named[colon] == ':'
            &&& forall|i: int| colon < i < named.len() ==> '0' <= #[trigger] named[i] <= '9'
        } {
        let colon = choose|colon: int|
            {
                &&& 0 <= colon < named.len() - 1
                &&& #[trigger] named[colon] == ':'
                &&& forall|i: int| colon < i < named.len() ==> '0' <= #[trigger] named[i] <= '9'
            };
        assert(named[colon] == ':');
        assert forall|i: int| colon < i < named.len() implies is_digit(#[trigger] named[i]) by {
        }
    }
}

proof fn lemma_after_slashes(s: Seq<char>, i: int, start: int)
    requires
        0 <= i <= start < s.len(),
        forall|j: int| i <= j < start ==> is_slash(#[trigger] s[j]),
        !is_slash(s[start]),
    ensures
        after_slashes(s, i) == start,
    decreases start - i,
{
    if i < start {
        lemma_after_slashes(s, i + 1, start);
    }
}

/// A text without a colon writes out no port.
pub proof fn law_no_port_without_a_colon(s: Seq<char>)
    requires
        !s.contains(':'),
    ensures
        !writes_port(s),
{
    reveal_strlit(":");
    lemma_find_from(s, ":"@, 0);
    if let Some(i) = find_from(s, ":"@, 0) {
        assert(s.subrange(i, i + 1)[0] == s[i]);
        assert(s.contains(s[i]));
    }
}

/// The boot line is waited for half a minute, and the default port is that of HTTP.
pub proof fn law_boot_constants()
    ensures
        STARTUP_TIMEOUT == 30,
        DEFAULT_HTTP_PORT == 80,
{
}

/// The contents of a URL are its parts, each as it is.
pub proof fn law_contents_of_urls(url: BackendUrl, domain: String, narrow: u32, wide: u128)
    ensures
        url@.text == url.text@,
        url@.scheme == url.scheme@,
        url@.username == url.username@,
        url@.password is Some == url.password is Some,
        url.password matches Some(password) ==> url@.password == Some(password@),
        url@.host is Some == url.host is Some,
        url.host matches Some(host) ==> url@.host == Some(host@),
        url@.port == url.port,
        url@.query is Some == url.query is Some,
        url.query matches Some(query) ==> url@.query == Some(query@),
        UrlHost::Domain(domain)@ == HostView::Domain(domain@),
        UrlHost::Ipv4(narrow)@ == HostView::Ipv4(narrow),
        UrlHost::Ipv6(wide)@ == HostView::Ipv6(wide),
{
}

/// A URL that is read out of a line, or accepted, leads to this machine by plain HTTP,
/// without credentials, to a port; what is accepted is what was given, with the
/// default port filled in where it was written out.
pub proof fn law_opened_urls(
    line: &str,
    parsed: Option<BackendUrl>,
    candidate: &str,
    given: BackendUrl,
    accepted: Option<BackendUrl>,
)
    ensures
        call_ensures(parse_url, (line,), parsed) ==> (parsed matches Some(url) ==> {
            &&& url.scheme@ == "http"@
            &&& url.username@.len() == 0
            &&& url.password is None
            &&& url.port is Some
            &&& url.host matches Some(host)
            &&& host matches UrlHost::Ipv4(address) ==> address as int / 16777216 == 127
            &&& host matches UrlHost::Ipv6(address) ==> address == 1
        }),
        call_ensures(accept_url, (candidate, given), accepted) ==> (accepted matches Some(url) ==> {
            &&& url.text@ == given.text@
            &&& url.scheme@ == "http"@
            &&& given.username@.len() == 0
            &&& given.password is None
            &&& given.port is Some ==> url.port == given.port
            &&& given.port is None ==> url.port == Some(80u16) && writes_port(candidate@)
        }),
        call_ensures(accept_url, (candidate, given), accepted) && given.scheme@ == "http"@
            && given.username@.len() == 0 && given.password is None && (given.port is Some
            || writes_port(candidate@)) && (given.host matches Some(UrlHost::Ipv4(address))
            && address as int / 16777216 == 127) ==> accepted is Some,
        call_ensures(accept_url, (candidate, given), accepted) && given.scheme@ == "http"@
            && given.username@.len() == 0 && given.password is None && (given.port is Some
            || writes_port(candidate@)) && (given.host matches Some(UrlHost::Ipv6(address))
            && address == 1) ==> accepted is Some,
{
    law_reported_urls_are_local(line@);
    law_accepted_urls(candidate@, given@);
}

/// The candidate that is read out of a line is the word behind its marker, and what
/// is logged of the line is the notice in its place.
pub proof fn law_read_and_logged_lines(
    line: &str,
    before: Seq<char>,
    word: Seq<char>,
    rest: Seq<char>,
    candidate: Option<String>,
    logged: &str,
)
    requires
        line@ == before + "dsh web: "@ + word + rest,
        forall|j: int|
            0 <= j < before.len() ==> #[trigger] line@.subrange(j, j + 9) != "dsh web: "@,
        word.len() > 0,
        forall|i: int| 0 <= i < word.len() ==> !is_white_space(#[trigger] word[i]),
        rest.len() > 0 ==> is_white_space(rest[0]),
    ensures
        call_ensures(startup_candidate, (line,), candidate) ==> candidate is Some && candidate->0@
            == word,
        call_ensures(runtime_log_line, (line,), logged) ==> logged@
            == "dsh web: [startup URL omitted]"@,
{
    let blank = Seq::<char>::empty();
    assert(before + "dsh web: "@ + blank + word + rest =~= line@);
    law_candidate_is_the_word_behind_the_marker(before, blank, word, rest);
    law_marked_lines_are_redacted(line@, before, word + rest);
    assert(before + "dsh web: "@ + (word + rest) =~= line@);
}

/// The wait for the boot line ends when the time is up, the output cannot be read, or
/// the backend closed it; a line ends it only where it reports a URL.
pub proof fn law_wait_for_the_boot_line(event: StartupEvent, step: StartupStep)
    requires
        call_ensures(startup_step, (event,), step),
    ensures
        event is DeadlinePassed ==> (step matches StartupStep::Failed(error) && error.kind
            == ErrorKind::TimedOut),
        event matches StartupEvent::ReadFailed(cause) ==> step == StartupStep::Failed(cause),
        event is Disconnected ==> (step matches StartupStep::Failed(error) && error.kind
            == ErrorKind::UnexpectedEof),
        event matches StartupEvent::Line(line) ==> !(step is Failed) && (step is Ready)
            == reported_url(line@) is Some,
        step is Ready ==> event is Line,
        step is Wait ==> event is Line,
{
}

} // verus!
