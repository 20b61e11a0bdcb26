//! Versions and build numbers: reading, comparing and naming them.

use std::cmp::Ordering;

use vstd::prelude::*;

use crate::json;
use crate::locale::NativeLocale;
use crate::text;
use crate::text::{chars_of, split_text, trimmed};

verus! {

/// How one thing stands to another.
#[derive(Clone, Copy, Debug, PartialEq, Eq, Structural)]
pub enum Standing {
    Lower,
    Same,
    Higher,
}

/// How one number stands to another.
pub open spec fn standing(left: u64, right: u64) -> Standing {
    if left < right {
        Standing::Lower
    } else if left == right {
        Standing::Same
    } else {
        Standing::Higher
    }
}

fn number_standing(left: u64, right: u64) -> (found: Standing)
    ensures
        found == standing(left, right),
{
    if left < right {
        Standing::Lower
    } else if left == right {
        Standing::Same
    } else {
        Standing::Higher
    }
}

/// A standing in the terms of the standard library.
pub open spec fn as_ordering(found: Standing) -> Ordering {
    match found {
        Standing::Lower => Ordering::Less,
        Standing::Same => Ordering::Equal,
        Standing::Higher => Ordering::Greater,
    }
}

fn ordering_of(found: Standing) -> (ordering: Ordering)
    ensures
        ordering == as_ordering(found),
{
    match found {
        Standing::Lower => Ordering::Less,
        Standing::Same => Ordering::Equal,
        Standing::Higher => Ordering::Greater,
    }
}

// ---------------------------------------------------------------------------
// Versions
// ---------------------------------------------------------------------------

/// The part of a semantic version that orders releases. Pre-release and build
/// identifiers do not count.
#[derive(Clone, Copy, Debug, PartialEq, Eq, Structural)]
pub struct CoreVersion {
    pub major: u64,
    pub minor: u64,
    pub patch: u64,
}

/// The major, minor and patch numbers that `semver::Version::parse` reads out of a
/// text, or its complaint.
pub uninterp spec fn version_reading(version: Seq<char>) -> Result<(u64, u64, u64), Seq<char>>;

/// Calls `semver::Version::parse` and copies the three numbers, or the message of
/// the error. What they are depends on the text alone; it is named, not said.
#[verifier::external_body]
fn parse_version(version: &str) -> (parsed: Result<CoreVersion, String>)
    ensures
        read_version(parsed) == version_reading(version@),
{
    semver::Version::parse(version).map(
        |found| CoreVersion { major: found.major, minor: found.minor, patch: found.patch },
    ).map_err(|error| error.to_string())
}

/// The outcome of reading a version.
pub open spec fn read_version(parsed: Result<CoreVersion, String>) -> Result<
    (u64, u64, u64),
    Seq<char>,
> {
    match parsed {
        Ok(found) => Ok((found.major, found.minor, found.patch)),
        Err(complaint) => Err(complaint@),
    }
}

/// How one version stands to another: the first number in which they differ
/// decides.
pub open spec fn version_standing(left: CoreVersion, right: CoreVersion) -> Standing {
    if left.major != right.major {
        standing(left.major, right.major)
    } else if left.minor != right.minor {
        standing(left.minor, right.minor)
    } else {
        standing(left.patch, right.patch)
    }
}

/// Compares two versions by their major, minor and patch numbers.
pub fn compare_core_versions(left: &CoreVersion, right: &CoreVersion) -> (ordering: Ordering)
    ensures
        ordering == as_ordering(version_standing(*left, *right)),
{
    if left.major != right.major {
        ordering_of(number_standing(left.major, right.major))
    } else if left.minor != right.minor {
        ordering_of(number_standing(left.minor, right.minor))
    } else {
        ordering_of(number_standing(left.patch, right.patch))
    }
}

/// Whether a release is worth a closer look: its version is not lower than the
/// current one.
pub fn is_release_candidate(release: &CoreVersion, current: &CoreVersion) -> (candidate: bool)
    ensures
        candidate == (version_standing(*release, *current) != Standing::Lower),
{
    match compare_core_versions(release, current) {
        Ordering::Less => false,
        Ordering::Equal => true,
        Ordering::Greater => true,
    }
}

// ---------------------------------------------------------------------------
// Build numbers
// ---------------------------------------------------------------------------

/// What `str::parse` complains of where a numeral does not fit into 64 bits.
pub uninterp spec fn numeral_complaint(numeral: Seq<char>) -> Seq<char>;

/// Calls `str::parse` for a `u64` on a numeral: the number where it fits, and an
/// error where it is too large. The message of the error is named, not said.
#[verifier::external_body]
fn parse_numeral(numeral: &str) -> (number: Result<u64, String>)
    requires
        numeral@.len() > 0,
        forall|i: int| 0 <= i < numeral@.len() ==> text::is_digit(#[trigger] numeral@[i]),
    ensures
        match number {
            Ok(number) => number == text::numeral_value(numeral@),
            Err(complaint) => text::numeral_value(numeral@) > u64::MAX && complaint@
                == numeral_complaint(numeral@),
        },
{
    numeral.parse::<u64>().map_err(|error| error.to_string())
}

/// A part of a build number: a numeral without a leading zero.
pub open spec fn is_build_part(part: Seq<char>) -> bool {
    &&& part.len() > 0
    &&& forall|i: int| 0 <= i < part.len() ==> text::is_digit(#[trigger] part[i])
    &&& part.len() > 1 ==> part[0] != '0'
}

/// The complaint about a text that is no build number.
pub open spec fn invalid_build(value: Seq<char>) -> Seq<char> {
    "invalid build number "@ + value
}

/// The numbers of some parts of the build number `value`, or the complaint about
/// the first part that is none.
pub open spec fn build_parts(value: Seq<char>, parts: Seq<Seq<char>>) -> Result<
    Seq<u64>,
    Seq<char>,
>
    decreases parts.len(),
{
    if parts.len() == 0 {
        Ok(Seq::empty())
    } else {
        match build_parts(value, parts.drop_last()) {
            Ok(numbers) => {
                let part = parts.last();
                if !is_build_part(part) {
                    Err(invalid_build(value))
                } else if text::numeral_value(part) > u64::MAX {
                    Err(invalid_build(value) + ": "@ + numeral_complaint(part))
                } else {
                    Ok(numbers.push(text::numeral_value(part) as u64))
                }
            },
            Err(complaint) => Err(complaint),
        }
    }
}

/// The numbers of a build number: one to three numerals with dots between them.
pub open spec fn build_number(value: Seq<char>) -> Result<Seq<u64>, Seq<char>> {
    let parts = text::split_on(value, '.');
    if parts.len() > 3 {
        Err(invalid_build(value))
    } else {
        build_parts(value, parts)
    }
}

/// The outcome of reading a build number.
pub open spec fn read_build(parsed: Result<Vec<u64>, String>) -> Result<Seq<u64>, Seq<char>> {
    match parsed {
        Ok(numbers) => Ok(numbers@),
        Err(complaint) => Err(complaint@),
    }
}

fn is_part(part: &str) -> (yes: bool)
    ensures
        yes == is_build_part(part@),
{
    let chars = chars_of(part);
    if chars.len() == 0 || (chars.len() > 1 && chars[0] == '0') {
        return false;
    }
    let mut i: usize = 0;
    while i < chars.len()
        invariant
            i <= chars@.len(),
            chars@ == part@,
            forall|j: int| 0 <= j < i ==> text::is_digit(#[trigger] chars@[j]),
        decreases chars@.len() - i,
    {
        if !('0' <= chars[i] && chars[i] <= '9') {
            assert(!text::is_digit(part@[i as int]));
            return false;
        }
        i = i + 1;
    }
    true
}

fn invalid(value: &str) -> (complaint: String)
    ensures
        complaint@ == invalid_build(value@),
{
    let mut complaint = "invalid build number ".to_string();
    complaint.append(value);
    complaint
}

/// Once some parts are refused, all of them are, with the same complaint.
proof fn lemma_first_complaint_stays(value: Seq<char>, parts: Seq<Seq<char>>, n: int)
    requires
        0 <= n <= parts.len(),
        build_parts(value, parts.take(n)) is Err,
    ensures
        build_parts(value, parts) == build_parts(value, parts.take(n)),
    decreases parts.len() - n,
{
    if n == parts.len() {
        assert(parts.take(n) == parts);
    } else {
        assert(parts.take(n + 1).drop_last() == parts.take(n));
        lemma_first_complaint_stays(value, parts, n + 1);
    }
}

/// Reads a build number: one to three numerals with dots between them.
pub fn parse_build_number(value: &str) -> (parsed: Result<Vec<u64>, String>)
    ensures
        read_build(parsed) == build_number(value@),
{
    let parts = split_text(value, '.');
    let ghost all = text::split_on(value@, '.');
    proof {
        assert(all.len() == parts@.len());
        assert(all.take(0) == Seq::<Seq<char>>::empty());
    }
    if parts.len() > 3 {
        return Err(invalid(value));
    }
    let mut numbers: Vec<u64> = Vec::new();
    let mut i: usize = 0;
    while i < parts.len()
        invariant
            i <= parts@.len() <= 3,
            all == text::split_on(value@, '.'),
            all == text::views(parts@),
            build_parts(value@, all.take(i as int)) == read_build(
                Ok::<Vec<u64>, String>(numbers),
            ),
        decreases parts@.len() - i,
    {
        let part = parts[i].as_str();
        proof {
            assert(all.take(i + 1).drop_last() == all.take(i as int));
            assert(all.take(i + 1).last() == part@);
        }
        if !is_part(part) {
            proof {
                lemma_first_complaint_stays(value@, all, i + 1);
            }
            return Err(invalid(value));
        }
        match parse_numeral(part) {
            Ok(number) => {
                numbers.push(number);
            },
            Err(complaint) => {
                proof {
                    lemma_first_complaint_stays(value@, all, i + 1);
                }
                let mut message = invalid(value);
                message.append(": ");
                message.append(complaint.as_str());
                return Err(message);
            },
        }
        i = i + 1;
    }
    assert(all.take(i as int) == all);
    Ok(numbers)
}

/// The part of a build number at an index; missing parts are zero.
pub open spec fn build_part(numbers: Seq<u64>, i: int) -> u64 {
    if 0 <= i < numbers.len() {
        numbers[i]
    } else {
        0
    }
}

/// How one build number stands to another from an index on: the first part in
/// which they differ decides.
pub open spec fn build_standing_from(left: Seq<u64>, right: Seq<u64>, i: int) -> Standing
    decreases left.len() + right.len() - i,
{
    if i < 0 || i >= left.len() && i >= right.len() {
        Standing::Same
    } else if build_part(left, i) != build_part(right, i) {
        standing(build_part(left, i), build_part(right, i))
    } else {
        build_standing_from(left, right, i + 1)
    }
}

/// How one build number stands to another.
pub open spec fn build_standing(left: Seq<u64>, right: Seq<u64>) -> Standing {
    build_standing_from(left, right, 0)
}

fn parts_standing(left: &Vec<u64>, right: &Vec<u64>) -> (found: Standing)
    ensures
        found == build_standing(left@, right@),
{
    let mut i: usize = 0;
    while i < left.len() || i < right.len()
        invariant
            i <= left@.len() || i <= right@.len(),
            build_standing(left@, right@) == build_standing_from(left@, right@, i as int),
        decreases left@.len() + right@.len() - i,
    {
        let a: u64 = if i < left.len() {
            left[i]
        } else {
            0
        };
        let b: u64 = if i < right.len() {
            right[i]
        } else {
            0
        };
        if a != b {
            return number_standing(a, b);
        }
        i = i + 1;
    }
    Standing::Same
}

/// The outcome of comparing two build numbers: the complaint about the left one
/// comes first.
pub open spec fn builds_compared(left: Seq<char>, right: Seq<char>) -> Result<Standing, Seq<char>> {
    match (build_number(left), build_number(right)) {
        (Err(complaint), _) => Err(complaint),
        (_, Err(complaint)) => Err(complaint),
        (Ok(a), Ok(b)) => Ok(build_standing(a, b)),
    }
}

/// Compares two build numbers part by part; missing parts count as zero.
pub fn compare_build_numbers(left: &str, right: &str) -> (compared: Result<Ordering, String>)
    ensures
        match builds_compared(left@, right@) {
            Ok(found) => compared matches Ok(ordering) && ordering == as_ordering(found),
            Err(complaint) => compared matches Err(message) && message@ == complaint,
        },
{
    let a = match parse_build_number(left) {
        Ok(numbers) => numbers,
        Err(complaint) => {
            return Err(complaint);
        },
    };
    let b = match parse_build_number(right) {
        Ok(numbers) => numbers,
        Err(complaint) => {
            return Err(complaint);
        },
    };
    Ok(ordering_of(parts_standing(&a, &b)))
}

/// The build number of an application bundle, or what is wrong with it.
pub open spec fn bundle_build(value: Option<Seq<char>>) -> Result<Seq<char>, Seq<char>> {
    match value {
        Some(value) if text::trim(value).len() > 0 => match build_number(text::trim(value)) {
            Ok(numbers) => if exists|i: int| 0 <= i < numbers.len() && #[trigger] numbers[i] != 0 {
                Ok(text::trim(value))
            } else {
                Err("application build number must be positive"@)
            },
            Err(complaint) => Err(complaint),
        },
        _ => Err("application bundle is missing a build number"@),
    }
}

/// The build number of an application bundle: present, well-formed and positive.
pub fn validated_build_number(value: Option<&str>) -> (validated: Result<String, String>)
    ensures
        match bundle_build(text::opt_str(value)) {
            Ok(number) => validated matches Ok(found) && found@ == number,
            Err(complaint) => validated matches Err(message) && message@ == complaint,
        },
{
    let number = match value {
        Some(value) => trimmed(value),
        None => {
            return Err("application bundle is missing a build number".to_string());
        },
    };
    if number.as_str().is_empty() {
        return Err("application bundle is missing a build number".to_string());
    }
    let numbers = match parse_build_number(number.as_str()) {
        Ok(numbers) => numbers,
        Err(complaint) => {
            return Err(complaint);
        },
    };
    let mut i: usize = 0;
    while i < numbers.len()
        invariant
            i <= numbers@.len(),
            forall|j: int| 0 <= j < i ==> #[trigger] numbers@[j] == 0,
            value is Some,
            number@ == text::trim(value->0@),
            number@.len() > 0,
            build_number(number@) == read_build(Ok::<Vec<u64>, String>(numbers)),
        decreases numbers@.len() - i,
    {
        if numbers[i] != 0 {
            proof {
                let read = build_number(number@)->Ok_0;
                assert(read == numbers@);
                assert(read[i as int] != 0);
            }
            return Ok(number);
        }
        i = i + 1;
    }
    Err("application build number must be positive".to_string())
}

/// What an application bundle says of its build number.
pub enum BundleVersion {
    /// It has none.
    Missing,
    /// What it has is no UTF-8; with the complaint about it.
    NotUtf8 { complaint: String },
    Present { value: String },
}

/// The build number of the installed bundle, or what is wrong with it.
pub fn bundled_build_number(reported: &BundleVersion) -> (validated: Result<String, String>)
    ensures
        match *reported {
            BundleVersion::Missing => validated matches Err(message) && message@
                == "application bundle is missing CFBundleVersion"@,
            BundleVersion::NotUtf8 { complaint } => validated matches Err(message) && message@
                == "application CFBundleVersion is not valid UTF-8: "@ + complaint@,
            BundleVersion::Present { value } => match bundle_build(Some(value@)) {
                Ok(number) => validated matches Ok(found) && found@ == number,
                Err(complaint) => validated matches Err(message) && message@ == complaint,
            },
        },
{
    match reported {
        BundleVersion::Missing => Err("application bundle is missing CFBundleVersion".to_string()),
        BundleVersion::NotUtf8 { complaint } => {
            let mut message = "application CFBundleVersion is not valid UTF-8: ".to_string();
            message.append(complaint.as_str());
            Err(message)
        },
        BundleVersion::Present { value } => validated_build_number(Some(value.as_str())),
    }
}

/// The build number of an application without a bundle: the one that it was built
/// with, or the one that is configured.
pub fn installed_build_number(built_with: Option<&str>, configured: Option<&str>) -> (validated: Result<
    String,
    String,
>)
    ensures
        match bundle_build(
            if built_with is Some {
                text::opt_str(built_with)
            } else {
                text::opt_str(configured)
            },
        ) {
            Ok(number) => validated matches Ok(found) && found@ == number,
            Err(complaint) => validated matches Err(message) && message@ == complaint,
        },
{
    if built_with.is_some() {
        validated_build_number(built_with)
    } else {
        validated_build_number(configured)
    }
}

// ---------------------------------------------------------------------------
// Updates
// ---------------------------------------------------------------------------

/// Whether a release is newer than the current one: the version decides first,
/// then the build number.
pub open spec fn is_newer(
    current: CoreVersion,
    current_build: Seq<u64>,
    remote: CoreVersion,
    remote_build: Seq<u64>,
) -> bool {
    match version_standing(remote, current) {
        Standing::Higher => true,
        Standing::Lower => false,
        Standing::Same => build_standing(remote_build, current_build) == Standing::Higher,
    }
}

/// The outcome of comparing a release with the current one, given what was read
/// of the release's version.
pub open spec fn release_compared(
    current: CoreVersion,
    current_build: Seq<char>,
    remote_version: Seq<char>,
    reading: Result<(u64, u64, u64), Seq<char>>,
    remote_build: Seq<char>,
) -> Result<bool, Seq<char>> {
    match reading {
        Err(complaint) => Err("invalid update version "@ + remote_version + ": "@ + complaint),
        Ok((major, minor, patch)) => match (build_number(remote_build), build_number(current_build)) {
            (Err(complaint), _) => Err(complaint),
            (_, Err(complaint)) => Err(complaint),
            (Ok(remote_numbers), Ok(current_numbers)) => Ok(
                is_newer(
                    current,
                    current_numbers,
                    CoreVersion { major, minor, patch },
                    remote_numbers,
                ),
            ),
        },
    }
}

/// Whether a release is newer than the current one, given what was read of its
/// version.
pub fn is_parsed_update_newer(
    current_version: &CoreVersion,
    current_build: &str,
    remote_version: &str,
    parsed: Result<CoreVersion, String>,
    remote_build: &str,
) -> (newer: Result<bool, String>)
    ensures
        match release_compared(
            *current_version,
            current_build@,
            remote_version@,
            read_version(parsed),
            remote_build@,
        ) {
            Ok(found) => newer == Ok::<bool, String>(found),
            Err(complaint) => newer matches Err(message) && message@ == complaint,
        },
{
    let remote = match parsed {
        Ok(remote) => remote,
        Err(complaint) => {
            let mut message = "invalid update version ".to_string();
            message.append(remote_version);
            message.append(": ");
            message.append(complaint.as_str());
            return Err(message);
        },
    };
    let builds = match compare_build_numbers(remote_build, current_build) {
        Ok(builds) => builds,
        Err(complaint) => {
            return Err(complaint);
        },
    };
    match compare_core_versions(&remote, current_version) {
        Ordering::Greater => Ok(true),
        Ordering::Less => Ok(false),
        Ordering::Equal => match builds {
            Ordering::Greater => Ok(true),
            Ordering::Less => Ok(false),
            Ordering::Equal => Ok(false),
        },
    }
}

/// Whether a release is newer than the current one: the version decides first,
/// then the build number.
pub fn is_remote_update_newer(
    current_version: &CoreVersion,
    current_build: &str,
    remote_version: &str,
    remote_build: &str,
) -> (newer: Result<bool, String>)
    ensures
        match release_compared(
            *current_version,
            current_build@,
            remote_version@,
            version_reading(remote_version@),
            remote_build@,
        ) {
            Ok(found) => newer == Ok::<bool, String>(found),
            Err(complaint) => newer matches Err(message) && message@ == complaint,
        },
{
    is_parsed_update_newer(
        current_version,
        current_build,
        remote_version,
        parse_version(remote_version),
        remote_build,
    )
}

/// A build number that is written out is read back: its numbers in decimal, with
/// dots between them.
pub proof fn law_build_numbers_are_read_back(numbers: Seq<u64>)
    requires
        1 <= numbers.len() <= 3,
    ensures
        build_number(
            text::join(numbers.map_values(|n: u64| text::decimal(n as nat)), seq!['.']),
        ) == Ok::<Seq<u64>, Seq<char>>(numbers),
{
    let parts = numbers.map_values(|n: u64| text::decimal(n as nat));
    let value = text::join(parts, seq!['.']);
    assert forall|i: int| 0 <= i < parts.len() implies !(#[trigger] parts[i]).contains('.') by {
        text::law_decimal_round_trip(numbers[i] as nat);
        if parts[i].contains('.') {
            let k = parts[i].index_of('.');
            assert(text::is_digit(parts[i][k]));
        }
    }
    text::law_join_split(parts, '.');
    lemma_parts_are_read_back(value, numbers);
}

proof fn lemma_parts_are_read_back(value: Seq<char>, numbers: Seq<u64>)
    ensures
        build_parts(value, numbers.map_values(|n: u64| text::decimal(n as nat))) == Ok::<
            Seq<u64>,
            Seq<char>,
        >(numbers),
    decreases numbers.len(),
{
    let parts = numbers.map_values(|n: u64| text::decimal(n as nat));
    if numbers.len() > 0 {
        let init = numbers.drop_last();
        lemma_parts_are_read_back(value, init);
        assert(parts.drop_last() == init.map_values(|n: u64| text::decimal(n as nat)));
        text::law_decimal_round_trip(numbers.last() as nat);
        assert(init.push(numbers.last()) == numbers);
    } else {
        assert(numbers == Seq::<u64>::empty());
    }
}

/// The opposite standing.
pub open spec fn opposite(found: Standing) -> Standing {
    match found {
        Standing::Lower => Standing::Higher,
        Standing::Same => Standing::Same,
        Standing::Higher => Standing::Lower,
    }
}

proof fn lemma_opposite_from(left: Seq<u64>, right: Seq<u64>, i: int)
    requires
        0 <= i,
    ensures
        build_standing_from(right, left, i) == opposite(build_standing_from(left, right, i)),
    decreases left.len() + right.len() - i,
{
    if i < left.len() || i < right.len() {
        lemma_opposite_from(left, right, i + 1);
    }
}

/// One step of a comparison, also past the end of both numbers.
proof fn lemma_standing_step(left: Seq<u64>, right: Seq<u64>, i: int)
    requires
        0 <= i,
    ensures
        build_standing_from(left, right, i) == (if build_part(left, i) != build_part(right, i) {
            standing(build_part(left, i), build_part(right, i))
        } else {
            build_standing_from(left, right, i + 1)
        }),
{
}

proof fn lemma_standing_composes_from(a: Seq<u64>, b: Seq<u64>, c: Seq<u64>, i: int)
    requires
        0 <= i,
        build_standing_from(a, b, i) != Standing::Lower,
        build_standing_from(b, c, i) != Standing::Lower,
    ensures
        build_standing_from(a, c, i) == (if build_standing_from(a, b, i) == Standing::Same
            && build_standing_from(b, c, i) == Standing::Same {
            Standing::Same
        } else {
            Standing::Higher
        }),
    decreases a.len() + b.len() + c.len() - i,
{
    if i < a.len() || i < b.len() || i < c.len() {
        lemma_standing_step(a, b, i);
        lemma_standing_step(b, c, i);
        lemma_standing_step(a, c, i);
        if build_part(a, i) == build_part(b, i) && build_part(b, i) == build_part(c, i) {
            lemma_standing_composes_from(a, b, c, i + 1);
        }
    }
}

/// Comparing build numbers the other way round gives the opposite standing, and
/// trailing zero parts do not count.
pub proof fn law_build_comparison_is_consistent(left: Seq<u64>, right: Seq<u64>)
    ensures
        build_standing(right, left) == opposite(build_standing(left, right)),
        build_standing(left, left) == Standing::Same,
        build_standing(left, left.push(0)) == Standing::Same,
{
    lemma_opposite_from(left, right, 0);
    lemma_opposite_from(left, left, 0);
    lemma_trailing_zero(left, 0);
}

proof fn lemma_trailing_zero(numbers: Seq<u64>, i: int)
    requires
        0 <= i,
    ensures
        build_standing_from(numbers, numbers.push(0), i) == Standing::Same,
    decreases numbers.len() + 1 - i,
{
    if i <= numbers.len() {
        lemma_trailing_zero(numbers, i + 1);
    }
}

/// Being newer is a strict order on releases: no release is newer than itself,
/// none of two is newer than the other both ways, and what is newer than a newer
/// release is newer.
pub proof fn law_newer_is_a_strict_order(
    a: CoreVersion,
    a_build: Seq<u64>,
    b: CoreVersion,
    b_build: Seq<u64>,
    c: CoreVersion,
    c_build: Seq<u64>,
)
    ensures
        !is_newer(a, a_build, a, a_build),
        is_newer(a, a_build, b, b_build) ==> !is_newer(b, b_build, a, a_build),
        is_newer(a, a_build, b, b_build) && is_newer(b, b_build, c, c_build) ==> is_newer(
            a,
            a_build,
            c,
            c_build,
        ),
{
    lemma_opposite_from(a_build, a_build, 0);
    lemma_opposite_from(a_build, b_build, 0);
    if is_newer(a, a_build, b, b_build) && is_newer(b, b_build, c, c_build) && version_standing(
        b,
        a,
    ) == Standing::Same && version_standing(c, b) == Standing::Same {
        lemma_standing_composes_from(c_build, b_build, a_build, 0);
    }
}

/// The version decides before the build number: a higher version is newer, and a
/// lower one is not, whatever the build numbers are.
pub proof fn law_version_decides_first(
    current: CoreVersion,
    current_build: Seq<u64>,
    remote: CoreVersion,
    remote_build: Seq<u64>,
)
    requires
        current != remote,
    ensures
        is_newer(current, current_build, remote, remote_build) == (version_standing(remote, current)
            == Standing::Higher),
{
}

/// The build number of an update manifest, where it has one.
pub open spec fn manifest_build(manifest: json::JsonTree) -> Option<Seq<char>> {
    match json::table_entry(manifest, "build_number"@) {
        Some(json::JsonTree::Text(number)) if number.len() > 0 => Some(number),
        _ => None,
    }
}

/// The build number of an update manifest: a text that is not empty.
pub fn manifest_build_number(manifest: &serde_json::Value) -> (number: Result<&str, String>)
    ensures
        match manifest_build(json::json_tree(*manifest)) {
            Some(found) => number matches Ok(number) && number@ == found,
            None => number matches Err(message) && message@
                == "update manifest is missing build_number"@,
        },
{
    match json::get_member(manifest, "build_number") {
        Some(member) => match member.as_str() {
            Some(number) => {
                if !number.is_empty() {
                    return Ok(number);
                }
            },
            None => {},
        },
        None => {},
    }
    Err("update manifest is missing build_number".to_string())
}

/// A version together with its build number, as users read it.
pub open spec fn labelled_version(
    locale: NativeLocale,
    version: Seq<char>,
    build: Seq<char>,
) -> Seq<char> {
    version + locale.pick("，构建 "@, ", build "@) + build
}

/// A version together with its build number, as users read it.
pub fn version_label(locale: NativeLocale, version: &str, build_number: &str) -> (label: String)
    ensures
        label@ == labelled_version(locale, version@, build_number@),
{
    let mut label = version.to_owned();
    label.append(locale.text("，构建 ", ", build "));
    label.append(build_number);
    label
}

/// What users read where there is no newer release.
pub open spec fn up_to_date(locale: NativeLocale, version: Seq<char>, build: Seq<char>) -> Seq<char> {
    locale.pick("当前已是最新版本（"@, "OpenHarness "@) + labelled_version(locale, version, build)
        + locale.pick("）。"@, " is up to date."@)
}

/// What users read where there is no newer release.
pub fn up_to_date_message(locale: NativeLocale, version: &str, build_number: &str) -> (message: String)
    ensures
        message@ == up_to_date(locale, version@, build_number@),
{
    let mut message = locale.text("当前已是最新版本（", "OpenHarness ").to_string();
    message.append(version_label(locale, version, build_number).as_str());
    message.append(locale.text("）。", " is up to date."));
    message
}

/// The three numbers of two versions decide, compared as numbers: the major ones
/// first, the minor ones where those are equal, then the patch numbers. The build
/// numbers count only where all three are equal.
pub proof fn law_version_numbers_decide(
    current: CoreVersion,
    current_build: Seq<u64>,
    remote: CoreVersion,
    remote_build: Seq<u64>,
)
    ensures
        remote.major > current.major ==> is_newer(current, current_build, remote, remote_build),
        remote.major < current.major ==> !is_newer(current, current_build, remote, remote_build),
        remote.major == current.major && remote.minor > current.minor ==> is_newer(
            current,
            current_build,
            remote,
            remote_build,
        ),
        remote.major == current.major && remote.minor < current.minor ==> !is_newer(
            current,
            current_build,
            remote,
            remote_build,
        ),
        remote.major == current.major && remote.minor == current.minor && remote.patch
            > current.patch ==> is_newer(current, current_build, remote, remote_build),
        remote.major == current.major && remote.minor == current.minor && remote.patch
            < current.patch ==> !is_newer(current, current_build, remote, remote_build),
{
}

/// A version is lower than another exactly where its major number is, or that is
/// the same and its minor number is, or both are and its patch number is; versions
/// with the same three numbers stand the same.
pub proof fn law_versions_are_ordered_by_their_numbers(left: CoreVersion, right: CoreVersion)
    ensures
        (version_standing(left, right) == Standing::Lower) == (left.major < right.major || (
        left.major == right.major && (left.minor < right.minor || (left.minor == right.minor
            && left.patch < right.patch)))),
        (version_standing(left, right) == Standing::Same) == (left.major == right.major
            && left.minor == right.minor && left.patch == right.patch),
        version_standing(right, left) == opposite(version_standing(left, right)),
        (as_ordering(version_standing(left, right)) == Ordering::Less) == (version_standing(
            left,
            right,
        ) == Standing::Lower),
        (as_ordering(version_standing(left, right)) == Ordering::Equal) == (version_standing(
            left,
            right,
        ) == Standing::Same),
{
}

/// One build number is higher than another exactly where some part of it is, and
/// no part before that one differs. A part that is missing is zero.
pub proof fn law_builds_are_ordered_by_their_first_difference(left: Seq<u64>, right: Seq<u64>)
    ensures
        (build_standing(left, right) == Standing::Higher) == (exists|k: int|
            {
                &&& 0 <= k < left.len()
                &&& #[trigger] left[k] > (if k < right.len() {
                    right[k]
                } else {
                    0
                })
                &&& forall|i: int|
                    0 <= i < k ==> #[trigger] left[i] == (if i < right.len() {
                        right[i]
                    } else {
                        0
                    })
            }),
{
    lemma_first_difference(left, right, 0);
}

proof fn lemma_first_difference(left: Seq<u64>, right: Seq<u64>, from: int)
    requires
        0 <= from,
        forall|i: int| 0 <= i < from && i < left.len() ==> #[trigger] left[i] == build_part(right, i),
        forall|i: int|
            0 <= i < from && left.len() <= i < right.len() ==> #[trigger] right[i] == 0,
    ensures
        (build_standing_from(left, right, from) == Standing::Higher) == (exists|k: int|
            {
                &&& 0 <= k < left.len()
                &&& #[trigger] left[k] > (if k < right.len() {
                    right[k]
                } else {
                    0
                })
                &&& forall|i: int|
                    0 <= i < k ==> #[trigger] left[i] == (if i < right.len() {
                        right[i]
                    } else {
                        0
                    })
            }),
    decreases left.len() + right.len() - from,
{
    if from < left.len() || from < right.len() {
        if build_part(left, from) == build_part(right, from) {
            lemma_first_difference(left, right, from + 1);
        } else if build_part(left, from) > build_part(right, from) {
            assert(left[from] > build_part(right, from));
        } else if from < left.len() {
            assert(left[from] < build_part(right, from));
        }
    }
}

/// A text is a build number exactly where it is one to three numbers of 64 bits in
/// decimal with dots between them: what is read out of it writes it again.
pub proof fn law_build_numbers_are_decimals(value: Seq<char>, numbers: Seq<u64>)
    ensures
        build_number(value) == Ok::<Seq<u64>, Seq<char>>(numbers) <==> {
            &&& 1 <= numbers.len() <= 3
            &&& value == text::join(
                numbers.map_values(|n: u64| text::decimal(n as nat)),
                seq!['.'],
            )
        },
        build_number(value) matches Err(complaint) ==> text::starts_with(
            complaint,
            "invalid build number "@ + value,
        ),
{
    let parts = text::split_on(value, '.');
    text::law_split_join(value, '.');
    lemma_complaints_name_the_value(value, parts);
    let named = invalid_build(value);
    assert(named.take(named.len() as int) == named);
    if build_number(value) == Ok::<Seq<u64>, Seq<char>>(numbers) {
        lemma_read_parts_are_decimals(value, parts, numbers);
    }
    if 1 <= numbers.len() <= 3 && value == text::join(
        numbers.map_values(|n: u64| text::decimal(n as nat)),
        seq!['.'],
    ) {
        law_build_numbers_are_read_back(numbers);
    }
}

proof fn lemma_complaints_name_the_value(value: Seq<char>, parts: Seq<Seq<char>>)
    ensures
        build_parts(value, parts) matches Err(complaint) ==> text::starts_with(
            complaint,
            invalid_build(value),
        ),
    decreases parts.len(),
{
    if parts.len() > 0 {
        lemma_complaints_name_the_value(value, parts.drop_last());
        let named = invalid_build(value);
        let longer = named + ": "@ + numeral_complaint(parts.last());
        assert(named.take(named.len() as int) == named);
        assert(longer.take(named.len() as int) == named);
    }
}

proof fn lemma_read_parts_are_decimals(value: Seq<char>, parts: Seq<Seq<char>>, numbers: Seq<u64>)
    requires
        build_parts(value, parts) == Ok::<Seq<u64>, Seq<char>>(numbers),
    ensures
        parts == numbers.map_values(|n: u64| text::decimal(n as nat)),
    decreases parts.len(),
{
    let written = numbers.map_values(|n: u64| text::decimal(n as nat));
    if parts.len() > 0 {
        let before = build_parts(value, parts.drop_last())->Ok_0;
        lemma_read_parts_are_decimals(value, parts.drop_last(), before);
        text::law_numerals_are_decimals(parts.last());
        assert(numbers == before.push(text::numeral_value(parts.last()) as u64));
        assert(written =~= before.map_values(|n: u64| text::decimal(n as nat)).push(parts.last()));
        assert(parts == parts.drop_last().push(parts.last()));
    } else {
        assert(parts =~= written);
    }
}

/// The build number of a bundle is a positive build number without white space
/// around it, and every such number passes.
pub proof fn law_bundle_builds_are_positive(value: Seq<char>, numbers: Seq<u64>)
    requires
        build_number(text::trim(value)) == Ok::<Seq<u64>, Seq<char>>(numbers),
        text::trim(value).len() > 0,
    ensures
        bundle_build(None) is Err,
        (bundle_build(Some(value)) is Ok) == (exists|i: int|
            0 <= i < numbers.len() && #[trigger] numbers[i] > 0),
        bundle_build(Some(value)) is Ok ==> bundle_build(Some(value)) == Ok::<Seq<char>, Seq<char>>(
            text::trim(value),
        ),
{
    let read = build_number(text::trim(value))->Ok_0;
    assert(read == numbers);
    assert((exists|i: int| 0 <= i < numbers.len() && #[trigger] numbers[i] > 0) == (exists|i: int|
        0 <= i < read.len() && #[trigger] read[i] != 0)) by {
        if exists|i: int| 0 <= i < numbers.len() && #[trigger] numbers[i] > 0 {
            let i = choose|i: int| 0 <= i < numbers.len() && #[trigger] numbers[i] > 0;
            assert(read[i] != 0);
        }
        if exists|i: int| 0 <= i < read.len() && #[trigger] read[i] != 0 {
            let i = choose|i: int| 0 <= i < read.len() && #[trigger] read[i] != 0;
            assert(numbers[i] > 0);
        }
    }
}

/// A release whose version cannot be read, or whose build number cannot, is
/// neither newer nor not: the comparison fails, on the version first, then on the
/// release's build number, then on the installed one.
pub proof fn law_comparisons_fail_on_the_first_fault(
    current: CoreVersion,
    current_build: Seq<char>,
    remote_version: Seq<char>,
    complaint: Seq<char>,
    numbers: (u64, u64, u64),
    remote_build: Seq<char>,
)
    ensures
        release_compared(
            current,
            current_build,
            remote_version,
            Err(complaint),
            remote_build,
        ) == Err::<bool, Seq<char>>(
            "invalid update version "@ + remote_version + ": "@ + complaint,
        ),
        build_number(remote_build) matches Err(fault) ==> release_compared(
            current,
            current_build,
            remote_version,
            Ok(numbers),
            remote_build,
        ) == Err::<bool, Seq<char>>(fault),
        build_number(remote_build) is Ok ==> (build_number(current_build) matches Err(fault)
            ==> release_compared(
            current,
            current_build,
            remote_version,
            Ok(numbers),
            remote_build,
        ) == Err::<bool, Seq<char>>(fault)),
        build_number(remote_build) is Ok && build_number(current_build) is Ok ==> release_compared(
            current,
            current_build,
            remote_version,
            Ok(numbers),
            remote_build,
        ) is Ok,
{
}

/// Where both build numbers can be read, a release with a higher version is
/// newer, one with a lower version is not, and one with the same version is newer
/// exactly where its build number is higher.
pub proof fn law_releases_are_compared_by_their_numbers(
    current: CoreVersion,
    current_build: Seq<u64>,
    remote_version: Seq<char>,
    major: u64,
    minor: u64,
    patch: u64,
    remote_build: Seq<u64>,
)
    requires
        1 <= current_build.len() <= 3,
        1 <= remote_build.len() <= 3,
    ensures
        ({
            let written = |numbers: Seq<u64>|
                text::join(numbers.map_values(|n: u64| text::decimal(n as nat)), seq!['.']);
            let compared = release_compared(
                current,
                written(current_build),
                remote_version,
                Ok((major, minor, patch)),
                written(remote_build),
            );
            let higher = major > current.major || (major == current.major && (minor > current.minor
                || (minor == current.minor && patch > current.patch)));
            let same = major == current.major && minor == current.minor && patch == current.patch;
            compared == Ok::<bool, Seq<char>>(
                higher || (same && build_standing(remote_build, current_build) == Standing::Higher),
            )
        }),
{
    law_build_numbers_are_read_back(current_build);
    law_build_numbers_are_read_back(remote_build);
}

/// Two build numbers are compared by their numbers, and the complaint about the
/// left one comes first.
pub proof fn law_builds_are_compared_by_their_numbers(
    left: Seq<u64>,
    right: Seq<u64>,
    left_text: Seq<char>,
    right_text: Seq<char>,
)
    requires
        1 <= left.len() <= 3,
        1 <= right.len() <= 3,
    ensures
        builds_compared(
            text::join(left.map_values(|n: u64| text::decimal(n as nat)), seq!['.']),
            text::join(right.map_values(|n: u64| text::decimal(n as nat)), seq!['.']),
        ) == Ok::<Standing, Seq<char>>(build_standing(left, right)),
        build_number(left_text) matches Err(complaint) ==> builds_compared(left_text, right_text)
            == Err::<Standing, Seq<char>>(complaint),
        build_number(left_text) is Ok ==> (build_number(right_text) matches Err(complaint)
            ==> builds_compared(left_text, right_text) == Err::<Standing, Seq<char>>(complaint)),
{
    law_build_numbers_are_read_back(left);
    law_build_numbers_are_read_back(right);
}

/// The build number of a manifest is its text member of that name, unless that is
/// empty.
pub proof fn law_manifest_builds(members: Map<Seq<char>, json::JsonTree>, number: Seq<char>)
    ensures
        manifest_build(json::JsonTree::Table(members)) == Some(number) <==> {
            &&& members.contains_key("build_number"@)
            &&& members["build_number"@] == json::JsonTree::Text(number)
            &&& number.len() > 0
        },
{
}

/// What users read of a version holds both of its parts, the version first, and the
/// message that nothing is newer holds that, in both languages.
pub proof fn law_version_labels_hold_both_parts(version: Seq<char>, build: Seq<char>)
    ensures
        labelled_version(NativeLocale::Zh, version, build) == version + "，构建 "@ + build,
        labelled_version(NativeLocale::En, version, build) == version + ", build "@ + build,
        up_to_date(NativeLocale::Zh, version, build) == "当前已是最新版本（"@ + (version
            + "，构建 "@ + build) + "）。"@,
        up_to_date(NativeLocale::En, version, build) == "OpenHarness "@ + (version + ", build "@
            + build) + " is up to date."@,
{
}

/// What users read is made of what was handed in, and of nothing else.
pub proof fn law_made_version_labels(
    locale: NativeLocale,
    version: &str,
    build: &str,
    label: String,
    message: String,
)
    ensures
        call_ensures(version_label, (locale, version, build), label) ==> label@ == version@ + (
        if locale == NativeLocale::Zh {
            "，构建 "@
        } else {
            ", build "@
        }) + build@,
        call_ensures(version_label, (locale, version, build), label) && call_ensures(
            up_to_date_message,
            (locale, version, build),
            message,
        ) ==> message@ == (if locale == NativeLocale::Zh {
            "当前已是最新版本（"@ + label@ + "）。"@
        } else {
            "OpenHarness "@ + label@ + " is up to date."@
        }),
{
}

/// A build number is refused for its first part that is none: one that is not made of
/// digits, has a leading zero or is empty, with the text alone; one that is too large,
/// with what is wrong with it.
pub proof fn law_first_faulty_part_is_told(parts: Seq<Seq<char>>, k: int)
    requires
        0 <= k < parts.len() <= 3,
        forall|i: int| 0 <= i < parts.len() ==> !(#[trigger] parts[i]).contains('.'),
        forall|i: int|
            0 <= i < k ==> is_build_part(#[trigger] parts[i]) && text::numeral_value(parts[i])
                <= u64::MAX,
    ensures
        ({
            let value = text::join(parts, seq!['.']);
            let part = parts[k];
            let numeral = part.len() > 0 && (part.len() == 1 || part[0] != '0') && forall|i: int|
                0 <= i < part.len() ==> '0' <= #[trigger] part[i] <= '9';
            &&& !numeral ==> build_number(value) == Err::<Seq<u64>, Seq<char>>(
                "invalid build number "@ + value,
            )
            &&& numeral && text::numeral_value(part) > u64::MAX ==> build_number(value) == Err::<
                Seq<u64>,
                Seq<char>,
            >("invalid build number "@ + value + ": "@ + numeral_complaint(part))
        }),
{
    let value = text::join(parts, seq!['.']);
    let part = parts[k];
    text::law_join_split(parts, '.');
    lemma_sound_parts(value, parts, k);
    assert(parts.take(k + 1).drop_last() =~= parts.take(k));
    assert(parts.take(k + 1).last() == part);
    if is_build_part(part) {
        assert forall|i: int| 0 <= i < part.len() implies '0' <= #[trigger] part[i] <= '9' by {
            assert(text::is_digit(part[i]));
        }
    } else if part.len() > 0 && (part.len() == 1 || part[0] != '0') && forall|i: int|
        0 <= i < part.len() ==> '0' <= #[trigger] part[i] <= '9' {
        assert forall|i: int| 0 <= i < part.len() implies text::is_digit(#[trigger] part[i]) by {
        }
        assert(is_build_part(part));
    }
    if build_parts(value, parts.take(k + 1)) is Err {
        lemma_first_complaint_stays(value, parts, k + 1);
    }
}

proof fn lemma_sound_parts(value: Seq<char>, parts: Seq<Seq<char>>, k: int)
    requires
        0 <= k <= parts.len(),
        forall|i: int|
            0 <= i < k ==> is_build_part(#[trigger] parts[i]) && text::numeral_value(parts[i])
                <= u64::MAX,
    ensures
        build_parts(value, parts.take(k)) is Ok,
    decreases k,
{
    if k > 0 {
        lemma_sound_parts(value, parts, k - 1);
        assert(parts.take(k).drop_last() =~= parts.take(k - 1));
        assert(parts.take(k).last() == parts[k - 1]);
    }
}

/// What was read of a version or a build number is what the reader found.
pub proof fn law_contents_of_readings(found: CoreVersion, numbers: Vec<u64>, complaint: String)
    ensures
        read_version(Ok(found)) == Ok::<(u64, u64, u64), Seq<char>>(
            (found.major, found.minor, found.patch),
        ),
        read_version(Err(complaint)) == Err::<(u64, u64, u64), Seq<char>>(complaint@),
        read_build(Ok(numbers)) == Ok::<Seq<u64>, Seq<char>>(numbers@),
        read_build(Err(complaint)) == Err::<Seq<u64>, Seq<char>>(complaint@),
{
}

/// Versions compare by their numbers: the major ones first, then the minor ones, then
/// the patch numbers, each as a number.
pub proof fn law_compared_versions(left: &CoreVersion, right: &CoreVersion, ordering: Ordering)
    requires
        call_ensures(compare_core_versions, (left, right), ordering),
    ensures
        left.major > right.major ==> ordering == Ordering::Greater,
        left.major < right.major ==> ordering == Ordering::Less,
        left.major == right.major && left.minor > right.minor ==> ordering == Ordering::Greater,
        left.major == right.major && left.minor < right.minor ==> ordering == Ordering::Less,
        left.major == right.major && left.minor == right.minor && left.patch > right.patch
            ==> ordering == Ordering::Greater,
        left.major == right.major && left.minor == right.minor && left.patch < right.patch
            ==> ordering == Ordering::Less,
        left.major == right.major && left.minor == right.minor && left.patch == right.patch
            ==> ordering == Ordering::Equal,
{
}

/// A release is a candidate unless one of its numbers is lower, and all before that
/// one are the same.
pub proof fn law_release_candidates(release: &CoreVersion, current: &CoreVersion, candidate: bool)
    requires
        call_ensures(is_release_candidate, (release, current), candidate),
    ensures
        candidate == (release.major > current.major || (release.major == current.major && (
        release.minor > current.minor || (release.minor == current.minor && release.patch
            >= current.patch)))),
{
}

/// A release with a version that was read is newer exactly where its three numbers
/// are higher, or they are the same and the first part in which the build numbers
/// differ is higher. Both build numbers are given as they are written.
pub proof fn law_newer_releases(
    current: &CoreVersion,
    current_build: &str,
    current_numbers: Seq<u64>,
    remote_text: &str,
    remote: CoreVersion,
    remote_build: &str,
    remote_numbers: Seq<u64>,
    newer: Result<bool, String>,
)
    requires
        call_ensures(
            is_parsed_update_newer,
            (current, current_build, remote_text, Ok(remote), remote_build),
            newer,
        ),
        1 <= current_numbers.len() <= 3,
        1 <= remote_numbers.len() <= 3,
        current_build@ == text::join(
            current_numbers.map_values(|n: u64| text::decimal(n as nat)),
            seq!['.'],
        ),
        remote_build@ == text::join(
            remote_numbers.map_values(|n: u64| text::decimal(n as nat)),
            seq!['.'],
        ),
    ensures
        newer is Ok,
        remote.major > current.major ==> newer->Ok_0,
        remote.major < current.major ==> !newer->Ok_0,
        remote.major == current.major && remote.minor > current.minor ==> newer->Ok_0,
        remote.major == current.major && remote.minor < current.minor ==> !newer->Ok_0,
        remote.major == current.major && remote.minor == current.minor && remote.patch
            > current.patch ==> newer->Ok_0,
        remote.major == current.major && remote.minor == current.minor && remote.patch
            < current.patch ==> !newer->Ok_0,
        remote == *current ==> newer->Ok_0 == (exists|k: int|
            {
                &&& 0 <= k < remote_numbers.len()
                &&& #[trigger] remote_numbers[k] > (if k < current_numbers.len() {
                    current_numbers[k]
                } else {
                    0
                })
                &&& forall|i: int|
                    0 <= i < k ==> #[trigger] remote_numbers[i] == (if i < current_numbers.len() {
                        current_numbers[i]
                    } else {
                        0
                    })
            }),
{
    law_build_numbers_are_read_back(current_numbers);
    law_build_numbers_are_read_back(remote_numbers);
    law_builds_are_ordered_by_their_first_difference(remote_numbers, current_numbers);
}

/// A build number is read exactly where the text is one to three numbers of 64 bits in
/// decimal, with dots between them.
pub proof fn law_parsed_build_numbers(value: &str, parsed: Result<Vec<u64>, String>, numbers: Seq<u64>)
    requires
        call_ensures(parse_build_number, (value,), parsed),
    ensures
        (parsed is Ok && parsed->Ok_0@ == numbers) <==> {
            &&& 1 <= numbers.len() <= 3
            &&& value@ == text::join(
                numbers.map_values(|n: u64| text::decimal(n as nat)),
                seq!['.'],
            )
        },
        parsed matches Err(complaint) ==> text::starts_with(
            complaint@,
            "invalid build number "@ + value@,
        ),
{
    law_build_numbers_are_decimals(value@, numbers);
}

/// The build number of an application is what is left of the given text without the
/// white space around it; a text that is missing or blank, one that is no build number
/// and one that is all zeros are refused, each with its own complaint.
pub proof fn law_validated_build_numbers(
    value: Option<&str>,
    validated: Result<String, String>,
    numbers: Seq<u64>,
)
    requires
        call_ensures(validated_build_number, (value,), validated),
    ensures
        value is None || text::trim(value->0@).len() == 0 ==> validated is Err
            && validated->Err_0@ == "application bundle is missing a build number"@,
        value is Some && text::trim(value->0@).len() > 0 && build_number(text::trim(value->0@))
            == Ok::<Seq<u64>, Seq<char>>(numbers) ==> {
            let positive = exists|i: int| 0 <= i < numbers.len() && #[trigger] numbers[i] > 0;
            &&& positive ==> validated is Ok && validated->Ok_0@ == text::trim(value->0@)
            &&& !positive ==> validated is Err && validated->Err_0@
                == "application build number must be positive"@
        },
        value is Some && text::trim(value->0@).len() > 0 && build_number(text::trim(value->0@))
            is Err ==> validated is Err && validated->Err_0@ == build_number(
            text::trim(value->0@),
        )->Err_0,
{
    if value is Some && text::trim(value->0@).len() > 0 && build_number(text::trim(value->0@))
        == Ok::<Seq<u64>, Seq<char>>(numbers) {
        law_bundle_builds_are_positive(value->0@, numbers);
    }
}

/// The build number that the application was built with counts before the configured
/// one; that of a bundle has to be there and be UTF-8.
pub proof fn law_sources_of_the_build_number(
    built_with: Option<&str>,
    configured: Option<&str>,
    installed: Result<String, String>,
    bundled: Result<String, String>,
    reported: &BundleVersion,
)
    ensures
        call_ensures(installed_build_number, (built_with, configured), installed) ==> {
            let used = if built_with is Some {
                built_with
            } else {
                configured
            };
            match bundle_build(text::opt_str(used)) {
                Ok(number) => installed is Ok && installed->Ok_0@ == number,
                Err(complaint) => installed is Err && installed->Err_0@ == complaint,
            }
        },
        call_ensures(bundled_build_number, (reported,), bundled) ==> {
            &&& *reported is Missing ==> bundled is Err && bundled->Err_0@
                == "application bundle is missing CFBundleVersion"@
            &&& *reported matches BundleVersion::NotUtf8 { complaint } ==> bundled is Err
                && bundled->Err_0@ == "application CFBundleVersion is not valid UTF-8: "@
                + complaint@
            &&& *reported matches BundleVersion::Present { value } ==> match bundle_build(
                Some(value@),
            ) {
                Ok(number) => bundled is Ok && bundled->Ok_0@ == number,
                Err(complaint) => bundled is Err && bundled->Err_0@ == complaint,
            }
        },
{
}

/// A release is compared by what was read of its version: a version that cannot be
/// read is refused with the text and the cause, and one that can be read counts by its
/// three numbers first.
pub proof fn law_remote_releases(
    current: &CoreVersion,
    current_build: &str,
    remote_text: &str,
    remote_build: &str,
    newer: Result<bool, String>,
)
    requires
        call_ensures(
            is_remote_update_newer,
            (current, current_build, remote_text, remote_build),
            newer,
        ),
    ensures
        version_reading(remote_text@) matches Err(cause) ==> newer is Err && newer->Err_0@
            == "invalid update version "@ + remote_text@ + ": "@ + cause,
        version_reading(remote_text@) matches Ok((major, minor, patch)) ==> (newer matches Ok(yes)
            ==> {
            &&& major > current.major ==> yes
            &&& major < current.major ==> !yes
            &&& major == current.major && minor > current.minor ==> yes
            &&& major == current.major && minor < current.minor ==> !yes
            &&& major == current.major && minor == current.minor && patch > current.patch ==> yes
            &&& major == current.major && minor == current.minor && patch < current.patch ==> !yes
        }),
        version_reading(remote_text@) is Ok ==> (newer is Ok) == (build_number(current_build@) is Ok
            && build_number(remote_build@) is Ok),
{
}

} // verus!
