//! Text as sequences of characters: classification, trimming, splitting,
//! joining, searching, truncation and decimal numerals.

use vstd::prelude::*;

verus! {

/// `String::push` appends the given character to the end of the string.
pub assume_specification[ String::push ](string: &mut String, c: char)
    ensures
        final(string)@ == old(string)@.push(c),
;

// ---------------------------------------------------------------------------
// Characters
// ---------------------------------------------------------------------------

/// The characters with Unicode's White_Space property.
pub open spec fn is_white_space(c: char) -> bool {
    ||| '\u{9}' <= c <= '\u{d}'
    ||| c == ' '
    ||| c == '\u{85}'
    ||| c == '\u{a0}'
    ||| c == '\u{1680}'
    ||| '\u{2000}' <= c <= '\u{200a}'
    ||| c == '\u{2028}'
    ||| c == '\u{2029}'
    ||| c == '\u{202f}'
    ||| c == '\u{205f}'
    ||| c == '\u{3000}'
}

/// The characters of Unicode's general category Cc.
pub open spec fn is_control(c: char) -> bool {
    c <= '\u{1f}' || '\u{7f}' <= c <= '\u{9f}'
}

/// Whether `c` is white space.
pub fn white_space(c: char) -> (yes: bool)
    ensures
        yes == is_white_space(c),
{
    ('\u{9}' <= c && c <= '\u{d}') || c == ' ' || c == '\u{85}' || c == '\u{a0}' || c == '\u{1680}'
        || ('\u{2000}' <= c && c <= '\u{200a}') || c == '\u{2028}' || c == '\u{2029}' || c
        == '\u{202f}' || c == '\u{205f}' || c == '\u{3000}'
}

/// Whether `c` is a control character.
pub fn control(c: char) -> (yes: bool)
    ensures
        yes == is_control(c),
{
    c <= '\u{1f}' || ('\u{7f}' <= c && c <= '\u{9f}')
}

// ---------------------------------------------------------------------------
// Between `str`, `String` and character sequences
// ---------------------------------------------------------------------------

/// The characters of `text`, in order.
pub fn chars_of(text: &str) -> (chars: Vec<char>)
    ensures
        chars@ == text@,
{
    let mut chars: Vec<char> = Vec::new();
    for c in it: text.chars()
        invariant
            chars@ == text@.take(it.index() as int),
            it.seq() == text@,
    {
        chars.push(c);
    }
    chars
}

/// The text made of the characters from `from` up to, not including, `to`.
pub fn text_between(chars: &Vec<char>, from: usize, to: usize) -> (text: String)
    requires
        from <= to <= chars@.len(),
    ensures
        text@ == chars@.subrange(from as int, to as int),
{
    let mut text = String::new();
    let mut i: usize = from;
    while i < to
        invariant
            from <= i <= to <= chars@.len(),
            text@ == chars@.subrange(from as int, i as int),
        decreases to - i,
    {
        text.push(chars[i]);
        i = i + 1;
    }
    text
}

/// The contents of an optional text.
pub open spec fn opt_view(text: Option<String>) -> Option<Seq<char>> {
    match text {
        Some(text) => Some(text@),
        None => None,
    }
}

/// The contents of an optional borrowed text.
pub open spec fn opt_str(text: Option<&str>) -> Option<Seq<char>> {
    match text {
        Some(text) => Some(text@),
        None => None,
    }
}

/// Whether two texts are the same.
pub fn same_text(a: &str, b: &str) -> (same: bool)
    ensures
        same == (a@ == b@),
{
    let left = chars_of(a);
    let right = chars_of(b);
    if left.len() != right.len() {
        return false;
    }
    let mut i: usize = 0;
    while i < left.len()
        invariant
            i <= left@.len(),
            left@ == a@,
            right@ == b@,
            left@.len() == right@.len(),
            left@.take(i as int) == right@.take(i as int),
        decreases left@.len() - i,
    {
        if left[i] != right[i] {
            return false;
        }
        i = i + 1;
    }
    assert(left@.take(i as int) == left@);
    assert(right@.take(i as int) == right@);
    true
}

// ---------------------------------------------------------------------------
// Trimming
// ---------------------------------------------------------------------------

/// `s` without its leading white space.
pub open spec fn trim_start(s: Seq<char>) -> Seq<char>
    decreases s.len(),
{
    if s.len() > 0 && is_white_space(s[0]) {
        trim_start(s.skip(1))
    } else {
        s
    }
}

/// `s` without its trailing white space.
pub open spec fn trim_end(s: Seq<char>) -> Seq<char>
    decreases s.len(),
{
    if s.len() > 0 && is_white_space(s.last()) {
        trim_end(s.drop_last())
    } else {
        s
    }
}

/// `s` without its leading and trailing white space.
pub open spec fn trim(s: Seq<char>) -> Seq<char> {
    trim_end(trim_start(s))
}

/// The text without its trailing white space.
pub fn trimmed_end(text: &str) -> (trimmed: String)
    ensures
        trimmed@ == trim_end(text@),
{
    let chars = chars_of(text);
    let mut end: usize = chars.len();
    proof {
        assert(chars@.take(end as int) == chars@);
    }
    while end > 0 && white_space(chars[end - 1])
        invariant
            end <= chars@.len(),
            trim_end(chars@.take(end as int)) == trim_end(chars@),
        decreases end,
    {
        assert(chars@.take(end as int).drop_last() == chars@.take(end - 1));
        end = end - 1;
    }
    text_between(&chars, 0, end)
}

/// The text without its leading and trailing white space.
pub fn trimmed(text: &str) -> (trimmed: String)
    ensures
        trimmed@ == trim(text@),
{
    let chars = chars_of(text);
    let mut start: usize = 0;
    proof {
        assert(chars@.skip(0) == chars@);
    }
    while start < chars.len() && white_space(chars[start])
        invariant
            start <= chars@.len(),
            trim_start(chars@.skip(start as int)) == trim_start(chars@),
        decreases chars@.len() - start,
    {
        assert(chars@.skip(start as int).skip(1) == chars@.skip(start + 1));
        start = start + 1;
    }
    let rest = text_between(&chars, start, chars.len());
    assert(rest@ == chars@.skip(start as int));
    trimmed_end(rest.as_str())
}

/// Trimming leaves no white space at either end, and trimming again changes
/// nothing.
pub proof fn law_trim_is_idempotent(s: Seq<char>)
    ensures
        trim(s).len() > 0 ==> !is_white_space(trim(s)[0]) && !is_white_space(trim(s).last()),
        trim(trim(s)) == trim(s),
{
    lemma_trim_start(s);
    lemma_trim_end(trim_start(s));
    let t = trim(s);
    if t.len() > 0 {
        assert(t[0] == trim_start(s)[0]);
    }
}

proof fn lemma_trim_start(s: Seq<char>)
    ensures
        trim_start(s).len() > 0 ==> !is_white_space(trim_start(s)[0]),
    decreases s.len(),
{
    if s.len() > 0 && is_white_space(s[0]) {
        lemma_trim_start(s.skip(1));
    }
}

/// The trimmed text is a prefix that does not end in white space; what follows it
/// is white space.
pub proof fn lemma_trim_end(s: Seq<char>)
    ensures
        trim_end(s).len() <= s.len(),
        trim_end(s) == s.take(trim_end(s).len() as int),
        trim_end(s).len() > 0 ==> !is_white_space(trim_end(s).last()),
        forall|i: int| trim_end(s).len() <= i < s.len() ==> is_white_space(#[trigger] s[i]),
    decreases s.len(),
{
    if s.len() > 0 && is_white_space(s.last()) {
        let init = s.drop_last();
        lemma_trim_end(init);
        let n = trim_end(s).len() as int;
        assert(init.take(n) == s.take(n));
        assert forall|i: int| n <= i < s.len() implies is_white_space(#[trigger] s[i]) by {
            if i < init.len() {
                assert(init[i] == s[i]);
            }
        }
    } else {
        assert(s.take(s.len() as int) == s);
    }
}

// ---------------------------------------------------------------------------
// Splitting and joining
// ---------------------------------------------------------------------------

/// The parts of `s` between the occurrences of `sep`: one more than there are
/// occurrences, possibly empty.
pub open spec fn split_on<T>(s: Seq<T>, sep: T) -> Seq<Seq<T>>
    decreases s.len(),
{
    if s.len() == 0 {
        seq![Seq::empty()]
    } else {
        let parts = split_on(s.drop_last(), sep);
        if s.last() == sep {
            parts.push(Seq::empty())
        } else {
            parts.drop_last().push(parts.last().push(s.last()))
        }
    }
}

/// The maximal runs of characters that are not white space.
pub open spec fn words(s: Seq<char>) -> Seq<Seq<char>>
    decreases s.len(),
{
    if s.len() == 0 {
        Seq::empty()
    } else {
        let found = words(s.drop_last());
        if is_white_space(s.last()) {
            found
        } else if s.len() > 1 && !is_white_space(s[s.len() - 2]) {
            found.drop_last().push(found.last().push(s.last()))
        } else {
            found.push(seq![s.last()])
        }
    }
}

/// The parts one after another, with `sep` between neighbours.
pub open spec fn join<T>(parts: Seq<Seq<T>>, sep: Seq<T>) -> Seq<T>
    decreases parts.len(),
{
    if parts.len() == 0 {
        Seq::empty()
    } else if parts.len() == 1 {
        parts[0]
    } else {
        join(parts.drop_last(), sep) + sep + parts.last()
    }
}

/// The contents of each of the texts.
pub open spec fn views(texts: Seq<String>) -> Seq<Seq<char>> {
    texts.map_values(|text: String| text@)
}

/// The texts between the occurrences of `sep`.
pub fn split_text(text: &str, sep: char) -> (parts: Vec<String>)
    ensures
        views(parts@) == split_on(text@, sep),
{
    let mut parts: Vec<String> = Vec::new();
    let mut part = String::new();
    for c in it: text.chars()
        invariant
            it.seq() == text@,
            views(parts@).push(part@) == split_on(text@.take(it.index() as int), sep),
    {
        proof {
            let n = it.index() as int;
            assert(text@.take(n + 1).drop_last() == text@.take(n));
            assert(views(parts@).push(part@).drop_last() == views(parts@));
        }
        if c == sep {
            let ghost before = parts@;
            let ghost last = part;
            parts.push(part);
            part = String::new();
            assert(views(parts@) == views(before).push(last@));
        } else {
            part.push(c);
        }
    }
    let ghost before = parts@;
    let ghost last = part;
    parts.push(part);
    proof {
        assert(views(parts@) == views(before).push(last@));
        assert(text@.take(text@.len() as int) == text@);
    }
    parts
}

/// The words of the text.
pub fn words_of(text: &str) -> (found: Vec<String>)
    ensures
        views(found@) == words(text@),
{
    let mut found: Vec<String> = Vec::new();
    let mut word = String::new();
    for c in it: text.chars()
        invariant
            it.seq() == text@,
            ({
                let done = text@.take(it.index() as int);
                let open = done.len() > 0 && !is_white_space(done.last());
                if open {
                    word@.len() > 0 && views(found@).push(word@) == words(done)
                } else {
                    word@.len() == 0 && views(found@) == words(done)
                }
            }),
    {
        proof {
            let n = it.index() as int;
            assert(text@.take(n + 1).drop_last() == text@.take(n));
            assert(views(found@).push(word@).drop_last() == views(found@));
        }
        if white_space(c) {
            if !word.as_str().is_empty() {
                let ghost before = found@;
                let ghost last = word;
                found.push(word);
                word = String::new();
                assert(views(found@) == views(before).push(last@));
            }
        } else {
            let ghost before = word@;
            word.push(c);
            proof {
                if before.len() == 0 {
                    assert(word@ == seq![c]);
                }
            }
        }
    }
    assert(text@.take(text@.len() as int) == text@);
    if !word.as_str().is_empty() {
        let ghost before = found@;
        let ghost last = word;
        found.push(word);
        assert(views(found@) == views(before).push(last@));
    }
    found
}

/// The texts one after another, with `sep` between neighbours.
pub fn joined(parts: &Vec<String>, sep: &str) -> (text: String)
    ensures
        text@ == join(views(parts@), sep@),
{
    let mut text = String::new();
    let mut i: usize = 0;
    while i < parts.len()
        invariant
            i <= parts@.len(),
            text@ == join(views(parts@).take(i as int), sep@),
        decreases parts@.len() - i,
    {
        proof {
            assert(views(parts@).take(i + 1).drop_last() == views(parts@).take(i as int));
            assert(views(parts@)[i as int] == parts@[i as int]@);
        }
        if i > 0 {
            text.append(sep);
        } else {
            assert(text@ + parts@[0]@ == parts@[0]@);
        }
        text.append(parts[i].as_str());
        i = i + 1;
    }
    assert(views(parts@).take(i as int) == views(parts@));
    text
}

/// Splitting loses nothing: no part holds the separator, and joining the parts
/// with the separator gives the sequence back.
pub proof fn law_split_join<T>(s: Seq<T>, sep: T)
    ensures
        split_on(s, sep).len() > 0,
        forall|i: int|
            0 <= i < split_on(s, sep).len() ==> !(#[trigger] split_on(s, sep)[i]).contains(sep),
        join(split_on(s, sep), seq![sep]) == s,
    decreases s.len(),
{
    if s.len() > 0 {
        let init = s.drop_last();
        law_split_join(init, sep);
        let parts = split_on(init, sep);
        if s.last() == sep {
            let all = parts.push(Seq::empty());
            assert(all.drop_last() == parts);
            assert(join(all, seq![sep]) == join(parts, seq![sep]) + seq![sep] + Seq::<T>::empty());
            assert(join(all, seq![sep]) == s);
        } else {
            let grown = parts.last().push(s.last());
            let all = parts.drop_last().push(grown);
            assert forall|i: int| 0 <= i < all.len() implies !(#[trigger] all[i]).contains(sep) by {
                if i < all.len() - 1 {
                    assert(all[i] == parts[i]);
                } else {
                    assert(!parts[parts.len() - 1].contains(sep));
                    assert forall|k: int| 0 <= k < grown.len() implies grown[k] != sep by {
                        if k < grown.len() - 1 {
                            assert(grown[k] == parts.last()[k]);
                            assert(parts.last().contains(parts.last()[k]));
                        }
                    }
                }
            }
            assert(all.drop_last() == parts.drop_last());
            if parts.len() == 1 {
                assert(join(all, seq![sep]) == grown);
                assert(grown == s);
            } else {
                assert(join(all, seq![sep]) == join(parts.drop_last(), seq![sep]) + seq![sep] + grown);
                let head = join(parts.drop_last(), seq![sep]) + seq![sep];
                assert(head + parts.last() == init);
                assert(head + grown == (head + parts.last()).push(s.last()));
                assert(init.push(s.last()) == s);
            }
        }
    }
}

/// Joining loses nothing either: parts that do not hold the separator are what
/// splitting the joined sequence gives.
pub proof fn law_join_split<T>(parts: Seq<Seq<T>>, sep: T)
    requires
        parts.len() > 0,
        forall|i: int| 0 <= i < parts.len() ==> !(#[trigger] parts[i]).contains(sep),
    ensures
        split_on(join(parts, seq![sep]), sep) == parts,
    decreases parts.len(),
{
    if parts.len() == 1 {
        lemma_one_part(parts[0], sep);
        assert(parts == seq![parts[0]]);
    } else {
        let init = parts.drop_last();
        assert forall|i: int| 0 <= i < init.len() implies !(#[trigger] init[i]).contains(sep) by {
            assert(init[i] == parts[i]);
        }
        law_join_split(init, sep);
        lemma_last_part(join(init, seq![sep]), sep, parts.last());
        assert(parts == init.push(parts.last()));
    }
}

/// A sequence without the separator is its only part.
pub proof fn lemma_one_part<T>(s: Seq<T>, sep: T)
    requires
        !s.contains(sep),
    ensures
        split_on(s, sep) == seq![s],
    decreases s.len(),
{
    if s.len() > 0 {
        let init = s.drop_last();
        assert forall|i: int| 0 <= i < init.len() implies init[i] != sep by {
            assert(s.contains(s[i]));
        }
        assert(s.contains(s.last()));
        lemma_one_part(init, sep);
        assert(init.push(s.last()) == s);
        assert(split_on(s, sep) == seq![s]);
    } else {
        assert(s == Seq::<T>::empty());
    }
}

/// What follows the last separator is the last part.
proof fn lemma_last_part<T>(s: Seq<T>, sep: T, tail: Seq<T>)
    requires
        !tail.contains(sep),
    ensures
        split_on(s + seq![sep] + tail, sep) == split_on(s, sep).push(tail),
    decreases tail.len(),
{
    let whole = s + seq![sep] + tail;
    if tail.len() == 0 {
        assert(whole.drop_last() == s);
        assert(tail == Seq::<T>::empty());
    } else {
        let init = tail.drop_last();
        assert forall|i: int| 0 <= i < init.len() implies init[i] != sep by {
            assert(tail.contains(tail[i]));
        }
        assert(tail.contains(tail.last()));
        lemma_last_part(s, sep, init);
        assert(whole.drop_last() == s + seq![sep] + init);
        let parts = split_on(s, sep).push(init);
        assert(parts.drop_last() == split_on(s, sep));
        assert(init.push(tail.last()) == tail);
    }
}

/// White space at the end adds no words.
pub proof fn lemma_words_of_trimmed(s: Seq<char>)
    ensures
        words(trim_end(s)) == words(s),
    decreases s.len(),
{
    if s.len() > 0 && is_white_space(s.last()) {
        lemma_words_of_trimmed(s.drop_last());
    }
}

/// Every word is non-empty and free of white space.
pub proof fn law_words_are_clean(s: Seq<char>)
    ensures
        s.len() > 0 && !is_white_space(s.last()) ==> words(s).len() > 0,
        forall|i: int| 0 <= i < words(s).len() ==> (#[trigger] words(s)[i]).len() > 0,
        forall|i: int, k: int|
            0 <= i < words(s).len() && 0 <= k < words(s)[i].len() ==> !is_white_space(
                #[trigger] words(s)[i][k],
            ),
    decreases s.len(),
{
    if s.len() > 0 {
        let init = s.drop_last();
        law_words_are_clean(init);
        let found = words(init);
        let all = words(s);
        if !is_white_space(s.last()) && s.len() > 1 && !is_white_space(s[s.len() - 2]) {
            assert(init.last() == s[s.len() - 2]);
            assert forall|i: int, k: int|
                0 <= i < all.len() && 0 <= k < all[i].len() implies !is_white_space(
                #[trigger] all[i][k],
            ) by {
                if i < all.len() - 1 {
                    assert(all[i] == found[i]);
                    assert(!is_white_space(found[i][k]));
                } else if k < all[i].len() - 1 {
                    assert(all[i][k] == found[found.len() - 1][k]);
                }
            }
        }
    }
}

// ---------------------------------------------------------------------------
// Searching
// ---------------------------------------------------------------------------

/// Whether `s` starts with `prefix`.
pub open spec fn starts_with<T>(s: Seq<T>, prefix: Seq<T>) -> bool {
    prefix.len() <= s.len() && s.take(prefix.len() as int) == prefix
}

/// Where `pattern` first occurs in `s`, at `from` or later.
pub open spec fn find_from(s: Seq<char>, pattern: Seq<char>, from: int) -> Option<int>
    decreases s.len() + 1 - from,
{
    if from < 0 || from + pattern.len() > s.len() {
        None
    } else if s.subrange(from, from + pattern.len()) == pattern {
        Some(from)
    } else {
        find_from(s, pattern, from + 1)
    }
}

/// Whether `pattern` occurs in `s`.
pub open spec fn contains_text(s: Seq<char>, pattern: Seq<char>) -> bool {
    exists|i: int| #[trigger] occurs_at(s, pattern, i)
}

/// Whether `pattern` occurs in `s` at `i`.
pub open spec fn occurs_at(s: Seq<char>, pattern: Seq<char>, i: int) -> bool {
    0 <= i && i + pattern.len() <= s.len() && s.subrange(i, i + pattern.len()) == pattern
}

/// The search finds the first occurrence if there is one.
pub proof fn lemma_find_from(s: Seq<char>, pattern: Seq<char>, from: int)
    requires
        0 <= from,
    ensures
        match find_from(s, pattern, from) {
            Some(i) => from <= i && occurs_at(s, pattern, i) && forall|j: int|
                from <= j < i ==> !occurs_at(s, pattern, j),
            None => forall|j: int| from <= j ==> !occurs_at(s, pattern, j),
        },
    decreases s.len() + 1 - from,
{
    if from + pattern.len() <= s.len() && s.subrange(from, from + pattern.len()) != pattern {
        lemma_find_from(s, pattern, from + 1);
    }
}

/// Whether the characters from `at` on start with `pattern`.
fn matches_at(chars: &Vec<char>, pattern: &Vec<char>, at: usize) -> (yes: bool)
    requires
        at + pattern@.len() <= chars@.len(),
    ensures
        yes == (chars@.subrange(at as int, at + pattern@.len()) == pattern@),
{
    let count = chars.len();
    let mut k: usize = 0;
    while k < pattern.len()
        invariant
            count == chars@.len(),
            k <= pattern@.len(),
            at + pattern@.len() <= chars@.len(),
            forall|j: int| 0 <= j < k ==> chars@[at + j] == pattern@[j],
        decreases pattern@.len() - k,
    {
        if chars[at + k] != pattern[k] {
            assert(chars@.subrange(at as int, at + pattern@.len())[k as int] != pattern@[k as int]);
            return false;
        }
        k = k + 1;
    }
    assert(chars@.subrange(at as int, at + pattern@.len()) =~= pattern@);
    true
}

/// Where `pattern` first occurs among the characters.
pub fn find_chars(chars: &Vec<char>, pattern: &str) -> (found: Option<usize>)
    ensures
        match found {
            Some(i) => find_from(chars@, pattern@, 0) == Some(i as int),
            None => find_from(chars@, pattern@, 0) is None,
        },
{
    let pattern_chars = chars_of(pattern);
    let mut i: usize = 0;
    while i <= chars.len() && pattern_chars.len() <= chars.len() - i
        invariant
            i <= chars@.len() + 1,
            pattern_chars@ == pattern@,
            find_from(chars@, pattern@, 0) == find_from(chars@, pattern@, i as int),
        decreases chars@.len() + 1 - i,
    {
        if matches_at(chars, &pattern_chars, i) {
            return Some(i);
        }
        if i == chars.len() {
            assert(find_from(chars@, pattern@, i + 1) is None);
            return None;
        }
        i = i + 1;
    }
    None
}

/// Whether `pattern` occurs in the text.
pub fn has_text(text: &str, pattern: &str) -> (yes: bool)
    ensures
        yes == contains_text(text@, pattern@),
{
    let chars = chars_of(text);
    proof {
        lemma_find_from(text@, pattern@, 0);
    }
    match find_chars(&chars, pattern) {
        Some(_) => true,
        None => {
            assert forall|i: int| !(#[trigger] occurs_at(text@, pattern@, i)) by {
                if 0 <= i {
                }
            }
            false
        },
    }
}

/// What follows `prefix`, if the text starts with it.
pub fn text_after(text: &str, prefix: &str) -> (rest: Option<String>)
    ensures
        match rest {
            Some(rest) => starts_with(text@, prefix@) && rest@ == text@.skip(prefix@.len() as int),
            None => !starts_with(text@, prefix@),
        },
{
    let chars = chars_of(text);
    let prefix_chars = chars_of(prefix);
    if prefix_chars.len() <= chars.len() && matches_at(&chars, &prefix_chars, 0) {
        assert(text@.take(prefix@.len() as int) == prefix@);
        let rest = text_between(&chars, prefix_chars.len(), chars.len());
        assert(rest@ == text@.skip(prefix@.len() as int));
        Some(rest)
    } else {
        proof {
            if starts_with(text@, prefix@) {
                assert(text@.subrange(0, prefix@.len() as int) == prefix@);
            }
        }
        None
    }
}

// ---------------------------------------------------------------------------
// Truncation
// ---------------------------------------------------------------------------

/// `s` where it has at most `limit` characters; its first `kept` characters and
/// `suffix` where it has more.
pub open spec fn shorten(s: Seq<char>, limit: nat, kept: nat, suffix: Seq<char>) -> Seq<char> {
    if s.len() <= limit {
        s
    } else {
        s.take(kept as int) + suffix
    }
}

/// The text, shortened where it is longer than `limit` characters.
pub fn shortened(text: &str, limit: usize, kept: usize, suffix: &str) -> (short: String)
    requires
        kept <= limit,
    ensures
        short@ == shorten(text@, limit as nat, kept as nat, suffix@),
{
    let chars = chars_of(text);
    if chars.len() <= limit {
        return text.to_owned();
    }
    let mut short = text_between(&chars, 0, kept);
    short.append(suffix);
    short
}

// ---------------------------------------------------------------------------
// Decimal numerals
// ---------------------------------------------------------------------------

/// The decimal digit of `d`.
pub open spec fn digit_char(d: nat) -> char {
    ((48 + d) as u8) as char
}

/// Whether `c` is an ASCII decimal digit.
pub open spec fn is_digit(c: char) -> bool {
    '0' <= c <= '9'
}

/// The decimal numeral of `n`, without leading zeros.
pub open spec fn decimal(n: nat) -> Seq<char>
    decreases n,
{
    if n < 10 {
        seq![digit_char(n)]
    } else {
        decimal(n / 10).push(digit_char(n % 10))
    }
}

/// The number that a string of decimal digits stands for.
pub open spec fn numeral_value(s: Seq<char>) -> nat
    decreases s.len(),
{
    if s.len() == 0 {
        0
    } else {
        numeral_value(s.drop_last()) * 10 + (s.last() as nat - 48) as nat
    }
}

/// The decimal numeral of `n`.
pub fn decimal_text(n: u64) -> (text: String)
    ensures
        text@ == decimal(n as nat),
    decreases n,
{
    let digit: char = (48u8 + (n % 10) as u8) as char;
    if n < 10 {
        let mut text = String::new();
        text.push(digit);
        assert(text@ == decimal(n as nat));
        text
    } else {
        let mut text = decimal_text(n / 10);
        text.push(digit);
        text
    }
}

/// A numeral is made of digits, does not start with a zero unless it is that of
/// zero, and stands for the number that it was made of.
pub proof fn law_decimal_round_trip(n: nat)
    ensures
        decimal(n).len() > 0,
        forall|i: int| 0 <= i < decimal(n).len() ==> is_digit(#[trigger] decimal(n)[i]),
        n > 0 ==> decimal(n)[0] != '0',
        numeral_value(decimal(n)) == n,
    decreases n,
{
    if n < 10 {
        assert(decimal(n).drop_last() == Seq::<char>::empty());
        assert(numeral_value(Seq::<char>::empty()) == 0);
    } else {
        law_decimal_round_trip(n / 10);
        assert(decimal(n).drop_last() == decimal(n / 10));
        assert(decimal(n)[0] == decimal(n / 10)[0]);
    }
}

/// White space and control characters by their code points.
pub proof fn law_special_characters(c: char)
    ensures
        is_white_space(c) == (9 <= c as int <= 13 || c as int == 32 || c as int == 133 || c as int
            == 160 || c as int == 5760 || 8192 <= c as int <= 8202 || c as int == 8232 || c as int
            == 8233 || c as int == 8239 || c as int == 8287 || c as int == 12288),
        is_control(c) == (c as int <= 31 || 127 <= c as int <= 159),
        is_digit(c) == (48 <= c as int <= 57),
{
}

/// A numeral without a leading zero is the decimal one of its value, and each
/// further digit counts ten times what is before it plus itself.
pub proof fn law_numerals_are_decimals(s: Seq<char>)
    requires
        s.len() > 0,
        forall|i: int| 0 <= i < s.len() ==> '0' <= #[trigger] s[i] <= '9',
        s.len() > 1 ==> s[0] != '0',
    ensures
        decimal(numeral_value(s)) == s,
        numeral_value(s) == 10 * numeral_value(s.drop_last()) + (s.last() as nat - '0' as nat),
        numeral_value(Seq::<char>::empty()) == 0,
    decreases s.len(),
{
    let init = s.drop_last();
    let digit = (s.last() as nat - 48) as nat;
    assert('0' <= s[s.len() - 1] <= '9');
    if s.len() == 1 {
        assert(init == Seq::<char>::empty());
        assert(numeral_value(init) == 0);
        assert(numeral_value(s) == digit);
        assert(s =~= seq![digit_char(digit)]);
    } else {
        assert forall|i: int| 0 <= i < init.len() implies '0' <= #[trigger] init[i] <= '9' by {
            assert(init[i] == s[i]);
        }
        law_numerals_are_decimals(init);
        assert(init[0] == s[0]);
        assert(numeral_value(init) > 0) by {
            if numeral_value(init) == 0 {
                assert(decimal(0) == seq![digit_char(0)]);
                assert(init[0] == '0');
            }
        }
        let n = numeral_value(s);
        assert(n >= 10);
        assert(n / 10 == numeral_value(init));
        assert(n % 10 == digit);
        assert(digit_char(digit) == s.last());
        assert(decimal(n) =~= init.push(s.last()));
    }
}

/// Trimming takes white space off the ends and leaves the rest as it is.
pub proof fn law_trim_keeps_the_middle(s: Seq<char>) -> (cut: (int, int))
    ensures
        0 <= cut.0 <= cut.1 <= s.len(),
        trim(s) == s.subrange(cut.0, cut.1),
        forall|i: int| 0 <= i < cut.0 ==> is_white_space(#[trigger] s[i]),
        forall|i: int| cut.1 <= i < s.len() ==> is_white_space(#[trigger] s[i]),
        cut.0 < cut.1 ==> !is_white_space(s[cut.0]) && !is_white_space(s[cut.1 - 1]),
{
    let from = lemma_trim_start_cut(s);
    let rest = trim_start(s);
    lemma_trim_end(rest);
    lemma_trim_start(s);
    let to = from + trim_end(rest).len();
    assert(trim(s) == s.subrange(from, to));
    assert forall|i: int| to <= i < s.len() implies is_white_space(#[trigger] s[i]) by {
        assert(rest[i - from] == s[i]);
    }
    if from < to {
        assert(trim_end(rest).last() == s[to - 1]);
        assert(rest[0] == s[from]);
    }
    (from, to)
}

proof fn lemma_trim_start_cut(s: Seq<char>) -> (from: int)
    ensures
        0 <= from <= s.len(),
        trim_start(s) == s.skip(from),
        forall|i: int| 0 <= i < from ==> is_white_space(#[trigger] s[i]),
    decreases s.len(),
{
    if s.len() > 0 && is_white_space(s[0]) {
        let rest = s.skip(1);
        let at = lemma_trim_start_cut(rest);
        assert(rest.skip(at) == s.skip(at + 1));
        assert forall|i: int| 0 <= i < at + 1 implies is_white_space(#[trigger] s[i]) by {
            if i > 0 {
                assert(rest[i - 1] == s[i]);
            }
        }
        at + 1
    } else {
        assert(s.skip(0) == s);
        0
    }
}

/// Joining one part gives it, and joining two lists of parts puts the separator
/// between what each of them gives.
pub proof fn law_join_concatenates<T>(a: Seq<Seq<T>>, b: Seq<Seq<T>>, part: Seq<T>, sep: Seq<T>)
    requires
        a.len() > 0,
        b.len() > 0,
    ensures
        join(Seq::<Seq<T>>::empty(), sep) == Seq::<T>::empty(),
        join(seq![part], sep) == part,
        join(a + b, sep) == join(a, sep) + sep + join(b, sep),
    decreases b.len(),
{
    assert((a + b).drop_last() == a + b.drop_last());
    if b.len() == 1 {
        assert(a + b.drop_last() == a);
        assert(join(a + b, sep) == join(a, sep) + sep + b[0]);
    } else {
        law_join_concatenates(a, b.drop_last(), part, sep);
        assert(join(a + b, sep) == join(a, sep) + sep + join(b.drop_last(), sep) + sep + b.last());
        assert(join(b, sep) == join(b.drop_last(), sep) + sep + b.last());
        assert(join(a, sep) + sep + join(b.drop_last(), sep) + sep + b.last() =~= join(a, sep) + sep
            + (join(b.drop_last(), sep) + sep + b.last()));
    }
}

/// The words of two texts with white space between them are the words of the one,
/// then those of the other; a text without white space is its only word.
pub proof fn law_words_are_separated_by_white_space(a: Seq<char>, c: char, b: Seq<char>)
    requires
        is_white_space(c),
    ensures
        words(a + seq![c] + b) == words(a) + words(b),
        a.len() > 0 && (forall|i: int| 0 <= i < a.len() ==> !is_white_space(#[trigger] a[i]))
            ==> words(a) == seq![a],
        words(Seq::<char>::empty()) == Seq::<Seq<char>>::empty(),
{
    lemma_words_append(a, c, b);
    if a.len() > 0 && (forall|i: int| 0 <= i < a.len() ==> !is_white_space(#[trigger] a[i])) {
        lemma_one_word(a);
    }
}

proof fn lemma_one_word(s: Seq<char>)
    requires
        s.len() > 0,
        forall|i: int| 0 <= i < s.len() ==> !is_white_space(#[trigger] s[i]),
    ensures
        words(s) == seq![s],
    decreases s.len(),
{
    let init = s.drop_last();
    assert(!is_white_space(s[s.len() - 1]));
    if s.len() == 1 {
        assert(init == Seq::<char>::empty());
        assert(words(init) == Seq::<Seq<char>>::empty());
        assert(s == seq![s.last()]);
    } else {
        assert forall|i: int| 0 <= i < init.len() implies !is_white_space(#[trigger] init[i]) by {
            assert(init[i] == s[i]);
        }
        lemma_one_word(init);
        assert(!is_white_space(s[s.len() - 2]));
        assert(init.push(s.last()) == s);
        assert(words(s) =~= seq![s]);
    }
}

proof fn lemma_words_append(a: Seq<char>, c: char, b: Seq<char>)
    requires
        is_white_space(c),
    ensures
        words(a + seq![c] + b) == words(a) + words(b),
        b.len() > 0 && !is_white_space(b.last()) ==> words(b).len() > 0,
    decreases b.len(),
{
    let whole = a + seq![c] + b;
    if b.len() == 0 {
        assert(whole.drop_last() == a);
        assert(whole.last() == c);
        assert(words(a) + words(b) == words(a));
    } else {
        let init = b.drop_last();
        lemma_words_append(a, c, init);
        assert(whole.drop_last() == a + seq![c] + init);
        assert(whole.last() == b.last());
        if !is_white_space(b.last()) {
            if b.len() > 1 {
                assert(whole[whole.len() - 2] == b[b.len() - 2]);
                assert(init.last() == b[b.len() - 2]);
                if !is_white_space(b[b.len() - 2]) {
                    let found = words(init);
                    let all = words(a) + found;
                    assert(all.last() == found.last());
                    assert(all.drop_last() =~= words(a) + found.drop_last());
                    assert(words(whole) =~= words(a) + words(b));
                } else {
                    assert(words(whole) =~= words(a) + words(b));
                }
            } else {
                assert(whole[whole.len() - 2] == c);
                assert(words(init) == Seq::<Seq<char>>::empty());
                assert(words(whole) =~= words(a) + words(b));
            }
        }
    }
}

/// A text contains another one exactly where it is made of something, that text,
/// and something.
pub proof fn law_containing_is_embedding(
    before: Seq<char>,
    pattern: Seq<char>,
    after: Seq<char>,
    s: Seq<char>,
)
    ensures
        contains_text(before + pattern + after, pattern),
        contains_text(s, pattern) ==> exists|at: int|
            0 <= at <= s.len() - pattern.len() && s == #[trigger] s.take(at) + pattern + s.skip(
                at + pattern.len(),
            ),
        starts_with(pattern + after, pattern),
        starts_with(s, pattern) ==> s == pattern + s.skip(pattern.len() as int),
        find_from(s, pattern, 0) is Some == contains_text(s, pattern),
{
    let whole = before + pattern + after;
    let n = before.len() as int;
    assert(whole.subrange(n, n + pattern.len()) == pattern);
    assert(occurs_at(whole, pattern, n));
    assert((pattern + after).take(pattern.len() as int) == pattern);
    if starts_with(s, pattern) {
        assert(s =~= pattern + s.skip(pattern.len() as int));
    }
    lemma_find_from(s, pattern, 0);
    if contains_text(s, pattern) {
        let at = choose|at: int| #[trigger] occurs_at(s, pattern, at);
        assert(s =~= s.take(at) + pattern + s.skip(at + pattern.len()));
    }
    if let Some(i) = find_from(s, pattern, 0) {
        assert(occurs_at(s, pattern, i));
    }
}

/// A shortened text is the text itself where that is short enough, and otherwise
/// its start and the suffix.
pub proof fn law_shortening_keeps_the_start(s: Seq<char>, limit: nat, kept: nat, suffix: Seq<char>)
    requires
        kept <= limit,
    ensures
        s.len() <= limit ==> shorten(s, limit, kept, suffix) == s,
        s.len() > limit ==> shorten(s, limit, kept, suffix).len() == kept + suffix.len(),
        s.len() > limit ==> forall|i: int|
            0 <= i < kept ==> #[trigger] shorten(s, limit, kept, suffix)[i] == s[i],
        s.len() > limit ==> forall|i: int|
            0 <= i < suffix.len() ==> shorten(s, limit, kept, suffix)[kept + i]
                == #[trigger] suffix[i],
{
}

/// Splitting what stands before a separator and what stands behind it gives the
/// parts of both, one after another.
pub proof fn law_split_concatenates<T>(a: Seq<T>, sep: T, b: Seq<T>)
    ensures
        split_on(a + seq![sep] + b, sep) == split_on(a, sep) + split_on(b, sep),
        !a.contains(sep) ==> split_on(a, sep) == seq![a],
{
    let left = split_on(a, sep);
    let right = split_on(b, sep);
    let all = left + right;
    law_split_join(a, sep);
    law_split_join(b, sep);
    law_join_concatenates(left, right, a, seq![sep]);
    assert forall|i: int| 0 <= i < all.len() implies !(#[trigger] all[i]).contains(sep) by {
        if i < left.len() {
            assert(all[i] == left[i]);
        } else {
            assert(all[i] == right[i - left.len()]);
        }
    }
    law_join_split(all, sep);
    if !a.contains(sep) {
        lemma_one_part(a, sep);
    }
}

/// The contents of an optional text are those of the text, and the contents of a
/// list are those of its members, one for one.
pub proof fn law_contents_of_texts(text: String, part: &str, texts: Seq<String>, i: int)
    ensures
        opt_view(Some(text)) == Some(text@),
        opt_view(None) is None,
        opt_str(Some(part)) == Some(part@),
        opt_str(None) is None,
        views(texts).len() == texts.len(),
        0 <= i < texts.len() ==> views(texts)[i] == texts[i]@,
{
}

/// Trimming the end of a text takes the white space behind its last other character,
/// and nothing else.
pub proof fn law_trim_end_keeps_the_start(s: Seq<char>)
    ensures
        trim_end(s).len() <= s.len(),
        trim_end(s) == s.take(trim_end(s).len() as int),
        trim_end(s).len() > 0 ==> !is_white_space(trim_end(s).last()),
        forall|i: int| trim_end(s).len() <= i < s.len() ==> is_white_space(#[trigger] s[i]),
    decreases s.len(),
{
    if s.len() > 0 && is_white_space(s.last()) {
        let init = s.drop_last();
        law_trim_end_keeps_the_start(init);
        let n = trim_end(init).len() as int;
        assert(init.take(n) =~= s.take(n));
        assert forall|i: int| n <= i < s.len() implies is_white_space(#[trigger] s[i]) by {
            if i < init.len() {
                assert(init[i] == s[i]);
            }
        }
    } else {
        assert(s.take(s.len() as int) =~= s);
    }
}

} // verus!
