//! Text primitives shared by the parser and the renderer: character search,
//! line splitting, left padding of whole sections, and lookup in association
//! lists that model the localized name and description maps.

use vstd::prelude::*;

verus! {

/// Index of the first occurrence of `c` in `s`; meaningful only when
/// `s.contains(c)` (see `lemma_find_char`).
pub open spec fn find_char(s: Seq<char>, c: char) -> int
    decreases s.len(),
{
    if s.len() == 0 {
        0
    } else if s[0] == c {
        0
    } else {
        1 + find_char(s.skip(1), c)
    }
}

/// `find_char` returns the position of the first occurrence.
pub proof fn lemma_find_char(s: Seq<char>, c: char)
    requires
        s.contains(c),
    ensures
        0 <= find_char(s, c) < s.len(),
        s[find_char(s, c)] == c,
        forall|j: int| 0 <= j < find_char(s, c) ==> s[j] != c,
    decreases s.len(),
{
    if s.len() == 0 {
    } else if s[0] == c {
    } else {
        let t = s.skip(1);
        assert(t.contains(c)) by {
            let w = choose|i: int| 0 <= i < s.len() && s[i] == c;
            assert(t[w - 1] == c);
        }
        lemma_find_char(t, c);
        assert(forall|j: int| 0 <= j < find_char(s, c) ==> s[j] != c) by {
            assert(forall|j: int| 1 <= j < find_char(s, c) ==> s[j] == t[j - 1]);
        }
    }
}

/// If `c` first occurs at position `k`, then `find_char` returns `k`.
pub proof fn lemma_find_char_at(s: Seq<char>, c: char, k: int)
    requires
        0 <= k < s.len(),
        s[k] == c,
        forall|j: int| 0 <= j < k ==> s[j] != c,
    ensures
        find_char(s, c) == k,
{
    assert(s.contains(c));
    lemma_find_char(s, c);
    let f = find_char(s, c);
    if f < k {
        assert(s[f] != c);
    }
    if f > k {
        assert(s[k] != c);
    }
}

/// The pieces of `s` between occurrences of the separator `c`, in order.
/// A string without the separator is a single piece, so the result is never
/// empty; `n` separators yield `n + 1` pieces, empty pieces included.
pub open spec fn split_on(s: Seq<char>, c: char) -> Seq<Seq<char>>
    decreases s.len(),
    via split_on_decreases
{
    if !s.contains(c) {
        seq![s]
    } else {
        let i = find_char(s, c);
        seq![s.take(i)] + split_on(s.skip(i + 1), c)
    }
}

#[via_fn]
proof fn split_on_decreases(s: Seq<char>, c: char) {
    if s.contains(c) {
        lemma_find_char(s, c);
    }
}

/// Splitting yields at least one piece, and no piece contains the separator.
pub proof fn lemma_split_on(s: Seq<char>, c: char)
    ensures
        split_on(s, c).len() >= 1,
        forall|i: int| 0 <= i < split_on(s, c).len() ==> !(#[trigger] split_on(s, c)[i]).contains(
            c,
        ),
    decreases s.len(),
{
    if !s.contains(c) {
    } else {
        let i = find_char(s, c);
        lemma_find_char(s, c);
        let head = s.take(i);
        assert(!head.contains(c)) by {
            assert(forall|j: int| 0 <= j < head.len() ==> head[j] == s[j]);
        }
        lemma_split_on(s.skip(i + 1), c);
    }
}

/// The lines of `s`, separated by `'\n'`. A trailing newline closes the last
/// line rather than opening an empty one, and an empty string has no lines.
pub open spec fn spec_lines(s: Seq<char>) -> Seq<Seq<char>>
    decreases s.len(),
    via spec_lines_decreases
{
    if s.len() == 0 {
        Seq::empty()
    } else if !s.contains('\n') {
        seq![s]
    } else {
        let i = find_char(s, '\n');
        seq![s.take(i)] + spec_lines(s.skip(i + 1))
    }
}

#[via_fn]
proof fn spec_lines_decreases(s: Seq<char>) {
    if s.len() > 0 && s.contains('\n') {
        lemma_find_char(s, '\n');
    }
}

/// `s`, rewritten so that every line starts with `pad` and ends with a
/// newline: the shape of every padded section of rendered output.
pub open spec fn spec_padded(s: Seq<char>, pad: Seq<char>) -> Seq<char>
    decreases s.len(),
    via spec_padded_decreases
{
    if s.len() == 0 {
        Seq::empty()
    } else if !s.contains('\n') {
        pad + s + seq!['\n']
    } else {
        let i = find_char(s, '\n');
        pad + s.take(i) + seq!['\n'] + spec_padded(s.skip(i + 1), pad)
    }
}

#[via_fn]
proof fn spec_padded_decreases(s: Seq<char>, pad: Seq<char>) {
    if s.len() > 0 && s.contains('\n') {
        lemma_find_char(s, '\n');
    }
}

/// A run of `n` spaces.
pub open spec fn spaces(n: nat) -> Seq<char> {
    Seq::new(n, |i: int| ' ')
}

/// A run of spaces holds no newline.
pub proof fn lemma_spaces_no_newline(n: nat)
    ensures
        !spaces(n).contains('\n'),
{
    if spaces(n).contains('\n') {
        let i = choose|i: int| 0 <= i < spaces(n).len() && spaces(n)[i] == '\n';
        assert(spaces(n)[i] == ' ');
    }
}

/// Padding law: padding a section rewrites its lines one for one, prefixing
/// the pad to every line and changing nothing else; line count and line
/// breaks are preserved exactly.
pub proof fn lemma_padded_lines(s: Seq<char>, pad: Seq<char>)
    requires
        !pad.contains('\n'),
    ensures
        spec_lines(spec_padded(s, pad)) == spec_lines(s).map_values(|l: Seq<char>| pad + l),
    decreases s.len(),
{
    if s.len() == 0 {
        assert(spec_lines(spec_padded(s, pad)) =~= spec_lines(s).map_values(
            |l: Seq<char>| pad + l,
        ));
    } else if !s.contains('\n') {
        let t = pad + s + seq!['\n'];
        let cut = pad.len() + s.len();
        assert(t[cut as int] == '\n');
        assert(forall|j: int| 0 <= j < pad.len() ==> t[j] == pad[j]);
        assert(forall|j: int| pad.len() <= j < cut ==> t[j] == s[j - pad.len()]);
        assert(t.contains('\n'));
        lemma_find_char_at(t, '\n', cut as int);
        assert(t.take(cut as int) =~= pad + s);
        assert(t.skip(cut as int + 1) =~= Seq::<char>::empty());
        assert(spec_lines(Seq::<char>::empty()) =~= Seq::<Seq<char>>::empty());
        assert(spec_lines(t) =~= seq![pad + s]);
        assert(spec_lines(s).map_values(|l: Seq<char>| pad + l) =~= seq![pad + s]);
    } else {
        let i = find_char(s, '\n');
        lemma_find_char(s, '\n');
        let head = s.take(i);
        let rest = s.skip(i + 1);
        let t = pad + head + seq!['\n'] + spec_padded(rest, pad);
        let cut = pad.len() + i;
        assert(forall|j: int| 0 <= j < pad.len() ==> t[j] == pad[j]);
        assert(forall|j: int| pad.len() <= j < cut ==> t[j] == s[j - pad.len()]);
        assert(t[cut as int] == '\n');
        lemma_find_char_at(t, '\n', cut as int);
        assert(t.take(cut as int) =~= pad + head);
        assert(t.skip(cut as int + 1) =~= spec_padded(rest, pad));
        lemma_padded_lines(rest, pad);
        assert(t.len() > 0);
        assert(t.contains('\n'));
        assert(spec_lines(t) =~= seq![pad + head] + spec_lines(rest).map_values(
            |l: Seq<char>| pad + l,
        ));
        assert(spec_lines(s).map_values(|l: Seq<char>| pad + l) =~= seq![pad + head]
            + spec_lines(rest).map_values(|l: Seq<char>| pad + l));
    }
}

/// First value bound to `key` in an association list, if any.
pub open spec fn spec_map_get(entries: Seq<(String, String)>, key: Seq<char>) -> Option<Seq<char>>
    decreases entries.len(),
{
    if entries.len() == 0 {
        None
    } else if entries[0].0@ == key {
        Some(entries[0].1@)
    } else {
        spec_map_get(entries.skip(1), key)
    }
}

/// Character-for-character string comparison.
pub fn eq_str(a: &str, b: &str) -> (r: bool)
    ensures
        r == (a@ == b@),
{
    let la = a.unicode_len();
    let lb = b.unicode_len();
    if la != lb {
        return false;
    }
    let mut i: usize = 0;
    while i < la
        invariant
            la == a@.len() == b@.len(),
            i <= la,
            forall|j: int| 0 <= j < i ==> a@[j] == b@[j],
        decreases la - i,
    {
        if a.get_char(i) != b.get_char(i) {
            return false;
        }
        i += 1;
    }
    proof {
        assert(a@ =~= b@);
    }
    true
}

/// Position of the first occurrence of `c` in `s`, if any.
pub fn find_char_exec(s: &str, c: char) -> (r: Option<usize>)
    ensures
        match r {
            Some(i) => s@.contains(c) && i == find_char(s@, c),
            None => !s@.contains(c),
        },
{
    let len = s.unicode_len();
    let mut i: usize = 0;
    while i < len
        invariant
            len == s@.len(),
            i <= len,
            forall|j: int| 0 <= j < i ==> s@[j] != c,
        decreases len - i,
    {
        if s.get_char(i) == c {
            proof {
                lemma_find_char_at(s@, c, i as int);
            }
            return Some(i);
        }
        i += 1;
    }
    None
}

/// A string of `n` spaces, the left padding of every rendered line.
pub fn make_padding(n: usize) -> (r: String)
    ensures
        r@ == spaces(n as nat),
{
    let mut out = String::new();
    let mut i: usize = 0;
    while i < n
        invariant
            i <= n,
            out@ =~= spaces(i as nat),
        decreases n - i,
    {
        out.append(" ");
        proof {
            reveal_strlit(" ");
            assert(out@ =~= spaces((i + 1) as nat));
        }
        i += 1;
    }
    out
}

/// Appends `text` to `out` with `pad` prefixed to every line: each line of
/// `text` becomes `pad`, the line, then a newline.
pub fn push_padded(out: &mut String, text: &str, pad: &str)
    ensures
        final(out)@ == old(out)@ + spec_padded(text@, pad@),
{
    let len = text.unicode_len();
    let mut start: usize = 0;
    let mut i: usize = 0;
    proof {
        assert(text@.skip(0) =~= text@);
    }
    while i < len
        invariant
            len == text@.len(),
            start <= i <= len,
            forall|j: int| start <= j < i ==> text@[j] != '\n',
            out@ + spec_padded(text@.skip(start as int), pad@) == old(out)@ + spec_padded(
                text@,
                pad@,
            ),
        decreases len - i,
    {
        let c = text.get_char(i);
        if c == '\n' {
            let line = text.substring_char(start, i);
            out.append(pad);
            out.append(line);
            out.append("\n");
            proof {
                reveal_strlit("\n");
                let rest = text@.skip(start as int);
                assert(rest[i - start] == '\n');
                lemma_find_char_at(rest, '\n', i - start);
                assert(rest.take(i - start) =~= line@);
                assert(rest.skip(i - start + 1) =~= text@.skip(i + 1));
                assert(spec_padded(rest, pad@) =~= pad@ + line@ + "\n"@ + spec_padded(
                    text@.skip(i + 1),
                    pad@,
                ));
            }
            start = i + 1;
        }
        i += 1;
    }
    if start < len {
        let line = text.substring_char(start, len);
        out.append(pad);
        out.append(line);
        out.append("\n");
        proof {
            reveal_strlit("\n");
            let rest = text@.skip(start as int);
            assert(!rest.contains('\n')) by {
                assert(forall|k: int| 0 <= k < rest.len() ==> rest[k] == text@[start + k]);
            }
            assert(rest =~= line@);
            assert(spec_padded(rest, pad@) =~= pad@ + line@ + "\n"@);
        }
    } else {
        proof {
            assert(text@.skip(start as int) =~= Seq::<char>::empty());
        }
    }
}

/// Looks `key` up in an association list, returning the first match.
pub fn map_get<'a>(entries: &'a Vec<(String, String)>, key: &str) -> (r: Option<&'a String>)
    ensures
        match r {
            Some(v) => spec_map_get(entries@, key@) == Some(v@),
            None => spec_map_get(entries@, key@) is None,
        },
{
    let mut i: usize = 0;
    proof {
        assert(entries@.skip(0) =~= entries@);
    }
    while i < entries.len()
        invariant
            i <= entries@.len(),
            spec_map_get(entries@, key@) == spec_map_get(entries@.skip(i as int), key@),
        decreases entries@.len() - i,
    {
        if eq_str(entries[i].0.as_str(), key) {
            proof {
                let rest = entries@.skip(i as int);
                assert(rest[0] == entries@[i as int]);
            }
            return Some(&entries[i].1);
        }
        proof {
            let rest = entries@.skip(i as int);
            assert(rest[0] == entries@[i as int]);
            assert(rest.skip(1) =~= entries@.skip(i + 1));
        }
        i += 1;
    }
    proof {
        assert(entries@.skip(i as int) =~= Seq::<(String, String)>::empty());
    }
    None
}

} // verus!
