//! Line-oriented handshake parsing.
//!
//! A marker has the form `<label>:<value>`: if a line contains the label
//! substring, the value is everything after the label's last occurrence,
//! with surrounding whitespace trimmed; an empty trimmed value counts as
//! "not found on this line".

use vstd::prelude::*;

verus! {

/// Whitespace recognised when trimming a marker value.
pub open spec fn is_space(c: char) -> bool {
    c == ' ' || c == '\t' || c == '\r' || c == '\n'
}

fn space_char(c: char) -> (r: bool)
    ensures
        r == is_space(c),
{
    c == ' ' || c == '\t' || c == '\r' || c == '\n'
}

/// The sequence with its leading whitespace removed.
pub open spec fn trim_front(s: Seq<char>) -> Seq<char>
    decreases s.len(),
{
    if s.len() > 0 && is_space(s[0]) {
        trim_front(s.drop_first())
    } else {
        s
    }
}

/// The sequence with its trailing whitespace removed.
pub open spec fn trim_back(s: Seq<char>) -> Seq<char>
    decreases s.len(),
{
    if s.len() > 0 && is_space(s.last()) {
        trim_back(s.drop_last())
    } else {
        s
    }
}

/// The sequence with whitespace removed from both ends.
pub open spec fn trimmed(s: Seq<char>) -> Seq<char> {
    trim_back(trim_front(s))
}

/// The label occurs in the line starting at position `i`.
pub open spec fn matches_at(line: Seq<char>, label: Seq<char>, i: int) -> bool {
    &&& 0 <= i
    &&& i + label.len() <= line.len()
    &&& line.subrange(i, i + label.len()) == label
}

/// The last position strictly below `k` at which the label occurs.
pub open spec fn last_occurrence_before(line: Seq<char>, label: Seq<char>, k: int) -> Option<int>
    decreases k,
{
    if k <= 0 {
        None
    } else if matches_at(line, label, k - 1) {
        Some(k - 1)
    } else {
        last_occurrence_before(line, label, k - 1)
    }
}

/// The last position at which the label occurs in the line, if any.
pub open spec fn last_occurrence(line: Seq<char>, label: Seq<char>) -> Option<int> {
    last_occurrence_before(line, label, line.len() - label.len() + 1)
}

/// The marker value carried by one line for one label: the trimmed text
/// after the label's last occurrence, unless that text is empty.
pub open spec fn marker_value(line: Seq<char>, label: Seq<char>) -> Option<Seq<char>> {
    match last_occurrence(line, label) {
        Some(i) => {
            let v = trimmed(line.subrange(i + label.len(), line.len() as int));
            if v.len() == 0 {
                None
            } else {
                Some(v)
            }
        },
        None => None,
    }
}

proof fn lemma_last_occurrence_before_bounds(line: Seq<char>, label: Seq<char>, k: int, i: int)
    requires
        last_occurrence_before(line, label, k) == Some(i),
    ensures
        matches_at(line, label, i),
        i < k,
    decreases k,
{
    if k <= 0 {
    } else if matches_at(line, label, k - 1) {
    } else {
        lemma_last_occurrence_before_bounds(line, label, k - 1, i);
    }
}

fn check_match_at(line: &str, label: &str, i: usize) -> (r: bool)
    requires
        i + label@.len() <= line@.len(),
        line@.len() <= usize::MAX,
    ensures
        r == matches_at(line@, label@, i as int),
{
    let m = label.unicode_len();
    let mut j: usize = 0;
    while j < m
        invariant
            m == label@.len(),
            i + m <= line@.len(),
            line@.len() <= usize::MAX,
            j <= m,
            forall|k: int| 0 <= k < j ==> line@[i + k] == #[trigger] label@[k],
        decreases m - j,
    {
        if line.get_char(i + j) != label.get_char(j) {
            assert(!matches_at(line@, label@, i as int)) by {
                if line@.subrange(i as int, i + label@.len()) == label@ {
                    assert(line@.subrange(i as int, i + label@.len())[j as int] == label@[j as int]);
                }
            }
            return false;
        }
        j += 1;
    }
    assert(line@.subrange(i as int, i + label@.len()) =~= label@);
    true
}

fn find_last(line: &str, label: &str) -> (r: Option<usize>)
    requires
        label@.len() >= 1,
    ensures
        match r {
            Some(i) => last_occurrence(line@, label@) == Some(i as int) && i + label@.len()
                <= line@.len(),
            None => last_occurrence(line@, label@) is None,
        },
{
    let n = line.unicode_len();
    let m = label.unicode_len();
    if m > n {
        return None;
    }
    let mut best: Option<usize> = None;
    let mut i: usize = 0;
    while i <= n - m
        invariant
            n == line@.len(),
            m == label@.len(),
            1 <= m <= n,
            i <= n - m + 1,
            match best {
                Some(b) => last_occurrence_before(line@, label@, i as int) == Some(b as int) && b
                    + m <= n,
                None => last_occurrence_before(line@, label@, i as int) is None,
            },
        decreases n - m + 1 - i,
    {
        if check_match_at(line, label, i) {
            best = Some(i);
        }
        assert(last_occurrence_before(line@, label@, i + 1) == (if matches_at(
            line@,
            label@,
            i as int,
        ) {
            Some(i as int)
        } else {
            last_occurrence_before(line@, label@, i as int)
        }));
        i += 1;
    }
    best
}

fn trim_copy(s: &str) -> (r: String)
    ensures
        r@ == trimmed(s@),
{
    let n = s.unicode_len();
    let mut a: usize = 0;
    assert(s@.skip(0) =~= s@);
    while a < n && space_char(s.get_char(a))
        invariant
            n == s@.len(),
            a <= n,
            trim_front(s@) == trim_front(s@.skip(a as int)),
        decreases n - a,
    {
        assert(s@.skip(a as int)[0] == s@[a as int]);
        assert(s@.skip(a as int).drop_first() =~= s@.skip(a + 1));
        a += 1;
    }
    if a == n {
        assert(s@.skip(a as int) =~= Seq::<char>::empty());
    }
    assert(trim_front(s@) == s@.skip(a as int));
    assert(s@.skip(a as int) =~= s@.subrange(a as int, n as int));
    let mut b: usize = n;
    while b > a && space_char(s.get_char(b - 1))
        invariant
            n == s@.len(),
            a <= b <= n,
            trim_back(s@.subrange(a as int, n as int)) == trim_back(
                s@.subrange(a as int, b as int),
            ),
        decreases b,
    {
        assert(s@.subrange(a as int, b as int).last() == s@[b - 1]);
        assert(s@.subrange(a as int, b as int).drop_last() =~= s@.subrange(a as int, b - 1));
        b -= 1;
    }
    if b == a {
        assert(s@.subrange(a as int, b as int) =~= Seq::<char>::empty());
    }
    assert(trim_back(s@.subrange(a as int, b as int)) == s@.subrange(a as int, b as int));
    let piece = s.substring_char(a, b);
    piece.to_owned()
}

/// A carriage return left at the end of a piece by a `\r\n` line ending
/// is not part of the line.
pub open spec fn strip_cr(s: Seq<char>) -> Seq<char> {
    if s.len() > 0 && s.last() == '\r' {
        s.drop_last()
    } else {
        s
    }
}

/// The lines of a text, split at `\n` or `\r\n`, a final line ending
/// being optional: `cur` is the part of the current line already seen.
pub open spec fn lines_from(s: Seq<char>, cur: Seq<char>) -> Seq<Seq<char>>
    decreases s.len(),
{
    if s.len() == 0 {
        if cur.len() == 0 {
            Seq::empty()
        } else {
            seq![cur]
        }
    } else if s[0] == '\n' {
        seq![strip_cr(cur)] + lines_from(s.drop_first(), Seq::empty())
    } else {
        lines_from(s.drop_first(), cur.push(s[0]))
    }
}

/// The lines of a decoded output chunk, in emission order.
pub open spec fn lines_of(s: Seq<char>) -> Seq<Seq<char>> {
    lines_from(s, Seq::empty())
}

/// The views of a vector of owned lines.
pub open spec fn texts_of(v: Seq<String>) -> Seq<Seq<char>> {
    v.map_values(|s: String| s@)
}

/// Splits a decoded chunk of worker output into its lines, as `lines_of`
/// describes them.
pub fn split_lines(chunk: &str) -> (r: Vec<String>)
    ensures
        texts_of(r@) == lines_of(chunk@),
{
    let n = chunk.unicode_len();
    let mut out: Vec<String> = Vec::new();
    let mut start: usize = 0;
    let mut i: usize = 0;
    assert(texts_of(out@) =~= Seq::<Seq<char>>::empty());
    assert(chunk@.skip(0) =~= chunk@);
    assert(chunk@.subrange(0, 0) =~= Seq::<char>::empty());
    while i < n
        invariant
            n == chunk@.len(),
            start <= i <= n,
            texts_of(out@) + lines_from(
                chunk@.skip(i as int),
                chunk@.subrange(start as int, i as int),
            ) == lines_of(chunk@),
        decreases n - i,
    {
        let ghost cur = chunk@.subrange(start as int, i as int);
        assert(chunk@.skip(i as int)[0] == chunk@[i as int]);
        assert(chunk@.skip(i as int).drop_first() =~= chunk@.skip(i + 1));
        let c = chunk.get_char(i);
        if c == '\n' {
            let has_cr = i > start && chunk.get_char(i - 1) == '\r';
            let end = if has_cr {
                i - 1
            } else {
                i
            };
            proof {
                if i > start {
                    assert(cur.last() == chunk@[i - 1]);
                }
                if has_cr {
                    assert(cur.drop_last() =~= chunk@.subrange(start as int, i - 1));
                }
                assert(chunk@.subrange(start as int, end as int) == strip_cr(cur));
            }
            let piece = chunk.substring_char(start, end);
            let ghost before = out@;
            out.push(piece.to_owned());
            proof {
                let rest = lines_from(chunk@.skip(i + 1), Seq::<char>::empty());
                assert(texts_of(out@) =~= texts_of(before).push(strip_cr(cur)));
                assert(texts_of(before) + (seq![strip_cr(cur)] + rest) =~= texts_of(before).push(
                    strip_cr(cur),
                ) + rest);
                assert(chunk@.subrange((i + 1) as int, (i + 1) as int) =~= Seq::<char>::empty());
            }
            start = i + 1;
        } else {
            assert(cur.push(chunk@[i as int]) =~= chunk@.subrange(start as int, i + 1));
        }
        i += 1;
    }
    proof {
        assert(chunk@.skip(n as int) =~= Seq::<char>::empty());
    }
    let ghost cur = chunk@.subrange(start as int, n as int);
    if start < n {
        let piece = chunk.substring_char(start, n);
        let ghost before = out@;
        out.push(piece.to_owned());
        proof {
            assert(texts_of(out@) =~= texts_of(before).push(cur));
            assert(texts_of(before) + seq![cur] =~= texts_of(before).push(cur));
        }
    } else {
        proof {
            assert(cur =~= Seq::<char>::empty());
            assert(texts_of(out@) + Seq::<Seq<char>>::empty() =~= texts_of(out@));
        }
    }
    out
}

/// Extracts the marker value for one label from one line: the trimmed
/// text after the label's last occurrence, or nothing when the label is
/// absent or the trimmed text is empty.
pub fn extract_marker(line: &str, label: &str) -> (r: Option<String>)
    requires
        label@.len() >= 1,
    ensures
        match r {
            Some(v) => marker_value(line@, label@) == Some(v@),
            None => marker_value(line@, label@) is None,
        },
{
    match find_last(line, label) {
        None => None,
        Some(i) => {
            proof {
                lemma_last_occurrence_before_bounds(
                    line@,
                    label@,
                    line@.len() - label@.len() + 1,
                    i as int,
                );
            }
            let n = line.unicode_len();
            let m = label.unicode_len();
            let rest = line.substring_char(i + m, n);
            let v = trim_copy(rest);
            if v.unicode_len() == 0 {
                assert(v@ =~= Seq::<char>::empty());
                None
            } else {
                Some(v)
            }
        },
    }
}

} // verus!
