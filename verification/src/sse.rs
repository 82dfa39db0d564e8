//! Server-sent events: the event types named in a raw response body.

use vstd::prelude::*;

verus! {

/// Index of the first `'\n'` in `s` at or after `start`, or `s.len()` when
/// there is none.
pub open spec fn line_end(s: Seq<char>, start: int) -> int
    decreases s.len() - start,
{
    if start < 0 || start >= s.len() {
        s.len() as int
    } else if s[start] == '\n' {
        start
    } else {
        line_end(s, start + 1)
    }
}

/// `line_end` lies between `start` and the end, and no newline precedes it.
pub proof fn lemma_line_end(s: Seq<char>, start: int)
    requires
        0 <= start <= s.len(),
    ensures
        start <= line_end(s, start) <= s.len(),
        line_end(s, start) < s.len() ==> s[line_end(s, start)] == '\n',
        forall|j: int| start <= j < line_end(s, start) ==> s[j] != '\n',
    decreases s.len() - start,
{
    if start < s.len() && s[start] != '\n' {
        lemma_line_end(s, start + 1);
    }
}

/// A line ended by `"\r\n"` loses its `'\r'`.
pub open spec fn strip_cr(line: Seq<char>) -> Seq<char> {
    if line.len() > 0 && line.last() == '\r' {
        line.drop_last()
    } else {
        line
    }
}

/// The lines of `s` from `start` on, as `str::lines` yields them: split at
/// `'\n'`, a `'\r'` before the `'\n'` removed, and no empty line after a
/// final newline.
pub open spec fn lines_from(s: Seq<char>, start: int) -> Seq<Seq<char>>
    decreases s.len() - start,
{
    if start < 0 || start >= s.len() {
        seq![]
    } else {
        let end = line_end(s, start);
        proof {
            lemma_line_end(s, start);
        }
        if end < s.len() {
            seq![strip_cr(s.subrange(start, end))] + lines_from(s, end + 1)
        } else {
            seq![s.subrange(start, end)]
        }
    }
}

/// The lines of `s`.
pub open spec fn lines(s: Seq<char>) -> Seq<Seq<char>> {
    lines_from(s, 0)
}

/// The event type a line names: what follows a leading `"event: "`.
pub open spec fn event_type_of(line: Seq<char>) -> Option<Seq<char>> {
    if line.len() >= 7 && line.take(7) == "event: "@ {
        Some(line.skip(7))
    } else {
        None
    }
}

/// The event types named by `lines`, in order.
pub open spec fn event_types_in(lines: Seq<Seq<char>>) -> Seq<Seq<char>>
    decreases lines.len(),
{
    if lines.len() == 0 {
        seq![]
    } else {
        let head = match event_type_of(lines[0]) {
            Some(t) => seq![t],
            None => seq![],
        };
        head + event_types_in(lines.drop_first())
    }
}

/// The event types of the `event: <type>` lines of a raw SSE body.
pub open spec fn sse_event_types(raw: Seq<char>) -> Seq<Seq<char>> {
    event_types_in(lines(raw))
}

/// `lines` put back together, one `'\n'` between consecutive lines.
pub open spec fn join_lines(lines: Seq<Seq<char>>) -> Seq<char>
    decreases lines.len(),
{
    if lines.len() == 0 {
        seq![]
    } else if lines.len() == 1 {
        lines[0]
    } else {
        lines[0] + seq!['\n'] + join_lines(lines.drop_first())
    }
}

/// For a text without carriage returns, the lines hold no newline and put
/// back together, with the final newline if the text has one, they give the
/// text back.
pub proof fn lemma_lines_rebuild_text(s: Seq<char>)
    requires
        forall|i: int| 0 <= i < s.len() ==> s[i] != '\r',
    ensures
        forall|k: int, i: int|
            0 <= k < lines(s).len() && 0 <= i < lines(s)[k].len() ==> #[trigger] lines(s)[k][i] != '\n',
        s.len() > 0 && s.last() == '\n' ==> join_lines(lines(s)) + seq!['\n'] == s,
        !(s.len() > 0 && s.last() == '\n') ==> join_lines(lines(s)) == s,
{
    if s.len() == 0 {
        assert(join_lines(lines(s)) =~= s);
    } else {
        lemma_lines_from_rebuild(s, 0);
        assert(s.skip(0) =~= s);
        if s.last() != '\n' {
            assert(join_lines(lines(s)) + Seq::<char>::empty() =~= join_lines(lines(s)));
        }
    }
}

proof fn lemma_lines_from_rebuild(s: Seq<char>, start: int)
    requires
        0 <= start < s.len(),
        forall|i: int| 0 <= i < s.len() ==> s[i] != '\r',
    ensures
        forall|k: int, i: int|
            0 <= k < lines_from(s, start).len() && 0 <= i < lines_from(s, start)[k].len()
                ==> #[trigger] lines_from(s, start)[k][i] != '\n',
        join_lines(lines_from(s, start)) + (if s.last() == '\n' {
            seq!['\n']
        } else {
            Seq::<char>::empty()
        }) == s.skip(start),
    decreases s.len() - start,
{
    lemma_line_end(s, start);
    let e = line_end(s, start);
    let seg = s.subrange(start, e);
    let tail: Seq<char> = if s.last() == '\n' {
        seq!['\n']
    } else {
        Seq::<char>::empty()
    };
    if e < s.len() {
        if seg.len() > 0 {
            assert(seg.last() == s[e - 1]);
        }
        assert(strip_cr(seg) == seg);
        let rest = lines_from(s, e + 1);
        assert(lines_from(s, start) == seq![seg] + rest);
        if e + 1 < s.len() {
            lemma_lines_from_rebuild(s, e + 1);
            lemma_line_end(s, e + 1);
            assert(rest.len() > 0);
            assert((seq![seg] + rest).drop_first() =~= rest);
            assert(join_lines(seq![seg] + rest) == seg + seq!['\n'] + join_lines(rest));
            assert(s.skip(start) =~= seg + seq!['\n'] + s.skip(e + 1));
            assert(seg + seq!['\n'] + join_lines(rest) + tail =~= seg + seq!['\n'] + (join_lines(rest) + tail));
            assert forall|k: int, i: int|
                0 <= k < lines_from(s, start).len() && 0 <= i < lines_from(s, start)[k].len() implies
                #[trigger] lines_from(s, start)[k][i] != '\n' by {
                if k == 0 {
                    assert(lines_from(s, start)[0][i] == s[start + i]);
                } else {
                    assert(lines_from(s, start)[k] == rest[k - 1]);
                }
            }
        } else {
            assert(rest =~= Seq::<Seq<char>>::empty());
            assert(seq![seg] + rest =~= seq![seg]);
            assert(s.last() == '\n');
            assert(s.skip(start) =~= seg + seq!['\n']);
            assert forall|k: int, i: int|
                0 <= k < lines_from(s, start).len() && 0 <= i < lines_from(s, start)[k].len() implies
                #[trigger] lines_from(s, start)[k][i] != '\n' by {
                assert(lines_from(s, start)[0][i] == s[start + i]);
            }
        }
    } else {
        assert(lines_from(s, start) == seq![seg]);
        assert(s.last() != '\n');
        assert(seg =~= s.skip(start));
        assert(seg + Seq::<char>::empty() =~= seg);
        assert forall|k: int, i: int|
            0 <= k < lines_from(s, start).len() && 0 <= i < lines_from(s, start)[k].len() implies
            #[trigger] lines_from(s, start)[k][i] != '\n' by {
            assert(lines_from(s, start)[0][i] == s[start + i]);
        }
    }
}

/// A line names an event type exactly when it is `"event: "` followed by
/// that type.
pub proof fn lemma_event_type_of(line: Seq<char>, t: Seq<char>)
    ensures
        event_type_of(line) == Some(t) <==> line == seq!['e', 'v', 'e', 'n', 't', ':', ' '] + t,
{
    reveal_strlit("event: ");
    let prefix = seq!['e', 'v', 'e', 'n', 't', ':', ' '];
    assert("event: "@ =~= prefix);
    if line == prefix + t {
        assert(line.take(7) =~= prefix);
        assert(line.skip(7) =~= t);
    }
    if event_type_of(line) == Some(t) {
        assert(line =~= line.take(7) + line.skip(7));
    }
}

/// The event types are what the `event: ` lines name: `t` is one of them
/// exactly when some line is `"event: "` followed by `t`.
pub proof fn lemma_event_types_come_from_lines(lines: Seq<Seq<char>>, t: Seq<char>)
    ensures
        event_types_in(lines).contains(t) <==> exists|k: int|
            0 <= k < lines.len() && #[trigger] lines[k] == seq!['e', 'v', 'e', 'n', 't', ':', ' '] + t,
    decreases lines.len(),
{
    let prefix = seq!['e', 'v', 'e', 'n', 't', ':', ' '];
    if lines.len() > 0 {
        let rest = lines.drop_first();
        lemma_event_types_come_from_lines(rest, t);
        lemma_event_type_of(lines[0], t);
        let head: Seq<Seq<char>> = match event_type_of(lines[0]) {
            Some(x) => seq![x],
            None => seq![],
        };
        let all = event_types_in(lines);
        assert(all == head + event_types_in(rest));
        if all.contains(t) {
            let i = choose|i: int| 0 <= i < all.len() && all[i] == t;
            if i < head.len() {
                assert(head[i] == t);
                assert(lines[0] == prefix + t);
            } else {
                assert(event_types_in(rest)[i - head.len()] == t);
                let k = choose|k: int| 0 <= k < rest.len() && #[trigger] rest[k] == prefix + t;
                assert(lines[k + 1] == prefix + t);
            }
        }
        if exists|k: int| 0 <= k < lines.len() && #[trigger] lines[k] == prefix + t {
            let k = choose|k: int| 0 <= k < lines.len() && #[trigger] lines[k] == prefix + t;
            if k == 0 {
                assert(all[0] == t);
            } else {
                assert(rest[k - 1] == prefix + t);
                let i = choose|i: int| 0 <= i < event_types_in(rest).len() && event_types_in(rest)[i] == t;
                assert(all[head.len() + i] == t);
            }
        }
    }
}

/// `s` without the repeats: each element where it first occurs, in order.
pub open spec fn first_occurrences(s: Seq<Seq<char>>) -> Seq<Seq<char>>
    decreases s.len(),
{
    if s.len() == 0 {
        seq![]
    } else {
        let kept = first_occurrences(s.drop_last());
        if kept.contains(s.last()) {
            kept
        } else {
            kept.push(s.last())
        }
    }
}

/// The distinct event types of a raw SSE body, in order of first mention.
pub open spec fn sse_event_type_set(raw: Seq<char>) -> Seq<Seq<char>> {
    first_occurrences(sse_event_types(raw))
}

/// The texts of `v`.
pub open spec fn texts(v: Seq<String>) -> Seq<Seq<char>> {
    v.map_values(|t: String| t@)
}

proof fn lemma_push_contains(q: Seq<Seq<char>>, x: Seq<char>, t: Seq<char>)
    ensures
        q.push(x).contains(t) <==> (q.contains(t) || t == x),
{
    if q.contains(t) {
        let i = choose|i: int| 0 <= i < q.len() && q[i] == t;
        assert(q.push(x)[i] == t);
    }
    if t == x {
        assert(q.push(x)[q.len() as int] == t);
    }
    if q.push(x).contains(t) {
        let i = choose|i: int| 0 <= i < q.push(x).len() && q.push(x)[i] == t;
        if i < q.len() {
            assert(q[i] == t);
        }
    }
}

/// The result of `parse_sse_event_types` is the set of the types that the
/// body's `event:` lines name: each exactly once, nothing else.
pub proof fn lemma_event_type_set(s: Seq<Seq<char>>)
    ensures
        first_occurrences(s).no_duplicates(),
        forall|t: Seq<char>| #[trigger] first_occurrences(s).contains(t) <==> s.contains(t),
    decreases s.len(),
{
    if s.len() > 0 {
        let prefix = s.drop_last();
        let x = s.last();
        let kept = first_occurrences(prefix);
        lemma_event_type_set(prefix);
        assert(s =~= prefix.push(x));
        assert forall|t: Seq<char>| #[trigger] first_occurrences(s).contains(t) <==> s.contains(t) by {
            lemma_push_contains(prefix, x, t);
            lemma_push_contains(kept, x, t);
        }
        if !kept.contains(x) {
            assert forall|a: int, b: int|
                0 <= a < kept.push(x).len() && 0 <= b < kept.push(x).len() && a != b implies kept.push(x)[a]
                != kept.push(x)[b] by {
                if a == kept.len() {
                    assert(kept[b] != x);
                } else if b == kept.len() {
                    assert(kept[a] != x);
                }
            }
        }
    }
}

/// What `parse_sse_event_types` returns, stated on the text: no type twice,
/// and `t` among them exactly when some line of the body is `"event: "`
/// followed by `t`.
pub proof fn lemma_sse_types_are_the_event_lines(raw: Seq<char>, t: Seq<char>)
    ensures
        sse_event_type_set(raw).no_duplicates(),
        sse_event_type_set(raw).contains(t) <==> exists|k: int|
            0 <= k < lines(raw).len() && #[trigger] lines(raw)[k] == seq!['e', 'v', 'e', 'n', 't', ':', ' '] + t,
{
    lemma_event_type_set(sse_event_types(raw));
    lemma_event_types_come_from_lines(lines(raw), t);
}

/// Adds `t` to `types` unless a type with the same text is already there.
fn record_type(types: &mut Vec<String>, t: String)
    ensures
        texts(final(types)@) == (if texts(old(types)@).contains(t@) {
            texts(old(types)@)
        } else {
            texts(old(types)@).push(t@)
        }),
{
    let n = types.len();
    let mut k: usize = 0;
    while k < n
        invariant
            n == types@.len(),
            k <= n,
            forall|j: int| 0 <= j < k ==> types@[j]@ != t@,
        decreases n - k,
    {
        if types[k] == t {
            assert(texts(types@)[k as int] == t@);
            return;
        }
        k = k + 1;
    }
    assert(!texts(types@).contains(t@)) by {
        if texts(types@).contains(t@) {
            let i = choose|i: int| 0 <= i < texts(types@).len() && texts(types@)[i] == t@;
            assert(types@[i]@ == t@);
        }
    }
    types.push(t);
    assert(texts(types@) =~= texts(old(types)@).push(t@));
}

/// Whether `chars[start..end]` begins with `"event: "`.
fn has_event_prefix(chars: &Vec<char>, start: usize, end: usize) -> (found: bool)
    requires
        start <= end <= chars@.len(),
    ensures
        found == (end - start >= 7 && chars@.subrange(start as int, end as int).take(7) == "event: "@),
{
    proof {
        reveal_strlit("event: ");
    }
    if end - start < 7 {
        return false;
    }
    let found = chars[start] == 'e' && chars[start + 1] == 'v' && chars[start + 2] == 'e'
        && chars[start + 3] == 'n' && chars[start + 4] == 't' && chars[start + 5] == ':'
        && chars[start + 6] == ' ';
    let ghost prefix = chars@.subrange(start as int, end as int).take(7);
    let ghost lit = "event: "@;
    assert(lit =~= seq!['e', 'v', 'e', 'n', 't', ':', ' ']);
    if found {
        assert(prefix =~= lit);
    } else {
        assert(prefix == lit ==> prefix[0] == lit[0] && prefix[1] == lit[1] && prefix[2] == lit[2]
            && prefix[3] == lit[3] && prefix[4] == lit[4] && prefix[5] == lit[5] && prefix[6] == lit[6]);
    }
    found
}

/// The set of event types named by the `event: <type>` lines of a raw
/// server-sent-events body, each once, in order of first mention; lines are
/// read as `str::lines` reads them.
pub fn parse_sse_event_types(raw: &str) -> (types: Vec<String>)
    ensures
        texts(types@) == sse_event_type_set(raw@),
{
    let n = raw.unicode_len();
    let mut chars: Vec<char> = Vec::new();
    let mut k: usize = 0;
    while k < n
        invariant
            n == raw@.len(),
            k <= n,
            chars@ == raw@.take(k as int),
        decreases n - k,
    {
        chars.push(raw.get_char(k));
        k = k + 1;
        assert(chars@ =~= raw@.take(k as int));
    }
    assert(chars@ =~= raw@);

    let ghost s = raw@;
    let mut types: Vec<String> = Vec::new();
    let ghost mut found: Seq<Seq<char>> = seq![];
    let mut start: usize = 0;
    let mut j: usize = 0;
    while j < n
        invariant
            n == s.len(),
            chars@ == s,
            raw@ == s,
            start <= j <= n,
            line_end(s, start as int) == line_end(s, j as int),
            texts(types@) == first_occurrences(found),
            sse_event_types(s) == found + event_types_in(lines_from(s, start as int)),
        decreases n - j,
    {
        if chars[j] == '\n' {
            proof {
                lemma_line_end(s, start as int);
            }
            let mut end = j;
            if end > start && chars[end - 1] == '\r' {
                end = end - 1;
            }
            let ghost line = s.subrange(start as int, end as int);
            assert(line =~= strip_cr(s.subrange(start as int, j as int)));
            assert(lines_from(s, start as int) =~= seq![line] + lines_from(s, j + 1));
            assert((seq![line] + lines_from(s, j + 1)).drop_first() =~= lines_from(s, j + 1));
            if has_event_prefix(&chars, start, end) {
                let t = String::from_str(raw.substring_char(start + 7, end));
                assert(t@ =~= line.skip(7));
                proof {
                    assert(found.push(t@).drop_last() =~= found);
                    found = found.push(line.skip(7));
                }
                record_type(&mut types, t);
                assert(sse_event_types(s) =~= found + event_types_in(lines_from(s, j + 1)));
            } else {
                assert(sse_event_types(s) =~= found + event_types_in(lines_from(s, j + 1)));
            }
            start = j + 1;
        }
        j = j + 1;
    }
    if start < n {
        proof {
            lemma_line_end(s, start as int);
        }
        let ghost line = s.subrange(start as int, n as int);
        assert(lines_from(s, start as int) =~= seq![line]);
        assert(seq![line].drop_first() =~= Seq::<Seq<char>>::empty());
        assert(event_types_in(seq![line].drop_first()) =~= Seq::<Seq<char>>::empty());
        if has_event_prefix(&chars, start, n) {
            let t = String::from_str(raw.substring_char(start + 7, n));
            assert(t@ =~= line.skip(7));
            proof {
                assert(found.push(t@).drop_last() =~= found);
                found = found.push(line.skip(7));
            }
            record_type(&mut types, t);
            assert(event_types_in(seq![line]) =~= seq![line.skip(7)]);
        } else {
            assert(event_types_in(seq![line]) =~= Seq::<Seq<char>>::empty());
        }
        assert(sse_event_types(s) =~= found);
    } else {
        assert(lines_from(s, start as int) =~= Seq::<Seq<char>>::empty());
        assert(event_types_in(lines_from(s, start as int)) =~= Seq::<Seq<char>>::empty());
        assert(found + event_types_in(lines_from(s, start as int)) =~= found);
    }
    assert(sse_event_types(s) =~= found);
    types
}

} // verus!
