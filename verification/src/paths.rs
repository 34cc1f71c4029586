use vstd::prelude::*;
use crate::dirty_paths::SEPARATOR;
use crate::text::{chars_of, string_of};

verus! {

/// `s` without the separators at its end.
pub open spec fn trim_separators(s: Seq<char>) -> Seq<char>
    decreases s.len(),
{
    if s.len() > 0 && s.last() == SEPARATOR {
        trim_separators(s.drop_last())
    } else {
        s
    }
}

/// `s` without the characters at its end that are not separators.
pub open spec fn drop_last_segment(s: Seq<char>) -> Seq<char>
    decreases s.len(),
{
    if s.len() > 0 && s.last() != SEPARATOR {
        drop_last_segment(s.drop_last())
    } else {
        s
    }
}

/// The last run of characters of `s` that holds no separator, separators after it set aside.
/// It is empty exactly where `s` holds nothing but separators.
pub open spec fn last_segment(s: Seq<char>) -> Seq<char> {
    let trimmed = trim_separators(s);
    trimmed.skip(drop_last_segment(trimmed).len() as int)
}

/// The two dots that name the directory above.
pub open spec fn parent_marker() -> Seq<char> {
    seq!['.', '.']
}

/// The name of the file or directory that the path `s` ends in: its last segment. A path
/// without segments has no name, and neither has one that ends in `..`.
pub open spec fn base_name_spec(s: Seq<char>) -> Option<Seq<char>> {
    let name = last_segment(s);
    if name.len() == 0 || name == parent_marker() {
        None
    } else {
        Some(name)
    }
}

/// The path of the directory that holds what `s` names: `s` without its last segment and
/// the separators around it, the root staying the root. A path without segments has none.
pub open spec fn parent_spec(s: Seq<char>) -> Option<Seq<char>> {
    let trimmed = trim_separators(s);
    if trimmed.len() == 0 {
        None
    } else {
        let front = drop_last_segment(trimmed);
        if front.len() > 0 && trim_separators(front).len() == 0 {
            Some(seq![SEPARATOR])
        } else {
            Some(trim_separators(front))
        }
    }
}

/// `base` with `tail` below it: joined by one separator, unless `base` is empty or ends
/// in a separator already.
pub open spec fn join_spec(base: Seq<char>, tail: Seq<char>) -> Seq<char> {
    if base.len() == 0 || base.last() == SEPARATOR {
        base + tail
    } else {
        base.push(SEPARATOR) + tail
    }
}

/// How many characters of `chars[..end]` remain once the separators at its end are set aside.
fn trimmed_len(chars: &Vec<char>, end: usize) -> (n: usize)
    requires
        end <= chars.len(),
    ensures
        n <= end,
        chars@.take(n as int) == trim_separators(chars@.take(end as int)),
{
    let mut n = end;
    while n > 0 && chars[n - 1] == SEPARATOR
        invariant
            n <= end <= chars.len(),
            trim_separators(chars@.take(n as int)) == trim_separators(chars@.take(end as int)),
        decreases n,
    {
        proof {
            assert(chars@.take(n as int).drop_last() =~= chars@.take(n - 1));
        }
        n -= 1;
    }
    proof {
        if n > 0 {
            assert(chars@.take(n as int).last() == chars@[n - 1]);
        }
    }
    n
}

/// Where the last segment of `chars[..end]` starts.
fn segment_start(chars: &Vec<char>, end: usize) -> (n: usize)
    requires
        end <= chars.len(),
    ensures
        n <= end,
        chars@.take(n as int) == drop_last_segment(chars@.take(end as int)),
{
    let mut n = end;
    while n > 0 && chars[n - 1] != SEPARATOR
        invariant
            n <= end <= chars.len(),
            drop_last_segment(chars@.take(n as int)) == drop_last_segment(chars@.take(end as int)),
        decreases n,
    {
        proof {
            assert(chars@.take(n as int).drop_last() =~= chars@.take(n - 1));
        }
        n -= 1;
    }
    proof {
        if n > 0 {
            assert(chars@.take(n as int).last() == chars@[n - 1]);
        }
    }
    n
}

/// The characters of `chars` from `from` up to `to`.
pub fn slice_of(chars: &Vec<char>, from: usize, to: usize) -> (part: Vec<char>)
    requires
        from <= to <= chars.len(),
    ensures
        part@ == chars@.subrange(from as int, to as int),
{
    let mut part: Vec<char> = Vec::new();
    let mut i = from;
    while i < to
        invariant
            from <= i <= to <= chars.len(),
            part@ == chars@.subrange(from as int, i as int),
        decreases to - i,
    {
        part.push(chars[i]);
        assert(chars@.subrange(from as int, i as int).push(chars@[i as int]) =~= chars@.subrange(
            from as int,
            i + 1,
        ));
        i += 1;
    }
    part
}

/// The name that the path ends in, where it has one.
pub fn base_name(path: &str) -> (name: Option<String>)
    ensures
        match name {
            Some(text) => base_name_spec(path@) == Some(text@),
            None => base_name_spec(path@) is None,
        },
{
    let chars = chars_of(path);
    let end = trimmed_len(&chars, chars.len());
    let start = segment_start(&chars, end);
    proof {
        assert(chars@.take(chars.len() as int) =~= chars@);
        let trimmed = trim_separators(chars@);
        assert(chars@.take(end as int).take(start as int) =~= chars@.take(start as int));
        assert(trimmed.skip(start as int) =~= chars@.subrange(start as int, end as int));
    }
    let name = slice_of(&chars, start, end);
    if name.len() == 0 {
        return None;
    }
    if name.len() == 2 && name[0] == '.' && name[1] == '.' {
        assert(name@ =~= parent_marker());
        return None;
    }
    proof {
        if name@ == parent_marker() {
            assert(name@.len() == 2);
            assert(name@[0] == '.' && name@[1] == '.');
        }
    }
    Some(string_of(&name))
}

/// The path of the directory above, where there is one.
pub fn parent_dir(path: &str) -> (parent: Option<String>)
    ensures
        match parent {
            Some(text) => parent_spec(path@) == Some(text@),
            None => parent_spec(path@) is None,
        },
{
    let chars = chars_of(path);
    let end = trimmed_len(&chars, chars.len());
    if end == 0 {
        proof {
            assert(chars@.take(chars.len() as int) =~= chars@);
            assert(chars@.take(0) =~= Seq::<char>::empty());
        }
        return None;
    }
    let start = segment_start(&chars, end);
    let front_end = trimmed_len(&chars, start);
    proof {
        assert(chars@.take(chars.len() as int) =~= chars@);
        assert(chars@.take(end as int).take(start as int) =~= chars@.take(start as int));
        assert(chars@.take(start as int).take(front_end as int) =~= chars@.take(front_end as int));
    }
    if start > 0 && front_end == 0 {
        let mut root: Vec<char> = Vec::new();
        root.push(SEPARATOR);
        assert(root@ =~= seq![SEPARATOR]);
        return Some(string_of(&root));
    }
    let front = slice_of(&chars, 0, front_end);
    assert(front@ =~= chars@.take(front_end as int));
    Some(string_of(&front))
}

/// `base` with `tail` below it.
pub fn join_path(base: &str, tail: &str) -> (joined: String)
    ensures
        joined@ == join_spec(base@, tail@),
{
    let base_chars = chars_of(base);
    let mut joined = base.to_string();
    if base_chars.len() > 0 && base_chars[base_chars.len() - 1] != SEPARATOR {
        joined.push(SEPARATOR);
    }
    joined.push_str(tail);
    joined
}

/// The segments of `s`: its maximal runs of characters that are not separators, in order.
pub open spec fn segments(s: Seq<char>) -> Seq<Seq<char>>
    decreases s.len(),
{
    if s.len() == 0 {
        seq![]
    } else {
        let init = segments(s.drop_last());
        if s.last() == SEPARATOR {
            init
        } else if s.len() >= 2 && s[s.len() - 2] != SEPARATOR {
            init.drop_last().push(init.last().push(s.last()))
        } else {
            init.push(seq![s.last()])
        }
    }
}

/// The components of the path `s`: the root, written as a separator, where `s` starts
/// at the root, and then its segments.
pub open spec fn components(s: Seq<char>) -> Seq<Seq<char>> {
    if s.len() > 0 && s[0] == SEPARATOR {
        seq![seq![SEPARATOR]] + segments(s)
    } else {
        segments(s)
    }
}

/// `parts` written one after the other with a separator between neighbours.
pub open spec fn join_components(parts: Seq<Seq<char>>) -> Seq<char>
    decreases parts.len(),
{
    if parts.len() == 0 {
        seq![]
    } else if parts.len() == 1 {
        parts[0]
    } else {
        join_components(parts.drop_last()).push(SEPARATOR) + parts.last()
    }
}

/// The last `count` components of `parts`, or all of them where there are fewer.
pub open spec fn last_components(parts: Seq<Seq<char>>, count: nat) -> Seq<Seq<char>> {
    if count >= parts.len() {
        parts
    } else {
        parts.skip(parts.len() - count)
    }
}

/// The segments of a path, in order.
pub fn split_segments(chars: &Vec<char>) -> (parts: Vec<Vec<char>>)
    ensures
        crate::order::rows(parts@) == segments(chars@),
{
    let mut parts: Vec<Vec<char>> = Vec::new();
    let mut current: Vec<char> = Vec::new();
    let mut i: usize = 0;
    assert(crate::order::rows(parts@) =~= segments(chars@.take(0)));
    while i < chars.len()
        invariant
            i <= chars.len(),
            current@.len() > 0 <==> (i > 0 && chars@[i - 1] != SEPARATOR),
            current@.len() > 0 ==> segments(chars@.take(i as int)) == crate::order::rows(
                parts@,
            ).push(current@),
            current@.len() == 0 ==> segments(chars@.take(i as int)) == crate::order::rows(parts@),
        decreases chars.len() - i,
    {
        let c = chars[i];
        let ghost before = chars@.take(i as int);
        let ghost after = chars@.take(i + 1);
        proof {
            assert(after.drop_last() =~= before);
            assert(after.last() == c);
            if i > 0 {
                assert(after[after.len() - 2] == chars@[i - 1]);
            }
        }
        if c == SEPARATOR {
            if current.len() > 0 {
                let ghost rows_before = crate::order::rows(parts@);
                let ghost finished = current@;
                parts.push(current);
                current = Vec::new();
                assert(crate::order::rows(parts@) =~= rows_before.push(finished));
            }
        } else {
            let ghost open_before = current@;
            current.push(c);
            proof {
                let init = segments(before);
                let rows_now = crate::order::rows(parts@);
                if open_before.len() > 0 {
                    assert(init.last() == open_before);
                    assert(init.drop_last() =~= rows_now);
                    assert(segments(after) =~= rows_now.push(current@));
                } else {
                    assert(current@ =~= seq![c]);
                    assert(segments(after) =~= rows_now.push(current@));
                }
            }
        }
        i += 1;
    }
    proof {
        assert(chars@.take(chars.len() as int) =~= chars@);
    }
    if current.len() > 0 {
        let ghost rows_before = crate::order::rows(parts@);
        let ghost finished = current@;
        parts.push(current);
        assert(crate::order::rows(parts@) =~= rows_before.push(finished));
    }
    parts
}

/// The components of a path, in order.
pub fn split_components(path: &str) -> (parts: Vec<Vec<char>>)
    ensures
        crate::order::rows(parts@) == components(path@),
{
    let chars = chars_of(path);
    let segs = split_segments(&chars);
    if chars.len() > 0 && chars[0] == SEPARATOR {
        let mut parts: Vec<Vec<char>> = Vec::new();
        let mut root: Vec<char> = Vec::new();
        root.push(SEPARATOR);
        assert(root@ =~= seq![SEPARATOR]);
        parts.push(root);
        let mut i: usize = 0;
        while i < segs.len()
            invariant
                i <= segs.len(),
                crate::order::rows(parts@) =~= seq![seq![SEPARATOR]] + crate::order::rows(
                    segs@,
                ).take(i as int),
            decreases segs.len() - i,
        {
            let ghost rows_before = crate::order::rows(parts@);
            let piece = slice_of(&segs[i], 0, segs[i].len());
            assert(piece@ =~= segs[i as int]@);
            parts.push(piece);
            proof {
                assert(crate::order::rows(parts@) =~= rows_before.push(segs[i as int]@));
                assert(crate::order::rows(segs@).take(i + 1) =~= crate::order::rows(segs@).take(
                    i as int,
                ).push(segs[i as int]@));
            }
            i += 1;
        }
        assert(crate::order::rows(segs@).take(segs.len() as int) =~= crate::order::rows(segs@));
        parts
    } else {
        segs
    }
}

/// The last `count` of `parts`, written with separators between them.
pub fn join_last(parts: &Vec<Vec<char>>, count: usize) -> (joined: Vec<char>)
    ensures
        joined@ == join_components(last_components(crate::order::rows(parts@), count as nat)),
{
    let ghost all = crate::order::rows(parts@);
    let start = if count >= parts.len() {
        0
    } else {
        parts.len() - count
    };
    let ghost wanted = last_components(all, count as nat);
    assert(wanted =~= all.skip(start as int));
    let mut joined: Vec<char> = Vec::new();
    let mut i = start;
    while i < parts.len()
        invariant
            start <= i <= parts.len(),
            all == crate::order::rows(parts@),
            wanted == all.skip(start as int),
            joined@ == join_components(wanted.take(i - start)),
        decreases parts.len() - i,
    {
        let ghost done = wanted.take(i - start);
        let ghost next = wanted.take(i - start + 1);
        proof {
            assert(next.drop_last() =~= done);
            assert(next.last() == parts[i as int]@);
        }
        if i > start {
            joined.push(SEPARATOR);
        }
        let mut k: usize = 0;
        let ghost base = joined@;
        while k < parts[i].len()
            invariant
                k <= parts[i as int]@.len(),
                start <= i < parts.len(),
                joined@ == base + parts[i as int]@.take(k as int),
            decreases parts[i as int].len() - k,
        {
            joined.push(parts[i][k]);
            assert(parts[i as int]@.take(k + 1) =~= parts[i as int]@.take(k as int).push(
                parts[i as int]@[k as int],
            ));
            k += 1;
        }
        proof {
            assert(parts[i as int]@.take(parts[i as int]@.len() as int) =~= parts[i as int]@);
            if i == start {
                assert(done.len() == 0);
                assert(base =~= Seq::<char>::empty());
                assert(joined@ =~= parts[i as int]@);
                assert(next.len() == 1);
                assert(next[0] == parts[i as int]@);
            }
        }
        i += 1;
    }
    proof {
        assert(wanted.take(wanted.len() as int) =~= wanted);
    }
    joined
}

} // verus!
