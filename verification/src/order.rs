use vstd::prelude::*;

verus! {

/// `a` comes strictly before `b` in dictionary order, characters compared by code point.
pub open spec fn lex_less(a: Seq<char>, b: Seq<char>) -> bool
    decreases a.len(),
{
    if b.len() == 0 {
        false
    } else if a.len() == 0 {
        true
    } else if (a[0] as int) < (b[0] as int) {
        true
    } else if (a[0] as int) > (b[0] as int) {
        false
    } else {
        lex_less(a.drop_first(), b.drop_first())
    }
}

/// `a` comes before `b` in dictionary order, or is `b`.
pub open spec fn lex_le(a: Seq<char>, b: Seq<char>) -> bool {
    a == b || lex_less(a, b)
}

/// The texts stand in dictionary order, equal ones allowed.
pub open spec fn sorted(texts: Seq<Seq<char>>) -> bool {
    forall|i: int, j: int| 0 <= i < j < texts.len() ==> lex_le(#[trigger] texts[i], #[trigger] texts[j])
}

/// The texts stand in dictionary order and none occurs twice.
pub open spec fn strictly_sorted(texts: Seq<Seq<char>>) -> bool {
    forall|i: int, j: int| 0 <= i < j < texts.len() ==> lex_less(#[trigger] texts[i], #[trigger] texts[j])
}

/// No text comes before itself.
pub proof fn lemma_lex_irreflexive(a: Seq<char>)
    ensures
        !lex_less(a, a),
    decreases a.len(),
{
    if a.len() > 0 {
        lemma_lex_irreflexive(a.drop_first());
    }
}

/// Of two different texts exactly one comes before the other.
pub proof fn lemma_lex_total(a: Seq<char>, b: Seq<char>)
    ensures
        a != b ==> (lex_less(a, b) <==> !lex_less(b, a)),
        a == b ==> !lex_less(a, b),
    decreases a.len(),
{
    if a == b {
        lemma_lex_irreflexive(a);
    } else if a.len() > 0 && b.len() > 0 {
        if a[0] == b[0] {
            assert(a.drop_first() != b.drop_first()) by {
                if a.drop_first() == b.drop_first() {
                    assert(a =~= seq![a[0]] + a.drop_first());
                    assert(b =~= seq![b[0]] + b.drop_first());
                }
            }
            lemma_lex_total(a.drop_first(), b.drop_first());
        }
    } else if a.len() == 0 {
        assert(b.len() > 0) by {
            if b.len() == 0 {
                assert(a =~= b);
            }
        }
    }
}

/// Dictionary order is transitive.
pub proof fn lemma_lex_transitive(a: Seq<char>, b: Seq<char>, c: Seq<char>)
    requires
        lex_less(a, b),
        lex_less(b, c),
    ensures
        lex_less(a, c),
    decreases a.len(),
{
    if a.len() > 0 {
        if a[0] == b[0] && b[0] == c[0] {
            lemma_lex_transitive(a.drop_first(), b.drop_first(), c.drop_first());
        }
    }
}

/// Whether `a` comes strictly before `b` in dictionary order.
pub fn text_less(a: &Vec<char>, b: &Vec<char>) -> (less: bool)
    ensures
        less == lex_less(a@, b@),
{
    let mut i: usize = 0;
    proof {
        assert(a@.skip(0) =~= a@);
        assert(b@.skip(0) =~= b@);
    }
    while i < a.len() && i < b.len()
        invariant
            i <= a.len(),
            i <= b.len(),
            lex_less(a@, b@) == lex_less(a@.skip(i as int), b@.skip(i as int)),
        decreases a.len() - i,
    {
        let x = a[i];
        let y = b[i];
        proof {
            assert(a@.skip(i as int)[0] == a@[i as int]);
            assert(b@.skip(i as int)[0] == b@[i as int]);
            assert(a@.skip(i as int).drop_first() =~= a@.skip(i + 1));
            assert(b@.skip(i as int).drop_first() =~= b@.skip(i + 1));
        }
        if x < y {
            return true;
        }
        if x > y {
            return false;
        }
        i += 1;
    }
    proof {
        assert(a@.skip(i as int).len() == a.len() - i);
        assert(b@.skip(i as int).len() == b.len() - i);
    }
    i < b.len()
}

/// Whether `a` and `b` hold the same characters.
pub fn text_equal(a: &Vec<char>, b: &Vec<char>) -> (equal: bool)
    ensures
        equal == (a@ == b@),
{
    if a.len() != b.len() {
        return false;
    }
    let mut i: usize = 0;
    while i < a.len()
        invariant
            i <= a.len(),
            a.len() == b.len(),
            forall|k: int| 0 <= k < i ==> a@[k] == b@[k],
        decreases a.len() - i,
    {
        if a[i] != b[i] {
            return false;
        }
        i += 1;
    }
    assert(a@ =~= b@);
    true
}

/// The character sequences that a list of character vectors holds, in order.
pub open spec fn rows(list: Seq<Vec<char>>) -> Seq<Seq<char>> {
    list.map_values(|row: Vec<char>| row@)
}

/// Where `key` stands in the sorted list `list`, where it stands in it at all.
pub fn search_sorted(list: &Vec<Vec<char>>, key: &Vec<char>) -> (found: Option<usize>)
    requires
        sorted(rows(list@)),
    ensures
        match found {
            Some(i) => i < list.len() && list[i as int]@ == key@,
            None => !rows(list@).contains(key@),
        },
{
    let ghost all = rows(list@);
    let mut low: usize = 0;
    let mut high: usize = list.len();
    while low < high
        invariant
            low <= high <= list.len(),
            all == rows(list@),
            sorted(all),
            forall|k: int| 0 <= k < low ==> lex_less(#[trigger] all[k], key@),
            forall|k: int| high <= k < list.len() ==> lex_less(key@, #[trigger] all[k]),
        decreases high - low,
    {
        let mid = low + (high - low) / 2;
        assert(all[mid as int] == list[mid as int]@);
        if text_less(&list[mid], key) {
            proof {
                assert forall|k: int| 0 <= k < mid + 1 implies lex_less(#[trigger] all[k], key@) by {
                    if k < mid {
                        assert(lex_le(all[k], all[mid as int]));
                        if all[k] != all[mid as int] {
                            lemma_lex_transitive(all[k], all[mid as int], key@);
                        }
                    }
                }
            }
            low = mid + 1;
        } else if text_less(key, &list[mid]) {
            proof {
                assert forall|k: int| mid <= k < list.len() implies lex_less(key@, #[trigger] all[k]) by {
                    if k > mid {
                        assert(lex_le(all[mid as int], all[k]));
                        if all[k] != all[mid as int] {
                            lemma_lex_transitive(key@, all[mid as int], all[k]);
                        }
                    }
                }
            }
            high = mid;
        } else {
            proof {
                lemma_lex_total(list[mid as int]@, key@);
            }
            return Some(mid);
        }
    }
    proof {
        assert forall|k: int| 0 <= k < all.len() implies all[k] != key@ by {
            lemma_lex_irreflexive(key@);
        }
    }
    None
}

/// Puts `row` into the sorted list `list` behind every row that does not come after it.
pub fn insert_sorted(list: &mut Vec<Vec<char>>, row: Vec<char>) -> (at: usize)
    requires
        sorted(rows(old(list)@)),
    ensures
        sorted(rows(final(list)@)),
        at <= old(list).len(),
        rows(final(list)@) == rows(old(list)@).insert(at as int, row@),
        forall|k: int| 0 <= k < at ==> lex_le(#[trigger] rows(old(list)@)[k], row@),
        forall|k: int| at <= k < old(list).len() ==> lex_less(row@, #[trigger] rows(old(list)@)[k]),
{
    let ghost before = rows(list@);
    let mut at: usize = list.len();
    while at > 0 && text_less(&row, &list[at - 1])
        invariant
            at <= list.len(),
            list@ == old(list)@,
            before == rows(list@),
            forall|k: int| at <= k < list.len() ==> lex_less(row@, #[trigger] before[k]),
        decreases at,
    {
        assert(before[at - 1] == list[at - 1]@);
        at -= 1;
    }
    proof {
        if at > 0 {
            assert(before[at - 1] == list[at - 1]@);
            lemma_lex_total(row@, before[at - 1]);
        }
    }
    let ghost row_view = row@;
    list.insert(at, row);
    proof {
        let after = rows(list@);
        assert(after =~= before.insert(at as int, row_view));
        assert forall|i: int, j: int| 0 <= i < j < after.len() implies lex_le(#[trigger] after[i], #[trigger] after[j]) by {
            if j < at {
                assert(after[i] == before[i] && after[j] == before[j]);
            } else if j == at {
                assert(after[i] == before[i]);
                assert(lex_le(before[i], before[at - 1]));
                if before[i] != before[at - 1] && before[at - 1] != row_view {
                    lemma_lex_transitive(before[i], before[at - 1], row_view);
                }
            } else if i < at {
                assert(after[i] == before[i] && after[j] == before[j - 1]);
            } else if i == at {
                assert(after[j] == before[j - 1]);
            } else {
                assert(after[i] == before[i - 1] && after[j] == before[j - 1]);
            }
        }
        assert forall|k: int| 0 <= k < at implies lex_le(#[trigger] before[k], row_view) by {
            assert(lex_le(before[k], before[at - 1]));
            if before[k] != before[at - 1] && before[at - 1] != row_view {
                lemma_lex_transitive(before[k], before[at - 1], row_view);
            }
        }
    }
    at
}

} // verus!
