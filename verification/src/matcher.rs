use vstd::prelude::*;

verus! {

/// `nucleo::Nucleo`, a fuzzy matcher that works in the background on a growing list of
/// items.
#[verifier::external_type_specification]
#[verifier::external_body]
#[verifier::reject_recursive_types(T)]
pub struct ExNucleo<T: Sync + Send + 'static>(nucleo::Nucleo<T>);

/// The items that were handed to a matcher since it was made, in the order of their
/// arrival.
pub uninterp spec fn injected(matcher: nucleo::Nucleo<String>) -> Seq<Seq<char>>;

/// The matches of the matcher's latest snapshot, the best first: the items that matched
/// the pattern as far as the matcher had come when the snapshot was taken.
pub uninterp spec fn snapshot_matches(matcher: nucleo::Nucleo<String>) -> Seq<Seq<char>>;

/// How many items the matcher had taken up when its latest snapshot was taken.
pub uninterp spec fn snapshot_total(matcher: nucleo::Nucleo<String>) -> nat;

/// The pattern that the matcher holds for its only column: the atoms of the pattern, in
/// order, each written as a text.
pub uninterp spec fn matcher_pattern(matcher: nucleo::Nucleo<String>) -> Seq<Seq<char>>;

/// The atoms that `Pattern::reparse` makes of a pattern text when case is ignored and
/// the normalization is the smart one, in order, each written as a text.
pub uninterp spec fn parsed_pattern(text: Seq<char>) -> Seq<Seq<char>>;

/// Called by the matcher when new results are there. The picker redraws on every turn of
/// its loop, so nothing is to be done.
pub fn request_redraw() {
}

/// `Nucleo::new`, with the default configuration, the default number of threads and one
/// column to match on: a matcher that holds no items, whose snapshot is empty, and whose
/// pattern has no atoms, as an empty pattern text has none.
#[verifier::external_body]
pub(crate) fn new_matcher() -> (matcher: nucleo::Nucleo<String>)
    ensures
        injected(matcher) == Seq::<Seq<char>>::empty(),
        snapshot_matches(matcher) == Seq::<Seq<char>>::empty(),
        snapshot_total(matcher) == 0,
        matcher_pattern(matcher) == parsed_pattern(Seq::<char>::empty()),
{
    nucleo::Nucleo::new(nucleo::Config::DEFAULT, std::sync::Arc::new(request_redraw), None, 1)
}

/// `Injector::push`, on the matcher's own injector: the item is appended to the items of
/// the matcher, to be matched on its text. The snapshot and the pattern stay as they are
/// until the next `tick`.
#[verifier::external_body]
pub(crate) fn inject(matcher: &mut nucleo::Nucleo<String>, item: String)
    ensures
        injected(*final(matcher)) == injected(*old(matcher)).push(item@),
        snapshot_matches(*final(matcher)) == snapshot_matches(*old(matcher)),
        snapshot_total(*final(matcher)) == snapshot_total(*old(matcher)),
        matcher_pattern(*final(matcher)) == matcher_pattern(*old(matcher)),
{
    matcher.injector().push(item, |value, columns| columns[0] = value.as_str().into());
}

/// The snapshot speaks of the items: every match is one of `items`, and no more items
/// were taken up than there are.
pub open spec fn snapshot_within(matches: Seq<Seq<char>>, total: nat, items: Seq<Seq<char>>) -> bool {
    &&& forall|i: int| 0 <= i < matches.len() ==> items.contains(#[trigger] matches[i])
    &&& total <= items.len()
}

/// `Nucleo::tick`: lets the matcher take up new items and results for at most `timeout`
/// milliseconds. The items and the pattern that it has been handed stay as they are. How
/// far the matcher has come by then is not stated: only that its snapshot holds matches
/// out of the items, and has taken up no more items than there are.
#[verifier::external_body]
pub(crate) fn tick(matcher: &mut nucleo::Nucleo<String>, timeout: u64) -> (changed: bool)
    ensures
        injected(*final(matcher)) == injected(*old(matcher)),
        matcher_pattern(*final(matcher)) == matcher_pattern(*old(matcher)),
        snapshot_within(
            snapshot_matches(*final(matcher)),
            snapshot_total(*final(matcher)),
            injected(*final(matcher)),
        ),
{
    matcher.tick(timeout).changed
}

/// `MultiPattern::reparse` on the matcher's only column: the pattern of the matcher is
/// from now on what `pattern` is parsed into, without regard to case. The items stay as
/// they are, and so does the snapshot until the next `tick`.
#[verifier::external_body]
pub(crate) fn set_pattern(matcher: &mut nucleo::Nucleo<String>, pattern: &str)
    ensures
        injected(*final(matcher)) == injected(*old(matcher)),
        snapshot_matches(*final(matcher)) == snapshot_matches(*old(matcher)),
        snapshot_total(*final(matcher)) == snapshot_total(*old(matcher)),
        matcher_pattern(*final(matcher)) == parsed_pattern(pattern@),
{
    matcher.pattern.reparse(
        0,
        pattern,
        nucleo::pattern::CaseMatching::Ignore,
        nucleo::pattern::Normalization::Smart,
        false,
    );
}

/// `Snapshot::matched_item_count` of the matcher's latest snapshot: how many matches the
/// snapshot holds.
#[verifier::external_body]
pub(crate) fn matched_count(matcher: &nucleo::Nucleo<String>) -> (count: u32)
    ensures
        count == snapshot_matches(*matcher).len(),
{
    matcher.snapshot().matched_item_count()
}

/// `Snapshot::item_count` of the matcher's latest snapshot: how many items the matcher
/// had taken up.
#[verifier::external_body]
pub(crate) fn item_count(matcher: &nucleo::Nucleo<String>) -> (total: u32)
    ensures
        total == snapshot_total(*matcher),
{
    matcher.snapshot().item_count()
}

/// `Snapshot::get_matched_item` of the matcher's latest snapshot: the `n`-th best match,
/// where the snapshot holds as many. Every match is one of the items that the matcher was
/// handed.
#[verifier::external_body]
pub(crate) fn matched_item(matcher: &nucleo::Nucleo<String>, n: u32) -> (item: Option<String>)
    ensures
        item is Some <==> n < snapshot_matches(*matcher).len(),
        item matches Some(text) ==> text@ == snapshot_matches(*matcher)[n as int],
        item matches Some(text) ==> injected(*matcher).contains(text@),
{
    matcher.snapshot().get_matched_item(n).map(|item| item.data.clone())
}

} // verus!
