use vstd::prelude::*;
use crate::picker::InputPosition;

verus! {

/// The selection after a step towards the next less preferred match, with `count`
/// matches listed: past the last match the selection wraps to the first.
pub open spec fn step_up(selected: Option<usize>, count: usize) -> Option<usize> {
    if count == 0 {
        selected
    } else {
        match selected {
            Some(i) => if i >= count - 1 {
                Some(0)
            } else {
                Some((i + 1) as usize)
            },
            None => Some(0),
        }
    }
}

/// The selection after a step towards the next more preferred match: before the first
/// match the selection wraps to the last.
pub open spec fn step_down(selected: Option<usize>, count: usize) -> Option<usize> {
    match selected {
        Some(i) => if i == 0 {
            if count == 0 {
                selected
            } else {
                Some((count - 1) as usize)
            }
        } else {
            Some((i - 1) as usize)
        },
        None => Some(0),
    }
}

/// The selection a page further from the best match, but not past the last match.
pub open spec fn page_up_spec(selected: Option<usize>, count: usize, page_size: usize) -> Option<
    usize,
> {
    if count == 0 {
        selected
    } else {
        match selected {
            Some(i) => if i + page_size > count - 1 {
                Some((count - 1) as usize)
            } else {
                Some((i + page_size) as usize)
            },
            None => Some(0),
        }
    }
}

/// The selection a page nearer to the best match, but not past it.
pub open spec fn page_down_spec(selected: Option<usize>, count: usize, page_size: usize) -> Option<
    usize,
> {
    if count == 0 {
        selected
    } else {
        match selected {
            Some(i) => if i < page_size {
                Some(0)
            } else {
                Some((i - page_size) as usize)
            },
            None => Some(0),
        }
    }
}

/// The selection brought in line with a list of `count` matches: an empty list has no
/// selection, a list with matches has one, and a selection beyond the list falls back to
/// the last match.
pub open spec fn settled(selected: Option<usize>, count: usize) -> Option<usize> {
    match selected {
        Some(i) => if count == 0 {
            None
        } else if i > count {
            Some((count - 1) as usize)
        } else {
            selected
        },
        None => if count > 0 {
            Some(0)
        } else {
            None
        },
    }
}

/// With the input line at the bottom the list grows upwards, and the key for "up" leads to
/// the next less preferred match; with the input line at the top it is the other way
/// round.
pub open spec fn move_up_spec(
    selected: Option<usize>,
    count: usize,
    position: InputPosition,
) -> Option<usize> {
    if position == InputPosition::Bottom {
        step_up(selected, count)
    } else {
        step_down(selected, count)
    }
}

pub open spec fn move_down_spec(
    selected: Option<usize>,
    count: usize,
    position: InputPosition,
) -> Option<usize> {
    if position == InputPosition::Bottom {
        step_down(selected, count)
    } else {
        step_up(selected, count)
    }
}

/// The selection after the key for "page up": a page further from the best match with
/// the input line at the bottom, a page nearer to it with the input line at the top.
pub open spec fn page_up_key_spec(
    selected: Option<usize>,
    count: usize,
    page_size: usize,
    position: InputPosition,
) -> Option<usize> {
    if position == InputPosition::Bottom {
        page_up_spec(selected, count, page_size)
    } else {
        page_down_spec(selected, count, page_size)
    }
}

/// The selection after the key for "page down".
pub open spec fn page_down_key_spec(
    selected: Option<usize>,
    count: usize,
    page_size: usize,
    position: InputPosition,
) -> Option<usize> {
    if position == InputPosition::Bottom {
        page_down_spec(selected, count, page_size)
    } else {
        page_up_spec(selected, count, page_size)
    }
}

pub fn do_move_up(selected: Option<usize>, count: usize) -> (next: Option<usize>)
    ensures
        next == step_up(selected, count),
{
    if count == 0 {
        return selected;
    }
    let max = count - 1;
    match selected {
        Some(i) => if i >= max {
            Some(0)
        } else {
            Some(i + 1)
        },
        None => Some(0),
    }
}

pub fn do_move_down(selected: Option<usize>, count: usize) -> (next: Option<usize>)
    ensures
        next == step_down(selected, count),
{
    match selected {
        Some(i) => if i == 0 {
            if count == 0 {
                selected
            } else {
                Some(count - 1)
            }
        } else {
            Some(i - 1)
        },
        None => Some(0),
    }
}

pub fn do_page_up(selected: Option<usize>, count: usize, page_size: usize) -> (next: Option<usize>)
    ensures
        next == page_up_spec(selected, count, page_size),
{
    if count == 0 {
        return selected;
    }
    let max = count - 1;
    match selected {
        Some(i) => {
            let target = i.saturating_add(page_size);
            if target > max {
                Some(max)
            } else {
                Some(target)
            }
        },
        None => Some(0),
    }
}

pub fn do_page_down(selected: Option<usize>, count: usize, page_size: usize) -> (next: Option<
    usize,
>)
    ensures
        next == page_down_spec(selected, count, page_size),
{
    if count == 0 {
        return selected;
    }
    match selected {
        Some(i) => Some(i.saturating_sub(page_size)),
        None => Some(0),
    }
}

pub fn settle(selected: Option<usize>, count: usize) -> (next: Option<usize>)
    ensures
        next == settled(selected, count),
{
    match selected {
        Some(i) => if count == 0 {
            None
        } else if i > count {
            Some(count - 1)
        } else {
            selected
        },
        None => if count > 0 {
            Some(0)
        } else {
            None
        },
    }
}

/// Stepping keeps a selection that lies within the list within the list.
pub proof fn lemma_steps_stay_in_list(selected: Option<usize>, count: usize, page_size: usize)
    requires
        count > 0,
        selected matches Some(i) ==> i < count,
    ensures
        step_up(selected, count) matches Some(i) && i < count,
        step_down(selected, count) matches Some(i) && i < count,
        page_up_spec(selected, count, page_size) matches Some(i) && i < count,
        page_down_spec(selected, count, page_size) matches Some(i) && i < count,
{
}

} // verus!
