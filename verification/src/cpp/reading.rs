//! Reading the text and the descriptions of a documented item from the
//! events of an XML document.

use vstd::prelude::*;
use crate::cpp::common::text_view;
use crate::markup::{Event, EventView, ReadError, ReadErrorView, event_views};
use crate::text::same_text;

verus! {

/// What a reader makes of the events from some place on: the value read
/// and the place behind the last event it took.
pub type ReadView<T> = Result<(T, int), ReadErrorView>;

/// `acc` with the text `more` added behind a blank; text that is empty
/// adds nothing.
pub open spec fn more_text(acc: Option<Seq<char>>, more: Seq<char>) -> Option<Seq<char>> {
    if more.len() == 0 {
        acc
    } else {
        match acc {
            Some(text) => Some(text + " "@ + more),
            None => Some(more),
        }
    }
}

/// The text read by `characters_read` from `pos` on, `acc` having been
/// read before and `depth` elements being open.
pub open spec fn text_scan(
    events: Seq<EventView>,
    pos: int,
    acc: Option<Seq<char>>,
    depth: nat,
) -> ReadView<Option<Seq<char>>>
    decreases events.len() - pos,
{
    if pos < 0 || pos >= events.len() {
        Err(ReadErrorView::Ended)
    } else {
        match events[pos] {
            EventView::Characters(text) => text_scan(events, pos + 1, more_text(acc, text), depth),
            EventView::Start { .. } => text_scan(events, pos + 1, acc, depth + 1),
            EventView::End { .. } => if depth == 0 {
                Ok((acc, pos + 1))
            } else {
                text_scan(events, pos + 1, acc, (depth - 1) as nat)
            },
            EventView::Other | EventView::EndDocument => text_scan(events, pos + 1, acc, depth),
            EventView::Failed(message) => Err(ReadErrorView::Syntax(message)),
            EventView::StartDocument => Err(ReadErrorView::Unexpected),
        }
    }
}

/// The text of the element whose content begins at `pos`: all text in it
/// and in the elements it holds, the pieces joined by blanks, up to the
/// event that closes it. Nothing where it holds no text.
pub open spec fn characters_read(events: Seq<EventView>, pos: int) -> ReadView<Option<Seq<char>>> {
    text_scan(events, pos, None, 0)
}

/// `acc` with the paragraph `more` added on a new line; a paragraph
/// without text adds nothing.
pub open spec fn more_paragraphs(acc: Option<Seq<char>>, more: Option<Seq<char>>) -> Option<
    Seq<char>,
> {
    match more {
        Some(paragraph) => match acc {
            Some(text) => Some(text + "\n"@ + paragraph),
            None => Some(paragraph),
        },
        None => acc,
    }
}

/// The description read by `description_read` from `pos` on, `acc`
/// having been read before and `depth` elements being open.
pub open spec fn paragraphs_scan(
    events: Seq<EventView>,
    pos: int,
    acc: Option<Seq<char>>,
    depth: nat,
) -> ReadView<Option<Seq<char>>>
    decreases events.len() - pos,
{
    if pos < 0 || pos >= events.len() {
        Err(ReadErrorView::Ended)
    } else {
        match events[pos] {
            EventView::Start { name, .. } => if name == "para"@ {
                match characters_read(events, pos + 1) {
                    Ok((paragraph, next)) => if pos < next <= events.len() {
                        paragraphs_scan(events, next, more_paragraphs(acc, paragraph), depth)
                    } else {
                        Err(ReadErrorView::Ended)
                    },
                    Err(e) => Err(e),
                }
            } else {
                paragraphs_scan(events, pos + 1, acc, depth + 1)
            },
            EventView::End { .. } => if depth == 0 {
                Ok((acc, pos + 1))
            } else {
                paragraphs_scan(events, pos + 1, acc, (depth - 1) as nat)
            },
            EventView::Failed(message) => Err(ReadErrorView::Syntax(message)),
            _ => paragraphs_scan(events, pos + 1, acc, depth),
        }
    }
}

/// The description in the element whose content begins at `pos`: the
/// texts of its paragraphs, one to a line, up to the event that closes it.
pub open spec fn description_read(events: Seq<EventView>, pos: int) -> ReadView<Option<Seq<char>>> {
    paragraphs_scan(events, pos, None, 0)
}

/// What a reader hands back is what `read` says: the same value and place
/// or the same error.
pub open spec fn text_agrees(
    res: Result<(Option<String>, usize), ReadError>,
    read: ReadView<Option<Seq<char>>>,
) -> bool {
    match read {
        Ok((text, next)) => res matches Ok((t, n)) && text_view(t) == text && n == next,
        Err(e) => res matches Err(error) && error@ == e,
    }
}

/// Reads the text of the element whose content begins at `pos`.
pub fn read_characters_only(events: &Vec<Event>, pos: usize) -> (res: Result<
    (Option<String>, usize),
    ReadError,
>)
    ensures
        text_agrees(res, characters_read(event_views(events@), pos as int)),
        res matches Ok((_, next)) ==> pos < next <= events@.len(),
{
    let ghost all = event_views(events@);
    if pos >= events.len() {
        return Err(ReadError::Ended);
    }
    let mut acc: Option<String> = None;
    let mut depth: usize = 0;
    let mut at: usize = pos;
    while at < events.len()
        invariant
            pos <= at <= events@.len(),
            all == event_views(events@),
            depth <= at - pos,
            characters_read(all, pos as int) == text_scan(
                all,
                at as int,
                text_view(acc),
                depth as nat,
            ),
        decreases events@.len() - at,
    {
        assert(all[at as int] == events@[at as int]@);
        match &events[at] {
            Event::Characters(text) => {
                if !text.as_str().is_empty() {
                    acc = match acc {
                        Some(before) => {
                            let mut joined = before;
                            joined.append(" ");
                            joined.append(text.as_str());
                            Some(joined)
                        },
                        None => Some(text.clone()),
                    };
                }
            },
            Event::Start { .. } => {
                depth += 1;
            },
            Event::End { .. } => {
                if depth == 0 {
                    return Ok((acc, at + 1));
                }
                depth -= 1;
            },
            Event::Other => {},
            Event::EndDocument => {},
            Event::Failed(message) => {
                return Err(ReadError::Syntax(message.clone()));
            },
            Event::StartDocument => {
                return Err(ReadError::Unexpected);
            },
        }
        at += 1;
    }
    Err(ReadError::Ended)
}

/// Reads the description in the element whose content begins at `pos`.
pub fn read_description(events: &Vec<Event>, pos: usize) -> (res: Result<
    (Option<String>, usize),
    ReadError,
>)
    ensures
        text_agrees(res, description_read(event_views(events@), pos as int)),
        res matches Ok((_, next)) ==> pos < next <= events@.len(),
{
    let ghost all = event_views(events@);
    if pos >= events.len() {
        return Err(ReadError::Ended);
    }
    let mut acc: Option<String> = None;
    let mut depth: usize = 0;
    let mut at: usize = pos;
    while at < events.len()
        invariant
            pos <= at <= events@.len(),
            all == event_views(events@),
            depth <= at - pos,
            description_read(all, pos as int) == paragraphs_scan(
                all,
                at as int,
                text_view(acc),
                depth as nat,
            ),
        decreases events@.len() - at,
    {
        assert(all[at as int] == events@[at as int]@);
        match &events[at] {
            Event::Start { name, .. } => {
                if same_text(name.as_str(), "para") {
                    match read_characters_only(events, at + 1) {
                        Ok((paragraph, next)) => {
                            acc = match paragraph {
                                Some(p) => match acc {
                                    Some(before) => {
                                        let mut joined = before;
                                        joined.append("\n");
                                        joined.append(p.as_str());
                                        Some(joined)
                                    },
                                    None => Some(p),
                                },
                                None => acc,
                            };
                            at = next;
                        },
                        Err(error) => {
                            return Err(error);
                        },
                    }
                } else {
                    depth += 1;
                    at += 1;
                }
            },
            Event::End { .. } => {
                if depth == 0 {
                    return Ok((acc, at + 1));
                }
                depth -= 1;
                at += 1;
            },
            Event::Failed(message) => {
                return Err(ReadError::Syntax(message.clone()));
            },
            _ => {
                at += 1;
            },
        }
    }
    Err(ReadError::Ended)
}

} // verus!
