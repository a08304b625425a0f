//! From key symbols to headings: which keys steer, and which turns are
//! refused.

use vstd::prelude::*;
use crate::grid::Heading;

verus! {

/// A key symbol as the input source decodes it. Every key that is neither an
/// arrow nor a plain character is `Other`.
#[derive(Clone, Copy, Debug, PartialEq, Eq, Structural)]
pub enum Key {
    Up,
    Down,
    Left,
    Right,
    Char(char),
    Other,
}

/// The heading that a key asks for: the arrows, and the letters `k`, `j`,
/// `h` and `l` for up, down, left and right. Any other key asks for none.
pub open spec fn direction_of(key: Key) -> Option<Heading> {
    match key {
        Key::Up => Some(Heading::Up),
        Key::Down => Some(Heading::Down),
        Key::Left => Some(Heading::Left),
        Key::Right => Some(Heading::Right),
        Key::Char(c) => if c == 'k' {
            Some(Heading::Up)
        } else if c == 'j' {
            Some(Heading::Down)
        } else if c == 'h' {
            Some(Heading::Left)
        } else if c == 'l' {
            Some(Heading::Right)
        } else {
            None
        },
        Key::Other => None,
    }
}

/// The heading after one key: the heading the key asks for, unless it asks
/// for none or for the exact opposite of `committed`, in which case
/// `committed` stays.
pub open spec fn resolved(committed: Heading, key: Key) -> Heading {
    match direction_of(key) {
        Some(h) => if h == committed.opposite() {
            committed
        } else {
            h
        },
        None => committed,
    }
}

/// The heading after a queue of keys that arrived since `committed` was last
/// acted on. Each key is judged against `committed` itself, in order of
/// arrival, and the last one that is accepted wins.
pub open spec fn resolved_queue(committed: Heading, keys: Seq<Key>) -> Heading
    decreases keys.len(),
{
    if keys.len() == 0 {
        committed
    } else {
        let earlier = resolved_queue(committed, keys.drop_last());
        match direction_of(keys.last()) {
            Some(h) => if h == committed.opposite() {
                earlier
            } else {
                h
            },
            None => earlier,
        }
    }
}

/// Whether the key is one of the eight that steer.
pub fn check_valid(key: Key) -> (ok: bool)
    ensures
        ok == direction_of(key).is_some(),
{
    as_direction_key(key).is_some()
}

/// The heading that the key asks for, if it is one of the eight that steer.
pub fn as_direction_key(key: Key) -> (heading: Option<Heading>)
    ensures
        heading == direction_of(key),
{
    match key {
        Key::Up => Some(Heading::Up),
        Key::Down => Some(Heading::Down),
        Key::Left => Some(Heading::Left),
        Key::Right => Some(Heading::Right),
        Key::Char(c) => if c == 'k' {
            Some(Heading::Up)
        } else if c == 'j' {
            Some(Heading::Down)
        } else if c == 'h' {
            Some(Heading::Left)
        } else if c == 'l' {
            Some(Heading::Right)
        } else {
            None
        },
        Key::Other => None,
    }
}

/// Resolves one key against the committed heading.
pub fn resolve(committed: Heading, key: Key) -> (next: Heading)
    ensures
        next == resolved(committed, key),
{
    match as_direction_key(key) {
        Some(h) => if h == committed.opposite() {
            committed
        } else {
            h
        },
        None => committed,
    }
}

/// Resolves every queued key against the committed heading, in order of
/// arrival.
pub fn resolve_queue(committed: Heading, keys: &Vec<Key>) -> (next: Heading)
    ensures
        next == resolved_queue(committed, keys@),
{
    let mut next = committed;
    let mut i: usize = 0;
    while i < keys.len()
        invariant
            i <= keys.len(),
            next == resolved_queue(committed, keys@.take(i as int)),
        decreases keys.len() - i,
    {
        proof {
            assert(keys@.take(i + 1).drop_last() =~= keys@.take(i as int));
        }
        match as_direction_key(keys[i]) {
            Some(h) => if h != committed.opposite() {
                next = h;
            },
            None => {},
        }
        i += 1;
    }
    proof {
        assert(keys@.take(i as int) =~= keys@);
    }
    next
}

/// A key that asks for the exact opposite of the committed heading leaves
/// the committed heading as it was.
pub proof fn reversal_is_ignored(committed: Heading, key: Key)
    requires
        direction_of(key) == Some(committed.opposite()),
    ensures
        resolved(committed, key) == committed,
{
}

/// Whatever key arrives, the heading never turns into its own opposite.
pub proof fn resolution_never_reverses(committed: Heading, key: Key)
    ensures
        resolved(committed, key) != committed.opposite(),
{
}

/// Whatever keys queue up between two ticks, the heading never turns into
/// its own opposite.
pub proof fn queue_never_reverses(committed: Heading, keys: Seq<Key>)
    ensures
        resolved_queue(committed, keys) != committed.opposite(),
    decreases keys.len(),
{
    if keys.len() > 0 {
        queue_never_reverses(committed, keys.drop_last());
    }
}

/// A queue of one key resolves as that key alone does.
pub proof fn queue_of_one(committed: Heading, key: Key)
    ensures
        resolved_queue(committed, seq![key]) == resolved(committed, key),
{
    let keys = seq![key];
    assert(keys.drop_last() =~= Seq::<Key>::empty());
    assert(resolved_queue(committed, keys.drop_last()) == committed);
}

} // verus!
