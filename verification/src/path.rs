//! How a path enters a hash.
//!
//! Spellings of one path hash alike: a path feeds its components to the hasher,
//! not its bytes. This is what the `Hash` of `std::path::Path` feeds on Unix
//! machines with 64 bits.
use std::collections::hash_map::DefaultHasher;
use std::hash::Hasher;
use vstd::bytes::{spec_u64_to_le_bytes, u64_to_le_bytes};
use vstd::prelude::*;

verus! {

pub const SLASH: u8 = 47;

pub const DOT: u8 = 46;

/// What stands between the slashes of a path, in order, empty or not.
pub open spec fn pieces(path: Seq<u8>) -> Seq<Seq<u8>>
    decreases path.len(),
{
    if path.len() == 0 {
        seq![Seq::empty()]
    } else {
        let before = pieces(path.drop_last());
        if path.last() == SLASH {
            before.push(Seq::empty())
        } else {
            before.drop_last().push(before.last().push(path.last()))
        }
    }
}

/// Whether a piece counts: an empty one does not, and a dot does only in front.
pub open spec fn counts(piece: Seq<u8>, in_front: bool) -> bool {
    piece.len() > 0 && (in_front || piece != seq![DOT])
}

/// The pieces that count, in order.
pub open spec fn counted(pieces: Seq<Seq<u8>>) -> Seq<Seq<u8>>
    decreases pieces.len(),
{
    if pieces.len() == 0 {
        Seq::empty()
    } else {
        let before = counted(pieces.drop_last());
        if counts(pieces.last(), pieces.len() == 1) {
            before.push(pieces.last())
        } else {
            before
        }
    }
}

/// The components of a path. The root is none of them.
pub open spec fn components(path: Seq<u8>) -> Seq<Seq<u8>> {
    counted(pieces(path))
}

/// A sum of lengths with another length mixed in.
pub open spec fn mixed(sum: u64, length: nat) -> u64 {
    let next = ((sum + length) % 0x1_0000_0000_0000_0000) as u64;
    (next >> 2) | (next << 62)
}

/// What tells apart components that run together to the same bytes.
pub open spec fn length_mix(components: Seq<Seq<u8>>) -> u64
    decreases components.len(),
{
    if components.len() == 0 {
        0
    } else {
        mixed(length_mix(components.drop_last()), components.last().len())
    }
}

/// What a path feeds to the hasher: its components, and a mix of their lengths.
pub open spec fn path_writes(path: Seq<u8>) -> Seq<Seq<u8>> {
    components(path).push(spec_u64_to_le_bytes(length_mix(components(path))))
}

fn mix(sum: u64, length: usize) -> (next: u64)
    ensures
        next == mixed(sum, length as nat),
{
    let total: u64 = sum.wrapping_add(length as u64);
    assert(total == (sum + length as nat) % 0x1_0000_0000_0000_0000);
    (total >> 2) | (total << 62)
}

fn is_dot(piece: &Vec<u8>) -> (dot: bool)
    ensures
        dot == (piece@ == seq![DOT]),
{
    if piece.len() == 1 && piece[0] == DOT {
        assert(piece@ =~= seq![DOT]);
        true
    } else {
        false
    }
}

/// Feeds a piece to the hasher if it counts, and mixes in its length.
fn write_piece(hasher: &mut DefaultHasher, piece: &Vec<u8>, in_front: bool, sum: u64) -> (next: u64)
    ensures
        if counts(piece@, in_front) {
            final(hasher)@ == old(hasher)@.push(piece@) && next == mixed(sum, piece@.len())
        } else {
            final(hasher)@ == old(hasher)@ && next == sum
        },
{
    if piece.len() == 0 || (!in_front && is_dot(piece)) {
        return sum;
    }
    hasher.write(piece.as_slice());
    mix(sum, piece.len())
}

/// Feeds a path to the hasher.
pub fn write_path(hasher: &mut DefaultHasher, path: &Vec<u8>)
    ensures
        final(hasher)@ == old(hasher)@ + path_writes(path@),
{
    let mut piece: Vec<u8> = Vec::new();
    let mut in_front = true;
    let mut sum: u64 = 0;
    let mut i: usize = 0;
    let ghost mut done: Seq<Seq<u8>> = Seq::empty();
    assert(pieces(path@.take(0)) =~= done.push(piece@));
    assert(hasher@ =~= old(hasher)@ + counted(done));
    while i < path.len()
        invariant
            i <= path@.len(),
            pieces(path@.take(i as int)) == done.push(piece@),
            in_front == (done.len() == 0),
            hasher@ == old(hasher)@ + counted(done),
            sum == length_mix(counted(done)),
        decreases path@.len() - i,
    {
        let ghost before = path@.take(i as int);
        let ghost now = path@.take(i + 1);
        assert(now.drop_last() =~= before);
        assert(now.last() == path@[i as int]);
        if path[i] == SLASH {
            sum = write_piece(hasher, &piece, in_front, sum);
            proof {
                lemma_counted_push(done, piece@);
                assert(hasher@ =~= old(hasher)@ + counted(done.push(piece@)));
                done = done.push(piece@);
            }
            in_front = false;
            piece = Vec::new();
            assert(piece@ =~= Seq::empty());
        } else {
            piece.push(path[i]);
            assert(done.push(piece@).drop_last() =~= done);
            assert(pieces(before).drop_last() =~= done);
        }
        i = i + 1;
    }
    assert(path@.take(i as int) =~= path@);
    sum = write_piece(hasher, &piece, in_front, sum);
    proof {
        lemma_counted_push(done, piece@);
        assert(hasher@ =~= old(hasher)@ + components(path@));
    }
    let lengths = u64_to_le_bytes(sum);
    hasher.write(lengths.as_slice());
    assert(hasher@ =~= old(hasher)@ + path_writes(path@));
}

proof fn lemma_counted_push(done: Seq<Seq<u8>>, piece: Seq<u8>)
    ensures
        counted(done.push(piece)) == (if counts(piece, done.len() == 0) {
            counted(done).push(piece)
        } else {
            counted(done)
        }),
        length_mix(counted(done.push(piece))) == (if counts(piece, done.len() == 0) {
            mixed(length_mix(counted(done)), piece.len())
        } else {
            length_mix(counted(done))
        }),
{
    assert(done.push(piece).drop_last() =~= done);
    assert(counted(done).push(piece).drop_last() =~= counted(done));
}

/// A slash at the end of a path makes no other path of it.
pub proof fn law_a_slash_at_the_end_changes_nothing(path: Seq<u8>)
    ensures
        components(path.push(SLASH)) == components(path),
{
    assert(path.push(SLASH).drop_last() =~= path);
    lemma_counted_push(pieces(path), Seq::empty());
}

/// No component is empty, and none holds a slash.
pub proof fn law_components_hold_no_slash(path: Seq<u8>)
    ensures
        forall|i: int|
            0 <= i < components(path).len() ==> (#[trigger] components(path)[i]).len() > 0
                && !components(path)[i].contains(47u8),
{
    lemma_pieces_hold_no_slash(path);
    lemma_counted(pieces(path));
    assert forall|i: int| 0 <= i < components(path).len() implies (
    #[trigger] components(path)[i]).len() > 0 && !components(path)[i].contains(47u8) by {
        assert(pieces(path).contains(counted(pieces(path))[i]));
    }
}

proof fn lemma_pieces_hold_no_slash(path: Seq<u8>)
    ensures
        pieces(path).len() > 0,
        forall|i: int| 0 <= i < pieces(path).len() ==> !(#[trigger] pieces(path)[i]).contains(47u8),
    decreases path.len(),
{
    if path.len() > 0 {
        lemma_pieces_hold_no_slash(path.drop_last());
        let before = pieces(path.drop_last());
        let now = pieces(path);
        assert forall|i: int| 0 <= i < now.len() implies !(#[trigger] now[i]).contains(47u8) by {
            if i < before.len() - 1 || (path.last() == SLASH && i < before.len()) {
                assert(now[i] == before[i]);
            } else if path.last() != SLASH {
                let piece = before[before.len() - 1];
                assert(now[i] == piece.push(path.last()));
                assert forall|j: int| 0 <= j < now[i].len() implies now[i][j] != 47u8 by {
                    if j < piece.len() {
                        assert(piece.contains(piece[j]));
                    }
                }
            }
        }
    }
}

proof fn lemma_counted(pieces: Seq<Seq<u8>>)
    ensures
        forall|i: int|
            0 <= i < counted(pieces).len() ==> (#[trigger] counted(pieces)[i]).len() > 0
                && pieces.contains(counted(pieces)[i]),
    decreases pieces.len(),
{
    if pieces.len() > 0 {
        let init = pieces.drop_last();
        lemma_counted(init);
        assert forall|i: int| 0 <= i < counted(pieces).len() implies (
        #[trigger] counted(pieces)[i]).len() > 0 && pieces.contains(counted(pieces)[i]) by {
            if i < counted(init).len() {
                let at = init.index_of(counted(init)[i]);
                assert(init.contains(counted(init)[i]));
                assert(pieces[at] == counted(pieces)[i]);
            } else {
                assert(pieces[pieces.len() - 1] == counted(pieces)[i]);
            }
        }
    }
}

/// Going down from a path adds one component to it, unless the step is to the
/// directory itself. A path of one step is that step, and the empty path has no
/// component.
pub proof fn law_each_step_adds_a_component(path: Seq<u8>, step: Seq<u8>)
    requires
        step.len() > 0,
        !step.contains(47u8),
    ensures
        components(path.push(SLASH) + step) == (if step == seq![46u8] {
            components(path)
        } else {
            components(path).push(step)
        }),
        components(step) == seq![step],
        components(Seq::empty()).len() == 0,
{
    let none = Seq::<u8>::empty();
    let start = Seq::<Seq<u8>>::empty();
    assert(path.push(SLASH).drop_last() =~= path);
    lemma_pieces_hold_no_slash(path);
    lemma_pieces_grow(path.push(SLASH), pieces(path), none, step);
    assert(none + step =~= step);
    lemma_counted_push(pieces(path), step);
    lemma_pieces_grow(none, start, none, step);
    assert(start.push(none) =~= seq![none]);
    assert(none + step =~= step);
    assert(start.push(step) =~= seq![step]);
    lemma_counted_push(start, step);
    assert(counted(start) =~= start);
    assert(counted(start).push(step) =~= seq![step]);
    lemma_counted_push(start, none);
    assert(pieces(none) =~= start.push(none));
}

/// Bytes other than slashes belong to the last piece.
proof fn lemma_pieces_grow(path: Seq<u8>, done: Seq<Seq<u8>>, piece: Seq<u8>, more: Seq<u8>)
    requires
        pieces(path) == done.push(piece),
        !more.contains(47u8),
    ensures
        pieces(path + more) == done.push(piece + more),
    decreases more.len(),
{
    if more.len() == 0 {
        assert(path + more =~= path);
        assert(piece + more =~= piece);
    } else {
        let init = more.drop_last();
        assert forall|i: int| 0 <= i < init.len() implies init[i] != 47u8 by {
            assert(more.contains(more[i]));
        }
        lemma_pieces_grow(path, done, piece, init);
        assert(more.contains(more.last()));
        let whole = path + more;
        assert(whole.drop_last() =~= path + init);
        assert(whole.last() == more.last());
        let before = done.push(piece + init);
        assert(before.drop_last() =~= done);
        assert((piece + init).push(more.last()) =~= piece + more);
    }
}

} // verus!
