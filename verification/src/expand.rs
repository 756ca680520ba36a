//! Expansion of combined short options.
//!
//! `nix-shell` accepts several one-letter options glued together, optionally
//! followed by a value: `-pj16` stands for `-p -j 16`.  The expansion works
//! on a queue of tokens: it takes the front token and, when that token is
//! such a cluster, puts its parts back at the front of the queue before
//! handing out the first of them.

use crate::token::{alpha, is_alpha, DASH};
use std::collections::VecDeque;
use vstd::prelude::*;
use vstd::slice::{slice_subrange, slice_to_vec};

verus! {

/// The tokens of a queue, each as its bytes.
pub open spec fn tokens(q: Seq<Vec<u8>>) -> Seq<Seq<u8>> {
    q.map_values(|t: Vec<u8>| t@)
}

/// A token that gets expanded: a dash, a letter, and at least one more byte.
pub open spec fn is_cluster(t: Seq<u8>) -> bool {
    t.len() > 2 && t[0] == DASH && alpha(t[1])
}

/// The end of the run of letters that starts at `from`: the index of the
/// first byte at or after `from` that is not a letter, or the length of the
/// token if there is no such byte.
pub open spec fn letters_end(t: Seq<u8>, from: int) -> int
    decreases t.len() - from,
{
    if 0 <= from < t.len() && alpha(t[from]) {
        letters_end(t, from + 1)
    } else {
        from
    }
}

/// The letters of a cluster: everything between the dash and the suffix.
pub open spec fn cluster_letters(t: Seq<u8>) -> Seq<u8> {
    t.subrange(1, letters_end(t, 1))
}

/// What follows the letters of a cluster; empty if the cluster is all letters.
pub open spec fn cluster_suffix(t: Seq<u8>) -> Seq<u8> {
    t.subrange(letters_end(t, 1), t.len() as int)
}

/// The one-letter option `-c`.
pub open spec fn short_option(c: u8) -> Seq<u8> {
    seq![DASH, c]
}

/// One short option per letter, in the order of the letters.
pub open spec fn short_options(letters: Seq<u8>) -> Seq<Seq<u8>> {
    letters.map_values(|c: u8| short_option(c))
}

/// A suffix as a queue entry: nothing if it is empty, one token otherwise.
pub open spec fn suffix_entry(suffix: Seq<u8>) -> Seq<Seq<u8>> {
    if suffix.len() > 0 {
        seq![suffix]
    } else {
        Seq::empty()
    }
}

/// The tokens that take the place of `t` at the front of the queue.
///
/// A cluster gives one short option per letter, followed by its suffix if
/// there is one; any other token stays as it is.
pub open spec fn expanded(t: Seq<u8>) -> Seq<Seq<u8>> {
    if is_cluster(t) {
        short_options(cluster_letters(t)) + suffix_entry(cluster_suffix(t))
    } else {
        seq![t]
    }
}

/// One step of the expander on a queue: nothing if the queue is empty,
/// otherwise the token handed out and the queue that is left.
pub open spec fn next_arg(q: Seq<Seq<u8>>) -> Option<(Seq<u8>, Seq<Seq<u8>>)> {
    if q.len() == 0 {
        None
    } else {
        let unfolded = expanded(q[0]) + q.skip(1);
        Some((unfolded[0], unfolded.skip(1)))
    }
}

/// The run of letters that starts at `from` ends inside the token, holds
/// letters only, and is followed by a byte that is not a letter (or by
/// nothing).
pub proof fn lemma_letters_end(t: Seq<u8>, from: int)
    requires
        0 <= from <= t.len(),
    ensures
        from <= letters_end(t, from) <= t.len(),
        forall|i: int| from <= i < letters_end(t, from) ==> alpha(#[trigger] t[i]),
        letters_end(t, from) < t.len() ==> !alpha(t[letters_end(t, from)]),
    decreases t.len() - from,
{
    if from < t.len() && alpha(t[from]) {
        lemma_letters_end(t, from + 1);
    }
}

/// A position that ends a run of letters is the end of that run.
pub proof fn lemma_letters_end_unique(t: Seq<u8>, from: int, end: int)
    requires
        0 <= from <= end <= t.len(),
        forall|i: int| from <= i < end ==> alpha(#[trigger] t[i]),
        end < t.len() ==> !alpha(t[end]),
    ensures
        letters_end(t, from) == end,
    decreases end - from,
{
    if from < end {
        assert(alpha(t[from]));
        lemma_letters_end_unique(t, from + 1, end);
    }
}

/// Every cluster has at least one letter, and expanding it gives at least
/// one token.
pub proof fn lemma_cluster_shape(t: Seq<u8>)
    requires
        is_cluster(t),
    ensures
        2 <= letters_end(t, 1) <= t.len(),
        cluster_letters(t).len() >= 1,
        seq![DASH] + cluster_letters(t) + cluster_suffix(t) == t,
        expanded(t).len() >= 1,
        expanded(t)[0] == short_option(t[1]),
{
    lemma_letters_end(t, 2);
    lemma_letters_end(t, 1);
    assert(seq![DASH] + cluster_letters(t) + cluster_suffix(t) =~= t);
}

/// A dash, one or more letters, and a suffix that is empty or starts with a
/// byte that is not a letter expand to one short option per letter, in the
/// order of the letters, followed by the suffix as a token of its own if it
/// is not empty.
pub proof fn lemma_cluster_expansion(letters: Seq<u8>, suffix: Seq<u8>)
    requires
        letters.len() >= 1,
        forall|i: int| 0 <= i < letters.len() ==> alpha(#[trigger] letters[i]),
        suffix.len() > 0 ==> !alpha(suffix[0]),
    ensures
        expanded(seq![DASH] + letters + suffix) == short_options(letters) + suffix_entry(suffix),
        short_options(letters).len() == letters.len(),
        forall|i: int|
            0 <= i < letters.len() ==> #[trigger] short_options(letters)[i] == seq![
                DASH,
                letters[i],
            ],
{
    let t = seq![DASH] + letters + suffix;
    if is_cluster(t) {
        let end = 1 + letters.len() as int;
        assert forall|i: int| 1 <= i < end implies alpha(#[trigger] t[i]) by {
            assert(t[i] == letters[i - 1]);
        }
        if end < t.len() {
            assert(t[end] == suffix[0]);
        }
        lemma_letters_end_unique(t, 1, end);
        assert(cluster_letters(t) == letters);
        assert(cluster_suffix(t) == suffix);
    } else {
        assert(t[1] == letters[0]);
        assert(t == short_option(letters[0]));
        assert(short_options(letters) + suffix_entry(suffix) == seq![t]);
    }
}

/// When a single byte that is not a letter follows the letters, that byte
/// alone is split off as the suffix.
pub proof fn lemma_trailing_byte_expansion(letters: Seq<u8>, last: u8)
    requires
        letters.len() >= 1,
        forall|i: int| 0 <= i < letters.len() ==> alpha(#[trigger] letters[i]),
        !alpha(last),
    ensures
        expanded((seq![DASH] + letters).push(last)) == short_options(letters).push(seq![last]),
{
    lemma_cluster_expansion(letters, seq![last]);
    assert((seq![DASH] + letters).push(last) == seq![DASH] + letters + seq![last]);
    assert(short_options(letters).push(seq![last]) == short_options(letters) + suffix_entry(
        seq![last],
    ));
}

/// A token that is no cluster is never split: it is handed out as it is, and
/// the rest of the queue is left alone.  No token of at most two bytes is a
/// cluster, nor one whose second byte is not a letter, nor one that does not
/// start with a dash.
pub proof fn lemma_plain_token_unchanged(t: Seq<u8>, rest: Seq<Seq<u8>>)
    requires
        t.len() <= 2 || !alpha(t[1]) || t[0] != DASH,
    ensures
        !is_cluster(t),
        expanded(t) == seq![t],
        next_arg(seq![t] + rest) == Some((t, rest)),
{
    let q = seq![t] + rest;
    assert(q.skip(1) == rest);
    assert((expanded(q[0]) + q.skip(1)).skip(1) == rest);
}

/// What a token counts for in the measure of a queue: its length if it is
/// long enough to be expanded, and one otherwise.
pub open spec fn token_weight(t: Seq<u8>) -> nat {
    if t.len() <= 2 {
        1
    } else {
        t.len()
    }
}

/// The measure of a queue: the sum of the weights of its tokens.  Every step
/// of the expander makes it smaller, although a step may make the queue
/// longer.
pub open spec fn queue_weight(q: Seq<Seq<u8>>) -> nat
    decreases q.len(),
{
    if q.len() == 0 {
        0
    } else {
        token_weight(q[0]) + queue_weight(q.skip(1))
    }
}

/// The weight of two queues put together is the sum of their weights.
pub proof fn lemma_weight_concat(a: Seq<Seq<u8>>, b: Seq<Seq<u8>>)
    ensures
        queue_weight(a + b) == queue_weight(a) + queue_weight(b),
    decreases a.len(),
{
    if a.len() == 0 {
        assert(a + b == b);
    } else {
        assert((a + b).skip(1) == a.skip(1) + b);
        lemma_weight_concat(a.skip(1), b);
    }
}

/// Dropping tokens from the front does not make a queue heavier.
pub proof fn lemma_weight_skip(q: Seq<Seq<u8>>, n: int)
    requires
        0 <= n <= q.len(),
    ensures
        queue_weight(q.skip(n)) <= queue_weight(q),
{
    assert(q.take(n) + q.skip(n) == q);
    lemma_weight_concat(q.take(n), q.skip(n));
}

/// Short options weigh one each.
proof fn lemma_weight_short_options(letters: Seq<u8>)
    ensures
        queue_weight(short_options(letters)) == letters.len(),
    decreases letters.len(),
{
    if letters.len() > 0 {
        assert(short_options(letters).skip(1) == short_options(letters.skip(1)));
        lemma_weight_short_options(letters.skip(1));
    }
}

/// A step of the expander on a queue that is not empty hands out a token and
/// leaves a queue of smaller weight.
pub proof fn lemma_next_arg_decreases(q: Seq<Seq<u8>>)
    requires
        q.len() > 0,
    ensures
        next_arg(q) is Some,
        queue_weight(next_arg(q).unwrap().1) < queue_weight(q),
{
    let t = q[0];
    let tail = q.skip(1);
    let unfolded = expanded(t) + tail;
    if is_cluster(t) {
        let letters = cluster_letters(t);
        let suffix = cluster_suffix(t);
        lemma_cluster_shape(t);
        lemma_weight_concat(expanded(t), tail);
        lemma_weight_concat(short_options(letters), suffix_entry(suffix));
        lemma_weight_short_options(letters);
        assert(queue_weight(suffix_entry(suffix)) <= suffix.len()) by {
            if suffix.len() > 0 {
                assert(suffix_entry(suffix).skip(1) == Seq::<Seq<u8>>::empty());
                assert(queue_weight(suffix_entry(suffix).skip(1)) == 0);
            }
        }
        assert(t.len() == 1 + letters.len() + suffix.len());
        assert(unfolded[0] == short_option(t[1]));
        assert(token_weight(unfolded[0]) == 1);
        assert(queue_weight(unfolded) == 1 + queue_weight(unfolded.skip(1)));
        assert(queue_weight(q) == t.len() + queue_weight(tail));
    } else {
        assert(unfolded == q);
    }
}

/// The tokens that the expander hands out when it is called on the queue
/// until the queue is empty.
pub open spec fn expansion(q: Seq<Seq<u8>>) -> Seq<Seq<u8>>
    decreases queue_weight(q),
    via expansion_decreases
{
    match next_arg(q) {
        None => Seq::empty(),
        Some((arg, rest)) => seq![arg] + expansion(rest),
    }
}

#[via_fn]
proof fn expansion_decreases(q: Seq<Seq<u8>>) {
    if q.len() > 0 {
        lemma_next_arg_decreases(q);
    }
}

/// A token that is no cluster comes out of the expansion as it went in.
pub proof fn lemma_expansion_of_plain_token(t: Seq<u8>, rest: Seq<Seq<u8>>)
    requires
        t.len() <= 2 || !alpha(t[1]) || t[0] != DASH,
    ensures
        expansion(seq![t] + rest) == seq![t] + expansion(rest),
        expansion(seq![t]) == seq![t],
{
    lemma_plain_token_unchanged(t, rest);
    lemma_plain_token_unchanged(t, Seq::empty());
    assert(seq![t] + Seq::<Seq<u8>>::empty() == seq![t]);
    assert(expansion(Seq::<Seq<u8>>::empty()) == Seq::<Seq<u8>>::empty());
}

/// Expanding a queue gives the same as expanding it after its front token
/// was replaced by its parts.
proof fn lemma_expansion_unfolds(q: Seq<Seq<u8>>)
    requires
        q.len() > 0,
    ensures
        expansion(q) == expansion(expanded(q[0]) + q.skip(1)),
{
    let unfolded = expanded(q[0]) + q.skip(1);
    if is_cluster(q[0]) {
        lemma_cluster_shape(q[0]);
        assert(unfolded[0] == short_option(q[0][1]));
        assert(seq![unfolded[0]] + unfolded.skip(1) == unfolded);
        lemma_expansion_of_plain_token(unfolded[0], unfolded.skip(1));
    } else {
        assert(unfolded == q);
    }
}

/// Short options come out of the expansion as they went in.
proof fn lemma_expansion_of_short_options(letters: Seq<u8>, rest: Seq<Seq<u8>>)
    ensures
        expansion(short_options(letters) + rest) == short_options(letters) + expansion(rest),
    decreases letters.len(),
{
    if letters.len() == 0 {
        assert(short_options(letters) + rest == rest);
        assert(short_options(letters) + expansion(rest) == expansion(rest));
    } else {
        let first = short_option(letters[0]);
        let others = short_options(letters.skip(1));
        assert(short_options(letters) == seq![first] + others);
        assert(short_options(letters) + rest == seq![first] + (others + rest));
        lemma_expansion_of_plain_token(first, others + rest);
        lemma_expansion_of_short_options(letters.skip(1), rest);
        assert(seq![first] + (others + expansion(rest)) == short_options(letters) + expansion(
            rest,
        ));
    }
}

/// A dash, one or more letters, and a suffix that is empty or starts with a
/// byte that is not a letter come out of the expansion as one short option
/// per letter, in the order of the letters, followed by the suffix as a
/// token of its own if it is not empty.
///
/// This holds where the suffix is no cluster itself; a suffix that is one,
/// as in `-j-ab`, is expanded in turn.
pub proof fn lemma_expansion_of_cluster(letters: Seq<u8>, suffix: Seq<u8>)
    requires
        letters.len() >= 1,
        forall|i: int| 0 <= i < letters.len() ==> alpha(#[trigger] letters[i]),
        suffix.len() > 0 ==> !alpha(suffix[0]),
        !is_cluster(suffix),
    ensures
        expansion(seq![seq![DASH] + letters + suffix]) == short_options(letters) + suffix_entry(
            suffix,
        ),
{
    let t = seq![DASH] + letters + suffix;
    let q = seq![t];
    let parts = short_options(letters) + suffix_entry(suffix);
    lemma_cluster_expansion(letters, suffix);
    lemma_expansion_unfolds(q);
    assert(q.skip(1) == Seq::<Seq<u8>>::empty());
    assert(expanded(t) + q.skip(1) == parts);
    lemma_expansion_of_short_options(letters, suffix_entry(suffix));
    if suffix.len() > 0 {
        lemma_expansion_of_plain_token(suffix, Seq::empty());
    } else {
        assert(expansion(Seq::<Seq<u8>>::empty()) == Seq::<Seq<u8>>::empty());
    }
}

/// Index at which a cluster is split into its letters and its suffix.
fn split_index(arg: &Vec<u8>) -> (end: usize)
    requires
        is_cluster(arg@),
    ensures
        end == letters_end(arg@, 1),
        2 <= end <= arg.len(),
{
    let mut end: usize = 2;
    proof {
        lemma_letters_end(arg@, 2);
    }
    while end < arg.len() && is_alpha(arg[end])
        invariant
            2 <= end <= arg.len(),
            letters_end(arg@, 1) == letters_end(arg@, end as int),
        decreases arg.len() - end,
    {
        end = end + 1;
    }
    end
}

/// Takes the next token from the queue, expanding a cluster at its front.
///
/// If the front token is a cluster, it is replaced by its short options and
/// its suffix, and the first short option is returned.  Any other token is
/// returned unchanged.  An empty queue gives `None`.
pub fn get_next_arg(it: &mut VecDeque<Vec<u8>>) -> (r: Option<Vec<u8>>)
    ensures
        match next_arg(tokens(old(it)@)) {
            None => r is None && final(it)@ == old(it)@,
            Some((arg, rest)) => r matches Some(a) && a@ == arg && tokens(final(it)@) == rest,
        },
{
    let ghost before = tokens(it@);
    let arg = match it.pop_front() {
        Some(arg) => arg,
        None => {
            return None;
        },
    };
    let ghost tail = tokens(it@);
    assert(tail == before.skip(1));
    assert(arg@ == before[0]);
    if arg.len() > 2 && arg[0] == DASH && is_alpha(arg[1]) {
        let end = split_index(&arg);
        let ghost letters = cluster_letters(arg@);
        let ghost suffix = cluster_suffix(arg@);
        if end < arg.len() {
            let rest = slice_to_vec(slice_subrange(arg.as_slice(), end, arg.len()));
            it.push_front(rest);
        }
        assert(tokens(it@) == suffix_entry(suffix) + tail);
        let mut i: usize = end;
        while i > 1
            invariant
                is_cluster(arg@),
                1 <= i <= end <= arg.len(),
                end == letters_end(arg@, 1),
                letters == cluster_letters(arg@),
                tokens(it@) == short_options(letters.skip(i - 1)) + suffix_entry(suffix) + tail,
            decreases i,
        {
            i = i - 1;
            let mut option: Vec<u8> = Vec::new();
            option.push(DASH);
            option.push(arg[i]);
            assert(option@ == short_option(letters[i - 1]));
            let ghost queued = tokens(it@);
            it.push_front(option);
            assert(tokens(it@) == seq![short_option(letters[i - 1])] + queued);
            assert(short_options(letters.skip(i - 1)) == seq![short_option(letters[i - 1])]
                + short_options(letters.skip(i as int)));
        }
        assert(letters.skip(0) == letters);
        let ghost unfolded = expanded(arg@) + tail;
        assert(tokens(it@) == unfolded);
        proof {
            lemma_cluster_shape(arg@);
        }
        let r = it.pop_front();
        assert(tokens(it@) == unfolded.skip(1));
        r
    } else {
        assert(expanded(arg@) + tail == before);
        Some(arg)
    }
}

} // verus!
