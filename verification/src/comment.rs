//! Comments and their threads. A reply records the ids of the comments above
//! it as a comma-separated path, so that a page can show the chain of parents
//! without walking the thread.
use vstd::prelude::*;

use crate::decimal::{decimal, format_i32, law_parse_of_decimal, lemma_decimal_chars, parse_i32, parse_i32_spec};

verus! {

/// A stored comment. `created` is the time of writing in seconds since the
/// Unix epoch (UTC).
#[derive(Debug)]
pub struct Comment {
    pub id: i32,
    pub author: i32,
    pub parent: Option<i32>,
    pub body: String,
    pub created: i64,
    pub post: i32,
    pub path: String,
}

/// What becomes of a comment that its author removes.
#[derive(PartialEq, Eq, Structural, Debug, Clone, Copy)]
pub enum CommentRemoval {
    /// The row is deleted.
    Delete,
    /// The row stays, with an empty body, so that its replies keep their place.
    ClearBody,
}

/// The pieces of `s` between occurrences of `sep`, as `str::split` gives them:
/// always at least one piece, empty pieces included.
pub open spec fn split_on(s: Seq<char>, sep: char) -> Seq<Seq<char>>
    decreases s.len(),
{
    if s.len() == 0 {
        seq![Seq::<char>::empty()]
    } else {
        let prev = split_on(s.drop_last(), sep);
        if s.last() == sep {
            prev.push(Seq::<char>::empty())
        } else {
            prev.update(prev.len() - 1, prev.last().push(s.last()))
        }
    }
}

/// The numbers that the pieces read as, in order; pieces that do not read as
/// an `i32` (blank ones among them) are left out.
pub open spec fn ids_of(pieces: Seq<Seq<char>>) -> Seq<i32>
    decreases pieces.len(),
{
    if pieces.len() == 0 {
        Seq::<i32>::empty()
    } else {
        match parse_i32_spec(pieces.last()) {
            Some(v) => ids_of(pieces.drop_last()).push(v),
            None => ids_of(pieces.drop_last()),
        }
    }
}

/// The ids of the comments above a comment whose path is `path`, from the top
/// of the thread down.
pub open spec fn path_ids(path: Seq<char>) -> Seq<i32> {
    ids_of(split_on(path, ','))
}

/// The path of a new comment: empty at the top of a thread; for a reply, the
/// parent's path, a comma, and the parent's id.
pub open spec fn reply_path(parent: Option<(i32, Seq<char>)>) -> Seq<char> {
    match parent {
        Some((id, path)) => path + seq![','] + decimal(id as int),
        None => Seq::<char>::empty(),
    }
}

proof fn lemma_split_nonempty(s: Seq<char>, sep: char)
    ensures
        split_on(s, sep).len() >= 1,
    decreases s.len(),
{
    if s.len() > 0 {
        lemma_split_nonempty(s.drop_last(), sep);
    }
}

/// Appending characters other than the separator extends the last piece.
proof fn lemma_split_extend(x: Seq<char>, b: Seq<char>, sep: char)
    requires
        forall|i: int| 0 <= i < b.len() ==> b[i] != sep,
    ensures
        split_on(x + b, sep) == split_on(x, sep).update(
            split_on(x, sep).len() - 1,
            split_on(x, sep).last() + b,
        ),
    decreases b.len(),
{
    lemma_split_nonempty(x, sep);
    let px = split_on(x, sep);
    if b.len() == 0 {
        assert(x + b =~= x);
        assert(px.last() + b =~= px.last());
        assert(px.update(px.len() - 1, px.last() + b) =~= px);
    } else {
        let b0 = b.drop_last();
        lemma_split_extend(x, b0, sep);
        assert((x + b).drop_last() =~= x + b0);
        assert((x + b).last() == b.last());
        assert(b.last() == b[b.len() - 1]);
        assert((px.last() + b0).push(b.last()) =~= px.last() + b);
        assert(px.update(px.len() - 1, px.last() + b0).update(px.len() - 1, px.last() + b)
            =~= px.update(px.len() - 1, px.last() + b));
    }
}

/// Writing a reply path and reading its ids back gives the parent's ids
/// followed by the parent's id.
pub proof fn law_reply_path_ids(parent_id: i32, parent_path: Seq<char>)
    ensures
        path_ids(reply_path(Some((parent_id, parent_path)))) == path_ids(parent_path).push(
            parent_id,
        ),
{
    let d = decimal(parent_id as int);
    let a = parent_path + seq![','];
    lemma_decimal_chars(parent_id as int);
    assert forall|i: int| 0 <= i < d.len() implies d[i] != ',' by {}
    lemma_split_nonempty(parent_path, ',');
    assert(a.drop_last() =~= parent_path);
    assert(split_on(a, ',') == split_on(parent_path, ',').push(Seq::<char>::empty()));
    lemma_split_extend(a, d, ',');
    let pa = split_on(a, ',');
    assert(pa.last() + d =~= d);
    let pieces = split_on(a + d, ',');
    assert(pieces =~= split_on(parent_path, ',').push(d));
    assert(pieces.drop_last() =~= split_on(parent_path, ','));
    law_parse_of_decimal(parent_id);
    assert(reply_path(Some((parent_id, parent_path))) =~= a + d);
}

impl Comment {
    /// The ids of the comments above this one, read from its path.
    pub fn get_path(&self) -> (r: Vec<i32>)
        ensures
            r@ == path_ids(self.path@),
    {
        thread_ids(self.path.as_str())
    }

    /// The path to store with a new comment: empty at the top of a thread,
    /// and for a reply to the comment `id` whose path is `path`, that path, a
    /// comma and `id`.
    pub fn path_for(parent: Option<(i32, &str)>) -> (r: String)
        ensures
            r@ == reply_path(
                match parent {
                    Some((id, path)) => Some((id, path@)),
                    None => None,
                },
            ),
    {
        match parent {
            Some((id, path)) => {
                let mut out = path.to_owned();
                out.append(",");
                let digits = format_i32(id);
                out.append(digits.as_str());
                proof {
                    reveal_strlit(",");
                }
                assert(out@ =~= path@ + seq![','] + decimal(id as int));
                out
            },
            None => String::new(),
        }
    }

    /// What removing a comment does: a comment with replies keeps its row
    /// and loses its body; one without replies is deleted.
    pub fn removal_for(has_replies: bool) -> (r: CommentRemoval)
        ensures
            r == (if has_replies { CommentRemoval::ClearBody } else { CommentRemoval::Delete }),
    {
        if has_replies {
            CommentRemoval::ClearBody
        } else {
            CommentRemoval::Delete
        }
    }
}

/// Reads the ids out of a comma-separated path, skipping pieces that are not
/// numbers.
pub fn thread_ids(path: &str) -> (r: Vec<i32>)
    ensures
        r@ == path_ids(path@),
{
    let len = path.unicode_len();
    let mut ids: Vec<i32> = Vec::new();
    let mut start: usize = 0;
    let mut i: usize = 0;
    let ghost mut done: Seq<Seq<char>> = Seq::empty();
    assert(path@.subrange(0, 0) =~= Seq::<char>::empty());
    while i < len
        invariant
            start <= i <= len,
            len == path@.len(),
            split_on(path@.subrange(0, i as int), ',') == done.push(
                path@.subrange(start as int, i as int),
            ),
            ids@ == ids_of(done),
        decreases len - i,
    {
        let c = path.get_char(i);
        let ghost prefix = path@.subrange(0, i as int);
        let ghost next = path@.subrange(0, i + 1);
        assert(next.drop_last() =~= prefix);
        assert(next.last() == c);
        if c == ',' {
            let piece = path.substring_char(start, i);
            let parsed = parse_i32(piece);
            let ghost cur = path@.subrange(start as int, i as int);
            let ghost new_done = done.push(cur);
            assert(new_done.drop_last() =~= done);
            match parsed {
                Some(v) => {
                    ids.push(v);
                },
                None => {},
            }
            proof {
                done = new_done;
            }
            start = i + 1;
            assert(path@.subrange(start as int, i + 1) =~= Seq::<char>::empty());
        } else {
            let ghost cur = path@.subrange(start as int, i as int);
            assert(cur.push(c) =~= path@.subrange(start as int, i + 1));
            assert(done.push(cur).update(done.len() as int, cur.push(c)) =~= done.push(
                path@.subrange(start as int, i + 1),
            ));
        }
        i = i + 1;
    }
    let piece = path.substring_char(start, len);
    let parsed = parse_i32(piece);
    let ghost cur = path@.subrange(start as int, len as int);
    assert(done.push(cur).drop_last() =~= done);
    match parsed {
        Some(v) => {
            ids.push(v);
        },
        None => {},
    }
    assert(path@.subrange(0, len as int) =~= path@);
    ids
}

} // verus!
