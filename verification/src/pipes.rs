//! The Jack pipes a pedal sets up, read from its pedal file: one pipe per
//! line, `<source> <destination>`.
use vstd::prelude::*;
use crate::text::{lines, split_on, split_str, text_lines};
use crate::monitor::non_empty;

verus! {

/// Whether a line holds exactly one space, so that it names a pipe.
pub open spec fn pipe_line_ok(l: Seq<char>) -> bool {
    split_on(l, ' ').len() == 2
}

/// The pipe a line names: the text before its space and the text after.
pub open spec fn pipe_of(l: Seq<char>) -> (Seq<char>, Seq<char>) {
    (split_on(l, ' ')[0], split_on(l, ' ')[1])
}

/// The lines of a pedal file that name pipes: every line, or with
/// `skip_empty` only the non-empty ones.
pub open spec fn pipe_lines(content: Seq<char>, skip_empty: bool) -> Seq<Seq<char>> {
    if skip_empty {
        non_empty(text_lines(content))
    } else {
        text_lines(content)
    }
}

/// Whether every line of a pedal file that should name a pipe does.
pub open spec fn pipe_text_ok(content: Seq<char>, skip_empty: bool) -> bool {
    forall|i: int|
        0 <= i < pipe_lines(content, skip_empty).len() ==> #[trigger] pipe_line_ok(
            pipe_lines(content, skip_empty)[i],
        )
}

pub open spec fn pairs_view(v: Seq<(String, String)>) -> Seq<(Seq<char>, Seq<char>)> {
    v.map_values(|p: (String, String)| (p.0@, p.1@))
}

fn kept_lines(content: &str, skip_empty: bool) -> (r: Vec<String>)
    ensures
        r.deep_view() == pipe_lines(content@, skip_empty),
{
    let ls = lines(content);
    if !skip_empty {
        return ls;
    }
    let ghost p = text_lines(content@);
    let mut r: Vec<String> = Vec::new();
    let mut i: usize = 0;
    while i < ls.len()
        invariant
            i <= ls@.len(),
            ls.deep_view() == p,
            r.deep_view() == non_empty(p.take(i as int)),
        decreases ls.len() - i,
    {
        assert(p.take(i + 1).drop_last() =~= p.take(i as int));
        assert(ls.deep_view()[i as int] == ls@[i as int]@);
        if !ls[i].as_str().is_empty() {
            let ghost before = r.deep_view();
            r.push(ls[i].clone());
            assert(r.deep_view() =~= before.push(p[i as int]));
        }
        i = i + 1;
    }
    assert(p.take(p.len() as int) =~= p);
    r
}

/// Whether every line of the pedal file text `content` that should name a
/// pipe does.
pub fn pipe_text_valid(content: &str, skip_empty: bool) -> (r: bool)
    ensures
        r == pipe_text_ok(content@, skip_empty),
{
    let ls = kept_lines(content, skip_empty);
    let ghost p = pipe_lines(content@, skip_empty);
    let mut i: usize = 0;
    while i < ls.len()
        invariant
            i <= ls@.len(),
            ls.deep_view() == p,
            p == pipe_lines(content@, skip_empty),
            forall|j: int| 0 <= j < i ==> #[trigger] pipe_line_ok(p[j]),
        decreases ls.len() - i,
    {
        assert(ls.deep_view()[i as int] == ls@[i as int]@);
        let parts = split_str(ls[i].as_str(), ' ');
        if parts.len() != 2 {
            assert(parts.deep_view().len() == parts@.len());
            assert(!pipe_line_ok(p[i as int]));
            return false;
        }
        i = i + 1;
    }
    true
}

/// The pipes named in the pedal file text `content`, in order; with
/// `skip_empty` empty lines are passed over.
pub fn pipes_from_text(content: &str, skip_empty: bool) -> (r: Vec<(String, String)>)
    requires
        pipe_text_ok(content@, skip_empty),
    ensures
        pairs_view(r@) == pipe_lines(content@, skip_empty).map_values(|l: Seq<char>| pipe_of(l)),
{
    let ls = kept_lines(content, skip_empty);
    let ghost p = pipe_lines(content@, skip_empty);
    let mut r: Vec<(String, String)> = Vec::new();
    let mut i: usize = 0;
    while i < ls.len()
        invariant
            i <= ls@.len(),
            ls.deep_view() == p,
            pipe_text_ok(content@, skip_empty),
            p == pipe_lines(content@, skip_empty),
            r@.len() == i,
            forall|j: int| 0 <= j < i ==> #[trigger] pairs_view(r@)[j] == pipe_of(p[j]),
        decreases ls.len() - i,
    {
        assert(ls.deep_view()[i as int] == ls@[i as int]@);
        assert(pipe_line_ok(p[i as int]));
        let parts = split_str(ls[i].as_str(), ' ');
        assert(parts.deep_view()[0] == parts@[0]@);
        assert(parts.deep_view()[1] == parts@[1]@);
        let ghost before = r@;
        let a = parts[0].clone();
        let b = parts[1].clone();
        assert(pipe_of(p[i as int]) == (a@, b@));
        r.push((a, b));
        assert forall|j: int| 0 <= j < i + 1 implies #[trigger] pairs_view(r@)[j] == pipe_of(p[j]) by {
            assert(pairs_view(r@)[j] == (r@[j].0@, r@[j].1@));
            if j < i {
                assert(r@[j] == before[j]);
                assert(pairs_view(before)[j] == (before[j].0@, before[j].1@));
            } else {
                assert(r@[j] == (a, b));
            }
        }
        i = i + 1;
    }
    assert(pairs_view(r@) =~= p.map_values(|l: Seq<char>| pipe_of(l)));
    r
}

} // verus!
