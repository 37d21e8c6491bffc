use crate::order::{compare_paths, lemma_path_lt_irreflexive, lemma_path_lt_transitive, path_lt, PathOrder};
use vstd::prelude::*;
use vstd::string::StringExecFns;

verus! {

/// Every element is smaller than every later one.
pub open spec fn strictly_sorted(s: Seq<Seq<char>>) -> bool {
    forall|i: int, j: int| 0 <= i < j < s.len() ==> path_lt(s[i], s[j])
}

/// Where a path stands, or would stand, in an index.
pub enum Slot {
    Found(usize),
    Vacant(usize),
}

/// The set of paths already handled, kept in ascending order.
pub struct Index {
    entries: Vec<String>,
}

impl Index {
    /// The entries, in the order they are kept.
    pub closed spec fn seq(&self) -> Seq<Seq<char>> {
        self.entries@.map_values(|e: String| e@)
    }

    pub open spec fn wf(&self) -> bool {
        strictly_sorted(self.seq())
    }

    pub open spec fn paths(&self) -> Set<Seq<char>> {
        Set::new(|p: Seq<char>| self.seq().contains(p))
    }

    /// An index that holds no path.
    pub fn new() -> (r: Index)
        ensures
            r.wf(),
            r.paths() == Set::<Seq<char>>::empty(),
            r.seq().len() == 0,
    {
        let r = Index { entries: Vec::new() };
        assert(r.paths() =~= Set::<Seq<char>>::empty());
        r
    }

    /// Number of paths held.
    pub fn len(&self) -> (r: usize)
        ensures
            r == self.seq().len(),
    {
        self.entries.len()
    }

    fn locate(&self, path: &str) -> (r: Slot)
        requires
            self.wf(),
        ensures
            match r {
                Slot::Found(k) => k < self.seq().len() && self.seq()[k as int] == path@,
                Slot::Vacant(k) => {
                    &&& k <= self.seq().len()
                    &&& forall|i: int| 0 <= i < k ==> path_lt(#[trigger] self.seq()[i], path@)
                    &&& forall|i: int| k <= i < self.seq().len() ==> path_lt(path@, #[trigger] self.seq()[i])
                },
            },
    {
        let mut lo: usize = 0;
        let mut hi: usize = self.entries.len();
        while lo < hi
            invariant
                self.wf(),
                lo <= hi <= self.seq().len(),
                forall|i: int| 0 <= i < lo ==> path_lt(#[trigger] self.seq()[i], path@),
                forall|i: int| hi <= i < self.seq().len() ==> path_lt(path@, #[trigger] self.seq()[i]),
            decreases hi - lo,
        {
            let mid = lo + (hi - lo) / 2;
            assert(self.seq()[mid as int] == self.entries[mid as int]@);
            match compare_paths(self.entries[mid].as_str(), path) {
                PathOrder::Less => {
                    assert forall|i: int| 0 <= i <= mid implies path_lt(#[trigger] self.seq()[i], path@) by {
                        if i < mid {
                            lemma_path_lt_transitive(self.seq()[i], self.seq()[mid as int], path@);
                        }
                    }
                    lo = mid + 1;
                },
                PathOrder::Equal => {
                    return Slot::Found(mid);
                },
                PathOrder::Greater => {
                    assert forall|i: int| mid <= i < self.seq().len() implies path_lt(path@, #[trigger] self.seq()[i]) by {
                        if i > mid {
                            lemma_path_lt_transitive(path@, self.seq()[mid as int], self.seq()[i]);
                        }
                    }
                    hi = mid;
                },
            }
        }
        Slot::Vacant(lo)
    }

    /// Whether `path` is held.
    pub fn contains(&self, path: &str) -> (r: bool)
        requires
            self.wf(),
        ensures
            r == self.paths().contains(path@),
    {
        match self.locate(path) {
            Slot::Found(_) => true,
            Slot::Vacant(k) => {
                proof {
                    if self.seq().contains(path@) {
                        let j = choose|j: int| 0 <= j < self.seq().len() && self.seq()[j] == path@;
                        lemma_path_lt_irreflexive(path@);
                    }
                }
                false
            },
        }
    }

    /// Adds `path`; a path already held is not added twice.
    pub fn insert(&mut self, path: String)
        requires
            old(self).wf(),
        ensures
            final(self).wf(),
            final(self).paths() == old(self).paths().insert(path@),
    {
        match self.locate(path.as_str()) {
            Slot::Found(_) => {
                assert(self.paths() =~= self.paths().insert(path@));
            },
            Slot::Vacant(k) => {
                let ghost before = self.seq();
                self.entries.insert(k, path);
                assert(self.seq() =~= before.insert(k as int, path@));
                assert forall|i: int, j: int| 0 <= i < j < self.seq().len() implies path_lt(
                    self.seq()[i],
                    self.seq()[j],
) by {
                    if i > k {
                        assert(before[i - 1] == self.seq()[i]);
                    }
                }
                assert forall|p: Seq<char>| #[trigger] self.paths().contains(p) <==> old(self).paths().insert(path@).contains(p) by {
                    assert(old(self).paths().contains(p) <==> before.contains(p));
                    if before.contains(p) {
                        let i = choose|i: int| 0 <= i < before.len() && before[i] == p;
                        if i < k {
                            assert(self.seq()[i] == p);
                        } else {
                            assert(self.seq()[i + 1] == p);
                        }
                    }
                    if p == path@ {
                        assert(self.seq()[k as int] == p);
                    }
                    if self.seq().contains(p) {
                        let i = choose|i: int| 0 <= i < self.seq().len() && self.seq()[i] == p;
                        if i < k {
                            assert(before[i] == p);
                        } else if i > k {
                            assert(before[i - 1] == p);
                        }
                    }
                }
                assert(self.paths() =~= old(self).paths().insert(path@));
            },
        }
    }
}


/// The text of the index file for `s`: each path followed by a newline.
pub open spec fn render(s: Seq<Seq<char>>) -> Seq<char>
    decreases s.len(),
{
    if s.len() == 0 {
        Seq::empty()
    } else {
        render(s.drop_last()) + s.last() + seq!['\n']
    }
}

/// A line with one carriage return at its end removed, if it has one.
pub open spec fn strip_cr(l: Seq<char>) -> Seq<char> {
    if l.len() > 0 && l.last() == '\r' {
        l.drop_last()
    } else {
        l
    }
}

/// Scanning `t` from the left: the finished lines, and the text after the
/// last newline.
pub open spec fn lines_acc(t: Seq<char>) -> (Seq<Seq<char>>, Seq<char>)
    decreases t.len(),
{
    if t.len() == 0 {
        (Seq::empty(), Seq::empty())
    } else {
        let (ls, cur) = lines_acc(t.drop_last());
        if t.last() == '\n' {
            (ls.push(strip_cr(cur)), Seq::empty())
        } else {
            (ls, cur.push(t.last()))
        }
    }
}

/// The lines of `t`: split at each `\n`, with a `\r` right before it
/// dropped; text after the last newline is a final line as it stands.
pub open spec fn lines_of(t: Seq<char>) -> Seq<Seq<char>> {
    let (ls, cur) = lines_acc(t);
    if cur.len() == 0 {
        ls
    } else {
        ls.push(cur)
    }
}

/// The set of paths that the index file text `t` holds.
pub open spec fn text_paths(t: Seq<char>) -> Set<Seq<char>> {
    Set::new(|p: Seq<char>| lines_of(t).contains(p))
}

/// A path that survives a line of the index file unchanged.
pub open spec fn storable(p: Seq<char>) -> bool {
    !p.contains('\n') && !(p.len() > 0 && p.last() == '\r')
}

/// Relies on `str::lines`: the lines of the text, split at `\n` or `\r\n`,
/// with a last line that has no line ending kept as it stands.
#[verifier::external_body]
fn split_lines(text: &str) -> (r: Vec<String>)
    ensures
        r@.map_values(|l: String| l@) == lines_of(text@),
{
    text.lines().map(String::from).collect()
}

proof fn lemma_lines_acc_plain(t: Seq<char>, e: Seq<char>)
    requires
        !e.contains('\n'),
    ensures
        lines_acc(t + e) == (lines_acc(t).0, lines_acc(t).1 + e),
    decreases e.len(),
{
    if e.len() == 0 {
        assert(t + e =~= t);
        assert(lines_acc(t).1 + e =~= lines_acc(t).1);
    } else {
        let e0 = e.drop_last();
        assert(!e0.contains('\n')) by {
            if e0.contains('\n') {
                let i = choose|i: int| 0 <= i < e0.len() && e0[i] == '\n';
                assert(e[i] == '\n');
            }
        }
        lemma_lines_acc_plain(t, e0);
        assert((t + e).drop_last() =~= t + e0);
        assert(e[e.len() - 1] != '\n');
        assert((lines_acc(t).1 + e0).push(e.last()) =~= lines_acc(t).1 + e);
    }
}

proof fn lemma_lines_of_render(s: Seq<Seq<char>>)
    requires
        forall|i: int| 0 <= i < s.len() ==> storable(#[trigger] s[i]),
    ensures
        lines_acc(render(s)) == (s, Seq::<char>::empty()),
    decreases s.len(),
{
    if s.len() > 0 {
        let s0 = s.drop_last();
        let e = s.last();
        lemma_lines_of_render(s0);
        assert(storable(s[s.len() - 1]));
        lemma_lines_acc_plain(render(s0), e);
        let t = render(s);
        assert(t.drop_last() =~= render(s0) + e);
        assert(Seq::<char>::empty() + e =~= e);
        assert(strip_cr(e) == e);
        assert(s0.push(e) =~= s);
    }
}

impl Index {
    /// The text of the index file for this index.
    pub open spec fn text(&self) -> Seq<char> {
        render(self.seq())
    }

    /// Renders the index file: one path per line, in ascending order.
    pub fn to_text(&self) -> (r: String)
        ensures
            r@ == self.text(),
    {
        let mut text = String::new();
        let mut i: usize = 0;
        proof {
            assert(self.seq().take(0) =~= Seq::<Seq<char>>::empty());
            reveal_strlit("\n");
        }
        while i < self.entries.len()
            invariant
                i <= self.entries.len(),
                text@ == render(self.seq().take(i as int)),
                "\n"@ == seq!['\n'],
            decreases self.entries.len() - i,
        {
            text.append(self.entries[i].as_str());
            text.append("\n");
            proof {
                let next = self.seq().take(i as int + 1);
                assert(next.drop_last() =~= self.seq().take(i as int));
                assert(next.last() == self.entries[i as int]@);
            }
            i = i + 1;
        }
        proof {
            assert(self.seq().take(i as int) =~= self.seq());
        }
        text
    }

    /// Reads an index file: every line of `text` becomes a path.
    pub fn from_text(text: &str) -> (r: Index)
        ensures
            r.wf(),
            r.paths() == text_paths(text@),
    {
        let lines = split_lines(text);
        let ghost ls = lines_of(text@);
        let mut ix = Index::new();
        let mut i: usize = 0;
        proof {
            assert(ix.paths() =~= Set::new(|p: Seq<char>| ls.take(0).contains(p)));
        }
        while i < lines.len()
            invariant
                ix.wf(),
                i <= lines.len(),
                lines@.map_values(|l: String| l@) == ls,
                ix.paths() == Set::new(|p: Seq<char>| ls.take(i as int).contains(p)),
            decreases lines.len() - i,
        {
            let line = lines[i].clone();
            let ghost before = ix.paths();
            ix.insert(line);
            proof {
                assert(ls[i as int] == lines@[i as int]@);
                assert forall|p: Seq<char>| #[trigger] ix.paths().contains(p) <==> ls.take(i as int + 1).contains(p) by {
                    if ls.take(i as int).contains(p) {
                        let j = choose|j: int| 0 <= j < i && #[trigger] ls.take(i as int)[j] == p;
                        assert(ls.take(i as int + 1)[j] == p);
                    }
                    if ls.take(i as int + 1).contains(p) {
                        let j = choose|j: int| 0 <= j <= i && #[trigger] ls.take(i as int + 1)[j] == p;
                        if j < i {
                            assert(ls.take(i as int)[j] == p);
                        }
                    }
                    assert(ls.take(i as int + 1)[i as int] == ls[i as int]);
                }
                assert(ix.paths() =~= Set::new(|p: Seq<char>| ls.take(i as int + 1).contains(p)));
            }
            i = i + 1;
        }
        proof {
            assert(ls.take(i as int) =~= ls);
            assert(ix.paths() =~= text_paths(text@));
        }
        ix
    }
}

/// Saving an index and reading the file back gives the same set of paths,
/// for paths that hold no newline and do not end in a carriage return.
pub proof fn lemma_text_round_trip(ix: &Index)
    requires
        ix.wf(),
        forall|p: Seq<char>| #[trigger] ix.paths().contains(p) ==> storable(p),
    ensures
        lines_of(ix.text()) == ix.seq(),
        text_paths(ix.text()) == ix.paths(),
{
    assert forall|i: int| 0 <= i < ix.seq().len() implies storable(#[trigger] ix.seq()[i]) by {
        assert(ix.paths().contains(ix.seq()[i]));
    }
    lemma_lines_of_render(ix.seq());
    assert(text_paths(ix.text()) =~= ix.paths());
}

} // verus!
