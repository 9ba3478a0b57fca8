//! The import lines of a harness: a set whose members come out in one
//! canonical order, whatever the order in which they went in.
use crate::text::texts;
use vstd::prelude::*;
use vstd::std_specs::iter::IteratorSpec;
use vstd::string::*;

verus! {

/// The canonical order of lines: `a` comes strictly before `b` when, at the
/// first position where they differ, `a` has the smaller character or has
/// ended. This is the order of `str` in the standard library.
pub open spec fn precedes(a: Seq<char>, b: Seq<char>) -> bool
    decreases a.len(),
{
    if b.len() == 0 {
        false
    } else if a.len() == 0 {
        true
    } else if a[0] == b[0] {
        precedes(a.drop_first(), b.drop_first())
    } else {
        a[0] < b[0]
    }
}

/// Each line of `lines` comes strictly before every later one.
pub open spec fn canonical(lines: Seq<Seq<char>>) -> bool {
    forall|i: int, j: int|
        0 <= i < j < lines.len() ==> precedes(#[trigger] lines[i], #[trigger] lines[j])
}

/// The members of `set`, each once, in canonical order.
pub open spec fn in_canonical_order(set: Set<Seq<char>>) -> Seq<Seq<char>> {
    choose|lines: Seq<Seq<char>>| canonical(lines) && lines.to_set() == set
}

/// No line comes before itself.
pub proof fn lemma_precedes_irreflexive(a: Seq<char>)
    ensures
        !precedes(a, a),
    decreases a.len(),
{
    if a.len() > 0 {
        lemma_precedes_irreflexive(a.drop_first());
    }
}

/// What comes before a line comes before all that the line comes before.
pub proof fn lemma_precedes_transitive(a: Seq<char>, b: Seq<char>, c: Seq<char>)
    requires
        precedes(a, b),
        precedes(b, c),
    ensures
        precedes(a, c),
    decreases a.len(),
{
    if a.len() > 0 && a[0] == b[0] && b[0] == c[0] {
        lemma_precedes_transitive(a.drop_first(), b.drop_first(), c.drop_first());
    }
}

/// Of two different lines one comes before the other.
pub proof fn lemma_precedes_total(a: Seq<char>, b: Seq<char>)
    ensures
        a == b || precedes(a, b) || precedes(b, a),
    decreases a.len(),
{
    if a.len() == 0 || b.len() == 0 {
        if a.len() == 0 && b.len() == 0 {
            assert(a =~= b);
        }
    } else if a[0] == b[0] {
        lemma_precedes_total(a.drop_first(), b.drop_first());
        if a.drop_first() == b.drop_first() {
            assert(a.len() == b.len()) by {
                assert(a.drop_first().len() == b.drop_first().len());
            }
            assert forall|i: int| 0 <= i < a.len() implies a[i] == b[i] by {
                if i > 0 {
                    assert(a.drop_first()[i - 1] == b.drop_first()[i - 1]);
                }
            }
            assert(a =~= b);
        }
    }
}

/// A canonical sequence holds no line twice.
pub proof fn lemma_canonical_no_duplicates(lines: Seq<Seq<char>>)
    requires
        canonical(lines),
    ensures
        lines.no_duplicates(),
{
    assert forall|i: int, j: int|
        0 <= i < lines.len() && 0 <= j < lines.len() && i != j implies lines[i] != lines[j] by {
        lemma_precedes_irreflexive(lines[i]);
    }
}

/// A set has at most one canonical order: two canonical sequences with the
/// same members are the same sequence.
pub proof fn lemma_canonical_unique(a: Seq<Seq<char>>, b: Seq<Seq<char>>)
    requires
        canonical(a),
        canonical(b),
        a.to_set() == b.to_set(),
    ensures
        a == b,
    decreases a.len(),
{
    if a.len() == 0 {
        if b.len() > 0 {
            assert(b.contains(b[0]));
            assert(a.to_set().contains(b[0]));
        }
        assert(a =~= b);
    } else {
        assert(a.contains(a[0]));
        assert(b.to_set().contains(a[0]));
        let j = choose|j: int| 0 <= j < b.len() && b[j] == a[0];
        assert(b.contains(b[0]));
        assert(a.to_set().contains(b[0]));
        let i = choose|i: int| 0 <= i < a.len() && a[i] == b[0];
        if i > 0 && j > 0 {
            lemma_precedes_transitive(a[0], a[i], b[j]);
            lemma_precedes_irreflexive(a[0]);
        }
        assert(a[0] == b[0]);
        let ta = a.skip(1);
        let tb = b.skip(1);
        assert(canonical(ta)) by {
            assert forall|x: int, y: int| 0 <= x < y < ta.len() implies precedes(
                #[trigger] ta[x],
                #[trigger] ta[y],
            ) by {
                assert(precedes(a[x + 1], a[y + 1]));
            }
        }
        assert(canonical(tb)) by {
            assert forall|x: int, y: int| 0 <= x < y < tb.len() implies precedes(
                #[trigger] tb[x],
                #[trigger] tb[y],
            ) by {
                assert(precedes(b[x + 1], b[y + 1]));
            }
        }
        lemma_precedes_irreflexive(a[0]);
        assert forall|line: Seq<char>| ta.to_set().contains(line) == tb.to_set().contains(
            line,
        ) by {
            if ta.contains(line) {
                let k = choose|k: int| 0 <= k < ta.len() && ta[k] == line;
                assert(precedes(a[0], a[k + 1]));
                assert(a.contains(line));
                assert(b.to_set().contains(line));
                let m = choose|m: int| 0 <= m < b.len() && b[m] == line;
                assert(tb[m - 1] == line);
            }
            if tb.contains(line) {
                let k = choose|k: int| 0 <= k < tb.len() && tb[k] == line;
                assert(precedes(b[0], b[k + 1]));
                assert(b.contains(line));
                assert(a.to_set().contains(line));
                let m = choose|m: int| 0 <= m < a.len() && a[m] == line;
                assert(ta[m - 1] == line);
            }
        }
        assert(ta.to_set() =~= tb.to_set());
        lemma_canonical_unique(ta, tb);
        assert(a.len() == b.len()) by {
            assert(ta.len() == tb.len());
        }
        assert forall|k: int| 0 <= k < a.len() implies a[k] == b[k] by {
            if k > 0 {
                assert(ta[k - 1] == tb[k - 1]);
            }
        }
        assert(a =~= b);
    }
}

/// A canonical sequence is the canonical order of its own members.
pub proof fn lemma_canonical_order_of(lines: Seq<Seq<char>>)
    requires
        canonical(lines),
    ensures
        in_canonical_order(lines.to_set()) == lines,
{
    let chosen = in_canonical_order(lines.to_set());
    assert(canonical(chosen) && chosen.to_set() == lines.to_set());
    lemma_canonical_unique(chosen, lines);
}

/// Putting `line` between the lines that come before it and those that come
/// after it keeps the sequence canonical and adds `line` to its members.
pub proof fn lemma_insert_canonical(lines: Seq<Seq<char>>, at: int, line: Seq<char>)
    requires
        canonical(lines),
        0 <= at <= lines.len(),
        forall|k: int| 0 <= k < at ==> precedes(#[trigger] lines[k], line),
        forall|k: int| at <= k < lines.len() ==> precedes(line, #[trigger] lines[k]),
    ensures
        canonical(lines.insert(at, line)),
        lines.insert(at, line).to_set() == lines.to_set().insert(line),
{
    let grown = lines.insert(at, line);
    assert(grown.len() == lines.len() + 1);
    assert forall|k: int| 0 <= k < at implies grown[k] == lines[k] by {}
    assert(grown[at] == line);
    assert forall|k: int| at < k < grown.len() implies grown[k] == lines[k - 1] by {}
    assert forall|i: int, j: int| 0 <= i < j < grown.len() implies precedes(
        #[trigger] grown[i],
        #[trigger] grown[j],
    ) by {
        if i < at {
            assert(grown[i] == lines[i]);
            if j < at {
                assert(grown[j] == lines[j]);
            } else if j > at {
                assert(grown[j] == lines[j - 1]);
            }
        } else if i == at {
            assert(grown[j] == lines[j - 1]);
        } else {
            assert(grown[i] == lines[i - 1]);
            assert(grown[j] == lines[j - 1]);
        }
    }
    assert forall|x: Seq<char>| grown.to_set().contains(x) == lines.to_set().insert(
        line,
    ).contains(x) by {
        if grown.contains(x) {
            let k = choose|k: int| 0 <= k < grown.len() && grown[k] == x;
            if k < at {
                assert(lines[k] == x);
                assert(lines.contains(x));
            } else if k > at {
                assert(lines[k - 1] == x);
                assert(lines.contains(x));
            }
        }
        if lines.contains(x) {
            let k = choose|k: int| 0 <= k < lines.len() && lines[k] == x;
            if k < at {
                assert(grown[k] == x);
            } else {
                assert(grown[k + 1] == x);
            }
            assert(grown.contains(x));
        }
        if x == line {
            assert(grown[at] == x);
            assert(grown.contains(x));
        }
    }
    assert(grown.to_set() =~= lines.to_set().insert(line));
}

/// A line that a canonical sequence does not hold has a place in it: behind
/// the lines that come before it and in front of those that come after it.
pub proof fn lemma_place_of(lines: Seq<Seq<char>>, line: Seq<char>) -> (at: int)
    requires
        canonical(lines),
        !lines.contains(line),
    ensures
        0 <= at <= lines.len(),
        forall|k: int| 0 <= k < at ==> precedes(#[trigger] lines[k], line),
        forall|k: int| at <= k < lines.len() ==> precedes(line, #[trigger] lines[k]),
    decreases lines.len(),
{
    if lines.len() == 0 {
        0
    } else {
        let last = lines.last();
        assert(lines.contains(last));
        lemma_precedes_total(last, line);
        if precedes(last, line) {
            assert forall|k: int| 0 <= k < lines.len() implies precedes(
                #[trigger] lines[k],
                line,
            ) by {
                if k < lines.len() - 1 {
                    lemma_precedes_transitive(lines[k], last, line);
                }
            }
            lines.len() as int
        } else {
            let front = lines.drop_last();
            assert(canonical(front)) by {
                assert forall|i: int, j: int| 0 <= i < j < front.len() implies precedes(
                    #[trigger] front[i],
                    #[trigger] front[j],
                ) by {
                    assert(precedes(lines[i], lines[j]));
                }
            }
            assert(!front.contains(line)) by {
                if front.contains(line) {
                    let k = choose|k: int| 0 <= k < front.len() && front[k] == line;
                    assert(lines[k] == line);
                }
            }
            let at = lemma_place_of(front, line);
            assert forall|k: int| 0 <= k < at implies precedes(#[trigger] lines[k], line) by {
                assert(front[k] == lines[k]);
            }
            assert forall|k: int| at <= k < lines.len() implies precedes(
                line,
                #[trigger] lines[k],
            ) by {
                if k < lines.len() - 1 {
                    assert(front[k] == lines[k]);
                }
            }
            at
        }
    }
}

/// Every finite set of lines has a canonical order: it holds each member of
/// the set once, and nothing else.
pub proof fn lemma_canonical_order(set: Set<Seq<char>>)
    requires
        set.finite(),
    ensures
        canonical(in_canonical_order(set)),
        in_canonical_order(set).to_set() == set,
        in_canonical_order(set).no_duplicates(),
        in_canonical_order(set).len() == set.len(),
    decreases set.len(),
{
    broadcast use vstd::set::group_set_axioms;

    if set.len() == 0 {
        let none = Seq::<Seq<char>>::empty();
        assert(set =~= Set::<Seq<char>>::empty());
        assert(none.to_set() =~= set);
        assert(canonical(none) && none.to_set() == set);
    } else {
        let line = set.choose();
        let others = set.remove(line);
        lemma_canonical_order(others);
        let lines = in_canonical_order(others);
        assert(!lines.contains(line)) by {
            assert(!lines.to_set().contains(line));
        }
        let at = lemma_place_of(lines, line);
        lemma_insert_canonical(lines, at, line);
        let grown = lines.insert(at, line);
        assert(others.insert(line) =~= set);
        assert(canonical(grown) && grown.to_set() == set);
    }
    let order = in_canonical_order(set);
    lemma_canonical_no_duplicates(order);
    order.unique_seq_to_set();
}

/// Whether `a` comes before `b` in the canonical order.
pub fn is_before(a: &str, b: &str) -> (before: bool)
    ensures
        before == precedes(a@, b@),
{
    broadcast use group_string_axioms;

    let mut rest_a = a.chars();
    let mut rest_b = b.chars();
    loop
        invariant
            rest_a.decrease() is Some,
            precedes(a@, b@) == precedes(rest_a.remaining(), rest_b.remaining()),
        decreases rest_a.decrease()->0,
    {
        let next_a = rest_a.next();
        let next_b = rest_b.next();
        match next_b {
            None => {
                return false;
            },
            Some(cb) => {
                match next_a {
                    None => {
                        return true;
                    },
                    Some(ca) => {
                        if ca != cb {
                            return ca < cb;
                        }
                    },
                }
            },
        }
    }
}

/// A set of import lines, stored in canonical order.
pub struct ImportSet {
    lines: Vec<String>,
}

impl View for ImportSet {
    type V = Set<Seq<char>>;

    closed spec fn view(&self) -> Set<Seq<char>> {
        texts(self.lines@).to_set()
    }
}

impl ImportSet {
    #[verifier::type_invariant]
    spec fn ordered(&self) -> bool {
        canonical(texts(self.lines@))
    }

    /// The empty set.
    pub fn new() -> (set: Self)
        ensures
            set@ == Set::<Seq<char>>::empty(),
    {
        let set = ImportSet { lines: Vec::new() };
        assert(set@ =~= Set::<Seq<char>>::empty()) by {
            assert forall|x: Seq<char>| !texts(set.lines@).contains(x) by {}
        }
        set
    }

    /// Adds `line` to the set and says whether it was new. A line that the set
    /// holds already leaves the set as it was.
    pub fn insert(&mut self, line: String) -> (added: bool)
        ensures
            final(self)@ == old(self)@.insert(line@),
            added == !old(self)@.contains(line@),
    {
        proof {
            use_type_invariant(&*self);
        }
        let mut lines: Vec<String> = Vec::new();
        core::mem::swap(&mut self.lines, &mut lines);
        let ghost before = texts(lines@);
        let mut at: usize = 0;
        while at < lines.len() && is_before(lines[at].as_str(), line.as_str())
            invariant
                at <= lines.len(),
                before == texts(lines@),
                forall|k: int| 0 <= k < at ==> precedes(#[trigger] before[k], line@),
            decreases lines.len() - at,
        {
            at += 1;
        }
        let present = at < lines.len() && lines[at].as_str().eq(line.as_str());
        if present {
            proof {
                assert(before[at as int] == line@);
                assert(before.contains(line@));
                assert(before.to_set().insert(line@) =~= before.to_set());
            }
        } else {
            proof {
                assert forall|k: int| at <= k < before.len() implies precedes(
                    line@,
                    #[trigger] before[k],
                ) by {
                    lemma_precedes_total(line@, before[at as int]);
                    if k > at {
                        lemma_precedes_transitive(line@, before[at as int], before[k]);
                    }
                }
                lemma_insert_canonical(before, at as int, line@);
                assert(texts(lines@.insert(at as int, line)) =~= before.insert(at as int, line@));
                assert(!before.contains(line@)) by {
                    lemma_precedes_irreflexive(line@);
                }
            }
            lines.insert(at, line);
        }
        self.lines = lines;
        !present
    }

    /// Whether the set holds `line`.
    pub fn contains(&self, line: &str) -> (found: bool)
        ensures
            found == self@.contains(line@),
    {
        let mut i: usize = 0;
        while i < self.lines.len()
            invariant
                i <= self.lines.len(),
                forall|k: int| 0 <= k < i ==> (#[trigger] texts(self.lines@)[k]) != line@,
            decreases self.lines.len() - i,
        {
            if self.lines[i].as_str().eq(line) {
                proof {
                    assert(texts(self.lines@)[i as int] == line@);
                    assert(texts(self.lines@).contains(line@));
                }
                return true;
            }
            i += 1;
        }
        false
    }

    /// The number of lines in the set.
    pub fn len(&self) -> (n: usize)
        ensures
            self@.finite(),
            n == self@.len(),
    {
        proof {
            use_type_invariant(self);
            lemma_canonical_no_duplicates(texts(self.lines@));
            texts(self.lines@).unique_seq_to_set();
            vstd::seq_lib::seq_to_set_is_finite(texts(self.lines@));
        }
        self.lines.len()
    }

    /// The lines of the set in canonical order.
    pub fn lines(&self) -> (lines: &Vec<String>)
        ensures
            texts(lines@) == in_canonical_order(self@),
            canonical(texts(lines@)),
            texts(lines@).to_set() == self@,
    {
        proof {
            use_type_invariant(self);
            lemma_canonical_order_of(texts(self.lines@));
        }
        &self.lines
    }
}

} // verus!
