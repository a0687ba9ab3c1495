//! Header collections: a name-to-value mapping with unique names in which the last write wins.

use vstd::prelude::*;

verus! {

/// One header line as text: its name and its value.
pub type Line = (Seq<char>, Seq<char>);

/// One header: a name and the value bound to it.
#[derive(Debug)]
pub struct Header {
    pub name: String,
    pub value: String,
}

/// A set of headers. No name occurs twice; writing a name again replaces its value and keeps
/// the line where it stood.
#[derive(Debug)]
pub struct Headers {
    entries: Vec<Header>,
}

/// No two lines carry the same name.
pub open spec fn distinct_names(lines: Seq<Line>) -> bool {
    forall|i: int, j: int| 0 <= i < j < lines.len() ==> lines[i].0 != lines[j].0
}

/// Some line of `lines` carries `name`.
pub open spec fn has_name(lines: Seq<Line>, name: Seq<char>) -> bool {
    exists|i: int| 0 <= i < lines.len() && #[trigger] lines[i].0 == name
}

/// The position of a line that carries `name`, when there is one.
pub open spec fn position_of(lines: Seq<Line>, name: Seq<char>) -> int {
    choose|i: int| 0 <= i < lines.len() && #[trigger] lines[i].0 == name
}

/// Writing `name: value` into `lines`: the line with that name is replaced where it stands,
/// and a new name is added at the end.
pub open spec fn put(lines: Seq<Line>, name: Seq<char>, value: Seq<char>) -> Seq<Line> {
    if has_name(lines, name) {
        lines.update(position_of(lines, name), (name, value))
    } else {
        lines.push((name, value))
    }
}

/// The mapping that a sequence of lines stands for, later lines winning over earlier ones.
pub open spec fn map_of(lines: Seq<Line>) -> Map<Seq<char>, Seq<char>>
    decreases lines.len(),
{
    if lines.len() == 0 {
        Map::empty()
    } else {
        map_of(lines.drop_last()).insert(lines.last().0, lines.last().1)
    }
}

/// The names bound by `map_of` are exactly the names of the lines.
pub proof fn lemma_map_of_dom(lines: Seq<Line>, name: Seq<char>)
    ensures
        map_of(lines).dom().contains(name) <==> has_name(lines, name),
    decreases lines.len(),
{
    if lines.len() > 0 {
        let front = lines.drop_last();
        lemma_map_of_dom(front, name);
        if has_name(front, name) {
            let i = position_of(front, name);
            assert(lines[i].0 == name);
        }
        if has_name(lines, name) {
            let i = position_of(lines, name);
            if i < lines.len() - 1 {
                assert(front[i].0 == name);
            }
        }
    }
}

/// With distinct names, each line's name is bound to that line's value.
pub proof fn lemma_map_of_line(lines: Seq<Line>, i: int)
    requires
        distinct_names(lines),
        0 <= i < lines.len(),
    ensures
        map_of(lines).dom().contains(lines[i].0),
        map_of(lines)[lines[i].0] == lines[i].1,
    decreases lines.len(),
{
    let front = lines.drop_last();
    if i < lines.len() - 1 {
        assert(distinct_names(front));
        lemma_map_of_line(front, i);
        assert(front[i] == lines[i]);
    }
}

/// Last write wins: with distinct names, `put` is `insert` on the mapping, and the names
/// stay distinct.
pub proof fn lemma_put_inserts(lines: Seq<Line>, name: Seq<char>, value: Seq<char>)
    requires
        distinct_names(lines),
    ensures
        distinct_names(put(lines, name, value)),
        map_of(put(lines, name, value)) == map_of(lines).insert(name, value),
    decreases lines.len(),
{
    let after = put(lines, name, value);
    if has_name(lines, name) {
        let p = position_of(lines, name);
        let front = lines.drop_last();
        let last = lines.len() - 1;
        if p == last {
            assert(after.drop_last() =~= front);
            assert(map_of(after) =~= map_of(lines).insert(name, value));
        } else {
            assert(front[p].0 == name);
            assert(distinct_names(front));
            assert(has_name(front, name));
            let q = position_of(front, name);
            assert(q == p) by {
                if q != p {
                    assert(front[q].0 == front[p].0);
                }
            }
            lemma_put_inserts(front, name, value);
            assert(after.drop_last() =~= put(front, name, value));
            assert(after.last() == lines.last());
            assert(lines[last].0 != lines[p].0);
            assert(map_of(after) =~= map_of(lines).insert(name, value));
        }
        assert(distinct_names(after)) by {
            assert forall|i: int, j: int| 0 <= i < j < after.len() implies after[i].0
                != after[j].0 by {
                assert(after[i].0 == lines[i].0);
                assert(after[j].0 == lines[j].0);
            }
        }
    } else {
        assert(after.drop_last() =~= lines);
        assert(distinct_names(after)) by {
            assert forall|i: int, j: int| 0 <= i < j < after.len() implies after[i].0
                != after[j].0 by {
                if j == lines.len() {
                    assert(lines[i].0 != name);
                }
            }
        }
    }
}

impl Headers {
    #[verifier::type_invariant]
    spec fn inv(self) -> bool {
        distinct_names(self.lines())
    }

    /// The header lines in the order in which their names were first written.
    pub closed spec fn lines(&self) -> Seq<Line> {
        Seq::new(self.entries@.len(), |i: int| (self.entries@[i].name@, self.entries@[i].value@))
    }

    /// An empty set of headers.
    pub fn new() -> (headers: Headers)
        ensures
            headers.lines() == Seq::<Line>::empty(),
            headers@ == Map::<Seq<char>, Seq<char>>::empty(),
    {
        let headers = Headers { entries: Vec::new() };
        assert(headers.lines() =~= Seq::<Line>::empty());
        headers
    }

    /// The number of headers.
    pub fn len(&self) -> (n: usize)
        ensures
            n == self.lines().len(),
    {
        self.entries.len()
    }

    /// The header at position `index`.
    pub fn entry(&self, index: usize) -> (header: &Header)
        requires
            index < self.lines().len(),
        ensures
            (header.name@, header.value@) == self.lines()[index as int],
    {
        &self.entries[index]
    }

    /// Where `name` stands among the lines, if it does.
    fn position(&self, name: &String) -> (found: Option<usize>)
        ensures
            found is Some <==> has_name(self.lines(), name@),
            found matches Some(i) ==> i < self.lines().len() && self.lines()[i as int].0 == name@,
    {
        let mut index: usize = 0;
        while index < self.entries.len()
            invariant
                index <= self.entries@.len(),
                forall|k: int| 0 <= k < index ==> (#[trigger] self.lines()[k]).0 != name@,
            decreases self.entries@.len() - index,
        {
            if self.entries[index].name == *name {
                assert(self.lines()[index as int].0 == name@);
                return Some(index);
            }
            index = index + 1;
        }
        None
    }

    /// The value bound to `name`, if any.
    pub fn get(&self, name: &str) -> (value: Option<&String>)
        ensures
            value is Some <==> self@.dom().contains(name@),
            value matches Some(v) ==> v@ == self@[name@],
    {
        let key = name.to_owned();
        proof {
            use_type_invariant(self);
            lemma_map_of_dom(self.lines(), name@);
        }
        match self.position(&key) {
            Some(index) => {
                proof {
                    lemma_map_of_line(self.lines(), index as int);
                }
                Some(&self.entries[index].value)
            },
            None => None,
        }
    }

    /// Binds `name` to `value`, replacing the value that `name` had.
    pub fn insert(&mut self, name: &str, value: &str)
        ensures
            final(self).lines() == put(old(self).lines(), name@, value@),
            final(self)@ == old(self)@.insert(name@, value@),
    {
        let key = name.to_owned();
        let header = Header { name: name.to_owned(), value: value.to_owned() };
        proof {
            use_type_invariant(&*self);
            lemma_put_inserts(self.lines(), name@, value@);
        }
        let ghost before = self.lines();
        match self.position(&key) {
            Some(index) => {
                proof {
                    let p = position_of(before, name@);
                    if p != index as int {
                        assert(before[p].0 == before[index as int].0);
                    }
                }
                let mut entries = Vec::new();
                std::mem::swap(&mut entries, &mut self.entries);
                entries.set(index, header);
                assert(Seq::new(entries@.len(), |i: int| (entries@[i].name@, entries@[i].value@))
                    =~= put(before, name@, value@));
                self.entries = entries;
            },
            None => {
                let mut entries = Vec::new();
                std::mem::swap(&mut entries, &mut self.entries);
                entries.push(header);
                assert(Seq::new(entries@.len(), |i: int| (entries@[i].name@, entries@[i].value@))
                    =~= put(before, name@, value@));
                self.entries = entries;
            },
        }
    }
}

impl View for Headers {
    type V = Map<Seq<char>, Seq<char>>;

    /// The mapping from names to values.
    open spec fn view(&self) -> Map<Seq<char>, Seq<char>> {
        map_of(self.lines())
    }
}

} // verus!
