use vstd::prelude::*;
use crate::ast::{Captured, Value};

verus! {

/// The bindings of capture slots, in the order in which they were made.
pub type CaptureSeq = Seq<(Seq<char>, Captured)>;

/// The binding of `name` among `s[i..]`: the first entry with that name.
pub open spec fn capture_from(s: CaptureSeq, name: Seq<char>, i: int) -> Option<Captured>
    decreases s.len() - i,
{
    if i < 0 || i >= s.len() {
        None
    } else if s[i].0 == name {
        Some(s[i].1)
    } else {
        capture_from(s, name, i + 1)
    }
}

/// The value that `name` is bound to, if any.
pub open spec fn capture_of(s: CaptureSeq, name: Seq<char>) -> Option<Captured> {
    capture_from(s, name, 0)
}

/// Binding `name` to `v`: a new name is added; a name that is bound already
/// keeps its value, and the binding succeeds only if that value equals `v`.
pub open spec fn bind_spec(s: CaptureSeq, name: Seq<char>, v: Captured) -> (bool, CaptureSeq) {
    match capture_of(s, name) {
        Some(prev) => (prev == v, s),
        None => (true, s.push((name, v))),
    }
}

/// Name-to-value bindings made while one predicate is matched against one
/// selection.
pub struct Captures {
    pub entries: Vec<(String, Captured)>,
}

impl View for Captures {
    type V = CaptureSeq;

    open spec fn view(&self) -> CaptureSeq {
        self.entries@.map_values(|e: (String, Captured)| (e.0@, e.1))
    }
}

impl Captures {
    /// No bindings.
    pub fn new() -> (r: Captures)
        ensures
            r@ == Seq::<(Seq<char>, Captured)>::empty(),
    {
        let r = Captures { entries: Vec::new() };
        assert(r@ =~= Seq::<(Seq<char>, Captured)>::empty());
        r
    }

    /// The value bound to `name`, if any.
    pub fn get(&self, name: &String) -> (r: Option<Captured>)
        ensures
            r == capture_of(self@, name@),
    {
        let mut i: usize = 0;
        while i < self.entries.len()
            invariant
                0 <= i <= self.entries@.len(),
                capture_from(self@, name@, i as int) == capture_of(self@, name@),
            decreases self.entries@.len() - i,
        {
            if self.entries[i].0 == *name {
                return Some(self.entries[i].1);
            }
            i = i + 1;
        }
        None
    }

    /// Binds `name` to `v` if it is not bound yet; otherwise succeeds only when
    /// the existing value equals `v`, and changes nothing.
    pub fn bind(&mut self, name: &String, v: Captured) -> (r: bool)
        ensures
            (r, final(self)@) == bind_spec(old(self)@, name@, v),
    {
        match self.get(name) {
            Some(prev) => prev == v,
            None => {
                let ghost before = self@;
                self.entries.push((name.clone(), v));
                assert(self@ =~= before.push((name@, v)));
                true
            },
        }
    }
}

/// The variables of a query request, by name.
pub struct QueryVariables {
    pub entries: Vec<(String, Value)>,
}

/// The value of variable `name` among `s[i..]`: the first entry with that name.
pub open spec fn variable_from(s: Seq<(String, Value)>, name: Seq<char>, i: int) -> Option<Value>
    decreases s.len() - i,
{
    if i < 0 || i >= s.len() {
        None
    } else if s[i].0@ == name {
        Some(s[i].1)
    } else {
        variable_from(s, name, i + 1)
    }
}

/// The value of variable `name`, if the request gives one.
pub open spec fn variable_of(s: Seq<(String, Value)>, name: Seq<char>) -> Option<Value> {
    variable_from(s, name, 0)
}

/// The value of `name` among `entries`: the first entry with that name.
pub fn lookup_entry<'a>(entries: &'a Vec<(String, Value)>, name: &String) -> (r: Option<&'a Value>)
    ensures
        match r {
            Some(v) => variable_of(entries@, name@) == Some(*v),
            None => variable_of(entries@, name@) is None,
        },
{
    let mut i: usize = 0;
    while i < entries.len()
        invariant
            0 <= i <= entries@.len(),
            variable_from(entries@, name@, i as int) == variable_of(entries@, name@),
        decreases entries@.len() - i,
    {
        if entries[i].0 == *name {
            return Some(&entries[i].1);
        }
        i = i + 1;
    }
    None
}

impl QueryVariables {
    /// No variables.
    pub fn new() -> (r: QueryVariables)
        ensures
            r.entries@.len() == 0,
    {
        QueryVariables { entries: Vec::new() }
    }

    /// The value of variable `name`, if any.
    pub fn get(&self, name: &String) -> (r: Option<&Value>)
        ensures
            match r {
                Some(v) => variable_of(self.entries@, name@) == Some(*v),
                None => variable_of(self.entries@, name@) is None,
            },
    {
        lookup_entry(&self.entries, name)
    }
}

} // verus!
