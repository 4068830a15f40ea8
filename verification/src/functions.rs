use vstd::prelude::*;
use vstd::string::*;

verus! {

/// Function definitions by name: each name with the raw text of its body.
/// A later definition of a name takes the place of an earlier one.
pub struct FunctionTable {
    /// The definitions in the order in which they were made.
    pub entries: Vec<(String, String)>,
}

/// The definitions that a run of entries makes: for each name the body of
/// its last entry.
pub open spec fn definitions(entries: Seq<(String, String)>) -> Map<Seq<char>, Seq<char>>
    decreases entries.len(),
{
    if entries.len() == 0 {
        Map::empty()
    } else {
        definitions(entries.drop_last()).insert(entries.last().0@, entries.last().1@)
    }
}

impl View for FunctionTable {
    type V = Map<Seq<char>, Seq<char>>;

    open spec fn view(&self) -> Map<Seq<char>, Seq<char>> {
        definitions(self.entries@)
    }
}

impl Default for FunctionTable {
    fn default() -> (table: FunctionTable)
        ensures
            table@ == Map::<Seq<char>, Seq<char>>::empty(),
    {
        FunctionTable { entries: Vec::new() }
    }
}

impl FunctionTable {
    /// Defines `name` as `body`; an earlier definition of the name is
    /// replaced, every other name keeps its body.
    pub fn define(&mut self, name: String, body: String)
        ensures
            final(self)@ == old(self)@.insert(name@, body@),
    {
        let ghost before = self.entries@;
        self.entries.push((name, body));
        assert(self.entries@.drop_last() =~= before);
    }

    /// The body that `name` is defined as, if it is defined.
    pub fn get(&self, name: &str) -> (body: Option<&str>)
        ensures
            body is Some <==> self@.dom().contains(name@),
            body is Some ==> body->0@ == self@[name@],
    {
        let mut i: usize = self.entries.len();
        assert(self.entries@.subrange(0, i as int) =~= self.entries@);
        while i > 0
            invariant
                i <= self.entries.len(),
                self@.dom().contains(name@) == definitions(
                    self.entries@.subrange(0, i as int),
                ).dom().contains(name@),
                self@.dom().contains(name@) ==> self@[name@] == definitions(
                    self.entries@.subrange(0, i as int),
                )[name@],
            decreases i,
        {
            let ghost prefix = self.entries@.subrange(0, i as int);
            assert(prefix.drop_last() =~= self.entries@.subrange(0, i - 1));
            assert(prefix.last() == self.entries@[i - 1]);
            i -= 1;
            if crate::text::same_text(self.entries[i].0.as_str(), name) {
                return Some(self.entries[i].1.as_str());
            }
        }
        None
    }
}

} // verus!
