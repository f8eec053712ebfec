//! The topology that a broadcast node is given: for each node of the
//! cluster, the nodes it gossips to.

use crate::json::{text_list, texts, texts_of, Json};
use crate::message::names;
use vstd::prelude::*;
use vstd::string::StringExecFns;

verus! {

/// The mapping that a list of entries stands for: each entry sets the
/// neighbours of its node, and a later entry replaces an earlier one for the
/// same node.
pub open spec fn mapping(entries: Seq<(String, Vec<String>)>) -> Map<Seq<char>, Seq<Seq<char>>>
    decreases entries.len(),
{
    if entries.len() == 0 {
        Map::empty()
    } else {
        mapping(entries.drop_last()).insert(entries.last().0@, names(entries.last().1@))
    }
}

/// Entries that do not name `node` do not change what a list says of it.
proof fn lemma_later_entries_of_others(entries: Seq<(String, Vec<String>)>, from: int, node: Seq<char>)
    requires
        0 <= from <= entries.len(),
        forall|j: int| from <= j < entries.len() ==> (#[trigger] entries[j]).0@ != node,
    ensures
        mapping(entries).contains_key(node) == mapping(entries.take(from)).contains_key(node),
        mapping(entries).contains_key(node) ==> mapping(entries)[node] == mapping(
            entries.take(from),
        )[node],
    decreases entries.len() - from,
{
    if from == entries.len() {
        assert(entries.take(from) =~= entries);
    } else {
        let front = entries.drop_last();
        assert(entries.last() == entries[entries.len() - 1]);
        assert(front.take(from) =~= entries.take(from));
        assert forall|j: int| from <= j < front.len() implies (#[trigger] front[j]).0@ != node by {
            assert(front[j] == entries[j]);
        }
        lemma_later_entries_of_others(front, from, node);
    }
}

/// The topology that the members of an object stand for, if each of them is
/// a list of texts: the member's key is a node, the texts are its
/// neighbours.
pub open spec fn topology_of(members: Seq<(String, Json)>) -> Option<
    Map<Seq<char>, Seq<Seq<char>>>,
>
    decreases members.len(),
{
    if members.len() == 0 {
        Some(Map::empty())
    } else {
        match (topology_of(members.drop_last()), members.last().1) {
            (Some(front), Json::List(items)) => match texts_of(items@) {
                Some(list) => Some(front.insert(members.last().0@, list)),
                None => None,
            },
            _ => None,
        }
    }
}

/// Members of which a front part stands for no topology stand for none.
proof fn lemma_unreadable_member(members: Seq<(String, Json)>, upto: int)
    requires
        0 <= upto <= members.len(),
        topology_of(members.take(upto)) is None,
    ensures
        topology_of(members) is None,
    decreases members.len() - upto,
{
    if upto == members.len() {
        assert(members.take(upto) =~= members);
    } else {
        assert(members.take(upto + 1).drop_last() =~= members.take(upto));
        lemma_unreadable_member(members, upto + 1);
    }
}

/// A mapping from a node's name to the list of its neighbours.
#[derive(Debug, Clone)]
pub struct Topology {
    entries: Vec<(String, Vec<String>)>,
}

impl View for Topology {
    type V = Map<Seq<char>, Seq<Seq<char>>>;

    closed spec fn view(&self) -> Map<Seq<char>, Seq<Seq<char>>> {
        mapping(self.entries@)
    }
}

/// A copy of a list of names.
fn copy_names(list: &Vec<String>) -> (copy: Vec<String>)
    ensures
        names(copy@) == names(list@),
{
    let mut copy: Vec<String> = Vec::new();
    let mut i: usize = 0;
    while i < list.len()
        invariant
            i <= list.len(),
            copy@.len() == i,
            forall|j: int| 0 <= j < i ==> (#[trigger] copy@[j])@ == list@[j]@,
        decreases list.len() - i,
    {
        copy.push(list[i].clone());
        i += 1;
    }
    assert(names(copy@) =~= names(list@));
    copy
}

impl Topology {
    /// A topology without entries.
    pub fn new() -> (topology: Topology)
        ensures
            topology@ == Map::<Seq<char>, Seq<Seq<char>>>::empty(),
    {
        Topology { entries: Vec::new() }
    }

    /// Sets the neighbours of `node`, in place of any it had.
    pub fn insert(&mut self, node: String, neighbours: Vec<String>)
        ensures
            final(self)@ == old(self)@.insert(node@, names(neighbours@)),
    {
        self.entries.push((node, neighbours));
        assert(self.entries@.drop_last() =~= old(self).entries@);
    }

    /// The neighbours of `node`, if the topology has an entry for it.
    pub fn get(&self, node: &str) -> (found: Option<&Vec<String>>)
        ensures
            match found {
                Some(list) => self@.contains_key(node@) && names(list@) == self@[node@],
                None => !self@.contains_key(node@),
            },
    {
        let wanted = String::from_str(node);
        let mut i: usize = self.entries.len();
        while i > 0
            invariant
                i <= self.entries.len(),
                wanted@ == node@,
                forall|j: int|
                    i <= j < self.entries@.len() ==> (#[trigger] self.entries@[j]).0@ != node@,
            decreases i,
        {
            i -= 1;
            if self.entries[i].0 == wanted {
                proof {
                    lemma_later_entries_of_others(self.entries@, i + 1, node@);
                    assert(self.entries@.take(i + 1).drop_last() =~= self.entries@.take(i as int));
                }
                return Some(&self.entries[i].1);
            }
        }
        proof {
            lemma_later_entries_of_others(self.entries@, 0, node@);
            assert(self.entries@.take(0) =~= Seq::empty());
        }
        None
    }

    /// Takes the entry of `node` out of the topology and returns its
    /// neighbours, if there was one.
    pub fn remove(&mut self, node: &str) -> (found: Option<Vec<String>>)
        ensures
            match found {
                Some(list) => old(self)@.contains_key(node@) && names(list@) == old(self)@[node@],
                None => !old(self)@.contains_key(node@),
            },
            final(self)@ == old(self)@.remove(node@),
    {
        let found = match self.get(node) {
            Some(list) => Some(copy_names(list)),
            None => None,
        };
        let wanted = String::from_str(node);
        let mut kept: Vec<(String, Vec<String>)> = Vec::new();
        let mut i: usize = 0;
        while i < self.entries.len()
            invariant
                i <= self.entries.len(),
                wanted@ == node@,
                self.entries == old(self).entries,
                mapping(kept@) == mapping(self.entries@.take(i as int)).remove(node@),
            decreases self.entries.len() - i,
        {
            proof {
                assert(self.entries@.take(i + 1).drop_last() =~= self.entries@.take(i as int));
                assert(self.entries@.take(i + 1).last() == self.entries@[i as int]);
            }
            if !(self.entries[i].0 == wanted) {
                let ghost before = kept@;
                kept.push((self.entries[i].0.clone(), copy_names(&self.entries[i].1)));
                assert(kept@.drop_last() =~= before);
                assert(mapping(kept@) =~= mapping(self.entries@.take(i + 1)).remove(node@));
            } else {
                assert(mapping(kept@) =~= mapping(self.entries@.take(i + 1)).remove(node@));
            }
            i += 1;
        }
        assert(self.entries@.take(self.entries@.len() as int) =~= self.entries@);
        self.entries = kept;
        found
    }

    /// Reads a topology from the members of an object.
    pub fn read(members: &Vec<(String, Json)>) -> (found: Option<Topology>)
        ensures
            match found {
                Some(topology) => topology_of(members@) == Some(topology@),
                None => topology_of(members@) is None,
            },
    {
        let mut entries: Vec<(String, Vec<String>)> = Vec::new();
        let mut i: usize = 0;
        while i < members.len()
            invariant
                i <= members.len(),
                topology_of(members@.take(i as int)) == Some(mapping(entries@)),
            decreases members.len() - i,
        {
            proof {
                assert(members@.take(i + 1).drop_last() =~= members@.take(i as int));
                assert(members@.take(i + 1).last() == members@[i as int]);
            }
            let list = match &members[i].1 {
                Json::List(items) => match texts(items) {
                    Some(list) => list,
                    None => {
                        proof {
                            lemma_unreadable_member(members@, i + 1);
                        }
                        return None;
                    },
                },
                _ => {
                    proof {
                        lemma_unreadable_member(members@, i + 1);
                    }
                    return None;
                },
            };
            let ghost before = entries@;
            entries.push((members[i].0.clone(), list));
            assert(entries@.drop_last() =~= before);
            i += 1;
        }
        assert(members@.take(members@.len() as int) =~= members@);
        Some(Topology { entries })
    }

    /// Writes the topology as the members of an object.
    pub fn write(&self) -> (members: Vec<(String, Json)>)
        ensures
            topology_of(members@) == Some(self@),
    {
        let mut members: Vec<(String, Json)> = Vec::new();
        let mut i: usize = 0;
        while i < self.entries.len()
            invariant
                i <= self.entries.len(),
                topology_of(members@) == Some(mapping(self.entries@.take(i as int))),
            decreases self.entries.len() - i,
        {
            let ghost before = members@;
            members.push((self.entries[i].0.clone(), text_list(&self.entries[i].1)));
            proof {
                assert(members@.drop_last() =~= before);
                assert(self.entries@.take(i + 1).drop_last() =~= self.entries@.take(i as int));
                assert(self.entries@.take(i + 1).last() == self.entries@[i as int]);
            }
            i += 1;
        }
        assert(self.entries@.take(self.entries@.len() as int) =~= self.entries@);
        members
    }
}

} // verus!
