//! Batches of packages that are updated together: an index from attribute
//! path to its named group.
use vstd::prelude::*;

verus! {

/// Groups by name, each with its member attribute paths.
#[derive(Debug)]
pub struct GroupsData {
    groups_by_name: Vec<(String, Vec<String>)>,
}

/// Lookups from an attribute path into the groups.
#[derive(Debug)]
pub struct Groupings<'a> {
    data: &'a GroupsData,
}

pub open spec fn members_view(v: Seq<String>) -> Seq<Seq<char>> {
    v.map_values(|m: String| m@)
}

/// The last group (in listing order) whose members hold `attr`, looking at
/// the first `n` groups.
pub open spec fn group_index(gs: Seq<(Seq<char>, Seq<Seq<char>>)>, attr: Seq<char>, n: int) -> Option<int>
    decreases n,
{
    if n <= 0 || n > gs.len() {
        None
    } else if gs[n - 1].1.contains(attr) {
        Some(n - 1)
    } else {
        group_index(gs, attr, n - 1)
    }
}

impl GroupsData {
    pub closed spec fn view(&self) -> Seq<(Seq<char>, Seq<Seq<char>>)> {
        self.groups_by_name@.map_values(|g: (String, Vec<String>)| (g.0@, members_view(g.1@)))
    }

    /// Groups as listed, each a name and its members.
    pub fn new(groups: Vec<(String, Vec<String>)>) -> (r: GroupsData)
        ensures
            r.view() == groups@.map_values(
                |g: (String, Vec<String>)| (g.0@, members_view(g.1@)),
            ),
    {
        GroupsData { groups_by_name: groups }
    }

    /// The lookups over these groups.
    pub fn build_index(&self) -> (r: Groupings<'_>)
        ensures
            r.view() == self.view(),
    {
        Groupings { data: self }
    }
}

fn contains_string(v: &Vec<String>, s: &String) -> (r: bool)
    ensures
        r == members_view(v@).contains(s@),
{
    let mut i: usize = 0;
    while i < v.len()
        invariant
            i <= v@.len(),
            forall|k: int| 0 <= k < i ==> v@[k]@ != s@,
        decreases v@.len() - i,
    {
        if v[i] == *s {
            assert(members_view(v@)[i as int] == s@);
            return true;
        }
        i += 1;
    }
    assert(!members_view(v@).contains(s@)) by {
        if members_view(v@).contains(s@) {
            let k = choose|k: int| 0 <= k < members_view(v@).len() && members_view(v@)[k] == s@;
            assert(v@[k]@ == s@);
        }
    }
    false
}

impl<'a> Groupings<'a> {
    pub closed spec fn view(&self) -> Seq<(Seq<char>, Seq<Seq<char>>)> {
        self.data.view()
    }

    fn find(&self, attr: &String) -> (r: Option<usize>)
        ensures
            r matches Some(i) ==> group_index(self.view(), attr@, self.view().len() as int) == Some(
                i as int,
            ) && i < self.data.groups_by_name@.len(),
            r is None ==> group_index(self.view(), attr@, self.view().len() as int) is None,
    {
        let gs = &self.data.groups_by_name;
        let mut n = gs.len();
        while n > 0
            invariant
                n <= gs@.len(),
                gs == &self.data.groups_by_name,
                group_index(self.view(), attr@, self.view().len() as int) == group_index(
                    self.view(),
                    attr@,
                    n as int,
                ),
            decreases n,
        {
            if contains_string(&gs[n - 1].1, attr) {
                return Some(n - 1);
            }
            n -= 1;
        }
        None
    }

    /// The group that holds `attr`.
    pub fn group_name(&self, attr: &String) -> (r: Option<&'a String>)
        ensures
            match group_index(self.view(), attr@, self.view().len() as int) {
                Some(i) => r matches Some(g) && g@ == self.view()[i].0,
                None => r is None,
            },
    {
        match self.find(attr) {
            Some(i) => Some(&self.data.groups_by_name[i].0),
            None => None,
        }
    }

    /// Whether some group holds `attr`.
    pub fn attr_in_group(&self, attr: &String) -> (r: bool)
        ensures
            r == group_index(self.view(), attr@, self.view().len() as int) is Some,
    {
        self.find(attr).is_some()
    }

    /// All members of the group that holds `attr`, `attr` included.
    pub fn group_members(&self, attr: &String) -> (r: Option<&'a Vec<String>>)
        ensures
            match group_index(self.view(), attr@, self.view().len() as int) {
                Some(i) => r matches Some(m) && members_view(m@) == self.view()[i].1,
                None => r is None,
            },
    {
        match self.find(attr) {
            Some(i) => Some(&self.data.groups_by_name[i].1),
            None => None,
        }
    }
}

} // verus!
