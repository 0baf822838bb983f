use crate::string_eq;
use vstd::prelude::*;

verus! {

/// The mathematical content of one clan: its identifier and the names of
/// its members in join order.
#[verifier::ext_equal]
pub ghost struct ClanView {
    pub id: Seq<char>,
    pub members: Seq<Seq<char>>,
}

/// One clan: an identifier and its member names in join order.
#[derive(Debug)]
struct Clan {
    id: String,
    members: Vec<String>,
}

impl View for Clan {
    type V = ClanView;

    closed spec fn view(&self) -> ClanView {
        ClanView { id: self.id@, members: self.members.deep_view() }
    }
}

impl DeepView for Clan {
    type V = ClanView;

    open spec fn deep_view(&self) -> ClanView {
        self.view()
    }
}

/// True when some registered clan carries this identifier.
pub open spec fn has_clan(clans: Seq<ClanView>, id: Seq<char>) -> bool {
    exists|k: int| 0 <= k < clans.len() && (#[trigger] clans[k].id) == id
}

/// The position of the clan with this identifier; meaningful only when
/// `has_clan` holds and identifiers are unique.
pub open spec fn clan_index(clans: Seq<ClanView>, id: Seq<char>) -> int {
    choose|k: int| 0 <= k < clans.len() && (#[trigger] clans[k].id) == id
}

/// The member names registered under this identifier, or the empty
/// sequence when the identifier is unknown.
pub open spec fn members_of(clans: Seq<ClanView>, id: Seq<char>) -> Seq<Seq<char>> {
    if has_clan(clans, id) {
        clans[clan_index(clans, id)].members
    } else {
        Seq::empty()
    }
}

/// Well-formedness of the registry's content: identifiers are unique and
/// every clan was created with at least one member.
pub open spec fn wf_clans(clans: Seq<ClanView>) -> bool {
    &&& forall|i: int, j: int|
        0 <= i < j < clans.len() ==> (#[trigger] clans[i].id) != (#[trigger] clans[j].id)
    &&& forall|i: int| 0 <= i < clans.len() ==> (#[trigger] clans[i].members).len() > 0
}

/// The first position holding a strictly larger member list than every
/// earlier one and at least as large a list as every later one; this is
/// the clan reported by `get_largest_clan_id`.
pub open spec fn is_first_largest(clans: Seq<ClanView>, k: int) -> bool {
    &&& 0 <= k < clans.len()
    &&& forall|j: int|
        0 <= j < clans.len() ==> (#[trigger] clans[j].members).len() <= clans[k].members.len()
    &&& forall|j: int| 0 <= j < k ==> (#[trigger] clans[j].members).len() < clans[k].members.len()
}

/// A registry of clans: a mapping from clan identifiers to the names of
/// the member crabs, in join order. Names are loose keys: nothing checks
/// them against any crab collection.
#[derive(Debug)]
pub struct ClanSystem {
    clans: Vec<Clan>,
}

impl View for ClanSystem {
    type V = Seq<ClanView>;

    closed spec fn view(&self) -> Seq<ClanView> {
        self.clans.deep_view()
    }
}

impl ClanSystem {
    /// Whether the registry's content is well formed; every operation
    /// below preserves this.
    pub open spec fn wf(&self) -> bool {
        wf_clans(self@)
    }

    /// Creates an empty registry.
    pub fn new() -> (r: ClanSystem)
        ensures
            r@ == Seq::<ClanView>::empty(),
            r.wf(),
    {
        let r = ClanSystem { clans: Vec::new() };
        proof {
            assert(r@ =~= Seq::<ClanView>::empty());
        }
        r
    }

    /// Finds the position of the clan with this identifier, if any.
    fn find_clan(&self, clan_id: &String) -> (r: Option<usize>)
        ensures
            match r {
                Some(k) => k < self@.len() && self@[k as int].id == clan_id@,
                None => !has_clan(self@, clan_id@),
            },
    {
        let ghost clans = self@;
        let mut i: usize = 0;
        while i < self.clans.len()
            invariant
                i <= self.clans.len(),
                clans == self@,
                clans.len() == self.clans.len(),
                forall|j: int| 0 <= j < i ==> (#[trigger] clans[j].id) != clan_id@,
            decreases self.clans.len() - i,
        {
            if string_eq(&self.clans[i].id, clan_id) {
                return Some(i);
            }
            i += 1;
        }
        None
    }

    /// Registers `crab_name` under `clan_id`: appends to the member list
    /// when the clan exists, otherwise creates the clan with this single
    /// member. Always succeeds; duplicates are permitted.
    pub fn add_member(&mut self, clan_id: &str, crab_name: &str)
        requires
            old(self).wf(),
        ensures
            final(self).wf(),
            has_clan(old(self)@, clan_id@) ==> final(self)@ == old(self)@.update(
                clan_index(old(self)@, clan_id@),
                (ClanView {
                    id: clan_id@,
                    members: members_of(old(self)@, clan_id@).push(crab_name@),
                }),
            ),
            !has_clan(old(self)@, clan_id@) ==> final(self)@ == old(self)@.push(
                (ClanView { id: clan_id@, members: seq![crab_name@] }),
            ),
    {
        let id_string: String = clan_id.to_owned();
        let name_string: String = crab_name.to_owned();
        let ghost pre = self@;
        match self.find_clan(&id_string) {
            Some(k) => {
                let mut clan = self.clans.remove(k);
                clan.members.push(name_string);
                self.clans.insert(k, clan);
                proof {
                    let ki = clan_index(pre, clan_id@);
                    assert(pre[k as int].id == clan_id@);
                    assert(has_clan(pre, clan_id@));
                    assert(ki == k) by {
                        assert(0 <= ki < pre.len() && pre[ki].id == clan_id@);
                    }
                    assert(members_of(pre, clan_id@) == pre[k as int].members);
                    assert(self@ =~~= pre.update(
                        k as int,
                        ClanView {
                            id: clan_id@,
                            members: members_of(pre, clan_id@).push(crab_name@),
                        },
                    ));
                }
            },
            None => {
                self.clans.push(Clan { id: id_string, members: vec![name_string] });
                proof {
                    assert(self@ =~~= pre.push(
                        ClanView { id: clan_id@, members: seq![crab_name@] },
                    ));
                    assert(seq![crab_name@].len() > 0);
                }
            },
        }
    }

    /// Returns a copy of the member list for `clan_id`, in join order, or
    /// an empty list when the identifier is unknown. Never fails.
    pub fn get_clan_member_names(&self, clan_id: &str) -> (r: Vec<String>)
        requires
            self.wf(),
        ensures
            r.deep_view() == members_of(self@, clan_id@),
    {
        let id_string: String = clan_id.to_owned();
        match self.find_clan(&id_string) {
            Some(k) => {
                proof {
                    let ki = clan_index(self@, clan_id@);
                    assert(has_clan(self@, clan_id@));
                    assert(0 <= ki < self@.len() && self@[ki].id == clan_id@);
                    assert(ki == k);
                }
                let source = &self.clans[k];
                let mut result: Vec<String> = Vec::new();
                proof {
                    assert(result.deep_view() =~~= source@.members.take(0));
                }
                let mut i: usize = 0;
                while i < source.members.len()
                    invariant
                        i <= source.members.len(),
                        source@.members.len() == source.members.len(),
                        result@.len() == i,
                        result.deep_view() == source@.members.take(i as int),
                    decreases source.members.len() - i,
                {
                    result.push(source.members[i].clone());
                    proof {
                        assert(result.deep_view().len() == i + 1);
                        assert(source@.members.take(i + 1).len() == i + 1);
                        assert(result.deep_view() =~~= source@.members.take(i + 1));
                    }
                    i += 1;
                }
                proof {
                    assert(source@.members.take(source.members.len() as int) =~= source@.members);
                }
                result
            },
            None => {
                let result: Vec<String> = Vec::new();
                proof {
                    assert(result.deep_view() =~= Seq::<Seq<char>>::empty());
                }
                result
            },
        }
    }

    /// The number of distinct clans currently registered.
    pub fn get_clan_count(&self) -> (r: usize)
        ensures
            r == self@.len(),
    {
        self.clans.len()
    }

    /// The number of members registered under `clan_id`, or 0 when the
    /// identifier is unknown.
    pub fn get_clan_member_count(&self, clan_id: &str) -> (r: usize)
        requires
            self.wf(),
        ensures
            r == members_of(self@, clan_id@).len(),
    {
        let id_string: String = clan_id.to_owned();
        match self.find_clan(&id_string) {
            Some(k) => {
                proof {
                    let ki = clan_index(self@, clan_id@);
                    assert(has_clan(self@, clan_id@));
                    assert(0 <= ki < self@.len() && self@[ki].id == clan_id@);
                    assert(ki == k);
                }
                self.clans[k].members.len()
            },
            None => 0,
        }
    }

    /// The identifier of the clan with the most members; among ties the
    /// one registered first wins (the registry iterates in registration
    /// order). `None` on an empty registry.
    pub fn get_largest_clan_id(&self) -> (r: Option<String>)
        requires
            self.wf(),
        ensures
            match r {
                None => self@.len() == 0,
                Some(id) => exists|k: int| #[trigger] is_first_largest(self@, k) && id@ == self@[k].id,
            },
    {
        let ghost clans = self@;
        let mut best: Option<usize> = None;
        let mut best_count: usize = 0;
        let mut i: usize = 0;
        while i < self.clans.len()
            invariant
                i <= self.clans.len(),
                clans == self@,
                clans.len() == self.clans.len(),
                self.wf(),
                match best {
                    None => i == 0,
                    Some(k) => {
                        &&& k < i
                        &&& best_count == clans[k as int].members.len()
                        &&& forall|j: int|
                            0 <= j < i ==> (#[trigger] clans[j].members).len() <= best_count
                        &&& forall|j: int|
                            0 <= j < k ==> (#[trigger] clans[j].members).len() < best_count
                    },
                },
            decreases self.clans.len() - i,
        {
            let count = self.clans[i].members.len();
            proof {
                assert(clans[i as int].members.len() > 0);
            }
            match best {
                None => {
                    best = Some(i);
                    best_count = count;
                },
                Some(_) => {
                    if count > best_count {
                        best = Some(i);
                        best_count = count;
                    }
                },
            }
            i += 1;
        }
        match best {
            None => None,
            Some(k) => {
                proof {
                    assert(is_first_largest(clans, k as int));
                }
                Some(self.clans[k].id.clone())
            },
        }
    }
}

} // verus!
