use crate::clans::{members_of, wf_clans, ClanSystem, ClanView};
use crate::color::Color;
use crate::crab::{Crab, CrabView};
use crate::diet::Diet;
use crate::string_eq;
use vstd::prelude::*;
use vstd::seq_lib::*;

verus! {

/// The mathematical content of a beach: its crabs in storage order and
/// the content of its clan registry.
#[verifier::ext_equal]
pub ghost struct BeachView {
    pub crabs: Seq<CrabView>,
    pub clans: Seq<ClanView>,
}

/// True when some crab on the beach carries this name.
pub open spec fn has_crab_named(crabs: Seq<CrabView>, name: Seq<char>) -> bool {
    exists|k: int| 0 <= k < crabs.len() && (#[trigger] crabs[k].name) == name
}

/// The predicate selecting crabs that carry this name.
pub open spec fn named(name: Seq<char>) -> spec_fn(CrabView) -> bool {
    |c: CrabView| c.name == name
}

/// The crabs carrying this name, in storage order.
pub open spec fn crabs_named(crabs: Seq<CrabView>, name: Seq<char>) -> Seq<CrabView> {
    crabs.filter(named(name))
}

/// The speed of the first crab in storage order that carries this name,
/// or 0 when no crab does.
pub open spec fn first_match_speed(crabs: Seq<CrabView>, name: Seq<char>) -> int
    decreases crabs.len(),
{
    if crabs.len() == 0 {
        0
    } else if crabs[0].name == name {
        crabs[0].speed as int
    } else {
        first_match_speed(crabs.drop_first(), name)
    }
}

/// True when every listed member name has a matching crab on the beach.
pub open spec fn all_members_on_beach(crabs: Seq<CrabView>, names: Seq<Seq<char>>) -> bool {
    forall|j: int| 0 <= j < names.len() ==> has_crab_named(crabs, #[trigger] names[j])
}

/// The sum, over the listed member names, of the speed of the first crab
/// carrying each name.
pub open spec fn clan_total(crabs: Seq<CrabView>, names: Seq<Seq<char>>) -> int
    decreases names.len(),
{
    if names.len() == 0 {
        0
    } else {
        clan_total(crabs, names.drop_last()) + first_match_speed(crabs, names.last())
    }
}

/// A clan's average speed: the speed total over its listed members,
/// divided (truncating) by the member count.
pub open spec fn clan_average(crabs: Seq<CrabView>, names: Seq<Seq<char>>) -> int {
    clan_total(crabs, names) / names.len() as int
}

/// The position of the fastest crab as the beach reports it: at least as
/// fast as every crab, and strictly faster than every later one (among
/// equally fast crabs the last in storage order wins).
pub open spec fn is_last_fastest(crabs: Seq<CrabView>, k: int) -> bool {
    &&& 0 <= k < crabs.len()
    &&& forall|j: int| 0 <= j < crabs.len() ==> (#[trigger] crabs[j].speed) <= crabs[k].speed
    &&& forall|j: int| k < j < crabs.len() ==> (#[trigger] crabs[j].speed) < crabs[k].speed
}

proof fn lemma_first_match_speed(crabs: Seq<CrabView>, name: Seq<char>, i: int)
    requires
        0 <= i < crabs.len(),
        crabs[i].name == name,
        forall|j: int| 0 <= j < i ==> (#[trigger] crabs[j].name) != name,
    ensures
        first_match_speed(crabs, name) == crabs[i].speed as int,
    decreases i,
{
    if i > 0 {
        let rest = crabs.drop_first();
        assert(forall|j: int| 0 <= j < i - 1 ==> (#[trigger] rest[j].name) != name);
        lemma_first_match_speed(rest, name, i - 1);
    }
}

/// The crab sequence a beach holds after a run of `add_crab` calls,
/// one push per call in call order, starting from an empty beach.
pub open spec fn crabs_after_adds(cs: Seq<CrabView>) -> Seq<CrabView>
    decreases cs.len(),
{
    if cs.len() == 0 {
        Seq::empty()
    } else {
        crabs_after_adds(cs.drop_last()).push(cs.last())
    }
}

/// For every sequence of `add_crab` calls on a beach created empty, the
/// beach holds exactly as many crabs as there were calls, and `crabs`
/// yields them in call order.
pub proof fn lemma_adds_in_call_order(cs: Seq<CrabView>)
    ensures
        crabs_after_adds(cs) == cs,
    decreases cs.len(),
{
    if cs.len() > 0 {
        lemma_adds_in_call_order(cs.drop_last());
    }
    assert(crabs_after_adds(cs) =~= cs);
}

/// Appending a crab grows the collection by exactly one, moves no other
/// crab, and places the new crab last: `add_crab` followed by
/// `get_crab(size() - 1)` reaches exactly the crab just added.
pub proof fn lemma_added_crab_is_last(before: BeachView, after: BeachView, c: CrabView)
    requires
        after.crabs == before.crabs.push(c),
    ensures
        after.crabs.len() == before.crabs.len() + 1,
        forall|k: int|
            0 <= k < before.crabs.len() ==> (#[trigger] after.crabs[k]) == before.crabs[k],
        after.crabs[after.crabs.len() - 1] == c,
{
}

/// A beach: an owning, append-only collection of crabs plus one clan
/// registry.
#[derive(Debug)]
pub struct Beach {
    crabs: Vec<Crab>,
    clan_system: ClanSystem,
}

impl View for Beach {
    type V = BeachView;

    closed spec fn view(&self) -> BeachView {
        BeachView { crabs: self.crabs.deep_view(), clans: self.clan_system@ }
    }
}

impl DeepView for Beach {
    type V = BeachView;

    open spec fn deep_view(&self) -> BeachView {
        self.view()
    }
}

impl Beach {
    /// Whether the beach's clan registry is well formed; every operation
    /// below preserves this.
    pub open spec fn wf(&self) -> bool {
        wf_clans(self@.clans)
    }

    /// Creates an empty beach with an empty clan registry.
    pub fn new() -> (b: Beach)
        ensures
            b@.crabs == Seq::<CrabView>::empty(),
            b@.clans == Seq::<ClanView>::empty(),
            b.wf(),
    {
        let b = Beach { crabs: Vec::new(), clan_system: ClanSystem::new() };
        proof {
            assert(b@.crabs =~= Seq::<CrabView>::empty());
        }
        b
    }

    /// The number of crabs on the beach.
    pub fn size(&self) -> (n: usize)
        ensures
            n == self@.crabs.len(),
    {
        proof {
            assert(self@.crabs.len() == self.crabs@.len());
        }
        self.crabs.len()
    }

    /// Takes ownership of `crab` and appends it at the end of the
    /// collection; no other crab moves and the clan registry is
    /// untouched.
    pub fn add_crab(&mut self, crab: Crab)
        ensures
            final(self)@.crabs == old(self)@.crabs.push(crab@),
            final(self)@.clans == old(self)@.clans,
    {
        let ghost pre = self@.crabs;
        proof {
            assert(pre.len() == self.crabs@.len());
        }
        self.crabs.push(crab);
        proof {
            assert(self@.crabs.len() == self.crabs@.len());
            assert(self@.crabs =~~= pre.push(crab@));
        }
    }

    /// The crab at `index`; out-of-range access is a programmer error and
    /// is excluded by contract.
    pub fn get_crab(&self, index: usize) -> (c: &Crab)
        requires
            index < self@.crabs.len(),
        ensures
            c@ == self@.crabs[index as int],
    {
        proof {
            assert(self@.crabs.len() == self.crabs@.len());
        }
        &self.crabs[index]
    }

    /// All crabs in storage order, for read-only traversal.
    pub fn crabs(&self) -> (r: &Vec<Crab>)
        ensures
            r.deep_view() == self@.crabs,
    {
        &self.crabs
    }

    /// The crab with the greatest speed, or `None` on an empty beach;
    /// among equally fast crabs the last in storage order wins.
    pub fn get_fastest_crab(&self) -> (r: Option<&Crab>)
        ensures
            match r {
                None => self@.crabs.len() == 0,
                Some(c) => exists|k: int| #[trigger] is_last_fastest(self@.crabs, k) && c@
                    == self@.crabs[k],
            },
    {
        let ghost crabs = self@.crabs;
        proof {
            assert(crabs.len() == self.crabs@.len());
        }
        if self.crabs.len() == 0 {
            return None;
        }
        let mut best: usize = 0;
        let mut i: usize = 1;
        while i < self.crabs.len()
            invariant
                crabs == self@.crabs,
                crabs.len() == self.crabs@.len(),
                1 <= i <= crabs.len(),
                best < i,
                forall|j: int| 0 <= j < i ==> (#[trigger] crabs[j].speed) <= crabs[best as int].speed,
                forall|j: int|
                    best < j < i ==> (#[trigger] crabs[j].speed) < crabs[best as int].speed,
            decreases crabs.len() - i,
        {
            if self.crabs[i].speed() >= self.crabs[best].speed() {
                best = i;
            }
            i += 1;
        }
        proof {
            assert(is_last_fastest(crabs, best as int));
        }
        Some(&self.crabs[best])
    }

    /// All crabs whose name exactly equals `name`, as references in
    /// storage order; empty when none match.
    pub fn find_crabs_by_name(&self, name: &str) -> (r: Vec<&Crab>)
        ensures
            r.deep_view() == crabs_named(self@.crabs, name@),
    {
        let name_string: String = name.to_owned();
        let ghost crabs = self@.crabs;
        let ghost pred = named(name@);
        let mut result: Vec<&Crab> = Vec::new();
        proof {
            assert(crabs.len() == self.crabs@.len());
            reveal(Seq::filter);
            assert(result.deep_view() =~~= crabs.take(0).filter(pred));
        }
        let mut i: usize = 0;
        while i < self.crabs.len()
            invariant
                crabs == self@.crabs,
                crabs.len() == self.crabs@.len(),
                i <= crabs.len(),
                pred == named(name_string@),
                result.deep_view() == crabs.take(i as int).filter(pred),
            decreases crabs.len() - i,
        {
            proof {
                assert(result.deep_view().len() == result@.len());
            }
            if string_eq(self.crabs[i].name(), &name_string) {
                result.push(&self.crabs[i]);
            }
            proof {
                let e = crabs[i as int];
                assert(crabs.take(i + 1) =~= crabs.take(i as int) + seq![e]);
                Seq::filter_distributes_over_add(crabs.take(i as int), seq![e], pred);
                reveal_with_fuel(Seq::filter, 2);
                assert(seq![e].drop_last() =~= Seq::<CrabView>::empty());
                assert(seq![e].filter(pred) == if pred(e) {
                    seq![e]
                } else {
                    Seq::<CrabView>::empty()
                });
                assert(result.deep_view().len() == result@.len());
                assert(result.deep_view() =~~= crabs.take(i + 1).filter(pred));
            }
            i += 1;
        }
        proof {
            assert(crabs.take(crabs.len() as int) =~= crabs);
        }
        result
    }

    /// Breeds the crabs at `i` and `j`: appends a new crab named `name`
    /// with speed 1, the crossing of the parents' colors, and a randomly
    /// chosen diet. Out-of-range parents are a programmer error and are
    /// excluded by contract.
    pub fn breed_crabs(&mut self, i: usize, j: usize, name: String)
        requires
            i < old(self)@.crabs.len(),
            j < old(self)@.crabs.len(),
        ensures
            final(self)@.crabs.len() == old(self)@.crabs.len() + 1,
            forall|k: int|
                0 <= k < old(self)@.crabs.len() ==> (#[trigger] final(self)@.crabs[k]) == old(
                    self,
                )@.crabs[k],
            final(self)@.crabs.last().name == name@,
            final(self)@.crabs.last().speed == 1,
            final(self)@.crabs.last().color == Color::spec_cross(
                old(self)@.crabs[i as int].color,
                old(self)@.crabs[j as int].color,
            ),
            final(self)@.clans == old(self)@.clans,
    {
        let color = Color::cross(self.get_crab(i).color(), self.get_crab(j).color());
        let crab = Crab::new(name, 1, color, Diet::random_diet());
        self.add_crab(crab);
    }

    /// Read access to the beach's clan registry.
    pub fn get_clan_system(&self) -> (r: &ClanSystem)
        ensures
            r@ == self@.clans,
    {
        &self.clan_system
    }

    /// Registers `crab_name` under `clan_id` in the beach's clan
    /// registry. The registry checks nothing against the crab
    /// collection; the one-clan-per-crab policy is the caller's.
    pub fn add_member_to_clan(&mut self, clan_id: &str, crab_name: &str)
        requires
            old(self).wf(),
        ensures
            final(self).wf(),
            final(self)@.crabs == old(self)@.crabs,
            crate::clans::has_clan(old(self)@.clans, clan_id@) ==> final(self)@.clans == old(
                self,
            )@.clans.update(
                crate::clans::clan_index(old(self)@.clans, clan_id@),
                (ClanView {
                    id: clan_id@,
                    members: members_of(old(self)@.clans, clan_id@).push(crab_name@),
                }),
            ),
            !crate::clans::has_clan(old(self)@.clans, clan_id@) ==> final(self)@.clans == old(
                self,
            )@.clans.push((ClanView { id: clan_id@, members: seq![crab_name@] })),
    {
        self.clan_system.add_member(clan_id, crab_name);
    }

    /// The speed of the first crab in storage order carrying `name`.
    fn first_speed_of(&self, name: &String) -> (s: u32)
        requires
            has_crab_named(self@.crabs, name@),
        ensures
            s as int == first_match_speed(self@.crabs, name@),
    {
        let ghost crabs = self@.crabs;
        proof {
            assert(crabs.len() == self.crabs@.len());
        }
        let mut i: usize = 0;
        while i < self.crabs.len()
            invariant
                crabs == self@.crabs,
                crabs.len() == self.crabs@.len(),
                i <= crabs.len(),
                has_crab_named(crabs, name@),
                forall|j: int| 0 <= j < i ==> (#[trigger] crabs[j].name) != name@,
            decreases crabs.len() - i,
        {
            if string_eq(self.crabs[i].name(), name) {
                proof {
                    lemma_first_match_speed(crabs, name@, i as int);
                }
                return self.crabs[i].speed();
            }
            i += 1;
        }
        proof {
            assert(false);
        }
        0
    }

    /// Sums, over the listed member names, the speed of the first crab
    /// carrying each name.
    fn sum_clan_speeds(&self, names: &Vec<String>) -> (t: u128)
        requires
            all_members_on_beach(self@.crabs, names.deep_view()),
        ensures
            t as int == clan_total(self@.crabs, names.deep_view()),
    {
        let ghost name_seq = names.deep_view();
        proof {
            assert(name_seq.len() == names@.len());
        }
        let mut total: u128 = 0;
        let mut i: usize = 0;
        while i < names.len()
            invariant
                name_seq == names.deep_view(),
                name_seq.len() == names@.len(),
                i <= name_seq.len(),
                all_members_on_beach(self@.crabs, name_seq),
                total as int == clan_total(self@.crabs, name_seq.take(i as int)),
                total as int <= i as int * 0xffff_ffff,
            decreases name_seq.len() - i,
        {
            proof {
                assert(name_seq[i as int] == names@[i as int]@);
                assert(has_crab_named(self@.crabs, name_seq[i as int]));
            }
            let speed = self.first_speed_of(&names[i]);
            proof {
                let taken = name_seq.take(i + 1);
                assert(taken.drop_last() =~= name_seq.take(i as int));
                assert(taken.last() == name_seq[i as int]);
                assert(first_match_speed(self@.crabs, name_seq[i as int]) <= 0xffff_ffff) by {
                    assert(speed as int == first_match_speed(self@.crabs, name_seq[i as int]));
                }
            }
            total = total + (speed as u128);
            i += 1;
        }
        proof {
            assert(name_seq.take(name_seq.len() as int) =~= name_seq);
        }
        total
    }

    /// Decides the competition between the clans `id1` and `id2`: the
    /// clan with the higher average member speed wins; equal averages
    /// mean no winner. When either identifier resolves to an empty
    /// member list the competition fails with a "clan does not exist"
    /// error (an unregistered clan and an empty one are deliberately not
    /// distinguished). A registered member name with no matching crab on
    /// the beach is a programmer error and is excluded by contract.
    pub fn get_winner_clan(&self, id1: &str, id2: &str) -> (r: Result<Option<String>, String>)
        requires
            self.wf(),
            members_of(self@.clans, id1@).len() > 0 && members_of(self@.clans, id2@).len() > 0
                ==> all_members_on_beach(self@.crabs, members_of(self@.clans, id1@))
                && all_members_on_beach(self@.crabs, members_of(self@.clans, id2@)),
        ensures
            match r {
                Err(e) => (members_of(self@.clans, id1@).len() == 0 || members_of(
                    self@.clans,
                    id2@,
                ).len() == 0) && e@ == "clan does not exist"@,
                Ok(w) => {
                    &&& members_of(self@.clans, id1@).len() > 0
                    &&& members_of(self@.clans, id2@).len() > 0
                    &&& match w {
                        None => clan_average(self@.crabs, members_of(self@.clans, id1@))
                            == clan_average(self@.crabs, members_of(self@.clans, id2@)),
                        Some(id) => (clan_average(self@.crabs, members_of(self@.clans, id1@))
                            > clan_average(self@.crabs, members_of(self@.clans, id2@)) && id@
                            == id1@) || (clan_average(self@.crabs, members_of(self@.clans, id2@))
                            > clan_average(self@.crabs, members_of(self@.clans, id1@)) && id@
                            == id2@),
                    }
                },
            },
    {
        let members1 = self.clan_system.get_clan_member_names(id1);
        let members2 = self.clan_system.get_clan_member_names(id2);
        proof {
            assert(members1@.len() == members1.deep_view().len());
            assert(members2@.len() == members2.deep_view().len());
        }
        if members1.len() == 0 || members2.len() == 0 {
            return Err("clan does not exist".to_owned());
        }
        let total1 = self.sum_clan_speeds(&members1);
        let total2 = self.sum_clan_speeds(&members2);
        let avg1 = total1 / (members1.len() as u128);
        let avg2 = total2 / (members2.len() as u128);
        if avg1 == avg2 {
            Ok(None)
        } else if avg1 > avg2 {
            Ok(Some(id1.to_owned()))
        } else {
            Ok(Some(id2.to_owned()))
        }
    }
}

} // verus!
