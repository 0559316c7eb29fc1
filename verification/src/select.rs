//! What the operator has picked: the set of selected entities, the agent
//! under control and the agent the camera follows.

use std::collections::BTreeSet;
use vstd::prelude::*;
use vstd::std_specs::iter::IteratorSpec;

verus! {

/// The agent under the operator's control, if any.
#[derive(Clone, Copy, Debug, Default, PartialEq, Eq)]
pub struct ActiveControl(pub Option<u64>);

/// The agent that the camera follows, if any.
#[derive(Clone, Copy, Debug, Default, PartialEq, Eq)]
pub struct CameraFollows(pub Option<u64>);

/// The entities picked with the pointer, kept in ascending order of id.
pub struct GUISelect {
    entities: BTreeSet<u64>,
}

impl View for GUISelect {
    type V = Set<u64>;

    closed spec fn view(&self) -> Set<u64> {
        self.entities@
    }
}

impl GUISelect {
    /// No entity is selected.
    pub fn new() -> (picked: GUISelect)
        ensures
            picked@ == Set::<u64>::empty(),
    {
        GUISelect { entities: BTreeSet::new() }
    }

    /// Selects `entity`.
    pub fn add(&mut self, entity: u64)
        ensures
            final(self)@ == old(self)@.insert(entity),
    {
        broadcast use vstd::laws_cmp::group_laws_cmp;

        self.entities.insert(entity);
    }

    /// Drops the whole selection.
    pub fn clear(&mut self)
        ensures
            final(self)@ == Set::<u64>::empty(),
    {
        self.entities.clear();
    }

    /// The selected entities, each once.
    pub fn entities(&self) -> (all: Vec<u64>)
        ensures
            all@.to_set() == self@,
            all@.no_duplicates(),
    {
        broadcast use vstd::laws_cmp::group_laws_cmp;

        let mut all: Vec<u64> = Vec::new();
        let ghost keys = self.entities.iter().remaining();
        for entity in it: self.entities.iter()
            invariant
                it.seq() == keys,
                all@.len() == it.index(),
                forall|j: int| 0 <= j < all@.len() ==> all@[j] == *keys[j],
        {
            all.push(*entity);
        }
        assert(all@ =~= keys.unref());
        assert forall|i: int, j: int| 0 <= i < j < all@.len() implies all@[i] != all@[j] by {
            assert(keys[i] != keys[j]);
        }
        all
    }
}

/// What a click of the pointer selects. Every entity under the pointer
/// joins the selection. With the control key held, the last agent among
/// them comes under the operator's control.
pub fn mouse_selection(
    under_pointer: &Vec<(u64, bool)>,
    control_held: bool,
    gui_select: &mut GUISelect,
    ac: &mut ActiveControl,
)
    ensures
        final(gui_select)@ == old(gui_select)@.union(picked(under_pointer@).to_set()),
        final(ac).0 == taken_over(under_pointer@, control_held, old(ac).0),
{
    let mut i: usize = 0;
    assert(picked(under_pointer@.take(0)) =~= Seq::<u64>::empty());
    assert(gui_select@ =~= old(gui_select)@.union(Seq::<u64>::empty().to_set()));
    while i < under_pointer.len()
        invariant
            i <= under_pointer.len(),
            gui_select@ == old(gui_select)@.union(picked(under_pointer@.take(i as int)).to_set()),
            ac.0 == taken_over(under_pointer@.take(i as int), control_held, old(ac).0),
        decreases under_pointer.len() - i,
    {
        let entity = under_pointer[i].0;
        let is_agent = under_pointer[i].1;
        proof {
            let before = under_pointer@.take(i as int);
            let after = under_pointer@.take(i + 1);
            assert(after.drop_last() =~= before);
            assert(after.last() == under_pointer@[i as int]);
            assert(picked(after) =~= picked(before).push(entity));
            picked(before).lemma_push_to_set_commute(entity);
            assert(old(gui_select)@.union(picked(before).to_set()).insert(entity) =~= old(
                gui_select,
            )@.union(picked(before).to_set().insert(entity)));
        }
        gui_select.add(entity);
        if control_held && is_agent {
            ac.0 = Some(entity);
        }
        i += 1;
    }
    assert(under_pointer@.take(under_pointer.len() as int) =~= under_pointer@);
}

/// The ids of the entities under the pointer.
pub open spec fn picked(under_pointer: Seq<(u64, bool)>) -> Seq<u64> {
    Seq::new(under_pointer.len(), |i: int| under_pointer[i].0)
}

/// The agent under control after a click: the last agent under the
/// pointer if the control key is held, else the one before the click.
pub open spec fn taken_over(under_pointer: Seq<(u64, bool)>, control_held: bool, before: Option<
    u64,
>) -> Option<u64>
    decreases under_pointer.len(),
{
    if under_pointer.len() == 0 {
        before
    } else if control_held && under_pointer.last().1 {
        Some(under_pointer.last().0)
    } else {
        taken_over(under_pointer.drop_last(), control_held, before)
    }
}

} // verus!
