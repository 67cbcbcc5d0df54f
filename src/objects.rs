//! Story triggers: sensor regions bound to a dialog that start it on the
//! first contact and stay quiet until the next reset.
use vstd::prelude::*;
use crate::dialog::{CurrentDialog, Dialog};
use crate::AppState;

verus! {

/// A dialog bound to a sensor, with whether it has fired since the last
/// reset.
#[derive(Debug, Clone, Copy, PartialEq, Eq, Structural)]
pub struct DialogTrigger {
    pub dialog: Dialog,
    pub fired: bool,
}

impl DialogTrigger {
    /// A trigger for `dialog` that has not fired yet.
    pub fn new(dialog: Dialog) -> (r: DialogTrigger)
        ensures
            r == (DialogTrigger { dialog, fired: false }),
    {
        DialogTrigger { dialog, fired: false }
    }
}

/// A sensor entity, by its identifier, and the trigger it carries.
pub type Gate = (u64, DialogTrigger);

/// A contact-started event between two entities.
pub type Contact = (u64, u64);

spec fn first_gate(gates: Seq<Gate>, entity: u64, i: int) -> bool {
    &&& 0 <= i < gates.len()
    &&& gates[i].0 == entity
    &&& forall|j: int| 0 <= j < i ==> gates[j].0 != entity
}

/// Position of the trigger that `entity` carries, if it carries one.
pub closed spec fn gate_index(gates: Seq<Gate>, entity: u64) -> Option<int> {
    if exists|i: int| first_gate(gates, entity, i) {
        Some(choose|i: int| first_gate(gates, entity, i))
    } else {
        None
    }
}

/// The trigger that fires on `contact`, if any: the one on its first entity
/// when that entity carries one, else the one on its second entity; and only
/// if it has not fired yet.
pub open spec fn firing_gate(gates: Seq<Gate>, contact: Contact) -> Option<int> {
    match gate_index(gates, contact.0) {
        Some(i) => if gates[i].1.fired {
            None
        } else {
            Some(i)
        },
        None => match gate_index(gates, contact.1) {
            Some(i) => if gates[i].1.fired {
                None
            } else {
                Some(i)
            },
            None => None,
        },
    }
}

/// The gates with the `i`-th marked as fired.
pub open spec fn fire(gates: Seq<Gate>, i: int) -> Seq<Gate> {
    gates.update(i, (gates[i].0, DialogTrigger { dialog: gates[i].1.dialog, fired: true }))
}

/// The gates after a pass over `contacts`, in order, with the dialogs
/// started along the way.
pub open spec fn run_contacts(gates: Seq<Gate>, contacts: Seq<Contact>) -> (Seq<Gate>, Seq<Dialog>)
    decreases contacts.len(),
{
    if contacts.len() == 0 {
        (gates, Seq::empty())
    } else {
        let prev = run_contacts(gates, contacts.drop_last());
        match firing_gate(prev.0, contacts.last()) {
            Some(i) => (fire(prev.0, i), prev.1.push(prev.0[i].1.dialog)),
            None => prev,
        }
    }
}

/// The gates with every fired flag cleared.
pub open spec fn reset_all(gates: Seq<Gate>) -> Seq<Gate> {
    Seq::new(
        gates.len(),
        |i: int| (gates[i].0, DialogTrigger { dialog: gates[i].1.dialog, fired: false }),
    )
}

proof fn lemma_gate_index_is(gates: Seq<Gate>, entity: u64, i: int)
    requires
        first_gate(gates, entity, i),
    ensures
        gate_index(gates, entity) == Some(i),
{
    let c = choose|c: int| first_gate(gates, entity, c);
    assert(first_gate(gates, entity, c));
    if c < i {
        assert(gates[c].0 != entity);
    } else if c > i {
        assert(gates[i].0 != entity);
    }
}

proof fn lemma_gate_index_none(gates: Seq<Gate>, entity: u64)
    requires
        forall|j: int| 0 <= j < gates.len() ==> gates[j].0 != entity,
    ensures
        gate_index(gates, entity) is None,
{
}

proof fn lemma_gate_index_found(gates: Seq<Gate>, entity: u64)
    ensures
        gate_index(gates, entity) matches Some(i) ==> first_gate(gates, entity, i),
{
}

/// The sensor triggers of the world, by entity.
#[derive(Debug)]
pub struct DialogTriggers {
    gates: Vec<Gate>,
}

impl View for DialogTriggers {
    type V = Seq<Gate>;

    closed spec fn view(&self) -> Seq<Gate> {
        self.gates@
    }
}

impl DialogTriggers {
    /// A world with no triggers.
    pub fn new() -> (r: DialogTriggers)
        ensures
            r@ == Seq::<Gate>::empty(),
    {
        DialogTriggers { gates: Vec::new() }
    }

    /// Position of the trigger that `entity` carries.
    fn find(&self, entity: u64) -> (r: Option<usize>)
        ensures
            r matches Some(i) ==> gate_index(self@, entity) == Some(i as int),
            r is None ==> gate_index(self@, entity) is None,
    {
        let mut i: usize = 0;
        while i < self.gates.len()
            invariant
                i <= self.gates@.len(),
                forall|j: int| 0 <= j < i ==> self.gates@[j].0 != entity,
            decreases self.gates@.len() - i,
        {
            if self.gates[i].0 == entity {
                proof {
                    lemma_gate_index_is(self@, entity, i as int);
                }
                return Some(i);
            }
            i = i + 1;
        }
        proof {
            lemma_gate_index_none(self@, entity);
        }
        None
    }

    /// The trigger that `entity` carries, if any.
    pub fn get(&self, entity: u64) -> (r: Option<DialogTrigger>)
        ensures
            r matches Some(t) ==> gate_index(self@, entity) matches Some(i) && self@[i].1 == t,
            r is None ==> gate_index(self@, entity) is None,
    {
        match self.find(entity) {
            Some(i) => Some(self.gates[i].1),
            None => None,
        }
    }

    /// Puts `trigger` on `entity`, replacing the one it carried.
    pub fn register(&mut self, entity: u64, trigger: DialogTrigger)
        ensures
            final(self)@ == match gate_index(old(self)@, entity) {
                Some(i) => old(self)@.update(i, (entity, trigger)),
                None => old(self)@.push((entity, trigger)),
            },
    {
        match self.find(entity) {
            Some(i) => {
                proof {
                    lemma_gate_index_found(self@, entity);
                }
                self.gates.set(i, (entity, trigger));
            },
            None => {
                self.gates.push((entity, trigger));
            },
        }
    }

    /// Re-arms every trigger.
    pub fn on_reset(&mut self)
        ensures
            final(self)@ == reset_all(old(self)@),
    {
        let mut i: usize = 0;
        while i < self.gates.len()
            invariant
                i <= self.gates@.len(),
                self.gates@.len() == old(self)@.len(),
                forall|j: int| 0 <= j < i ==> #[trigger] self.gates@[j] == reset_all(old(self)@)[j],
                forall|j: int| i <= j < self.gates@.len() ==> #[trigger] self.gates@[j] == old(self)@[j],
            decreases self.gates@.len() - i,
        {
            let (entity, trigger) = self.gates[i];
            self.gates.set(i, (entity, DialogTrigger { dialog: trigger.dialog, fired: false }));
            i = i + 1;
        }
        assert(self@ =~= reset_all(old(self)@));
    }
}

/// The contact pass of one frame. Each contact, in order, fires the trigger
/// it touches if that one has not fired since the last reset: the trigger is
/// marked fired, its dialog is started in the session and the mode is sent to
/// `InDialog`. Returns the dialogs started, in order.
pub fn trigger_check(
    contacts: &Vec<Contact>,
    triggers: &mut DialogTriggers,
    current: &mut CurrentDialog,
    next_state: &mut Option<AppState>,
) -> (started: Vec<Dialog>)
    ensures
        (final(triggers)@, started@) == run_contacts(old(triggers)@, contacts@),
        final(current)@ == if started@.len() > 0 {
            (started@.last(), 0nat)
        } else {
            old(current)@
        },
        *final(next_state) == if started@.len() > 0 {
            Some(AppState::InDialog)
        } else {
            *old(next_state)
        },
{
    let mut started: Vec<Dialog> = Vec::new();
    let mut k: usize = 0;
    while k < contacts.len()
        invariant
            k <= contacts@.len(),
            (triggers@, started@) == run_contacts(old(triggers)@, contacts@.take(k as int)),
            current@ == if started@.len() > 0 {
                (started@.last(), 0nat)
            } else {
                old(current)@
            },
            *next_state == if started@.len() > 0 {
                Some(AppState::InDialog)
            } else {
                *old(next_state)
            },
        decreases contacts@.len() - k,
    {
        let (entity1, entity2) = contacts[k];
        proof {
            assert(contacts@.take(k + 1).drop_last() =~= contacts@.take(k as int));
            assert(contacts@.take(k + 1).last() == contacts@[k as int]);
        }
        let gate = match triggers.find(entity1) {
            Some(i) => if triggers.gates[i].1.fired {
                None
            } else {
                Some(i)
            },
            None => match triggers.find(entity2) {
                Some(i) => if triggers.gates[i].1.fired {
                    None
                } else {
                    Some(i)
                },
                None => None,
            },
        };
        proof {
            lemma_gate_index_found(triggers@, entity1);
            lemma_gate_index_found(triggers@, entity2);
        }
        match gate {
            Some(i) => {
                let (entity, trigger) = triggers.gates[i];
                current.set(trigger.dialog);
                *next_state = Some(AppState::InDialog);
                triggers.gates.set(i, (entity, DialogTrigger { dialog: trigger.dialog, fired: true }));
                started.push(trigger.dialog);
            },
            None => {},
        }
        k = k + 1;
    }
    assert(contacts@.take(contacts@.len() as int) =~= contacts@);
    started
}

/// The reset pass of one frame: any reset event re-arms every trigger.
pub fn reset_check(resets: usize, triggers: &mut DialogTriggers)
    ensures
        final(triggers)@ == if resets > 0 {
            reset_all(old(triggers)@)
        } else {
            old(triggers)@
        },
{
    let mut k: usize = 0;
    while k < resets
        invariant
            k <= resets,
            triggers@ == if k > 0 {
                reset_all(old(triggers)@)
            } else {
                old(triggers)@
            },
        decreases resets - k,
    {
        triggers.on_reset();
        proof {
            lemma_reset_idempotent(old(triggers)@);
        }
        k = k + 1;
    }
}

/// Resetting twice is resetting once: flags already cleared stay cleared and
/// nothing else changes.
pub proof fn lemma_reset_idempotent(gates: Seq<Gate>)
    ensures
        reset_all(reset_all(gates)) == reset_all(gates),
{
    assert(reset_all(reset_all(gates)) =~= reset_all(gates));
}

proof fn lemma_same_entities_same_index(g1: Seq<Gate>, g2: Seq<Gate>, entity: u64)
    requires
        g1.len() == g2.len(),
        forall|j: int| 0 <= j < g1.len() ==> g1[j].0 == g2[j].0,
    ensures
        gate_index(g1, entity) == gate_index(g2, entity),
{
    assert forall|i: int| first_gate(g1, entity, i) <==> first_gate(g2, entity, i) by {
        if 0 <= i < g1.len() {
            assert(g1[i].0 == g2[i].0);
            assert forall|j: int| 0 <= j < i implies (g1[j].0 != entity <==> g2[j].0 != entity) by {
                assert(g1[j].0 == g2[j].0);
            }
        }
    }
    if exists|i: int| first_gate(g1, entity, i) {
        let i = choose|i: int| first_gate(g1, entity, i);
        assert(first_gate(g2, entity, i));
        lemma_gate_index_is(g1, entity, i);
        lemma_gate_index_is(g2, entity, i);
    } else {
        assert forall|i: int| !first_gate(g2, entity, i) by {
            if first_gate(g2, entity, i) {
                assert(first_gate(g1, entity, i));
            }
        }
    }
}

proof fn lemma_run_keeps_entities(gates: Seq<Gate>, contacts: Seq<Contact>)
    ensures
        run_contacts(gates, contacts).0.len() == gates.len(),
        forall|j: int|
            0 <= j < gates.len() ==> #[trigger] run_contacts(gates, contacts).0[j].0 == gates[j].0
                && run_contacts(gates, contacts).0[j].1.dialog == gates[j].1.dialog,
    decreases contacts.len(),
{
    if contacts.len() > 0 {
        lemma_run_keeps_entities(gates, contacts.drop_last());
        let prev = run_contacts(gates, contacts.drop_last());
        lemma_gate_index_found(prev.0, contacts.last().0);
        lemma_gate_index_found(prev.0, contacts.last().1);
    }
}

/// Exactly-once firing: contacts that all touch the same armed trigger,
/// bound to `d`, start `d` once, however many of them arrive before a reset.
/// A contact counts as touching the trigger when its first entity carries it,
/// or when its second entity carries it and its first entity carries none.
pub proof fn lemma_fires_exactly_once(
    gates: Seq<Gate>,
    contacts: Seq<Contact>,
    entity: u64,
    d: Dialog,
)
    requires
        gate_index(gates, entity) matches Some(i) && gates[i].1 == (DialogTrigger {
            dialog: d,
            fired: false,
        }),
        contacts.len() >= 1,
        forall|k: int|
            0 <= k < contacts.len() ==> (#[trigger] contacts[k]).0 == entity || (contacts[k].1
                == entity && gate_index(gates, contacts[k].0) is None),
    ensures
        run_contacts(gates, contacts).1 == seq![d],
        gate_index(gates, entity) matches Some(i) && run_contacts(gates, contacts).0[i].1 == (
        DialogTrigger { dialog: d, fired: true }),
    decreases contacts.len(),
{
    let i = gate_index(gates, entity)->0;
    lemma_gate_index_found(gates, entity);
    let prefix = contacts.drop_last();
    let c = contacts.last();
    assert(c == contacts[contacts.len() - 1]);
    lemma_run_keeps_entities(gates, prefix);
    let prev = run_contacts(gates, prefix);
    lemma_same_entities_same_index(gates, prev.0, entity);
    lemma_same_entities_same_index(gates, prev.0, c.0);
    if prefix.len() == 0 {
        assert(prev.0 == gates);
    } else {
        assert forall|k: int| 0 <= k < prefix.len() implies (#[trigger] prefix[k]).0 == entity || (
        prefix[k].1 == entity && gate_index(gates, prefix[k].0) is None) by {
            assert(prefix[k] == contacts[k]);
        }
        lemma_fires_exactly_once(gates, prefix, entity, d);
    }
}

/// A reset re-arms: after it, a contact on a trigger's entity starts that
/// trigger's dialog again, whether or not it had fired.
pub proof fn lemma_reset_rearms(gates: Seq<Gate>, contact: Contact)
    requires
        gate_index(gates, contact.0) is Some,
    ensures
        gate_index(gates, contact.0) matches Some(i) && run_contacts(
            reset_all(gates),
            seq![contact],
        ).1 == seq![gates[i].1.dialog],
{
    let armed = reset_all(gates);
    lemma_gate_index_found(gates, contact.0);
    lemma_same_entities_same_index(gates, armed, contact.0);
    assert(seq![contact].drop_last() =~= Seq::<Contact>::empty());
    let i = gate_index(gates, contact.0)->0;
    assert(run_contacts(armed, Seq::<Contact>::empty()) == (armed, Seq::<Dialog>::empty()));
    assert(firing_gate(armed, contact) == Some(i));
    assert(Seq::<Dialog>::empty().push(armed[i].1.dialog) =~= seq![gates[i].1.dialog]);
}

} // verus!
