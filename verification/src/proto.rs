//! Capabilities: their identifiers, the handles that expose them, and the
//! table in which they are located and opened.

use vstd::prelude::*;
use crate::console::Output;
use crate::node::File;
use crate::status::{plain_failure, Failure, UNSUPPORTED};

verus! {

/// A 128-bit identifier that names one capability type.
#[derive(Clone, Copy, Debug, PartialEq, Eq, Structural)]
pub struct Guid {
    pub value: u128,
}

/// An opaque key for an entity that the firmware manages.
#[derive(Clone, Copy, Debug, PartialEq, Eq, Structural)]
pub struct Handle {
    pub key: usize,
}

/// The identifier of the console text output capability.
pub const TEXT_OUTPUT_GUID: u128 = 0x387477c2_69c7_11d2_8e39_00a0c969723b;

/// The identifier of the file capability.
pub const FILE_GUID: u128 = 0x964e5b22_6459_11d2_8e39_00a0c969723b;

/// A type that one identifier names.
pub trait Identify {
    /// The identifier of the type.
    spec fn guid_spec() -> Guid;

    /// The identifier of the type.
    fn guid() -> (g: Guid)
        ensures
            g == Self::guid_spec(),
    ;
}

/// Common trait of the capability types.
pub trait Protocol: Identify {

}

impl Identify for Output {
    open spec fn guid_spec() -> Guid {
        Guid { value: TEXT_OUTPUT_GUID }
    }

    fn guid() -> (g: Guid) {
        Guid { value: TEXT_OUTPUT_GUID }
    }
}

impl Protocol for Output {

}

impl Identify for File {
    open spec fn guid_spec() -> Guid {
        Guid { value: FILE_GUID }
    }

    fn guid() -> (g: Guid) {
        Guid { value: FILE_GUID }
    }
}

impl Protocol for File {

}

/// One capability installed on one handle.
#[derive(Clone, Copy, Debug, PartialEq, Eq, Structural)]
pub struct Binding {
    pub handle: Handle,
    pub guid: Guid,
}

/// The table of installed capabilities, in the order of their installation.
pub struct BootServices {
    bindings: Vec<Binding>,
}

/// A live binding of a handle to one capability. It borrows the table that
/// produced it, so it cannot be used once that table has been given up.
pub struct Instance<'a> {
    table: &'a BootServices,
    slot: usize,
}

/// The place of the first binding from `from` on whose capability is `guid`,
/// or the number of bindings where there is none.
pub open spec fn slot_from(bindings: Seq<Binding>, guid: Guid, from: int) -> int
    decreases bindings.len() - from,
{
    if from < 0 || from >= bindings.len() {
        bindings.len() as int
    } else if bindings[from].guid == guid {
        from
    } else {
        slot_from(bindings, guid, from + 1)
    }
}

/// The place of the binding of `guid` on `handle`, searched from `from` on, or
/// the number of bindings where there is none.
pub open spec fn binding_from(bindings: Seq<Binding>, wanted: Binding, from: int) -> int
    decreases bindings.len() - from,
{
    if from < 0 || from >= bindings.len() {
        bindings.len() as int
    } else if bindings[from] == wanted {
        from
    } else {
        binding_from(bindings, wanted, from + 1)
    }
}

/// Whether no capability is installed twice on one handle.
pub open spec fn distinct(bindings: Seq<Binding>) -> bool {
    forall|i: int, j: int|
        0 <= i < j < bindings.len() ==> #[trigger] bindings[i] != #[trigger] bindings[j]
}

impl View for BootServices {
    type V = Seq<Binding>;

    closed spec fn view(&self) -> Seq<Binding> {
        self.bindings@
    }
}

impl<'a> Instance<'a> {
    /// The place of the binding in its table.
    pub closed spec fn slot(&self) -> int {
        self.slot as int
    }

    /// The bindings of the table that the instance borrows.
    pub closed spec fn bindings(&self) -> Seq<Binding> {
        self.table@
    }

    /// Whether the instance names a binding of its table.
    pub open spec fn well_formed(&self) -> bool {
        0 <= self.slot() < self.bindings().len()
    }

    /// The handle that exposes the capability.
    pub fn handle(&self) -> (r: Handle)
        requires
            self.well_formed(),
        ensures
            r == self.bindings()[self.slot()].handle,
    {
        self.table.bindings[self.slot].handle
    }

    /// The capability that the instance binds.
    pub fn guid(&self) -> (r: Guid)
        requires
            self.well_formed(),
        ensures
            r == self.bindings()[self.slot()].guid,
    {
        self.table.bindings[self.slot].guid
    }

    /// Whether two instances are bindings of the same place.
    pub fn same_as(&self, other: &Instance<'a>) -> (r: bool)
        ensures
            r == (self.slot() == other.slot()),
    {
        self.slot == other.slot
    }
}

impl BootServices {
    /// Whether no capability is installed twice on one handle.
    pub closed spec fn well_formed(&self) -> bool {
        distinct(self.bindings@)
    }

    /// A table with nothing installed.
    pub fn new() -> (r: BootServices)
        ensures
            r.well_formed(),
            r@ == Seq::<Binding>::empty(),
    {
        BootServices { bindings: Vec::new() }
    }

    /// Installs a capability on a handle, after those installed before.
    /// Nothing changes where the handle has that capability already.
    pub fn install(&mut self, handle: Handle, guid: Guid) -> (installed: bool)
        requires
            old(self).well_formed(),
        ensures
            final(self).well_formed(),
            installed == (binding_from(old(self)@, Binding { handle, guid }, 0) == old(self)@.len()),
            installed <==> (forall|i: int|
                0 <= i < old(self)@.len() ==> #[trigger] old(self)@[i] != (Binding { handle, guid })),
            installed ==> final(self)@ == old(self)@.push(Binding { handle, guid }),
            !installed ==> final(self)@ == old(self)@,
    {
        let wanted = Binding { handle, guid };
        let at: usize = self.find_binding(wanted);
        if at < self.bindings.len() {
            return false;
        }
        proof {
            lemma_binding_absent(self.bindings@, wanted, 0);
            assert(wanted == (Binding { handle, guid }));
        }
        self.bindings.push(wanted);
        true
    }

    /// The place of the binding `wanted`, or the number of bindings.
    fn find_binding(&self, wanted: Binding) -> (at: usize)
        ensures
            at == binding_from(self@, wanted, 0),
            at <= self@.len(),
            at < self@.len() ==> self@[at as int] == wanted,
    {
        let mut i: usize = 0;
        while i < self.bindings.len()
            invariant
                i <= self.bindings@.len(),
                binding_from(self@, wanted, 0) == binding_from(self@, wanted, i as int),
            decreases self.bindings@.len() - i,
        {
            let b = self.bindings[i];
            if b.handle.key == wanted.handle.key && b.guid.value == wanted.guid.value {
                return i;
            }
            i += 1;
        }
        i
    }

    /// Searches the installed capabilities for `guid`. Returns the first
    /// binding of it, and nothing where no handle exposes it.
    pub fn locate<'a>(&'a self, guid: Guid) -> (r: Option<Instance<'a>>)
        ensures
            slot_from(self@, guid, 0) == self@.len() ==> r is None,
            slot_from(self@, guid, 0) < self@.len() ==> (r matches Some(inst) && inst.slot()
                == slot_from(self@, guid, 0) && inst.bindings() == self@ && inst.well_formed()),
            r is None <==> (forall|i: int| 0 <= i < self@.len() ==> (#[trigger] self@[i]).guid != guid),
            r matches Some(inst) ==> self@[inst.slot()].guid == guid,
    {
        proof {
            lemma_slot_holds(self@, guid, 0);
        }
        let mut i: usize = 0;
        while i < self.bindings.len()
            invariant
                i <= self.bindings@.len(),
                slot_from(self@, guid, 0) == slot_from(self@, guid, i as int),
            decreases self.bindings@.len() - i,
        {
            if self.bindings[i].guid.value == guid.value {
                return Some(Instance { table: self, slot: i });
            }
            i += 1;
        }
        None
    }

    /// Searches the installed capabilities for that of the type `P`.
    pub fn locate_protocol<'a, P: Protocol>(&'a self) -> (r: Option<Instance<'a>>)
        ensures
            slot_from(self@, P::guid_spec(), 0) == self@.len() ==> r is None,
            slot_from(self@, P::guid_spec(), 0) < self@.len() ==> (r matches Some(inst)
                && inst.slot() == slot_from(self@, P::guid_spec(), 0) && inst.bindings() == self@
                && inst.well_formed()),
    {
        self.locate(P::guid())
    }

    /// Binds `handle` to its capability `guid`, and fails with unsupported
    /// where the handle does not expose it.
    pub fn open<'a>(&'a self, handle: Handle, guid: Guid) -> (r: Result<Instance<'a>, Failure>)
        ensures
            binding_from(self@, Binding { handle, guid }, 0) == self@.len() ==> (r matches Err(f)
                && f == plain_failure(UNSUPPORTED)),
            binding_from(self@, Binding { handle, guid }, 0) < self@.len() ==> (r matches Ok(inst)
                && inst.slot() == binding_from(self@, Binding { handle, guid }, 0)
                && inst.bindings() == self@ && inst.well_formed()),
            r is Err <==> (forall|i: int|
                0 <= i < self@.len() ==> #[trigger] self@[i] != (Binding { handle, guid })),
            r matches Ok(inst) ==> self@[inst.slot()] == (Binding { handle, guid }),
    {
        let at: usize = self.find_binding(Binding { handle, guid });
        proof {
            if at == self@.len() {
                lemma_binding_absent(self@, Binding { handle, guid }, 0);
            }
        }
        if at < self.bindings.len() {
            Ok(Instance { table: self, slot: at })
        } else {
            Err(Failure { kind: UNSUPPORTED, payload: None })
        }
    }

    /// Ends the phase in which capabilities can be located and opened. The
    /// table is given up, and with it every instance that borrows it.
    pub fn exit_boot_services(self) -> (count: usize)
        ensures
            count == self@.len(),
    {
        self.bindings.len()
    }
}

/// A search that reaches the end found no binding equal to the wanted one.
pub proof fn lemma_binding_absent(bindings: Seq<Binding>, wanted: Binding, from: int)
    requires
        0 <= from <= bindings.len(),
        binding_from(bindings, wanted, from) == bindings.len(),
    ensures
        forall|i: int| from <= i < bindings.len() ==> #[trigger] bindings[i] != wanted,
    decreases bindings.len() - from,
{
    if from < bindings.len() {
        lemma_binding_absent(bindings, wanted, from + 1);
    }
}

/// The place that a search for a capability returns holds that capability.
pub proof fn lemma_slot_holds(bindings: Seq<Binding>, guid: Guid, from: int)
    requires
        0 <= from <= bindings.len(),
    ensures
        from <= slot_from(bindings, guid, from) <= bindings.len(),
        slot_from(bindings, guid, from) < bindings.len() ==> bindings[slot_from(
            bindings,
            guid,
            from,
        )].guid == guid,
        slot_from(bindings, guid, from) == bindings.len() ==> forall|i: int|
            from <= i < bindings.len() ==> (#[trigger] bindings[i]).guid != guid,
    decreases bindings.len() - from,
{
    if from < bindings.len() && bindings[from].guid != guid {
        lemma_slot_holds(bindings, guid, from + 1);
    }
}

/// Two capabilities with different identifiers, both located in one table,
/// are never the same instance.
pub proof fn lemma_located_apart(bindings: Seq<Binding>, g1: Guid, g2: Guid)
    requires
        g1 != g2,
        slot_from(bindings, g1, 0) < bindings.len(),
        slot_from(bindings, g2, 0) < bindings.len(),
    ensures
        slot_from(bindings, g1, 0) != slot_from(bindings, g2, 0),
{
    lemma_slot_holds(bindings, g1, 0);
    lemma_slot_holds(bindings, g2, 0);
}

} // verus!
