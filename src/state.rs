//! The hook registry: a fixed-capacity table of instrumentation slots keyed by
//! address, and beside it a cache of the first four bytes found at each patched
//! address.
use vstd::prelude::*;
use crate::bytes::copy_bytes;
use crate::error::SigHookError;

verus! {

/// Capacity of the slot table and of the opcode cache.
pub const MAX_INSTRUMENTS: usize = 256;

/// Most original bytes a slot keeps.
pub const MAX_ORIGINAL_LEN: usize = 16;

/// One instrumented address.
#[derive(Debug, PartialEq, Eq)]
pub struct InstrumentSlot {
    pub address: u64,
    /// The bytes the trap overwrote (1 to 16 of them).
    pub original_bytes: Vec<u8>,
    /// Length of the overwritten instruction, by which execution advances past it.
    pub step_len: u8,
    /// The four bytes first found at the address, as a little-endian word.
    pub original_opcode: u32,
    /// Address of the callback, `extern "C" fn(u64, *mut HookContext)`.
    pub callback: u64,
    /// Whether the original instruction is replayed after the callback.
    pub execute_original: bool,
    /// Entry of the replay trampoline, 0 when there is none.
    pub trampoline_pc: u64,
    /// Whether a trap here returns straight to the caller of the hooked function.
    pub return_to_caller: bool,
}

/// What a slot holds, as mathematical values.
pub struct SlotView {
    pub address: u64,
    pub original: Seq<u8>,
    pub step_len: u8,
    pub original_opcode: u32,
    pub callback: u64,
    pub execute_original: bool,
    pub trampoline_pc: u64,
    pub return_to_caller: bool,
}

impl View for InstrumentSlot {
    type V = SlotView;

    open spec fn view(&self) -> SlotView {
        SlotView {
            address: self.address,
            original: self.original_bytes@,
            step_len: self.step_len,
            original_opcode: self.original_opcode,
            callback: self.callback,
            execute_original: self.execute_original,
            trampoline_pc: self.trampoline_pc,
            return_to_caller: self.return_to_caller,
        }
    }
}

impl InstrumentSlot {
    /// A copy of the slot, taken by value.
    pub fn snapshot(&self) -> (r: InstrumentSlot)
        ensures
            r@ == self@,
    {
        InstrumentSlot {
            address: self.address,
            original_bytes: copy_bytes(self.original_bytes.as_slice()),
            step_len: self.step_len,
            original_opcode: self.original_opcode,
            callback: self.callback,
            execute_original: self.execute_original,
            trampoline_pc: self.trampoline_pc,
            return_to_caller: self.return_to_caller,
        }
    }
}

/// The first four bytes once found at an address.
#[derive(Clone, Copy, Debug, PartialEq, Eq, Structural)]
pub struct OriginalOpcodeSlot {
    pub address: u64,
    pub opcode: u32,
}

impl SlotView {
    /// Well-formed: some original bytes, at most 16, a non-zero step, and a
    /// trampoline wherever the original is replayed.
    pub open spec fn wf(self) -> bool {
        &&& 1 <= self.original.len() <= MAX_ORIGINAL_LEN
        &&& self.step_len >= 1
        &&& self.execute_original ==> self.trampoline_pc != 0
    }
}

/// The registry as mathematical values.
pub struct HooksView {
    pub slots: Seq<SlotView>,
    pub opcodes: Seq<OriginalOpcodeSlot>,
    pub replace_index: int,
}

impl HooksView {
    pub open spec fn wf(self) -> bool {
        &&& self.slots.len() <= MAX_INSTRUMENTS
        &&& self.opcodes.len() <= MAX_INSTRUMENTS
        &&& 0 <= self.replace_index < MAX_INSTRUMENTS
        &&& forall|i: int| 0 <= i < self.slots.len() ==> (#[trigger] self.slots[i]).wf()
        &&& forall|i: int, j: int|
            0 <= i < self.slots.len() && 0 <= j < self.slots.len() && i != j ==> (
            #[trigger] self.slots[i]).address != (#[trigger] self.slots[j]).address
        &&& forall|i: int, j: int|
            0 <= i < self.opcodes.len() && 0 <= j < self.opcodes.len() && i != j ==> (
            #[trigger] self.opcodes[i]).address != (#[trigger] self.opcodes[j]).address
    }

    pub open spec fn has_slot(self, address: u64) -> bool {
        exists|i: int| 0 <= i < self.slots.len() && #[trigger] self.slots[i].address == address
    }

    pub open spec fn slot_index(self, address: u64) -> int {
        choose|i: int| 0 <= i < self.slots.len() && #[trigger] self.slots[i].address == address
    }

    /// The slot registered for `address`, if any.
    pub open spec fn slot_of(self, address: u64) -> Option<SlotView> {
        if self.has_slot(address) {
            Some(self.slots[self.slot_index(address)])
        } else {
            None
        }
    }

    pub open spec fn has_cached(self, address: u64) -> bool {
        exists|i: int|
            0 <= i < self.opcodes.len() && #[trigger] self.opcodes[i].address == address
    }

    pub open spec fn cached_index(self, address: u64) -> int {
        choose|i: int| 0 <= i < self.opcodes.len() && #[trigger] self.opcodes[i].address == address
    }

    /// The opcode cached for `address`, if any.
    pub open spec fn cached_of(self, address: u64) -> Option<u32> {
        if self.has_cached(address) {
            Some(self.opcodes[self.cached_index(address)].opcode)
        } else {
            None
        }
    }

    /// The answer to an original-opcode query: the cache first, then the slots.
    pub open spec fn original_opcode(self, address: u64) -> Option<u32> {
        match self.cached_of(address) {
            Some(op) => Some(op),
            None => match self.slot_of(address) {
                Some(s) => Some(s.original_opcode),
                None => None,
            },
        }
    }

    /// Whether registering `address` with `execute_original` needs a new trampoline.
    pub open spec fn needs_trampoline(self, address: u64, execute_original: bool) -> bool {
        execute_original && match self.slot_of(address) {
            Some(s) => s.trampoline_pc == 0,
            None => true,
        }
    }

    /// The outcome of registering a callback for `address`.
    pub open spec fn register_result(self, address: u64, original: Seq<u8>, step_len: u8) -> Result<
        (),
        SigHookError,
    > {
        if original.len() == 0 || original.len() > MAX_ORIGINAL_LEN || step_len == 0 {
            Err(SigHookError::InvalidAddress)
        } else if self.has_slot(address) || self.slots.len() < MAX_INSTRUMENTS {
            Ok(())
        } else {
            Err(SigHookError::InstrumentSlotsFull)
        }
    }

    /// The registry after registering a callback for `address`. An existing slot
    /// keeps its bytes, step and opcode, takes the new callback and flag, and gets
    /// the new trampoline only if it had none and now replays.
    pub open spec fn registered(
        self,
        address: u64,
        original: Seq<u8>,
        step_len: u8,
        original_opcode: u32,
        callback: u64,
        execute_original: bool,
        trampoline_pc: u64,
    ) -> HooksView {
        if self.register_result(address, original, step_len) is Err {
            self
        } else if self.has_slot(address) {
            let i = self.slot_index(address);
            let s = self.slots[i];
            let t = if execute_original && s.trampoline_pc == 0 {
                trampoline_pc
            } else {
                s.trampoline_pc
            };
            HooksView {
                slots: self.slots.update(
                    i,
                    SlotView { callback, execute_original, trampoline_pc: t, ..s },
                ),
                ..self
            }
        } else {
            HooksView {
                slots: self.slots.push(
                    SlotView {
                        address,
                        original,
                        step_len,
                        original_opcode,
                        callback,
                        execute_original,
                        trampoline_pc: if execute_original {
                            trampoline_pc
                        } else {
                            0
                        },
                        return_to_caller: false,
                    },
                ),
                ..self
            }
        }
    }

    /// The registry after caching `opcode` for `address`: an entry for the address
    /// is updated; else a free entry is taken; else the entry at the round-robin
    /// index is replaced and the index moves on.
    pub open spec fn cached(self, address: u64, opcode: u32) -> HooksView {
        let e = OriginalOpcodeSlot { address, opcode };
        if self.has_cached(address) {
            HooksView { opcodes: self.opcodes.update(self.cached_index(address), e), ..self }
        } else if self.opcodes.len() < MAX_INSTRUMENTS {
            HooksView { opcodes: self.opcodes.push(e), ..self }
        } else {
            HooksView {
                opcodes: self.opcodes.update(self.replace_index, e),
                replace_index: (self.replace_index + 1) % (MAX_INSTRUMENTS as int),
                ..self
            }
        }
    }
}

impl HooksView {
    /// Caching keeps the registry well-formed, answers for the cached address
    /// and leaves the slots alone.
    pub proof fn lemma_cached(self, address: u64, opcode: u32)
        requires
            self.wf(),
        ensures
            self.cached(address, opcode).wf(),
            self.cached(address, opcode).cached_of(address) == Some(opcode),
            self.cached(address, opcode).slots == self.slots,
    {
        let h = self.cached(address, opcode);
        let e = OriginalOpcodeSlot { address, opcode };
        let at = if self.has_cached(address) {
            self.cached_index(address)
        } else if self.opcodes.len() < MAX_INSTRUMENTS {
            self.opcodes.len() as int
        } else {
            self.replace_index
        };
        assert(h.opcodes[at] == e);
        assert forall|k: int, j: int|
            0 <= k < h.opcodes.len() && 0 <= j < h.opcodes.len() && k != j implies (
        #[trigger] h.opcodes[k]).address != (#[trigger] h.opcodes[j]).address by {
            if k != at && j != at {
                assert(h.opcodes[k] == self.opcodes[k]);
                assert(h.opcodes[j] == self.opcodes[j]);
            } else if k != at {
                assert(h.opcodes[k] == self.opcodes[k]);
                if self.has_cached(address) {
                    assert(self.opcodes[at].address == address);
                }
            } else if j != at {
                assert(h.opcodes[j] == self.opcodes[j]);
                if self.has_cached(address) {
                    assert(self.opcodes[at].address == address);
                }
            }
        }
        assert(h.opcodes[at].address == address);
        assert(h.has_cached(address));
        let c = h.cached_index(address);
        assert(c == at);
    }

    /// Registering keeps the registry well-formed and leaves the opcode cache
    /// alone; on success the address has a slot holding the new callback, and an
    /// address that had a slot keeps its original bytes and step length.
    pub proof fn lemma_registered(
        self,
        address: u64,
        original: Seq<u8>,
        step_len: u8,
        original_opcode: u32,
        callback: u64,
        execute_original: bool,
        trampoline_pc: u64,
    )
        requires
            self.wf(),
            self.needs_trampoline(address, execute_original) ==> trampoline_pc != 0,
        ensures
            ({
                let h = self.registered(
                    address,
                    original,
                    step_len,
                    original_opcode,
                    callback,
                    execute_original,
                    trampoline_pc,
                );
                &&& h.wf()
                &&& h.opcodes == self.opcodes
                &&& h.replace_index == self.replace_index
                &&& self.register_result(address, original, step_len) is Ok ==> {
                    &&& h.slot_of(address) is Some
                    &&& h.slot_of(address).unwrap().callback == callback
                    &&& h.slot_of(address).unwrap().execute_original == execute_original
                    &&& self.slot_of(address) matches Some(s) ==> h.slot_of(address).unwrap().original
                        == s.original && h.slot_of(address).unwrap().step_len == s.step_len
                        && h.slot_of(address).unwrap().original_opcode == s.original_opcode
                    &&& self.slot_of(address) is None ==> h.slot_of(address).unwrap().original
                        == original && h.slot_of(address).unwrap().step_len == step_len
                        && h.slot_of(address).unwrap().original_opcode == original_opcode
                }
                &&& forall|b: u64| b != address ==> #[trigger] h.slot_of(b) == self.slot_of(b)
            }),
    {
        let h = self.registered(
            address,
            original,
            step_len,
            original_opcode,
            callback,
            execute_original,
            trampoline_pc,
        );
        if self.register_result(address, original, step_len) is Err {
            return;
        }
        let at = if self.has_slot(address) {
            self.slot_index(address)
        } else {
            self.slots.len() as int
        };
        assert(h.slots[at].address == address);
        assert forall|k: int| 0 <= k < h.slots.len() implies (#[trigger] h.slots[k]).wf() by {
            if k != at {
                assert(h.slots[k] == self.slots[k]);
            }
        }
        assert forall|k: int, j: int|
            0 <= k < h.slots.len() && 0 <= j < h.slots.len() && k != j implies (
        #[trigger] h.slots[k]).address != (#[trigger] h.slots[j]).address by {
            if k != at {
                assert(h.slots[k] == self.slots[k]);
            }
            if j != at {
                assert(h.slots[j] == self.slots[j]);
            }
            if self.has_slot(address) {
                assert(self.slots[at].address == address);
            }
        }
        assert(h.has_slot(address));
        assert(h.slot_index(address) == at);
        assert forall|b: u64| b != address implies #[trigger] h.slot_of(b) == self.slot_of(b) by {
            if self.has_slot(b) {
                let i = self.slot_index(b);
                assert(i != at);
                assert(h.slots[i] == self.slots[i]);
                assert(h.has_slot(b));
                assert(h.slot_index(b) == i);
            }
            if h.has_slot(b) {
                let i = h.slot_index(b);
                assert(i != at);
                assert(h.slots[i] == self.slots[i]);
                assert(self.has_slot(b));
            }
        }
    }
}

/// The registry.
pub struct Hooks {
    slots: Vec<InstrumentSlot>,
    opcodes: Vec<OriginalOpcodeSlot>,
    replace_index: usize,
}

impl View for Hooks {
    type V = HooksView;

    closed spec fn view(&self) -> HooksView {
        HooksView {
            slots: self.slots@.map_values(|s: InstrumentSlot| s@),
            opcodes: self.opcodes@,
            replace_index: self.replace_index as int,
        }
    }
}

impl Hooks {
    pub open spec fn wf(&self) -> bool {
        self@.wf()
    }

    /// An empty registry.
    pub fn new() -> (r: Hooks)
        ensures
            r.wf(),
            r@.slots.len() == 0,
            r@.opcodes.len() == 0,
            r@.replace_index == 0,
    {
        let r = Hooks { slots: Vec::new(), opcodes: Vec::new(), replace_index: 0 };
        assert(r@.slots =~= Seq::<SlotView>::empty());
        r
    }

    /// Index of the slot for `address`.
    pub fn find_slot_index(&self, address: u64) -> (r: Option<usize>)
        requires
            self.wf(),
        ensures
            r is None <==> !self@.has_slot(address),
            r matches Some(i) ==> i == self@.slot_index(address) && i < self@.slots.len(),
    {
        let mut index: usize = 0;
        while index < self.slots.len()
            invariant
                index <= self.slots@.len(),
                self@.wf(),
                forall|k: int| 0 <= k < index ==> #[trigger] self@.slots[k].address != address,
            decreases self.slots@.len() - index,
        {
            if self.slots[index].address == address {
                assert(self@.slots[index as int].address == address);
                assert(self@.has_slot(address));
                let ghost c = self@.slot_index(address);
                assert(c == index);
                return Some(index);
            }
            index = index + 1;
        }
        None
    }

    /// A copy of the slot registered for `address`.
    pub fn slot_by_address(&self, address: u64) -> (r: Option<InstrumentSlot>)
        requires
            self.wf(),
        ensures
            r is None <==> self@.slot_of(address) is None,
            r matches Some(s) ==> self@.slot_of(address) == Some(s@),
    {
        match self.find_slot_index(address) {
            Some(i) => Some(self.slots[i].snapshot()),
            None => None,
        }
    }

    /// Whether registering `address` with `execute_original` needs a new trampoline.
    pub fn needs_trampoline(&self, address: u64, execute_original: bool) -> (r: bool)
        requires
            self.wf(),
        ensures
            r == self@.needs_trampoline(address, execute_original),
    {
        if !execute_original {
            return false;
        }
        match self.find_slot_index(address) {
            Some(i) => self.slots[i].trampoline_pc == 0,
            None => true,
        }
    }

    /// Whether a slot is free for an address not yet registered.
    pub fn has_room(&self) -> (r: bool)
        ensures
            r == (self@.slots.len() < MAX_INSTRUMENTS),
    {
        self.slots.len() < MAX_INSTRUMENTS
    }

    /// Registers `callback` for `address`.
    ///
    /// An existing slot is updated in place: it takes the new callback and
    /// flag, and `trampoline_pc` if it now replays and had no trampoline. Else a
    /// free slot records the original bytes, the step length, the original
    /// opcode, the callback, and `trampoline_pc` if the original is replayed. Fails with `InvalidAddress`
    /// for an empty or over-long byte run or a zero step, and with
    /// `InstrumentSlotsFull` when no slot is free.
    pub fn register_slot(
        &mut self,
        address: u64,
        original_bytes: &[u8],
        step_len: u8,
        original_opcode: u32,
        callback: u64,
        execute_original: bool,
        trampoline_pc: u64,
    ) -> (r: Result<(), SigHookError>)
        requires
            old(self).wf(),
            old(self)@.needs_trampoline(address, execute_original) ==> trampoline_pc != 0,
        ensures
            final(self).wf(),
            r == old(self)@.register_result(address, original_bytes@, step_len),
            final(self)@ == old(self)@.registered(
                address,
                original_bytes@,
                step_len,
                original_opcode,
                callback,
                execute_original,
                trampoline_pc,
            ),
    {
        if original_bytes.len() == 0 || original_bytes.len() > MAX_ORIGINAL_LEN || step_len == 0 {
            return Err(SigHookError::InvalidAddress);
        }
        let ghost pre = self@;
        match self.find_slot_index(address) {
            Some(i) => {
                let t = if execute_original && self.slots[i].trampoline_pc == 0 {
                    trampoline_pc
                } else {
                    self.slots[i].trampoline_pc
                };
                self.slots[i].callback = callback;
                self.slots[i].execute_original = execute_original;
                self.slots[i].trampoline_pc = t;
                let ghost post = pre.registered(
                    address,
                    original_bytes@,
                    step_len,
                    original_opcode,
                    callback,
                    execute_original,
                    trampoline_pc,
                );
                assert(self@.slots =~= post.slots);
                assert(self@ == post);
                assert forall|k: int| 0 <= k < self@.slots.len() implies (
                #[trigger] self@.slots[k]).wf() by {
                    if k != i {
                        assert(self@.slots[k] == pre.slots[k]);
                    }
                }
                assert forall|k: int, j: int|
                    0 <= k < self@.slots.len() && 0 <= j < self@.slots.len() && k != j implies (
                #[trigger] self@.slots[k]).address != (#[trigger] self@.slots[j]).address by {
                    assert(self@.slots[k].address == pre.slots[k].address);
                    assert(self@.slots[j].address == pre.slots[j].address);
                }
                Ok(())
            },
            None => {
                if self.slots.len() >= MAX_INSTRUMENTS {
                    return Err(SigHookError::InstrumentSlotsFull);
                }
                let slot = InstrumentSlot {
                    address,
                    original_bytes: copy_bytes(original_bytes),
                    step_len,
                    original_opcode,
                    callback,
                    execute_original,
                    trampoline_pc: if execute_original {
                        trampoline_pc
                    } else {
                        0
                    },
                    return_to_caller: false,
                };
                self.slots.push(slot);
                let ghost post = pre.registered(
                    address,
                    original_bytes@,
                    step_len,
                    original_opcode,
                    callback,
                    execute_original,
                    trampoline_pc,
                );
                assert(self@.slots =~= post.slots);
                assert(self@ == post);
                assert forall|k: int| 0 <= k < self@.slots.len() implies (
                #[trigger] self@.slots[k]).wf() by {
                    if k < pre.slots.len() {
                        assert(self@.slots[k] == pre.slots[k]);
                    }
                }
                assert forall|k: int, j: int|
                    0 <= k < self@.slots.len() && 0 <= j < self@.slots.len() && k != j implies (
                #[trigger] self@.slots[k]).address != (#[trigger] self@.slots[j]).address by {
                    if k < pre.slots.len() && j < pre.slots.len() {
                        assert(self@.slots[k] == pre.slots[k]);
                        assert(self@.slots[j] == pre.slots[j]);
                    } else if k < pre.slots.len() {
                        assert(self@.slots[k] == pre.slots[k]);
                        assert(pre.slots[k].address != address);
                    } else if j < pre.slots.len() {
                        assert(self@.slots[j] == pre.slots[j]);
                        assert(pre.slots[j].address != address);
                    }
                }
                Ok(())
            },
        }
    }

    /// The original opcode recorded in the slot for `address`.
    pub fn original_opcode_by_address(&self, address: u64) -> (r: Option<u32>)
        requires
            self.wf(),
        ensures
            r == (match self@.slot_of(address) {
                Some(s) => Some(s.original_opcode),
                None => None,
            }),
    {
        match self.find_slot_index(address) {
            Some(i) => Some(self.slots[i].original_opcode),
            None => None,
        }
    }

    /// Index of the cache entry for `address`.
    fn find_original_opcode_slot_index(&self, address: u64) -> (r: Option<usize>)
        requires
            self.wf(),
        ensures
            r is None <==> !self@.has_cached(address),
            r matches Some(i) ==> i == self@.cached_index(address) && i < self@.opcodes.len(),
    {
        let mut index: usize = 0;
        while index < self.opcodes.len()
            invariant
                index <= self.opcodes@.len(),
                self@.wf(),
                forall|k: int| 0 <= k < index ==> #[trigger] self@.opcodes[k].address != address,
            decreases self.opcodes@.len() - index,
        {
            if self.opcodes[index].address == address {
                assert(self@.opcodes[index as int].address == address);
                assert(self@.has_cached(address));
                let ghost c = self@.cached_index(address);
                assert(c == index);
                return Some(index);
            }
            index = index + 1;
        }
        None
    }

    /// Records `opcode` as the original first four bytes at `address`. On a full
    /// cache with no entry for the address, entries are replaced round-robin.
    pub fn cache_original_opcode(&mut self, address: u64, opcode: u32)
        requires
            old(self).wf(),
        ensures
            final(self).wf(),
            final(self)@ == old(self)@.cached(address, opcode),
    {
        let ghost pre = self@;
        let entry = OriginalOpcodeSlot { address, opcode };
        match self.find_original_opcode_slot_index(address) {
            Some(i) => {
                self.opcodes.set(i, entry);
                assert(self@.opcodes =~= pre.cached(address, opcode).opcodes);
                assert forall|k: int, j: int|
                    0 <= k < self@.opcodes.len() && 0 <= j < self@.opcodes.len() && k != j
                    implies (#[trigger] self@.opcodes[k]).address != (
                #[trigger] self@.opcodes[j]).address by {
                    assert(self@.opcodes[k].address == pre.opcodes[k].address);
                    assert(self@.opcodes[j].address == pre.opcodes[j].address);
                }
            },
            None => {
                if self.opcodes.len() < MAX_INSTRUMENTS {
                    self.opcodes.push(entry);
                    assert(self@.opcodes =~= pre.cached(address, opcode).opcodes);
                } else {
                    let at = self.replace_index;
                    self.opcodes.set(at, entry);
                    self.replace_index = (at + 1) % MAX_INSTRUMENTS;
                    assert(self@.opcodes =~= pre.cached(address, opcode).opcodes);
                }
                assert forall|k: int, j: int|
                    0 <= k < self@.opcodes.len() && 0 <= j < self@.opcodes.len() && k != j
                    implies (#[trigger] self@.opcodes[k]).address != (
                #[trigger] self@.opcodes[j]).address by {
                    if k < pre.opcodes.len() && self@.opcodes[k] == pre.opcodes[k] && j
                        < pre.opcodes.len() && self@.opcodes[j] == pre.opcodes[j] {
                    } else if k < pre.opcodes.len() && self@.opcodes[k] == pre.opcodes[k] {
                        assert(pre.opcodes[k].address != address);
                    } else if j < pre.opcodes.len() && self@.opcodes[j] == pre.opcodes[j] {
                        assert(pre.opcodes[j].address != address);
                    }
                }
            },
        }
        assert(self@ == pre.cached(address, opcode));
    }

    /// The opcode cached for `address`.
    pub fn cached_original_opcode_by_address(&self, address: u64) -> (r: Option<u32>)
        requires
            self.wf(),
        ensures
            r == self@.cached_of(address),
    {
        match self.find_original_opcode_slot_index(address) {
            Some(i) => Some(self.opcodes[i].opcode),
            None => None,
        }
    }

    /// The original bytes recorded for `address`.
    pub fn original_bytes_by_address(&self, address: u64) -> (r: Option<Vec<u8>>)
        requires
            self.wf(),
        ensures
            r is None <==> self@.slot_of(address) is None,
            r matches Some(b) ==> b@ == self@.slot_of(address).unwrap().original,
    {
        match self.find_slot_index(address) {
            Some(i) => Some(copy_bytes(self.slots[i].original_bytes.as_slice())),
            None => None,
        }
    }
}

} // verus!
