//! The heap: a table of managed objects under random 64-bit handles, and the
//! table that interns string-table references.

use crate::machine::Fault;
use crate::program::Module;
use crate::program::StringTablePath;
use crate::value::object::Object;
use crate::value::Value;
use crate::value::ValueType;
use rand::rngs::ThreadRng;
use rand::Rng;
use std::collections::HashMap;
use vstd::prelude::*;

verus! {

/// The generator of `rand` that is local to the thread.
#[verifier::external_type_specification]
#[verifier::external_body]
pub struct ExThreadRng(ThreadRng);

/// `rand::thread_rng` gives a handle on the thread's generator. Nothing is
/// claimed of it.
pub assume_specification[ rand::thread_rng ]() -> (generator: ThreadRng)
;

/// The next number of the generator.
///
/// Calls `Rng::gen::<u64>`. The number is random: nothing is claimed of it.
#[verifier::external_body]
fn random_handle(generator: &mut ThreadRng) -> (handle: u64) {
    generator.gen::<u64>()
}

/// What a handle of the heap refers to.
#[derive(Debug)]
pub enum MemoryObject {
    Null,
    /// A string of a module's string table: the table's path and the index.
    StringTableRef(StringTablePath, u64),
    String(String),
    Object(Object),
    List(Vec<Value>),
    /// A raw buffer: its bytes, the number of its elements and their type.
    Pointer(Vec<u8>, usize, ValueType),
}

/// An interned string-table reference: the handle that stands for the
/// string at `index` of the table at `path`.
#[derive(Debug)]
pub struct InternedString {
    pub path: StringTablePath,
    pub index: u64,
    pub handle: u64,
}

/// The index of the first of `entries` for the given table and index; their
/// number where there is none.
pub open spec fn interned_index(
    entries: Seq<InternedString>,
    path: Seq<Seq<char>>,
    index: u64,
    from: int,
) -> int
    decreases entries.len() - from,
{
    if from < 0 || from >= entries.len() {
        entries.len() as int
    } else if entries[from].path@ == path && entries[from].index == index {
        from
    } else {
        interned_index(entries, path, index, from + 1)
    }
}

/// The index found lies at or after `from`, names an entry for the given
/// table and index, and no entry before it is one.
pub proof fn lemma_interned_index(
    entries: Seq<InternedString>,
    path: Seq<Seq<char>>,
    index: u64,
    from: int,
)
    requires
        0 <= from <= entries.len(),
    ensures
        from <= interned_index(entries, path, index, from) <= entries.len(),
        interned_index(entries, path, index, from) < entries.len() ==> {
            let at = interned_index(entries, path, index, from);
            entries[at].path@ == path && entries[at].index == index
        },
        forall|i: int|
            from <= i < interned_index(entries, path, index, from) ==> {
                let entry = #[trigger] entries[i];
                entry.path@ != path || entry.index != index
            },
        forall|i: int|
            from <= i < entries.len() && (#[trigger] entries[i]).path@ == path && entries[i].index
                == index ==> interned_index(entries, path, index, from) <= i,
    decreases entries.len() - from,
{
    if from < entries.len() && !(entries[from].path@ == path && entries[from].index == index) {
        lemma_interned_index(entries, path, index, from + 1);
    }
}

/// After an entry was recorded for a string, in the place of the first entry
/// for that string or else at the end, the first entry for the string is the
/// recorded one.
proof fn lemma_recorded(
    before: Seq<InternedString>,
    after: Seq<InternedString>,
    entry: InternedString,
    path: Seq<Seq<char>>,
    index: u64,
)
    requires
        entry.path@ == path,
        entry.index == index,
        after == if interned_index(before, path, index, 0) < before.len() {
            before.update(interned_index(before, path, index, 0), entry)
        } else {
            before.push(entry)
        },
    ensures
        interned_index(after, path, index, 0) == interned_index(before, path, index, 0),
        interned_index(after, path, index, 0) < after.len(),
        after[interned_index(after, path, index, 0)] == entry,
{
    let at = interned_index(before, path, index, 0);
    lemma_interned_index(before, path, index, 0);
    lemma_interned_index(after, path, index, 0);
    assert(after[at] == entry);
    let found = interned_index(after, path, index, 0);
    if found < at {
        assert(after[found] == before[found]);
    }
}

/// Recording an entry for one string leaves the first entry for any other
/// string what it was.
proof fn lemma_recorded_leaves(
    before: Seq<InternedString>,
    after: Seq<InternedString>,
    entry: InternedString,
    other: Seq<Seq<char>>,
    index: u64,
)
    requires
        entry.path@ != other || entry.index != index,
        after == if interned_index(before, entry.path@, entry.index, 0) < before.len() {
            before.update(interned_index(before, entry.path@, entry.index, 0), entry)
        } else {
            before.push(entry)
        },
    ensures
        interned_index(before, other, index, 0) < before.len() ==> interned_index(
            after,
            other,
            index,
            0,
        ) == interned_index(before, other, index, 0) && after[interned_index(
            before,
            other,
            index,
            0,
        )] == before[interned_index(before, other, index, 0)],
        interned_index(before, other, index, 0) >= before.len() ==> interned_index(
            after,
            other,
            index,
            0,
        ) >= after.len(),
{
    let at = interned_index(before, entry.path@, entry.index, 0);
    lemma_interned_index(before, entry.path@, entry.index, 0);
    lemma_interned_index(before, other, index, 0);
    lemma_interned_index(after, other, index, 0);
    let first = interned_index(before, other, index, 0);
    let found = interned_index(after, other, index, 0);
    if first < before.len() {
        assert(first != at);
        assert(after[first] == before[first]);
        if found < first {
            if found != at {
                assert(after[found] == before[found]);
            }
        }
    } else {
        if found < after.len() {
            if found < before.len() && found != at {
                assert(after[found] == before[found]);
            }
        }
    }
}

/// Whether a value refers to the object under `handle`.
pub open spec fn refers_to(value: Value, handle: u64) -> bool {
    ||| value == Value::MemoryRef(handle)
    ||| value == Value::ArrayRef(handle)
    ||| value == Value::ObjectRef(handle)
    ||| value == Value::StringRef(handle)
}

/// Whether the object under `from` is a list with an element that refers
/// to the object under `to`.
pub open spec fn links(objects: Map<u64, MemoryObject>, from: u64, to: u64) -> bool {
    &&& objects.contains_key(from)
    &&& objects[from] matches MemoryObject::List(list)
    &&& exists|i: int| 0 <= i < list@.len() && refers_to(#[trigger] list@[i], to)
}

/// Whether each handle of the chain is that of a list with an element that
/// refers to the next.
pub open spec fn is_chain(objects: Map<u64, MemoryObject>, chain: Seq<u64>) -> bool {
    &&& chain.len() >= 1
    &&& forall|i: int|
        0 <= i < chain.len() - 1 ==> #[trigger] links(objects, chain[i], chain[i + 1])
}

/// Whether `to` is reached from `from` through the elements of lists: it
/// is `from` itself, or an element of a list under `from` refers to it, or an
/// element of a list that such an element refers to, and so on.
pub open spec fn reaches(objects: Map<u64, MemoryObject>, from: u64, to: u64) -> bool {
    exists|chain: Seq<u64>|
        #[trigger] is_chain(objects, chain) && chain[0] == from && chain.last() == to
}

/// What a deallocation made of the objects of a heap: the objects that were
/// reached from `reference` are gone, and the others are there as they were.
pub open spec fn freed(
    before: Map<u64, MemoryObject>,
    after: Map<u64, MemoryObject>,
    reference: u64,
) -> bool {
    &&& after.submap_of(before)
    &&& forall|handle: u64| #[trigger]
        before.contains_key(handle) ==> (after.contains_key(handle) <==> !reaches(
            before,
            reference,
            handle,
        ))
}

/// What a part of the objects holds under a handle, the whole holds under it.
pub proof fn lemma_held_in_both(
    part: Map<u64, MemoryObject>,
    whole: Map<u64, MemoryObject>,
    handle: u64,
)
    requires
        part.submap_of(whole),
        part.contains_key(handle),
    ensures
        whole.contains_key(handle),
        whole[handle] == part[handle],
{
    assert(part.dom().contains(handle));
    assert(whole.dom().contains(handle) || !whole.dom().contains(handle));
}

/// A handle reaches itself.
pub proof fn lemma_reaches_itself(objects: Map<u64, MemoryObject>, handle: u64)
    ensures
        reaches(objects, handle, handle),
{
    let chain = seq![handle];
    assert(is_chain(objects, chain));
    assert(chain[0] == handle && chain.last() == handle);
}

/// What is linked to something reached is reached.
pub proof fn lemma_reaches_one_more(
    objects: Map<u64, MemoryObject>,
    from: u64,
    via: u64,
    to: u64,
)
    requires
        reaches(objects, from, via),
        links(objects, via, to),
    ensures
        reaches(objects, from, to),
{
    let chain = choose|chain: Seq<u64>|
        #[trigger] is_chain(objects, chain) && chain[0] == from && chain.last() == via;
    let longer = chain.push(to);
    assert forall|i: int| 0 <= i < longer.len() - 1 implies #[trigger] links(
        objects,
        longer[i],
        longer[i + 1],
    ) by {
        if i < chain.len() - 1 {
            assert(links(objects, chain[i], chain[i + 1]));
        }
    }
    assert(is_chain(objects, longer));
    assert(longer[0] == from && longer.last() == to);
}

/// Where the handle that a chain starts with is gone, and with every
/// handle that is gone all that it links to, every handle of the chain is
/// gone.
pub proof fn lemma_reached_is_freed(
    before: Map<u64, MemoryObject>,
    after: Map<u64, MemoryObject>,
    reference: u64,
    chain: Seq<u64>,
    at: int,
)
    requires
        is_chain(before, chain),
        chain[0] == reference,
        0 <= at < chain.len(),
        !after.contains_key(reference),
        forall|from: u64, to: u64|
            before.contains_key(from) && !after.contains_key(from) && #[trigger] links(
                before,
                from,
                to,
            ) ==> !after.contains_key(to),
    ensures
        !after.contains_key(chain[at]),
    decreases at,
{
    if at > 0 {
        lemma_reached_is_freed(before, after, reference, chain, at - 1);
        let from = at - 1;
        assert(chain[from + 1] == chain[at]);
        assert(links(before, chain[from], chain[from + 1]));
    }
}

/// What the allocation of a string-table reference came to.
///
/// Either the heap holds one more object, under a handle that is not zero
/// and was free: a string-table reference to the string at `index` of the
/// table at `path`; that handle now stands for the string, and every other
/// string is interned as it was. Or the allocation failed with a memory
/// error, and nothing has changed.
pub open spec fn string_ref_allocated(
    before: &Memory,
    after: &Memory,
    path: Seq<Seq<char>>,
    index: u64,
    result: Result<Value, Fault>,
) -> bool {
    match result {
        Ok(value) => {
            &&& value matches Value::MemoryRef(handle)
            &&& handle != 0
            &&& !before.objects().contains_key(handle)
            &&& after.objects().dom() == before.objects().dom().insert(handle)
            &&& forall|other: u64|
                before.objects().contains_key(other) ==> after.objects()[other]
                    == before.objects()[other]
            &&& after.objects()[handle] matches MemoryObject::StringTableRef(table, at)
            &&& table@ == path
            &&& at == index
            &&& after.interned(path, index) == Some(handle)
            &&& forall|other: Seq<Seq<char>>, at: u64|
                other != path || at != index ==> after.interned(other, at) == before.interned(
                    other,
                    at,
                )
        },
        Err(fault) => {
            &&& fault is MemoryError
            &&& after.objects() == before.objects()
            &&& after.string_lookup_table == before.string_lookup_table
        },
    }
}

/// Whether two heaps hold the same objects and the same interned strings.
pub open spec fn same_heap(before: &Memory, after: &Memory) -> bool {
    &&& after.objects() == before.objects()
    &&& after.string_lookup_table == before.string_lookup_table
}

/// Whether the string at `index` of the table at `path` is interned and its
/// handle, which is not the null handle, refers to a string-table reference
/// to that very string.
pub open spec fn string_is_interned(memory: &Memory, path: Seq<Seq<char>>, index: u64) -> bool {
    &&& memory.interned(path, index) matches Some(handle)
    &&& handle != 0
    &&& memory.objects().contains_key(handle)
    &&& memory.objects()[handle] matches MemoryObject::StringTableRef(table, at)
    &&& table@ == path
    &&& at == index
}

/// The allocation of a string-table reference leaves interned what was
/// interned, and where it succeeds, its string is interned.
pub proof fn lemma_allocation_keeps_interned(
    before: &Memory,
    after: &Memory,
    path: Seq<Seq<char>>,
    index: u64,
    result: Result<Value, Fault>,
    other: Seq<Seq<char>>,
    at: u64,
)
    requires
        string_ref_allocated(before, after, path, index, result),
    ensures
        string_is_interned(before, other, at) ==> string_is_interned(after, other, at),
        result is Ok ==> string_is_interned(after, path, index),
{
}

/// Once a string-table reference is allocated for a string, looking the
/// string up gives the handle that the allocation gave, and reading the
/// string under that handle gives the entry of the module's string table:
/// its text where the module holds it, and an invalid reference where it
/// does not.
pub proof fn lemma_interned_string_is_found(
    before: &Memory,
    after: &Memory,
    path: Seq<Seq<char>>,
    index: u64,
    value: Value,
    module: &Module,
)
    requires
        string_ref_allocated(before, after, path, index, Ok(value)),
    ensures
        after.string_ref(path, index) == Ok::<Value, Fault>(value),
        value matches Value::MemoryRef(handle) && after.string_text(handle, module) == (
        match module.string_at(path, index) {
            Some(text) => Ok::<Seq<char>, Fault>(text),
            None => Err::<Seq<char>, Fault>(Fault::InvalidReference),
        }),
{
}

/// How often `allocate` draws a handle before it gives up.
pub const ALLOCATION_ATTEMPTS: usize = 64;

/// The heap.
#[derive(Debug)]
pub struct Memory {
    /// The objects, by handle. The handle zero refers to nothing.
    pub reference_table: HashMap<u64, MemoryObject>,
    /// The interned string-table references. Where two entries stand for the
    /// same string, the first one counts.
    pub string_lookup_table: Vec<InternedString>,
    /// The generator that handles are drawn from.
    pub generator: ThreadRng,
}

impl Memory {
    /// The objects of the heap, by handle.
    pub open spec fn objects(&self) -> Map<u64, MemoryObject> {
        self.reference_table@
    }

    /// The handle that stands for the string at `index` of the table at
    /// `path`, where that string is interned.
    pub open spec fn interned(&self, path: Seq<Seq<char>>, index: u64) -> Option<u64> {
        let at = interned_index(self.string_lookup_table@, path, index, 0);
        if at < self.string_lookup_table@.len() {
            Some(self.string_lookup_table@[at].handle)
        } else {
            None
        }
    }

    /// What looking up the handle of the string at `index` of the table at
    /// `path` gives: the handle as a `MemoryRef`, where the string is interned.
    pub open spec fn string_ref(&self, path: Seq<Seq<char>>, index: u64) -> Result<Value, Fault> {
        match self.interned(path, index) {
            Some(handle) => Ok(Value::MemoryRef(handle)),
            None => Err(Fault::InvalidReference),
        }
    }

    /// What reading `reference` gives.
    pub open spec fn read(&self, reference: u64) -> Result<MemoryObject, Fault> {
        if reference == 0 {
            Err(Fault::NullPointerReference)
        } else if self.objects().contains_key(reference) {
            Ok(self.objects()[reference])
        } else {
            Err(Fault::InvalidReference)
        }
    }

    /// An empty heap.
    ///
    /// The heap draws its handles from the generator of `rand` that is local
    /// to the thread. That generator is seeded by the system when a thread
    /// first uses it, and panics where the system gives it no entropy; no
    /// argument of this function decides that.
    pub fn new() -> (memory: Memory)
        ensures
            memory.objects() == Map::<u64, MemoryObject>::empty(),
            memory.string_lookup_table@.len() == 0,
    {
        Memory {
            reference_table: HashMap::new(),
            string_lookup_table: Vec::new(),
            generator: rand::thread_rng(),
        }
    }

    /// The object that `reference` refers to.
    ///
    /// The handle zero refers to nothing and faults with
    /// `NullPointerReference`, a handle that the heap does not hold with
    /// `InvalidReference`.
    pub fn get(&self, reference: u64) -> (result: Result<&MemoryObject, Fault>)
        ensures
            match result {
                Ok(object) => self.read(reference) == Ok::<MemoryObject, Fault>(*object),
                Err(fault) => self.read(reference) == Err::<MemoryObject, Fault>(fault),
            },
    {
        broadcast use vstd::std_specs::hash::group_hash_axioms;

        if reference == 0 {
            return Err(Fault::NullPointerReference);
        }
        match self.reference_table.get(&reference) {
            Some(object) => Ok(object),
            None => Err(Fault::InvalidReference),
        }
    }

    /// Puts `object` under `handle`, where the handle is not zero and free;
    /// gives the object back where it is not.
    pub fn allocate_at(&mut self, handle: u64, object: MemoryObject) -> (result: Result<
        u64,
        MemoryObject,
    >)
        ensures
            final(self).string_lookup_table == old(self).string_lookup_table,
            handle != 0 && !old(self).objects().contains_key(handle) ==> result == Ok::<
                u64,
                MemoryObject,
            >(handle) && final(self).objects() == old(self).objects().insert(handle, object),
            handle == 0 || old(self).objects().contains_key(handle) ==> result == Err::<
                u64,
                MemoryObject,
            >(object) && final(self).objects() == old(self).objects(),
    {
        broadcast use vstd::std_specs::hash::group_hash_axioms;

        if handle == 0 || self.reference_table.contains_key(&handle) {
            Err(object)
        } else {
            self.reference_table.insert(handle, object);
            Ok(handle)
        }
    }

    /// Puts `object` under a fresh random handle and gives the handle.
    ///
    /// A drawn handle that is zero or taken is rejected and another one drawn,
    /// up to `ALLOCATION_ATTEMPTS` times; then the allocation fails with
    /// `MemoryError` and the heap is as it was.
    ///
    /// A draw panics where the generator has to reseed itself and the system
    /// gives it no entropy, as a program stops where memory runs out; no
    /// argument of this function decides that.
    pub fn allocate(&mut self, object: MemoryObject) -> (result: Result<u64, Fault>)
        ensures
            final(self).string_lookup_table == old(self).string_lookup_table,
            match result {
                Ok(handle) => {
                    &&& handle != 0
                    &&& !old(self).objects().contains_key(handle)
                    &&& final(self).objects() == old(self).objects().insert(handle, object)
                },
                Err(fault) => fault is MemoryError && final(self).objects() == old(self).objects(),
            },
    {
        let mut pending = object;
        let mut attempt: usize = 0;
        while attempt < ALLOCATION_ATTEMPTS
            invariant
                self.string_lookup_table == old(self).string_lookup_table,
                self.objects() == old(self).objects(),
                pending == object,
            decreases ALLOCATION_ATTEMPTS - attempt,
        {
            let candidate = random_handle(&mut self.generator);
            match self.allocate_at(candidate, pending) {
                Ok(handle) => {
                    return Ok(handle);
                },
                Err(returned) => {
                    pending = returned;
                },
            }
            attempt += 1;
        }
        Err(Fault::MemoryError(String::from_str("no free handle was drawn")))
    }

    /// A raw buffer for `size` elements of type `value_type`, zeroed, under a
    /// fresh handle.
    ///
    /// A buffer whose size in bytes `usize` does not hold is refused with
    /// `MemoryError`, before any handle is drawn.
    pub fn allocate_pointer(&mut self, size: usize, value_type: ValueType) -> (result: Result<
        Value,
        Fault,
    >)
        ensures
            final(self).string_lookup_table == old(self).string_lookup_table,
            size * value_type.size() > usize::MAX ==> result is Err,
            match result {
                Ok(value) => {
                    &&& value matches Value::MemoryRef(handle)
                    &&& handle != 0
                    &&& !old(self).objects().contains_key(handle)
                    &&& final(self).objects().dom() == old(self).objects().dom().insert(handle)
                    &&& forall|other: u64|
                        old(self).objects().contains_key(other) ==> final(self).objects()[other]
                            == old(self).objects()[other]
                    &&& final(self).objects()[handle] matches MemoryObject::Pointer(
                        buffer,
                        elements,
                        typ,
                    )
                    &&& elements == size
                    &&& typ == value_type
                    &&& buffer@ == Seq::new((size * value_type.size()) as nat, |i: int| 0u8)
                },
                Err(fault) => fault is MemoryError && final(self).objects() == old(self).objects(),
            },
    {
        let width = value_type.get_size();
        let bytes = match size.checked_mul(width) {
            Some(bytes) => bytes,
            None => {
                return Err(
                    Fault::MemoryError(String::from_str("the buffer is too large to allocate")),
                );
            },
        };
        let buffer: Vec<u8> = vec![0u8; bytes];
        assert(buffer@ =~= Seq::new((size * value_type.size()) as nat, |i: int| 0u8));
        let index = self.allocate(MemoryObject::Pointer(buffer, size, value_type))?;
        Ok(Value::MemoryRef(index))
    }

    /// A list of `length` elements, each the zero of type `size`, under a
    /// fresh handle.
    pub fn allocate_list(&mut self, length: usize, size: ValueType) -> (result: Result<Value, Fault>)
        ensures
            final(self).string_lookup_table == old(self).string_lookup_table,
            match result {
                Ok(value) => {
                    &&& value matches Value::MemoryRef(handle)
                    &&& handle != 0
                    &&& !old(self).objects().contains_key(handle)
                    &&& final(self).objects().dom() == old(self).objects().dom().insert(handle)
                    &&& forall|other: u64|
                        old(self).objects().contains_key(other) ==> final(self).objects()[other]
                            == old(self).objects()[other]
                    &&& final(self).objects()[handle] matches MemoryObject::List(list)
                    &&& list@ == Seq::new(length as nat, |i: int| Value::from_int(size, 0))
                },
                Err(fault) => fault is MemoryError && final(self).objects() == old(self).objects(),
            },
    {
        let mut list: Vec<Value> = Vec::new();
        let mut i: usize = 0;
        while i < length
            invariant
                i <= length,
                list@ == Seq::new(i as nat, |j: int| Value::from_int(size, 0)),
            decreases length - i,
        {
            list.push(Value::new(size));
            assert(list@ =~= Seq::new((i + 1) as nat, |j: int| Value::from_int(size, 0)));
            i += 1;
        }
        let index = self.allocate(MemoryObject::List(list))?;
        Ok(Value::MemoryRef(index))
    }

    /// What reading the element at `index` of the list under `reference` gives.
    pub open spec fn list_element(&self, reference: u64, index: u64) -> Result<Value, Fault> {
        match self.read(reference) {
            Ok(MemoryObject::List(list)) => if index < list@.len() {
                Ok(list@[index as int])
            } else {
                Err(Fault::IndexOutOfBounds)
            },
            Ok(MemoryObject::Null) => Err(Fault::NullPointerReference),
            Ok(_) => Err(Fault::InvalidReference),
            Err(fault) => Err(fault),
        }
    }

    /// What asking for the length of the list under `reference` gives.
    pub open spec fn list_length(&self, reference: u64) -> Result<Value, Fault> {
        match self.read(reference) {
            Ok(MemoryObject::List(list)) => Ok(Value::U64(list@.len() as u64)),
            Ok(MemoryObject::Null) => Err(Fault::NullPointerReference),
            Ok(_) => Err(Fault::InvalidReference),
            Err(fault) => Err(fault),
        }
    }

    /// The element at `index` of the list under `reference`.
    ///
    /// An index past the end faults with `IndexOutOfBounds`, a null object
    /// with `NullPointerReference`, any other object that is no list with
    /// `InvalidReference`.
    pub fn access_list(&self, reference: u64, index: u64) -> (result: Result<Value, Fault>)
        ensures
            result == self.list_element(reference, index),
    {
        match self.get(reference)? {
            MemoryObject::List(list) => {
                if index < list.len() as u64 {
                    Ok(list[index as usize])
                } else {
                    Err(Fault::IndexOutOfBounds)
                }
            },
            MemoryObject::Null => Err(Fault::NullPointerReference),
            _ => Err(Fault::InvalidReference),
        }
    }

    /// The length of the list under `reference`, as a `U64`.
    pub fn get_list_length(&self, reference: u64) -> (result: Result<Value, Fault>)
        ensures
            result == self.list_length(reference),
    {
        match self.get(reference)? {
            MemoryObject::List(list) => Ok(Value::U64(list.len() as u64)),
            MemoryObject::Null => Err(Fault::NullPointerReference),
            _ => Err(Fault::InvalidReference),
        }
    }

    /// Replaces the element at `index` of the list under `reference`.
    ///
    /// It faults as `access_list` does, and then changes nothing.
    pub fn store_list(&mut self, reference: u64, index: u64, value: Value) -> (result: Result<
        (),
        Fault,
    >)
        ensures
            final(self).string_lookup_table == old(self).string_lookup_table,
            match old(self).list_element(reference, index) {
                Ok(_) => {
                    &&& result is Ok
                    &&& final(self).objects().dom() == old(self).objects().dom()
                    &&& forall|other: u64|
                        other != reference && old(self).objects().contains_key(other)
                            ==> final(self).objects()[other] == old(self).objects()[other]
                    &&& final(self).objects()[reference] matches MemoryObject::List(list)
                    &&& old(self).objects()[reference] matches MemoryObject::List(before)
                    &&& list@ == before@.update(index as int, value)
                },
                Err(fault) => {
                    &&& result == Err::<(), Fault>(fault)
                    &&& final(self).objects() == old(self).objects()
                },
            },
    {
        broadcast use vstd::std_specs::hash::group_hash_axioms;

        if reference == 0 {
            return Err(Fault::NullPointerReference);
        }
        match self.reference_table.remove(&reference) {
            None => Err(Fault::InvalidReference),
            Some(MemoryObject::List(list)) => {
                if index < list.len() as u64 {
                    let mut list = list;
                    list.set(index as usize, value);
                    self.reference_table.insert(reference, MemoryObject::List(list));
                    assert(final(self).objects().dom() =~= old(self).objects().dom());
                    Ok(())
                } else {
                    self.reference_table.insert(reference, MemoryObject::List(list));
                    assert(self.objects() =~= old(self).objects());
                    Err(Fault::IndexOutOfBounds)
                }
            },
            Some(MemoryObject::Null) => {
                self.reference_table.insert(reference, MemoryObject::Null);
                assert(self.objects() =~= old(self).objects());
                Err(Fault::NullPointerReference)
            },
            Some(other) => {
                self.reference_table.insert(reference, other);
                assert(self.objects() =~= old(self).objects());
                Err(Fault::InvalidReference)
            },
        }
    }

    /// A string with the given text, under a fresh handle.
    pub fn allocate_string(&mut self, string: &str) -> (result: Result<Value, Fault>)
        ensures
            final(self).string_lookup_table == old(self).string_lookup_table,
            match result {
                Ok(value) => {
                    &&& value matches Value::MemoryRef(handle)
                    &&& handle != 0
                    &&& !old(self).objects().contains_key(handle)
                    &&& final(self).objects().dom() == old(self).objects().dom().insert(handle)
                    &&& forall|other: u64|
                        old(self).objects().contains_key(other) ==> final(self).objects()[other]
                            == old(self).objects()[other]
                    &&& final(self).objects()[handle] matches MemoryObject::String(text)
                    &&& text@ == string@
                },
                Err(fault) => fault is MemoryError && final(self).objects() == old(self).objects(),
            },
    {
        let index = self.allocate(MemoryObject::String(String::from_str(string)))?;
        Ok(Value::MemoryRef(index))
    }

    /// What reading the string under `reference` gives: the text of a string
    /// object, or the entry of `module`'s string table that a string-table
    /// reference names.
    pub open spec fn string_text(&self, reference: u64, module: &Module) -> Result<
        Seq<char>,
        Fault,
    > {
        match self.read(reference) {
            Ok(MemoryObject::String(text)) => Ok(text@),
            Ok(MemoryObject::StringTableRef(path, index)) => match module.string_at(path@, index) {
                Some(text) => Ok(text),
                None => Err(Fault::InvalidReference),
            },
            Ok(MemoryObject::Null) => Err(Fault::NullPointerReference),
            Ok(_) => Err(Fault::InvalidString),
            Err(fault) => Err(fault),
        }
    }

    /// The text of the string under `reference`.
    ///
    /// A string-table reference whose entry `module` does not hold faults with
    /// `InvalidReference`, a null object with `NullPointerReference`, any
    /// other object that is no string with `InvalidString`.
    pub fn get_string<'a>(&'a self, reference: u64, module: &'a Module) -> (result: Result<
        &'a str,
        Fault,
    >)
        ensures
            match result {
                Ok(text) => self.string_text(reference, module) == Ok::<Seq<char>, Fault>(text@),
                Err(fault) => self.string_text(reference, module) == Err::<Seq<char>, Fault>(
                    fault,
                ),
            },
    {
        match self.get(reference)? {
            MemoryObject::String(string) => Ok(string.as_str()),
            MemoryObject::StringTableRef(path, index) => {
                match module.get_string(path, *index) {
                    Some(text) => Ok(text),
                    None => Err(Fault::InvalidReference),
                }
            },
            MemoryObject::Null => Err(Fault::NullPointerReference),
            _ => Err(Fault::InvalidString),
        }
    }

    /// The index of the first interned entry for the given table and index.
    fn find_interned(&self, path: &StringTablePath, table_index: u64) -> (at: usize)
        ensures
            at == interned_index(self.string_lookup_table@, path@, table_index, 0),
            at <= self.string_lookup_table@.len(),
    {
        let mut i: usize = 0;
        while i < self.string_lookup_table.len()
            invariant
                i <= self.string_lookup_table@.len(),
                interned_index(self.string_lookup_table@, path@, table_index, 0) == interned_index(
                    self.string_lookup_table@,
                    path@,
                    table_index,
                    i as int,
                ),
            decreases self.string_lookup_table@.len() - i,
        {
            if self.string_lookup_table[i].index == table_index
                && self.string_lookup_table[i].path.same_as(path) {
                return i;
            }
            i += 1;
        }
        i
    }

    /// The handle that stands for the string at `table_index` of the table
    /// at `path`, as a `MemoryRef`; `InvalidReference` where that string is
    /// not interned.
    pub fn get_string_ref_from_path(&self, path: &StringTablePath, table_index: u64) -> (result:
        Result<Value, Fault>)
        ensures
            result == self.string_ref(path@, table_index),
    {
        let at = self.find_interned(path, table_index);
        if at < self.string_lookup_table.len() {
            Ok(Value::MemoryRef(self.string_lookup_table[at].handle))
        } else {
            Err(Fault::InvalidReference)
        }
    }

    /// A string-table reference to the string at `table_index` of the table
    /// at `path`, under a fresh handle, which from now on stands for that
    /// string: `get_string_ref_from_path` gives it.
    pub fn allocate_string_ref(&mut self, path: &StringTablePath, table_index: u64) -> (result:
        Result<Value, Fault>)
        ensures
            string_ref_allocated(old(self), final(self), path@, table_index, result),
    {
        let handle = self.allocate(MemoryObject::StringTableRef(path.clone(), table_index))?;
        let at = self.find_interned(path, table_index);
        let entry = InternedString { path: path.clone(), index: table_index, handle };
        let ghost before = self.string_lookup_table@;
        if at < self.string_lookup_table.len() {
            self.string_lookup_table.set(at, entry);
        } else {
            self.string_lookup_table.push(entry);
        }
        proof {
            let after = self.string_lookup_table@;
            lemma_recorded(before, after, entry, path@, table_index);
            assert forall|other: Seq<Seq<char>>, i: u64|
                other != path@ || i != table_index implies self.interned(other, i) == old(
                self,
            ).interned(other, i) by {
                lemma_recorded_leaves(before, after, entry, other, i);
            }
        }
        Ok(Value::MemoryRef(handle))
    }

    /// A string with the text of the string under `left` followed by that of
    /// the string under `right`, under a fresh handle.
    ///
    /// It faults as `get_string` does on either of the two.
    pub fn concatenate_strings(&mut self, left: u64, right: u64, module: &Module) -> (result:
        Result<Value, Fault>)
        ensures
            final(self).string_lookup_table == old(self).string_lookup_table,
            match (old(self).string_text(left, module), old(self).string_text(right, module)) {
                (Ok(first), Ok(second)) => match result {
                    Ok(value) => {
                        &&& value matches Value::MemoryRef(handle)
                        &&& handle != 0
                        &&& !old(self).objects().contains_key(handle)
                        &&& final(self).objects().dom() == old(self).objects().dom().insert(handle)
                        &&& forall|other: u64|
                            old(self).objects().contains_key(other) ==> final(self).objects()[other]
                                == old(self).objects()[other]
                        &&& final(self).objects()[handle] matches MemoryObject::String(text)
                        &&& text@ == first + second
                    },
                    Err(fault) => fault is MemoryError && final(self).objects() == old(self).objects(),
                },
                (Err(fault), _) => result == Err::<Value, Fault>(fault) && final(self).objects()
                    == old(self).objects(),
                (Ok(_), Err(fault)) => {
                    &&& result == Err::<Value, Fault>(fault)
                    &&& final(self).objects() == old(self).objects()
                },
            },
    {
        let mut text = String::from_str(self.get_string(left, module)?);
        text.append(self.get_string(right, module)?);
        self.allocate_string(text.as_str())
    }

    /// Frees the object under `reference`, every object that it refers to
    /// where it is a list, and so on: every object that is reached from
    /// `reference` through the elements of lists. A handle that the heap does
    /// not hold, the null handle among them, frees nothing. Lists that refer
    /// to each other in a circle are freed like any others.
    pub fn deallocate(&mut self, reference: u64) -> (result: Result<(), Fault>)
        ensures
            result is Ok,
            final(self).string_lookup_table == old(self).string_lookup_table,
            freed(old(self).objects(), final(self).objects(), reference),
    {
        Memory::deallocate_helper(&mut self.reference_table, reference)
    }

    /// Frees, in the given table, every object that is reached from
    /// `reference` through the elements of lists.
    pub fn deallocate_helper(
        reference_table: &mut HashMap<u64, MemoryObject>,
        reference: u64,
    ) -> (result: Result<(), Fault>)
        ensures
            result is Ok,
            freed(old(reference_table)@, final(reference_table)@, reference),
    {
        broadcast use vstd::std_specs::hash::group_hash_axioms;

        let ghost held = reference_table@;
        let mut pending: Vec<u64> = Vec::new();
        pending.push(reference);
        proof {
            assert(pending@[0] == reference);
            lemma_reaches_itself(held, reference);
        }
        while pending.len() > 0
            invariant
                held == old(reference_table)@,
                reference_table@.submap_of(held),
                reference_table@.dom().finite(),
                forall|handle: u64|
                    held.contains_key(handle) && !reference_table@.contains_key(handle)
                        ==> reaches(held, reference, handle),
                forall|k: int| 0 <= k < pending@.len() ==> reaches(held, reference, #[trigger] pending@[k]),
                forall|from: u64, to: u64|
                    held.contains_key(from) && !reference_table@.contains_key(from) && #[trigger] links(
                        held,
                        from,
                        to,
                    ) ==> !reference_table@.contains_key(to) || pending@.contains(to),
                !reference_table@.contains_key(reference) || pending@.contains(reference),
            decreases reference_table@.dom().len(), pending@.len(),
        {
            let ghost waiting = pending@;
            let ghost table = reference_table@;
            let next = pending[pending.len() - 1];
            pending.pop();
            proof {
                assert(pending@ =~= waiting.drop_last());
                assert(forall|other: u64|
                    waiting.contains(other) ==> other == next || pending@.contains(other)) by {
                    assert forall|other: u64| waiting.contains(other) implies other == next
                        || pending@.contains(other) by {
                        let k = choose|k: int| 0 <= k < waiting.len() && waiting[k] == other;
                        if k < pending@.len() {
                            assert(pending@[k] == other);
                        }
                    }
                }
                assert(reaches(held, reference, waiting[waiting.len() - 1]));
            }
            let removed = reference_table.remove(&next);
            proof {
                if removed is Some {
                    assert(table.contains_key(next));
                    assert(table[next] == removed->Some_0);
                    lemma_held_in_both(table, held, next);
                    assert(reference_table@ == table.remove(next));
                } else {
                    assert(!table.contains_key(next));
                }
            }
            match removed {
                Some(MemoryObject::List(list)) => {
                    assert(reference_table@.dom().len() < table.dom().len());
                    assert(held[next] == MemoryObject::List(list));
                    let ghost emptied = pending@;
                    let mut i: usize = 0;
                    while i < list.len()
                        invariant
                            i <= list@.len(),
                            held.contains_key(next),
                            held[next] == MemoryObject::List(list),
                            reaches(held, reference, next),
                            forall|other: u64| emptied.contains(other) ==> pending@.contains(other),
                            forall|k: int|
                                0 <= k < pending@.len() ==> reaches(
                                    held,
                                    reference,
                                    #[trigger] pending@[k],
                                ),
                            forall|j: int, to: u64|
                                0 <= j < i && #[trigger] refers_to(list@[j], to)
                                    ==> pending@.contains(to),
                        decreases list@.len() - i,
                    {
                        let ghost so_far = pending@;
                        match list[i] {
                            Value::MemoryRef(handle)
                            | Value::ArrayRef(handle)
                            | Value::ObjectRef(handle)
                            | Value::StringRef(handle) => {
                                pending.push(handle);
                                proof {
                                    let linked = held[next]->List_0;
                                    assert(linked == list);
                                    assert(0 <= i < linked@.len() && refers_to(
                                        linked@[i as int],
                                        handle,
                                    ));
                                    assert(links(held, next, handle));
                                    lemma_reaches_one_more(held, reference, next, handle);
                                    assert(pending@[so_far.len() as int] == handle);
                                    assert forall|other: u64| so_far.contains(other) implies pending@.contains(
                                        other,
                                    ) by {
                                        let k = choose|k: int|
                                            0 <= k < so_far.len() && so_far[k] == other;
                                        assert(pending@[k] == other);
                                    }
                                }
                            },
                            _ => {},
                        }
                        i += 1;
                    }
                    proof {
                        assert forall|from: u64, to: u64|
                            held.contains_key(from) && !reference_table@.contains_key(from)
                                && #[trigger] links(
                                held,
                                from,
                                to,
                            ) implies !reference_table@.contains_key(to) || pending@.contains(to) by {
                            if from == next {
                                let j = choose|j: int|
                                    0 <= j < list@.len() && refers_to(#[trigger] list@[j], to);
                                assert(pending@.contains(to));
                            } else {
                                assert(!table.contains_key(from));
                                if table.contains_key(to) && to != next {
                                    assert(waiting.contains(to));
                                    assert(emptied.contains(to));
                                }
                            }
                        }
                    }
                },
                Some(other) => {
                    proof {
                        assert(reference_table@.dom().len() < table.dom().len());
                        assert(held[next] == other);
                        assert forall|from: u64, to: u64|
                            held.contains_key(from) && !reference_table@.contains_key(from)
                                && #[trigger] links(
                                held,
                                from,
                                to,
                            ) implies !reference_table@.contains_key(to) || pending@.contains(to) by {
                            if from != next {
                                assert(!table.contains_key(from));
                                if table.contains_key(to) && to != next {
                                    assert(waiting.contains(to));
                                }
                            }
                        }
                    }
                },
                None => {
                    proof {
                        assert(reference_table@ =~= table);
                        assert forall|from: u64, to: u64|
                            held.contains_key(from) && !reference_table@.contains_key(from)
                                && #[trigger] links(
                                held,
                                from,
                                to,
                            ) implies !reference_table@.contains_key(to) || pending@.contains(to) by {
                            if table.contains_key(to) {
                                assert(waiting.contains(to));
                            }
                        }
                    }
                },
            }
        }
        proof {
            assert forall|handle: u64| held.contains_key(handle) implies (
            reference_table@.contains_key(handle) <==> !reaches(held, reference, handle)) by {
                if reaches(held, reference, handle) {
                    let chain = choose|chain: Seq<u64>|
                        is_chain(held, chain) && chain[0] == reference && chain.last() == handle;
                    lemma_reached_is_freed(
                        held,
                        reference_table@,
                        reference,
                        chain,
                        chain.len() - 1,
                    );
                }
            }
        }
        Ok(())
    }
}

} // verus!
