//! Variables that all instances of a WebAssembly plugin share.
//!
//! A variable is a number or a blob of bytes. It is found by its name once and
//! used by its number from then on.

use crate::guest_memory::{le4, le8, patched, read_bytes, read_text, within, write_bytes, write_u32, write_u64};
use vstd::prelude::*;
use vstd::utf8::{decode_utf8, valid_utf8};

verus! {

/// A variable by its kind and number.
#[derive(Debug, Clone, Copy, PartialEq, Eq, Structural)]
pub enum VarId {
    U64(u32),
    I64(u32),
    Blob(u32),
}

/// Bytes, and how often they were written.
#[derive(Debug)]
pub struct Blob {
    pub data: Vec<u8>,
    pub version: u64,
}

/// What a map of names holds: for a name, the kind and the number of its variable.
pub uninterp spec fn name_contents(map: papaya::HashMap<String, (u32, u32)>) -> Map<Seq<char>, (u32, u32)>;

/// The names of a plugin that has none yet.
pub open spec fn no_names() -> Map<Seq<char>, (u32, u32)> {
    Map::empty()
}

/// `papaya::HashMap::new`: an empty map.
#[verifier::external_body]
fn name_map_new() -> (map: papaya::HashMap<String, (u32, u32)>)
    ensures
        name_contents(map) == no_names(),
{
    papaya::HashMap::new()
}

/// `papaya::HashMap::get`, through a pinned reference: the value under a key, if there is one.
#[verifier::external_body]
fn name_map_get(map: &papaya::HashMap<String, (u32, u32)>, name: &str) -> (found: Option<(u32, u32)>)
    ensures
        found == (if name_contents(*map).contains_key(name@) {
            Some(name_contents(*map)[name@])
        } else {
            None::<(u32, u32)>
        }),
{
    map.pin().get(name).copied()
}

/// `papaya::HashMap::insert`, through a pinned reference: puts a value under a
/// key, in place of the one that was there. The map is borrowed mutably, so no
/// other thread reaches it meanwhile.
#[verifier::external_body]
fn name_map_insert(map: &mut papaya::HashMap<String, (u32, u32)>, name: String, id: (u32, u32))
    ensures
        name_contents(*final(map)) == name_contents(*old(map)).insert(name@, id),
{
    map.pin().insert(name, id);
}

/// The number of an unsigned variable's kind.
pub const TYPE_U64: u32 = 0;

/// The number of a signed variable's kind.
pub const TYPE_I64: u32 = 1;

/// The number of a blob's kind.
pub const TYPE_BLOB: u32 = 2;

/// What a guest sees in place of the number of a variable that it cannot have.
pub const NO_VARIABLE: u32 = 0xffff_ffff;

/// The order of a memory access that a guest asks for.
#[derive(Debug, Clone, Copy, PartialEq, Eq, Structural)]
pub enum MemoryOrder {
    Relaxed,
    Release,
    Acquire,
    AcqRel,
    SeqCst,
}

/// The order that a number stands for; the strictest for any number not known.
pub open spec fn order_of(order: u32) -> MemoryOrder {
    if order == 0 {
        MemoryOrder::Relaxed
    } else if order == 1 {
        MemoryOrder::Release
    } else if order == 2 {
        MemoryOrder::Acquire
    } else if order == 3 {
        MemoryOrder::AcqRel
    } else {
        MemoryOrder::SeqCst
    }
}

pub fn convert_ordering(order: u32) -> (converted: MemoryOrder)
    ensures
        converted == order_of(order),
{
    match order {
        0 => MemoryOrder::Relaxed,
        1 => MemoryOrder::Release,
        2 => MemoryOrder::Acquire,
        3 => MemoryOrder::AcqRel,
        _ => MemoryOrder::SeqCst,
    }
}

/// The shared variables of a plugin.
pub struct SharedMemory {
    names: papaya::HashMap<String, (u32, u32)>,
    u64_vars: Vec<u64>,
    i64_vars: Vec<i64>,
    blob_vars: Vec<Blob>,
    next_u64: u32,
    next_i64: u32,
    next_blob: u32,
}

/// The shared variables as they are described.
#[verifier::ext_equal]
pub ghost struct SharedView {
    pub names: Map<Seq<char>, (u32, u32)>,
    pub u64_vars: Seq<u64>,
    pub i64_vars: Seq<i64>,
    pub blobs: Seq<(Seq<u8>, u64)>,
    pub next_u64: u32,
    pub next_i64: u32,
    pub next_blob: u32,
}

/// The content and the version of each blob.
pub open spec fn blob_views(blobs: Seq<Blob>) -> Seq<(Seq<u8>, u64)> {
    blobs.map_values(|blob: Blob| (blob.data@, blob.version))
}

impl View for SharedMemory {
    type V = SharedView;

    closed spec fn view(&self) -> SharedView {
        SharedView {
            names: name_contents(self.names),
            u64_vars: self.u64_vars@,
            i64_vars: self.i64_vars@,
            blobs: blob_views(self.blob_vars@),
            next_u64: self.next_u64,
            next_i64: self.next_i64,
            next_blob: self.next_blob,
        }
    }
}

/// One more, around the end of the type.
pub open spec fn next_number(n: u32) -> u32 {
    if n == u32::MAX {
        0
    } else {
        (n + 1) as u32
    }
}

impl SharedView {
    /// The number under which a name is found, or taken, for a kind of
    /// variable. A name keeps the kind it was first used with; a kind whose
    /// variables are used up has none left.
    pub open spec fn resolved(self, name: Seq<char>, var_type: u32) -> u32 {
        if self.names.contains_key(name) {
            if self.names[name].0 == var_type {
                self.names[name].1
            } else {
                NO_VARIABLE
            }
        } else if var_type == TYPE_U64 && self.next_u64 < self.u64_vars.len() {
            self.next_u64
        } else if var_type == TYPE_I64 && self.next_i64 < self.i64_vars.len() {
            self.next_i64
        } else if var_type == TYPE_BLOB && self.next_blob < self.blobs.len() {
            self.next_blob
        } else {
            NO_VARIABLE
        }
    }

    /// The variables after a name was looked up for a kind.
    pub open spec fn after_resolve(self, name: Seq<char>, var_type: u32) -> SharedView {
        if self.names.contains_key(name) || var_type > TYPE_BLOB {
            self
        } else {
            let id = self.resolved(name, var_type);
            let taken = if var_type == TYPE_U64 {
                SharedView { next_u64: next_number(self.next_u64), ..self }
            } else if var_type == TYPE_I64 {
                SharedView { next_i64: next_number(self.next_i64), ..self }
            } else {
                SharedView { next_blob: next_number(self.next_blob), ..self }
            };
            let free = if var_type == TYPE_U64 {
                self.next_u64 < self.u64_vars.len()
            } else if var_type == TYPE_I64 {
                self.next_i64 < self.i64_vars.len()
            } else {
                self.next_blob < self.blobs.len()
            };
            if free {
                SharedView { names: self.names.insert(name, (var_type, id)), ..taken }
            } else {
                taken
            }
        }
    }
}

impl SharedMemory {
    /// `max_size` variables of each kind, all zero or empty.
    pub fn new(max_size: usize) -> (shared: SharedMemory)
        ensures
            shared@.names == no_names(),
            shared@.u64_vars == Seq::new(max_size as nat, |i: int| 0u64),
            shared@.i64_vars == Seq::new(max_size as nat, |i: int| 0i64),
            shared@.blobs == Seq::new(max_size as nat, |i: int| (Seq::<u8>::empty(), 0u64)),
            shared@.next_u64 == 0,
            shared@.next_i64 == 0,
            shared@.next_blob == 0,
    {
        let mut u64_vars: Vec<u64> = Vec::new();
        let mut i64_vars: Vec<i64> = Vec::new();
        let mut blob_vars: Vec<Blob> = Vec::new();
        let mut i: usize = 0;
        while i < max_size
            invariant
                i <= max_size,
                u64_vars@ == Seq::new(i as nat, |j: int| 0u64),
                i64_vars@ == Seq::new(i as nat, |j: int| 0i64),
                blob_views(blob_vars@) == Seq::new(i as nat, |j: int| (Seq::<u8>::empty(), 0u64)),
            decreases max_size - i,
        {
            let ghost before = blob_vars@;
            u64_vars.push(0);
            i64_vars.push(0);
            blob_vars.push(Blob { data: Vec::new(), version: 0 });
            i = i + 1;
            assert(u64_vars@ =~= Seq::new(i as nat, |j: int| 0u64));
            assert(i64_vars@ =~= Seq::new(i as nat, |j: int| 0i64));
            assert(blob_views(blob_vars@) =~= blob_views(before).push((Seq::<u8>::empty(), 0u64)));
            assert(blob_views(blob_vars@) =~= Seq::new(i as nat, |j: int| (Seq::<u8>::empty(), 0u64)));
        }
        SharedMemory {
            names: name_map_new(),
            u64_vars,
            i64_vars,
            blob_vars,
            next_u64: 0,
            next_i64: 0,
            next_blob: 0,
        }
    }

    /// The number of the variable of a name and a kind.
    pub fn resolve(&mut self, name: String, var_type: u32) -> (id: u32)
        ensures
            id == old(self)@.resolved(name@, var_type),
            final(self)@ == old(self)@.after_resolve(name@, var_type),
    {
        if let Some(found) = name_map_get(&self.names, name.as_str()) {
            if found.0 == var_type {
                return found.1;
            }
            return NO_VARIABLE;
        }
        if var_type == TYPE_U64 {
            let id: u32 = self.next_u64;
            self.next_u64 = id.wrapping_add(1);
            if id as u64 >= self.u64_vars.len() as u64 {
                return NO_VARIABLE;
            }
            name_map_insert(&mut self.names, name, (var_type, id));
            id
        } else if var_type == TYPE_I64 {
            let id: u32 = self.next_i64;
            self.next_i64 = id.wrapping_add(1);
            if id as u64 >= self.i64_vars.len() as u64 {
                return NO_VARIABLE;
            }
            name_map_insert(&mut self.names, name, (var_type, id));
            id
        } else if var_type == TYPE_BLOB {
            let id: u32 = self.next_blob;
            self.next_blob = id.wrapping_add(1);
            if id as u64 >= self.blob_vars.len() as u64 {
                return NO_VARIABLE;
            }
            name_map_insert(&mut self.names, name, (var_type, id));
            id
        } else {
            NO_VARIABLE
        }
    }

    /// The host call that looks up a variable by a name in guest memory.
    pub fn orion_shared_resolve(&mut self, mem: &[u8], name_ptr: u32, name_len: u32, var_type: u32) -> (id: u32)
        ensures
            ({
                let text = mem@.subrange(name_ptr as int, name_ptr + name_len);
                if within(mem@, name_ptr as int, name_len as int) && valid_utf8(text) {
                    id == old(self)@.resolved(decode_utf8(text), var_type) && final(self)@ == old(
                        self,
                    )@.after_resolve(decode_utf8(text), var_type)
                } else {
                    id == NO_VARIABLE && final(self)@ == old(self)@
                }
            }),
    {
        match read_text(mem, name_ptr, name_len) {
            Ok(name) => self.resolve(name, var_type),
            Err(_) => NO_VARIABLE,
        }
    }
}

/// What a read-modify-write access does to a variable.
#[derive(Debug, Clone, Copy, PartialEq, Eq, Structural)]
pub enum U64Access {
    Load,
    Store(u64),
    Swap(u64),
    CompareExchange { current: u64, new: u64 },
    FetchAdd(u64),
    FetchSub(u64),
    FetchAnd(u64),
    FetchNand(u64),
    FetchOr(u64),
    FetchXor(u64),
    FetchMax(u64),
    FetchMin(u64),
}

impl U64Access {
    /// The variable after the access.
    pub open spec fn applied(self, before: u64) -> u64 {
        match self {
            U64Access::Load => before,
            U64Access::Store(val) => val,
            U64Access::Swap(val) => val,
            U64Access::CompareExchange { current, new } => if before == current {
                new
            } else {
                before
            },
            U64Access::FetchAdd(val) => before.wrapping_add(val),
            U64Access::FetchSub(val) => before.wrapping_sub(val),
            U64Access::FetchAnd(val) => before & val,
            U64Access::FetchNand(val) => !(before & val),
            U64Access::FetchOr(val) => before | val,
            U64Access::FetchXor(val) => before ^ val,
            U64Access::FetchMax(val) => if val > before {
                val
            } else {
                before
            },
            U64Access::FetchMin(val) => if val < before {
                val
            } else {
                before
            },
        }
    }

    fn apply(self, before: u64) -> (after: u64)
        ensures
            after == self.applied(before),
    {
        match self {
            U64Access::Load => before,
            U64Access::Store(val) => val,
            U64Access::Swap(val) => val,
            U64Access::CompareExchange { current, new } => {
                if before == current {
                    new
                } else {
                    before
                }
            },
            U64Access::FetchAdd(val) => before.wrapping_add(val),
            U64Access::FetchSub(val) => before.wrapping_sub(val),
            U64Access::FetchAnd(val) => before & val,
            U64Access::FetchNand(val) => !(before & val),
            U64Access::FetchOr(val) => before | val,
            U64Access::FetchXor(val) => before ^ val,
            U64Access::FetchMax(val) => {
                if val > before {
                    val
                } else {
                    before
                }
            },
            U64Access::FetchMin(val) => {
                if val < before {
                    val
                } else {
                    before
                }
            },
        }
    }
}

/// What a read-modify-write access does to a signed variable.
#[derive(Debug, Clone, Copy, PartialEq, Eq, Structural)]
pub enum I64Access {
    Load,
    Store(i64),
    Swap(i64),
    CompareExchange { current: i64, new: i64 },
    FetchAdd(i64),
    FetchSub(i64),
    FetchAnd(i64),
    FetchNand(i64),
    FetchOr(i64),
    FetchXor(i64),
    FetchMax(i64),
    FetchMin(i64),
}

impl I64Access {
    /// The variable after the access.
    pub open spec fn applied(self, before: i64) -> i64 {
        match self {
            I64Access::Load => before,
            I64Access::Store(val) => val,
            I64Access::Swap(val) => val,
            I64Access::CompareExchange { current, new } => if before == current {
                new
            } else {
                before
            },
            I64Access::FetchAdd(val) => before.wrapping_add(val),
            I64Access::FetchSub(val) => before.wrapping_sub(val),
            I64Access::FetchAnd(val) => before & val,
            I64Access::FetchNand(val) => !(before & val),
            I64Access::FetchOr(val) => before | val,
            I64Access::FetchXor(val) => before ^ val,
            I64Access::FetchMax(val) => if val > before {
                val
            } else {
                before
            },
            I64Access::FetchMin(val) => if val < before {
                val
            } else {
                before
            },
        }
    }

    fn apply(self, before: i64) -> (after: i64)
        ensures
            after == self.applied(before),
    {
        match self {
            I64Access::Load => before,
            I64Access::Store(val) => val,
            I64Access::Swap(val) => val,
            I64Access::CompareExchange { current, new } => {
                if before == current {
                    new
                } else {
                    before
                }
            },
            I64Access::FetchAdd(val) => before.wrapping_add(val),
            I64Access::FetchSub(val) => before.wrapping_sub(val),
            I64Access::FetchAnd(val) => before & val,
            I64Access::FetchNand(val) => !(before & val),
            I64Access::FetchOr(val) => before | val,
            I64Access::FetchXor(val) => before ^ val,
            I64Access::FetchMax(val) => {
                if val > before {
                    val
                } else {
                    before
                }
            },
            I64Access::FetchMin(val) => {
                if val < before {
                    val
                } else {
                    before
                }
            },
        }
    }
}

/// The variables after an access to the unsigned one numbered `id`.
pub open spec fn u64_accessed(shared: SharedView, id: u32, access: U64Access) -> SharedView {
    if id < shared.u64_vars.len() {
        SharedView {
            u64_vars: shared.u64_vars.update(id as int, access.applied(shared.u64_vars[id as int])),
            ..shared
        }
    } else {
        shared
    }
}

/// The variables after an access to the signed one numbered `id`.
pub open spec fn i64_accessed(shared: SharedView, id: u32, access: I64Access) -> SharedView {
    if id < shared.i64_vars.len() {
        SharedView {
            i64_vars: shared.i64_vars.update(id as int, access.applied(shared.i64_vars[id as int])),
            ..shared
        }
    } else {
        shared
    }
}

/// The variables with one blob replaced.
pub open spec fn with_blob(shared: SharedView, id: u32, data: Seq<u8>, version: u64) -> SharedView {
    SharedView { blobs: shared.blobs.update(id as int, (data, version)), ..shared }
}

impl SharedMemory {
    /// Accesses an unsigned variable and answers with what it held before. A
    /// variable that is not there holds zero and stays away.
    pub fn access_u64(&mut self, id: u32, access: U64Access) -> (before: u64)
        ensures
            before == (if id < old(self)@.u64_vars.len() {
                old(self)@.u64_vars[id as int]
            } else {
                0
            }),
            final(self)@ == u64_accessed(old(self)@, id, access),
    {
        if id as u64 >= self.u64_vars.len() as u64 {
            return 0;
        }
        let at: usize = id as usize;
        let before: u64 = self.u64_vars[at];
        self.u64_vars.set(at, access.apply(before));
        assert(self@ =~= u64_accessed(old(self)@, id, access));
        before
    }

    /// Accesses a signed variable and answers with what it held before.
    pub fn access_i64(&mut self, id: u32, access: I64Access) -> (before: i64)
        ensures
            before == (if id < old(self)@.i64_vars.len() {
                old(self)@.i64_vars[id as int]
            } else {
                0
            }),
            final(self)@ == i64_accessed(old(self)@, id, access),
    {
        if id as u64 >= self.i64_vars.len() as u64 {
            return 0;
        }
        let at: usize = id as usize;
        let before: i64 = self.i64_vars[at];
        self.i64_vars.set(at, access.apply(before));
        assert(self@ =~= i64_accessed(old(self)@, id, access));
        before
    }

    /// Reads a blob into guest memory and answers with its length. The version
    /// is written where there is room for it; the content only if all of it fits
    /// the guest's buffer.
    pub fn blob_read(&self, mem: &mut [u8], id: u32, buf_ptr: u32, buf_len: u32, version_ptr: u32) -> (len: u32)
        ensures
            len == blob_read_len(self@, id),
            final(mem)@ == blob_read_memory(self@, old(mem)@, id, buf_ptr, buf_len, version_ptr),
    {
        if id as u64 >= self.blob_vars.len() as u64 {
            return NO_VARIABLE;
        }
        let blob: &Blob = &self.blob_vars[id as usize];
        assert(self@.blobs[id as int] == (blob.data@, blob.version));
        write_u64(mem, version_ptr, blob.version);
        let len: u64 = blob.data.len() as u64;
        if len > u32::MAX as u64 {
            return 0;
        }
        if len <= buf_len as u64 {
            write_bytes(mem, buf_ptr, &blob.data);
        }
        len as u32
    }

    /// The version of a blob, where there is one of that number.
    pub fn blob_version(&self, id: u32) -> (version: Option<u64>)
        ensures
            version == (if id < self@.blobs.len() {
                Some(self@.blobs[id as int].1)
            } else {
                None
            }),
    {
        if id as u64 >= self.blob_vars.len() as u64 {
            return None;
        }
        assert(self@.blobs[id as int].1 == self.blob_vars@[id as int].version);
        Some(self.blob_vars[id as usize].version)
    }

    /// Replaces a blob by bytes from guest memory and answers with its new
    /// version, or with zero where that cannot be done.
    pub fn blob_write(&mut self, mem: &[u8], id: u32, buf_ptr: u32, buf_len: u32) -> (version: u64)
        requires
            id < old(self)@.blobs.len() ==> old(self)@.blobs[id as int].1 < u64::MAX,
        ensures
            if id < old(self)@.blobs.len() && within(mem@, buf_ptr as int, buf_len as int) {
                &&& version == old(self)@.blobs[id as int].1 + 1
                &&& final(self)@ == with_blob(
                    old(self)@,
                    id,
                    mem@.subrange(buf_ptr as int, buf_ptr + buf_len),
                    version,
                )
            } else {
                version == 0 && final(self)@ == old(self)@
            },
    {
        if id as u64 >= self.blob_vars.len() as u64 {
            return 0;
        }
        match read_bytes(mem, buf_ptr, buf_len) {
            Err(_) => 0,
            Ok(data) => {
                let at: usize = id as usize;
                assert(self@.blobs[id as int].1 == self.blob_vars@[id as int].version);
                let version: u64 = self.blob_vars[at].version + 1;
                let ghost content = data@;
                self.blob_vars.set(at, Blob { data, version });
                assert(self@.blobs =~= old(self)@.blobs.update(id as int, (content, version)));
                assert(self@ =~= with_blob(old(self)@, id, content, version));
                version
            },
        }
    }

    /// Replaces a blob only if it has the version the guest expects, and tells
    /// the guest in four bytes whether it had. Answers with the version of the
    /// blob as it is afterwards.
    pub fn blob_cas(
        &mut self,
        mem: &mut [u8],
        id: u32,
        buf_ptr: u32,
        buf_len: u32,
        expected_version: u64,
        success_ptr: u32,
    ) -> (version: u64)
        requires
            id < old(self)@.blobs.len() && old(self)@.blobs[id as int].1 == expected_version ==> expected_version
                < u64::MAX,
        ensures
            if id >= old(self)@.blobs.len() {
                version == 0 && final(self)@ == old(self)@ && final(mem)@ == old(mem)@
            } else {
                let before = old(self)@.blobs[id as int];
                let success = before.1 == expected_version;
                let fits = within(old(mem)@, buf_ptr as int, buf_len as int);
                &&& version == (if success && fits {
                    (before.1 + 1) as u64
                } else {
                    before.1
                })
                &&& final(self)@ == (if success && fits {
                    with_blob(old(self)@, id, old(mem)@.subrange(buf_ptr as int, buf_ptr + buf_len), version)
                } else {
                    old(self)@
                })
                &&& final(mem)@ == (if within(old(mem)@, success_ptr as int, 4) {
                    patched(old(mem)@, success_ptr as int, le4(if success {
                        1
                    } else {
                        0
                    }))
                } else {
                    old(mem)@
                })
            },
    {
        if id as u64 >= self.blob_vars.len() as u64 {
            return 0;
        }
        let at: usize = id as usize;
        assert(self@.blobs[id as int] == (self.blob_vars@[id as int].data@, self.blob_vars@[id as int].version));
        let success: bool = self.blob_vars[at].version == expected_version;
        if success {
            if let Ok(data) = read_bytes(mem, buf_ptr, buf_len) {
                let version: u64 = self.blob_vars[at].version + 1;
                let ghost content = data@;
                self.blob_vars.set(at, Blob { data, version });
                assert(self@.blobs =~= old(self)@.blobs.update(id as int, (content, version)));
                assert(self@ =~= with_blob(old(self)@, id, content, version));
            }
        }
        write_u32(
            mem,
            success_ptr,
            if success {
                1
            } else {
                0
            },
        );
        self.blob_vars[at].version
    }
}

/// The length a guest sees of a blob: a blob beyond what it can see has none.
pub open spec fn blob_read_len(shared: SharedView, id: u32) -> u32 {
    if id >= shared.blobs.len() {
        NO_VARIABLE
    } else if shared.blobs[id as int].0.len() > u32::MAX {
        0
    } else {
        shared.blobs[id as int].0.len() as u32
    }
}

/// The guest's memory after it read a blob.
pub open spec fn blob_read_memory(
    shared: SharedView,
    mem: Seq<u8>,
    id: u32,
    buf_ptr: u32,
    buf_len: u32,
    version_ptr: u32,
) -> Seq<u8> {
    if id >= shared.blobs.len() {
        mem
    } else {
        let (data, version) = shared.blobs[id as int];
        let stamped = if within(mem, version_ptr as int, 8) {
            patched(mem, version_ptr as int, le8(version))
        } else {
            mem
        };
        if data.len() <= u32::MAX && data.len() <= buf_len && within(mem, buf_ptr as int, data.len() as int) {
            patched(stamped, buf_ptr as int, data)
        } else {
            stamped
        }
    }
}

/// The names of a plugin are sound: each has a variable that is there, below
/// the next free number, and no two of one kind share a number.
pub open spec fn sound(shared: SharedView) -> bool {
    &&& forall|name: Seq<char>| #[trigger]
        shared.names.contains_key(name) ==> {
            let (kind, id) = shared.names[name];
            ||| kind == TYPE_U64 && id < shared.next_u64 && id < shared.u64_vars.len()
            ||| kind == TYPE_I64 && id < shared.next_i64 && id < shared.i64_vars.len()
            ||| kind == TYPE_BLOB && id < shared.next_blob && id < shared.blobs.len()
        }
    &&& forall|a: Seq<char>, b: Seq<char>|
        #![trigger shared.names.contains_key(a), shared.names.contains_key(b)]
        shared.names.contains_key(a) && shared.names.contains_key(b) && shared.names[a] == shared.names[b] ==> a == b
}

/// Looking up a name keeps the names sound, as long as no more lookups were
/// made than a counter can count.
pub proof fn law_resolve_keeps_names_sound(shared: SharedView, name: Seq<char>, var_type: u32)
    requires
        sound(shared),
        shared.next_u64 < u32::MAX,
        shared.next_i64 < u32::MAX,
        shared.next_blob < u32::MAX,
    ensures
        sound(shared.after_resolve(name, var_type)),
{
    let after = shared.after_resolve(name, var_type);
    assert forall|n: Seq<char>| #[trigger] after.names.contains_key(n) implies {
        let (kind, id) = after.names[n];
        ||| kind == TYPE_U64 && id < after.next_u64 && id < after.u64_vars.len()
        ||| kind == TYPE_I64 && id < after.next_i64 && id < after.i64_vars.len()
        ||| kind == TYPE_BLOB && id < after.next_blob && id < after.blobs.len()
    } by {
        if n != name {
            assert(shared.names.contains_key(n));
        }
    }
    assert forall|a: Seq<char>, b: Seq<char>|
        #![trigger after.names.contains_key(a), after.names.contains_key(b)]
        after.names.contains_key(a) && after.names.contains_key(b) && after.names[a] == after.names[b] implies a
        == b by {
        if a != name {
            assert(shared.names.contains_key(a));
        }
        if b != name {
            assert(shared.names.contains_key(b));
        }
    }
}

/// A name that was found once is found again, under the same number, and
/// looking it up again changes nothing.
pub proof fn law_resolve_is_stable(shared: SharedView, name: Seq<char>, var_type: u32)
    requires
        shared.u64_vars.len() <= u32::MAX,
        shared.i64_vars.len() <= u32::MAX,
        shared.blobs.len() <= u32::MAX,
        shared.resolved(name, var_type) != NO_VARIABLE,
    ensures
        shared.after_resolve(name, var_type).resolved(name, var_type) == shared.resolved(name, var_type),
        shared.after_resolve(name, var_type).after_resolve(name, var_type) == shared.after_resolve(name, var_type),
{
}

/// A name keeps the kind it was first used with: for any other kind it has no variable.
pub proof fn law_name_keeps_its_kind(shared: SharedView, name: Seq<char>, var_type: u32, other: u32)
    requires
        shared.resolved(name, var_type) != NO_VARIABLE,
        other != var_type,
    ensures
        shared.after_resolve(name, var_type).resolved(name, other) == NO_VARIABLE,
{
}

/// Of two guests that both expect the present version of a blob, only the
/// first changes it.
pub proof fn law_one_exchange_wins(shared: SharedView, id: u32, data: Seq<u8>, expected: u64)
    requires
        id < shared.blobs.len(),
        shared.blobs[id as int].1 == expected,
        expected < u64::MAX,
    ensures
        with_blob(shared, id, data, (expected + 1) as u64).blobs[id as int].1 != expected,
        with_blob(shared, id, data, (expected + 1) as u64).blobs[id as int].0 == data,
{
}

/// What accesses do to an unsigned variable: adding and subtracting undo each
/// other and count around the end of the type, the larger and the smaller are
/// one of the two, an exchange happens exactly where the expected value is
/// found, and of the bits those of both, of either, of one alone, or all but
/// those of both are set.
pub proof fn law_u64_accesses(before: u64, val: u64, new: u64)
    ensures
        U64Access::Load.applied(before) == before,
        U64Access::Store(val).applied(before) == val,
        U64Access::Swap(val).applied(before) == val,
        (U64Access::CompareExchange { current: val, new }).applied(before) == (if before == val {
            new
        } else {
            before
        }),
        U64Access::FetchSub(val).applied(U64Access::FetchAdd(val).applied(before)) == before,
        before + val <= u64::MAX ==> U64Access::FetchAdd(val).applied(before) == before + val,
        before >= val ==> U64Access::FetchSub(val).applied(before) == before - val,
        U64Access::FetchMax(val).applied(before) >= before && U64Access::FetchMax(val).applied(before) >= val,
        U64Access::FetchMax(val).applied(before) == before || U64Access::FetchMax(val).applied(before) == val,
        U64Access::FetchMin(val).applied(before) <= before && U64Access::FetchMin(val).applied(before) <= val,
        U64Access::FetchMin(val).applied(before) == before || U64Access::FetchMin(val).applied(before) == val,
        U64Access::FetchXor(val).applied(U64Access::FetchXor(val).applied(before)) == before,
        U64Access::FetchAnd(val).applied(before) + U64Access::FetchOr(val).applied(before) == before + val,
        U64Access::FetchXor(val).applied(before) == U64Access::FetchOr(val).applied(before) - U64Access::FetchAnd(
            val,
        ).applied(before),
        U64Access::FetchAnd(val).applied(before) <= before,
        U64Access::FetchAnd(u64::MAX).applied(before) == before,
        U64Access::FetchNand(val).applied(before) + U64Access::FetchAnd(val).applied(before) == u64::MAX,
{
    assert((before ^ val) ^ val == before) by (bit_vector);
    assert((before & val) as u128 + (before | val) as u128 == before as u128 + val as u128) by (bit_vector);
    assert((before ^ val) as u128 + (before & val) as u128 == (before | val) as u128) by (bit_vector);
    assert(before & val <= before) by (bit_vector);
    assert(before & 0xffff_ffff_ffff_ffff == before) by (bit_vector);
    assert(!(before & val) as u128 + (before & val) as u128 == 0xffff_ffff_ffff_ffff) by (bit_vector);
}

/// What accesses do to a signed variable, as to an unsigned one.
pub proof fn law_i64_accesses(before: i64, val: i64, new: i64)
    ensures
        I64Access::Load.applied(before) == before,
        I64Access::Store(val).applied(before) == val,
        I64Access::Swap(val).applied(before) == val,
        (I64Access::CompareExchange { current: val, new }).applied(before) == (if before == val {
            new
        } else {
            before
        }),
        I64Access::FetchSub(val).applied(I64Access::FetchAdd(val).applied(before)) == before,
        i64::MIN <= before + val <= i64::MAX ==> I64Access::FetchAdd(val).applied(before) == before + val,
        i64::MIN <= before - val <= i64::MAX ==> I64Access::FetchSub(val).applied(before) == before - val,
        I64Access::FetchMax(val).applied(before) >= before && I64Access::FetchMax(val).applied(before) >= val,
        I64Access::FetchMax(val).applied(before) == before || I64Access::FetchMax(val).applied(before) == val,
        I64Access::FetchMin(val).applied(before) <= before && I64Access::FetchMin(val).applied(before) <= val,
        I64Access::FetchMin(val).applied(before) == before || I64Access::FetchMin(val).applied(before) == val,
        I64Access::FetchXor(val).applied(I64Access::FetchXor(val).applied(before)) == before,
        I64Access::FetchAnd(val).applied(before) + I64Access::FetchOr(val).applied(before) == before + val,
        I64Access::FetchAnd(-1i64).applied(before) == before,
        I64Access::FetchXor(val).applied(before) == I64Access::FetchOr(val).applied(before) - I64Access::FetchAnd(
            val,
        ).applied(before),
        I64Access::FetchNand(val).applied(before) + I64Access::FetchAnd(val).applied(before) == -1,
{
    assert((before ^ val) ^ val == before) by (bit_vector);
    assert((before & val) as i128 + (before | val) as i128 == before as i128 + val as i128) by (bit_vector);
    assert((before ^ val) as i128 + (before & val) as i128 == (before | val) as i128) by (bit_vector);
    assert(before & -1i64 == before) by (bit_vector);
    assert(!(before & val) as i128 + (before & val) as i128 == -1i128) by (bit_vector);
}

/// An access reaches its own variable alone, and a number that stands for none
/// changes nothing.
pub proof fn law_access_reaches_one_variable(shared: SharedView, id: u32, other: u32, access: U64Access)
    requires
        other != id,
    ensures
        ({
            let after = u64_accessed(shared, id, access);
            &&& id >= shared.u64_vars.len() ==> after == shared
            &&& after.u64_vars.len() == shared.u64_vars.len()
            &&& id < shared.u64_vars.len() ==> after.u64_vars[id as int] == access.applied(shared.u64_vars[id as int])
            &&& other < shared.u64_vars.len() ==> after.u64_vars[other as int] == shared.u64_vars[other as int]
            &&& after.names == shared.names && after.i64_vars == shared.i64_vars && after.blobs == shared.blobs
        }),
{
}

/// A signed access reaches its own variable alone too.
pub proof fn law_signed_access_reaches_one_variable(shared: SharedView, id: u32, other: u32, access: I64Access)
    requires
        other != id,
    ensures
        ({
            let after = i64_accessed(shared, id, access);
            &&& id >= shared.i64_vars.len() ==> after == shared
            &&& after.i64_vars.len() == shared.i64_vars.len()
            &&& id < shared.i64_vars.len() ==> after.i64_vars[id as int] == access.applied(shared.i64_vars[id as int])
            &&& other < shared.i64_vars.len() ==> after.i64_vars[other as int] == shared.i64_vars[other as int]
            &&& after.names == shared.names && after.u64_vars == shared.u64_vars && after.blobs == shared.blobs
        }),
{
}

/// A guest with room for a blob reads its bytes, its length and its version.
pub proof fn law_blob_reads_back(
    shared: SharedView,
    mem: Seq<u8>,
    id: u32,
    buf_ptr: u32,
    buf_len: u32,
    version_ptr: u32,
)
    requires
        id < shared.blobs.len(),
        shared.blobs[id as int].0.len() <= buf_len,
        buf_ptr + shared.blobs[id as int].0.len() <= mem.len(),
        version_ptr + 8 <= mem.len(),
        version_ptr + 8 <= buf_ptr || buf_ptr + shared.blobs[id as int].0.len() <= version_ptr,
    ensures
        ({
            let (data, version) = shared.blobs[id as int];
            let after = blob_read_memory(shared, mem, id, buf_ptr, buf_len, version_ptr);
            &&& blob_read_len(shared, id) == data.len()
            &&& after.subrange(buf_ptr as int, buf_ptr + data.len()) == data
            &&& after.subrange(version_ptr as int, version_ptr + 8) == le8(version)
        }),
{
    let (data, version) = shared.blobs[id as int];
    let after = blob_read_memory(shared, mem, id, buf_ptr, buf_len, version_ptr);
    assert(le8(version).len() == 8);
    assert(after.subrange(buf_ptr as int, buf_ptr + data.len()) =~= data);
    assert(after.subrange(version_ptr as int, version_ptr + 8) =~= le8(version));
}

/// A name that is new gets the next variable of its kind while one is left,
/// and none after that. The variables themselves stay as they are.
pub proof fn law_new_name_gets_the_next_variable(shared: SharedView, name: Seq<char>, var_type: u32)
    requires
        !shared.names.contains_key(name),
        shared.u64_vars.len() < NO_VARIABLE,
        shared.i64_vars.len() < NO_VARIABLE,
        shared.blobs.len() < NO_VARIABLE,
    ensures
        ({
            let id = shared.resolved(name, var_type);
            let after = shared.after_resolve(name, var_type);
            let (next, left) = if var_type == TYPE_U64 {
                (shared.next_u64, shared.next_u64 < shared.u64_vars.len())
            } else if var_type == TYPE_I64 {
                (shared.next_i64, shared.next_i64 < shared.i64_vars.len())
            } else if var_type == TYPE_BLOB {
                (shared.next_blob, shared.next_blob < shared.blobs.len())
            } else {
                (0, false)
            };
            &&& left ==> id == next && after.names.contains_key(name) && after.names[name] == (var_type, id)
            &&& !left ==> id == NO_VARIABLE && after.names == shared.names
            &&& after.u64_vars == shared.u64_vars && after.i64_vars == shared.i64_vars && after.blobs == shared.blobs
        }),
{
}

} // verus!
