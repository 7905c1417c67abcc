//! The state a program is emitted into.
use vstd::prelude::*;

use crate::isa::{deps_view, insts_view, Args, CuRange, Dep, DevOp, Inst, InstView};

verus! {

/// What a tensor map describes.
#[derive(Clone, Copy, PartialEq, Eq, Debug, Structural)]
pub enum TmapKind {
    /// A `rows x k` view of a bf16 tensor.
    Bf16,
    /// A `rows x k` view of an e4m3 tensor.
    E4m3,
    /// A key and a value cache read as a pair.
    KvPair { ring: u32, hd: u32, nkv: u32 },
}

/// A tensor map: its three-part key and what it describes.
///
/// A plain view is keyed by its target, row count and width; a key/value pair by the two cache
/// handles and `u32::MAX`.
#[derive(Clone, Copy, PartialEq, Eq, Debug, Structural)]
pub struct TmapDecl {
    pub a: u32,
    pub b: u32,
    pub c: u32,
    pub kind: TmapKind,
}

/// Whether two maps have the same key.
pub open spec fn same_key(x: TmapDecl, y: TmapDecl) -> bool {
    x.a == y.a && x.b == y.b && x.c == y.c
}

/// The tensor maps a model needs, each under a handle of its own. Handles start at `base`, the
/// number of tensors declared before.
pub struct TmapMint {
    pub base: u32,
    pub decls: Vec<TmapDecl>,
}

/// The value of a [`TmapMint`].
pub struct MintView {
    pub base: u32,
    pub decls: Seq<TmapDecl>,
}

impl View for TmapMint {
    type V = MintView;

    open spec fn view(&self) -> MintView {
        MintView { base: self.base, decls: self.decls@ }
    }
}

/// The position of the first map at or after `from` with the key of `d`, or the length.
pub open spec fn key_index(decls: Seq<TmapDecl>, d: TmapDecl, from: int) -> int
    decreases decls.len() - from,
{
    if from >= decls.len() {
        decls.len() as int
    } else if same_key(decls[from], d) {
        from
    } else {
        key_index(decls, d, from + 1)
    }
}

/// Asking for a map: the handle of the one that has its key, or a new handle.
pub open spec fn mint(m: MintView, d: TmapDecl) -> (MintView, u32) {
    let i = key_index(m.decls, d, 0);
    if i < m.decls.len() {
        (m, (m.base + i) as u32)
    } else {
        (MintView { base: m.base, decls: m.decls.push(d) }, (m.base + m.decls.len()) as u32)
    }
}

/// No key occurs twice.
pub open spec fn keys_distinct(decls: Seq<TmapDecl>) -> bool {
    forall|i: int, j: int|
        0 <= i < j < decls.len() ==> !same_key(#[trigger] decls[i], #[trigger] decls[j])
}

proof fn key_index_is_first(decls: Seq<TmapDecl>, d: TmapDecl, from: int)
    requires
        0 <= from <= decls.len(),
    ensures
        from <= key_index(decls, d, from) <= decls.len(),
        key_index(decls, d, from) < decls.len() ==> same_key(decls[key_index(decls, d, from)], d),
        forall|i: int|
            from <= i < key_index(decls, d, from) ==> !same_key(#[trigger] decls[i], d),
    decreases decls.len() - from,
{
    if from < decls.len() && !same_key(decls[from], d) {
        key_index_is_first(decls, d, from + 1);
    }
}

/// Minting keeps the keys distinct, gives every map one handle for good, and hands a map that was
/// asked for before the handle it had.
pub proof fn minting_is_stable(m: MintView, d: TmapDecl)
    requires
        keys_distinct(m.decls),
        m.base + m.decls.len() < u32::MAX,
    ensures
        keys_distinct(mint(m, d).0.decls),
        m.decls.is_prefix_of(mint(m, d).0.decls),
        mint(m, d).0.base == m.base,
        same_key(mint(m, d).0.decls[mint(m, d).1 - m.base], d),
        mint(mint(m, d).0, d) == mint(m, d),
{
    key_index_is_first(m.decls, d, 0);
    let n = mint(m, d).0;
    key_index_is_first(n.decls, d, 0);
    let i = key_index(m.decls, d, 0);
    let k = key_index(n.decls, d, 0);
    if i >= m.decls.len() {
        assert(same_key(n.decls[m.decls.len() as int], d));
        assert(k == m.decls.len()) by {
            if k < m.decls.len() {
                assert(same_key(m.decls[k], d));
            }
        }
    }
}

/// Two different keys get two different handles.
pub proof fn different_keys_get_different_handles(m: MintView, d: TmapDecl, e: TmapDecl)
    requires
        keys_distinct(m.decls),
        m.base + m.decls.len() + 1 < u32::MAX,
        !same_key(d, e),
    ensures
        mint(m, d).1 != mint(mint(m, d).0, e).1,
{
    minting_is_stable(m, d);
    let n = mint(m, d).0;
    key_index_is_first(m.decls, d, 0);
    minting_is_stable(n, e);
    key_index_is_first(n.decls, e, 0);
}

impl TmapMint {
    /// The handle of the tensor map `d`, minting it where its key is new.
    pub fn handle(&mut self, d: TmapDecl) -> (r: u32)
        requires
            old(self).base + old(self).decls@.len() < u32::MAX,
        ensures
            final(self)@ == mint(old(self)@, d).0,
            r == mint(old(self)@, d).1,
            final(self).decls@.len() <= old(self).decls@.len() + 1,
    {
        let mut i: usize = 0;
        while i < self.decls.len()
            invariant
                i <= self.decls@.len(),
                *self == *old(self),
                old(self).base + old(self).decls@.len() < u32::MAX,
                key_index(self.decls@, d, 0) == key_index(self.decls@, d, i as int),
            decreases self.decls@.len() - i,
        {
            let e: TmapDecl = self.decls[i];
            if e.a == d.a && e.b == d.b && e.c == d.c {
                return self.base + i as u32;
            }
            i = i + 1;
        }
        let h: u32 = self.base + self.decls.len() as u32;
        self.decls.push(d);
        h
    }
}

/// A program under emission: its instructions so far, the instructions that write a key/value row,
/// the next free rendezvous gate, and the tensor maps it asked for.
pub struct Emission {
    pub insts: Vec<Inst>,
    pub kv_rows: Vec<u32>,
    pub xgate: u32,
    pub tmaps: TmapMint,
}

/// The value of an [`Emission`].
pub struct Emitted {
    pub insts: Seq<InstView>,
    pub kv_rows: Seq<u32>,
    pub xgate: u32,
    pub tmaps: MintView,
}

impl View for Emission {
    type V = Emitted;

    open spec fn view(&self) -> Emitted {
        Emitted {
            insts: insts_view(self.insts@),
            kv_rows: self.kv_rows@,
            xgate: self.xgate,
            tmaps: self.tmaps@,
        }
    }
}

impl Emitted {
    /// The identifier of the next instruction: its position.
    pub open spec fn next(self) -> u32 {
        self.insts.len() as u32
    }

    /// With one more instruction.
    pub open spec fn then_inst(self, i: InstView) -> Emitted {
        Emitted { insts: self.insts.push(i), ..self }
    }

    /// With instruction `c` noted as a writer of a key/value row.
    pub open spec fn with_kv_row(self, c: u32) -> Emitted {
        Emitted { kv_rows: self.kv_rows.push(c), ..self }
    }

    /// With the next free gate moved to `g`.
    pub open spec fn with_gate(self, g: u32) -> Emitted {
        Emitted { xgate: g, ..self }
    }

    /// With the tensor map `d` minted.
    pub open spec fn with_tmap(self, d: TmapDecl) -> Emitted {
        Emitted { tmaps: mint(self.tmaps, d).0, ..self }
    }

    /// The handle of the tensor map `d`.
    pub open spec fn tmap(self, d: TmapDecl) -> u32 {
        mint(self.tmaps, d).1
    }

    /// Whether `n` more instructions, gates and tensor maps can be numbered.
    pub open spec fn room(self, n: int) -> bool {
        &&& self.insts.len() + n <= u32::MAX
        &&& self.xgate + n <= u32::MAX
        &&& self.tmaps.base + self.tmaps.decls.len() + n <= u32::MAX
    }

    /// Whether `self` uses at most `n` more instructions, gates and tensor maps than `s`.
    pub open spec fn within(self, s: Emitted, n: int) -> bool {
        &&& self.insts.len() <= s.insts.len() + n
        &&& self.xgate <= s.xgate + n
        &&& self.tmaps.base == s.tmaps.base
        &&& self.tmaps.decls.len() <= s.tmaps.decls.len() + n
    }
}

impl Emission {
    /// Nothing emitted yet.
    pub fn new(base: u32) -> (r: Emission)
        ensures
            r@.insts == Seq::<InstView>::empty(),
            r@.kv_rows == Seq::<u32>::empty(),
            r@.xgate == 0,
            r@.tmaps.base == base,
            r@.tmaps.decls == Seq::<TmapDecl>::empty(),
    {
        let r = Emission {
            insts: Vec::new(),
            kv_rows: Vec::new(),
            xgate: 0,
            tmaps: TmapMint { base, decls: Vec::new() },
        };
        proof {
            assert(insts_view(r.insts@) =~= Seq::<InstView>::empty());
        }
        r
    }

    /// Appends an instruction and returns its identifier.
    pub fn emit(&mut self, op: DevOp, cus: CuRange, deps: Vec<Dep>, args: Args) -> (r: u32)
        requires
            old(self)@.insts.len() < u32::MAX,
        ensures
            final(self)@ == old(self)@.then_inst(
                InstView { op, cus, deps: deps_view(deps@), args },
            ),
            r == old(self)@.next(),
            r == old(self)@.insts.len(),
    {
        let r: u32 = self.insts.len() as u32;
        let ghost i = InstView { op, cus, deps: deps_view(deps@), args };
        self.insts.push(Inst { op, cus, deps, args });
        proof {
            assert(self@.insts =~= old(self)@.insts.push(i));
        }
        r
    }

    /// Notes a writer of a key/value row.
    pub fn note_kv_row(&mut self, c: u32)
        ensures
            final(self)@ == old(self)@.with_kv_row(c),
    {
        self.kv_rows.push(c);
    }

    /// Takes the next free gate.
    pub fn take_gate(&mut self) -> (r: u32)
        requires
            old(self)@.xgate < u32::MAX,
        ensures
            r == old(self)@.xgate,
            final(self)@ == old(self)@.with_gate((old(self)@.xgate + 1) as u32),
    {
        let g: u32 = self.xgate;
        self.xgate = g + 1;
        g
    }

    /// The handle of a tensor map.
    pub fn tmap(&mut self, d: TmapDecl) -> (r: u32)
        requires
            old(self)@.tmaps.base + old(self)@.tmaps.decls.len() < u32::MAX,
        ensures
            final(self)@ == old(self)@.with_tmap(d),
            r == old(self)@.tmap(d),
            final(self)@.within(old(self)@, 1),
    {
        self.tmaps.handle(d)
    }
}

} // verus!
